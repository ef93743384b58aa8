//! The TenantPipeline custom resource: what a tenant's owner declares, and
//! what the operator reports back.

use crate::clock::Timestamp;
use crate::text::opt_text;
use vstd::prelude::*;

verus! {

pub const GROUP: &'static str = "infrastructure.vanguard.io";

pub const VERSION: &'static str = "v1alpha1";

pub const KIND: &'static str = "TenantPipeline";

pub const FINALIZER: &'static str = "vanguard.io/tenant-cleanup";

pub const CONDITION_READY: &'static str = "Ready";

/// Token-bucket rate-limit parameters for a tenant tier ("free", "pro" or
/// "enterprise").
#[derive(Debug, PartialEq)]
pub struct RateLimitPolicy {
    pub tier: String,
    pub requests_per_second: i32,
    pub burst_capacity: i32,
    pub max_concurrent: i32,
}

pub struct RateLimitPolicyView {
    pub tier: Seq<char>,
    pub requests_per_second: i32,
    pub burst_capacity: i32,
    pub max_concurrent: i32,
}

impl View for RateLimitPolicy {
    type V = RateLimitPolicyView;

    open spec fn view(&self) -> RateLimitPolicyView {
        RateLimitPolicyView {
            tier: self.tier@,
            requests_per_second: self.requests_per_second,
            burst_capacity: self.burst_capacity,
            max_concurrent: self.max_concurrent,
        }
    }
}

impl Clone for RateLimitPolicy {
    fn clone(&self) -> (r: Self)
        ensures
            r@ == self@,
    {
        RateLimitPolicy {
            tier: self.tier.clone(),
            requests_per_second: self.requests_per_second,
            burst_capacity: self.burst_capacity,
            max_concurrent: self.max_concurrent,
        }
    }
}

impl Default for RateLimitPolicy {
    fn default() -> (r: Self)
        ensures
            r@ == (RateLimitPolicyView {
                tier: Seq::empty(),
                requests_per_second: 0,
                burst_capacity: 0,
                max_concurrent: 0,
            }),
    {
        RateLimitPolicy { tier: String::new(), requests_per_second: 0, burst_capacity: 0, max_concurrent: 0 }
    }
}

/// Controls the edge proxy deployment. An empty image, a port of zero and
/// absent or zero limits leave the choice to the operator.
#[derive(Debug, PartialEq)]
pub struct ProxyConfig {
    pub image: String,
    pub port: i32,
    pub resource_limit_milli_cpu: Option<i64>,
    pub resource_limit_memory_mib: Option<i64>,
}

pub struct ProxyConfigView {
    pub image: Seq<char>,
    pub port: i32,
    pub resource_limit_milli_cpu: Option<i64>,
    pub resource_limit_memory_mib: Option<i64>,
}

impl View for ProxyConfig {
    type V = ProxyConfigView;

    open spec fn view(&self) -> ProxyConfigView {
        ProxyConfigView {
            image: self.image@,
            port: self.port,
            resource_limit_milli_cpu: self.resource_limit_milli_cpu,
            resource_limit_memory_mib: self.resource_limit_memory_mib,
        }
    }
}

impl Clone for ProxyConfig {
    fn clone(&self) -> (r: Self)
        ensures
            r@ == self@,
    {
        ProxyConfig {
            image: self.image.clone(),
            port: self.port,
            resource_limit_milli_cpu: self.resource_limit_milli_cpu,
            resource_limit_memory_mib: self.resource_limit_memory_mib,
        }
    }
}

impl Default for ProxyConfig {
    fn default() -> (r: Self)
        ensures
            r@ == (ProxyConfigView {
                image: Seq::empty(),
                port: 0,
                resource_limit_milli_cpu: None,
                resource_limit_memory_mib: None,
            }),
    {
        ProxyConfig {
            image: String::new(),
            port: 0,
            resource_limit_milli_cpu: None,
            resource_limit_memory_mib: None,
        }
    }
}

/// Desired state of a tenant.
#[derive(Debug)]
pub struct TenantPipelineSpec {
    pub tenant_id: String,
    pub display_name: String,
    pub rate_limit: RateLimitPolicy,
    pub proxy: ProxyConfig,
    pub paused: bool,
}

pub struct TenantPipelineSpecView {
    pub tenant_id: Seq<char>,
    pub display_name: Seq<char>,
    pub rate_limit: RateLimitPolicyView,
    pub proxy: ProxyConfigView,
    pub paused: bool,
}

impl View for TenantPipelineSpec {
    type V = TenantPipelineSpecView;

    open spec fn view(&self) -> TenantPipelineSpecView {
        TenantPipelineSpecView {
            tenant_id: self.tenant_id@,
            display_name: self.display_name@,
            rate_limit: self.rate_limit@,
            proxy: self.proxy@,
            paused: self.paused,
        }
    }
}

impl Clone for TenantPipelineSpec {
    fn clone(&self) -> (r: Self)
        ensures
            r@ == self@,
    {
        TenantPipelineSpec {
            tenant_id: self.tenant_id.clone(),
            display_name: self.display_name.clone(),
            rate_limit: self.rate_limit.clone(),
            proxy: self.proxy.clone(),
            paused: self.paused,
        }
    }
}

/// High-level lifecycle stage of a TenantPipeline.
#[derive(Clone, Copy, Debug, PartialEq, Eq, Structural)]
pub enum Phase {
    Provisioning,
    Ready,
    Degraded,
    Terminating,
}

impl Default for Phase {
    fn default() -> (r: Self)
        ensures
            r == Phase::Provisioning,
    {
        Phase::Provisioning
    }
}

impl Phase {
    pub open spec fn name(self) -> Seq<char> {
        match self {
            Phase::Provisioning => "Provisioning"@,
            Phase::Ready => "Ready"@,
            Phase::Degraded => "Degraded"@,
            Phase::Terminating => "Terminating"@,
        }
    }

    /// The phase as it is printed.
    pub fn as_str(&self) -> (r: &'static str)
        ensures
            r@ == self.name(),
    {
        match self {
            Phase::Provisioning => "Provisioning",
            Phase::Ready => "Ready",
            Phase::Degraded => "Degraded",
            Phase::Terminating => "Terminating",
        }
    }
}

/// One observed aspect of a resource, by type.
#[derive(Debug)]
pub struct Condition {
    pub type_: String,
    pub status: String,
    pub reason: String,
    pub message: String,
    pub last_transition_time: Timestamp,
    pub observed_generation: Option<i64>,
}

pub struct ConditionView {
    pub type_: Seq<char>,
    pub status: Seq<char>,
    pub reason: Seq<char>,
    pub message: Seq<char>,
    pub last_transition_time: Timestamp,
    pub observed_generation: Option<i64>,
}

impl View for Condition {
    type V = ConditionView;

    open spec fn view(&self) -> ConditionView {
        ConditionView {
            type_: self.type_@,
            status: self.status@,
            reason: self.reason@,
            message: self.message@,
            last_transition_time: self.last_transition_time,
            observed_generation: self.observed_generation,
        }
    }
}

impl Clone for Condition {
    fn clone(&self) -> (r: Self)
        ensures
            r@ == self@,
    {
        Condition {
            type_: self.type_.clone(),
            status: self.status.clone(),
            reason: self.reason.clone(),
            message: self.message.clone(),
            last_transition_time: self.last_transition_time,
            observed_generation: self.observed_generation,
        }
    }
}

/// The views of a list of conditions.
pub open spec fn condition_views(v: Seq<Condition>) -> Seq<ConditionView> {
    v.map_values(|c: Condition| c@)
}

/// Written back by the operator to reflect actual cluster state.
#[derive(Debug)]
pub struct TenantPipelineStatus {
    pub phase: Phase,
    pub conditions: Vec<Condition>,
    pub namespace_name: String,
    pub proxy_pod_name: String,
    pub config_map_name: String,
    pub observed_generation: i64,
    pub last_reconcile_time: Option<String>,
    pub reconcile_count: i64,
}

#[verifier::ext_equal]
pub struct TenantPipelineStatusView {
    pub phase: Phase,
    pub conditions: Seq<ConditionView>,
    pub namespace_name: Seq<char>,
    pub proxy_pod_name: Seq<char>,
    pub config_map_name: Seq<char>,
    pub observed_generation: i64,
    pub last_reconcile_time: Option<Seq<char>>,
    pub reconcile_count: i64,
}

impl TenantPipelineStatusView {
    /// The status of a pipeline that was never reconciled.
    pub open spec fn blank() -> TenantPipelineStatusView {
        TenantPipelineStatusView {
            phase: Phase::Provisioning,
            conditions: Seq::empty(),
            namespace_name: Seq::empty(),
            proxy_pod_name: Seq::empty(),
            config_map_name: Seq::empty(),
            observed_generation: 0,
            last_reconcile_time: None,
            reconcile_count: 0,
        }
    }
}

impl View for TenantPipelineStatus {
    type V = TenantPipelineStatusView;

    open spec fn view(&self) -> TenantPipelineStatusView {
        TenantPipelineStatusView {
            phase: self.phase,
            conditions: condition_views(self.conditions@),
            namespace_name: self.namespace_name@,
            proxy_pod_name: self.proxy_pod_name@,
            config_map_name: self.config_map_name@,
            observed_generation: self.observed_generation,
            last_reconcile_time: opt_text(self.last_reconcile_time),
            reconcile_count: self.reconcile_count,
        }
    }
}

impl Default for TenantPipelineStatus {
    fn default() -> (r: Self)
        ensures
            r@ == TenantPipelineStatusView::blank(),
    {
        let r = TenantPipelineStatus {
            phase: Phase::Provisioning,
            conditions: Vec::new(),
            namespace_name: String::new(),
            proxy_pod_name: String::new(),
            config_map_name: String::new(),
            observed_generation: 0,
            last_reconcile_time: None,
            reconcile_count: 0,
        };
        assert(r@ =~= TenantPipelineStatusView::blank());
        r
    }
}

fn copy_conditions(v: &Vec<Condition>) -> (r: Vec<Condition>)
    ensures
        condition_views(r@) == condition_views(v@),
{
    let mut out: Vec<Condition> = Vec::new();
    let mut i: usize = 0;
    while i < v.len()
        invariant
            i <= v@.len(),
            out@.len() == i,
            forall|j: int| 0 <= j < i ==> (#[trigger] out@[j])@ == v@[j]@,
        decreases v@.len() - i,
    {
        out.push(v[i].clone());
        i = i + 1;
    }
    assert(condition_views(out@) =~= condition_views(v@));
    out
}

impl Clone for TenantPipelineStatus {
    fn clone(&self) -> (r: Self)
        ensures
            r@ == self@,
    {
        TenantPipelineStatus {
            phase: self.phase,
            conditions: copy_conditions(&self.conditions),
            namespace_name: self.namespace_name.clone(),
            proxy_pod_name: self.proxy_pod_name.clone(),
            config_map_name: self.config_map_name.clone(),
            observed_generation: self.observed_generation,
            last_reconcile_time: match &self.last_reconcile_time {
                Some(t) => Some(t.clone()),
                None => None,
            },
            reconcile_count: self.reconcile_count,
        }
    }
}

/// What a condition's `status` field says.
pub open spec fn truth_text(holds: bool) -> Seq<char> {
    if holds {
        "True"@
    } else {
        "False"@
    }
}

/// The first condition of type `ctype` stands at `i`.
pub open spec fn first_of_type(conditions: Seq<ConditionView>, ctype: Seq<char>, i: int) -> bool {
    &&& 0 <= i < conditions.len()
    &&& conditions[i].type_ == ctype
    &&& forall|j: int| 0 <= j < i ==> (#[trigger] conditions[j]).type_ != ctype
}

/// `conditions` with the one of type `ctype` rewritten in place, or with a
/// new one at the end if there was none.
pub open spec fn with_condition(
    conditions: Seq<ConditionView>,
    ctype: Seq<char>,
    holds: bool,
    reason: Seq<char>,
    message: Seq<char>,
    at: Timestamp,
) -> Seq<ConditionView> {
    if exists|i: int| first_of_type(conditions, ctype, i) {
        let i = choose|i: int| first_of_type(conditions, ctype, i);
        conditions.update(
            i,
            ConditionView {
                type_: ctype,
                status: truth_text(holds),
                reason,
                message,
                last_transition_time: at,
                observed_generation: conditions[i].observed_generation,
            },
        )
    } else {
        conditions.push(
            ConditionView {
                type_: ctype,
                status: truth_text(holds),
                reason,
                message,
                last_transition_time: at,
                observed_generation: None,
            },
        )
    }
}

/// Inserts or updates a condition by type at the given moment. A type that is
/// already there is rewritten in place, so the list does not grow with every
/// reconcile.
pub fn set_condition_at(
    status: &mut TenantPipelineStatus,
    ctype: &str,
    true_: bool,
    reason: &str,
    message: &str,
    now: Timestamp,
)
    ensures
        final(status)@ == (TenantPipelineStatusView {
            conditions: with_condition(old(status)@.conditions, ctype@, true_, reason@, message@, now),
            ..old(status)@
        }),
{
    let ghost before = status@;
    let status_text = if true_ {
        "True".to_owned()
    } else {
        "False".to_owned()
    };
    let n: usize = status.conditions.len();
    let mut i: usize = 0;
    while i < n
        invariant
            n == status.conditions@.len(),
            i <= n,
            status@ == before,
            forall|j: int| 0 <= j < i ==> (#[trigger] before.conditions[j]).type_ != ctype@,
            status_text@ == truth_text(true_),
        ensures
            n == status.conditions@.len(),
            status@ == before,
            status_text@ == truth_text(true_),
            i <= n,
            i < n ==> first_of_type(before.conditions, ctype@, i as int),
            i == n ==> forall|j: int| 0 <= j < n ==> (#[trigger] before.conditions[j]).type_ != ctype@,
        decreases n - i,
    {
        if crate::text::same(status.conditions[i].type_.as_str(), ctype) {
            assert(before.conditions[i as int].type_ == ctype@);
            break;
        }
        assert(before.conditions[i as int].type_ != ctype@);
        i = i + 1;
    }
    if i < n {
        let rewritten = Condition {
            type_: ctype.to_owned(),
            status: status_text,
            reason: reason.to_owned(),
            message: message.to_owned(),
            last_transition_time: now,
            observed_generation: status.conditions[i].observed_generation,
        };
        status.conditions.set(i, rewritten);
        proof {
            let k = choose|k: int| first_of_type(before.conditions, ctype@, k);
            lemma_first_unique(before.conditions, ctype@, i as int, k);
            assert(status@.conditions =~= with_condition(before.conditions, ctype@, true_, reason@, message@, now));
        }
    } else {
        status.conditions.push(
            Condition {
                type_: ctype.to_owned(),
                status: status_text,
                reason: reason.to_owned(),
                message: message.to_owned(),
                last_transition_time: now,
                observed_generation: None,
            },
        );
        assert(status@.conditions =~= with_condition(before.conditions, ctype@, true_, reason@, message@, now));
    }
}

/// Inserts or updates a condition by type, stamped with this moment.
pub fn set_condition(
    status: &mut TenantPipelineStatus,
    ctype: &str,
    true_: bool,
    reason: &str,
    message: &str,
)
    ensures
        exists|now: Timestamp|
            final(status)@ == (TenantPipelineStatusView {
                conditions: #[trigger] with_condition(
                    old(status)@.conditions,
                    ctype@,
                    true_,
                    reason@,
                    message@,
                    now,
                ),
                ..old(status)@
            }),
{
    set_condition_at(status, ctype, true_, reason, message, Timestamp::now());
}

proof fn lemma_first_unique(conditions: Seq<ConditionView>, ctype: Seq<char>, i: int, k: int)
    requires
        first_of_type(conditions, ctype, i),
        first_of_type(conditions, ctype, k),
    ensures
        i == k,
{
    if i < k {
        assert(conditions[i].type_ != ctype);
    } else if k < i {
        assert(conditions[k].type_ != ctype);
    }
}

/// Some condition has type `ctype`.
pub open spec fn has_condition(conditions: Seq<ConditionView>, ctype: Seq<char>) -> bool {
    exists|i: int| 0 <= i < conditions.len() && (#[trigger] conditions[i]).type_ == ctype
}

/// No two conditions share a type.
pub open spec fn types_distinct(conditions: Seq<ConditionView>) -> bool {
    forall|i: int, j: int|
        0 <= i < j < conditions.len() ==> (#[trigger] conditions[i]).type_ != (#[trigger] conditions[j]).type_
}

proof fn lemma_has_first(conditions: Seq<ConditionView>, ctype: Seq<char>, i: int)
    requires
        0 <= i < conditions.len(),
        conditions[i].type_ == ctype,
    ensures
        exists|k: int| first_of_type(conditions, ctype, k),
    decreases i,
{
    if exists|j: int| 0 <= j < i && (#[trigger] conditions[j]).type_ == ctype {
        let j = choose|j: int| 0 <= j < i && (#[trigger] conditions[j]).type_ == ctype;
        lemma_has_first(conditions, ctype, j);
    } else {
        assert(first_of_type(conditions, ctype, i));
    }
}

/// Setting a condition keeps one entry per type: the list grows only when the
/// type is new, the entry of that type then says what was set, and the other
/// entries stay as they were.
pub proof fn law_condition_updated_in_place(
    conditions: Seq<ConditionView>,
    ctype: Seq<char>,
    holds: bool,
    reason: Seq<char>,
    message: Seq<char>,
    at: Timestamp,
)
    requires
        types_distinct(conditions),
    ensures
        ({
            let after = with_condition(conditions, ctype, holds, reason, message, at);
            &&& types_distinct(after)
            &&& has_condition(after, ctype)
            &&& after.len() == conditions.len() + if has_condition(conditions, ctype) {
                0int
            } else {
                1int
            }
            &&& forall|i: int|
                0 <= i < after.len() && (#[trigger] after[i]).type_ == ctype ==> after[i].status == truth_text(holds)
                    && after[i].reason == reason && after[i].message == message
                    && after[i].last_transition_time == at
            &&& forall|i: int|
                0 <= i < conditions.len() && (#[trigger] conditions[i]).type_ != ctype ==> after[i] == conditions[i]
        }),
{
    let after = with_condition(conditions, ctype, holds, reason, message, at);
    if has_condition(conditions, ctype) {
        let w = choose|i: int| 0 <= i < conditions.len() && (#[trigger] conditions[i]).type_ == ctype;
        lemma_has_first(conditions, ctype, w);
        let k = choose|i: int| first_of_type(conditions, ctype, i);
        assert(after[k].type_ == ctype);
        assert forall|i: int| 0 <= i < after.len() && (#[trigger] after[i]).type_ == ctype implies i == k by {
            if i < k {
                assert(conditions[i].type_ != conditions[k].type_);
            } else if k < i {
                assert(conditions[k].type_ != conditions[i].type_);
            }
        }
    } else {
        assert forall|i: int| !first_of_type(conditions, ctype, i) by {}
        assert(after[conditions.len() as int].type_ == ctype);
    }
}

/// Setting the same condition again changes nothing but what was set: the
/// list keeps its length.
pub proof fn law_condition_set_twice(
    conditions: Seq<ConditionView>,
    ctype: Seq<char>,
    first: (bool, Seq<char>, Seq<char>, Timestamp),
    second: (bool, Seq<char>, Seq<char>, Timestamp),
)
    ensures
        ({
            let once = with_condition(conditions, ctype, first.0, first.1, first.2, first.3);
            let twice = with_condition(once, ctype, second.0, second.1, second.2, second.3);
            &&& twice.len() == once.len()
            &&& twice == with_condition(conditions, ctype, second.0, second.1, second.2, second.3)
        }),
{
    let once = with_condition(conditions, ctype, first.0, first.1, first.2, first.3);
    let twice = with_condition(once, ctype, second.0, second.1, second.2, second.3);
    let direct = with_condition(conditions, ctype, second.0, second.1, second.2, second.3);
    let k = if exists|i: int| first_of_type(conditions, ctype, i) {
        choose|i: int| first_of_type(conditions, ctype, i)
    } else {
        conditions.len() as int
    };
    if !(exists|i: int| first_of_type(conditions, ctype, i)) {
        assert forall|j: int| 0 <= j < conditions.len() implies (#[trigger] conditions[j]).type_ != ctype by {
            if conditions[j].type_ == ctype {
                lemma_has_first(conditions, ctype, j);
            }
        }
    }
    assert(first_of_type(once, ctype, k)) by {
        assert forall|j: int| 0 <= j < k implies (#[trigger] once[j]).type_ != ctype by {
            assert(once[j] == conditions[j]);
        }
    }
    let m = choose|i: int| first_of_type(once, ctype, i);
    lemma_first_unique(once, ctype, k, m);
    assert(twice =~= direct);
}

/// A phase prints its own name, and so different phases print differently.
pub proof fn law_phases_print_their_names(phase: Phase, other: Phase)
    ensures
        phase == Phase::Provisioning ==> phase.name() == "Provisioning"@,
        phase == Phase::Ready ==> phase.name() == "Ready"@,
        phase == Phase::Degraded ==> phase.name() == "Degraded"@,
        phase == Phase::Terminating ==> phase.name() == "Terminating"@,
        phase.name() == other.name() ==> phase == other,
{
    reveal_strlit("Provisioning");
    reveal_strlit("Ready");
    reveal_strlit("Degraded");
    reveal_strlit("Terminating");
    assert("Provisioning"@.len() == 12 && "Ready"@.len() == 5 && "Degraded"@.len() == 8 && "Terminating"@.len() == 11);
}

/// A condition that was set says `True` or `False`, as it was set, keeps the
/// generation that was observed with it, and carries none if it is new.
pub proof fn law_condition_says_what_was_set(
    conditions: Seq<ConditionView>,
    ctype: Seq<char>,
    holds: bool,
    reason: Seq<char>,
    message: Seq<char>,
    at: Timestamp,
    i: int,
)
    requires
        types_distinct(conditions),
        0 <= i < with_condition(conditions, ctype, holds, reason, message, at).len(),
        with_condition(conditions, ctype, holds, reason, message, at)[i].type_ == ctype,
    ensures
        ({
            let set = with_condition(conditions, ctype, holds, reason, message, at)[i];
            &&& holds ==> set.status == "True"@
            &&& !holds ==> set.status == "False"@
            &&& set.reason == reason
            &&& set.message == message
            &&& set.last_transition_time == at
            &&& i < conditions.len() ==> set.observed_generation == conditions[i].observed_generation
            &&& i >= conditions.len() ==> set.observed_generation is None
        }),
{
    law_condition_updated_in_place(conditions, ctype, holds, reason, message, at);
    let after = with_condition(conditions, ctype, holds, reason, message, at);
    if exists|k: int| first_of_type(conditions, ctype, k) {
        let k = choose|k: int| first_of_type(conditions, ctype, k);
        if i != k {
            assert(after[k].type_ == ctype);
            assert(after[i].type_ != after[k].type_);
        }
    }
}

/// What a contract says of a policy, a proxy configuration and a pipeline is
/// what their own fields hold.
pub proof fn law_declarations_are_read_field_by_field(
    policy: RateLimitPolicy,
    proxy: ProxyConfig,
    pipeline: TenantPipelineSpec,
)
    ensures
        policy@.tier == policy.tier@,
        policy@.requests_per_second == policy.requests_per_second,
        policy@.burst_capacity == policy.burst_capacity,
        policy@.max_concurrent == policy.max_concurrent,
        proxy@.image == proxy.image@,
        proxy@.port == proxy.port,
        proxy@.resource_limit_milli_cpu == proxy.resource_limit_milli_cpu,
        proxy@.resource_limit_memory_mib == proxy.resource_limit_memory_mib,
        pipeline@.tenant_id == pipeline.tenant_id@,
        pipeline@.display_name == pipeline.display_name@,
        pipeline@.rate_limit == pipeline.rate_limit@,
        pipeline@.proxy == pipeline.proxy@,
        pipeline@.paused == pipeline.paused,
{
}

/// What a contract says of a condition and of a status is what their own
/// fields hold.
pub proof fn law_reports_are_read_field_by_field(condition: Condition, status: TenantPipelineStatus, i: int)
    ensures
        condition@.type_ == condition.type_@,
        condition@.status == condition.status@,
        condition@.reason == condition.reason@,
        condition@.message == condition.message@,
        condition@.last_transition_time == condition.last_transition_time,
        condition@.observed_generation == condition.observed_generation,
        status@.phase == status.phase,
        status@.conditions.len() == status.conditions@.len(),
        0 <= i < status.conditions@.len() ==> status@.conditions[i] == status.conditions@[i]@,
        status@.namespace_name == status.namespace_name@,
        status@.proxy_pod_name == status.proxy_pod_name@,
        status@.config_map_name == status.config_map_name@,
        status@.observed_generation == status.observed_generation,
        status.last_reconcile_time is None <==> status@.last_reconcile_time is None,
        status.last_reconcile_time matches Some(t) ==> status@.last_reconcile_time == Some(t@),
        status@.reconcile_count == status.reconcile_count,
{
}

/// A status that nothing was reported in is that of a pipeline which is being
/// provisioned, was never reconciled, and has no resources and no conditions.
pub proof fn law_blank_status_reports_nothing()
    ensures
        ({
            let blank = TenantPipelineStatusView::blank();
            &&& blank.phase == Phase::Provisioning
            &&& blank.conditions.len() == 0
            &&& blank.namespace_name.len() == 0 && blank.proxy_pod_name.len() == 0 && blank.config_map_name.len() == 0
            &&& blank.observed_generation == 0 && blank.reconcile_count == 0
            &&& blank.last_reconcile_time is None
        }),
{
}

/// Whatever the list holds, setting a condition touches the first one of its
/// type alone, and adds one at the end only where there is none.
pub proof fn law_first_condition_of_a_type_is_rewritten(
    conditions: Seq<ConditionView>,
    ctype: Seq<char>,
    holds: bool,
    reason: Seq<char>,
    message: Seq<char>,
    at: Timestamp,
    i: int,
    j: int,
)
    requires
        0 <= i <= conditions.len(),
        forall|k: int| 0 <= k < i ==> (#[trigger] conditions[k]).type_ != ctype,
        i < conditions.len() ==> conditions[i].type_ == ctype,
    ensures
        ({
            let after = with_condition(conditions, ctype, holds, reason, message, at);
            &&& i < conditions.len() ==> after.len() == conditions.len()
            &&& i == conditions.len() ==> after.len() == conditions.len() + 1
            &&& 0 <= j < conditions.len() && j != i ==> after[j] == conditions[j]
            &&& after[i].type_ == ctype
            &&& holds ==> after[i].status == "True"@
            &&& !holds ==> after[i].status == "False"@
            &&& after[i].reason == reason
            &&& after[i].message == message
            &&& after[i].last_transition_time == at
            &&& i < conditions.len() ==> after[i].observed_generation == conditions[i].observed_generation
            &&& i == conditions.len() ==> after[i].observed_generation is None
        }),
{
    if i < conditions.len() {
        assert(first_of_type(conditions, ctype, i));
        let k = choose|k: int| first_of_type(conditions, ctype, k);
        if k < i {
            assert(conditions[k].type_ != ctype);
        }
    } else {
        assert forall|k: int| !first_of_type(conditions, ctype, k) by {
            if 0 <= k < conditions.len() {
                assert(conditions[k].type_ != ctype);
            }
        }
    }
}

} // verus!
