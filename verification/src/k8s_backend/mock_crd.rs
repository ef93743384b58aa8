//! TenantPipeline objects held in memory.

use super::{CrdBackend, K8sError, K8sErrorView};
use crate::crd::{RateLimitPolicy, RateLimitPolicyView, TenantPipelineSpec, TenantPipelineSpecView};
use crate::keyed::{is_listing, lemma_listing_len, KeyedList};
use vstd::prelude::*;

verus! {

/// The declared pipelines by tenant.
pub type PipelinesView = Map<Seq<char>, TenantPipelineSpecView>;

/// `pipelines` with the rate limits of one of them replaced.
pub open spec fn with_policy(
    pipelines: PipelinesView,
    tenant_id: Seq<char>,
    policy: RateLimitPolicyView,
) -> PipelinesView {
    pipelines.insert(tenant_id, TenantPipelineSpecView { rate_limit: policy, ..pipelines[tenant_id] })
}

/// Every pipeline stands under its own tenant.
pub open spec fn keyed_by_tenant(pipelines: PipelinesView) -> bool {
    forall|id: Seq<char>| #[trigger] pipelines.contains_key(id) ==> pipelines[id].tenant_id == id
}

/// The views of a list of specs.
pub open spec fn spec_views(v: Seq<TenantPipelineSpec>) -> Seq<TenantPipelineSpecView> {
    v.map_values(|s: TenantPipelineSpec| s@)
}

/// `specs` holds every pipeline, each once.
pub open spec fn is_spec_listing(specs: Seq<TenantPipelineSpecView>, pipelines: PipelinesView) -> bool {
    exists|keys: Seq<(Seq<char>, TenantPipelineSpecView)>|
        #![trigger is_listing(keys, pipelines)]
        {
            &&& is_listing(keys, pipelines)
            &&& keys.len() == specs.len()
            &&& forall|j: int| 0 <= j < keys.len() ==> (#[trigger] keys[j]).1 == specs[j]
        }
}

/// The views of a map of specs.
spec fn spec_map(m: Map<Seq<char>, TenantPipelineSpec>) -> PipelinesView {
    m.map_values(|s: TenantPipelineSpec| s@)
}

/// TenantPipeline objects held in memory.
pub struct MockCrdBackend {
    objects: KeyedList<String, TenantPipelineSpec>,
}

impl View for MockCrdBackend {
    type V = PipelinesView;

    closed spec fn view(&self) -> PipelinesView {
        spec_map(self.objects@)
    }
}

impl MockCrdBackend {
    #[verifier::type_invariant]
    spec fn keyed(self) -> bool {
        keyed_by_tenant(spec_map(self.objects@))
    }

    /// Takes the objects out, to be put back after a change.
    fn take_objects(&mut self) -> (r: KeyedList<String, TenantPipelineSpec>)
        ensures
            spec_map(r@) == old(self)@,
            keyed_by_tenant(old(self)@),
    {
        proof {
            use_type_invariant(&*self);
        }
        let mut objects = KeyedList::new();
        assert(spec_map(objects@) =~= Map::<Seq<char>, TenantPipelineSpecView>::empty());
        core::mem::swap(&mut objects, &mut self.objects);
        objects
    }

    pub fn new() -> (r: MockCrdBackend)
        ensures
            r@ == Map::<Seq<char>, TenantPipelineSpecView>::empty(),
    {
        let objects = KeyedList::new();
        assert(spec_map(objects@) =~= Map::<Seq<char>, TenantPipelineSpecView>::empty());
        MockCrdBackend { objects }
    }

    /// A copy of a tenant's pipeline.
    pub fn get(&self, tenant_id: &str) -> (r: Option<TenantPipelineSpec>)
        ensures
            match r {
                Some(s) => self@.contains_key(tenant_id@) && s@ == self@[tenant_id@],
                None => !self@.contains_key(tenant_id@),
            },
    {
        match self.objects.get(&tenant_id.to_owned()) {
            Some(s) => Some(s.clone()),
            None => None,
        }
    }

    /// Snapshot of every live pipeline.
    pub fn list(&self) -> (r: Vec<TenantPipelineSpec>)
        ensures
            is_spec_listing(spec_views(r@), self@),
            keyed_by_tenant(self@),
    {
        proof {
            use_type_invariant(self);
        }
        let n: usize = self.objects.len();
        let mut out: Vec<TenantPipelineSpec> = Vec::new();
        let mut i: usize = 0;
        let ghost pairs = self.objects.pairs();
        while i < n
            invariant
                i <= n,
                pairs == self.objects.pairs(),
                n == pairs.len(),
                out@.len() == i,
                forall|j: int| 0 <= j < i ==> (#[trigger] out@[j])@ == pairs[j].1@,
            decreases n - i,
        {
            let (_, s) = self.objects.at(i);
            out.push(s.clone());
            i = i + 1;
        }
        proof {
            let views = spec_views(out@);
            let keys = Seq::new(pairs.len(), |j: int| (pairs[j].0, views[j]));
            assert forall|k: Seq<char>| #[trigger] self@.contains_key(k) implies exists|j: int|
                0 <= j < keys.len() && (#[trigger] keys[j]).0 == k by {
                assert(self.objects@.contains_key(k));
                let j = choose|j: int| 0 <= j < pairs.len() && (#[trigger] pairs[j]).0 == k;
                assert(keys[j].0 == k);
            }
            assert(is_listing(keys, self@));
        }
        out
    }
}

impl Default for MockCrdBackend {
    fn default() -> (r: Self)
        ensures
            r@ == Map::<Seq<char>, TenantPipelineSpecView>::empty(),
    {
        MockCrdBackend::new()
    }
}

impl CrdBackend for MockCrdBackend {
    open spec fn created(
        self,
        spec_: TenantPipelineSpecView,
        reply: Result<(), K8sErrorView>,
        post: Self,
    ) -> bool {
        &&& reply == Ok::<(), K8sErrorView>(())
        &&& post@ == self@.insert(spec_.tenant_id, spec_)
    }

    open spec fn policy_patched(
        self,
        tenant_id: Seq<char>,
        policy: RateLimitPolicyView,
        reply: Result<bool, K8sErrorView>,
        post: Self,
    ) -> bool {
        &&& reply == Ok::<bool, K8sErrorView>(self@.contains_key(tenant_id))
        &&& post@ == if self@.contains_key(tenant_id) {
            with_policy(self@, tenant_id, policy)
        } else {
            self@
        }
    }

    open spec fn deleted(
        self,
        tenant_id: Seq<char>,
        reply: Result<bool, K8sErrorView>,
        post: Self,
    ) -> bool {
        &&& reply == Ok::<bool, K8sErrorView>(self@.contains_key(tenant_id))
        &&& post@ == self@.remove(tenant_id)
    }

    fn create(&mut self, spec_: TenantPipelineSpec) -> (r: Result<(), K8sError>) {
        let mut objects = self.take_objects();
        objects.insert(spec_.tenant_id.clone(), spec_);
        assert(spec_map(objects@) =~= old(self)@.insert(spec_@.tenant_id, spec_@));
        self.objects = objects;
        Ok(())
    }

    fn patch_policy(&mut self, tenant_id: &str, policy: RateLimitPolicy) -> (r: Result<bool, K8sError>) {
        match self.get(tenant_id) {
            Some(mut s) => {
                s.rate_limit = policy;
                let mut objects = self.take_objects();
                objects.insert(tenant_id.to_owned(), s);
                assert(spec_map(objects@) =~= with_policy(old(self)@, tenant_id@, policy@));
                self.objects = objects;
                Ok(true)
            },
            None => Ok(false),
        }
    }

    fn delete(&mut self, tenant_id: &str) -> (r: Result<bool, K8sError>) {
        let mut objects = self.take_objects();
        let existed = objects.remove(&tenant_id.to_owned());
        assert(spec_map(objects@) =~= old(self)@.remove(tenant_id@));
        self.objects = objects;
        Ok(existed)
    }
}

/// A pipeline that was created is held under its tenant as it was handed over,
/// one that was deleted is held no more, and the reply to a deletion tells
/// whether there was one. Other tenants' pipelines stay as they were.
pub proof fn law_pipelines_come_and_go(
    pre: MockCrdBackend,
    made: MockCrdBackend,
    gone: MockCrdBackend,
    s: TenantPipelineSpecView,
    made_reply: Result<(), K8sErrorView>,
    tenant_id: Seq<char>,
    gone_reply: Result<bool, K8sErrorView>,
    other: Seq<char>,
)
    requires
        pre.created(s, made_reply, made),
        pre.deleted(tenant_id, gone_reply, gone),
    ensures
        made_reply is Ok,
        made@.contains_key(s.tenant_id) && made@[s.tenant_id] == s,
        other != s.tenant_id ==> made@.contains_key(other) == pre@.contains_key(other),
        other != s.tenant_id && pre@.contains_key(other) ==> made@[other] == pre@[other],
        gone_reply == Ok::<bool, K8sErrorView>(pre@.contains_key(tenant_id)),
        !gone@.contains_key(tenant_id),
        other != tenant_id ==> gone@.contains_key(other) == pre@.contains_key(other),
        other != tenant_id && pre@.contains_key(other) ==> gone@[other] == pre@[other],
{
}

/// A patch replaces the rate limits of the pipeline it names and nothing else
/// of it; it makes no pipeline where there is none, and tells so. Other
/// tenants' pipelines stay as they were.
pub proof fn law_patch_changes_the_policy_alone(
    pre: MockCrdBackend,
    post: MockCrdBackend,
    tenant_id: Seq<char>,
    policy: RateLimitPolicyView,
    reply: Result<bool, K8sErrorView>,
    other: Seq<char>,
)
    requires
        pre.policy_patched(tenant_id, policy, reply, post),
    ensures
        reply == Ok::<bool, K8sErrorView>(pre@.contains_key(tenant_id)),
        post@.contains_key(other) == pre@.contains_key(other),
        other != tenant_id && pre@.contains_key(other) ==> post@[other] == pre@[other],
        pre@.contains_key(tenant_id) ==> {
            &&& post@[tenant_id].rate_limit == policy
            &&& post@[tenant_id].tenant_id == pre@[tenant_id].tenant_id
            &&& post@[tenant_id].display_name == pre@[tenant_id].display_name
            &&& post@[tenant_id].proxy == pre@[tenant_id].proxy
            &&& post@[tenant_id].paused == pre@[tenant_id].paused
        },
{
}

/// A listing of the pipelines holds each of them once, and nothing else.
pub proof fn law_pipeline_listing_is_complete(
    specs: Seq<TenantPipelineSpecView>,
    pipelines: PipelinesView,
    id: Seq<char>,
    i: int,
)
    requires
        is_spec_listing(specs, pipelines),
        keyed_by_tenant(pipelines),
    ensures
        specs.len() == pipelines.dom().len(),
        pipelines.contains_key(id) ==> specs.contains(pipelines[id]),
        0 <= i < specs.len() ==> pipelines.contains_key(specs[i].tenant_id) && pipelines[specs[i].tenant_id]
            == specs[i],
{
    let keys = choose|keys: Seq<(Seq<char>, TenantPipelineSpecView)>|
        #![trigger is_listing(keys, pipelines)]
        {
            &&& is_listing(keys, pipelines)
            &&& keys.len() == specs.len()
            &&& forall|j: int| 0 <= j < keys.len() ==> (#[trigger] keys[j]).1 == specs[j]
        };
    lemma_listing_len(keys, pipelines);
    if pipelines.contains_key(id) {
        let n = choose|n: int| 0 <= n < keys.len() && (#[trigger] keys[n]).0 == id;
        assert(specs[n] == pipelines[id]);
    }
    if 0 <= i < specs.len() {
        assert(keys[i].1 == specs[i]);
        assert(pipelines.contains_key(keys[i].0));
    }
}

} // verus!
