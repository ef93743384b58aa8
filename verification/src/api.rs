//! The REST control plane: who may ask for what, what a request changes, and
//! what it is answered. Handlers turn requests into TenantPipeline objects,
//! which the operator picks up.
//!
//! A handler that has to wait for the cluster is made of two parts: one that
//! admits the request and says what the cluster is asked, and one that
//! finishes it with the cluster's reply. `ApiState` runs both against
//! backends that answer at once. Routing and reading request bodies is left
//! to the HTTP server.

use crate::clock::{rfc3339_text, Timestamp};
use crate::cloud::mock::{anonymous, NoopIdentityVerifier, NoopTelemetrySink};
use crate::cloud::{
    property_views, CallerIdentity, CallerIdentityView, IdentityVerifier, TelemetrySink,
};
use crate::crd::{
    ProxyConfig, ProxyConfigView, RateLimitPolicy, RateLimitPolicyView, TenantPipelineSpec, TenantPipelineSpecView,
};
use crate::json::{lemma_member_is_field, member_count, members, Json, JsonView};
use crate::k8s_backend::mock::MockBackend;
use crate::k8s_backend::mock_crd::{with_policy, MockCrdBackend};
use crate::k8s_backend::{found, namespace_of, proxy_of, text_member, unit, CrdBackend, K8sBackend, K8sError, K8sErrorView};
use crate::reconcile::{home, home_of, left_for};
use crate::store::{
    is_record_listing, law_listing_holds_every_tenant, record_views, stamped, EventKind, EventView, Store, StoreView,
    TenantPhase, TenantRecord, TenantRecordView,
};
use crate::text::{after, begins_with, decimal, decimal_text, list_has, quoted, quoted_text, strip_prefix};
use vstd::prelude::*;

verus! {

pub const STATUS_OK: u16 = 200;

pub const STATUS_CREATED: u16 = 201;

pub const STATUS_BAD_REQUEST: u16 = 400;

pub const STATUS_UNAUTHORIZED: u16 = 401;

pub const STATUS_FORBIDDEN: u16 = 403;

pub const STATUS_NOT_FOUND: u16 = 404;

pub const STATUS_INTERNAL_SERVER_ERROR: u16 = 500;

/// The role that may change tenants.
pub const WRITE_ROLE: &'static str = "Tenant.Write";

// ─── Requests and replies ─────────────────────────────────────────────────────

#[derive(Debug)]
pub struct CreateTenantRequest {
    pub tenant_id: String,
    pub display_name: String,
    pub rate_limit: RateLimitPolicy,
    pub proxy: ProxyConfig,
}

pub struct CreateTenantRequestView {
    pub tenant_id: Seq<char>,
    pub display_name: Seq<char>,
    pub rate_limit: RateLimitPolicyView,
    pub proxy: ProxyConfigView,
}

impl View for CreateTenantRequest {
    type V = CreateTenantRequestView;

    open spec fn view(&self) -> CreateTenantRequestView {
        CreateTenantRequestView {
            tenant_id: self.tenant_id@,
            display_name: self.display_name@,
            rate_limit: self.rate_limit@,
            proxy: self.proxy@,
        }
    }
}

#[derive(Debug)]
pub struct UpdatePolicyRequest {
    pub tier: String,
    pub requests_per_second: i32,
    pub burst_capacity: i32,
    pub max_concurrent: i32,
}

impl View for UpdatePolicyRequest {
    type V = RateLimitPolicyView;

    open spec fn view(&self) -> RateLimitPolicyView {
        RateLimitPolicyView {
            tier: self.tier@,
            requests_per_second: self.requests_per_second,
            burst_capacity: self.burst_capacity,
            max_concurrent: self.max_concurrent,
        }
    }
}

/// What the API says about a tenant.
#[derive(Debug)]
pub struct TenantResponse {
    pub tenant_id: String,
    pub display_name: String,
    pub phase: String,
    pub namespace: String,
    pub tier: String,
    pub rps: i32,
    pub burst: i32,
    pub max_concurrent: i32,
    pub reconcile_count: i64,
    pub last_reconcile_at: Option<Timestamp>,
}

pub struct TenantResponseView {
    pub tenant_id: Seq<char>,
    pub display_name: Seq<char>,
    pub phase: Seq<char>,
    pub namespace: Seq<char>,
    pub tier: Seq<char>,
    pub rps: i32,
    pub burst: i32,
    pub max_concurrent: i32,
    pub reconcile_count: i64,
    pub last_reconcile_at: Option<Timestamp>,
}

impl View for TenantResponse {
    type V = TenantResponseView;

    open spec fn view(&self) -> TenantResponseView {
        TenantResponseView {
            tenant_id: self.tenant_id@,
            display_name: self.display_name@,
            phase: self.phase@,
            namespace: self.namespace@,
            tier: self.tier@,
            rps: self.rps,
            burst: self.burst,
            max_concurrent: self.max_concurrent,
            reconcile_count: self.reconcile_count,
            last_reconcile_at: self.last_reconcile_at,
        }
    }
}

/// What the API says about a tenant with the given record.
pub open spec fn response_of(rec: TenantRecordView) -> TenantResponseView {
    TenantResponseView {
        tenant_id: rec.tenant_id,
        display_name: rec.display_name,
        phase: rec.phase.name(),
        namespace: rec.namespace,
        tier: rec.tier,
        rps: rec.rps,
        burst: rec.burst,
        max_concurrent: rec.max_concurrent,
        reconcile_count: rec.reconcile_count,
        last_reconcile_at: rec.last_reconcile_at,
    }
}

impl TenantResponse {
    pub fn from(rec: TenantRecord) -> (r: TenantResponse)
        ensures
            r@ == response_of(rec@),
            r.tenant_id@ == rec.tenant_id@,
            r.display_name@ == rec.display_name@,
            r.phase@ == rec.phase.name(),
            r.namespace@ == rec.namespace@,
            r.tier@ == rec.tier@,
            r.rps == rec.rps,
            r.burst == rec.burst,
            r.max_concurrent == rec.max_concurrent,
            r.reconcile_count == rec.reconcile_count,
            r.last_reconcile_at == rec.last_reconcile_at,
    {
        TenantResponse {
            phase: rec.phase.as_str().to_owned(),
            tenant_id: rec.tenant_id,
            display_name: rec.display_name,
            namespace: rec.namespace,
            tier: rec.tier,
            rps: rec.rps,
            burst: rec.burst,
            max_concurrent: rec.max_concurrent,
            reconcile_count: rec.reconcile_count,
            last_reconcile_at: rec.last_reconcile_at,
        }
    }
}

/// A request that was turned down.
#[derive(Debug)]
pub struct ApiError {
    pub status: u16,
    pub message: String,
}

pub struct ApiErrorView {
    pub status: u16,
    pub message: Seq<char>,
}

impl View for ApiError {
    type V = ApiErrorView;

    open spec fn view(&self) -> ApiErrorView {
        ApiErrorView { status: self.status, message: self.message@ }
    }
}

impl ApiErrorView {
    pub open spec fn body(self) -> JsonView {
        JsonView::Object(seq![text_member("error"@, self.message)])
    }
}

impl ApiError {
    /// The body that goes with the status.
    pub fn body(&self) -> (r: Json)
        ensures
            r@ == self@.body(),
    {
        let fields = vec![Json::member("error", Json::text(self.message.as_str()))];
        assert(members(fields@) =~= seq![text_member("error"@, self.message@)]);
        Json::object(fields)
    }
}

fn err(status: u16, message: &str) -> (r: ApiError)
    ensures
        r@ == (ApiErrorView { status, message: message@ }),
{
    ApiError { status, message: message.to_owned() }
}

/// An error that comes of a cluster operation.
pub open spec fn cluster_error(what: Seq<char>, e: K8sErrorView) -> ApiErrorView {
    ApiErrorView { status: STATUS_INTERNAL_SERVER_ERROR, message: what + e.message() }
}

fn cluster_err(what: &str, e: &K8sError) -> (r: ApiError)
    ensures
        r@ == cluster_error(what@, e@),
{
    ApiError { status: STATUS_INTERNAL_SERVER_ERROR, message: what.to_owned().concat(e.message().as_str()) }
}

/// The tenant is not there.
pub open spec fn not_found() -> ApiErrorView {
    ApiErrorView { status: STATUS_NOT_FOUND, message: "tenant not found"@ }
}

/// A request that was granted.
#[derive(Debug)]
pub struct ApiReply {
    pub status: u16,
    pub body: Json,
}

pub struct ApiReplyView {
    pub status: u16,
    pub body: JsonView,
}

impl View for ApiReply {
    type V = ApiReplyView;

    open spec fn view(&self) -> ApiReplyView {
        ApiReplyView { status: self.status, body: self.body@ }
    }
}

/// What a handler answers.
pub open spec fn answer(r: Result<ApiReply, ApiError>) -> Result<ApiReplyView, ApiErrorView> {
    match r {
        Ok(reply) => Ok(reply@),
        Err(e) => Err(e@),
    }
}

/// A reply that names the tenant and says what happens.
pub open spec fn tenant_message(status: u16, tenant_id: Seq<char>, message: Seq<char>) -> ApiReplyView {
    ApiReplyView {
        status,
        body: JsonView::Object(seq![text_member("tenantId"@, tenant_id), text_member("message"@, message)]),
    }
}

fn say(status: u16, tenant_id: &str, message: &str) -> (r: ApiReply)
    ensures
        r@ == tenant_message(status, tenant_id@, message@),
{
    let fields = vec![
        Json::member("tenantId", Json::text(tenant_id)),
        Json::member("message", Json::text(message)),
    ];
    assert(members(fields@) =~= tenant_message(status, tenant_id@, message@).body->Object_0);
    ApiReply { status, body: Json::object(fields) }
}

/// A business event that a request caused.
#[derive(Debug)]
pub struct TelemetryEvent {
    pub name: String,
    pub properties: Vec<(String, String)>,
}

pub struct TelemetryEventView {
    pub name: Seq<char>,
    pub properties: Seq<(Seq<char>, Seq<char>)>,
}

impl View for TelemetryEvent {
    type V = TelemetryEventView;

    open spec fn view(&self) -> TelemetryEventView {
        TelemetryEventView { name: self.name@, properties: property_views(self.properties@) }
    }
}

/// The business event that a caller did something to a tenant.
pub open spec fn telemetry_event(name: Seq<char>, tenant_id: Seq<char>, subject: Seq<char>) -> TelemetryEventView {
    TelemetryEventView { name, properties: seq![("tenantId"@, tenant_id), ("callerSubject"@, subject)] }
}

fn tell(name: &str, tenant_id: &str, caller: &CallerIdentity) -> (r: TelemetryEvent)
    ensures
        r@ == telemetry_event(name@, tenant_id@, caller@.subject),
{
    let properties = vec![
        ("tenantId".to_owned(), tenant_id.to_owned()),
        ("callerSubject".to_owned(), caller.subject.clone()),
    ];
    assert(property_views(properties@) =~= seq![("tenantId"@, tenant_id@), ("callerSubject"@, caller@.subject)]);
    TelemetryEvent { name: name.to_owned(), properties }
}

/// What finishing a request that causes a business event gives.
pub open spec fn finished(
    r: Result<(ApiReply, TelemetryEvent), ApiError>,
) -> Result<(ApiReplyView, TelemetryEventView), ApiErrorView> {
    match r {
        Ok((reply, event)) => Ok((reply@, event@)),
        Err(e) => Err(e@),
    }
}

// ─── Callers ──────────────────────────────────────────────────────────────────

/// The token in an authorization header; an empty one if there is none.
pub open spec fn token_in(header: Option<Seq<char>>) -> Seq<char> {
    match header {
        Some(h) => if begins_with(h, "Bearer "@) {
            after(h, "Bearer "@.len() as int)
        } else {
            Seq::empty()
        },
        None => Seq::empty(),
    }
}

/// The characters of an optional text.
pub open spec fn opt_chars(o: Option<&str>) -> Option<Seq<char>> {
    match o {
        Some(s) => Some(s@),
        None => None,
    }
}

/// Takes the token out of an authorization header.
pub fn bearer_token(header: Option<&str>) -> (r: String)
    ensures
        r@ == token_in(opt_chars(header)),
{
    match header {
        Some(h) => match strip_prefix(h, "Bearer ") {
            Some(token) => token,
            None => String::new(),
        },
        None => String::new(),
    }
}

/// The answer to a token that was not verified.
pub open spec fn unauthorized_error(why: Seq<char>) -> ApiErrorView {
    ApiErrorView { status: STATUS_UNAUTHORIZED, message: "unauthorized: "@ + why }
}

/// Turns down a caller whose token was not verified.
pub fn unauthorized(why: &str) -> (r: ApiError)
    ensures
        r@ == unauthorized_error(why@),
{
    ApiError { status: STATUS_UNAUTHORIZED, message: "unauthorized: ".to_owned().concat(why) }
}

/// The answer to a caller who lacks a role.
pub open spec fn forbidden(subject: Seq<char>, role: Seq<char>) -> ApiErrorView {
    ApiErrorView {
        status: STATUS_FORBIDDEN,
        message: "caller "@ + quoted_text(subject) + " missing required role "@ + quoted_text(role),
    }
}

/// Whether a caller has a role.
pub open spec fn has_role(caller: CallerIdentityView, role: Seq<char>) -> bool {
    caller.roles.contains(role)
}

/// Checks that a caller has a role.
pub fn require_role(caller: &CallerIdentity, role: &str) -> (r: Result<(), ApiError>)
    ensures
        match r {
            Ok(()) => has_role(caller@, role@),
            Err(e) => !has_role(caller@, role@) && e@ == forbidden(caller@.subject, role@),
        },
{
    if list_has(&caller.roles, role) {
        Ok(())
    } else {
        let message = "caller ".to_owned().concat(quoted(caller.subject.as_str()).as_str()).concat(
            " missing required role ",
        ).concat(quoted(role).as_str());
        Err(ApiError { status: STATUS_FORBIDDEN, message })
    }
}

// ─── Health ───────────────────────────────────────────────────────────────────

/// The answer of a healthy server.
pub open spec fn health(at: Timestamp) -> JsonView {
    JsonView::Object(
        seq![text_member("status"@, "ok"@), text_member("time"@, rfc3339_text(at.secs(), at.nanos()))],
    )
}

/// Says that the server is up. Needs no credential.
pub fn healthz(now: Timestamp) -> (r: ApiReply)
    ensures
        r@ == (ApiReplyView { status: STATUS_OK, body: health(now) }),
{
    let fields = vec![
        Json::member("status", Json::text("ok")),
        Json::member("time", Json::text(now.to_rfc3339().as_str())),
    ];
    assert(members(fields@) =~= health(now)->Object_0);
    ApiReply { status: STATUS_OK, body: Json::object(fields) }
}

// ─── Creating a tenant ────────────────────────────────────────────────────────

/// The pipeline a request asks for.
pub open spec fn requested_spec(req: CreateTenantRequestView) -> TenantPipelineSpecView {
    TenantPipelineSpecView {
        tenant_id: req.tenant_id,
        display_name: req.display_name,
        rate_limit: req.rate_limit,
        proxy: req.proxy,
        paused: false,
    }
}

/// Whether a tenant may be created, and as what.
pub open spec fn create_admission(
    caller: CallerIdentityView,
    req: CreateTenantRequestView,
) -> Result<TenantPipelineSpecView, ApiErrorView> {
    if !has_role(caller, WRITE_ROLE@) {
        Err(forbidden(caller.subject, WRITE_ROLE@))
    } else if req.tenant_id.len() == 0 {
        Err(ApiErrorView { status: STATUS_BAD_REQUEST, message: "tenantId is required"@ })
    } else {
        Ok(requested_spec(req))
    }
}

/// Admits a request to create a tenant, and gives the pipeline to create.
pub fn admit_create(caller: &CallerIdentity, req: CreateTenantRequest) -> (r: Result<TenantPipelineSpec, ApiError>)
    ensures
        match r {
            Ok(s) => create_admission(caller@, req@) == Ok::<TenantPipelineSpecView, ApiErrorView>(s@),
            Err(e) => create_admission(caller@, req@) == Err::<TenantPipelineSpecView, ApiErrorView>(e@),
        },
{
    match require_role(caller, WRITE_ROLE) {
        Err(e) => return Err(e),
        Ok(()) => {},
    }
    if req.tenant_id.as_str().is_empty() {
        return Err(err(STATUS_BAD_REQUEST, "tenantId is required"));
    }
    Ok(
        TenantPipelineSpec {
            tenant_id: req.tenant_id,
            display_name: req.display_name,
            rate_limit: req.rate_limit,
            proxy: req.proxy,
            paused: false,
        },
    )
}

/// What a created tenant leaves in the store.
pub open spec fn create_store(
    st: StoreView,
    tenant_id: Seq<char>,
    reply: Result<(), K8sErrorView>,
    at: Timestamp,
) -> StoreView {
    match reply {
        Ok(_) => st.announcing(
            EventKind::TenantCreated,
            tenant_id,
            "Tenant "@ + quoted_text(tenant_id) + " created via API"@,
            at,
        ),
        Err(_) => st,
    }
}

/// What a request to create a tenant is answered, and the event it causes.
pub open spec fn create_answer(
    caller: CallerIdentityView,
    tenant_id: Seq<char>,
    reply: Result<(), K8sErrorView>,
) -> Result<(ApiReplyView, TelemetryEventView), ApiErrorView> {
    match reply {
        Ok(_) => Ok(
            (
                tenant_message(
                    STATUS_CREATED,
                    tenant_id,
                    "TenantPipeline created — operator is provisioning resources"@,
                ),
                telemetry_event("TenantCreated"@, tenant_id, caller.subject),
            ),
        ),
        Err(e) => Err(cluster_error("k8s create: "@, e)),
    }
}

/// Finishes a request to create a tenant.
pub fn finish_create(
    store: &mut Store,
    caller: &CallerIdentity,
    tenant_id: &str,
    reply: Result<(), K8sError>,
    now: Timestamp,
) -> (r: Result<(ApiReply, TelemetryEvent), ApiError>)
    ensures
        final(store)@ == create_store(old(store)@, tenant_id@, unit(reply), now),
        finished(r) == create_answer(caller@, tenant_id@, unit(reply)),
{
    match reply {
        Err(e) => Err(cluster_err("k8s create: ", &e)),
        Ok(_) => {
            let message = "Tenant ".to_owned().concat(quoted(tenant_id).as_str()).concat(" created via API");
            store.announce(EventKind::TenantCreated, tenant_id, message.as_str(), now);
            let answer = say(
                STATUS_CREATED,
                tenant_id,
                "TenantPipeline created — operator is provisioning resources",
            );
            Ok((answer, tell("TenantCreated", tenant_id, caller)))
        },
    }
}

// ─── Reading tenants ──────────────────────────────────────────────────────────

/// The views of a list of responses.
pub open spec fn response_views(v: Seq<TenantResponse>) -> Seq<TenantResponseView> {
    v.map_values(|t: TenantResponse| t@)
}

/// `responses` speaks of every tenant of the store, each once.
pub open spec fn is_response_listing(
    responses: Seq<TenantResponseView>,
    tenants: Map<Seq<char>, TenantRecordView>,
) -> bool {
    exists|records: Seq<TenantRecordView>|
        {
            &&& #[trigger] is_record_listing(records, tenants)
            &&& responses == records.map_values(|rec: TenantRecordView| response_of(rec))
        }
}

/// Lists all tenants.
pub fn list_tenants(store: &Store) -> (r: Vec<TenantResponse>)
    ensures
        is_response_listing(response_views(r@), store@.tenants),
{
    let records = store.list_tenants();
    let ghost all = record_views(records@);
    let mut out: Vec<TenantResponse> = Vec::new();
    let n: usize = records.len();
    let mut i: usize = 0;
    while i < n
        invariant
            i <= n,
            n == records@.len(),
            all == record_views(records@),
            out@.len() == i,
            forall|j: int| 0 <= j < i ==> (#[trigger] out@[j])@ == response_of(all[j]),
        decreases n - i,
    {
        out.push(TenantResponse::from(records[i].clone()));
        i = i + 1;
    }
    assert(response_views(out@) =~= all.map_values(|rec: TenantRecordView| response_of(rec)));
    out
}

/// Looks up a tenant.
pub fn get_tenant(store: &Store, tenant_id: &str) -> (r: Result<TenantResponse, ApiError>)
    ensures
        match r {
            Ok(t) => store@.tenants.contains_key(tenant_id@) && t@ == response_of(store@.tenants[tenant_id@]),
            Err(e) => !store@.tenants.contains_key(tenant_id@) && e@ == not_found(),
        },
{
    match store.get_tenant(tenant_id) {
        Some(rec) => Ok(TenantResponse::from(rec)),
        None => Err(err(STATUS_NOT_FOUND, "tenant not found")),
    }
}

// ─── Deleting a tenant ────────────────────────────────────────────────────────

/// What a request to delete a tenant is answered.
pub open spec fn delete_answer(
    tenant_id: Seq<char>,
    reply: Result<bool, K8sErrorView>,
) -> Result<ApiReplyView, ApiErrorView> {
    match reply {
        Ok(true) => Ok(tenant_message(STATUS_OK, tenant_id, "TenantPipeline deletion initiated"@)),
        Ok(false) => Err(not_found()),
        Err(e) => Err(cluster_error("k8s delete: "@, e)),
    }
}

/// Finishes a request to delete a tenant.
pub fn finish_delete(tenant_id: &str, reply: Result<bool, K8sError>) -> (r: Result<ApiReply, ApiError>)
    ensures
        answer(r) == delete_answer(tenant_id@, found(reply)),
{
    match reply {
        Err(e) => Err(cluster_err("k8s delete: ", &e)),
        Ok(existed) => if existed {
            Ok(say(STATUS_OK, tenant_id, "TenantPipeline deletion initiated"))
        } else {
            Err(err(STATUS_NOT_FOUND, "tenant not found"))
        },
    }
}

// ─── Changing a policy ────────────────────────────────────────────────────────

/// Admits a request to change a policy, and gives the policy.
pub fn admit_update(caller: &CallerIdentity, req: &UpdatePolicyRequest) -> (r: Result<RateLimitPolicy, ApiError>)
    ensures
        match r {
            Ok(policy) => has_role(caller@, WRITE_ROLE@) && policy@ == req@,
            Err(e) => !has_role(caller@, WRITE_ROLE@) && e@ == forbidden(caller@.subject, WRITE_ROLE@),
        },
{
    match require_role(caller, WRITE_ROLE) {
        Err(e) => Err(e),
        Ok(()) => Ok(
            RateLimitPolicy {
                tier: req.tier.clone(),
                requests_per_second: req.requests_per_second,
                burst_capacity: req.burst_capacity,
                max_concurrent: req.max_concurrent,
            },
        ),
    }
}

/// What a changed policy leaves in the store.
pub open spec fn update_store(
    st: StoreView,
    tenant_id: Seq<char>,
    policy: RateLimitPolicyView,
    reply: Result<bool, K8sErrorView>,
    at: Timestamp,
) -> StoreView {
    match reply {
        Ok(true) => st.announcing(
            EventKind::ConfigReloaded,
            tenant_id,
            "Policy updated → tier="@ + policy.tier + " rps="@ + decimal_text(policy.requests_per_second as int)
                + " burst="@ + decimal_text(policy.burst_capacity as int),
            at,
        ),
        _ => st,
    }
}

/// What a request to change a policy is answered.
pub open spec fn update_answer(
    tenant_id: Seq<char>,
    reply: Result<bool, K8sErrorView>,
) -> Result<ApiReplyView, ApiErrorView> {
    match reply {
        Ok(true) => Ok(
            tenant_message(
                STATUS_OK,
                tenant_id,
                "Policy update sent — operator will hot-reload ConfigMap within one reconcile cycle"@,
            ),
        ),
        Ok(false) => Err(not_found()),
        Err(e) => Err(cluster_error("k8s patch: "@, e)),
    }
}

/// Finishes a request to change a policy.
pub fn finish_update(
    store: &mut Store,
    tenant_id: &str,
    req: &UpdatePolicyRequest,
    reply: Result<bool, K8sError>,
    now: Timestamp,
) -> (r: Result<ApiReply, ApiError>)
    ensures
        final(store)@ == update_store(old(store)@, tenant_id@, req@, found(reply), now),
        answer(r) == update_answer(tenant_id@, found(reply)),
{
    match reply {
        Err(e) => Err(cluster_err("k8s patch: ", &e)),
        Ok(existed) => {
            if !existed {
                return Err(err(STATUS_NOT_FOUND, "tenant not found"));
            }
            let rps = decimal(req.requests_per_second as i64);
            let burst = decimal(req.burst_capacity as i64);
            let message = "Policy updated → tier=".to_owned().concat(req.tier.as_str()).concat(" rps=").concat(
                rps.as_str(),
            ).concat(" burst=").concat(burst.as_str());
            store.announce(EventKind::ConfigReloaded, tenant_id, message.as_str(), now);
            Ok(
                say(
                    STATUS_OK,
                    tenant_id,
                    "Policy update sent — operator will hot-reload ConfigMap within one reconcile cycle",
                ),
            )
        },
    }
}

// ─── Chaos ────────────────────────────────────────────────────────────────────

/// Whether a tenant's proxy may be killed, and whose it is.
pub open spec fn chaos_admission(
    st: StoreView,
    caller: CallerIdentityView,
    tenant_id: Seq<char>,
) -> Result<TenantRecordView, ApiErrorView> {
    if !has_role(caller, WRITE_ROLE@) {
        Err(forbidden(caller.subject, WRITE_ROLE@))
    } else if st.tenants.contains_key(tenant_id) {
        Ok(st.tenants[tenant_id])
    } else {
        Err(not_found())
    }
}

/// Admits a request to kill a tenant's proxy, and gives the tenant's record,
/// from which `home` tells the namespace of the deployment to delete.
pub fn admit_chaos(store: &Store, caller: &CallerIdentity, tenant_id: &str) -> (r: Result<TenantRecord, ApiError>)
    ensures
        match r {
            Ok(rec) => chaos_admission(store@, caller@, tenant_id@) == Ok::<TenantRecordView, ApiErrorView>(rec@),
            Err(e) => chaos_admission(store@, caller@, tenant_id@) == Err::<TenantRecordView, ApiErrorView>(e@),
        },
{
    match require_role(caller, WRITE_ROLE) {
        Err(e) => return Err(e),
        Ok(()) => {},
    }
    match store.get_tenant(tenant_id) {
        Some(rec) => Ok(rec),
        None => Err(err(STATUS_NOT_FOUND, "tenant not found")),
    }
}

/// What chaos leaves in the store: an event that starts the self-heal
/// narration, and a log line.
pub open spec fn chaos_store(
    st: StoreView,
    tenant_id: Seq<char>,
    rec: TenantRecordView,
    reply: Result<(), K8sErrorView>,
    at: Timestamp,
) -> StoreView {
    match reply {
        Ok(_) => st.announcing(
            EventKind::ChaosInjected,
            tenant_id,
            "💥 Chaos: killed proxy deployment "@ + rec.proxy_pod_name,
            at,
        ).noting(at, "💥 CHAOS → deleted proxy/"@ + rec.proxy_pod_name + " in ns/"@ + rec.namespace),
        Err(_) => st,
    }
}

/// The answer to injected chaos.
pub open spec fn chaos_reply(tenant_id: Seq<char>, proxy: Seq<char>) -> ApiReplyView {
    ApiReplyView {
        status: STATUS_OK,
        body: JsonView::Object(
            seq![
                text_member("tenantId"@, tenant_id),
                text_member(
                    "message"@,
                    "Chaos injected — proxy deployment deleted from the cluster. Watch the TUI for auto-heal."@,
                ),
                text_member("proxy"@, proxy),
            ],
        ),
    }
}

/// What a request to kill a proxy is answered, and the event it causes.
pub open spec fn chaos_answer(
    caller: CallerIdentityView,
    tenant_id: Seq<char>,
    rec: TenantRecordView,
    reply: Result<(), K8sErrorView>,
) -> Result<(ApiReplyView, TelemetryEventView), ApiErrorView> {
    match reply {
        Ok(_) => Ok(
            (
                chaos_reply(tenant_id, rec.proxy_pod_name),
                telemetry_event("ChaosInjected"@, tenant_id, caller.subject),
            ),
        ),
        Err(e) => Err(cluster_error("chaos: delete proxy deployment: "@, e)),
    }
}

/// Finishes a request to kill a tenant's proxy.
pub fn finish_chaos(
    store: &mut Store,
    caller: &CallerIdentity,
    tenant_id: &str,
    rec: &TenantRecord,
    reply: Result<(), K8sError>,
    now: Timestamp,
) -> (r: Result<(ApiReply, TelemetryEvent), ApiError>)
    ensures
        final(store)@ == chaos_store(old(store)@, tenant_id@, rec@, unit(reply), now),
        finished(r) == chaos_answer(caller@, tenant_id@, rec@, unit(reply)),
{
    match reply {
        Err(e) => Err(cluster_err("chaos: delete proxy deployment: ", &e)),
        Ok(_) => {
            let proxy = rec.proxy_pod_name.as_str();
            let message = "💥 Chaos: killed proxy deployment ".to_owned().concat(proxy);
            store.announce(EventKind::ChaosInjected, tenant_id, message.as_str(), now);
            let line = "💥 CHAOS → deleted proxy/".to_owned().concat(proxy).concat(" in ns/").concat(
                rec.namespace.as_str(),
            );
            store.note(now, line.as_str());
            let fields = vec![
                Json::member("tenantId", Json::text(tenant_id)),
                Json::member(
                    "message",
                    Json::text(
                        "Chaos injected — proxy deployment deleted from the cluster. Watch the TUI for auto-heal.",
                    ),
                ),
                Json::member("proxy", Json::text(proxy)),
            ];
            assert(members(fields@) =~= chaos_reply(tenant_id@, proxy@).body->Object_0);
            let reply = ApiReply { status: STATUS_OK, body: Json::object(fields) };
            Ok((reply, tell("ChaosInjected", tenant_id, caller)))
        },
    }
}

// ─── Handlers against backends that answer at once ────────────────────────────

/// Everything the handlers work on.
pub struct ApiState<C: CrdBackend, K: K8sBackend, I: IdentityVerifier, T: TelemetrySink> {
    pub crd: C,
    pub backend: K,
    pub store: Store,
    /// Verifies the token of every request but those about health.
    pub identity: I,
    /// Where business events go.
    pub telemetry: T,
}

impl<C: CrdBackend, K: K8sBackend> ApiState<C, K, NoopIdentityVerifier, NoopTelemetrySink> {
    /// A state that lets everybody in and tells nobody.
    pub fn new(crd: C, backend: K, store: Store) -> (r: Self)
        ensures
            r.crd == crd,
            r.backend == backend,
            r.store == store,
    {
        ApiState { crd, backend, store, identity: NoopIdentityVerifier {  }, telemetry: NoopTelemetrySink {  } }
    }
}

/// What an authentication gives.
pub open spec fn admitted(r: Result<CallerIdentity, ApiError>) -> Result<CallerIdentityView, ApiErrorView> {
    match r {
        Ok(c) => Ok(c@),
        Err(e) => Err(e@),
    }
}

/// What an authentication gives, for each outcome of the verification.
pub open spec fn authentication(
    reply: Result<CallerIdentityView, Seq<char>>,
) -> Result<CallerIdentityView, ApiErrorView> {
    match reply {
        Ok(caller) => Ok(caller),
        Err(why) => Err(unauthorized_error(why)),
    }
}

/// Creating a tenant led from `pre` to `post`, and was answered with `r`.
pub open spec fn tenant_created<C: CrdBackend, K: K8sBackend, I: IdentityVerifier, T: TelemetrySink>(
    pre: ApiState<C, K, I, T>,
    caller: CallerIdentityView,
    req: CreateTenantRequestView,
    at: Timestamp,
    post: ApiState<C, K, I, T>,
    r: Result<ApiReplyView, ApiErrorView>,
) -> bool {
    &&& post.backend == pre.backend
    &&& post.identity == pre.identity
    &&& match create_admission(caller, req) {
        Err(e) => r == Err::<ApiReplyView, ApiErrorView>(e) && post == pre,
        Ok(s) => exists|reply: Result<(), K8sErrorView>|
            {
                &&& #[trigger] pre.crd.created(s, reply, post.crd)
                &&& post.store@ == create_store(pre.store@, s.tenant_id, reply, at)
                &&& match create_answer(caller, s.tenant_id, reply) {
                    Ok((answer, event)) => r == Ok::<ApiReplyView, ApiErrorView>(answer) && pre.telemetry.emitted(
                        event.name,
                        event.properties,
                        post.telemetry,
                    ),
                    Err(e) => r == Err::<ApiReplyView, ApiErrorView>(e) && post.telemetry == pre.telemetry,
                }
            },
    }
}

/// Deleting a tenant led from `pre` to `post`, and was answered with `r`.
pub open spec fn tenant_deleted<C: CrdBackend, K: K8sBackend, I: IdentityVerifier, T: TelemetrySink>(
    pre: ApiState<C, K, I, T>,
    caller: CallerIdentityView,
    tenant_id: Seq<char>,
    post: ApiState<C, K, I, T>,
    r: Result<ApiReplyView, ApiErrorView>,
) -> bool {
    if has_role(caller, WRITE_ROLE@) {
        &&& post == (ApiState { crd: post.crd, ..pre })
        &&& exists|reply: Result<bool, K8sErrorView>|
            {
                &&& #[trigger] pre.crd.deleted(tenant_id, reply, post.crd)
                &&& r == delete_answer(tenant_id, reply)
            }
    } else {
        &&& r == Err::<ApiReplyView, ApiErrorView>(forbidden(caller.subject, WRITE_ROLE@))
        &&& post == pre
    }
}

/// Changing a policy led from `pre` to `post`, and was answered with `r`.
pub open spec fn policy_updated<C: CrdBackend, K: K8sBackend, I: IdentityVerifier, T: TelemetrySink>(
    pre: ApiState<C, K, I, T>,
    caller: CallerIdentityView,
    tenant_id: Seq<char>,
    policy: RateLimitPolicyView,
    at: Timestamp,
    post: ApiState<C, K, I, T>,
    r: Result<ApiReplyView, ApiErrorView>,
) -> bool {
    if has_role(caller, WRITE_ROLE@) {
        &&& post.backend == pre.backend
        &&& post.identity == pre.identity
        &&& post.telemetry == pre.telemetry
        &&& exists|reply: Result<bool, K8sErrorView>|
            {
                &&& #[trigger] pre.crd.policy_patched(tenant_id, policy, reply, post.crd)
                &&& post.store@ == update_store(pre.store@, tenant_id, policy, reply, at)
                &&& r == update_answer(tenant_id, reply)
            }
    } else {
        &&& r == Err::<ApiReplyView, ApiErrorView>(forbidden(caller.subject, WRITE_ROLE@))
        &&& post == pre
    }
}

/// Killing a proxy led from `pre` to `post`, and was answered with `r`.
pub open spec fn proxy_killed<C: CrdBackend, K: K8sBackend, I: IdentityVerifier, T: TelemetrySink>(
    pre: ApiState<C, K, I, T>,
    caller: CallerIdentityView,
    tenant_id: Seq<char>,
    at: Timestamp,
    post: ApiState<C, K, I, T>,
    r: Result<ApiReplyView, ApiErrorView>,
) -> bool {
    &&& post.crd == pre.crd
    &&& post.identity == pre.identity
    &&& match chaos_admission(pre.store@, caller, tenant_id) {
        Err(e) => r == Err::<ApiReplyView, ApiErrorView>(e) && post == pre,
        Ok(rec) => exists|reply: Result<(), K8sErrorView>|
            {
                &&& #[trigger] pre.backend.proxy_deleted(tenant_id, home_of(rec), reply, post.backend)
                &&& post.store@ == chaos_store(pre.store@, tenant_id, rec, reply, at)
                &&& match chaos_answer(caller, tenant_id, rec, reply) {
                    Ok((answer, event)) => r == Ok::<ApiReplyView, ApiErrorView>(answer) && pre.telemetry.emitted(
                        event.name,
                        event.properties,
                        post.telemetry,
                    ),
                    Err(e) => r == Err::<ApiReplyView, ApiErrorView>(e) && post.telemetry == pre.telemetry,
                }
            },
    }
}

impl<C: CrdBackend, K: K8sBackend, I: IdentityVerifier, T: TelemetrySink> ApiState<C, K, I, T> {
    /// Finds out who sends a request, by its authorization header.
    pub fn authenticate(&self, header: Option<&str>) -> (r: Result<CallerIdentity, ApiError>)
        ensures
            exists|reply: Result<CallerIdentityView, Seq<char>>|
                {
                    &&& #[trigger] self.identity.verified(token_in(opt_chars(header)), reply)
                    &&& admitted(r) == authentication(reply)
                },
    {
        let token = bearer_token(header);
        match self.identity.verify(token.as_str()) {
            Ok(caller) => Ok(caller),
            Err(why) => Err(unauthorized(why.as_str())),
        }
    }

    /// Creates a tenant.
    pub fn create_tenant(&mut self, caller: &CallerIdentity, req: CreateTenantRequest, now: Timestamp) -> (r: Result<
        ApiReply,
        ApiError,
    >)
        ensures
            tenant_created(*old(self), caller@, req@, now, *final(self), answer(r)),
    {
        let ghost pre = *self;
        let s = match admit_create(caller, req) {
            Err(e) => return Err(e),
            Ok(s) => s,
        };
        let ghost spec_ = s@;
        let id = s.tenant_id.clone();
        let reply = self.crd.create(s);
        let ghost replied = unit(reply);
        let r = match finish_create(&mut self.store, caller, id.as_str(), reply, now) {
            Err(e) => Err(e),
            Ok((answer, event)) => {
                self.telemetry.emit(event.name.as_str(), event.properties);
                Ok(answer)
            },
        };
        assert(pre.crd.created(spec_, replied, self.crd));
        r
    }

    /// Deletes a tenant's pipeline.
    pub fn delete_tenant(&mut self, caller: &CallerIdentity, tenant_id: &str) -> (r: Result<ApiReply, ApiError>)
        ensures
            tenant_deleted(*old(self), caller@, tenant_id@, *final(self), answer(r)),
    {
        match require_role(caller, WRITE_ROLE) {
            Err(e) => return Err(e),
            Ok(()) => {},
        }
        let reply = self.crd.delete(tenant_id);
        assert(old(self).crd.deleted(tenant_id@, found(reply), self.crd));
        finish_delete(tenant_id, reply)
    }

    /// Changes a tenant's policy.
    pub fn update_policy(
        &mut self,
        caller: &CallerIdentity,
        tenant_id: &str,
        req: UpdatePolicyRequest,
        now: Timestamp,
    ) -> (r: Result<ApiReply, ApiError>)
        ensures
            policy_updated(*old(self), caller@, tenant_id@, req@, now, *final(self), answer(r)),
    {
        let policy = match admit_update(caller, &req) {
            Err(e) => return Err(e),
            Ok(policy) => policy,
        };
        let reply = self.crd.patch_policy(tenant_id, policy);
        let r = finish_update(&mut self.store, tenant_id, &req, reply, now);
        assert(old(self).crd.policy_patched(tenant_id@, req@, found(reply), self.crd));
        r
    }

    /// Kills a tenant's proxy: the deployment is really deleted from the
    /// cluster.
    pub fn chaos_kill_proxy(&mut self, caller: &CallerIdentity, tenant_id: &str, now: Timestamp) -> (r: Result<
        ApiReply,
        ApiError,
    >)
        ensures
            proxy_killed(*old(self), caller@, tenant_id@, now, *final(self), answer(r)),
    {
        let rec = match admit_chaos(&self.store, caller, tenant_id) {
            Err(e) => return Err(e),
            Ok(rec) => rec,
        };
        let reply = self.backend.delete_proxy_deployment(tenant_id, home(&rec).as_str());
        let r = match finish_chaos(&mut self.store, caller, tenant_id, &rec, reply, now) {
            Err(e) => Err(e),
            Ok((answer, event)) => {
                self.telemetry.emit(event.name.as_str(), event.properties);
                Ok(answer)
            },
        };
        assert(old(self).backend.proxy_deleted(tenant_id@, home_of(rec@), unit(reply), self.backend));
        r
    }
}

// ─── Laws ─────────────────────────────────────────────────────────────────────

/// A caller without the write role is answered 403 to every request that
/// would change something, and nothing changes: no object, no deployment, no
/// record, no log line, no event.
pub proof fn law_unprivileged_callers_change_nothing<
    C: CrdBackend,
    K: K8sBackend,
    I: IdentityVerifier,
    T: TelemetrySink,
>(
    pre: ApiState<C, K, I, T>,
    post: ApiState<C, K, I, T>,
    caller: CallerIdentityView,
    req: CreateTenantRequestView,
    tenant_id: Seq<char>,
    policy: RateLimitPolicyView,
    at: Timestamp,
    r: Result<ApiReplyView, ApiErrorView>,
)
    requires
        !has_role(caller, WRITE_ROLE@),
        ({
            ||| tenant_created(pre, caller, req, at, post, r)
            ||| tenant_deleted(pre, caller, tenant_id, post, r)
            ||| policy_updated(pre, caller, tenant_id, policy, at, post, r)
            ||| proxy_killed(pre, caller, tenant_id, at, post, r)
        }),
    ensures
        post == pre,
        r == Err::<ApiReplyView, ApiErrorView>(forbidden(caller.subject, WRITE_ROLE@)),
        r matches Err(e) && e.status == 403,
{
}

/// Without authentication everybody is let in, whatever token they present,
/// and may change tenants.
pub proof fn law_noop_identity_lets_everybody_write(
    v: NoopIdentityVerifier,
    token: Seq<char>,
    reply: Result<CallerIdentityView, Seq<char>>,
)
    requires
        v.verified(token, reply),
    ensures
        authentication(reply) == Ok::<CallerIdentityView, ApiErrorView>(anonymous()),
        has_role(anonymous(), WRITE_ROLE@),
{
    assert(anonymous().roles[0] == WRITE_ROLE@);
}

/// A created tenant is declared as it was asked for, a changed policy is
/// declared, and a deleted tenant is declared no more; the request is
/// answered accordingly. Other tenants' pipelines stay as they were.
pub proof fn law_requests_reach_the_declared_pipelines<K: K8sBackend, I: IdentityVerifier, T: TelemetrySink>(
    pre: ApiState<MockCrdBackend, K, I, T>,
    created: ApiState<MockCrdBackend, K, I, T>,
    updated: ApiState<MockCrdBackend, K, I, T>,
    deleted: ApiState<MockCrdBackend, K, I, T>,
    caller: CallerIdentityView,
    req: CreateTenantRequestView,
    tenant_id: Seq<char>,
    policy: RateLimitPolicyView,
    at: Timestamp,
    create_reply: Result<ApiReplyView, ApiErrorView>,
    update_reply: Result<ApiReplyView, ApiErrorView>,
    delete_reply: Result<ApiReplyView, ApiErrorView>,
)
    requires
        has_role(caller, WRITE_ROLE@),
        req.tenant_id.len() > 0,
        tenant_created(pre, caller, req, at, created, create_reply),
        policy_updated(pre, caller, tenant_id, policy, at, updated, update_reply),
        tenant_deleted(pre, caller, tenant_id, deleted, delete_reply),
    ensures
        created.crd@ == pre.crd@.insert(req.tenant_id, requested_spec(req)),
        create_reply matches Ok(reply) && reply.status == 201,
        pre.crd@.contains_key(tenant_id) ==> {
            &&& updated.crd@ == with_policy(pre.crd@, tenant_id, policy)
            &&& update_reply matches Ok(reply) && reply.status == 200
            &&& deleted.crd@ == pre.crd@.remove(tenant_id)
            &&& delete_reply matches Ok(reply) && reply.status == 200
        },
        !pre.crd@.contains_key(tenant_id) ==> {
            &&& updated.crd@ == pre.crd@
            &&& update_reply == Err::<ApiReplyView, ApiErrorView>(not_found())
            &&& deleted.crd@ == pre.crd@
            &&& delete_reply == Err::<ApiReplyView, ApiErrorView>(not_found())
        },
{
    if !pre.crd@.contains_key(tenant_id) {
        assert(pre.crd@.remove(tenant_id) =~= pre.crd@);
    }
}

/// Killing a known tenant's proxy really deletes its deployment from the
/// cluster, and no other: where the record is one that a reconcile or a
/// degraded report left, the one in the tenant's own namespace. The event that
/// starts the self-heal narration is published, and no record changes. An unknown tenant is answered 404, and
/// nothing changes.
pub proof fn law_chaos_deletes_the_deployment<C: CrdBackend, I: IdentityVerifier, T: TelemetrySink>(
    pre: ApiState<C, MockBackend, I, T>,
    post: ApiState<C, MockBackend, I, T>,
    caller: CallerIdentityView,
    tenant_id: Seq<char>,
    at: Timestamp,
    r: Result<ApiReplyView, ApiErrorView>,
)
    requires
        has_role(caller, WRITE_ROLE@),
        proxy_killed(pre, caller, tenant_id, at, post, r),
    ensures
        pre.store@.tenants.contains_key(tenant_id) ==> {
            let rec = pre.store@.tenants[tenant_id];
            &&& r == Ok::<ApiReplyView, ApiErrorView>(chaos_reply(tenant_id, rec.proxy_pod_name))
            &&& post.backend@ == pre.backend@.without_deployment(home_of(rec), tenant_id)
            &&& !post.backend@.deployments.contains_key((home_of(rec), proxy_of(tenant_id)))
            &&& left_for(rec, tenant_id) ==> !post.backend@.deployments.contains_key(
                (namespace_of(tenant_id), proxy_of(tenant_id)),
            )
            &&& post.store@.events.len() == pre.store@.events.len() + 1
            &&& post.store@.events.last().kind == EventKind::ChaosInjected
            &&& post.store@.events.last().tenant_id == tenant_id
            &&& post.store@.tenants == pre.store@.tenants
        },
        !pre.store@.tenants.contains_key(tenant_id) ==> {
            &&& r == Err::<ApiReplyView, ApiErrorView>(not_found())
            &&& post == pre
        },
{
}

/// A tenant that was created is declared as the request asked for it, limits
/// and proxy included, and is not paused; every other tenant's pipeline stays
/// as it was.
pub proof fn law_created_pipeline_is_the_requested_one<K: K8sBackend, I: IdentityVerifier, T: TelemetrySink>(
    pre: ApiState<MockCrdBackend, K, I, T>,
    created: ApiState<MockCrdBackend, K, I, T>,
    caller: CallerIdentityView,
    req: CreateTenantRequestView,
    at: Timestamp,
    r: Result<ApiReplyView, ApiErrorView>,
    other: Seq<char>,
)
    requires
        caller.roles.contains("Tenant.Write"@),
        req.tenant_id.len() > 0,
        tenant_created(pre, caller, req, at, created, r),
    ensures
        created.crd@.contains_key(req.tenant_id),
        created.crd@[req.tenant_id].tenant_id == req.tenant_id,
        created.crd@[req.tenant_id].display_name == req.display_name,
        created.crd@[req.tenant_id].rate_limit == req.rate_limit,
        created.crd@[req.tenant_id].proxy == req.proxy,
        !created.crd@[req.tenant_id].paused,
        other != req.tenant_id ==> created.crd@.contains_key(other) == pre.crd@.contains_key(other),
        other != req.tenant_id && pre.crd@.contains_key(other) ==> created.crd@[other] == pre.crd@[other],
{
}

/// Whatever holds the pipelines, a request that is admitted asks it for the
/// pipeline that the request describes, and for no other.
pub proof fn law_admitted_request_is_handed_on<C: CrdBackend, K: K8sBackend, I: IdentityVerifier, T: TelemetrySink>(
    pre: ApiState<C, K, I, T>,
    post: ApiState<C, K, I, T>,
    caller: CallerIdentityView,
    req: CreateTenantRequestView,
    at: Timestamp,
    r: Result<ApiReplyView, ApiErrorView>,
)
    requires
        caller.roles.contains("Tenant.Write"@),
        req.tenant_id.len() > 0,
        tenant_created(pre, caller, req, at, post, r),
    ensures
        exists|s: TenantPipelineSpecView, reply: Result<(), K8sErrorView>|
            {
                &&& #[trigger] pre.crd.created(s, reply, post.crd)
                &&& s.tenant_id == req.tenant_id
                &&& s.display_name == req.display_name
                &&& s.rate_limit == req.rate_limit
                &&& s.proxy == req.proxy
                &&& !s.paused
                &&& r is Ok <==> reply is Ok
            },
{
    let reply = choose|reply: Result<(), K8sErrorView>|
        {
            &&& #[trigger] pre.crd.created(requested_spec(req), reply, post.crd)
            &&& post.store@ == create_store(pre.store@, req.tenant_id, reply, at)
            &&& r is Ok <==> reply is Ok
        };
    assert(pre.crd.created(requested_spec(req), reply, post.crd));
}

/// A request to create a tenant is admitted exactly when the caller may write
/// and the request names the tenant; one that names none is answered 400.
pub proof fn law_creation_needs_a_role_and_a_name(caller: CallerIdentityView, req: CreateTenantRequestView)
    ensures
        create_admission(caller, req) is Ok <==> caller.roles.contains("Tenant.Write"@) && req.tenant_id.len() > 0,
        caller.roles.contains("Tenant.Write"@) && req.tenant_id.len() == 0 ==> {
            &&& create_admission(caller, req)->Err_0.status == 400
            &&& create_admission(caller, req)->Err_0.message == "tenantId is required"@
        },
        !caller.roles.contains("Tenant.Write"@) ==> {
            &&& create_admission(caller, req)->Err_0.status == 403
            &&& create_admission(caller, req)->Err_0.message == "caller "@ + quoted_text(caller.subject)
                + " missing required role "@ + quoted_text("Tenant.Write"@)
        },
{
}

/// A changed policy is the requested one, and nothing else of the pipeline and
/// no other pipeline changes.
pub proof fn law_policy_update_changes_the_policy_alone<K: K8sBackend, I: IdentityVerifier, T: TelemetrySink>(
    pre: ApiState<MockCrdBackend, K, I, T>,
    post: ApiState<MockCrdBackend, K, I, T>,
    caller: CallerIdentityView,
    tenant_id: Seq<char>,
    policy: RateLimitPolicyView,
    at: Timestamp,
    r: Result<ApiReplyView, ApiErrorView>,
    other: Seq<char>,
)
    requires
        caller.roles.contains("Tenant.Write"@),
        pre.crd@.contains_key(tenant_id),
        policy_updated(pre, caller, tenant_id, policy, at, post, r),
    ensures
        post.crd@[tenant_id].rate_limit == policy,
        post.crd@[tenant_id].tenant_id == pre.crd@[tenant_id].tenant_id,
        post.crd@[tenant_id].display_name == pre.crd@[tenant_id].display_name,
        post.crd@[tenant_id].proxy == pre.crd@[tenant_id].proxy,
        post.crd@[tenant_id].paused == pre.crd@[tenant_id].paused,
        post.crd@.contains_key(other) == pre.crd@.contains_key(other),
        other != tenant_id && pre.crd@.contains_key(other) ==> post.crd@[other] == pre.crd@[other],
{
}

/// What the API says about a tenant is what its record says, field by field,
/// with the phase by its name.
pub proof fn law_response_repeats_the_record(rec: TenantRecordView)
    ensures
        ({
            let r = response_of(rec);
            &&& r.tenant_id == rec.tenant_id
            &&& r.display_name == rec.display_name
            &&& r.namespace == rec.namespace
            &&& r.tier == rec.tier
            &&& r.rps == rec.rps
            &&& r.burst == rec.burst
            &&& r.max_concurrent == rec.max_concurrent
            &&& r.reconcile_count == rec.reconcile_count
            &&& r.last_reconcile_at == rec.last_reconcile_at
            &&& rec.phase == TenantPhase::Provisioning ==> r.phase == "Provisioning"@
            &&& rec.phase == TenantPhase::Ready ==> r.phase == "Ready"@
            &&& rec.phase == TenantPhase::Degraded ==> r.phase == "Degraded"@
            &&& rec.phase == TenantPhase::Terminating ==> r.phase == "Terminating"@
        }),
{
}

/// A listing says of each known tenant what its record says, and speaks of
/// nobody else.
pub proof fn law_listing_repeats_every_record(
    responses: Seq<TenantResponseView>,
    tenants: Map<Seq<char>, TenantRecordView>,
    id: Seq<char>,
)
    requires
        is_response_listing(responses, tenants),
    ensures
        responses.len() == tenants.dom().len(),
        tenants.contains_key(id) ==> exists|i: int|
            {
                let rec = tenants[id];
                &&& 0 <= i < responses.len()
                &&& (#[trigger] responses[i]).tenant_id == rec.tenant_id
                &&& responses[i].display_name == rec.display_name
                &&& responses[i].namespace == rec.namespace
                &&& responses[i].tier == rec.tier
                &&& responses[i].rps == rec.rps
                &&& responses[i].burst == rec.burst
                &&& responses[i].max_concurrent == rec.max_concurrent
                &&& responses[i].reconcile_count == rec.reconcile_count
                &&& responses[i].last_reconcile_at == rec.last_reconcile_at
            },
{
    let records = choose|records: Seq<TenantRecordView>|
        {
            &&& #[trigger] is_record_listing(records, tenants)
            &&& responses == records.map_values(|rec: TenantRecordView| response_of(rec))
        };
    law_listing_holds_every_tenant(records, tenants, id);
    if tenants.contains_key(id) {
        let i = choose|i: int| 0 <= i < records.len() && records[i] == tenants[id];
        assert(responses[i] == response_of(records[i]));
    }
}

/// Every refusal carries the status and the words of its cause.
pub proof fn law_refusals_say_why(what: Seq<char>, e: K8sErrorView, why: Seq<char>, subject: Seq<char>, role: Seq<char>)
    ensures
        not_found().status == 404,
        not_found().message == "tenant not found"@,
        unauthorized_error(why).status == 401,
        unauthorized_error(why).message == "unauthorized: "@ + why,
        forbidden(subject, role).status == 403,
        forbidden(subject, role).message == "caller "@ + quoted_text(subject) + " missing required role "@
            + quoted_text(role),
        cluster_error(what, e).status == 500,
        cluster_error(what, e).message == what + e.message(),
{
}

/// A refusal's body holds its words under `error`.
pub proof fn law_refusal_body_holds_the_words(e: ApiErrorView)
    ensures
        e.body().field("error"@) == Some(JsonView::Text(e.message)),
{
    lemma_member_is_field(e.body(), 0);
}

/// A caller has exactly the roles that are listed for them.
pub proof fn law_roles_are_the_listed_ones(caller: CallerIdentityView, role: Seq<char>)
    ensures
        has_role(caller, role) <==> exists|i: int| 0 <= i < caller.roles.len() && #[trigger] caller.roles[i] == role,
{
}

/// The token is what follows `Bearer ` in the header, and is empty where the
/// header begins otherwise or is missing.
pub proof fn law_token_follows_the_scheme(token: Seq<char>, header: Seq<char>)
    ensures
        token_in(Some("Bearer "@ + token)) == token,
        token_in(None).len() == 0,
        header.len() < 7 || header.subrange(0, 7) != "Bearer "@ ==> token_in(Some(header)).len() == 0,
{
    reveal_strlit("Bearer ");
    assert("Bearer "@.len() == 7);
    let full = "Bearer "@ + token;
    assert(full.subrange(0, 7) =~= "Bearer "@);
    assert(full.subrange(7, full.len() as int) =~= token);
    assert(full.skip(7) =~= token);
}

/// An authentication lets in the caller that was verified, as that caller, and
/// turns down everybody else with the verifier's words.
pub proof fn law_authentication_follows_the_verifier(reply: Result<CallerIdentityView, Seq<char>>)
    ensures
        reply matches Ok(caller) ==> authentication(reply) == Ok::<CallerIdentityView, ApiErrorView>(caller),
        reply matches Err(why) ==> {
            &&& authentication(reply)->Err_0.status == 401
            &&& authentication(reply)->Err_0.message == "unauthorized: "@ + why
            &&& authentication(reply) is Err
        },
{
}

/// A granted request that says what happens names the tenant and says it.
pub proof fn law_reply_names_the_tenant(status: u16, tenant_id: Seq<char>, message: Seq<char>)
    ensures
        tenant_message(status, tenant_id, message).status == status,
        tenant_message(status, tenant_id, message).body.field("tenantId"@) == Some(JsonView::Text(tenant_id)),
        tenant_message(status, tenant_id, message).body.field("message"@) == Some(JsonView::Text(message)),
{
    reveal_strlit("tenantId");
    reveal_strlit("message");
    assert("tenantId"@.len() == 8 && "message"@.len() == 7);
    let doc = tenant_message(status, tenant_id, message).body;
    lemma_member_is_field(doc, 0);
    lemma_member_is_field(doc, 1);
}

/// A healthy server answers `ok` and the time.
pub proof fn law_health_tells_the_time(at: Timestamp)
    ensures
        health(at).field("status"@) == Some(JsonView::Text("ok"@)),
        health(at).field("time"@) == Some(JsonView::Text(rfc3339_text(at.secs(), at.nanos()))),
{
    reveal_strlit("status");
    reveal_strlit("time");
    assert("status"@.len() == 6 && "time"@.len() == 4);
    lemma_member_is_field(health(at), 0);
    lemma_member_is_field(health(at), 1);
}

/// A business event names the tenant and the caller.
pub proof fn law_business_event_names_tenant_and_caller(name: Seq<char>, tenant_id: Seq<char>, subject: Seq<char>)
    ensures
        ({
            let event = telemetry_event(name, tenant_id, subject);
            &&& event.name == name
            &&& event.properties.len() == 2
            &&& event.properties[0] == ("tenantId"@, tenant_id)
            &&& event.properties[1] == ("callerSubject"@, subject)
        }),
{
}

/// A request to create a tenant is answered as the cluster replied: 201 with
/// the tenant's name, one event for the caller and one for the watchers, or
/// 500 with the cluster's words and nothing told.
pub proof fn law_creation_is_answered_as_the_cluster_replied(
    st: StoreView,
    caller: CallerIdentityView,
    tenant_id: Seq<char>,
    reply: Result<(), K8sErrorView>,
    at: Timestamp,
)
    ensures
        create_store(st, tenant_id, reply, at).tenants == st.tenants,
        create_store(st, tenant_id, reply, at).logs == st.logs,
        reply is Ok ==> {
            let (answer, event) = create_answer(caller, tenant_id, reply)->Ok_0;
            &&& create_answer(caller, tenant_id, reply) is Ok
            &&& answer.status == 201
            &&& answer.body.field("tenantId"@) == Some(JsonView::Text(tenant_id))
            &&& answer.body.field("message"@) == Some(
                JsonView::Text("TenantPipeline created — operator is provisioning resources"@),
            )
            &&& event.name == "TenantCreated"@
            &&& event.properties == seq![("tenantId"@, tenant_id), ("callerSubject"@, caller.subject)]
            &&& create_store(st, tenant_id, reply, at).events == st.events.push(
                (EventView {
                    kind: EventKind::TenantCreated,
                    tenant_id,
                    message: "Tenant "@ + quoted_text(tenant_id) + " created via API"@,
                    timestamp: at,
                }),
            )
        },
        reply matches Err(e) ==> {
            &&& create_answer(caller, tenant_id, reply) is Err
            &&& create_answer(caller, tenant_id, reply)->Err_0.status == 500
            &&& create_answer(caller, tenant_id, reply)->Err_0.message == "k8s create: "@ + e.message()
            &&& create_store(st, tenant_id, reply, at).events == st.events
        },
{
    law_reply_names_the_tenant(201, tenant_id, "TenantPipeline created — operator is provisioning resources"@);
}

/// A request to delete a tenant is answered as the cluster replied: 200 with
/// the tenant's name, 404, or 500 with the cluster's words.
pub proof fn law_deletion_is_answered_as_the_cluster_replied(tenant_id: Seq<char>, reply: Result<bool, K8sErrorView>)
    ensures
        reply == Ok::<bool, K8sErrorView>(true) ==> {
            &&& delete_answer(tenant_id, reply) is Ok
            &&& delete_answer(tenant_id, reply)->Ok_0.status == 200
            &&& delete_answer(tenant_id, reply)->Ok_0.body.field("tenantId"@) == Some(JsonView::Text(tenant_id))
            &&& delete_answer(tenant_id, reply)->Ok_0.body.field("message"@) == Some(
                JsonView::Text("TenantPipeline deletion initiated"@),
            )
        },
        reply == Ok::<bool, K8sErrorView>(false) ==> {
            &&& delete_answer(tenant_id, reply) is Err
            &&& delete_answer(tenant_id, reply)->Err_0.status == 404
            &&& delete_answer(tenant_id, reply)->Err_0.message == "tenant not found"@
        },
        reply matches Err(e) ==> {
            &&& delete_answer(tenant_id, reply) is Err
            &&& delete_answer(tenant_id, reply)->Err_0.status == 500
            &&& delete_answer(tenant_id, reply)->Err_0.message == "k8s delete: "@ + e.message()
        },
{
    law_reply_names_the_tenant(200, tenant_id, "TenantPipeline deletion initiated"@);
}

/// A request to change a policy is answered as the cluster replied: 200 with
/// the tenant's name and an event that tells the new limits, 404, or 500 with
/// the cluster's words; no record and no log line changes.
pub proof fn law_policy_update_is_answered_as_the_cluster_replied(
    st: StoreView,
    tenant_id: Seq<char>,
    policy: RateLimitPolicyView,
    reply: Result<bool, K8sErrorView>,
    at: Timestamp,
)
    ensures
        update_store(st, tenant_id, policy, reply, at).tenants == st.tenants,
        update_store(st, tenant_id, policy, reply, at).logs == st.logs,
        reply == Ok::<bool, K8sErrorView>(true) ==> {
            &&& update_answer(tenant_id, reply) is Ok
            &&& update_answer(tenant_id, reply)->Ok_0.status == 200
            &&& update_answer(tenant_id, reply)->Ok_0.body.field("tenantId"@) == Some(JsonView::Text(tenant_id))
            &&& update_answer(tenant_id, reply)->Ok_0.body.field("message"@) == Some(
                JsonView::Text(
                    "Policy update sent — operator will hot-reload ConfigMap within one reconcile cycle"@,
                ),
            )
            &&& update_store(st, tenant_id, policy, reply, at).events == st.events.push(
                (EventView {
                    kind: EventKind::ConfigReloaded,
                    tenant_id,
                    message: "Policy updated → tier="@ + policy.tier + " rps="@ + decimal_text(
                        policy.requests_per_second as int,
                    ) + " burst="@ + decimal_text(policy.burst_capacity as int),
                    timestamp: at,
                }),
            )
        },
        reply == Ok::<bool, K8sErrorView>(false) ==> {
            &&& update_answer(tenant_id, reply) is Err
            &&& update_answer(tenant_id, reply)->Err_0.status == 404
            &&& update_answer(tenant_id, reply)->Err_0.message == "tenant not found"@
            &&& update_store(st, tenant_id, policy, reply, at).events == st.events
        },
        reply matches Err(e) ==> {
            &&& update_answer(tenant_id, reply) is Err
            &&& update_answer(tenant_id, reply)->Err_0.status == 500
            &&& update_answer(tenant_id, reply)->Err_0.message == "k8s patch: "@ + e.message()
            &&& update_store(st, tenant_id, policy, reply, at).events == st.events
        },
{
    law_reply_names_the_tenant(
        200,
        tenant_id,
        "Policy update sent — operator will hot-reload ConfigMap within one reconcile cycle"@,
    );
}

/// A proxy is killed for those who may write, and only where the store knows
/// the tenant, whose record then says where the proxy is.
pub proof fn law_chaos_needs_a_role_and_a_tenant(st: StoreView, caller: CallerIdentityView, tenant_id: Seq<char>)
    ensures
        ({
            let r = chaos_admission(st, caller, tenant_id);
            let may = caller.roles.contains("Tenant.Write"@);
            &&& r is Ok <==> may && st.tenants.contains_key(tenant_id)
            &&& r is Ok ==> r->Ok_0 == st.tenants[tenant_id]
            &&& !may ==> r->Err_0.status == 403
            &&& may && !st.tenants.contains_key(tenant_id) ==> r->Err_0.status == 404 && r->Err_0.message
                == "tenant not found"@
        }),
{
}

/// A request to kill a proxy is answered as the cluster replied: 200 with the
/// tenant and the proxy, one event for the caller and one for the watchers,
/// and a log line, or 500 with the cluster's words and nothing told. No record
/// changes.
pub proof fn law_chaos_is_answered_as_the_cluster_replied(
    st: StoreView,
    caller: CallerIdentityView,
    tenant_id: Seq<char>,
    rec: TenantRecordView,
    reply: Result<(), K8sErrorView>,
    at: Timestamp,
)
    ensures
        chaos_store(st, tenant_id, rec, reply, at).tenants == st.tenants,
        reply is Ok ==> {
            let (answer, event) = chaos_answer(caller, tenant_id, rec, reply)->Ok_0;
            &&& chaos_answer(caller, tenant_id, rec, reply) is Ok
            &&& answer.status == 200
            &&& answer.body.field("tenantId"@) == Some(JsonView::Text(tenant_id))
            &&& answer.body.field("message"@) == Some(
                JsonView::Text(
                    "Chaos injected — proxy deployment deleted from the cluster. Watch the TUI for auto-heal."@,
                ),
            )
            &&& answer.body.field("proxy"@) == Some(JsonView::Text(rec.proxy_pod_name))
            &&& event.name == "ChaosInjected"@
            &&& event.properties == seq![("tenantId"@, tenant_id), ("callerSubject"@, caller.subject)]
            &&& chaos_store(st, tenant_id, rec, reply, at).events == st.events.push(
                (EventView {
                    kind: EventKind::ChaosInjected,
                    tenant_id,
                    message: "💥 Chaos: killed proxy deployment "@ + rec.proxy_pod_name,
                    timestamp: at,
                }),
            )
            &&& chaos_store(st, tenant_id, rec, reply, at).logs == st.with_log(
                stamped(at, "💥 CHAOS → deleted proxy/"@ + rec.proxy_pod_name + " in ns/"@ + rec.namespace),
            ).logs
        },
        reply matches Err(e) ==> {
            &&& chaos_answer(caller, tenant_id, rec, reply) is Err
            &&& chaos_answer(caller, tenant_id, rec, reply)->Err_0.status == 500
            &&& chaos_answer(caller, tenant_id, rec, reply)->Err_0.message == "chaos: delete proxy deployment: "@
                + e.message()
            &&& chaos_store(st, tenant_id, rec, reply, at) == st
        },
{
    reveal_strlit("tenantId");
    reveal_strlit("message");
    reveal_strlit("proxy");
    assert("tenantId"@.len() == 8 && "message"@.len() == 7 && "proxy"@.len() == 5);
    let doc = chaos_reply(tenant_id, rec.proxy_pod_name).body;
    lemma_member_is_field(doc, 0);
    lemma_member_is_field(doc, 1);
    lemma_member_is_field(doc, 2);
}

/// What a contract says of a request, a reply, a refusal and a response is
/// what their own fields hold.
pub proof fn law_requests_and_replies_are_read_field_by_field(
    create: CreateTenantRequest,
    update: UpdatePolicyRequest,
    response: TenantResponse,
    refusal: ApiError,
    reply: ApiReply,
    event: TelemetryEvent,
    i: int,
)
    ensures
        create@.tenant_id == create.tenant_id@,
        create@.display_name == create.display_name@,
        create@.rate_limit == create.rate_limit@,
        create@.proxy == create.proxy@,
        update@.tier == update.tier@,
        update@.requests_per_second == update.requests_per_second,
        update@.burst_capacity == update.burst_capacity,
        update@.max_concurrent == update.max_concurrent,
        response@.tenant_id == response.tenant_id@,
        response@.display_name == response.display_name@,
        response@.phase == response.phase@,
        response@.namespace == response.namespace@,
        response@.tier == response.tier@,
        response@.rps == response.rps,
        response@.burst == response.burst,
        response@.max_concurrent == response.max_concurrent,
        response@.reconcile_count == response.reconcile_count,
        response@.last_reconcile_at == response.last_reconcile_at,
        refusal@.status == refusal.status,
        refusal@.message == refusal.message@,
        reply@.status == reply.status,
        reply@.body == reply.body@,
        event@.name == event.name@,
        event@.properties.len() == event.properties@.len(),
        0 <= i < event.properties@.len() ==> event@.properties[i] == (
            event.properties@[i].0@,
            event.properties@[i].1@,
        ),
{
}

/// Replies and refusals say nothing beyond what is asked of them.
pub proof fn law_replies_say_nothing_else(
    e: ApiErrorView,
    status: u16,
    tenant_id: Seq<char>,
    message: Seq<char>,
    at: Timestamp,
)
    ensures
        member_count(Some(e.body())) == 1,
        member_count(Some(tenant_message(status, tenant_id, message).body)) == 2,
        member_count(Some(chaos_reply(tenant_id, message).body)) == 3,
        member_count(Some(health(at))) == 2,
{
}

/// What a handler gives is read as it is.
pub proof fn law_handler_results_are_read_as_they_are(
    r: Result<ApiReply, ApiError>,
    told: Result<(ApiReply, TelemetryEvent), ApiError>,
    caller: Result<CallerIdentity, ApiError>,
    header: Option<&str>,
    list: Seq<TenantResponse>,
    i: int,
)
    ensures
        r matches Ok(reply) ==> answer(r) == Ok::<ApiReplyView, ApiErrorView>(reply@),
        r matches Err(e) ==> answer(r) == Err::<ApiReplyView, ApiErrorView>(e@),
        told matches Ok((reply, event)) ==> finished(told) == Ok::<(ApiReplyView, TelemetryEventView), ApiErrorView>(
            (reply@, event@),
        ),
        told matches Err(e) ==> finished(told) == Err::<(ApiReplyView, TelemetryEventView), ApiErrorView>(e@),
        caller matches Ok(c) ==> admitted(caller) == Ok::<CallerIdentityView, ApiErrorView>(c@),
        caller matches Err(e) ==> admitted(caller) == Err::<CallerIdentityView, ApiErrorView>(e@),
        header matches Some(h) ==> opt_chars(header) == Some(h@),
        header is None ==> opt_chars(header) is None,
        response_views(list).len() == list.len(),
        0 <= i < list.len() ==> response_views(list)[i] == list[i]@,
{
}

/// Whatever holds the pipelines, an admitted request to create a tenant is told
/// to the watchers and to the telemetry sink exactly when the pipeline was
/// created; the cluster is not touched.
pub proof fn law_creation_is_told_when_it_succeeds<C: CrdBackend, K: K8sBackend, I: IdentityVerifier, T: TelemetrySink>(
    pre: ApiState<C, K, I, T>,
    post: ApiState<C, K, I, T>,
    caller: CallerIdentityView,
    req: CreateTenantRequestView,
    at: Timestamp,
    r: Result<ApiReplyView, ApiErrorView>,
)
    requires
        caller.roles.contains("Tenant.Write"@),
        req.tenant_id.len() > 0,
        tenant_created(pre, caller, req, at, post, r),
    ensures
        post.backend == pre.backend,
        post.identity == pre.identity,
        post.store@.tenants == pre.store@.tenants,
        post.store@.logs == pre.store@.logs,
        r is Ok ==> {
            &&& r->Ok_0.status == 201
            &&& r->Ok_0.body.field("tenantId"@) == Some(JsonView::Text(req.tenant_id))
            &&& post.store@.events.len() == pre.store@.events.len() + 1
            &&& post.store@.events.last().kind == EventKind::TenantCreated
            &&& post.store@.events.last().tenant_id == req.tenant_id
            &&& post.store@.events.last().timestamp == at
            &&& pre.telemetry.emitted(
                "TenantCreated"@,
                seq![("tenantId"@, req.tenant_id), ("callerSubject"@, caller.subject)],
                post.telemetry,
            )
        },
        r is Err ==> {
            &&& r->Err_0.status == 500
            &&& post.store@ == pre.store@
            &&& post.telemetry == pre.telemetry
        },
{
    law_reply_names_the_tenant(201, req.tenant_id, "TenantPipeline created — operator is provisioning resources"@);
}

/// Whatever holds the pipelines, a request to delete a tenant asks it to delete
/// that tenant's pipeline and touches nothing else; it is answered with what
/// came back.
pub proof fn law_deletion_is_handed_on<C: CrdBackend, K: K8sBackend, I: IdentityVerifier, T: TelemetrySink>(
    pre: ApiState<C, K, I, T>,
    post: ApiState<C, K, I, T>,
    caller: CallerIdentityView,
    tenant_id: Seq<char>,
    r: Result<ApiReplyView, ApiErrorView>,
)
    requires
        caller.roles.contains("Tenant.Write"@),
        tenant_deleted(pre, caller, tenant_id, post, r),
    ensures
        post.backend == pre.backend,
        post.store == pre.store,
        post.identity == pre.identity,
        post.telemetry == pre.telemetry,
        exists|reply: Result<bool, K8sErrorView>|
            {
                &&& #[trigger] pre.crd.deleted(tenant_id, reply, post.crd)
                &&& r is Ok <==> reply == Ok::<bool, K8sErrorView>(true)
                &&& r is Ok ==> r->Ok_0.status == 200
                &&& reply == Ok::<bool, K8sErrorView>(false) ==> r->Err_0.status == 404
                &&& reply is Err ==> r->Err_0.status == 500
            },
{
    let reply = choose|reply: Result<bool, K8sErrorView>|
        {
            &&& #[trigger] pre.crd.deleted(tenant_id, reply, post.crd)
            &&& r == delete_answer(tenant_id, reply)
        };
    assert(pre.crd.deleted(tenant_id, reply, post.crd));
}

/// Whatever holds the pipelines, a request to change a policy asks it to put
/// that policy on that tenant's pipeline, is told to the watchers exactly when
/// that was done, and touches nothing else.
pub proof fn law_policy_update_is_handed_on<C: CrdBackend, K: K8sBackend, I: IdentityVerifier, T: TelemetrySink>(
    pre: ApiState<C, K, I, T>,
    post: ApiState<C, K, I, T>,
    caller: CallerIdentityView,
    tenant_id: Seq<char>,
    policy: RateLimitPolicyView,
    at: Timestamp,
    r: Result<ApiReplyView, ApiErrorView>,
)
    requires
        caller.roles.contains("Tenant.Write"@),
        policy_updated(pre, caller, tenant_id, policy, at, post, r),
    ensures
        post.backend == pre.backend,
        post.identity == pre.identity,
        post.telemetry == pre.telemetry,
        post.store@.tenants == pre.store@.tenants,
        post.store@.logs == pre.store@.logs,
        r is Ok ==> {
            &&& post.store@.events.len() == pre.store@.events.len() + 1
            &&& post.store@.events.last().kind == EventKind::ConfigReloaded
            &&& post.store@.events.last().tenant_id == tenant_id
            &&& post.store@.events.last().timestamp == at
        },
        r is Err ==> post.store@ == pre.store@,
        exists|reply: Result<bool, K8sErrorView>|
            {
                &&& #[trigger] pre.crd.policy_patched(tenant_id, policy, reply, post.crd)
                &&& r is Ok <==> reply == Ok::<bool, K8sErrorView>(true)
                &&& r is Ok ==> r->Ok_0.status == 200
                &&& reply == Ok::<bool, K8sErrorView>(false) ==> r->Err_0.status == 404
                &&& reply is Err ==> r->Err_0.status == 500
            },
{
    let reply = choose|reply: Result<bool, K8sErrorView>|
        {
            &&& #[trigger] pre.crd.policy_patched(tenant_id, policy, reply, post.crd)
            &&& post.store@ == update_store(pre.store@, tenant_id, policy, reply, at)
            &&& r == update_answer(tenant_id, reply)
        };
    assert(pre.crd.policy_patched(tenant_id, policy, reply, post.crd));
}

/// Whatever cluster there is, a request to kill a known tenant's proxy asks it
/// to delete that proxy from where the tenant's record says it is, and is told
/// to the watchers and to the telemetry sink exactly when that was done. No
/// pipeline and no record changes.
pub proof fn law_chaos_is_handed_on<C: CrdBackend, K: K8sBackend, I: IdentityVerifier, T: TelemetrySink>(
    pre: ApiState<C, K, I, T>,
    post: ApiState<C, K, I, T>,
    caller: CallerIdentityView,
    tenant_id: Seq<char>,
    at: Timestamp,
    r: Result<ApiReplyView, ApiErrorView>,
)
    requires
        caller.roles.contains("Tenant.Write"@),
        pre.store@.wf(),
        pre.store@.tenants.contains_key(tenant_id),
        proxy_killed(pre, caller, tenant_id, at, post, r),
    ensures
        post.crd == pre.crd,
        post.identity == pre.identity,
        post.store@.tenants == pre.store@.tenants,
        r is Ok ==> {
            &&& r->Ok_0.status == 200
            &&& post.store@.events.len() == pre.store@.events.len() + 1
            &&& post.store@.events.last().kind == EventKind::ChaosInjected
            &&& post.store@.events.last().tenant_id == tenant_id
            &&& post.store@.events.last().timestamp == at
            &&& pre.telemetry.emitted(
                "ChaosInjected"@,
                seq![("tenantId"@, tenant_id), ("callerSubject"@, caller.subject)],
                post.telemetry,
            )
        },
        r is Err ==> {
            &&& r->Err_0.status == 500
            &&& post.store@ == pre.store@
            &&& post.telemetry == pre.telemetry
        },
        exists|place: Seq<char>, reply: Result<(), K8sErrorView>|
            {
                &&& #[trigger] pre.backend.proxy_deleted(tenant_id, place, reply, post.backend)
                &&& pre.store@.tenants[tenant_id].namespace.len() > 0 ==> place
                    == pre.store@.tenants[tenant_id].namespace
                &&& pre.store@.tenants[tenant_id].namespace.len() == 0 ==> place == "tenant-"@ + tenant_id
                &&& r is Ok <==> reply is Ok
            },
{
    let rec = pre.store@.tenants[tenant_id];
    let reply = choose|reply: Result<(), K8sErrorView>|
        {
            &&& #[trigger] pre.backend.proxy_deleted(tenant_id, home_of(rec), reply, post.backend)
            &&& post.store@ == chaos_store(pre.store@, tenant_id, rec, reply, at)
            &&& r is Ok <==> reply is Ok
        };
    assert(pre.backend.proxy_deleted(tenant_id, home_of(rec), reply, post.backend));
}

} // verus!
