//! An in-memory cluster, for the demo and for trying the reconcile rules
//! without a Kubernetes API server.

use super::{
    configmap_name, configmap_of, namespace_name, namespace_of, proxy_name, proxy_of, K8sBackend, K8sError,
    K8sErrorView, ProxySpec, ProxySpecView, RateLimitData, RateLimitDataView,
};
use crate::keyed::KeyedList;
use vstd::prelude::*;

verus! {

/// What exists in the cluster. ConfigMaps and deployments are named within a
/// namespace.
#[verifier::ext_equal]
pub struct ClusterView {
    pub namespaces: Set<Seq<char>>,
    pub configmaps: Set<(Seq<char>, Seq<char>)>,
    pub deployments: Map<(Seq<char>, Seq<char>), ProxySpecView>,
}

impl ClusterView {
    pub open spec fn empty() -> ClusterView {
        ClusterView { namespaces: Set::empty(), configmaps: Set::empty(), deployments: Map::empty() }
    }

    pub open spec fn with_namespace(self, tenant_id: Seq<char>) -> ClusterView {
        ClusterView { namespaces: self.namespaces.insert(namespace_of(tenant_id)), ..self }
    }

    pub open spec fn without_namespace(self, tenant_id: Seq<char>) -> ClusterView {
        ClusterView { namespaces: self.namespaces.remove(namespace_of(tenant_id)), ..self }
    }

    pub open spec fn with_configmap(self, namespace: Seq<char>, tenant_id: Seq<char>) -> ClusterView {
        ClusterView { configmaps: self.configmaps.insert((namespace, configmap_of(tenant_id))), ..self }
    }

    pub open spec fn with_deployment(self, s: ProxySpecView) -> ClusterView {
        ClusterView { deployments: self.deployments.insert((s.namespace, proxy_of(s.tenant_id)), s), ..self }
    }

    pub open spec fn without_deployment(self, namespace: Seq<char>, tenant_id: Seq<char>) -> ClusterView {
        ClusterView { deployments: self.deployments.remove((namespace, proxy_of(tenant_id))), ..self }
    }
}

/// In-memory stand-in for a Kubernetes API server.
pub struct MockBackend {
    namespaces: KeyedList<String, ()>,
    configmaps: KeyedList<(String, String), ()>,
    deployments: KeyedList<(String, String), ProxySpec>,
}

impl View for MockBackend {
    type V = ClusterView;

    closed spec fn view(&self) -> ClusterView {
        ClusterView {
            namespaces: self.namespaces@.dom(),
            configmaps: self.configmaps@.dom(),
            deployments: self.deployments@.map_values(|s: ProxySpec| s@),
        }
    }
}

impl MockBackend {
    pub fn new() -> (r: MockBackend)
        ensures
            r@ == ClusterView::empty(),
    {
        let r = MockBackend {
            namespaces: KeyedList::new(),
            configmaps: KeyedList::new(),
            deployments: KeyedList::new(),
        };
        assert(r@ =~= ClusterView::empty());
        r
    }

    pub fn has_namespace(&self, tenant_id: &str) -> (r: bool)
        ensures
            r == self@.namespaces.contains(namespace_of(tenant_id@)),
    {
        self.namespaces.contains(&namespace_name(tenant_id))
    }

    pub fn has_configmap(&self, namespace: &str, tenant_id: &str) -> (r: bool)
        ensures
            r == self@.configmaps.contains((namespace@, configmap_of(tenant_id@))),
    {
        self.configmaps.contains(&(namespace.to_owned(), configmap_name(tenant_id)))
    }

    /// A copy of a tenant's deployment in the given namespace.
    pub fn deployment(&self, namespace: &str, tenant_id: &str) -> (r: Option<ProxySpec>)
        ensures
            match r {
                Some(s) => self@.deployments.contains_key((namespace@, proxy_of(tenant_id@))) && s@
                    == self@.deployments[(namespace@, proxy_of(tenant_id@))],
                None => !self@.deployments.contains_key((namespace@, proxy_of(tenant_id@))),
            },
    {
        match self.deployments.get(&(namespace.to_owned(), proxy_name(tenant_id))) {
            Some(s) => Some(s.clone()),
            None => None,
        }
    }
}

impl Default for MockBackend {
    fn default() -> (r: Self)
        ensures
            r@ == ClusterView::empty(),
    {
        MockBackend::new()
    }
}

impl K8sBackend for MockBackend {
    open spec fn namespace_ensured(
        self,
        tenant_id: Seq<char>,
        reply: Result<Seq<char>, K8sErrorView>,
        post: Self,
    ) -> bool {
        &&& reply == Ok::<Seq<char>, K8sErrorView>(namespace_of(tenant_id))
        &&& post@ == self@.with_namespace(tenant_id)
    }

    open spec fn namespace_deleted(
        self,
        tenant_id: Seq<char>,
        reply: Result<(), K8sErrorView>,
        post: Self,
    ) -> bool {
        &&& reply == Ok::<(), K8sErrorView>(())
        &&& post@ == self@.without_namespace(tenant_id)
    }

    open spec fn configmap_ensured(
        self,
        tenant_id: Seq<char>,
        namespace: Seq<char>,
        data: RateLimitDataView,
        reply: Result<Seq<char>, K8sErrorView>,
        post: Self,
    ) -> bool {
        &&& reply == Ok::<Seq<char>, K8sErrorView>(configmap_of(tenant_id))
        &&& post@ == self@.with_configmap(namespace, tenant_id)
    }

    open spec fn proxy_ensured(
        self,
        spec_: ProxySpecView,
        reply: Result<Seq<char>, K8sErrorView>,
        post: Self,
    ) -> bool {
        &&& reply == Ok::<Seq<char>, K8sErrorView>(proxy_of(spec_.tenant_id))
        &&& post@ == self@.with_deployment(spec_)
    }

    open spec fn proxy_deleted(
        self,
        tenant_id: Seq<char>,
        namespace: Seq<char>,
        reply: Result<(), K8sErrorView>,
        post: Self,
    ) -> bool {
        &&& reply == Ok::<(), K8sErrorView>(())
        &&& post@ == self@.without_deployment(namespace, tenant_id)
    }

    fn ensure_namespace(&mut self, tenant_id: &str) -> (r: Result<String, K8sError>) {
        let name = namespace_name(tenant_id);
        self.namespaces.insert(name.clone(), ());
        assert(self@ =~= old(self)@.with_namespace(tenant_id@));
        Ok(name)
    }

    fn delete_namespace(&mut self, tenant_id: &str) -> (r: Result<(), K8sError>) {
        let _ = self.namespaces.remove(&namespace_name(tenant_id));
        assert(self@ =~= old(self)@.without_namespace(tenant_id@));
        Ok(())
    }

    fn ensure_configmap(
        &mut self,
        tenant_id: &str,
        namespace: &str,
        data: RateLimitData,
    ) -> (r: Result<String, K8sError>) {
        let name = configmap_name(tenant_id);
        self.configmaps.insert((namespace.to_owned(), name.clone()), ());
        assert(self@ =~= old(self)@.with_configmap(namespace@, tenant_id@));
        Ok(name)
    }

    fn ensure_proxy_deployment(&mut self, spec_: ProxySpec) -> (r: Result<String, K8sError>) {
        let name = proxy_name(spec_.tenant_id.as_str());
        self.deployments.insert((spec_.namespace.clone(), name.clone()), spec_);
        assert(self@ =~= old(self)@.with_deployment(spec_@));
        Ok(name)
    }

    fn delete_proxy_deployment(&mut self, tenant_id: &str, namespace: &str) -> (r: Result<(), K8sError>) {
        let _ = self.deployments.remove(&(namespace.to_owned(), proxy_name(tenant_id)));
        assert(self@ =~= old(self)@.without_deployment(namespace@, tenant_id@));
        Ok(())
    }
}

/// Ensuring a namespace twice is ensuring it once, and it is there
/// afterwards; deleting it is likewise idempotent, and undoes the ensuring.
pub proof fn law_namespace_idempotent(c: ClusterView, tenant_id: Seq<char>)
    ensures
        c.with_namespace(tenant_id).namespaces.contains(namespace_of(tenant_id)),
        c.with_namespace(tenant_id).with_namespace(tenant_id) == c.with_namespace(tenant_id),
        !c.without_namespace(tenant_id).namespaces.contains(namespace_of(tenant_id)),
        c.without_namespace(tenant_id).without_namespace(tenant_id) == c.without_namespace(tenant_id),
        c.with_namespace(tenant_id).without_namespace(tenant_id) == c.without_namespace(tenant_id),
        !c.namespaces.contains(namespace_of(tenant_id)) ==> c.without_namespace(tenant_id) == c,
{
    assert(c.with_namespace(tenant_id).with_namespace(tenant_id) =~= c.with_namespace(tenant_id));
    assert(c.without_namespace(tenant_id).without_namespace(tenant_id) =~= c.without_namespace(tenant_id));
    assert(c.with_namespace(tenant_id).without_namespace(tenant_id) =~= c.without_namespace(tenant_id));
    if !c.namespaces.contains(namespace_of(tenant_id)) {
        assert(c.without_namespace(tenant_id) =~= c);
    }
}

/// A deployment that was ensured is read back as it was handed over, and a
/// deleted one is gone; deployments of other tenants are untouched by either.
pub proof fn law_deployment_round_trip(c: ClusterView, s: ProxySpecView, other: Seq<char>)
    requires
        other != s.tenant_id,
    ensures
        c.with_deployment(s).deployments.contains_key((s.namespace, proxy_of(s.tenant_id))),
        c.with_deployment(s).deployments[(s.namespace, proxy_of(s.tenant_id))] == s,
        !c.with_deployment(s).without_deployment(s.namespace, s.tenant_id).deployments.contains_key(
            (s.namespace, proxy_of(s.tenant_id)),
        ),
        forall|ns: Seq<char>| #![trigger c.deployments.contains_key((ns, proxy_of(other)))]
            {
                let key = (ns, proxy_of(other));
                let ensured = c.with_deployment(s).deployments;
                let deleted = c.without_deployment(s.namespace, s.tenant_id).deployments;
                &&& ensured.contains_key(key) == c.deployments.contains_key(key)
                &&& deleted.contains_key(key) == c.deployments.contains_key(key)
                &&& c.deployments.contains_key(key) ==> ensured[key] == c.deployments[key] && deleted[key]
                    == c.deployments[key]
            },
{
    super::law_names_do_not_collide(other, s.tenant_id);
}

/// The in-memory cluster grants every request. A namespace goes by `tenant-`
/// and the tenant's identifier; ensuring it adds it, deleting it takes it
/// away, and nothing else changes.
pub proof fn law_namespaces_come_and_go(
    pre: MockBackend,
    made: MockBackend,
    gone: MockBackend,
    tenant_id: Seq<char>,
    made_reply: Result<Seq<char>, K8sErrorView>,
    gone_reply: Result<(), K8sErrorView>,
)
    requires
        pre.namespace_ensured(tenant_id, made_reply, made),
        pre.namespace_deleted(tenant_id, gone_reply, gone),
    ensures
        made_reply == Ok::<Seq<char>, K8sErrorView>("tenant-"@ + tenant_id),
        made@.namespaces == pre@.namespaces.insert("tenant-"@ + tenant_id),
        made@.configmaps == pre@.configmaps,
        made@.deployments == pre@.deployments,
        gone_reply is Ok,
        gone@.namespaces == pre@.namespaces.remove("tenant-"@ + tenant_id),
        gone@.configmaps == pre@.configmaps,
        gone@.deployments == pre@.deployments,
{
}

/// A ConfigMap goes by `vanguard-rl-` and the tenant's identifier, within the
/// namespace it was asked for; ensuring it adds it, and nothing else changes.
pub proof fn law_configmaps_are_added(
    pre: MockBackend,
    post: MockBackend,
    tenant_id: Seq<char>,
    namespace: Seq<char>,
    data: RateLimitDataView,
    reply: Result<Seq<char>, K8sErrorView>,
)
    requires
        pre.configmap_ensured(tenant_id, namespace, data, reply, post),
    ensures
        reply == Ok::<Seq<char>, K8sErrorView>("vanguard-rl-"@ + tenant_id),
        post@.configmaps == pre@.configmaps.insert((namespace, "vanguard-rl-"@ + tenant_id)),
        post@.namespaces == pre@.namespaces,
        post@.deployments == pre@.deployments,
{
}

/// A proxy goes by `proxy-` and the tenant's identifier, within the
/// namespace it was asked for; ensuring it puts it there as it was asked for,
/// deleting it takes it away, and nothing else changes.
pub proof fn law_deployments_come_and_go(
    pre: MockBackend,
    made: MockBackend,
    gone: MockBackend,
    s: ProxySpecView,
    made_reply: Result<Seq<char>, K8sErrorView>,
    tenant_id: Seq<char>,
    namespace: Seq<char>,
    gone_reply: Result<(), K8sErrorView>,
)
    requires
        pre.proxy_ensured(s, made_reply, made),
        pre.proxy_deleted(tenant_id, namespace, gone_reply, gone),
    ensures
        made_reply == Ok::<Seq<char>, K8sErrorView>("proxy-"@ + s.tenant_id),
        made@.deployments == pre@.deployments.insert((s.namespace, "proxy-"@ + s.tenant_id), s),
        made@.namespaces == pre@.namespaces,
        made@.configmaps == pre@.configmaps,
        gone_reply is Ok,
        gone@.deployments == pre@.deployments.remove((namespace, "proxy-"@ + tenant_id)),
        gone@.namespaces == pre@.namespaces,
        gone@.configmaps == pre@.configmaps,
{
}

} // verus!
