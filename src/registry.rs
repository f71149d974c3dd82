//! The routing registry: two independent indices, one from tenant identifier
//! to the workload it names, one from workload to its pod address.
use vstd::prelude::*;

use crate::shard_map::{
    address_entries, address_map_clear, address_map_get, address_map_insert, address_map_len,
    address_map_new, address_map_remove, tenant_entries, tenant_map_clear,
    tenant_map_contains_key, tenant_map_get, tenant_map_insert, tenant_map_len, tenant_map_new,
    tenant_map_remove, AddressShards, TenantShards,
};

verus! {

/// The workload that a tenant identifier names.
#[derive(Debug, Clone)]
pub struct DevboxInfo {
    pub namespace: String,
    pub devbox_name: String,
}

impl View for DevboxInfo {
    type V = (Seq<char>, Seq<char>);

    open spec fn view(&self) -> (Seq<char>, Seq<char>) {
        (self.namespace@, self.devbox_name@)
    }
}

/// The tenant index as a map: identifier to (namespace, workload name).
pub type TenantMap = Map<Seq<char>, (Seq<char>, Seq<char>)>;

/// The address index as a map: workload key to address.
pub type AddressMap = Map<Seq<char>, Seq<char>>;

/// The key under which a workload's pod address is stored:
/// `namespace + "/" + name`.
pub open spec fn pod_key(namespace: Seq<char>, devbox_name: Seq<char>) -> Seq<char> {
    namespace + seq!['/'] + devbox_name
}

/// The address index after an address update: an empty address removes the
/// key's entry, any other is stored under the key.
pub open spec fn updated_addresses(pods: AddressMap, key: Seq<char>, pod_ip: Seq<char>) -> AddressMap {
    if pod_ip.len() == 0 {
        pods.remove(key)
    } else {
        pods.insert(key, pod_ip)
    }
}

/// Builds the address key of a workload.
fn make_pod_key(namespace: &str, devbox_name: &str) -> (r: String)
    ensures
        r@ == pod_key(namespace@, devbox_name@),
{
    let mut key = namespace.to_owned();
    key.append("/");
    key.append(devbox_name);
    proof {
        reveal_strlit("/");
    }
    key
}

/// Routing registry with two independently updated indices.
///
/// The tenant index (identifier to workload) belongs to the tenant-resource
/// watcher, the address index (workload to pod address) to the pod watcher.
/// No operation touches both, and neither index constrains the other: a tenant
/// may have no address yet, and an address may belong to no known tenant.
pub struct DevboxRegistry {
    by_unique_id: TenantShards,
    pod_ips: AddressShards,
}

impl DevboxRegistry {
    /// The tenant index.
    pub closed spec fn devboxes(&self) -> TenantMap {
        tenant_entries(self.by_unique_id)
    }

    /// The address index.
    pub closed spec fn pod_ips(&self) -> AddressMap {
        address_entries(self.pod_ips)
    }

    /// An empty registry.
    pub fn new() -> (r: Self)
        ensures
            r.devboxes() == TenantMap::empty(),
            r.pod_ips() == AddressMap::empty(),
    {
        let r = Self { by_unique_id: tenant_map_new(), pod_ips: address_map_new() };
        assert(r.devboxes() =~= TenantMap::empty());
        assert(r.pod_ips() =~= AddressMap::empty());
        r
    }

    // -----------------------------------------------------------------------
    // Tenant index
    // -----------------------------------------------------------------------

    /// Maps a tenant identifier to its workload, replacing what it mapped to
    /// before. Returns whether the identifier was new.
    pub fn register_devbox(&mut self, unique_id: String, namespace: String, devbox_name: String) -> (is_new: bool)
        ensures
            is_new == !old(self).devboxes().contains_key(unique_id@),
            final(self).devboxes() == old(self).devboxes().insert(unique_id@, (namespace@, devbox_name@)),
            final(self).pod_ips() == old(self).pod_ips(),
    {
        let is_new = !tenant_map_contains_key(&self.by_unique_id, unique_id.as_str());
        tenant_map_insert(&mut self.by_unique_id, unique_id, DevboxInfo { namespace, devbox_name });
        is_new
    }

    /// Removes a tenant identifier. Returns whether it was there.
    pub fn unregister_devbox(&mut self, unique_id: &str) -> (existed: bool)
        ensures
            existed == old(self).devboxes().contains_key(unique_id@),
            final(self).devboxes() == old(self).devboxes().remove(unique_id@),
            final(self).pod_ips() == old(self).pod_ips(),
    {
        let removed = tenant_map_remove(&mut self.by_unique_id, unique_id);
        removed.is_some()
    }

    /// Removes every tenant entry; the address index is left as it is.
    pub fn clear_devboxes(&mut self)
        ensures
            final(self).devboxes() == TenantMap::empty(),
            final(self).pod_ips() == old(self).pod_ips(),
    {
        tenant_map_clear(&mut self.by_unique_id);
        assert(self.devboxes() =~= TenantMap::empty());
    }

    /// A copy of the workload that a tenant identifier names, if any.
    pub fn get_devbox(&self, unique_id: &str) -> (r: Option<DevboxInfo>)
        ensures
            r.is_some() == self.devboxes().contains_key(unique_id@),
            r.is_some() ==> r.unwrap()@ == self.devboxes()[unique_id@],
    {
        tenant_map_get(&self.by_unique_id, unique_id)
    }

    /// The number of tenant entries.
    pub fn devbox_count(&self) -> (r: usize)
        ensures
            r == self.devboxes().len(),
    {
        tenant_map_len(&self.by_unique_id)
    }

    // -----------------------------------------------------------------------
    // Address index
    // -----------------------------------------------------------------------

    /// Stores the pod address of a workload; an empty address clears it
    /// instead. Returns whether the stored value changed, which is when a
    /// change notice is due.
    pub fn update_pod_ip(&mut self, namespace: &str, devbox_name: &str, pod_ip: String) -> (changed: bool)
        ensures
            final(self).pod_ips() == updated_addresses(old(self).pod_ips(), pod_key(namespace@, devbox_name@), pod_ip@),
            final(self).devboxes() == old(self).devboxes(),
            changed == (final(self).pod_ips().get(pod_key(namespace@, devbox_name@))
                != old(self).pod_ips().get(pod_key(namespace@, devbox_name@))),
    {
        if pod_ip.as_str().is_empty() {
            return self.clear_pod_ip(namespace, devbox_name);
        }
        let stored = pod_ip.clone();
        let key = make_pod_key(namespace, devbox_name);
        let old_ip = address_map_insert(&mut self.pod_ips, key, pod_ip);
        match old_ip {
            Some(prev) => prev != stored,
            None => true,
        }
    }

    /// Clears the pod address of a workload. Returns whether there was one.
    pub fn clear_pod_ip(&mut self, namespace: &str, devbox_name: &str) -> (removed: bool)
        ensures
            removed == old(self).pod_ips().contains_key(pod_key(namespace@, devbox_name@)),
            final(self).pod_ips() == old(self).pod_ips().remove(pod_key(namespace@, devbox_name@)),
            final(self).devboxes() == old(self).devboxes(),
    {
        let key = make_pod_key(namespace, devbox_name);
        let removed = address_map_remove(&mut self.pod_ips, key.as_str());
        removed.is_some()
    }

    /// Removes every pod address; the tenant index is left as it is.
    pub fn clear_pod_ips(&mut self)
        ensures
            final(self).pod_ips() == AddressMap::empty(),
            final(self).devboxes() == old(self).devboxes(),
    {
        address_map_clear(&mut self.pod_ips);
        assert(self.pod_ips() =~= AddressMap::empty());
    }

    /// A copy of the pod address of a workload, if it has one.
    pub fn get_pod_ip(&self, namespace: &str, devbox_name: &str) -> (r: Option<String>)
        ensures
            r.is_some() == self.pod_ips().contains_key(pod_key(namespace@, devbox_name@)),
            r.is_some() ==> r.unwrap()@ == self.pod_ips()[pod_key(namespace@, devbox_name@)],
    {
        let key = make_pod_key(namespace, devbox_name);
        address_map_get(&self.pod_ips, key.as_str())
    }

    /// The number of stored pod addresses.
    pub fn pod_ip_count(&self) -> (r: usize)
        ensures
            r == self.pod_ips().len(),
    {
        address_map_len(&self.pod_ips)
    }
}

impl Default for DevboxRegistry {
    fn default() -> (r: Self)
        ensures
            r.devboxes() == TenantMap::empty(),
            r.pod_ips() == AddressMap::empty(),
    {
        Self::new()
    }
}

// ---------------------------------------------------------------------------
// Laws of the registry
// ---------------------------------------------------------------------------

/// Registering an identifier that was absent and unregistering it right
/// after leaves the tenant index as it was: the identifier is absent again
/// and the count is back to its prior value. The address index is untouched
/// throughout.
pub proof fn lemma_register_then_unregister(
    before: DevboxRegistry,
    registered: DevboxRegistry,
    after: DevboxRegistry,
    unique_id: Seq<char>,
    namespace: Seq<char>,
    devbox_name: Seq<char>,
)
    requires
        !before.devboxes().contains_key(unique_id),
        registered.devboxes() == before.devboxes().insert(unique_id, (namespace, devbox_name)),
        registered.pod_ips() == before.pod_ips(),
        after.devboxes() == registered.devboxes().remove(unique_id),
        after.pod_ips() == registered.pod_ips(),
    ensures
        !after.devboxes().contains_key(unique_id),
        after.devboxes() == before.devboxes(),
        after.devboxes().len() == before.devboxes().len(),
        after.pod_ips() == before.pod_ips(),
{
    assert(after.devboxes() =~= before.devboxes());
}

/// Unregistering an identifier that is absent reports that it did not exist
/// and changes nothing, so doing it again does the same.
pub proof fn lemma_unregister_absent(before: DevboxRegistry, after: DevboxRegistry, unique_id: Seq<char>, existed: bool)
    requires
        !before.devboxes().contains_key(unique_id),
        existed == before.devboxes().contains_key(unique_id),
        after.devboxes() == before.devboxes().remove(unique_id),
        after.pod_ips() == before.pod_ips(),
    ensures
        !existed,
        after.devboxes() == before.devboxes(),
        after.pod_ips() == before.pod_ips(),
        !after.devboxes().contains_key(unique_id),
{
    assert(after.devboxes() =~= before.devboxes());
}

/// Updating a workload's address with the empty address does exactly what
/// clearing it does: the same address index, and the same report of whether
/// the stored value changed.
pub proof fn lemma_empty_update_is_clear(pods: AddressMap, namespace: Seq<char>, devbox_name: Seq<char>)
    ensures
        updated_addresses(pods, pod_key(namespace, devbox_name), Seq::empty())
            == pods.remove(pod_key(namespace, devbox_name)),
        (updated_addresses(pods, pod_key(namespace, devbox_name), Seq::empty()).get(pod_key(namespace, devbox_name))
            != pods.get(pod_key(namespace, devbox_name))) == pods.contains_key(pod_key(namespace, devbox_name)),
{
}

/// The two indices are independent. Unregistering a tenant keeps the pod
/// address of its workload; clearing a pod address keeps the tenant entry;
/// clearing all tenants empties the tenant index and keeps every address;
/// clearing all addresses empties the address index and keeps every tenant.
pub proof fn lemma_indices_independent(
    before: DevboxRegistry,
    unregistered: DevboxRegistry,
    address_cleared: DevboxRegistry,
    tenants_cleared: DevboxRegistry,
    addresses_cleared: DevboxRegistry,
    unique_id: Seq<char>,
    namespace: Seq<char>,
    devbox_name: Seq<char>,
)
    requires
        unregistered.devboxes() == before.devboxes().remove(unique_id),
        unregistered.pod_ips() == before.pod_ips(),
        address_cleared.pod_ips() == before.pod_ips().remove(pod_key(namespace, devbox_name)),
        address_cleared.devboxes() == before.devboxes(),
        tenants_cleared.devboxes() == TenantMap::empty(),
        tenants_cleared.pod_ips() == before.pod_ips(),
        addresses_cleared.pod_ips() == AddressMap::empty(),
        addresses_cleared.devboxes() == before.devboxes(),
    ensures
        !unregistered.devboxes().contains_key(unique_id),
        unregistered.pod_ips().get(pod_key(namespace, devbox_name)) == before.pod_ips().get(pod_key(namespace, devbox_name)),
        !address_cleared.pod_ips().contains_key(pod_key(namespace, devbox_name)),
        address_cleared.devboxes().get(unique_id) == before.devboxes().get(unique_id),
        tenants_cleared.devboxes().len() == 0,
        tenants_cleared.pod_ips() == before.pod_ips(),
        addresses_cleared.pod_ips().len() == 0,
        addresses_cleared.devboxes() == before.devboxes(),
{
    assert(TenantMap::empty().dom() =~= Set::<Seq<char>>::empty());
    assert(AddressMap::empty().dom() =~= Set::<Seq<char>>::empty());
}

/// The tenant index after registering each identifier of `ids` in turn with
/// the matching workload of `infos`.
pub open spec fn registered_all(start: TenantMap, ids: Seq<Seq<char>>, infos: Seq<(Seq<char>, Seq<char>)>) -> TenantMap
    decreases ids.len(),
{
    if ids.len() == 0 || infos.len() == 0 {
        start
    } else {
        registered_all(start, ids.drop_last(), infos.drop_last()).insert(ids.last(), infos.last())
    }
}

/// Registering N distinct identifiers into an empty tenant index, in any
/// order, yields exactly N entries, each with the workload it was registered
/// with: no registration is lost and none is counted twice.
pub proof fn lemma_distinct_registrations(ids: Seq<Seq<char>>, infos: Seq<(Seq<char>, Seq<char>)>)
    requires
        ids.len() == infos.len(),
        forall|i: int, j: int| 0 <= i < j < ids.len() ==> ids[i] != ids[j],
    ensures
        registered_all(TenantMap::empty(), ids, infos).dom().finite(),
        registered_all(TenantMap::empty(), ids, infos).len() == ids.len(),
        forall|i: int| 0 <= i < ids.len() ==> #[trigger] registered_all(TenantMap::empty(), ids, infos).get(ids[i])
            == Some(infos[i]),
    decreases ids.len(),
{
    if ids.len() > 0 {
        let n = ids.len() - 1;
        lemma_distinct_registrations(ids.drop_last(), infos.drop_last());
        let prev = registered_all(TenantMap::empty(), ids.drop_last(), infos.drop_last());
        assert forall|i: int| 0 <= i < n implies prev.get(ids[i]) == Some(infos[i]) by {
            assert(ids.drop_last()[i] == ids[i]);
            assert(infos.drop_last()[i] == infos[i]);
        }
        if prev.contains_key(ids.last()) {
            lemma_registered_keys(ids.drop_last(), infos.drop_last(), ids.last());
        }
    }
}

/// Every key of `registered_all(empty, ids, infos)` is one of `ids`.
proof fn lemma_registered_keys(ids: Seq<Seq<char>>, infos: Seq<(Seq<char>, Seq<char>)>, k: Seq<char>)
    requires
        ids.len() == infos.len(),
        registered_all(TenantMap::empty(), ids, infos).contains_key(k),
    ensures
        exists|i: int| 0 <= i < ids.len() && ids[i] == k,
    decreases ids.len(),
{
    if ids.len() > 0 {
        if k != ids.last() {
            lemma_registered_keys(ids.drop_last(), infos.drop_last(), k);
            let i = choose|i: int| 0 <= i < ids.drop_last().len() && ids.drop_last()[i] == k;
            assert(ids[i] == k);
        } else {
            assert(ids[ids.len() - 1] == k);
        }
    }
}

} // verus!
