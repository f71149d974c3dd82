//! Reconciliation of watch events into the registry.
//!
//! Each watcher owns one index of the registry. A watch stream opens with
//! `Init`, which clears that index, then lists every object as `InitApply`,
//! closes the listing with `InitDone`, and goes on with `Apply` and `Delete`.
//! The handlers here decide what each event does to the index and report
//! what happened; running the stream, and restarting it after a failure, is
//! left to the caller.
use vstd::prelude::*;

use crate::crd::{devbox_unique_id, opt_view, Devbox};
use crate::partial::{pod_address, pod_owner, PartialPod};
use crate::registry::{pod_key, updated_addresses, AddressMap, DevboxRegistry, TenantMap};

verus! {

/// The delay, in seconds, before a watcher whose run ended is started again.
pub const WATCHER_RESTART_DELAY_SECS: u64 = 5;

/// One event of a watch stream over objects of type `K`.
pub enum WatchEvent<K> {
    /// An object was created or changed.
    Apply(K),
    /// An object listed during (re)initialization.
    InitApply(K),
    /// An object was deleted.
    Delete(K),
    /// The stream (re)starts its listing.
    Init,
    /// The listing is complete.
    InitDone,
}

// ---------------------------------------------------------------------------
// Tenant-resource watcher
// ---------------------------------------------------------------------------

/// What applying a tenant resource did.
#[derive(Debug, Clone, Copy, PartialEq, Eq, Structural)]
pub enum DevboxApply {
    /// The identifier now maps to the resource's workload; `is_new` when it
    /// was not registered before.
    Registered { is_new: bool },
    /// Skipped: the resource's status holds no identifier.
    MissingUniqueId,
    /// Skipped: the resource has no namespace.
    MissingNamespace,
    /// Skipped: the resource has no name.
    MissingName,
}

/// What a tenant-resource event did.
#[derive(Debug, Clone, Copy, PartialEq, Eq, Structural)]
pub enum DevboxEventOutcome {
    Applied(DevboxApply),
    /// A deletion; whether an entry was removed.
    Deleted(bool),
    /// The tenant index was cleared for a new listing.
    Cleared,
    /// The listing is complete; the number of tenant entries.
    Listed(usize),
}

/// The tenant entry that a resource describes: identifier, namespace and
/// name, when all three are there.
pub open spec fn devbox_entry(devbox: &Devbox) -> Option<(Seq<char>, (Seq<char>, Seq<char>))> {
    match (devbox_unique_id(devbox), opt_view(devbox.metadata.namespace), opt_view(devbox.metadata.name)) {
        (Some(id), Some(namespace), Some(name)) => Some((id, (namespace, name))),
        _ => None,
    }
}

/// What applying `devbox` to the tenant index `tenants` reports.
pub open spec fn devbox_apply_outcome(tenants: TenantMap, devbox: &Devbox) -> DevboxApply {
    match devbox_entry(devbox) {
        Some((id, info)) => DevboxApply::Registered { is_new: !tenants.contains_key(id) },
        None => if devbox_unique_id(devbox).is_none() {
            DevboxApply::MissingUniqueId
        } else if devbox.metadata.namespace.is_none() {
            DevboxApply::MissingNamespace
        } else {
            DevboxApply::MissingName
        },
    }
}

/// Whether deleting `devbox` removes an entry of the tenant index `tenants`.
pub open spec fn devbox_delete_outcome(tenants: TenantMap, devbox: &Devbox) -> bool {
    match devbox_unique_id(devbox) {
        Some(id) => tenants.contains_key(id),
        None => false,
    }
}

/// What one event reports, given the tenant index before and after it.
pub open spec fn devbox_event_outcome(before: TenantMap, after: TenantMap, event: WatchEvent<Devbox>) -> DevboxEventOutcome {
    match event {
        WatchEvent::Apply(devbox) | WatchEvent::InitApply(devbox) => DevboxEventOutcome::Applied(
            devbox_apply_outcome(before, &devbox),
        ),
        WatchEvent::Delete(devbox) => DevboxEventOutcome::Deleted(devbox_delete_outcome(before, &devbox)),
        WatchEvent::Init => DevboxEventOutcome::Cleared,
        WatchEvent::InitDone => DevboxEventOutcome::Listed(after.len() as usize),
    }
}

/// The tenant index after one event.
pub open spec fn after_devbox_event(tenants: TenantMap, event: WatchEvent<Devbox>) -> TenantMap {
    match event {
        WatchEvent::Apply(devbox) | WatchEvent::InitApply(devbox) => match devbox_entry(&devbox) {
            Some((id, info)) => tenants.insert(id, info),
            None => tenants,
        },
        WatchEvent::Delete(devbox) => match devbox_unique_id(&devbox) {
            Some(id) => tenants.remove(id),
            None => tenants,
        },
        WatchEvent::Init => TenantMap::empty(),
        WatchEvent::InitDone => tenants,
    }
}

/// The tenant index after a run of events, in order.
pub open spec fn after_devbox_events(tenants: TenantMap, events: Seq<WatchEvent<Devbox>>) -> TenantMap
    decreases events.len(),
{
    if events.len() == 0 {
        tenants
    } else {
        after_devbox_event(after_devbox_events(tenants, events.drop_last()), events.last())
    }
}

/// Registers the tenant that a resource describes; a resource that lacks its
/// identifier, namespace or name is skipped, and the report says which.
pub fn handle_devbox_apply(registry: &mut DevboxRegistry, devbox: &Devbox) -> (r: DevboxApply)
    ensures
        final(registry).devboxes() == match devbox_entry(devbox) {
            Some((id, info)) => old(registry).devboxes().insert(id, info),
            None => old(registry).devboxes(),
        },
        final(registry).pod_ips() == old(registry).pod_ips(),
        r == devbox_apply_outcome(old(registry).devboxes(), devbox),
{
    let unique_id = match devbox.unique_id() {
        Some(id) => id,
        None => {
            return DevboxApply::MissingUniqueId;
        },
    };
    let namespace = match &devbox.metadata.namespace {
        Some(namespace) => namespace,
        None => {
            return DevboxApply::MissingNamespace;
        },
    };
    let devbox_name = match &devbox.metadata.name {
        Some(name) => name,
        None => {
            return DevboxApply::MissingName;
        },
    };
    let is_new = registry.register_devbox(unique_id.to_owned(), namespace.clone(), devbox_name.clone());
    DevboxApply::Registered { is_new }
}

/// Unregisters the tenant that a deleted resource names. Returns whether an
/// entry was removed.
pub fn handle_devbox_delete(registry: &mut DevboxRegistry, devbox: &Devbox) -> (removed: bool)
    ensures
        final(registry).devboxes() == match devbox_unique_id(devbox) {
            Some(id) => old(registry).devboxes().remove(id),
            None => old(registry).devboxes(),
        },
        final(registry).pod_ips() == old(registry).pod_ips(),
        removed == devbox_delete_outcome(old(registry).devboxes(), devbox),
{
    match devbox.unique_id() {
        Some(unique_id) => registry.unregister_devbox(unique_id),
        None => false,
    }
}

/// Applies one tenant-resource event to the tenant index.
pub fn handle_devbox_event(registry: &mut DevboxRegistry, event: WatchEvent<Devbox>) -> (r: DevboxEventOutcome)
    ensures
        final(registry).devboxes() == after_devbox_event(old(registry).devboxes(), event),
        final(registry).pod_ips() == old(registry).pod_ips(),
        r == devbox_event_outcome(old(registry).devboxes(), final(registry).devboxes(), event),
{
    match event {
        WatchEvent::Apply(devbox) | WatchEvent::InitApply(devbox) => {
            DevboxEventOutcome::Applied(handle_devbox_apply(registry, &devbox))
        },
        WatchEvent::Delete(devbox) => DevboxEventOutcome::Deleted(handle_devbox_delete(registry, &devbox)),
        WatchEvent::Init => {
            registry.clear_devboxes();
            DevboxEventOutcome::Cleared
        },
        WatchEvent::InitDone => DevboxEventOutcome::Listed(registry.devbox_count()),
    }
}

// ---------------------------------------------------------------------------
// Pod watcher
// ---------------------------------------------------------------------------

/// What applying a pod did.
#[derive(Debug, Clone, Copy, PartialEq, Eq, Structural)]
pub enum PodApply {
    /// The address of the owning workload was stored, or cleared when the
    /// pod has none; `changed` when the stored value changed.
    Updated { changed: bool },
    /// Skipped: the pod has no namespace.
    MissingNamespace,
    /// Skipped: no owner of the pod is a tenant workload.
    NoDevboxOwner,
}

/// What a pod event did.
#[derive(Debug, Clone, Copy, PartialEq, Eq, Structural)]
pub enum PodEventOutcome {
    Applied(PodApply),
    /// A deletion; whether an address was removed.
    Deleted(bool),
    /// The address index was cleared for a new listing.
    Cleared,
    /// The listing is complete; the number of stored addresses.
    Listed(usize),
}

/// The address key of the workload that owns a pod, when the pod has a
/// namespace and such an owner.
pub open spec fn pod_entry_key(pod: &PartialPod) -> Option<Seq<char>> {
    match (opt_view(pod.metadata.namespace), pod_owner(pod)) {
        (Some(namespace), Some(name)) => Some(pod_key(namespace, name)),
        _ => None,
    }
}

/// What applying `pod` to the address index reports, given the index before
/// and after.
pub open spec fn pod_apply_outcome(before: AddressMap, after: AddressMap, pod: &PartialPod) -> PodApply {
    match pod_entry_key(pod) {
        Some(key) => PodApply::Updated { changed: after.get(key) != before.get(key) },
        None => if pod.metadata.namespace.is_none() {
            PodApply::MissingNamespace
        } else {
            PodApply::NoDevboxOwner
        },
    }
}

/// Whether deleting `pod` removes an entry of the address index `pods`.
pub open spec fn pod_delete_outcome(pods: AddressMap, pod: &PartialPod) -> bool {
    match pod_entry_key(pod) {
        Some(key) => pods.contains_key(key),
        None => false,
    }
}

/// What one event reports, given the address index before and after it.
pub open spec fn pod_event_outcome(before: AddressMap, after: AddressMap, event: WatchEvent<PartialPod>) -> PodEventOutcome {
    match event {
        WatchEvent::Apply(pod) | WatchEvent::InitApply(pod) => PodEventOutcome::Applied(
            pod_apply_outcome(before, after, &pod),
        ),
        WatchEvent::Delete(pod) => PodEventOutcome::Deleted(pod_delete_outcome(before, &pod)),
        WatchEvent::Init => PodEventOutcome::Cleared,
        WatchEvent::InitDone => PodEventOutcome::Listed(after.len() as usize),
    }
}

/// The address index after one event.
pub open spec fn after_pod_event(pods: AddressMap, event: WatchEvent<PartialPod>) -> AddressMap {
    match event {
        WatchEvent::Apply(pod) | WatchEvent::InitApply(pod) => match pod_entry_key(&pod) {
            Some(key) => updated_addresses(pods, key, pod_address(&pod)),
            None => pods,
        },
        WatchEvent::Delete(pod) => match pod_entry_key(&pod) {
            Some(key) => pods.remove(key),
            None => pods,
        },
        WatchEvent::Init => AddressMap::empty(),
        WatchEvent::InitDone => pods,
    }
}

/// The address index after a run of events, in order.
pub open spec fn after_pod_events(pods: AddressMap, events: Seq<WatchEvent<PartialPod>>) -> AddressMap
    decreases events.len(),
{
    if events.len() == 0 {
        pods
    } else {
        after_pod_event(after_pod_events(pods, events.drop_last()), events.last())
    }
}

/// Stores the address of the workload that owns a pod (an empty address
/// clears it); a pod with no namespace, or with no tenant-workload owner, is
/// skipped, and the report says which.
pub fn handle_pod_apply(registry: &mut DevboxRegistry, pod: &PartialPod) -> (r: PodApply)
    ensures
        final(registry).pod_ips() == match pod_entry_key(pod) {
            Some(key) => updated_addresses(old(registry).pod_ips(), key, pod_address(pod)),
            None => old(registry).pod_ips(),
        },
        final(registry).devboxes() == old(registry).devboxes(),
        r == pod_apply_outcome(old(registry).pod_ips(), final(registry).pod_ips(), pod),
{
    let namespace = match &pod.metadata.namespace {
        Some(namespace) => namespace,
        None => {
            return PodApply::MissingNamespace;
        },
    };
    let devbox_name = match pod.devbox_owner() {
        Some(name) => name,
        None => {
            return PodApply::NoDevboxOwner;
        },
    };
    let pod_ip = pod.pod_ip();
    let changed = registry.update_pod_ip(namespace.as_str(), devbox_name.as_str(), pod_ip);
    PodApply::Updated { changed }
}

/// Clears the address of the workload that owns a deleted pod. Returns
/// whether an address was removed.
pub fn handle_pod_delete(registry: &mut DevboxRegistry, pod: &PartialPod) -> (removed: bool)
    ensures
        final(registry).pod_ips() == match pod_entry_key(pod) {
            Some(key) => old(registry).pod_ips().remove(key),
            None => old(registry).pod_ips(),
        },
        final(registry).devboxes() == old(registry).devboxes(),
        removed == pod_delete_outcome(old(registry).pod_ips(), pod),
{
    let namespace = match &pod.metadata.namespace {
        Some(namespace) => namespace,
        None => {
            return false;
        },
    };
    match pod.devbox_owner() {
        Some(devbox_name) => registry.clear_pod_ip(namespace.as_str(), devbox_name.as_str()),
        None => false,
    }
}

/// Applies one pod event to the address index.
pub fn handle_pod_event(registry: &mut DevboxRegistry, event: WatchEvent<PartialPod>) -> (r: PodEventOutcome)
    ensures
        final(registry).pod_ips() == after_pod_event(old(registry).pod_ips(), event),
        final(registry).devboxes() == old(registry).devboxes(),
        r == pod_event_outcome(old(registry).pod_ips(), final(registry).pod_ips(), event),
{
    match event {
        WatchEvent::Apply(pod) | WatchEvent::InitApply(pod) => PodEventOutcome::Applied(handle_pod_apply(registry, &pod)),
        WatchEvent::Delete(pod) => PodEventOutcome::Deleted(handle_pod_delete(registry, &pod)),
        WatchEvent::Init => {
            registry.clear_pod_ips();
            PodEventOutcome::Cleared
        },
        WatchEvent::InitDone => PodEventOutcome::Listed(registry.pod_ip_count()),
    }
}

// ---------------------------------------------------------------------------
// Laws of re-listing
// ---------------------------------------------------------------------------

/// After a (re)start reaches `Init`, the tenant index depends on the events
/// from `Init` on alone: whatever it held before the restart, it ends as the
/// events after `Init` build it from empty. No entry from before the restart
/// survives unless the new listing holds it too.
pub proof fn lemma_devbox_relist(before: TenantMap, other: TenantMap, listing: Seq<WatchEvent<Devbox>>)
    ensures
        after_devbox_events(before, seq![WatchEvent::Init].add(listing))
            == after_devbox_events(TenantMap::empty(), listing),
        after_devbox_events(before, seq![WatchEvent::Init].add(listing))
            == after_devbox_events(other, seq![WatchEvent::Init].add(listing)),
    decreases listing.len(),
{
    let events = seq![WatchEvent::Init].add(listing);
    if listing.len() == 0 {
        assert(events.drop_last() =~= Seq::<WatchEvent<Devbox>>::empty());
    } else {
        assert(events.drop_last() =~= seq![WatchEvent::Init].add(listing.drop_last()));
        assert(events.last() == listing.last());
        lemma_devbox_relist(before, other, listing.drop_last());
    }
}

/// After a (re)start reaches `Init`, the address index depends on the events
/// from `Init` on alone: whatever it held before the restart, it ends as the
/// events after `Init` build it from empty.
pub proof fn lemma_pod_relist(before: AddressMap, other: AddressMap, listing: Seq<WatchEvent<PartialPod>>)
    ensures
        after_pod_events(before, seq![WatchEvent::Init].add(listing)) == after_pod_events(AddressMap::empty(), listing),
        after_pod_events(before, seq![WatchEvent::Init].add(listing))
            == after_pod_events(other, seq![WatchEvent::Init].add(listing)),
    decreases listing.len(),
{
    let events = seq![WatchEvent::Init].add(listing);
    if listing.len() == 0 {
        assert(events.drop_last() =~= Seq::<WatchEvent<PartialPod>>::empty());
    } else {
        assert(events.drop_last() =~= seq![WatchEvent::Init].add(listing.drop_last()));
        assert(events.last() == listing.last());
        lemma_pod_relist(before, other, listing.drop_last());
    }
}

} // verus!
