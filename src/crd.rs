//! The tenant-definition resource (`devbox.sealos.io/v1alpha2`, kind
//! `Devbox`) and the object metadata that routing reads, as plain values.
use vstd::prelude::*;

verus! {

/// A reference from an object to the object that owns it.
#[derive(Clone, Debug, Default)]
pub struct OwnerReference {
    pub kind: String,
    pub name: String,
}

/// The metadata of a cluster object that routing reads.
#[derive(Clone, Debug, Default)]
pub struct ObjectMeta {
    pub name: Option<String>,
    pub namespace: Option<String>,
    pub owner_references: Option<Vec<OwnerReference>>,
}

/// Desired state of a tenant workload; routing reads none of it.
#[derive(Clone, Debug, Default)]
pub struct DevboxSpec {
    pub state: Option<String>,
}

/// Observed state of a tenant workload.
#[derive(Clone, Debug, Default)]
pub struct DevboxStatus {
    pub network: Option<DevboxNetwork>,
}

/// Network status of a tenant workload.
#[derive(Clone, Debug, Default)]
pub struct DevboxNetwork {
    /// The tenant identifier, e.g. `outdoor-before-78648`.
    pub unique_id: Option<String>,
}

/// A tenant-definition resource.
#[derive(Clone, Debug)]
pub struct Devbox {
    pub metadata: ObjectMeta,
    pub spec: DevboxSpec,
    pub status: Option<DevboxStatus>,
}

/// The characters of an optional string.
pub open spec fn opt_view(s: Option<String>) -> Option<Seq<char>> {
    match s {
        Some(s) => Some(s@),
        None => None,
    }
}

/// The tenant identifier in a resource's status, if it has one.
pub open spec fn devbox_unique_id(devbox: &Devbox) -> Option<Seq<char>> {
    match devbox.status {
        Some(status) => match status.network {
            Some(network) => opt_view(network.unique_id),
            None => None,
        },
        None => None,
    }
}

impl Devbox {
    /// The tenant identifier in the resource's status, if it has one.
    pub fn unique_id(&self) -> (r: Option<&str>)
        ensures
            r.is_some() == devbox_unique_id(self).is_some(),
            r.is_some() ==> r.unwrap()@ == devbox_unique_id(self).unwrap(),
    {
        match &self.status {
            Some(status) => match &status.network {
                Some(network) => match &network.unique_id {
                    Some(id) => Some(id.as_str()),
                    None => None,
                },
                None => None,
            },
            None => None,
        }
    }
}

} // verus!
