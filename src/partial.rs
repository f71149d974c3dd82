//! The part of a pod that routing reads: its metadata and its address.
use vstd::prelude::*;

use crate::crd::{opt_view, ObjectMeta, OwnerReference};

verus! {

/// The status of a pod, reduced to its address.
#[derive(Clone, Debug, Default)]
pub struct PartialPodStatus {
    pub pod_ip: Option<String>,
}

/// A pod, reduced to what routing reads.
#[derive(Clone, Debug)]
pub struct PartialPod {
    pub metadata: ObjectMeta,
    pub status: Option<PartialPodStatus>,
}

/// The kind of the owner that ties a pod to a tenant workload.
pub open spec fn devbox_kind() -> Seq<char> {
    seq!['D', 'e', 'v', 'b', 'o', 'x']
}

/// The name of the first owner of kind `Devbox` in `refs`, if any.
pub open spec fn devbox_owner_in(refs: Seq<OwnerReference>) -> Option<Seq<char>>
    decreases refs.len(),
{
    if refs.len() == 0 {
        None
    } else if refs[0].kind@ == devbox_kind() {
        Some(refs[0].name@)
    } else {
        devbox_owner_in(refs.drop_first())
    }
}

/// The name of the tenant workload that owns a pod, if any.
pub open spec fn pod_owner(pod: &PartialPod) -> Option<Seq<char>> {
    match pod.metadata.owner_references {
        Some(refs) => devbox_owner_in(refs@),
        None => None,
    }
}

/// The address of a pod; empty when it has none.
pub open spec fn pod_address(pod: &PartialPod) -> Seq<char> {
    match pod.status {
        Some(status) => match opt_view(status.pod_ip) {
            Some(ip) => ip,
            None => Seq::empty(),
        },
        None => Seq::empty(),
    }
}

impl PartialPod {
    /// The name of the tenant workload that owns the pod: the first owner
    /// reference of kind `Devbox`.
    pub fn devbox_owner(&self) -> (r: Option<String>)
        ensures
            opt_view(r) == pod_owner(self),
    {
        let refs = match &self.metadata.owner_references {
            Some(refs) => refs,
            None => {
                return None;
            },
        };
        let kind = "Devbox".to_owned();
        proof {
            reveal_strlit("Devbox");
        }
        let mut i: usize = 0;
        assert(refs@.skip(0) =~= refs@);
        while i < refs.len()
            invariant
                i <= refs@.len(),
                kind@ == devbox_kind(),
                pod_owner(self) == devbox_owner_in(refs@.skip(i as int)),
            decreases refs.len() - i,
        {
            assert(refs@.skip(i as int).drop_first() =~= refs@.skip(i + 1));
            if refs[i].kind == kind {
                assert(refs@.skip(i as int)[0] == refs@[i as int]);
                return Some(refs[i].name.clone());
            }
            i = i + 1;
        }
        None
    }

    /// The address of the pod, empty when it has none.
    pub fn pod_ip(&self) -> (r: String)
        ensures
            r@ == pod_address(self),
    {
        match &self.status {
            Some(status) => match &status.pod_ip {
                Some(ip) => ip.clone(),
                None => String::new(),
            },
            None => String::new(),
        }
    }
}

} // verus!
