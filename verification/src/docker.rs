//! The decisions in restarting a container with a new image.

use vstd::prelude::*;

verus! {

/// What updating a container does: the image it is restarted with, and
/// whether that image is pulled first.
#[derive(Debug)]
pub struct ContainerUpdate {
    pub image: String,
    pub pull: bool,
}

/// The update of a container: the requested image, or else the image the
/// container runs now (to pick up a new image pushed under the same tag);
/// pulled unless the request says not to. `None` where no image is known.
pub fn plan_container_update(
    requested: Option<String>,
    current: Option<String>,
    pull: Option<bool>,
) -> (res: Option<ContainerUpdate>)
    ensures
        res is None <==> requested is None && current is None,
        res matches Some(u) ==> u.pull == (pull != Some(false)) && u.image@ == match requested {
            Some(r) => r@,
            None => current.unwrap()@,
        },
{
    let pull = match pull {
        Some(p) => p,
        None => true,
    };
    match requested {
        Some(image) => Some(ContainerUpdate { image, pull }),
        None => match current {
            Some(image) => Some(ContainerUpdate { image, pull }),
            None => None,
        },
    }
}

/// The networks of a container that is created anew: a container is created
/// on one network, and connected to the others afterwards.
#[derive(Debug)]
pub struct NetworkPlan {
    pub create_with: String,
    pub connect_after: Vec<String>,
}

/// Splits the networks a container was on into the one it is created with
/// (the first) and those it is connected to afterwards. `None` where it was on
/// no network.
pub fn plan_networks(networks: Vec<String>) -> (res: Option<NetworkPlan>)
    ensures
        res is None <==> networks@.len() == 0,
        res matches Some(p) ==> seq![p.create_with] + p.connect_after@ == networks@,
{
    let mut networks = networks;
    if networks.len() == 0 {
        return None;
    }
    let ghost all = networks@;
    let first = networks.remove(0);
    assert(seq![first] + networks@ =~= all);
    Some(NetworkPlan { create_with: first, connect_after: networks })
}

} // verus!
