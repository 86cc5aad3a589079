//! Where a gateway (a waypoint or a network gateway) is reached.
use vstd::prelude::*;

use crate::discovery::{NamespacedHostname, NetworkAddress};

verus! {

#[derive(Debug, Clone, PartialEq, Eq, Hash)]
pub enum Destination {
    Address(NetworkAddress),
    Hostname(NamespacedHostname),
}

} // verus!
