//! Wire formats, NAT bookkeeping and connection decisions of a gnome's
//! networking layer, with their contracts.
use vstd::prelude::*;

pub mod crypto;
pub mod data_conversion;
pub mod manager;
pub mod manager_steps;
pub mod messages;
pub mod neighbor;
pub mod networking;

verus! {

} // verus!
