//! A relay between many socket clients and one supervised worker process:
//! tagging of client messages with their connection's identity, routing of
//! worker replies back by that identity, the connection registry, and the
//! supervisor's decisions about spawning the worker and (re)opening its pipe.
use vstd::prelude::*;

pub mod message;
pub mod registry;
pub mod supervisor;
pub mod wire;

verus! {

} // verus!
