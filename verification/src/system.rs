//! Scheduling metadata for a system: whether it runs once or at a fixed
//! rate, together with the component storage it works over.

use vstd::prelude::*;

verus! {

use crate::arena::GenVec;

/// How often the outer scheduler should run a system.
pub enum SystemType {
    RunOnce,
    /// Runs continuously, the given number of times per second.
    Continuous(i32),
}

/// A system registration: its schedule, whether it is enabled, and the
/// per-entity component storage it owns.
pub struct System<T> where T: Send + Sync {
    pub system_type: SystemType,
    pub running: bool,
    pub components: GenVec<Option<T>>,
}

impl<T> System<T> where T: Send + Sync {
    /// Registers a system over the given component storage, enabled.
    pub fn new(sys_type: SystemType, entities: GenVec<Option<T>>) -> (s: System<T>)
        ensures
            s.system_type == sys_type,
            s.running,
            s.components == entities,
    {
        System { system_type: sys_type, running: true, components: entities }
    }
}

} // verus!
