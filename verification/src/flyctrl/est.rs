//! What the control task publishes of the estimate besides the motion: the health
//! and whether the vehicle is armed.

use vstd::prelude::*;

verus! {

/// State of the vehicle's health.
#[derive(Clone, Copy, Debug, PartialEq, Eq, Structural)]
pub enum Health {
    Healthy,
    Degraded,
    Critical,
}

/// The flags that go with the estimate.
#[derive(Clone, Copy, Debug, PartialEq, Eq, Structural)]
pub struct EstFlags {
    pub health: Health,
    pub armed: bool,
}

impl EstFlags {
    /// The flags before the first control cycle: degraded and disarmed.
    pub fn empty() -> (f: EstFlags)
        ensures
            f == (EstFlags { health: Health::Degraded, armed: false }),
    {
        EstFlags { health: Health::Degraded, armed: false }
    }

    /// Whether the health is critical.
    pub fn critical(&self) -> (c: bool)
        ensures
            c == (self.health == Health::Critical),
    {
        match self.health {
            Health::Critical => true,
            _ => false,
        }
    }
}

/// Of `critical` and `empty`: only critical health counts as critical; before the first
/// cycle the vehicle is neither that, nor healthy, nor armed.
pub proof fn law_health_flags(f: &EstFlags, c: bool, e: EstFlags)
    requires
        call_ensures(EstFlags::critical, (f,), c),
        call_ensures(EstFlags::empty, (), e),
    ensures
        c <==> f.health == Health::Critical,
        e.health == Health::Degraded && !e.armed,
{
}

} // verus!
