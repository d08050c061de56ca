use vstd::prelude::*;

verus! {

/// Whether this side sends its screen or shows another's.
#[derive(Clone, Copy, Debug, PartialEq, Eq, Structural)]
pub enum Mode {
    Caster,
    Receiver,
}

/// What the application is transmitting at the moment.
#[derive(Clone, Copy, Debug, PartialEq, Eq, Structural)]
pub enum TransmissionStatus {
    Idle,
    Casting,
    Receiving,
}

impl Default for Mode {
    /// A new session starts as the caster.
    fn default() -> (r: Mode)
        ensures
            r == Mode::Caster,
    {
        Mode::Caster
    }
}

impl Default for TransmissionStatus {
    /// A new session starts idle.
    fn default() -> (r: TransmissionStatus)
        ensures
            r == TransmissionStatus::Idle,
    {
        TransmissionStatus::Idle
    }
}

} // verus!
