use vstd::prelude::*;

verus! {

/// A relative output axis of the virtual device.
#[derive(Debug, Clone, Copy, Hash, Eq, PartialEq, Structural)]
pub enum RelAxis {
    X,
    Y,
    Wheel,
    HWheel,
}

/// The raw code a relative output axis is reported under.
pub open spec fn rel_code_spec(a: RelAxis) -> u16 {
    match a {
        RelAxis::X => 0x00,
        RelAxis::Y => 0x01,
        RelAxis::HWheel => 0x06,
        RelAxis::Wheel => 0x08,
    }
}

impl RelAxis {
    /// The raw code of this relative axis.
    pub fn code(self) -> (r: u16)
        ensures
            r == rel_code_spec(self),
    {
        match self {
            RelAxis::X => 0x00,
            RelAxis::Y => 0x01,
            RelAxis::HWheel => 0x06,
            RelAxis::Wheel => 0x08,
        }
    }
}

/// One synthesized event destined for the output device.
#[derive(Debug, Clone, Copy, Hash, Eq, PartialEq, Structural)]
pub enum OutEvent {
    /// Press of the destination keycode.
    KeyDown(u16),
    /// Release of the destination keycode.
    KeyUp(u16),
    /// Relative motion on an output axis by a signed delta.
    Rel(RelAxis, i32),
}

/// One event delivered by the raw input stream, reduced to plain values.
#[derive(Debug, Clone, Copy, Hash, Eq, PartialEq, Structural)]
pub enum RawEvent {
    /// An absolute-axis sample: raw axis code and signed position.
    AbsAxis(u16, i32),
    /// A button sample: raw button code and raw value (1 signals pressed;
    /// anything else, the repeat signal included, counts as not pressed).
    Key(u16, i32),
    /// A synchronization marker separating logically simultaneous samples.
    Sync,
    /// Any other event kind, ignored by the engine.
    Other,
}

/// An external effect the engine asks its host to perform.
#[derive(Debug, PartialEq)]
pub enum Action {
    /// Spawn this whitespace-tokenized command line, detached and
    /// fire-and-forget; its outcome is never inspected.
    Launch(String),
    /// Write these events to the output device as one atomic emission.
    Emit(Vec<OutEvent>),
}

/// The mathematical content of an `Action`.
#[verifier::ext_equal]
pub enum ActionModel {
    Launch(Seq<char>),
    Emit(Seq<OutEvent>),
}

impl View for Action {
    type V = ActionModel;

    open spec fn view(&self) -> ActionModel {
        match self {
            Action::Launch(cmd) => ActionModel::Launch(cmd@),
            Action::Emit(evs) => ActionModel::Emit(evs@),
        }
    }
}

/// The models of a sequence of actions, element by element.
pub open spec fn action_views(s: Seq<Action>) -> Seq<ActionModel> {
    s.map_values(|a: Action| a@)
}

} // verus!
