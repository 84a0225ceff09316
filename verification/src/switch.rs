use vstd::prelude::*;

verus! {

/// The global on/off switch of the circuit.
///
/// Toggling is edge-triggered: the controller reads the raw level of the
/// toggle input every frame and flips its state only on a rising edge, so
/// holding the input down across many frames changes the state exactly once
/// per press.
#[derive(Clone, Copy, Debug, PartialEq, Eq, Structural)]
pub struct SwitchController {
    /// whether the circuit is switched on
    pub on: bool,
    /// whether the toggle input was down on the previous frame
    pub held: bool,
}

impl SwitchController {
    /// The switch starts on, with the toggle input released.
    pub fn new() -> (s: SwitchController)
        ensures
            s.on,
            !s.held,
    {
        SwitchController { on: true, held: false }
    }

    /// The controller state after one frame in which the toggle input is at
    /// `level`: the switch flips exactly on a rising edge.
    pub open spec fn stepped(self, level: bool) -> SwitchController {
        SwitchController {
            on: if level && !self.held {
                !self.on
            } else {
                self.on
            },
            held: level,
        }
    }

    /// Feed one frame's raw toggle-input level to the controller.
    pub fn step(&mut self, level: bool)
        ensures
            *final(self) == old(self).stepped(level),
    {
        if level && !self.held {
            self.on = !self.on;
        }
        self.held = level;
    }
}

/// The controller state after the toggle input has been held down for `n`
/// consecutive frames.
pub open spec fn held_down(s: SwitchController, n: nat) -> SwitchController
    decreases n,
{
    if n == 0 {
        s
    } else {
        held_down(s, (n - 1) as nat).stepped(true)
    }
}

/// Switch toggling is edge-triggered: however many consecutive frames the
/// toggle input is held down, the switch state changes exactly once per
/// press — on the first frame if the input was released before, and not at
/// all if the press had already been registered.
pub proof fn lemma_toggle_edge_triggered(s: SwitchController, n: nat)
    requires
        n >= 1,
    ensures
        held_down(s, n).on == (if s.held {
            s.on
        } else {
            !s.on
        }),
        held_down(s, n).held,
    decreases n,
{
    if n == 1 {
        assert(held_down(s, 1) == held_down(s, 0).stepped(true));
        assert(held_down(s, 0) == s);
    } else {
        lemma_toggle_edge_triggered(s, (n - 1) as nat);
    }
}

/// Releasing the toggle input re-arms the controller without changing the
/// switch state, so each separate press toggles again.
pub proof fn lemma_release_rearms(s: SwitchController)
    ensures
        s.stepped(false).on == s.on,
        !s.stepped(false).held,
{
}

} // verus!
