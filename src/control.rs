use vstd::prelude::*;

use crate::buttons::Button;

verus! {

/// Number of intensity modes: the rows of the duty table.
pub const MODE_COUNT: usize = 3;

/// Number of sides: the columns of the duty table.
pub const SIDE_COUNT: usize = 2;

/// Lowest compare value in the duty table.
pub const MIN_DUTY: u16 = 500;

/// The duty value, in output-peripheral units, for a mode and a side.
pub open spec fn duty_table(mode: int, side: int) -> int {
    if mode == 0 {
        if side == 0 { 1000 } else { 2000 }
    } else if mode == 1 {
        if side == 0 { 750 } else { 2250 }
    } else {
        if side == 0 { 500 } else { 2500 }
    }
}

/// Looks up the duty value of a mode and a side.
pub fn duty_lookup(mode: usize, side: usize) -> (duty: u16)
    requires
        mode < MODE_COUNT,
        side < SIDE_COUNT,
    ensures
        duty as int == duty_table(mode as int, side as int),
{
    match (mode, side) {
        (0, 0) => 1000,
        (0, _) => 2000,
        (1, 0) => 750,
        (1, _) => 2250,
        (_, 0) => 500,
        (_, _) => 2500,
    }
}

/// The shared operating state: which intensity mode, which side, and whether the output
/// is running.
#[derive(Clone, Copy, Debug, PartialEq, Eq, Structural)]
pub struct ControlState {
    pub mode: usize,
    pub side: usize,
    pub running: bool,
}

/// The state after a press of `button`: Up and Down step the mode and stop at its ends,
/// Left and Right set the side, Center toggles running.
pub open spec fn after_button(s: ControlState, button: Button) -> ControlState {
    match button {
        Button::Up => ControlState { mode: if s.mode == 0 { 0 } else { (s.mode - 1) as usize }, ..s },
        Button::Down => ControlState {
            mode: if s.mode + 1 >= MODE_COUNT { (MODE_COUNT - 1) as usize } else { (s.mode + 1) as usize },
            ..s
        },
        Button::Left => ControlState { side: 1, ..s },
        Button::Right => ControlState { side: 0, ..s },
        Button::Center => ControlState { running: !s.running, ..s },
        Button::Released => s,
    }
}

/// The state after one tick of the side alternator: a running state moves to the other
/// side, a paused one stays as it is.
pub open spec fn after_tick(s: ControlState) -> ControlState {
    if s.running {
        ControlState { side: ((s.side + 1) % (SIDE_COUNT as int)) as usize, ..s }
    } else {
        s
    }
}

/// The state after `n` ticks of the side alternator.
pub open spec fn after_ticks(s: ControlState, n: nat) -> ControlState
    decreases n,
{
    if n == 0 {
        s
    } else {
        after_tick(after_ticks(s, (n - 1) as nat))
    }
}

impl ControlState {
    /// Mode and side are valid indices into the duty table.
    pub open spec fn wf(&self) -> bool {
        self.mode < MODE_COUNT && self.side < SIDE_COUNT
    }

    /// The state at start-up: first mode, first side, running.
    pub fn new() -> (s: ControlState)
        ensures
            s.wf(),
            s.mode == 0,
            s.side == 0,
            s.running,
    {
        ControlState { mode: 0, side: 0, running: true }
    }

    /// Whether mode and side are valid indices into the duty table.
    pub fn is_valid(&self) -> (r: bool)
        ensures
            r == self.wf(),
    {
        self.mode < MODE_COUNT && self.side < SIDE_COUNT
    }

    /// Applies a button press to the state.
    pub fn apply_button(&mut self, button: Button)
        requires
            old(self).wf(),
        ensures
            *final(self) == after_button(*old(self), button),
            final(self).wf(),
    {
        match button {
            Button::Up => {
                self.mode = if self.mode == 0 { 0 } else { self.mode - 1 };
            },
            Button::Down => {
                self.mode = if self.mode + 1 >= MODE_COUNT { MODE_COUNT - 1 } else { self.mode + 1 };
            },
            Button::Left => {
                self.side = 1;
            },
            Button::Right => {
                self.side = 0;
            },
            Button::Center => {
                self.running = !self.running;
            },
            Button::Released => {},
        }
    }

    /// One tick of the side alternator.
    pub fn alternate_side(&mut self)
        requires
            old(self).wf(),
        ensures
            *final(self) == after_tick(*old(self)),
            final(self).wf(),
    {
        if self.running {
            self.side = (self.side + 1) % SIDE_COUNT;
        }
    }

    /// The duty value that the output applies in this state.
    pub fn duty(&self) -> (duty: u16)
        requires
            self.wf(),
        ensures
            duty as int == duty_table(self.mode as int, self.side as int),
    {
        duty_lookup(self.mode, self.side)
    }

    /// The status indication: `None` for the neutral indication of a paused output, else
    /// the position on the color wheel, a tenth of the duty value above its lowest value.
    pub fn status_hue(&self) -> (hue: Option<u8>)
        requires
            self.wf(),
        ensures
            hue == (if self.running {
                Some(((duty_table(self.mode as int, self.side as int) - MIN_DUTY) / 10) as u8)
            } else {
                None::<u8>
            }),
            self.running ==> hue.unwrap() <= 200,
    {
        if self.running {
            let duty = self.duty();
            Some(((duty - MIN_DUTY) / 10) as u8)
        } else {
            None
        }
    }
}

/// Every update keeps mode and side valid indices into the duty table.
pub proof fn lemma_updates_keep_valid(s: ControlState, button: Button, n: nat)
    requires
        s.wf(),
    ensures
        after_button(s, button).wf(),
        after_ticks(s, n).wf(),
    decreases n,
{
    if n > 0 {
        lemma_updates_keep_valid(s, button, (n - 1) as nat);
    }
}

/// Mode changes saturate: Up at the first mode and Down at the last leave the mode as it is.
pub proof fn lemma_mode_saturates(s: ControlState)
    requires
        s.wf(),
    ensures
        s.mode == 0 ==> after_button(s, Button::Up).mode == 0,
        s.mode == MODE_COUNT - 1 ==> after_button(s, Button::Down).mode == MODE_COUNT - 1,
{
}

/// Left and Right set the side absolutely, whatever it was before.
pub proof fn lemma_side_set_absolute(s: ControlState)
    ensures
        after_button(s, Button::Left).side == 1,
        after_button(s, Button::Right).side == 0,
{
}

/// Center toggles running: two presses give back the state they started from.
pub proof fn lemma_center_twice_restores(s: ControlState)
    ensures
        after_button(s, Button::Center).running == !s.running,
        after_button(after_button(s, Button::Center), Button::Center) == s,
{
}

/// While paused, any number of alternator ticks leaves the state unchanged; while running,
/// each tick moves to the other side.
pub proof fn lemma_alternator_needs_running(s: ControlState, n: nat)
    requires
        s.wf(),
    ensures
        !s.running ==> after_ticks(s, n) == s,
        s.running ==> after_tick(s).side == 1 - s.side,
    decreases n,
{
    if n > 0 {
        lemma_alternator_needs_running(s, (n - 1) as nat);
    }
}

} // verus!
