//! Debouncing and auto-repeat for the front-panel push buttons.
use vstd::prelude::*;

verus! {

/// Whether a button held for `on_time` cycles counts as pressed this cycle:
/// on the first cycle, again on cycle `first_repeat`, and then every
/// `next_repeat` cycles.
pub open spec fn switch_active(on_time: u16, first_repeat: u16, next_repeat: u16) -> bool {
    if on_time == 1 {
        true
    } else if on_time >= first_repeat {
        (on_time - first_repeat) % (next_repeat as int) == 0
    } else {
        false
    }
}

/// The hold counter after one cycle: counts up while pressed, saturating,
/// and drops to zero on release.
pub open spec fn held_for(on_time: u16, pressed: bool) -> u16 {
    if pressed {
        if on_time == u16::MAX { u16::MAX } else { (on_time + 1) as u16 }
    } else {
        0
    }
}

/// One push button, counting the cycles it has been held down.
pub struct Switch {
    on_time: u16,
    first_repeat: u16,
    next_repeat: u16,
}

impl Switch {
    pub closed spec fn on_time_spec(&self) -> u16 {
        self.on_time
    }

    pub closed spec fn first_repeat_spec(&self) -> u16 {
        self.first_repeat
    }

    pub closed spec fn next_repeat_spec(&self) -> u16 {
        self.next_repeat
    }

    /// The repeat period is not zero.
    pub open spec fn wf(&self) -> bool {
        self.next_repeat_spec() > 0
    }

    /// Create a new Switch manager, which will return active on the
    /// first cycle where the switch is pressed, again on the `first_repeat` cycle,
    /// and then every `next_repeat` cycles thereafter.
    pub fn new(first_repeat: u16, next_repeat: u16) -> (r: Self)
        requires
            next_repeat > 0,
        ensures
            r.wf(),
            r.on_time_spec() == 0,
            r.first_repeat_spec() == first_repeat,
            r.next_repeat_spec() == next_repeat,
    {
        Switch { on_time: 0, first_repeat, next_repeat }
    }

    /// Update with the current state of the switch, `true` if pressed.
    pub fn update(&mut self, state: bool)
        requires
            old(self).wf(),
        ensures
            final(self).wf(),
            final(self).on_time_spec() == held_for(old(self).on_time_spec(), state),
            final(self).first_repeat_spec() == old(self).first_repeat_spec(),
            final(self).next_repeat_spec() == old(self).next_repeat_spec(),
    {
        if state {
            self.on_time = self.on_time.saturating_add(1);
        } else {
            self.on_time = 0;
        }
    }

    /// Poll to see if the switch should be considered active this cycle.
    pub fn poll(&self) -> (r: bool)
        requires
            self.wf(),
        ensures
            r == switch_active(self.on_time_spec(), self.first_repeat_spec(), self.next_repeat_spec()),
    {
        if self.on_time == 1 {
            true
        } else if self.on_time >= self.first_repeat {
            (self.on_time - self.first_repeat) % self.next_repeat == 0
        } else {
            false
        }
    }
}

/// The six front-panel buttons, all sharing the same repeat timing.
pub struct Switches {
    enter: Switch,
    qr: Switch,
    display: Switch,
    back: Switch,
    left: Switch,
    right: Switch,
}

impl Switches {
    /// Every button is well formed.
    pub closed spec fn wf(&self) -> bool {
        &&& self.enter.wf()
        &&& self.qr.wf()
        &&& self.display.wf()
        &&& self.back.wf()
        &&& self.left.wf()
        &&& self.right.wf()
        &&& self.qr.first_repeat_spec() == self.enter.first_repeat_spec()
        &&& self.display.first_repeat_spec() == self.enter.first_repeat_spec()
        &&& self.back.first_repeat_spec() == self.enter.first_repeat_spec()
        &&& self.left.first_repeat_spec() == self.enter.first_repeat_spec()
        &&& self.right.first_repeat_spec() == self.enter.first_repeat_spec()
        &&& self.qr.next_repeat_spec() == self.enter.next_repeat_spec()
        &&& self.display.next_repeat_spec() == self.enter.next_repeat_spec()
        &&& self.back.next_repeat_spec() == self.enter.next_repeat_spec()
        &&& self.left.next_repeat_spec() == self.enter.next_repeat_spec()
        &&& self.right.next_repeat_spec() == self.enter.next_repeat_spec()
    }

    /// The counters of the buttons: enter, QR, display, back, left, right.
    pub closed spec fn on_times(&self) -> Seq<u16> {
        seq![
            self.enter.on_time_spec(),
            self.qr.on_time_spec(),
            self.display.on_time_spec(),
            self.back.on_time_spec(),
            self.left.on_time_spec(),
            self.right.on_time_spec(),
        ]
    }

    pub closed spec fn first_repeat_spec(&self) -> u16 {
        self.enter.first_repeat_spec()
    }

    pub closed spec fn next_repeat_spec(&self) -> u16 {
        self.enter.next_repeat_spec()
    }

    /// Whether button `i` (in the order of `on_times`) counts as pressed.
    pub open spec fn active_spec(&self, i: int) -> bool {
        switch_active(self.on_times()[i], self.first_repeat_spec(), self.next_repeat_spec())
    }

    /// Create a new Switches manager, with all switches sharing the same
    /// `first_repeat` and `next_repeat` values.
    pub fn new(first_repeat: u16, next_repeat: u16) -> (r: Self)
        requires
            next_repeat > 0,
        ensures
            r.wf(),
            r.on_times() == seq![0u16, 0u16, 0u16, 0u16, 0u16, 0u16],
            r.first_repeat_spec() == first_repeat,
            r.next_repeat_spec() == next_repeat,
    {
        Switches {
            enter: Switch::new(first_repeat, next_repeat),
            qr: Switch::new(first_repeat, next_repeat),
            display: Switch::new(first_repeat, next_repeat),
            back: Switch::new(first_repeat, next_repeat),
            left: Switch::new(first_repeat, next_repeat),
            right: Switch::new(first_repeat, next_repeat),
        }
    }

    /// Update all buttons with their current states, `true` if pressed.
    pub fn update(&mut self, enter: bool, qr: bool, display: bool, back: bool, left: bool, right: bool)
        requires
            old(self).wf(),
        ensures
            final(self).wf(),
            final(self).first_repeat_spec() == old(self).first_repeat_spec(),
            final(self).next_repeat_spec() == old(self).next_repeat_spec(),
            final(self).on_times() == seq![
                held_for(old(self).on_times()[0], enter),
                held_for(old(self).on_times()[1], qr),
                held_for(old(self).on_times()[2], display),
                held_for(old(self).on_times()[3], back),
                held_for(old(self).on_times()[4], left),
                held_for(old(self).on_times()[5], right),
            ],
    {
        self.enter.update(enter);
        self.qr.update(qr);
        self.display.update(display);
        self.back.update(back);
        self.left.update(left);
        self.right.update(right);
    }

    /// Get state of enter button.
    pub fn enter(&self) -> (r: bool)
        requires
            self.wf(),
        ensures
            r == self.active_spec(0),
    {
        self.enter.poll()
    }

    /// Get state of QR button.
    pub fn qr(&self) -> (r: bool)
        requires
            self.wf(),
        ensures
            r == self.active_spec(1),
    {
        self.qr.poll()
    }

    /// Get state of display button.
    pub fn display(&self) -> (r: bool)
        requires
            self.wf(),
        ensures
            r == self.active_spec(2),
    {
        self.display.poll()
    }

    /// Get state of back button.
    pub fn back(&self) -> (r: bool)
        requires
            self.wf(),
        ensures
            r == self.active_spec(3),
    {
        self.back.poll()
    }

    /// Get state of left button.
    pub fn left(&self) -> (r: bool)
        requires
            self.wf(),
        ensures
            r == self.active_spec(4),
    {
        self.left.poll()
    }

    /// Get state of right button.
    pub fn right(&self) -> (r: bool)
        requires
            self.wf(),
        ensures
            r == self.active_spec(5),
    {
        self.right.poll()
    }
}

} // verus!
