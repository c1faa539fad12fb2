use vstd::prelude::*;
use crate::drivers::Device;
use crate::drivers::keyboard::Keyboard;
use crate::drivers::mouse::Mouse;
use crate::event::Event;

verus! {

/// Largest resolution the main loop handles: the pointer lies below it,
/// and a mouse step of up to 127 from there still fits in an `i32`.
pub const MAX_RESOLUTION: i32 = 0x7FFF_FF81;

/// What the main loop does after a key is released.
#[derive(Clone, Copy, PartialEq, Eq, Structural, Debug)]
pub enum KeyCommand {
    /// Nothing beyond logging the key.
    Nothing,
    /// Escape: clear the screen to white.
    ClearWhite,
    /// Enter: clear the screen to the current palette colour.
    ClearColor(u8),
    /// Space: log the timer counter.
    LogCounter,
}

/// What the main loop does for one event.
#[derive(Clone, Copy, Debug)]
pub enum Action {
    /// Log a key that went down.
    KeyDown(u16),
    /// Log a key that repeats.
    KeyPress(u16),
    /// Log a key that went up, then carry out its command.
    KeyUp(u16, KeyCommand),
    /// Fill the rectangle `(x, y, width, height)` with palette colour `color`.
    Fill(u8, (i32, i32, i32, i32)),
    /// Draw a line in palette colour `color`.
    Line(u8, (i32, i32), (i32, i32)),
    /// The display timer fired: report how many turns the main loop made
    /// and how far the other task's counter moved since the last report,
    /// then restart the timer.
    ReportCounters(usize, usize),
    /// Another timer fired: log its id.
    LogTimer(usize),
}

/// `v` kept inside `0 .. limit` the way the main loop does it: below 0
/// becomes 0, at or past `limit` becomes `limit - 1`.
pub open spec fn clamp_pos(v: int, limit: int) -> int {
    if v < 0 { 0 } else if v >= limit { limit - 1 } else { v }
}

/// The palette colour after `c`: 1 to 15, wrapping from 15 to 1.
pub open spec fn next_color(c: int) -> int {
    if c + 1 > 15 { 1 } else { c + 1 }
}

/// Where the pointer goes when `mouse` moves it from `pos` on a display of
/// resolution `res`: each coordinate moved and kept on the screen.
pub open spec fn pointer_after(pos: (i32, i32), mouse: Mouse, res: (i32, i32)) -> (i32, i32) {
    (clamp_pos(pos.0 + mouse.x, res.0 as int) as i32, clamp_pos(pos.1 + mouse.y, res.1 as int) as i32)
}

/// The stroke painted in palette colour `color` when the pointer moves
/// from `from` to `to`: with the left button held, the 9-by-9 square
/// around `to` cut to the screen; else the line from `from` to `to`.
pub open spec fn stroke(color: u8, held: bool, from: (i32, i32), to: (i32, i32), res: (i32, i32)) -> Action {
    if held {
        let (x, y) = to;
        let l = if 0 > x - 4 { 0 } else { x - 4 };
        let rr = if x + 4 < res.0 - 1 { x + 4 } else { res.0 - 1 };
        let t = if 0 > y - 4 { 0 } else { y - 4 };
        let b = if y + 4 < res.1 - 1 { y + 4 } else { res.1 - 1 };
        Action::Fill(color, (l as i32, t as i32, (rr - l) as i32, (b - t) as i32))
    } else {
        Action::Line(color, from, to)
    }
}

/// The pointer never leaves the screen, and the palette colour stays a
/// palette colour, however the mouse moves.
pub proof fn lemma_pointer_and_palette(v: int, limit: int, c: int)
    requires
        limit > 0,
        1 <= c <= 15,
    ensures
        0 <= clamp_pos(v, limit) < limit,
        1 <= next_color(c) <= 15,
{
}

/// `a - b` wrapping round at the bounds of `usize`.
pub open spec fn wrapping_diff(a: usize, b: usize) -> usize {
    if a >= b { (a - b) as usize } else { (a - b + usize::MAX + 1) as usize }
}

/// `a - b` wrapping round at the bounds of `usize`.
fn wrapping_sub(a: usize, b: usize) -> (r: usize)
    ensures
        r == wrapping_diff(a, b),
{
    if a >= b { a - b } else { a + (usize::MAX - b) + 1 }
}

/// The main loop's state: where the pointer is, whether the left button
/// is held, the palette colour of the next stroke, and the counters of the
/// last report: the loop's turns then and now, and the other task's
/// counter then.
pub struct MainState {
    mouse_pos: (i32, i32),
    clicking: bool,
    color: u8,
    turns: (usize, usize),
    task_count: usize,
}

impl MainState {
    /// Pointer position.
    pub closed spec fn pos(&self) -> (i32, i32) {
        self.mouse_pos
    }

    /// Left button held.
    pub closed spec fn is_clicking(&self) -> bool {
        self.clicking
    }

    /// Palette colour of the next stroke.
    pub closed spec fn palette(&self) -> u8 {
        self.color
    }

    /// Turns the main loop has made.
    pub closed spec fn turn_count(&self) -> usize {
        self.turns.1
    }

    /// Turns the main loop had made at the last report.
    pub closed spec fn reported_turns(&self) -> usize {
        self.turns.0
    }

    /// The other task's counter at the last report.
    pub closed spec fn reported_task_count(&self) -> usize {
        self.task_count
    }

    /// Turns the main loop has made.
    pub fn turns(&self) -> (r: usize)
        ensures
            r == self.turn_count(),
    {
        self.turns.1
    }

    /// Counts one more turn of the main loop; nothing else changes.
    pub fn turn(&mut self)
        requires
            old(self).turn_count() < usize::MAX,
        ensures
            final(self).turn_count() == old(self).turn_count() + 1,
            final(self).reported_turns() == old(self).reported_turns(),
            final(self).reported_task_count() == old(self).reported_task_count(),
            final(self).pos() == old(self).pos(),
            final(self).is_clicking() == old(self).is_clicking(),
            final(self).palette() == old(self).palette(),
            final(self).wf() == old(self).wf(),
    {
        self.turns.1 = self.turns.1 + 1;
    }

    /// Internal invariant: the colour is a palette colour and the pointer
    /// lies where moving it cannot overflow.
    pub closed spec fn wf(&self) -> bool {
        &&& 1 <= self.color <= 15
        &&& -1 <= self.mouse_pos.0 < MAX_RESOLUTION
        &&& -1 <= self.mouse_pos.1 < MAX_RESOLUTION
    }

    /// The state at start: pointer at the origin, no button held, colour
    /// 1, every counter 0.
    pub fn new() -> (r: MainState)
        ensures
            r.wf(),
            r.pos() == (0i32, 0i32),
            !r.is_clicking(),
            r.palette() == 1,
            r.turn_count() == 0,
            r.reported_turns() == 0,
            r.reported_task_count() == 0,
    {
        MainState { mouse_pos: (0, 0), clicking: false, color: 1, turns: (0, 0), task_count: 0 }
    }

    /// Handles a mouse report on a display of resolution `res`: follows the
    /// left button, moves the pointer (kept on the screen), and paints a
    /// 9-by-9 square around it while the button is held, or else a line
    /// from where it was.  Each stroke takes the next palette colour.
    pub fn handle_mouse(&mut self, mouse: &Mouse, res: (i32, i32)) -> (r: Action)
        requires
            old(self).wf(),
            0 <= res.0 <= MAX_RESOLUTION,
            0 <= res.1 <= MAX_RESOLUTION,
        ensures
            final(self).wf(),
            final(self).is_clicking() == mouse.buttons@[0],
            final(self).pos() == pointer_after(old(self).pos(), *mouse, res),
            final(self).palette() == next_color(old(self).palette() as int),
            r == stroke(old(self).palette(), mouse.buttons@[0], old(self).pos(), final(self).pos(), res),
            final(self).turn_count() == old(self).turn_count(),
            final(self).reported_turns() == old(self).reported_turns(),
            final(self).reported_task_count() == old(self).reported_task_count(),
    {
        if self.clicking {
            self.clicking = mouse.left();
        } else if mouse.left() {
            self.clicking = true;
        }

        let prev_mouse = self.mouse_pos;

        let mut px = self.mouse_pos.0 + mouse.x as i32;
        if px < 0 {
            px = 0;
        } else if px >= res.0 {
            px = res.0 - 1;
        }
        let mut py = self.mouse_pos.1 + mouse.y as i32;
        if py < 0 {
            py = 0;
        } else if py >= res.1 {
            py = res.1 - 1;
        }
        self.mouse_pos = (px, py);

        let pcolor = self.color;
        let action = if self.clicking {
            let l = if 0 > px - 4 { 0 } else { px - 4 };
            let r = if px + 4 < res.0 - 1 { px + 4 } else { res.0 - 1 };
            let t = if 0 > py - 4 { 0 } else { py - 4 };
            let b = if py + 4 < res.1 - 1 { py + 4 } else { res.1 - 1 };
            Action::Fill(pcolor, (l, t, r - l, b - t))
        } else {
            Action::Line(pcolor, prev_mouse, self.mouse_pos)
        };

        self.color = self.color + 1;
        if self.color > 15 {
            self.color = 1;
        }
        action
    }

    /// Decides what to do for `event`; `display_timer` is the id of the
    /// timer that paces the counter report, and `task_count` the other
    /// task's counter as it reads now.
    pub fn handle_event(&mut self, event: &Event, display_timer: usize, res: (i32, i32), task_count: usize) -> (r: Action)
        requires
            old(self).wf(),
            0 <= res.0 <= MAX_RESOLUTION,
            0 <= res.1 <= MAX_RESOLUTION,
        ensures
            final(self).wf(),
            event matches Event::Device(Device::Keyboard(Keyboard::Down(s))) ==> r == Action::KeyDown(s.code) && *final(self) == *old(self),
            event matches Event::Device(Device::Keyboard(Keyboard::Press(s))) ==> r == Action::KeyPress(s.code) && *final(self) == *old(self),
            event matches Event::Device(Device::Keyboard(Keyboard::Up(s))) ==> *final(self) == *old(self) && r == Action::KeyUp(s.code,
                if s.code == 0x01 { KeyCommand::ClearWhite }
                else if s.code == 0x1C { KeyCommand::ClearColor(old(self).palette()) }
                else if s.code == 0x39 { KeyCommand::LogCounter }
                else { KeyCommand::Nothing }),
            event matches Event::Timer(id) ==> if *id == display_timer {
                &&& final(self).wf()
                &&& r == Action::ReportCounters(wrapping_diff(old(self).turn_count(), old(self).reported_turns()),
                    wrapping_diff(task_count, old(self).reported_task_count()))
                &&& final(self).reported_turns() == old(self).turn_count()
                &&& final(self).reported_task_count() == task_count
                &&& final(self).turn_count() == old(self).turn_count()
                &&& final(self).pos() == old(self).pos()
                &&& final(self).is_clicking() == old(self).is_clicking()
                &&& final(self).palette() == old(self).palette()
            } else {
                *final(self) == *old(self) && r == Action::LogTimer(*id)
            },
            event matches Event::Device(Device::Mouse(m)) ==> final(self).palette() == next_color(old(self).palette() as int)
                && final(self).is_clicking() == m.buttons@[0]
                && final(self).pos() == pointer_after(old(self).pos(), *m, res)
                && r == stroke(old(self).palette(), m.buttons@[0], old(self).pos(), final(self).pos(), res)
                && final(self).turn_count() == old(self).turn_count()
                && final(self).reported_turns() == old(self).reported_turns()
                && final(self).reported_task_count() == old(self).reported_task_count(),
    {
        match event {
            Event::Device(Device::Keyboard(Keyboard::Down(state))) => Action::KeyDown(state.code),
            Event::Device(Device::Keyboard(Keyboard::Press(state))) => Action::KeyPress(state.code),
            Event::Device(Device::Keyboard(Keyboard::Up(state))) => {
                let command = if state.code == 0x01 {
                    KeyCommand::ClearWhite
                } else if state.code == 0x1C {
                    KeyCommand::ClearColor(self.color)
                } else if state.code == 0x39 {
                    KeyCommand::LogCounter
                } else {
                    KeyCommand::Nothing
                };
                Action::KeyUp(state.code, command)
            },
            Event::Device(Device::Mouse(mouse)) => self.handle_mouse(mouse, res),
            Event::Timer(timer_id) => {
                if *timer_id == display_timer {
                    let r = Action::ReportCounters(wrapping_sub(self.turns.1, self.turns.0),
                        wrapping_sub(task_count, self.task_count));
                    self.turns.0 = self.turns.1;
                    self.task_count = task_count;
                    r
                } else {
                    Action::LogTimer(*timer_id)
                }
            },
        }
    }
}

} // verus!
