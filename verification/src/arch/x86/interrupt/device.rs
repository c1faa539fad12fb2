use vstd::prelude::*;
use crate::drivers::Device;
use crate::drivers::keyboard::{KeyState, Keyboard};
use crate::drivers::mouse::{Mouse, bit_set};
use crate::event::{Event, EventQueue};
use crate::lists::ring_buffer::ring_pushed;

verus! {

/// The byte the keyboard sends to acknowledge a command.
pub const KEYBOARD_ACK: u8 = 0xFA;

/// The key event for scan code `code` when the previous code was `prev`:
/// none for an acknowledgement, a repeat (`Press`) when a make code equals
/// the previous code, a `Down` for another make code, an `Up` for a break code.
pub open spec fn key_event_kind(code: u8, prev: u16) -> int {
    if code == KEYBOARD_ACK {
        0
    } else if code & 0x80 == 0 && (code & 0x7F) as u16 == prev {
        1
    } else if code & 0x80 == 0 {
        2
    } else {
        3
    }
}

/// How a scan code is reported, stated by value: an acknowledgement is
/// dropped; a make code (below 0x80) is a repeat exactly when it equals the
/// previous scan code, and a key-down otherwise, so that after a break code
/// the next make code is always a new key-down; any other code is a key-up.
pub proof fn lemma_key_event_kinds(code: u8, prev: u16)
    ensures
        code == KEYBOARD_ACK ==> key_event_kind(code, prev) == 0,
        code != KEYBOARD_ACK && code < 0x80 ==> (key_event_kind(code, prev) == 1 <==> code as u16 == prev),
        code != KEYBOARD_ACK && code < 0x80 && code as u16 != prev ==> key_event_kind(code, prev) == 2,
        code != KEYBOARD_ACK && code >= 0x80 ==> key_event_kind(code, prev) == 3,
        prev >= 0x80 && code < 0x80 ==> key_event_kind(code, prev) == 2,
{
    assert(code < 0x80 ==> code & 0x80 == 0 && code & 0x7F == code) by (bit_vector);
    assert(code >= 0x80 ==> code & 0x80 != 0) by (bit_vector);
}

/// Handles one byte from the keyboard: records it as the current scan code
/// and queues the key event it stands for, if any.
pub fn keyboard_handler(state: &mut KeyState, queue: &mut EventQueue, data: u8)
    requires
        old(queue).0.wf(),
    ensures
        final(state).code == data as u16,
        final(state).modifiers == old(state).modifiers,
        final(queue).0.wf(),
        final(queue).0.capacity() == old(queue).0.capacity(),
        key_event_kind(data, old(state).code) == 0 ==> final(queue).0@ == old(queue).0@,
        key_event_kind(data, old(state).code) == 1 ==> final(queue).0@
            == ring_pushed(old(queue).0@, Event::Device(Device::Keyboard(Keyboard::Press(*final(state)))), old(queue).0.capacity()),
        key_event_kind(data, old(state).code) == 2 ==> final(queue).0@
            == ring_pushed(old(queue).0@, Event::Device(Device::Keyboard(Keyboard::Down(*final(state)))), old(queue).0.capacity()),
        key_event_kind(data, old(state).code) == 3 ==> final(queue).0@
            == ring_pushed(old(queue).0@, Event::Device(Device::Keyboard(Keyboard::Up(*final(state)))), old(queue).0.capacity()),
{
    let prev_code = state.code;
    state.code = data as u16;
    let code = state.code;
    let key = if code == 0xFA {
        return;
    } else if code & 0x80 == 0 && code & 0x7F == prev_code {
        Keyboard::Press(*state)
    } else if code & 0x80 == 0 {
        Keyboard::Down(*state)
    } else {
        Keyboard::Up(*state)
    };
    proof {
        let c = data as u16;
        assert((c & 0x80 == 0) == (data & 0x80 == 0)) by (bit_vector) requires c == data as u16;
        assert((c & 0x7F) == (data & 0x7F) as u16) by (bit_vector) requires c == data as u16;
    }
    queue.0.push(Event::Device(Device::Keyboard(key)));
}

/// Progress through the three bytes of a mouse packet.
#[derive(Clone, Copy)]
pub enum Stage {
    /// Waiting for the flags byte.
    First,
    /// Got the flags, waiting for the x movement.
    Second(u8),
    /// Got the flags and the x movement, waiting for the y movement.
    Third(u8, i8),
}

/// Handles one byte from the mouse.  A first byte without bit 3 set is
/// dropped (out of sync); after the third byte the packet is queued as a
/// mouse event with the y movement turned upside down.
pub fn mouse_handler(stage: &mut Stage, queue: &mut EventQueue, data: u8)
    requires
        old(queue).0.wf(),
        old(stage) matches Stage::Third(_, _) ==> data != 0x80,
    ensures
        final(queue).0.wf(),
        final(queue).0.capacity() == old(queue).0.capacity(),
        match *old(stage) {
            Stage::First => final(queue).0@ == old(queue).0@
                && if data & 0x08 == 0 { *final(stage) matches Stage::First } else { *final(stage) matches Stage::Second(f) && f == data },
            Stage::Second(flags) => final(queue).0@ == old(queue).0@
                && (*final(stage) matches Stage::Third(f, x) && f == flags && x == data as i8),
            Stage::Third(flags, x) => (*final(stage) matches Stage::First)
                && exists|m: Mouse| {
                    &&& m.x == x
                    &&& m.y == -(data as i8)
                    &&& forall|i: int| 0 <= i < 8 ==> m.buttons@[i] == bit_set(flags, i as u8)
                    &&& final(queue).0@ == ring_pushed(old(queue).0@, Event::Device(Device::Mouse(m)), old(queue).0.capacity())
                },
        },
{
    match *stage {
        Stage::First => {
            if data & 0x08 == 0 {
                *stage = Stage::First;
            } else {
                *stage = Stage::Second(data);
            }
        },
        Stage::Second(flags) => {
            *stage = Stage::Third(flags, data as i8);
        },
        Stage::Third(flags, x) => {
            let y = data as i8;
            proof { assert(data != 0x80u8 ==> (data as i8) != -128i8) by (bit_vector); }
            let mouse = Mouse::with_bits(flags, x, -y);
            queue.0.push(Event::Device(Device::Mouse(mouse)));
            *stage = Stage::First;
        },
    }
}

/// The PS/2 controller's status says a byte is waiting to be read.
pub fn can_read(status: u8) -> (r: bool)
    ensures
        r == (status & 1 != 0),
{
    status & 1 != 0
}

/// The PS/2 controller's status says it takes a byte: both buffers empty.
pub fn can_write(status: u8) -> (r: bool)
    ensures
        r == (status & 3 == 0),
{
    status & 3 == 0
}

/// Where the start-up of the mouse stands.
#[derive(Clone, Copy, PartialEq, Eq, Structural, Debug)]
pub enum MouseInit {
    /// Nothing sent yet.
    Start,
    /// The read-configuration command is sent.
    ConfigRequested,
    /// Waiting for the configuration byte.
    AwaitConfig,
    /// Reading the configuration byte.
    ReadConfig,
    /// The write-configuration command is sent; holds the configuration.
    ConfigWriteRequested(u8),
    /// Waiting to send the new configuration; holds the old one.
    AwaitConfigWrite(u8),
    /// The new configuration is sent.
    ConfigWritten,
    /// Waiting for a reply to the configuration, which is dropped.
    AwaitConfigReply,
    /// Dropping the reply.
    DropReply,
    /// The mouse-command prefix is sent.
    MouseRequested,
    /// Waiting to send the enable command.
    AwaitEnable,
    /// The enable command is sent.
    EnableSent,
    /// Waiting for the acknowledgement.
    AwaitAck,
    /// Reading the acknowledgement.
    ReadAck,
    /// Finished: whether the mouse is on.
    Done(bool),
}

/// What the start-up asks to be done next.
#[derive(Clone, Copy, PartialEq, Eq, Structural, Debug)]
pub enum MouseInitAction {
    /// Write `value` to `port`.
    Out(u16, u8),
    /// Wait until a byte can be read; report whether one came in time.
    WaitRead,
    /// Wait until a byte can be written; report whether it could in time.
    WaitWrite,
    /// Read the data port and report the byte.
    In,
    /// Nothing more: the start-up is over.
    Finish(bool),
}

/// What happened since the last action.
#[derive(Clone, Copy, PartialEq, Eq, Structural, Debug)]
pub enum MouseInitEvent {
    /// The last action was a write, or there was none.
    Sent,
    /// The wait asked for ended: `true` when it succeeded in time.
    Waited(bool),
    /// The byte read from the data port.
    Data(u8),
}

/// The configuration byte with the mouse clock on and both interrupts on.
pub open spec fn mouse_config(old_config: u8) -> u8 {
    (old_config & !0x30u8) | 0x03u8
}

/// One step of the mouse start-up: read the controller configuration,
/// write it back with the mouse clock and both interrupts enabled
/// (dropping a reply if one comes), then send the mouse its enable
/// command and read its acknowledgement. Any wait that times out ends the
/// start-up in failure; an event that does not fit the state leaves the
/// state as it is and asks for a wait for input.
pub open spec fn mouse_init_next(s: MouseInit, e: MouseInitEvent) -> (MouseInit, MouseInitAction) {
    match (s, e) {
        (MouseInit::Start, MouseInitEvent::Sent) => (MouseInit::ConfigRequested, MouseInitAction::Out(0x64, 0x20)),
        (MouseInit::ConfigRequested, MouseInitEvent::Sent) => (MouseInit::AwaitConfig, MouseInitAction::WaitRead),
        (MouseInit::AwaitConfig, MouseInitEvent::Waited(ok)) =>
            if ok { (MouseInit::ReadConfig, MouseInitAction::In) } else { (MouseInit::Done(false), MouseInitAction::Finish(false)) },
        (MouseInit::ReadConfig, MouseInitEvent::Data(d)) => (MouseInit::ConfigWriteRequested(d), MouseInitAction::Out(0x64, 0x60)),
        (MouseInit::ConfigWriteRequested(d), MouseInitEvent::Sent) => (MouseInit::AwaitConfigWrite(d), MouseInitAction::WaitWrite),
        (MouseInit::AwaitConfigWrite(d), MouseInitEvent::Waited(ok)) =>
            if ok { (MouseInit::ConfigWritten, MouseInitAction::Out(0x60, mouse_config(d))) } else { (MouseInit::Done(false), MouseInitAction::Finish(false)) },
        (MouseInit::ConfigWritten, MouseInitEvent::Sent) => (MouseInit::AwaitConfigReply, MouseInitAction::WaitRead),
        (MouseInit::AwaitConfigReply, MouseInitEvent::Waited(ok)) =>
            if ok { (MouseInit::DropReply, MouseInitAction::In) } else { (MouseInit::MouseRequested, MouseInitAction::Out(0x64, 0xD4)) },
        (MouseInit::DropReply, MouseInitEvent::Data(_)) => (MouseInit::MouseRequested, MouseInitAction::Out(0x64, 0xD4)),
        (MouseInit::MouseRequested, MouseInitEvent::Sent) => (MouseInit::AwaitEnable, MouseInitAction::WaitWrite),
        (MouseInit::AwaitEnable, MouseInitEvent::Waited(ok)) =>
            if ok { (MouseInit::EnableSent, MouseInitAction::Out(0x60, 0xF4)) } else { (MouseInit::Done(false), MouseInitAction::Finish(false)) },
        (MouseInit::EnableSent, MouseInitEvent::Sent) => (MouseInit::AwaitAck, MouseInitAction::WaitRead),
        (MouseInit::AwaitAck, MouseInitEvent::Waited(ok)) =>
            if ok { (MouseInit::ReadAck, MouseInitAction::In) } else { (MouseInit::Done(false), MouseInitAction::Finish(false)) },
        (MouseInit::ReadAck, MouseInitEvent::Data(_)) => (MouseInit::Done(true), MouseInitAction::Finish(true)),
        (MouseInit::Done(ok), _) => (MouseInit::Done(ok), MouseInitAction::Finish(ok)),
        _ => (s, MouseInitAction::WaitRead),
    }
}

impl MouseInit {
    /// The next state and the action it asks for, after event `e`.
    pub fn step(self, e: MouseInitEvent) -> (r: (MouseInit, MouseInitAction))
        ensures
            r == mouse_init_next(self, e),
    {
        match (self, e) {
            (MouseInit::Start, MouseInitEvent::Sent) => (MouseInit::ConfigRequested, MouseInitAction::Out(0x64, 0x20)),
            (MouseInit::ConfigRequested, MouseInitEvent::Sent) => (MouseInit::AwaitConfig, MouseInitAction::WaitRead),
            (MouseInit::AwaitConfig, MouseInitEvent::Waited(ok)) =>
                if ok { (MouseInit::ReadConfig, MouseInitAction::In) } else { (MouseInit::Done(false), MouseInitAction::Finish(false)) },
            (MouseInit::ReadConfig, MouseInitEvent::Data(d)) => (MouseInit::ConfigWriteRequested(d), MouseInitAction::Out(0x64, 0x60)),
            (MouseInit::ConfigWriteRequested(d), MouseInitEvent::Sent) => (MouseInit::AwaitConfigWrite(d), MouseInitAction::WaitWrite),
            (MouseInit::AwaitConfigWrite(d), MouseInitEvent::Waited(ok)) =>
                if ok { (MouseInit::ConfigWritten, MouseInitAction::Out(0x60, (d & !0x30u8) | 0x03u8)) } else { (MouseInit::Done(false), MouseInitAction::Finish(false)) },
            (MouseInit::ConfigWritten, MouseInitEvent::Sent) => (MouseInit::AwaitConfigReply, MouseInitAction::WaitRead),
            (MouseInit::AwaitConfigReply, MouseInitEvent::Waited(ok)) =>
                if ok { (MouseInit::DropReply, MouseInitAction::In) } else { (MouseInit::MouseRequested, MouseInitAction::Out(0x64, 0xD4)) },
            (MouseInit::DropReply, MouseInitEvent::Data(_)) => (MouseInit::MouseRequested, MouseInitAction::Out(0x64, 0xD4)),
            (MouseInit::MouseRequested, MouseInitEvent::Sent) => (MouseInit::AwaitEnable, MouseInitAction::WaitWrite),
            (MouseInit::AwaitEnable, MouseInitEvent::Waited(ok)) =>
                if ok { (MouseInit::EnableSent, MouseInitAction::Out(0x60, 0xF4)) } else { (MouseInit::Done(false), MouseInitAction::Finish(false)) },
            (MouseInit::EnableSent, MouseInitEvent::Sent) => (MouseInit::AwaitAck, MouseInitAction::WaitRead),
            (MouseInit::AwaitAck, MouseInitEvent::Waited(ok)) =>
                if ok { (MouseInit::ReadAck, MouseInitAction::In) } else { (MouseInit::Done(false), MouseInitAction::Finish(false)) },
            (MouseInit::ReadAck, MouseInitEvent::Data(_)) => (MouseInit::Done(true), MouseInitAction::Finish(true)),
            (MouseInit::Done(ok), _) => (MouseInit::Done(ok), MouseInitAction::Finish(ok)),
            _ => (self, MouseInitAction::WaitRead),
        }
    }
}

/// When every wait succeeds, the start-up sends the controller exactly:
/// read-configuration, write-configuration with the mouse clock and both
/// interrupts enabled, the mouse prefix and the enable command, reading the
/// configuration, the reply and the acknowledgement in between, and ends
/// in success, whatever bytes it reads.
pub proof fn lemma_mouse_init_success(config: u8, reply: u8, ack: u8)
    ensures ({
        let (s1, a1) = mouse_init_next(MouseInit::Start, MouseInitEvent::Sent);
        let (s2, a2) = mouse_init_next(s1, MouseInitEvent::Sent);
        let (s3, a3) = mouse_init_next(s2, MouseInitEvent::Waited(true));
        let (s4, a4) = mouse_init_next(s3, MouseInitEvent::Data(config));
        let (s5, a5) = mouse_init_next(s4, MouseInitEvent::Sent);
        let (s6, a6) = mouse_init_next(s5, MouseInitEvent::Waited(true));
        let (s7, a7) = mouse_init_next(s6, MouseInitEvent::Sent);
        let (s8, a8) = mouse_init_next(s7, MouseInitEvent::Waited(true));
        let (s9, a9) = mouse_init_next(s8, MouseInitEvent::Data(reply));
        let (s10, a10) = mouse_init_next(s9, MouseInitEvent::Sent);
        let (s11, a11) = mouse_init_next(s10, MouseInitEvent::Waited(true));
        let (s12, a12) = mouse_init_next(s11, MouseInitEvent::Sent);
        let (s13, a13) = mouse_init_next(s12, MouseInitEvent::Waited(true));
        let (s14, a14) = mouse_init_next(s13, MouseInitEvent::Data(ack));
        &&& a1 == MouseInitAction::Out(0x64, 0x20)
        &&& a2 == MouseInitAction::WaitRead
        &&& a3 == MouseInitAction::In
        &&& a4 == MouseInitAction::Out(0x64, 0x60)
        &&& a5 == MouseInitAction::WaitWrite
        &&& a6 == MouseInitAction::Out(0x60, mouse_config(config))
        &&& a7 == MouseInitAction::WaitRead
        &&& a8 == MouseInitAction::In
        &&& a9 == MouseInitAction::Out(0x64, 0xD4)
        &&& a10 == MouseInitAction::WaitWrite
        &&& a11 == MouseInitAction::Out(0x60, 0xF4)
        &&& a12 == MouseInitAction::WaitRead
        &&& a13 == MouseInitAction::In
        &&& a14 == MouseInitAction::Finish(true)
        &&& s14 == MouseInit::Done(true)
    }),
{
}

/// Once the controller takes the new configuration, the byte sent to its
/// data port is the one read back with bit 0 (keyboard interrupt) and bit 1
/// (mouse interrupt) set, bits 4 and 5 (keyboard and mouse clock disable)
/// clear, and every other bit as it was read.
pub proof fn lemma_mouse_config_written(c: u8)
    ensures
        mouse_init_next(MouseInit::AwaitConfigWrite(c), MouseInitEvent::Waited(true)).0 == MouseInit::ConfigWritten,
        mouse_init_next(MouseInit::AwaitConfigWrite(c), MouseInitEvent::Waited(true)).1 matches MouseInitAction::Out(port, v)
            && port == 0x60 && v & 0x03 == 0x03 && v & 0x30 == 0 && v & 0xCC == c & 0xCC,
{
    let v = mouse_config(c);
    assert(v & 0x03 == 0x03 && v & 0x30 == 0 && v & 0xCC == c & 0xCC) by (bit_vector)
        requires v == (c & !0x30u8) | 0x03u8;
}

/// The start-up can only end in failure through a wait that timed out, and
/// once over it stays over, reporting the same outcome.
pub proof fn lemma_mouse_init_done(s: MouseInit, e: MouseInitEvent)
    ensures
        s matches MouseInit::Done(ok) ==> mouse_init_next(s, e) == (s, MouseInitAction::Finish(ok)),
        mouse_init_next(s, e).1 == MouseInitAction::Finish(false) && !(s matches MouseInit::Done(_))
            ==> e == MouseInitEvent::Waited(false),
{
}

} // verus!
