use lib::drivers::display::{line_points, Color, Display, Dummy};
use lib::drivers::keyboard::{KeyState, Keyboard, Modifier};
use lib::drivers::mouse::Mouse;
use lib::drivers::Device;
use lib::event::{init as event_init, Event, QUEUE_SLOTS};
use lib::kmain::{Action, KeyCommand, MainState};

#[test]
fn color_packings() {
    let c = Color::new(0xF8, 0xFC, 0xF8);
    assert_eq!(c.as_c32(), 0x00F8_FCF8);
    assert_eq!(c.as_c24(), (0xF8, 0xFC, 0xF8));
    assert_eq!(c.as_c15(), 0x7FFF);
    assert_eq!(Color::new(0x12, 0x34, 0x56).as_c32(), 0x0012_3456);
    assert_eq!(Color::new(0xFF, 0x00, 0x00).as_c15(), 0x7C00);
    assert_eq!(Color::new(0x00, 0xFF, 0x00).as_c15(), 0x03E0);
    assert_eq!(Color::new(0x00, 0x00, 0xFF).as_c15(), 0x001F);
    assert_eq!(Color::new(0xFF, 0x00, 0x00).as_c16(), 0xF800);
    assert_eq!(Color::new(0x08, 0x00, 0x00).as_c16(), 0x0800);
    assert_eq!(Color::new(0x00, 0xFF, 0x00).as_c16(), 0x07E0);
    assert_eq!(Color::new(0x00, 0x00, 0xFF).as_c16(), 0x001F);
    assert_eq!(Color::new(0xFF, 0xFF, 0xFF).as_c8(), 0xFB);
    assert_eq!(Color::new(0x01, 0x08, 0x20).as_c8(), 0x29);
}

#[test]
fn color_unpackings() {
    assert_eq!(Color::from_c32(0x00AB_CDEF), Color::new(0xAB, 0xCD, 0xEF));
    assert_eq!(Color::from_c32(0xFF12_3456), Color::new(0x12, 0x34, 0x56));
    assert_eq!(Color::from_c15(0x7FFF), Color::new(0xF8, 0xF8, 0xF8));
    assert_eq!(Color::from_c15(0x0421), Color::new(0x08, 0x08, 0x08));
    assert_eq!(Color::from_c16(0x07E0), Color::new(0x00, 0xFC, 0x00));
    assert_eq!(Color::from_c16(0xF800), Color::new(0xF8, 0x00, 0x00));
    assert_eq!(Color::from_c16(0x001F), Color::new(0x00, 0x00, 0xF8));
}

#[test]
fn color_round_trips() {
    for &(r, g, b) in &[(0u8, 0u8, 0u8), (255, 255, 255), (0x12, 0x34, 0x56), (200, 17, 99)] {
        let c = Color::new(r, g, b);
        assert_eq!(Color::from_c32(c.as_c32()), c);
        assert_eq!(Color::from_c15(c.as_c15()), Color::new(r & 0xF8, g & 0xF8, b & 0xF8));
    }
    for &(r, g, b) in &[(0x08u8, 0x00u8, 0x00u8), (0x10, 0x70, 0x30), (0xFF, 0x81, 0x07), (0x18, 0x80, 0x30)] {
        let c = Color::new(r, g, b);
        assert_eq!(Color::from_c16(c.as_c16()), Color::new(r & 0xF8, g & 0xFC, b & 0xF8));
    }
}

#[test]
fn lines_run_from_start_to_end() {
    assert_eq!(line_points((0, 0), (3, 0)), vec![(0, 0), (1, 0), (2, 0), (3, 0)]);
    assert_eq!(line_points((0, 0), (0, -2)), vec![(0, 0), (0, -1), (0, -2)]);
    assert_eq!(line_points((2, 2), (2, 2)), vec![(2, 2)]);
    assert_eq!(line_points((0, 0), (3, 3)), vec![(0, 0), (1, 1), (2, 2), (3, 3)]);
    assert_eq!(line_points((0, 0), (4, 2)), vec![(0, 0), (1, 0), (2, 1), (3, 1), (4, 2)]);
    let pts = line_points((5, -3), (-7, 11));
    assert_eq!(pts[0], (5, -3));
    assert_eq!(*pts.last().unwrap(), (-7, 11));
    for w in pts.windows(2) {
        assert!((w[1].0 - w[0].0).abs() <= 1 && (w[1].1 - w[0].1).abs() <= 1);
    }
}

#[test]
fn dummy_display_draws_nothing() {
    let d = Dummy::new();
    assert!(!Dummy::is_available());
    assert_eq!(d.resolution(), (0, 0));
    d.put(Color::new(1, 2, 3), 4, 5);
    d.clear(Color::new(0, 0, 0));
    d.line(Color::new(1, 1, 1), (0, 0), (10, 10));
}

#[test]
fn mouse_buttons_from_bits() {
    let m = Mouse::with_bits(0b0000_0101, 3, -4);
    assert!(m.left());
    assert!(!m.right());
    assert!(m.middle());
    assert_eq!((m.x, m.y), (3, -4));
    let z = Mouse::new();
    assert!(!z.left() && !z.right() && !z.middle());
    assert_eq!((z.x, z.y), (0, 0));
}

#[test]
fn modifiers() {
    let m = Modifier::none();
    assert!(!m.any());
    assert!(Modifier { left: false, right: true }.any());
    let s = KeyState::new();
    assert_eq!(s.code, 0);
    assert!(!s.modifiers.shift.any());
}

#[test]
fn event_queue_starts_empty() {
    let mut q = event_init();
    assert_eq!(QUEUE_SLOTS, 128);
    assert!(q.0.is_empty());
    q.0.push(Event::Timer(3));
    match q.0.pop() {
        Some(Event::Timer(id)) => assert_eq!(id, 3),
        _ => panic!("expected the timer event"),
    }
}

fn key(code: u16) -> KeyState {
    let mut s = KeyState::new();
    s.code = code;
    s
}

#[test]
fn main_loop_keys_and_timers() {
    let mut st = MainState::new();
    let res = (640, 480);
    assert!(matches!(st.handle_event(&Event::Device(Device::Keyboard(Keyboard::Down(key(0x1E)))), 7, res, 0), Action::KeyDown(0x1E)));
    assert!(matches!(st.handle_event(&Event::Device(Device::Keyboard(Keyboard::Press(key(0x1E)))), 7, res, 0), Action::KeyPress(0x1E)));
    assert!(matches!(st.handle_event(&Event::Device(Device::Keyboard(Keyboard::Up(key(0x01)))), 7, res, 0), Action::KeyUp(0x01, KeyCommand::ClearWhite)));
    assert!(matches!(st.handle_event(&Event::Device(Device::Keyboard(Keyboard::Up(key(0x1C)))), 7, res, 0), Action::KeyUp(0x1C, KeyCommand::ClearColor(1))));
    assert!(matches!(st.handle_event(&Event::Device(Device::Keyboard(Keyboard::Up(key(0x39)))), 7, res, 0), Action::KeyUp(0x39, KeyCommand::LogCounter)));
    assert!(matches!(st.handle_event(&Event::Device(Device::Keyboard(Keyboard::Up(key(0x10)))), 7, res, 0), Action::KeyUp(0x10, KeyCommand::Nothing)));
    assert!(matches!(st.handle_event(&Event::Timer(2), 7, res, 0), Action::LogTimer(2)));
}

#[test]
fn main_loop_counter_report() {
    let mut st = MainState::new();
    let res = (640, 480);
    for _ in 0..3 {
        st.turn();
    }
    assert_eq!(st.turns(), 3);
    assert!(matches!(st.handle_event(&Event::Timer(7), 7, res, 5), Action::ReportCounters(3, 5)));
    st.turn();
    assert!(matches!(st.handle_event(&Event::Timer(7), 7, res, 5), Action::ReportCounters(1, 0)));
    // The other task's counter wraps round.
    assert!(matches!(st.handle_event(&Event::Timer(7), 7, res, 2), Action::ReportCounters(0, d) if d == 2usize.wrapping_sub(5)));
    assert!(matches!(st.handle_event(&Event::Timer(2), 7, res, 9), Action::LogTimer(2)));
}

#[test]
fn main_loop_mouse_strokes() {
    let mut st = MainState::new();
    let res = (640, 480);
    // Without a button: a line from the old to the new pointer position.
    let a = st.handle_mouse(&Mouse::with_bits(0, 10, 20), res);
    assert!(matches!(a, Action::Line(1, (0, 0), (10, 20))));
    // The pointer stays on the screen.
    let a = st.handle_mouse(&Mouse::with_bits(0, -100, 127), res);
    assert!(matches!(a, Action::Line(2, (10, 20), (0, 147))));
    // With the left button: a 9-by-9 square cut to the screen.
    let a = st.handle_mouse(&Mouse::with_bits(1, 2, 0), res);
    assert!(matches!(a, Action::Fill(3, (0, 143, 6, 8))));
    // The palette goes round from 15 back to 1.
    let mut last = 0u8;
    for _ in 0..12 {
        if let Action::Line(c, _, _) = st.handle_mouse(&Mouse::with_bits(0, 0, 0), res) {
            last = c;
        }
    }
    assert_eq!(last, 15);
    let a = st.handle_mouse(&Mouse::with_bits(0, 0, 0), res);
    assert!(matches!(a, Action::Line(1, _, _)));
}
