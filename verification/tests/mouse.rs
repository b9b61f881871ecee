use knightty::term::compat::{plan_compat_input, CompatAction, CompatStep};
use knightty::term::mouse::{
    encode_focus_event, encode_mouse_event, paste_bytes, MouseButton, MouseEncoding, MouseEventKind,
    MouseModeState, MouseModes, MouseProtocol, TerminalMouseEvent,
};

/// The mouse and focus reporting state a terminal builds from its output.
struct Reporting {
    state: MouseModeState,
}

impl Reporting {
    fn new() -> Self {
        Reporting { state: MouseModeState::default() }
    }

    fn feed(&mut self, bytes: &[u8]) {
        let plan = plan_compat_input(bytes);
        assert_eq!(plan.consumed, bytes.len());
        for step in plan.steps {
            if let CompatStep::Action(CompatAction::PrivateModes { modes, enabled }) = step {
                for mode in modes {
                    self.state.apply_private_mode(mode, enabled);
                }
            }
        }
    }

    fn mouse_modes(&self) -> MouseModes {
        self.state.modes()
    }

    fn encode_mouse_event(&self, event: TerminalMouseEvent) -> Option<Vec<u8>> {
        encode_mouse_event(self.mouse_modes(), event)
    }

    fn encode_focus_event(&self, focused: bool) -> Option<Vec<u8>> {
        encode_focus_event(self.state.focus_events, focused)
    }
}

fn mouse_event(kind: MouseEventKind, button: Option<MouseButton>) -> TerminalMouseEvent {
    TerminalMouseEvent {
        kind,
        button,
        col: 2,
        row: 1,
        shift: false,
        alt: false,
        ctrl: false,
    }
}

#[test]
fn bracketed_paste_wraps_payload_only_when_mode_is_enabled_on_parts() {
    assert_eq!(paste_bytes(false, b"hello"), b"hello");
    assert_eq!(paste_bytes(true, b"hello"), b"\x1b[200~hello\x1b[201~");
    assert_eq!(paste_bytes(false, b"hello"), b"hello");
}

#[test]
fn sgr_mouse_mode_can_be_enabled_and_disabled_on_parts() {
    let mut term = Reporting::new();

    assert_eq!(term.mouse_modes().encoding, MouseEncoding::Default);
    term.feed(b"\x1b[?1006h");
    assert_eq!(term.mouse_modes().encoding, MouseEncoding::Sgr);

    term.feed(b"\x1b[?1006l");
    assert_eq!(term.mouse_modes().encoding, MouseEncoding::Default);
}

#[test]
fn normal_mouse_reporting_can_be_enabled_on_parts() {
    let mut term = Reporting::new();

    term.feed(b"\x1b[?1000h");

    assert_eq!(
        term.mouse_modes(),
        MouseModes {
            protocol: MouseProtocol::Normal,
            encoding: MouseEncoding::Default,
            focus_events: false,
        }
    );
}

#[test]
fn button_motion_mouse_reporting_has_priority_over_normal_on_parts() {
    let mut term = Reporting::new();

    term.feed(b"\x1b[?1000h");
    term.feed(b"\x1b[?1002h");

    assert_eq!(term.mouse_modes().protocol, MouseProtocol::ButtonMotion);

    term.feed(b"\x1b[?1002l");
    assert_eq!(term.mouse_modes().protocol, MouseProtocol::Normal);
}

#[test]
fn any_motion_mouse_reporting_has_priority_over_button_motion_on_parts() {
    let mut term = Reporting::new();

    term.feed(b"\x1b[?1000;1002h");
    term.feed(b"\x1b[?1003h");

    assert_eq!(term.mouse_modes().protocol, MouseProtocol::AnyMotion);

    term.feed(b"\x1b[?1003l");
    assert_eq!(term.mouse_modes().protocol, MouseProtocol::ButtonMotion);
}

#[test]
fn focus_event_mode_can_be_enabled_and_disabled_on_parts() {
    let mut term = Reporting::new();

    assert!(!term.state.focus_events);
    term.feed(b"\x1b[?1004h");
    assert!(term.state.focus_events);

    term.feed(b"\x1b[?1004l");
    assert!(!term.state.focus_events);
}

#[test]
fn sgr_left_press_uses_one_based_coordinates_on_parts() {
    let mut term = Reporting::new();
    term.feed(b"\x1b[?1000;1006h");

    assert_eq!(
        term.encode_mouse_event(mouse_event(MouseEventKind::Press, Some(MouseButton::Left))),
        Some(b"\x1b[<0;3;2M".to_vec())
    );
}

#[test]
fn sgr_left_release_uses_lowercase_final_byte_on_parts() {
    let mut term = Reporting::new();
    term.feed(b"\x1b[?1000;1006h");

    assert_eq!(
        term.encode_mouse_event(mouse_event(MouseEventKind::Release, Some(MouseButton::Left))),
        Some(b"\x1b[<0;3;2m".to_vec())
    );
}

#[test]
fn sgr_wheel_up_and_down_use_wheel_button_codes_on_parts() {
    let mut term = Reporting::new();
    term.feed(b"\x1b[?1000;1006h");

    assert_eq!(
        term.encode_mouse_event(mouse_event(MouseEventKind::Wheel, Some(MouseButton::WheelUp))),
        Some(b"\x1b[<64;3;2M".to_vec())
    );
    assert_eq!(
        term.encode_mouse_event(mouse_event(MouseEventKind::Wheel, Some(MouseButton::WheelDown))),
        Some(b"\x1b[<65;3;2M".to_vec())
    );
}

#[test]
fn sgr_modifiers_are_added_to_button_code_on_parts() {
    let mut term = Reporting::new();
    term.feed(b"\x1b[?1000;1006h");

    assert_eq!(
        term.encode_mouse_event(TerminalMouseEvent {
            shift: true,
            alt: true,
            ctrl: true,
            ..mouse_event(MouseEventKind::Press, Some(MouseButton::Left))
        }),
        Some(b"\x1b[<28;3;2M".to_vec())
    );
}

#[test]
fn focus_events_encode_only_when_enabled_on_parts() {
    let mut term = Reporting::new();

    assert_eq!(term.encode_focus_event(true), None);
    assert_eq!(term.encode_focus_event(false), None);

    term.feed(b"\x1b[?1004h");
    assert_eq!(term.encode_focus_event(true), Some(b"\x1b[I".to_vec()));
    assert_eq!(term.encode_focus_event(false), Some(b"\x1b[O".to_vec()));
}

#[test]
fn mouse_event_encoding_returns_none_when_reporting_is_off_on_parts() {
    let term = Reporting::new();

    assert_eq!(
        term.encode_mouse_event(mouse_event(MouseEventKind::Press, Some(MouseButton::Left))),
        None
    );
}

#[test]
fn motion_reporting_respects_enabled_protocol_on_parts() {
    let mut term = Reporting::new();
    term.feed(b"\x1b[?1000;1006h");
    assert_eq!(term.encode_mouse_event(mouse_event(MouseEventKind::Move, None)), None);

    term.feed(b"\x1b[?1003h");
    assert_eq!(
        term.encode_mouse_event(mouse_event(MouseEventKind::Move, None)),
        Some(b"\x1b[<35;3;2M".to_vec())
    );
}
