//! Mouse and focus reporting in the xterm protocols, and bracketed paste.

use vstd::prelude::*;
use crate::text::{decimal, push_decimal, push_slice, ESC};

verus! {

/// Enabled xterm mouse reporting protocol.
#[derive(Debug, Clone, Copy, PartialEq, Eq, Structural)]
pub enum MouseProtocol {
    Off,
    X10,
    Normal,
    ButtonMotion,
    AnyMotion,
}

/// Enabled xterm mouse coordinate encoding.
#[derive(Debug, Clone, Copy, PartialEq, Eq, Structural)]
pub enum MouseEncoding {
    Default,
    Sgr,
}

/// Mouse and focus reporting state needed by GUI frontends.
#[derive(Debug, Clone, Copy, PartialEq, Eq, Structural)]
pub struct MouseModes {
    pub protocol: MouseProtocol,
    pub encoding: MouseEncoding,
    pub focus_events: bool,
}

impl Default for MouseModes {
    fn default() -> (m: Self)
        ensures
            m == (MouseModes { protocol: MouseProtocol::Off, encoding: MouseEncoding::Default, focus_events: false }),
    {
        MouseModes { protocol: MouseProtocol::Off, encoding: MouseEncoding::Default, focus_events: false }
    }
}

/// Mouse button reported to a terminal application.
#[derive(Debug, Clone, Copy, PartialEq, Eq, Structural)]
pub enum MouseButton {
    Left,
    Middle,
    Right,
    WheelUp,
    WheelDown,
    Other(u8),
}

/// Mouse event kind reported to a terminal application.
#[derive(Debug, Clone, Copy, PartialEq, Eq, Structural)]
pub enum MouseEventKind {
    Press,
    Release,
    Move,
    Drag,
    Wheel,
}

/// Mouse event in terminal cell coordinates.
#[derive(Debug, Clone, Copy, PartialEq, Eq, Structural)]
pub struct TerminalMouseEvent {
    pub kind: MouseEventKind,
    pub button: Option<MouseButton>,
    pub col: usize,
    pub row: usize,
    pub shift: bool,
    pub alt: bool,
    pub ctrl: bool,
}

/// The private modes that switch mouse and focus reporting.
#[derive(Debug, Clone, Copy, PartialEq, Eq, Structural)]
pub enum CompatPrivateMode {
    X10Mouse,
    NormalMouse,
    ButtonMotionMouse,
    AnyMotionMouse,
    FocusEvents,
    SgrMouse,
    UnsupportedMouseEncoding,
}

/// Which mouse reporting modes the application has switched on.
#[derive(Debug, Clone, Copy, PartialEq, Eq, Structural)]
pub struct MouseModeState {
    pub x10: bool,
    pub normal: bool,
    pub button_motion: bool,
    pub any_motion: bool,
    pub encoding: MouseEncoding,
    pub focus_events: bool,
}

impl Default for MouseModeState {
    fn default() -> (s: Self)
        ensures
            s == (MouseModeState {
                x10: false,
                normal: false,
                button_motion: false,
                any_motion: false,
                encoding: MouseEncoding::Default,
                focus_events: false,
            }),
    {
        MouseModeState {
            x10: false,
            normal: false,
            button_motion: false,
            any_motion: false,
            encoding: MouseEncoding::Default,
            focus_events: false,
        }
    }
}

impl MouseModeState {
    /// The protocol in effect: the most inclusive one switched on.
    pub open spec fn spec_protocol(self) -> MouseProtocol {
        if self.any_motion {
            MouseProtocol::AnyMotion
        } else if self.button_motion {
            MouseProtocol::ButtonMotion
        } else if self.normal {
            MouseProtocol::Normal
        } else if self.x10 {
            MouseProtocol::X10
        } else {
            MouseProtocol::Off
        }
    }

    pub fn protocol(self) -> (p: MouseProtocol)
        ensures
            p == self.spec_protocol(),
    {
        if self.any_motion {
            MouseProtocol::AnyMotion
        } else if self.button_motion {
            MouseProtocol::ButtonMotion
        } else if self.normal {
            MouseProtocol::Normal
        } else if self.x10 {
            MouseProtocol::X10
        } else {
            MouseProtocol::Off
        }
    }

    pub fn modes(self) -> (m: MouseModes)
        ensures
            m == (MouseModes { protocol: self.spec_protocol(), encoding: self.encoding, focus_events: self.focus_events }),
    {
        MouseModes { protocol: self.protocol(), encoding: self.encoding, focus_events: self.focus_events }
    }

    /// The state after the application sets (`enabled`) or resets a private mode.
    pub open spec fn spec_apply(self, mode: CompatPrivateMode, enabled: bool) -> MouseModeState {
        match mode {
            CompatPrivateMode::X10Mouse => MouseModeState { x10: enabled, ..self },
            CompatPrivateMode::NormalMouse => MouseModeState { normal: enabled, ..self },
            CompatPrivateMode::ButtonMotionMouse => MouseModeState { button_motion: enabled, ..self },
            CompatPrivateMode::AnyMotionMouse => MouseModeState { any_motion: enabled, ..self },
            CompatPrivateMode::FocusEvents => MouseModeState { focus_events: enabled, ..self },
            CompatPrivateMode::SgrMouse => MouseModeState {
                encoding: if enabled { MouseEncoding::Sgr } else { MouseEncoding::Default },
                ..self
            },
            CompatPrivateMode::UnsupportedMouseEncoding => self,
        }
    }

    /// Set or reset one private mode.
    pub fn apply_private_mode(&mut self, mode: CompatPrivateMode, enabled: bool)
        ensures
            *final(self) == old(self).spec_apply(mode, enabled),
    {
        match mode {
            CompatPrivateMode::X10Mouse => self.x10 = enabled,
            CompatPrivateMode::NormalMouse => self.normal = enabled,
            CompatPrivateMode::ButtonMotionMouse => self.button_motion = enabled,
            CompatPrivateMode::AnyMotionMouse => self.any_motion = enabled,
            CompatPrivateMode::FocusEvents => self.focus_events = enabled,
            CompatPrivateMode::SgrMouse => {
                self.encoding = if enabled { MouseEncoding::Sgr } else { MouseEncoding::Default };
            },
            CompatPrivateMode::UnsupportedMouseEncoding => {},
        }
    }
}

/// Whether the protocol reports events of this kind.
pub open spec fn spec_event_is_reported(protocol: MouseProtocol, event: TerminalMouseEvent) -> bool {
    match protocol {
        MouseProtocol::Off => false,
        MouseProtocol::X10 => event.kind == MouseEventKind::Press || event.kind == MouseEventKind::Wheel,
        MouseProtocol::Normal => event.kind == MouseEventKind::Press || event.kind == MouseEventKind::Release
            || event.kind == MouseEventKind::Wheel,
        MouseProtocol::ButtonMotion => event.kind != MouseEventKind::Move,
        MouseProtocol::AnyMotion => true,
    }
}

pub fn event_is_reported(protocol: MouseProtocol, event: TerminalMouseEvent) -> (r: bool)
    ensures
        r == spec_event_is_reported(protocol, event),
{
    match protocol {
        MouseProtocol::Off => false,
        MouseProtocol::X10 => match event.kind {
            MouseEventKind::Press | MouseEventKind::Wheel => true,
            _ => false,
        },
        MouseProtocol::Normal => match event.kind {
            MouseEventKind::Press | MouseEventKind::Release | MouseEventKind::Wheel => true,
            _ => false,
        },
        MouseProtocol::ButtonMotion => match event.kind {
            MouseEventKind::Press | MouseEventKind::Release | MouseEventKind::Drag | MouseEventKind::Wheel => true,
            _ => false,
        },
        MouseProtocol::AnyMotion => true,
    }
}

/// Button number of a pressed, released or dragged button.
pub open spec fn spec_button_base_code(button: Option<MouseButton>) -> Option<nat> {
    match button {
        Some(MouseButton::Left) => Some(0),
        Some(MouseButton::Middle) => Some(1),
        Some(MouseButton::Right) => Some(2),
        Some(MouseButton::Other(code)) => Some(code as nat),
        _ => None,
    }
}

pub fn button_base_code(button: Option<MouseButton>) -> (r: Option<usize>)
    ensures
        match r {
            Some(c) => spec_button_base_code(button) == Some(c as nat),
            None => spec_button_base_code(button) is None,
        },
{
    match button {
        Some(MouseButton::Left) => Some(0),
        Some(MouseButton::Middle) => Some(1),
        Some(MouseButton::Right) => Some(2),
        Some(MouseButton::Other(code)) => Some(code as usize),
        _ => None,
    }
}

/// Button number of a wheel step.
pub open spec fn spec_wheel_button_code(button: Option<MouseButton>) -> Option<nat> {
    match button {
        Some(MouseButton::WheelUp) => Some(64),
        Some(MouseButton::WheelDown) => Some(65),
        _ => None,
    }
}

pub fn wheel_button_code(button: Option<MouseButton>) -> (r: Option<usize>)
    ensures
        match r {
            Some(c) => spec_wheel_button_code(button) == Some(c as nat),
            None => spec_wheel_button_code(button) is None,
        },
{
    match button {
        Some(MouseButton::WheelUp) => Some(64),
        Some(MouseButton::WheelDown) => Some(65),
        _ => None,
    }
}

/// The xterm button code of an event: the button number (3 for a release
/// of no known button, 35 for a motion without buttons, plus 32 for a drag)
/// plus 4 for Shift, 8 for Alt and 16 for Ctrl.
pub open spec fn spec_mouse_button_code(event: TerminalMouseEvent) -> Option<nat> {
    let base: Option<nat> = match event.kind {
        MouseEventKind::Release => match spec_button_base_code(event.button) {
            Some(c) => Some(c),
            None => Some(3),
        },
        MouseEventKind::Move => Some(35),
        MouseEventKind::Drag => match spec_button_base_code(event.button) {
            Some(c) => Some(c + 32),
            None => None,
        },
        MouseEventKind::Wheel => spec_wheel_button_code(event.button),
        MouseEventKind::Press => spec_button_base_code(event.button),
    };
    match base {
        Some(c) => Some(c + (if event.shift { 4nat } else { 0nat }) + (if event.alt { 8nat } else { 0nat })
            + (if event.ctrl { 16nat } else { 0nat })),
        None => None,
    }
}

pub fn mouse_button_code(event: TerminalMouseEvent) -> (r: Option<usize>)
    ensures
        match r {
            Some(c) => spec_mouse_button_code(event) == Some(c as nat),
            None => spec_mouse_button_code(event) is None,
        },
{
    let mut code: usize = match event.kind {
        MouseEventKind::Release => match button_base_code(event.button) {
            Some(c) => c,
            None => 3,
        },
        MouseEventKind::Move => 35,
        MouseEventKind::Drag => match button_base_code(event.button) {
            Some(c) => c + 32,
            None => return None,
        },
        MouseEventKind::Wheel => match wheel_button_code(event.button) {
            Some(c) => c,
            None => return None,
        },
        MouseEventKind::Press => match button_base_code(event.button) {
            Some(c) => c,
            None => return None,
        },
    };
    if event.shift {
        code = code + 4;
    }
    if event.alt {
        code = code + 8;
    }
    if event.ctrl {
        code = code + 16;
    }
    Some(code)
}

/// SGR encoding: `ESC [ < code ; col ; row M` (`m` for a release), with
/// 1-based coordinates.
pub open spec fn spec_encode_sgr_mouse_event(event: TerminalMouseEvent) -> Option<Seq<u8>> {
    match spec_mouse_button_code(event) {
        None => None,
        Some(code) => if event.col + 1 > usize::MAX || event.row + 1 > usize::MAX {
            None
        } else {
            Some(seq![ESC, 0x5bu8, 0x3cu8] + decimal(code) + seq![0x3bu8] + decimal((event.col + 1) as nat)
                + seq![0x3bu8] + decimal((event.row + 1) as nat)
                + seq![if event.kind == MouseEventKind::Release { 0x6du8 } else { 0x4du8 }])
        },
    }
}

pub fn encode_sgr_mouse_event(event: TerminalMouseEvent) -> (r: Option<Vec<u8>>)
    ensures
        match r {
            Some(v) => spec_encode_sgr_mouse_event(event) == Some(v@),
            None => spec_encode_sgr_mouse_event(event) is None,
        },
{
    let code = match mouse_button_code(event) {
        Some(c) => c,
        None => return None,
    };
    let col = match event.col.checked_add(1) {
        Some(c) => c,
        None => return None,
    };
    let row = match event.row.checked_add(1) {
        Some(r) => r,
        None => return None,
    };
    let mut out: Vec<u8> = Vec::new();
    out.push(ESC);
    out.push(0x5b);
    out.push(0x3c);
    push_decimal(&mut out, code as u64);
    out.push(0x3b);
    push_decimal(&mut out, col as u64);
    out.push(0x3b);
    push_decimal(&mut out, row as u64);
    let final_byte: u8 = match event.kind {
        MouseEventKind::Release => 0x6d,
        _ => 0x4d,
    };
    out.push(final_byte);
    proof {
        let expected = seq![ESC, 0x5bu8, 0x3cu8] + decimal(code as nat) + seq![0x3bu8] + decimal(col as nat)
            + seq![0x3bu8] + decimal(row as nat) + seq![final_byte];
        assert(out@ =~= expected);
    }
    Some(out)
}

/// Legacy encoding: `ESC [ M` and three bytes, each value plus 32; only
/// for codes and 1-based coordinates up to 223.
pub open spec fn spec_encode_default_mouse_event(event: TerminalMouseEvent) -> Option<Seq<u8>> {
    match spec_mouse_button_code(event) {
        None => None,
        Some(code) => if event.col + 1 > usize::MAX || event.row + 1 > usize::MAX {
            None
        } else if code > 223 || event.col + 1 > 223 || event.row + 1 > 223 {
            None
        } else {
            Some(seq![ESC, 0x5bu8, 0x4du8, (code + 32) as u8, (event.col + 1 + 32) as u8, (event.row + 1 + 32) as u8])
        },
    }
}

pub fn encode_default_mouse_event(event: TerminalMouseEvent) -> (r: Option<Vec<u8>>)
    ensures
        match r {
            Some(v) => spec_encode_default_mouse_event(event) == Some(v@),
            None => spec_encode_default_mouse_event(event) is None,
        },
{
    let code = match mouse_button_code(event) {
        Some(c) => c,
        None => return None,
    };
    let col = match event.col.checked_add(1) {
        Some(c) => c,
        None => return None,
    };
    let row = match event.row.checked_add(1) {
        Some(r) => r,
        None => return None,
    };
    if code > 223 || col > 223 || row > 223 {
        return None;
    }
    let v = vec![ESC, 0x5b, 0x4d, (code + 32) as u8, (col + 32) as u8, (row + 32) as u8];
    assert(v@ =~= seq![ESC, 0x5bu8, 0x4du8, (code + 32) as u8, (col + 32) as u8, (row + 32) as u8]);
    Some(v)
}

/// What the terminal writes to the application for a mouse event under
/// the given modes; nothing when the protocol does not report it.
pub open spec fn spec_encode_mouse_event(modes: MouseModes, event: TerminalMouseEvent) -> Option<Seq<u8>> {
    if !spec_event_is_reported(modes.protocol, event) {
        None
    } else {
        match modes.encoding {
            MouseEncoding::Sgr => spec_encode_sgr_mouse_event(event),
            MouseEncoding::Default => spec_encode_default_mouse_event(event),
        }
    }
}

/// Encode a mouse event for writing to the PTY.
pub fn encode_mouse_event(modes: MouseModes, event: TerminalMouseEvent) -> (r: Option<Vec<u8>>)
    ensures
        match r {
            Some(v) => spec_encode_mouse_event(modes, event) == Some(v@),
            None => spec_encode_mouse_event(modes, event) is None,
        },
{
    if !event_is_reported(modes.protocol, event) {
        return None;
    }
    match modes.encoding {
        MouseEncoding::Sgr => encode_sgr_mouse_event(event),
        MouseEncoding::Default => encode_default_mouse_event(event),
    }
}

/// `ESC [ I` for focus gained, `ESC [ O` for focus lost, when focus
/// reporting is on.
pub open spec fn spec_encode_focus_event(enabled: bool, focused: bool) -> Option<Seq<u8>> {
    if !enabled {
        None
    } else {
        Some(seq![ESC, 0x5bu8, if focused { 0x49u8 } else { 0x4fu8 }])
    }
}

/// Encode a focus in/out event for writing to the PTY.
pub fn encode_focus_event(enabled: bool, focused: bool) -> (r: Option<Vec<u8>>)
    ensures
        match r {
            Some(v) => spec_encode_focus_event(enabled, focused) == Some(v@),
            None => spec_encode_focus_event(enabled, focused) is None,
        },
{
    if !enabled {
        return None;
    }
    let v = if focused { vec![ESC, 0x5b, 0x49] } else { vec![ESC, 0x5b, 0x4f] };
    assert(v@ =~= seq![ESC, 0x5bu8, if focused { 0x49u8 } else { 0x4fu8 }]);
    Some(v)
}

/// `ESC [ 200 ~`: start of bracketed paste.
pub open spec fn bracketed_paste_start() -> Seq<u8> {
    seq![ESC, 0x5bu8, 0x32u8, 0x30u8, 0x30u8, 0x7eu8]
}

/// `ESC [ 201 ~`: end of bracketed paste.
pub open spec fn bracketed_paste_end() -> Seq<u8> {
    seq![ESC, 0x5bu8, 0x32u8, 0x30u8, 0x31u8, 0x7eu8]
}

/// Pasted bytes, wrapped in the bracketed paste markers when that mode is on.
pub fn paste_bytes(bracketed: bool, bytes: &[u8]) -> (r: Vec<u8>)
    ensures
        r@ == (if bracketed { bracketed_paste_start() + bytes@ + bracketed_paste_end() } else { bytes@ }),
{
    let mut wrapped: Vec<u8> = Vec::new();
    if !bracketed {
        push_slice(&mut wrapped, bytes);
        assert(wrapped@ =~= bytes@);
        return wrapped;
    }
    let start = vec![ESC, 0x5b, 0x32, 0x30, 0x30, 0x7e];
    let end = vec![ESC, 0x5b, 0x32, 0x30, 0x31, 0x7e];
    push_slice(&mut wrapped, start.as_slice());
    push_slice(&mut wrapped, bytes);
    push_slice(&mut wrapped, end.as_slice());
    assert(wrapped@ =~= bracketed_paste_start() + bytes@ + bracketed_paste_end());
    wrapped
}


/// With reporting off, no mouse event reaches the application; with
/// any-motion reporting, every event the encoding can express does.
pub proof fn lemma_mouse_reporting_off_is_silent(modes: MouseModes, event: TerminalMouseEvent)
    ensures
        modes.protocol == MouseProtocol::Off ==> spec_encode_mouse_event(modes, event) is None,
        modes.protocol == MouseProtocol::AnyMotion ==> spec_encode_mouse_event(modes, event) == (match modes.encoding {
            MouseEncoding::Sgr => spec_encode_sgr_mouse_event(event),
            MouseEncoding::Default => spec_encode_default_mouse_event(event),
        }),
{
}

/// Setting a mode and resetting it again restores the protocol in effect
/// when it was off before.
pub proof fn lemma_mode_set_reset(s: MouseModeState, mode: CompatPrivateMode)
    requires
        s.spec_apply(mode, false) == s,
    ensures
        s.spec_apply(mode, true).spec_apply(mode, false) == s,
{
}
/// The modifier bits of an xterm button code: each held modifier adds its
/// own bit, 4 for Shift, 8 for Alt and 16 for Ctrl, to the code of the same
/// event without modifiers; a press of the left button alone is code 0.
pub proof fn lemma_modifiers_add_their_own_bits(event: TerminalMouseEvent)
    ensures
        ({
            let plain = TerminalMouseEvent { shift: false, alt: false, ctrl: false, ..event };
            let bits: nat = (if event.shift { 4nat } else { 0nat }) + (if event.alt { 8nat } else { 0nat })
                + (if event.ctrl { 16nat } else { 0nat });
            &&& spec_mouse_button_code(event) == match spec_mouse_button_code(plain) {
                Some(code) => Some(code + bits),
                None => None::<nat>,
            }
            &&& event.kind == MouseEventKind::Press && event.button == Some(MouseButton::Left)
                ==> spec_mouse_button_code(event) == Some(bits)
        }),
{
}

} // verus!
