//! Keyboard input encoding, shortcuts, scrollback search and the Kitty
//! upload checks that the input router applies.

use vstd::prelude::*;
use vstd::string::{StringSliceAdditionalSpecFns, StrSliceExecFns};
use crate::proto::kitty::{KittyErrorCode, KittyProtocolError, MAX_KITTY_CHUNK_BYTES};
use crate::shell::{ascii_lower, lower_all, lower_char, to_ascii_lowercase};
use crate::term::grid::{chunks_of, Cell, GridSnapshot};
use crate::term::mouse::MouseButton;
use crate::text::{push_slice, same_chars};
use crate::ui::inline_image::InlineImageError;

verus! {

// ---------------------------------------------------------------------
// Keys.
// ---------------------------------------------------------------------

/// Modifier keys held with a key press.
#[derive(Clone, Copy, Debug, Eq, PartialEq, Structural)]
pub struct Modifiers {
    pub shift: bool,
    pub control: bool,
    pub alt: bool,
    pub super_key: bool,
}

/// Named keys that the terminal translates.
#[derive(Clone, Copy, Debug, Eq, PartialEq, Structural)]
pub enum NamedKey {
    Enter,
    Backspace,
    Tab,
    Escape,
    Space,
    ArrowUp,
    ArrowDown,
    ArrowRight,
    ArrowLeft,
    Home,
    End,
    PageUp,
    PageDown,
    Insert,
    Delete,
    F1,
    F2,
    F3,
    F4,
    F5,
    F6,
    F7,
    F8,
    F9,
    F10,
    F11,
    F12,
    Other,
}

/// A logical key: a named key, the text a character key produces, or a
/// key the window system could not identify.
#[derive(Clone, Debug, Eq, PartialEq)]
pub enum Key {
    Named(NamedKey),
    Character(String),
    Unidentified,
}

/// Pointer buttons as the window system reports them.
#[derive(Clone, Copy, Debug, Eq, PartialEq, Structural)]
pub enum PointerButton {
    Left,
    Right,
    Middle,
    Back,
    Forward,
    Other(u16),
}

/// Text that a plain key press types: a character key's text, or a space
/// for the space bar; nothing while Control, Alt or Super is held.
pub open spec fn spec_keyboard_text_input(key: Key, text: Option<Seq<char>>, modifiers: Modifiers) -> Option<Seq<char>> {
    if modifiers.control || modifiers.alt || modifiers.super_key {
        None
    } else {
        spec_alt_text_input(key, text)
    }
}

/// Text of a character key or the space bar, whatever the modifiers.
pub open spec fn spec_alt_text_input(key: Key, text: Option<Seq<char>>) -> Option<Seq<char>> {
    match key {
        Key::Character(_) => match text {
            Some(t) => if t.len() > 0 { Some(t) } else { None },
            None => None,
        },
        Key::Named(NamedKey::Space) => match text {
            Some(t) => if t.len() > 0 { Some(t) } else { Some(" "@) },
            None => Some(" "@),
        },
        _ => None,
    }
}

pub open spec fn str_view<'a>(text: Option<&'a str>) -> Option<Seq<char>> {
    match text {
        Some(t) => Some(t@),
        None => None,
    }
}

fn keyboard_alt_text_input<'a>(key: &Key, text: Option<&'a str>) -> (r: Option<&'a str>)
    ensures
        str_view(r) == spec_alt_text_input(*key, str_view(text)),
{
    match key {
        Key::Character(_) => match text {
            Some(t) => if t.unicode_len() > 0 { Some(t) } else { None },
            None => None,
        },
        Key::Named(NamedKey::Space) => match text {
            Some(t) => if t.unicode_len() > 0 { Some(t) } else { Some(" ") },
            None => Some(" "),
        },
        _ => None,
    }
}

pub fn keyboard_text_input<'a>(key: &Key, text: Option<&'a str>, modifiers: Modifiers) -> (r: Option<&'a str>)
    ensures
        str_view(r) == spec_keyboard_text_input(*key, str_view(text), modifiers),
{
    if modifiers.control || modifiers.alt || modifiers.super_key {
        return None;
    }
    keyboard_alt_text_input(key, text)
}

/// The control code Control+`c` sends: letters give 1 to 26, `@` and space
/// give NUL, and `[ \ ] ^ _` give 0x1b to 0x1f.
pub open spec fn spec_control_byte(c: char) -> Option<u8> {
    if 'a' <= c <= 'z' {
        Some((c as int - 'a' as int + 1) as u8)
    } else if 'A' <= c <= 'Z' {
        Some((c as int - 'A' as int + 1) as u8)
    } else if c == '@' || c == ' ' {
        Some(0u8)
    } else if c == '[' {
        Some(0x1bu8)
    } else if c == '\\' {
        Some(0x1cu8)
    } else if c == ']' {
        Some(0x1du8)
    } else if c == '^' {
        Some(0x1eu8)
    } else if c == '_' {
        Some(0x1fu8)
    } else {
        None
    }
}

/// The byte Control with `key` sends: NUL for the space bar, the control
/// code of a key that types exactly one character.
pub open spec fn spec_control_character_bytes(key: Key) -> Option<Seq<u8>> {
    match key {
        Key::Named(NamedKey::Space) => Some(seq![0u8]),
        Key::Character(value) => if value@.len() == 1 {
            match spec_control_byte(value@[0]) {
                Some(b) => Some(seq![b]),
                None => None,
            }
        } else {
            None
        },
        _ => None,
    }
}

pub open spec fn bytes_view(r: Option<Vec<u8>>) -> Option<Seq<u8>> {
    match r {
        Some(bytes) => Some(bytes@),
        None => None,
    }
}

fn control_byte(c: char) -> (r: Option<u8>)
    ensures
        r == spec_control_byte(c),
{
    if 'a' <= c && c <= 'z' {
        Some((c as u32 - 'a' as u32 + 1) as u8)
    } else if 'A' <= c && c <= 'Z' {
        Some((c as u32 - 'A' as u32 + 1) as u8)
    } else if c == '@' || c == ' ' {
        Some(0)
    } else if c == '[' {
        Some(0x1b)
    } else if c == '\\' {
        Some(0x1c)
    } else if c == ']' {
        Some(0x1d)
    } else if c == '^' {
        Some(0x1e)
    } else if c == '_' {
        Some(0x1f)
    } else {
        None
    }
}

pub fn control_character_bytes(key: &Key) -> (r: Option<Vec<u8>>)
    ensures
        bytes_view(r) == spec_control_character_bytes(*key),
{
    match key {
        Key::Named(NamedKey::Space) => Some(vec![0x00u8]),
        Key::Character(value) => {
            if value.as_str().unicode_len() != 1 {
                return None;
            }
            match control_byte(value.as_str().get_char(0)) {
                Some(b) => Some(vec![b]),
                None => None,
            }
        },
        _ => None,
    }
}

/// The escape sequence a named key sends.
pub open spec fn spec_named_key_bytes(key: NamedKey) -> Option<Seq<u8>> {
    match key {
        NamedKey::Enter => Some(seq![0x0du8]),
        NamedKey::Backspace => Some(seq![0x7fu8]),
        NamedKey::Tab => Some(seq![0x09u8]),
        NamedKey::Escape => Some(seq![0x1bu8]),
        NamedKey::ArrowUp => Some(seq![0x1bu8, 0x5bu8, 0x41u8]),
        NamedKey::ArrowDown => Some(seq![0x1bu8, 0x5bu8, 0x42u8]),
        NamedKey::ArrowRight => Some(seq![0x1bu8, 0x5bu8, 0x43u8]),
        NamedKey::ArrowLeft => Some(seq![0x1bu8, 0x5bu8, 0x44u8]),
        NamedKey::Home => Some(seq![0x1bu8, 0x5bu8, 0x48u8]),
        NamedKey::End => Some(seq![0x1bu8, 0x5bu8, 0x46u8]),
        NamedKey::PageUp => Some(seq![0x1bu8, 0x5bu8, 0x35u8, 0x7eu8]),
        NamedKey::PageDown => Some(seq![0x1bu8, 0x5bu8, 0x36u8, 0x7eu8]),
        NamedKey::Insert => Some(seq![0x1bu8, 0x5bu8, 0x32u8, 0x7eu8]),
        NamedKey::Delete => Some(seq![0x1bu8, 0x5bu8, 0x33u8, 0x7eu8]),
        NamedKey::F1 => Some(seq![0x1bu8, 0x4fu8, 0x50u8]),
        NamedKey::F2 => Some(seq![0x1bu8, 0x4fu8, 0x51u8]),
        NamedKey::F3 => Some(seq![0x1bu8, 0x4fu8, 0x52u8]),
        NamedKey::F4 => Some(seq![0x1bu8, 0x4fu8, 0x53u8]),
        NamedKey::F5 => Some(seq![0x1bu8, 0x5bu8, 0x31u8, 0x35u8, 0x7eu8]),
        NamedKey::F6 => Some(seq![0x1bu8, 0x5bu8, 0x31u8, 0x37u8, 0x7eu8]),
        NamedKey::F7 => Some(seq![0x1bu8, 0x5bu8, 0x31u8, 0x38u8, 0x7eu8]),
        NamedKey::F8 => Some(seq![0x1bu8, 0x5bu8, 0x31u8, 0x39u8, 0x7eu8]),
        NamedKey::F9 => Some(seq![0x1bu8, 0x5bu8, 0x32u8, 0x30u8, 0x7eu8]),
        NamedKey::F10 => Some(seq![0x1bu8, 0x5bu8, 0x32u8, 0x31u8, 0x7eu8]),
        NamedKey::F11 => Some(seq![0x1bu8, 0x5bu8, 0x32u8, 0x33u8, 0x7eu8]),
        NamedKey::F12 => Some(seq![0x1bu8, 0x5bu8, 0x32u8, 0x34u8, 0x7eu8]),
        _ => None,
    }
}

fn named_key_bytes(key: NamedKey) -> (r: Option<Vec<u8>>)
    ensures
        bytes_view(r) == spec_named_key_bytes(key),
{
    let bytes = match key {
        NamedKey::Enter => vec![0x0du8],
        NamedKey::Backspace => vec![0x7fu8],
        NamedKey::Tab => vec![0x09u8],
        NamedKey::Escape => vec![0x1bu8],
        NamedKey::ArrowUp => vec![0x1bu8, 0x5bu8, 0x41u8],
        NamedKey::ArrowDown => vec![0x1bu8, 0x5bu8, 0x42u8],
        NamedKey::ArrowRight => vec![0x1bu8, 0x5bu8, 0x43u8],
        NamedKey::ArrowLeft => vec![0x1bu8, 0x5bu8, 0x44u8],
        NamedKey::Home => vec![0x1bu8, 0x5bu8, 0x48u8],
        NamedKey::End => vec![0x1bu8, 0x5bu8, 0x46u8],
        NamedKey::PageUp => vec![0x1bu8, 0x5bu8, 0x35u8, 0x7eu8],
        NamedKey::PageDown => vec![0x1bu8, 0x5bu8, 0x36u8, 0x7eu8],
        NamedKey::Insert => vec![0x1bu8, 0x5bu8, 0x32u8, 0x7eu8],
        NamedKey::Delete => vec![0x1bu8, 0x5bu8, 0x33u8, 0x7eu8],
        NamedKey::F1 => vec![0x1bu8, 0x4fu8, 0x50u8],
        NamedKey::F2 => vec![0x1bu8, 0x4fu8, 0x51u8],
        NamedKey::F3 => vec![0x1bu8, 0x4fu8, 0x52u8],
        NamedKey::F4 => vec![0x1bu8, 0x4fu8, 0x53u8],
        NamedKey::F5 => vec![0x1bu8, 0x5bu8, 0x31u8, 0x35u8, 0x7eu8],
        NamedKey::F6 => vec![0x1bu8, 0x5bu8, 0x31u8, 0x37u8, 0x7eu8],
        NamedKey::F7 => vec![0x1bu8, 0x5bu8, 0x31u8, 0x38u8, 0x7eu8],
        NamedKey::F8 => vec![0x1bu8, 0x5bu8, 0x31u8, 0x39u8, 0x7eu8],
        NamedKey::F9 => vec![0x1bu8, 0x5bu8, 0x32u8, 0x30u8, 0x7eu8],
        NamedKey::F10 => vec![0x1bu8, 0x5bu8, 0x32u8, 0x31u8, 0x7eu8],
        NamedKey::F11 => vec![0x1bu8, 0x5bu8, 0x32u8, 0x33u8, 0x7eu8],
        NamedKey::F12 => vec![0x1bu8, 0x5bu8, 0x32u8, 0x34u8, 0x7eu8],
        _ => return None,
    };
    Some(bytes)
}

/// The bytes a key press sends to the PTY: Control alone turns a key into
/// its control code; Alt alone prefixes the typed text with ESC; otherwise
/// named keys send their escape sequences.
pub open spec fn spec_input_bytes(key: Key, text: Option<Seq<char>>, modifiers: Modifiers) -> Option<Seq<u8>> {
    if modifiers.control && !modifiers.alt && !modifiers.super_key && spec_control_character_bytes(key) is Some {
        spec_control_character_bytes(key)
    } else if modifiers.alt && !modifiers.control && !modifiers.super_key && spec_alt_text_input(key, text) is Some {
        Some(seq![0x1bu8] + vstd::utf8::encode_utf8(spec_alt_text_input(key, text)->0))
    } else {
        match key {
            Key::Named(named) => spec_named_key_bytes(named),
            _ => None,
        }
    }
}

pub fn input_bytes(key: &Key, text: Option<&str>, modifiers: Modifiers) -> (r: Option<Vec<u8>>)
    ensures
        bytes_view(r) == spec_input_bytes(*key, str_view(text), modifiers),
{
    if modifiers.control && !modifiers.alt && !modifiers.super_key {
        let bytes = control_character_bytes(key);
        if bytes.is_some() {
            return bytes;
        }
    }
    if modifiers.alt && !modifiers.control && !modifiers.super_key {
        match keyboard_alt_text_input(key, text) {
            Some(t) => {
                let mut bytes: Vec<u8> = Vec::with_capacity(t.as_bytes().len().saturating_add(1));
                bytes.push(0x1b);
                push_slice(&mut bytes, t.as_bytes());
                return Some(bytes);
            },
            None => {},
        }
    }
    match key {
        Key::Named(named) => named_key_bytes(*named),
        _ => None,
    }
}

// ---------------------------------------------------------------------
// Shortcuts.
// ---------------------------------------------------------------------

/// Control and Shift held, Alt and Super not.
pub open spec fn control_shift_only(modifiers: Modifiers) -> bool {
    modifiers.control && modifiers.shift && !modifiers.alt && !modifiers.super_key
}

/// A character key whose text is `letter` in either ASCII case.
pub open spec fn is_letter_key(key: Key, letter: Seq<char>) -> bool {
    key matches Key::Character(value) && lower_all(value@) == letter
}

fn letter_key(key: &Key, letter: &str) -> (r: bool)
    ensures
        r == is_letter_key(*key, letter@),
{
    match key {
        Key::Character(value) => {
            let lower = to_ascii_lowercase(value.as_str());
            same_chars(lower.as_str(), letter)
        },
        _ => false,
    }
}

/// Control+Shift+F opens scrollback search.
pub fn is_find_shortcut(key: &Key, modifiers: Modifiers) -> (r: bool)
    ensures
        r == (control_shift_only(modifiers) && is_letter_key(*key, "f"@)),
{
    control_shift_only_exec(modifiers) && letter_key(key, "f")
}

/// Control+Shift+`,` reloads the configuration.
pub fn is_config_reload_shortcut(key: &Key, modifiers: Modifiers) -> (r: bool)
    ensures
        r == (control_shift_only(modifiers) && (*key matches Key::Character(value) && value@ == ","@)),
{
    control_shift_only_exec(modifiers) && match key {
        Key::Character(value) => same_chars(value.as_str(), ","),
        _ => false,
    }
}

/// Control+Shift+V, or Shift+Insert, pastes.
pub fn is_paste_shortcut(key: &Key, modifiers: Modifiers) -> (r: bool)
    ensures
        r == ({
            let plain = !modifiers.alt && !modifiers.super_key && modifiers.shift;
            (plain && modifiers.control && is_letter_key(*key, "v"@))
                || (plain && !modifiers.control && *key == Key::Named(NamedKey::Insert))
        }),
{
    let plain = !modifiers.alt && !modifiers.super_key && modifiers.shift;
    let ctrl_shift_v = plain && modifiers.control && letter_key(key, "v");
    let shift_insert = plain && !modifiers.control && match key {
        Key::Named(NamedKey::Insert) => true,
        _ => false,
    };
    ctrl_shift_v || shift_insert
}

/// Control+Shift+C copies the selection.
pub fn is_copy_shortcut(key: &Key, modifiers: Modifiers) -> (r: bool)
    ensures
        r == (control_shift_only(modifiers) && is_letter_key(*key, "c"@)),
{
    control_shift_only_exec(modifiers) && letter_key(key, "c")
}

fn control_shift_only_exec(modifiers: Modifiers) -> (r: bool)
    ensures
        r == control_shift_only(modifiers),
{
    modifiers.control && modifiers.shift && !modifiers.alt && !modifiers.super_key
}

/// Scrollback navigation shortcuts.
#[derive(Clone, Copy, Debug, Eq, PartialEq, Structural)]
pub enum ScrollShortcut {
    PageUp,
    PageDown,
    Top,
    Bottom,
}

/// Control+Shift with PageUp, PageDown, Home or End moves through the
/// scrollback.
pub open spec fn spec_scroll_shortcut(key: Key, modifiers: Modifiers) -> Option<ScrollShortcut> {
    if !control_shift_only(modifiers) {
        None
    } else {
        match key {
            Key::Named(NamedKey::PageUp) => Some(ScrollShortcut::PageUp),
            Key::Named(NamedKey::PageDown) => Some(ScrollShortcut::PageDown),
            Key::Named(NamedKey::Home) => Some(ScrollShortcut::Top),
            Key::Named(NamedKey::End) => Some(ScrollShortcut::Bottom),
            _ => None,
        }
    }
}

pub fn scroll_shortcut_for_key(key: &Key, modifiers: Modifiers) -> (r: Option<ScrollShortcut>)
    ensures
        r == spec_scroll_shortcut(*key, modifiers),
{
    if !control_shift_only_exec(modifiers) {
        return None;
    }
    match key {
        Key::Named(NamedKey::PageUp) => Some(ScrollShortcut::PageUp),
        Key::Named(NamedKey::PageDown) => Some(ScrollShortcut::PageDown),
        Key::Named(NamedKey::Home) => Some(ScrollShortcut::Top),
        Key::Named(NamedKey::End) => Some(ScrollShortcut::Bottom),
        _ => None,
    }
}

/// Where a key press goes.
#[derive(Clone, Debug, Eq, PartialEq)]
pub enum KeyRoute<'a> {
    /// Control+Shift+`,`: reload the configuration.
    ConfigReload,
    /// Control+Shift+F: open the scrollback search.
    OpenSearch,
    /// A key the open search field uses.
    Search,
    /// A scrollback navigation shortcut.
    Scroll(ScrollShortcut),
    /// Copy the selection.
    Copy,
    /// Paste the clipboard.
    Paste,
    /// Text to type.
    Text(&'a str),
    /// Bytes to send to the terminal application.
    Bytes(Vec<u8>),
    /// Nothing to do.
    Ignore,
}

pub enum KeyRouteView {
    ConfigReload,
    OpenSearch,
    Search,
    Scroll(ScrollShortcut),
    Copy,
    Paste,
    Text(Seq<char>),
    Bytes(Seq<u8>),
    Ignore,
}

pub open spec fn key_route_view(r: KeyRoute) -> KeyRouteView {
    match r {
        KeyRoute::ConfigReload => KeyRouteView::ConfigReload,
        KeyRoute::OpenSearch => KeyRouteView::OpenSearch,
        KeyRoute::Search => KeyRouteView::Search,
        KeyRoute::Scroll(s) => KeyRouteView::Scroll(s),
        KeyRoute::Copy => KeyRouteView::Copy,
        KeyRoute::Paste => KeyRouteView::Paste,
        KeyRoute::Text(t) => KeyRouteView::Text(t@),
        KeyRoute::Bytes(b) => KeyRouteView::Bytes(b@),
        KeyRoute::Ignore => KeyRouteView::Ignore,
    }
}

/// The keys the open search field takes: Escape, Enter and Backspace.
pub open spec fn is_search_key(key: Key) -> bool {
    key == Key::Named(NamedKey::Escape) || key == Key::Named(NamedKey::Enter) || key == Key::Named(NamedKey::Backspace)
}

/// Where a key press goes, first match first: the configuration reload and
/// search shortcuts, a key for the open search field, scrollback
/// shortcuts, copy, paste, typed text, then terminal input bytes. The flag
/// says whether the IME preedit is dropped: when the search opens, or on
/// Escape once neither shortcut matched.
pub open spec fn spec_route_key_press(
    key: Key,
    text: Option<Seq<char>>,
    modifiers: Modifiers,
    search_active: bool,
) -> (KeyRouteView, bool) {
    if control_shift_only(modifiers) && (key matches Key::Character(value) && value@ == ","@) {
        (KeyRouteView::ConfigReload, false)
    } else if control_shift_only(modifiers) && is_letter_key(key, "f"@) {
        (KeyRouteView::OpenSearch, true)
    } else {
        let clears = key == Key::Named(NamedKey::Escape);
        let route = if search_active && is_search_key(key) {
            KeyRouteView::Search
        } else if spec_scroll_shortcut(key, modifiers) is Some {
            KeyRouteView::Scroll(spec_scroll_shortcut(key, modifiers)->0)
        } else if control_shift_only(modifiers) && is_letter_key(key, "c"@) {
            KeyRouteView::Copy
        } else if ({
            let plain = !modifiers.alt && !modifiers.super_key && modifiers.shift;
            (plain && modifiers.control && is_letter_key(key, "v"@))
                || (plain && !modifiers.control && key == Key::Named(NamedKey::Insert))
        }) {
            KeyRouteView::Paste
        } else if spec_keyboard_text_input(key, text, modifiers) is Some {
            KeyRouteView::Text(spec_keyboard_text_input(key, text, modifiers)->0)
        } else if spec_input_bytes(key, text, modifiers) is Some {
            KeyRouteView::Bytes(spec_input_bytes(key, text, modifiers)->0)
        } else {
            KeyRouteView::Ignore
        };
        (route, clears)
    }
}

/// Routes a key press; also says whether the IME preedit is dropped.
pub fn route_key_press<'a>(
    key: &Key,
    text: Option<&'a str>,
    modifiers: Modifiers,
    search_active: bool,
) -> (r: (KeyRoute<'a>, bool))
    ensures
        (key_route_view(r.0), r.1) == spec_route_key_press(*key, str_view(text), modifiers, search_active),
{
    if is_config_reload_shortcut(key, modifiers) {
        return (KeyRoute::ConfigReload, false);
    }
    if is_find_shortcut(key, modifiers) {
        return (KeyRoute::OpenSearch, true);
    }
    let clears = match key {
        Key::Named(NamedKey::Escape) => true,
        _ => false,
    };
    let search_key = match key {
        Key::Named(NamedKey::Escape) | Key::Named(NamedKey::Enter) | Key::Named(NamedKey::Backspace) => true,
        _ => false,
    };
    if search_active && search_key {
        return (KeyRoute::Search, clears);
    }
    if let Some(action) = scroll_shortcut_for_key(key, modifiers) {
        return (KeyRoute::Scroll(action), clears);
    }
    if is_copy_shortcut(key, modifiers) {
        return (KeyRoute::Copy, clears);
    }
    if is_paste_shortcut(key, modifiers) {
        return (KeyRoute::Paste, clears);
    }
    if let Some(t) = keyboard_text_input(key, text, modifiers) {
        return (KeyRoute::Text(t), clears);
    }
    match input_bytes(key, text, modifiers) {
        Some(bytes) => (KeyRoute::Bytes(bytes), clears),
        None => (KeyRoute::Ignore, clears),
    }
}

/// The button reported to the terminal application: back and forward are
/// buttons 3 and 4, other buttons keep their number when it fits a byte.
pub fn terminal_mouse_button(button: PointerButton) -> (r: Option<MouseButton>)
    ensures
        r == (match button {
            PointerButton::Left => Some(MouseButton::Left),
            PointerButton::Middle => Some(MouseButton::Middle),
            PointerButton::Right => Some(MouseButton::Right),
            PointerButton::Back => Some(MouseButton::Other(3)),
            PointerButton::Forward => Some(MouseButton::Other(4)),
            PointerButton::Other(code) => if code <= 255 {
                Some(MouseButton::Other(code as u8))
            } else {
                None
            },
        }),
{
    match button {
        PointerButton::Left => Some(MouseButton::Left),
        PointerButton::Middle => Some(MouseButton::Middle),
        PointerButton::Right => Some(MouseButton::Right),
        PointerButton::Back => Some(MouseButton::Other(3)),
        PointerButton::Forward => Some(MouseButton::Other(4)),
        PointerButton::Other(code) => if code <= 255 {
            Some(MouseButton::Other(code as u8))
        } else {
            None
        },
    }
}

// ---------------------------------------------------------------------
// Kitty upload checks.
// ---------------------------------------------------------------------

/// A chunk of a multipart upload: at most 4096 bytes, and a multiple of
/// four bytes unless it is the last.
pub fn validate_kitty_chunk(payload: &[u8], more_chunks: bool) -> (r: Result<(), KittyProtocolError>)
    ensures
        match r {
            Ok(()) => payload@.len() <= MAX_KITTY_CHUNK_BYTES && !(more_chunks && payload@.len() % 4 != 0),
            Err(e) => if payload@.len() > MAX_KITTY_CHUNK_BYTES {
                e.code == KittyErrorCode::TooBig && e.message@ == "multipart chunk exceeds 4096 bytes"@
            } else {
                more_chunks && payload@.len() % 4 != 0 && e.code == KittyErrorCode::Invalid
                    && e.message@ == "non-final multipart chunk size must be a multiple of four"@
            },
        },
{
    if payload.len() > MAX_KITTY_CHUNK_BYTES {
        return Err(KittyProtocolError::new(KittyErrorCode::TooBig, "multipart chunk exceeds 4096 bytes"));
    }
    if more_chunks && payload.len() % 4 != 0 {
        return Err(KittyProtocolError::new(
            KittyErrorCode::Invalid,
            "non-final multipart chunk size must be a multiple of four",
        ));
    }
    Ok(())
}

/// The response code an image decoding or placement error is reported
/// with: bad image data as `EBADPNG`, a raw payload of the wrong length as
/// `ENODATA`, exceeded limits as `E2BIG`, unusable geometry as `EINVAL`.
pub open spec fn image_error_code(error: InlineImageError) -> KittyErrorCode {
    match error {
        InlineImageError::InvalidBase64 | InlineImageError::InvalidPng | InlineImageError::ZeroDimension => KittyErrorCode::BadPng,
        InlineImageError::InvalidPayloadLength => KittyErrorCode::NoData,
        InlineImageError::EncodedTooLarge | InlineImageError::CompressedTooLarge | InlineImageError::DimensionLimit
            | InlineImageError::PixelLimit | InlineImageError::DecodedTooLarge | InlineImageError::SizeOverflow => KittyErrorCode::TooBig,
        InlineImageError::ZeroCellSize | InlineImageError::InvalidSourceRectangle
            | InlineImageError::InvalidPixelOffset => KittyErrorCode::Invalid,
    }
}

pub fn kitty_image_error(error: InlineImageError) -> (r: KittyProtocolError)
    ensures
        r.code == image_error_code(error),
{
    match error {
        InlineImageError::InvalidBase64 | InlineImageError::InvalidPng | InlineImageError::ZeroDimension => {
            KittyProtocolError::new(KittyErrorCode::BadPng, "invalid PNG image data")
        },
        InlineImageError::InvalidPayloadLength => {
            KittyProtocolError::new(KittyErrorCode::NoData, "raw image payload length does not match its dimensions")
        },
        InlineImageError::EncodedTooLarge | InlineImageError::CompressedTooLarge | InlineImageError::DimensionLimit
            | InlineImageError::PixelLimit | InlineImageError::DecodedTooLarge | InlineImageError::SizeOverflow => {
            KittyProtocolError::new(KittyErrorCode::TooBig, "image exceeds configured limits")
        },
        InlineImageError::ZeroCellSize => {
            KittyProtocolError::new(KittyErrorCode::Invalid, "terminal cell size is zero")
        },
        InlineImageError::InvalidSourceRectangle => {
            KittyProtocolError::new(KittyErrorCode::Invalid, "image source rectangle does not intersect the image")
        },
        InlineImageError::InvalidPixelOffset => {
            KittyProtocolError::new(KittyErrorCode::Invalid, "image pixel offset is outside the anchor cell")
        },
    }
}

/// The error a reference to an unknown image id is answered with.
pub fn kitty_image_not_found() -> (r: KittyProtocolError)
    ensures
        r.code == KittyErrorCode::NoEntry,
        r.message@ == "image id was not found"@,
{
    KittyProtocolError::new(KittyErrorCode::NoEntry, "image id was not found")
}

// ---------------------------------------------------------------------
// Scrollback search.
// ---------------------------------------------------------------------

/// A match of the search query: its row and the cell columns it covers,
/// `start_col..end_col`.
#[derive(Clone, Copy, Debug, Eq, PartialEq, Structural)]
pub struct SearchMatch {
    pub row: usize,
    pub start_col: usize,
    pub end_col: usize,
}

/// A searchable cell: its column, its character folded to ASCII lower
/// case, and how many columns it covers.
#[derive(Clone, Copy, Debug, Eq, PartialEq, Structural)]
pub struct SearchCell {
    pub col: usize,
    pub ch: char,
    pub width: usize,
}

/// The searchable cells of a row: every cell except the spacers behind wide
/// characters, which cover two columns.
pub open spec fn search_cells(row: Seq<Cell>) -> Seq<SearchCell>
    decreases row.len(),
{
    if row.len() == 0 {
        Seq::empty()
    } else {
        let n = row.len() - 1;
        let cell = row[n];
        search_cells(row.take(n)) + if cell.flags.wide_spacer {
            Seq::empty()
        } else {
            seq![SearchCell { col: n as usize, ch: ascii_lower(cell.ch), width: if cell.flags.wide { 2usize } else { 1usize } }]
        }
    }
}

/// The query matches the searchable cells starting at `start`.
pub open spec fn matches_at(hay: Seq<SearchCell>, needle: Seq<char>, start: int) -> bool {
    forall|k: int| 0 <= k < needle.len() ==> #[trigger] hay[start + k].ch == needle[k]
}

/// The match found at `start`.
pub open spec fn match_at(hay: Seq<SearchCell>, needle: Seq<char>, row: usize, start: int) -> SearchMatch {
    let end = hay[start + needle.len() - 1];
    SearchMatch { row, start_col: hay[start].col, end_col: (end.col + end.width) as usize }
}

/// Matches in a row that start before `count`, left to right.
pub open spec fn row_matches(hay: Seq<SearchCell>, needle: Seq<char>, row: usize, count: int) -> Seq<SearchMatch>
    decreases count,
{
    if count <= 0 {
        Seq::empty()
    } else {
        let start = count - 1;
        row_matches(hay, needle, row, start) + if matches_at(hay, needle, start) {
            seq![match_at(hay, needle, row, start)]
        } else {
            Seq::empty()
        }
    }
}

/// All matches in a row.
pub open spec fn line_matches(line: Seq<Cell>, needle: Seq<char>, row: usize) -> Seq<SearchMatch> {
    let hay = search_cells(line);
    if hay.len() < needle.len() {
        Seq::empty()
    } else {
        row_matches(hay, needle, row, hay.len() - needle.len() + 1)
    }
}

/// Matches in the first `count` rows, top to bottom.
pub open spec fn lines_matches(lines: Seq<Seq<Cell>>, needle: Seq<char>, count: int) -> Seq<SearchMatch>
    decreases count,
{
    if count <= 0 {
        Seq::empty()
    } else {
        lines_matches(lines, needle, count - 1) + line_matches(lines[count - 1], needle, (count - 1) as usize)
    }
}

/// Every place where the query, compared without regard to ASCII case,
/// occurs in a row of the grid (spacers behind wide characters skipped);
/// none for an empty query.
pub open spec fn spec_find_search_matches(cells: Seq<Cell>, cols: nat, query: Seq<char>) -> Seq<SearchMatch> {
    let needle = lower_all(query);
    if needle.len() == 0 {
        Seq::empty()
    } else {
        let lines = chunks_of(cells, cols);
        lines_matches(lines, needle, lines.len() as int)
    }
}

proof fn lemma_chunks_short<T>(s: Seq<T>, n: nat)
    ensures
        forall|i: int| 0 <= i < chunks_of(s, n).len() ==> #[trigger] chunks_of(s, n)[i].len() <= n,
    decreases s.len(),
{
    if n == 0 || s.len() == 0 {
    } else if s.len() <= n {
    } else {
        lemma_chunks_short(s.skip(n as int), n);
        let rest = chunks_of(s.skip(n as int), n);
        assert forall|i: int| 0 <= i < chunks_of(s, n).len() implies #[trigger] chunks_of(s, n)[i].len() <= n by {
            if i > 0 {
                assert(chunks_of(s, n)[i] == rest[i - 1]);
            }
        }
    }
}

proof fn lemma_search_cells_bounds(row: Seq<Cell>)
    ensures
        forall|i: int| 0 <= i < search_cells(row).len() ==> {
            &&& #[trigger] search_cells(row)[i].col < row.len()
            &&& 1 <= search_cells(row)[i].width <= 2
        },
        search_cells(row).len() <= row.len(),
    decreases row.len(),
{
    if row.len() > 0 {
        lemma_search_cells_bounds(row.take(row.len() - 1));
    }
}

fn collect_search_cells(row: &[Cell]) -> (r: Vec<SearchCell>)
    ensures
        r@ == search_cells(row@),
{
    let mut out: Vec<SearchCell> = Vec::new();
    let mut col: usize = 0;
    while col < row.len()
        invariant
            col <= row@.len(),
            out@ == search_cells(row@.take(col as int)),
        decreases row.len() - col,
    {
        proof {
            assert(row@.take(col + 1).take(col as int) =~= row@.take(col as int));
        }
        let cell = row[col];
        if !cell.flags.wide_spacer {
            out.push(SearchCell { col, ch: lower_char(cell.ch), width: if cell.flags.wide { 2 } else { 1 } });
        }
        col += 1;
    }
    assert(row@.take(col as int) =~= row@);
    out
}

fn matches_at_exec(hay: &Vec<SearchCell>, needle: &Vec<char>, start: usize) -> (r: bool)
    requires
        start + needle@.len() <= hay@.len(),
    ensures
        r == matches_at(hay@, needle@, start as int),
{
    let hay_len = hay.len();
    let mut k: usize = 0;
    while k < needle.len()
        invariant
            hay_len == hay@.len(),
            start + needle@.len() <= hay@.len(),
            k <= needle@.len(),
            forall|j: int| 0 <= j < k ==> #[trigger] hay@[start + j].ch == needle@[j],
        decreases needle.len() - k,
    {
        if hay[start + k].ch != needle[k] {
            return false;
        }
        k += 1;
    }
    true
}

fn push_row_matches(matches: &mut Vec<SearchMatch>, hay: &Vec<SearchCell>, needle: &Vec<char>, row: usize, row_len: usize, cols: usize)
    requires
        needle@.len() > 0,
        hay@.len() >= needle@.len(),
        row_len <= cols,
        cols < usize::MAX,
        forall|i: int| 0 <= i < hay@.len() ==> #[trigger] hay@[i].col < row_len && 1 <= hay@[i].width <= 2,
    ensures
        final(matches)@ == old(matches)@ + row_matches(hay@, needle@, row, hay@.len() - needle@.len() + 1),
{
    let hay_len = hay.len();
    let limit = hay_len - needle.len() + 1;
    let mut start: usize = 0;
    while start < limit
        invariant
            hay_len == hay@.len(),
            needle@.len() > 0,
            hay@.len() >= needle@.len(),
            limit == hay@.len() - needle@.len() + 1,
            start <= limit,
            row_len <= cols,
            cols < usize::MAX,
            forall|i: int| 0 <= i < hay@.len() ==> #[trigger] hay@[i].col < row_len && 1 <= hay@[i].width <= 2,
            matches@ == old(matches)@ + row_matches(hay@, needle@, row, start as int),
        decreases limit - start,
    {
        if matches_at_exec(hay, needle, start) {
            let end = hay[start + needle.len() - 1];
            let found = SearchMatch { row, start_col: hay[start].col, end_col: end.col + end.width };
            matches.push(found);
            assert(found == match_at(hay@, needle@, row, start as int));
        }
        assert(matches@ =~= old(matches)@ + row_matches(hay@, needle@, row, start + 1));
        start += 1;
    }
}

pub fn find_search_matches(snapshot: &GridSnapshot, query: &str) -> (r: Vec<SearchMatch>)
    requires
        query@.len() > 0 ==> 0 < snapshot.cols < usize::MAX,
    ensures
        r@ == spec_find_search_matches(snapshot.cells@, snapshot.cols as nat, query@),
{
    let lowered = to_ascii_lowercase(query);
    let lowered = lowered.as_str();
    let n = lowered.unicode_len();
    let mut needle: Vec<char> = Vec::new();
    let mut i: usize = 0;
    while i < n
        invariant
            n == lowered@.len(),
            i <= n,
            needle@ == lowered@.take(i as int),
        decreases n - i,
    {
        needle.push(lowered.get_char(i));
        assert(needle@ =~= lowered@.take(i + 1));
        i += 1;
    }
    assert(needle@ =~= lower_all(query@));
    if needle.len() == 0 {
        return Vec::new();
    }
    assert(query@.len() > 0);

    let lines = snapshot.lines();
    let ghost lines_view = chunks_of(snapshot.cells@, snapshot.cols as nat);
    proof {
        lemma_chunks_short(snapshot.cells@, snapshot.cols as nat);
    }
    let mut matches: Vec<SearchMatch> = Vec::new();
    let mut row_index: usize = 0;
    while row_index < lines.len()
        invariant
            needle@ == lower_all(query@),
            needle@.len() > 0,
            0 < snapshot.cols < usize::MAX,
            lines@.map_values(|l: &[Cell]| l@) == lines_view,
            lines_view == chunks_of(snapshot.cells@, snapshot.cols as nat),
            forall|j: int| 0 <= j < lines_view.len() ==> #[trigger] lines_view[j].len() <= snapshot.cols,
            row_index <= lines@.len(),
            matches@ == lines_matches(lines_view, needle@, row_index as int),
        decreases lines.len() - row_index,
    {
        let row = lines[row_index];
        assert(row@ == lines_view[row_index as int]);
        let hay = collect_search_cells(row);
        proof {
            lemma_search_cells_bounds(row@);
        }
        if hay.len() >= needle.len() {
            push_row_matches(&mut matches, &hay, &needle, row_index, row.len(), snapshot.cols);
        }
        assert(matches@ =~= lines_matches(lines_view, needle@, row_index + 1));
        row_index += 1;
    }
    matches
}

/// Scrollback search: whether it is open, the query typed so far, and
/// which match is current.
#[derive(Clone, Debug, Eq, PartialEq)]
pub struct SearchState {
    pub active: bool,
    pub query: String,
    pub current_index: usize,
}

impl Default for SearchState {
    fn default() -> (s: Self)
        ensures
            !s.active,
            s.query@.len() == 0,
            s.current_index == 0,
    {
        SearchState { active: false, query: String::new(), current_index: 0 }
    }
}

impl SearchState {
    /// Opens the search at its first match.
    pub fn open(&mut self)
        ensures
            final(self).active,
            final(self).query@ == old(self).query@,
            final(self).current_index == 0,
    {
        self.active = true;
        self.current_index = 0;
    }

    /// Appends typed text to the query and returns to the first match.
    pub fn push_text(&mut self, text: &str)
        ensures
            final(self).active == old(self).active,
            final(self).query@ == old(self).query@ + text@,
            final(self).current_index == 0,
    {
        self.query.append(text);
        self.current_index = 0;
    }

    /// A key typed while the search is open: Escape closes and clears it,
    /// Enter moves to the next match (the previous with Shift), Backspace
    /// deletes the last character of the query. Returns whether the key
    /// was used.
    pub fn handle_key(&mut self, key: &Key, shift: bool) -> (used: bool)
        ensures
            used == (*key == Key::Named(NamedKey::Escape) || *key == Key::Named(NamedKey::Enter)
                || *key == Key::Named(NamedKey::Backspace)),
            *key == Key::Named(NamedKey::Escape) ==> !final(self).active && final(self).query@.len() == 0
                && final(self).current_index == 0,
            *key == Key::Named(NamedKey::Enter) ==> final(self).active == old(self).active
                && final(self).query@ == old(self).query@
                && final(self).current_index == (if shift {
                    old(self).current_index.saturating_sub(1)
                } else {
                    old(self).current_index.saturating_add(1)
                }),
            *key == Key::Named(NamedKey::Backspace) ==> final(self).active == old(self).active
                && final(self).query@ == (if old(self).query@.len() == 0 {
                    old(self).query@
                } else {
                    old(self).query@.drop_last()
                })
                && final(self).current_index == 0,
            !used ==> *final(self) == *old(self),
    {
        match key {
            Key::Named(NamedKey::Escape) => {
                *self = SearchState::default();
                true
            },
            Key::Named(NamedKey::Enter) => {
                if shift {
                    self.current_index = self.current_index.saturating_sub(1);
                } else {
                    self.current_index = self.current_index.saturating_add(1);
                }
                true
            },
            Key::Named(NamedKey::Backspace) => {
                let len = self.query.as_str().unicode_len();
                if len > 0 {
                    let kept = self.query.as_str().substring_char(0, len - 1).to_owned();
                    assert(kept@ =~= old(self).query@.drop_last());
                    self.query = kept;
                }
                self.current_index = 0;
                true
            },
            _ => false,
        }
    }

    /// The query to draw in the search bar while the search is open.
    pub fn query_for_render(&self) -> (r: Option<String>)
        ensures
            r matches Some(q) ==> self.active && q@ == self.query@,
            r is None ==> !self.active,
    {
        if self.active {
            Some(self.query.clone())
        } else {
            None
        }
    }

    /// The matches in a snapshot and the current one, whose index wraps
    /// around the number of matches; nothing while the search is closed or
    /// the query is empty.
    pub fn matches_for_snapshot(&self, snapshot: &GridSnapshot) -> (r: (Vec<SearchMatch>, Option<SearchMatch>))
        requires
            self.active && self.query@.len() > 0 ==> 0 < snapshot.cols < usize::MAX,
        ensures
            !self.active || self.query@.len() == 0 ==> r.0@.len() == 0 && r.1 is None,
            self.active && self.query@.len() > 0 ==> {
                let all = spec_find_search_matches(snapshot.cells@, snapshot.cols as nat, self.query@);
                &&& r.0@ == all
                &&& r.1 == (if all.len() == 0 {
                    None
                } else {
                    Some(all[self.current_index as int % all.len() as int])
                })
            },
    {
        if !self.active || self.query.as_str().unicode_len() == 0 {
            return (Vec::new(), None);
        }
        let matches = find_search_matches(snapshot, self.query.as_str());
        let current = if matches.len() == 0 {
            None
        } else {
            Some(matches[self.current_index % matches.len()])
        };
        (matches, current)
    }
}

// ---------------------------------------------------------------------
// Laws.
// ---------------------------------------------------------------------

/// Control with a letter sends the same control code whichever case the
/// letter was typed in, and that code is one of 1 to 26.
pub proof fn lemma_control_letters_ignore_case(c: char)
    requires
        'a' <= c <= 'z',
    ensures
        spec_control_byte(c) == spec_control_byte(((c as u32) - 32) as char),
        spec_control_byte(c) matches Some(b) && 1 <= b <= 26,
{
}

proof fn lemma_lower_all_idempotent(s: Seq<char>)
    ensures
        lower_all(lower_all(s)) == lower_all(s),
{
    assert(lower_all(lower_all(s)) =~= lower_all(s));
}

/// Search ignores the ASCII case of the query: a query and its lower-case
/// form find the same matches.
pub proof fn lemma_search_ignores_query_case(cells: Seq<Cell>, cols: nat, query: Seq<char>)
    ensures
        spec_find_search_matches(cells, cols, lower_all(query)) == spec_find_search_matches(cells, cols, query),
{
    lemma_lower_all_idempotent(query);
}

} // verus!
