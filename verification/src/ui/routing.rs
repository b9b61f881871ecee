//! Routing of command-line actions, PTY sizes, window titles, mouse input
//! and hyperlink clicks.

use vstd::prelude::*;
use vstd::string::{StringExecFns, StrSliceExecFns};
use crate::shell::{lower_all, to_ascii_lowercase, PtySize};
use crate::text::same_chars;
use crate::term::grid::{GridSnapshot, Hyperlink, SelectionMode, SelectionPoint};
use crate::term::viewport::{link_view, same_link};
use crate::ui::inline_image::CellMetrics;
use crate::term::mouse::MouseButton;

verus! {

// ---------------------------------------------------------------------
// Command line.
// ---------------------------------------------------------------------

/// What the program was asked to do.
#[derive(Clone, Copy, Debug, Eq, PartialEq, Structural)]
pub enum StartupAction {
    RunApp,
    ListFonts,
    PrintDefaultConfig,
}

/// Why the command line was refused.
#[derive(Clone, Debug, Eq, PartialEq)]
pub enum StartupError {
    UnknownAction(String),
    UnexpectedArgument(String),
}

pub enum StartupResultView {
    Action(StartupAction),
    UnknownAction(Seq<char>),
    UnexpectedArgument(Seq<char>),
}

pub open spec fn startup_result_view(r: Result<StartupAction, StartupError>) -> StartupResultView {
    match r {
        Ok(a) => StartupResultView::Action(a),
        Err(StartupError::UnknownAction(s)) => StartupResultView::UnknownAction(s@),
        Err(StartupError::UnexpectedArgument(s)) => StartupResultView::UnexpectedArgument(s@),
    }
}

/// No argument runs the app; a lone `+list-fonts` or
/// `+print-default-config` selects that action; any other first argument
/// is an unknown `+` action or an unexpected argument.
pub open spec fn spec_startup_action(args: Seq<Seq<char>>) -> StartupResultView {
    if args.len() <= 1 {
        StartupResultView::Action(StartupAction::RunApp)
    } else {
        let action = args[1];
        if action == "+list-fonts"@ && args.len() == 2 {
            StartupResultView::Action(StartupAction::ListFonts)
        } else if action == "+print-default-config"@ && args.len() == 2 {
            StartupResultView::Action(StartupAction::PrintDefaultConfig)
        } else if action.len() > 0 && action[0] == '+' {
            StartupResultView::UnknownAction(action)
        } else {
            StartupResultView::UnexpectedArgument(action)
        }
    }
}

pub open spec fn args_view(args: Seq<String>) -> Seq<Seq<char>> {
    args.map_values(|s: String| s@)
}

/// Read the command line (program name first).
pub fn startup_action_from_args(args: Vec<String>) -> (r: Result<StartupAction, StartupError>)
    ensures
        startup_result_view(r) == spec_startup_action(args_view(args@)),
{
    if args.len() <= 1 {
        return Ok(StartupAction::RunApp);
    }
    let action = args[1].as_str();
    assert(action@ == args_view(args@)[1]);
    let alone = args.len() == 2;
    if same_chars(action, "+list-fonts") && alone {
        Ok(StartupAction::ListFonts)
    } else if same_chars(action, "+print-default-config") && alone {
        Ok(StartupAction::PrintDefaultConfig)
    } else if action.unicode_len() > 0 && action.get_char(0) == '+' {
        Err(StartupError::UnknownAction(action.to_owned()))
    } else {
        Err(StartupError::UnexpectedArgument(action.to_owned()))
    }
}

// ---------------------------------------------------------------------
// PTY size and window title.
// ---------------------------------------------------------------------

/// A cell count for the PTY: at least 1, at most `u16::MAX`.
pub open spec fn spec_clamp_pty_cells(value: usize) -> u16 {
    if value < 1 { 1 } else if value > u16::MAX { u16::MAX } else { value as u16 }
}

/// A pixel count for the PTY: at most `u16::MAX`.
pub open spec fn spec_clamp_pty_pixels(value: u32) -> u16 {
    if value > u16::MAX { u16::MAX } else { value as u16 }
}

pub fn clamp_pty_cells(value: usize) -> (r: u16)
    ensures
        r == spec_clamp_pty_cells(value),
{
    if value < 1 {
        1
    } else if value > 0xffff {
        0xffff
    } else {
        value as u16
    }
}

pub fn clamp_pty_pixels(value: u32) -> (r: u16)
    ensures
        r == spec_clamp_pty_pixels(value),
{
    if value > 0xffff {
        0xffff
    } else {
        value as u16
    }
}

/// The PTY size for a terminal grid and its window's pixel size.
pub fn pty_size_for_terminal(cols: usize, rows: usize, pixel_width: u32, pixel_height: u32) -> (r: PtySize)
    ensures
        r == (PtySize {
            rows: spec_clamp_pty_cells(rows),
            cols: spec_clamp_pty_cells(cols),
            pixel_width: spec_clamp_pty_pixels(pixel_width),
            pixel_height: spec_clamp_pty_pixels(pixel_height),
        }),
{
    PtySize {
        rows: clamp_pty_cells(rows),
        cols: clamp_pty_cells(cols),
        pixel_width: clamp_pty_pixels(pixel_width),
        pixel_height: clamp_pty_pixels(pixel_height),
    }
}

/// The window title for a terminal title: `knightty` alone, or
/// `<title> - knightty`.
pub open spec fn spec_format_window_title(title: Seq<char>) -> Seq<char> {
    if title.len() == 0 { "knightty"@ } else { title + " - knightty"@ }
}

pub fn format_window_title(title: &str) -> (r: String)
    ensures
        r@ == spec_format_window_title(title@),
{
    if title.unicode_len() == 0 {
        return "knightty".to_owned();
    }
    let mut out = title.to_owned();
    out.append(" - knightty");
    out
}

// ---------------------------------------------------------------------
// Mouse and hyperlinks.
// ---------------------------------------------------------------------

/// Where a drag goes.
#[derive(Clone, Copy, Debug, Eq, PartialEq, Structural)]
pub enum MouseDragRouting {
    Selection,
    Pty,
}

/// Drags select text unless the application reports the mouse and Shift
/// is not held.
pub fn route_mouse_drag(mouse_reporting_enabled: bool, shift_pressed: bool) -> (r: MouseDragRouting)
    ensures
        r == (if shift_pressed || !mouse_reporting_enabled { MouseDragRouting::Selection } else { MouseDragRouting::Pty }),
{
    if shift_pressed || !mouse_reporting_enabled {
        MouseDragRouting::Selection
    } else {
        MouseDragRouting::Pty
    }
}

/// The state that decides what a click on a hyperlink does.
#[derive(Clone, Copy, Debug, Eq, PartialEq, Structural)]
pub struct HyperlinkClickInput {
    pub left_button: bool,
    pub ctrl_pressed: bool,
    pub open_enabled: bool,
    pub has_hyperlink: bool,
    pub selection_drag_active: bool,
    pub selection_active: bool,
    pub mouse_reporting_enabled: bool,
}

/// What a click on a hyperlink does.
#[derive(Clone, Copy, Debug, Eq, PartialEq, Structural)]
pub enum HyperlinkClickRouting {
    /// Remember the link and open it on release; the application does
    /// not see the click even when it reports the mouse.
    PendingOpen { mouse_reporting_overridden: bool },
    /// Handle the click as any other click.
    ExistingMouseRouting,
}

/// A left Ctrl-click on a link with opening enabled and no selection in
/// progress or present waits to open the link.
pub open spec fn spec_route_hyperlink_click(input: HyperlinkClickInput) -> HyperlinkClickRouting {
    if input.left_button && input.ctrl_pressed && input.open_enabled && input.has_hyperlink
        && !input.selection_drag_active && !input.selection_active {
        HyperlinkClickRouting::PendingOpen { mouse_reporting_overridden: input.mouse_reporting_enabled }
    } else {
        HyperlinkClickRouting::ExistingMouseRouting
    }
}

pub fn route_hyperlink_click(input: HyperlinkClickInput) -> (r: HyperlinkClickRouting)
    ensures
        r == spec_route_hyperlink_click(input),
{
    if input.left_button && input.ctrl_pressed && input.open_enabled && input.has_hyperlink
        && !input.selection_drag_active && !input.selection_active {
        HyperlinkClickRouting::PendingOpen { mouse_reporting_overridden: input.mouse_reporting_enabled }
    } else {
        HyperlinkClickRouting::ExistingMouseRouting
    }
}

/// The link under the pointer and the cell it was found in.
#[derive(Debug, Eq, PartialEq)]
pub struct HoveredHyperlink {
    pub cell: (usize, usize),
    pub hyperlink: Hyperlink,
}

impl Clone for HoveredHyperlink {
    fn clone(&self) -> (r: Self) {
        HoveredHyperlink { cell: (self.cell.0, self.cell.1), hyperlink: self.hyperlink.clone() }
    }
}

/// A link waiting for the button release.
#[derive(Clone, Debug, Eq, PartialEq)]
pub struct PendingHyperlinkClick {
    pub hovered: HoveredHyperlink,
}

/// Whether two hovered links are the same cell and link.
pub open spec fn same_hover(a: HoveredHyperlink, b: HoveredHyperlink) -> bool {
    &&& a.cell == b.cell
    &&& a.hyperlink.uri@ == b.hyperlink.uri@
    &&& match (a.hyperlink.id, b.hyperlink.id) {
        (Some(x), Some(y)) => x@ == y@,
        (None, None) => true,
        _ => false,
    }
}

fn same_hovered(a: &HoveredHyperlink, b: &HoveredHyperlink) -> (r: bool)
    ensures
        r == same_hover(*a, *b),
{
    if a.cell.0 != b.cell.0 || a.cell.1 != b.cell.1 {
        return false;
    }
    if !same_chars(a.hyperlink.uri.as_str(), b.hyperlink.uri.as_str()) {
        return false;
    }
    match (&a.hyperlink.id, &b.hyperlink.id) {
        (Some(x), Some(y)) => same_chars(x.as_str(), y.as_str()),
        (None, None) => true,
        _ => false,
    }
}

/// The hyperlink-table index of the link to underline in `snapshot`: the
/// hovered link's, when links are underlined on hover, nothing is
/// selected, and the hovered cell is in the snapshot and still shows that
/// same link.
pub open spec fn spec_hovered_hyperlink_id(
    underline_on_hover: bool,
    selection_active: bool,
    hovered: Option<HoveredHyperlink>,
    snapshot: GridSnapshot,
) -> Option<usize> {
    if !underline_on_hover || selection_active {
        None
    } else {
        match hovered {
            None => None,
            Some(h) => if h.cell.0 >= snapshot.cols || h.cell.1 >= snapshot.rows {
                None
            } else {
                match snapshot.cells@[h.cell.1 * snapshot.cols + h.cell.0].hyperlink {
                    Some(i) => if i < snapshot.hyperlinks@.len() && link_view(snapshot.hyperlinks@[i as int]) == link_view(h.hyperlink) {
                        Some(i)
                    } else {
                        None
                    },
                    None => None,
                }
            },
        }
    }
}

pub fn hovered_hyperlink_id(
    underline_on_hover: bool,
    selection_active: bool,
    hovered: Option<&HoveredHyperlink>,
    snapshot: &GridSnapshot,
) -> (r: Option<usize>)
    requires
        match hovered {
            Some(h) => h.cell.0 < snapshot.cols && h.cell.1 < snapshot.rows
                ==> h.cell.1 * snapshot.cols + h.cell.0 < snapshot.cells@.len(),
            None => true,
        },
    ensures
        r == spec_hovered_hyperlink_id(
            underline_on_hover,
            selection_active,
            match hovered {
                Some(h) => Some(*h),
                None => None,
            },
            *snapshot,
        ),
{
    if !underline_on_hover || selection_active {
        return None;
    }
    let h = match hovered {
        Some(h) => h,
        None => return None,
    };
    if h.cell.0 >= snapshot.cols || h.cell.1 >= snapshot.rows {
        return None;
    }
    match snapshot.cell(h.cell.0, h.cell.1).hyperlink {
        Some(i) => if i < snapshot.hyperlinks.len() && same_link(&snapshot.hyperlinks[i], &h.hyperlink) {
            Some(i)
        } else {
            None
        },
        None => None,
    }
}

/// Open the pending link on release only when the pointer is still on the
/// same link in the same cell and no selection was made.
pub fn should_open_pending_hyperlink(
    pending: &PendingHyperlinkClick,
    current: Option<&HoveredHyperlink>,
    selection_drag_active: bool,
    selection_active: bool,
) -> (r: bool)
    ensures
        r == (!selection_drag_active && !selection_active && match current {
            Some(c) => same_hover(*c, pending.hovered),
            None => false,
        }),
{
    if selection_drag_active || selection_active {
        return false;
    }
    match current {
        Some(c) => same_hovered(c, &pending.hovered),
        None => false,
    }
}

/// A simple click that did not move leaves no selection behind.
pub fn should_clear_simple_click_selection(
    anchor: Option<SelectionPoint>,
    focus: Option<SelectionPoint>,
    mode: SelectionMode,
    moved: bool,
) -> (r: bool)
    ensures
        r == (mode == SelectionMode::Simple && !moved && anchor is Some && anchor == focus),
{
    match (anchor, focus) {
        (Some(a), Some(f)) => mode == SelectionMode::Simple && !moved && a == f,
        _ => false,
    }
}

/// The pointer shape over the terminal.
#[derive(Clone, Copy, Debug, Eq, PartialEq, Structural)]
pub enum CursorShape {
    Pointer,
    Default,
}

/// A pointing hand over a link, unless a selection is active.
pub fn hyperlink_cursor_icon(has_hover: bool, selection_active: bool) -> (r: CursorShape)
    ensures
        r == (if has_hover && !selection_active { CursorShape::Pointer } else { CursorShape::Default }),
{
    if has_hover && !selection_active {
        CursorShape::Pointer
    } else {
        CursorShape::Default
    }
}

/// Longest gap between clicks of a double or triple click, in nanoseconds.
pub const MULTI_CLICK_MAX_DELAY_NANOS: u64 = 500_000_000;

/// Counts repeated clicks on one cell to pick the selection mode.
#[derive(Clone, Copy, Debug, Eq, PartialEq, Structural)]
pub struct ClickTracker {
    pub last_point: Option<SelectionPoint>,
    pub last_at: Option<u64>,
    pub count: u8,
}

impl Default for ClickTracker {
    fn default() -> (t: Self)
        ensures
            t == (ClickTracker { last_point: None, last_at: None, count: 0 }),
    {
        ClickTracker { last_point: None, last_at: None, count: 0 }
    }
}

/// Whether a click at `now` on `point` continues the previous clicks.
pub open spec fn continues_clicks(t: ClickTracker, point: SelectionPoint, now: u64) -> bool {
    &&& t.last_point == Some(point)
    &&& t.last_at matches Some(last) && last <= now && now - last <= MULTI_CLICK_MAX_DELAY_NANOS
}

/// The click count after a click: one more (up to three) when it continues
/// the previous clicks, else one.
pub open spec fn next_click_count(t: ClickTracker, point: SelectionPoint, now: u64) -> u8 {
    if continues_clicks(t, point, now) && t.count < 3 { (t.count + 1) as u8 } else { 1 }
}

pub open spec fn mode_for_count(count: u8) -> SelectionMode {
    if count == 2 { SelectionMode::Word } else if count == 3 { SelectionMode::Line } else { SelectionMode::Simple }
}

impl ClickTracker {
    /// Record a click on `point` at `now` (nanoseconds on a monotonic
    /// clock): single, double and triple clicks select by character, word
    /// and line.
    pub fn record_click(&mut self, point: SelectionPoint, now: u64) -> (r: SelectionMode)
        ensures
            final(self).count == next_click_count(*old(self), point, now),
            final(self).last_point == Some(point),
            final(self).last_at == Some(now),
            r == mode_for_count(final(self).count),
    {
        let within = match (self.last_point, self.last_at) {
            (Some(p), Some(last)) => p == point && last <= now && now - last <= MULTI_CLICK_MAX_DELAY_NANOS,
            _ => false,
        };
        self.count = if within && self.count < 3 { self.count + 1 } else { 1 };
        self.last_point = Some(point);
        self.last_at = Some(now);
        if self.count == 2 {
            SelectionMode::Word
        } else if self.count == 3 {
            SelectionMode::Line
        } else {
            SelectionMode::Simple
        }
    }
}

/// Scrolling direction of a wheel step.
#[derive(Clone, Copy, Debug, Eq, PartialEq, Structural)]
pub enum ScrollDirection {
    Up,
    Down,
}

impl ScrollDirection {
    /// The wheel button reported to applications for this direction.
    pub fn wheel_button(self) -> (r: MouseButton)
        ensures
            r == (if self == ScrollDirection::Up { MouseButton::WheelUp } else { MouseButton::WheelDown }),
    {
        match self {
            ScrollDirection::Up => MouseButton::WheelUp,
            ScrollDirection::Down => MouseButton::WheelDown,
        }
    }
}

/// Where a wheel step goes.
#[derive(Clone, Copy, Debug, Eq, PartialEq, Structural)]
pub enum WheelRouting {
    PtyMouse(MouseButton),
    Scrollback { direction: ScrollDirection, lines: usize },
    Noop,
}

/// A wheel step in `direction` (none for a step without vertical motion)
/// that would scroll `lines` lines: to the application when it reports
/// the mouse, nowhere on the alternate screen, else to the scrollback.
pub fn route_mouse_wheel(
    alternate_screen_enabled: bool,
    mouse_reporting_enabled: bool,
    direction: Option<ScrollDirection>,
    lines: usize,
) -> (r: WheelRouting)
    ensures
        r == (match direction {
            None => WheelRouting::Noop,
            Some(d) => if mouse_reporting_enabled {
                WheelRouting::PtyMouse(if d == ScrollDirection::Up { MouseButton::WheelUp } else { MouseButton::WheelDown })
            } else if alternate_screen_enabled {
                WheelRouting::Noop
            } else {
                WheelRouting::Scrollback { direction: d, lines }
            },
        }),
{
    let direction = match direction {
        Some(d) => d,
        None => return WheelRouting::Noop,
    };
    if mouse_reporting_enabled {
        return WheelRouting::PtyMouse(direction.wheel_button());
    }
    if alternate_screen_enabled {
        return WheelRouting::Noop;
    }
    WheelRouting::Scrollback { direction, lines }
}

// ---------------------------------------------------------------------
// Opening hyperlinks.
// ---------------------------------------------------------------------

/// Why a hyperlink is not opened.
#[derive(Clone, Debug, Eq, PartialEq)]
pub enum HyperlinkUrlError {
    NoAllowedSchemes,
    InvalidUrl,
    DisallowedScheme(String),
}

pub enum UrlDecisionView {
    Open(Seq<char>),
    NoAllowedSchemes,
    InvalidUrl,
    DisallowedScheme(Seq<char>),
}

pub open spec fn url_decision_view(r: Result<String, HyperlinkUrlError>) -> UrlDecisionView {
    match r {
        Ok(s) => UrlDecisionView::Open(s@),
        Err(HyperlinkUrlError::NoAllowedSchemes) => UrlDecisionView::NoAllowedSchemes,
        Err(HyperlinkUrlError::InvalidUrl) => UrlDecisionView::InvalidUrl,
        Err(HyperlinkUrlError::DisallowedScheme(s)) => UrlDecisionView::DisallowedScheme(s@),
    }
}

/// The scheme and the serialization of the URL that `url::Url::parse`
/// makes of `input`, or nothing when it refuses it.
pub uninterp spec fn url_parse_result(input: Seq<char>) -> Option<(Seq<char>, Seq<char>)>;

/// `url::Url::parse(uri)`: on success its `scheme()` and `to_string()`.
#[verifier::external_body]
fn parse_url(uri: &str) -> (r: Option<(String, String)>)
    ensures
        match r {
            Some((scheme, text)) => url_parse_result(uri@) == Some((scheme@, text@)),
            None => url_parse_result(uri@) is None,
        },
{
    match url::Url::parse(uri) {
        Ok(url) => Some((url.scheme().to_owned(), url.to_string())),
        Err(_) => None,
    }
}

pub open spec fn strings_view(v: Seq<String>) -> Seq<Seq<char>> {
    v.map_values(|s: String| s@)
}

/// The decision for a parsed URL (`parsed`: scheme and serialization):
/// open it when its lower-cased scheme is allowed.
pub open spec fn spec_parsed_url_decision(parsed: Option<(Seq<char>, Seq<char>)>, allowed: Seq<Seq<char>>) -> UrlDecisionView {
    match parsed {
        None => UrlDecisionView::InvalidUrl,
        Some((scheme, text)) => if allowed.contains(lower_all(scheme)) {
            UrlDecisionView::Open(text)
        } else {
            UrlDecisionView::DisallowedScheme(lower_all(scheme))
        },
    }
}

pub open spec fn string_pair_view(p: Option<(String, String)>) -> Option<(Seq<char>, Seq<char>)> {
    match p {
        Some((s, t)) => Some((s@, t@)),
        None => None,
    }
}

/// Decide on a URL that has been parsed into its scheme and serialization.
pub fn decide_parsed_url(parsed: Option<(String, String)>, allowed_schemes: &[String]) -> (r: Result<String, HyperlinkUrlError>)
    ensures
        url_decision_view(r) == spec_parsed_url_decision(string_pair_view(parsed), strings_view(allowed_schemes@)),
{
    let ghost parsed_view = string_pair_view(parsed);
    let (raw_scheme, text) = match parsed {
        Some(p) => p,
        None => return Err(HyperlinkUrlError::InvalidUrl),
    };
    assert(parsed_view == Some((raw_scheme@, text@)));
    let scheme = to_ascii_lowercase(raw_scheme.as_str());
    let mut i: usize = 0;
    while i < allowed_schemes.len()
        invariant
            i <= allowed_schemes@.len(),
            parsed_view == Some((raw_scheme@, text@)),
            parsed_view == string_pair_view(parsed),
            scheme@ == lower_all(raw_scheme@),
            forall|j: int| 0 <= j < i ==> strings_view(allowed_schemes@)[j] != scheme@,
        decreases allowed_schemes@.len() - i,
    {
        assert(strings_view(allowed_schemes@)[i as int] == allowed_schemes@[i as int]@);
        if same_chars(allowed_schemes[i].as_str(), scheme.as_str()) {
            assert(strings_view(allowed_schemes@).contains(scheme@));
            return Ok(text);
        }
        i = i + 1;
    }
    Err(HyperlinkUrlError::DisallowedScheme(scheme))
}

/// The URL to open for a hyperlink target, given the allowed schemes
/// (lower case).
pub fn allowed_hyperlink_url(uri: &str, allowed_schemes: &[String]) -> (r: Result<String, HyperlinkUrlError>)
    ensures
        url_decision_view(r) == (if allowed_schemes@.len() == 0 {
            UrlDecisionView::NoAllowedSchemes
        } else {
            spec_parsed_url_decision(url_parse_result(uri@), strings_view(allowed_schemes@))
        }),
{
    if allowed_schemes.len() == 0 {
        return Err(HyperlinkUrlError::NoAllowedSchemes);
    }
    decide_parsed_url(parse_url(uri), allowed_schemes)
}

// ---------------------------------------------------------------------
// Font list and IME placement.
// ---------------------------------------------------------------------

/// Font family names, one per line.
pub open spec fn font_list_text(names: Seq<Seq<char>>) -> Seq<char>
    decreases names.len(),
{
    if names.len() == 0 {
        Seq::empty()
    } else {
        font_list_text(names.drop_last()) + names.last() + "\n"@
    }
}

pub fn format_font_list(names: &[String]) -> (r: String)
    ensures
        r@ == font_list_text(names@.map_values(|n: String| n@)),
{
    let mut output = String::new();
    let mut i: usize = 0;
    while i < names.len()
        invariant
            i <= names@.len(),
            output@ == font_list_text(names@.take(i as int).map_values(|n: String| n@)),
        decreases names.len() - i,
    {
        output.append(names[i].as_str());
        output.append("\n");
        proof {
            let next = names@.take(i + 1).map_values(|n: String| n@);
            assert(next.drop_last() =~= names@.take(i as int).map_values(|n: String| n@));
        }
        i += 1;
    }
    assert(names@.take(i as int) =~= names@);
    output
}

/// Where the input method draws its candidate window: the cursor cell in
/// window pixels.
#[derive(Clone, Copy, Debug, Eq, PartialEq, Structural)]
pub struct ImeCursorArea {
    pub x: u32,
    pub y: u32,
    pub width: u32,
    pub height: u32,
}

/// `a * b`, saturating at `u32::MAX`.
pub open spec fn sat_mul_u32(a: u32, b: u32) -> u32 {
    if a * b > u32::MAX { u32::MAX } else { (a * b) as u32 }
}

fn saturating_mul_u32(a: u32, b: u32) -> (r: u32)
    ensures
        r == sat_mul_u32(a, b),
{
    match a.checked_mul(b) {
        Some(product) => product,
        None => u32::MAX,
    }
}

/// The cursor cell's pixel rectangle (saturating), or nothing while the
/// cursor is hidden.
pub fn ime_cursor_area_for_snapshot(snapshot: &GridSnapshot, metrics: CellMetrics, padding_x: u32, padding_y: u32) -> (r: Option<ImeCursorArea>)
    ensures
        r == (if !snapshot.cursor.visible {
            None
        } else {
            Some(ImeCursorArea {
                x: padding_x.saturating_add(sat_mul_u32(snapshot.cursor.x as u32, metrics.width)),
                y: padding_y.saturating_add(sat_mul_u32(snapshot.cursor.y as u32, metrics.height)),
                width: metrics.width,
                height: metrics.height,
            })
        }),
{
    if !snapshot.cursor.visible {
        return None;
    }
    Some(ImeCursorArea {
        x: padding_x.saturating_add(saturating_mul_u32(snapshot.cursor.x as u32, metrics.width)),
        y: padding_y.saturating_add(saturating_mul_u32(snapshot.cursor.y as u32, metrics.height)),
        width: metrics.width,
        height: metrics.height,
    })
}

} // verus!
