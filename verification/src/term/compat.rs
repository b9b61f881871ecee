//! Control sequences that the terminal handles itself before the emulator
//! sees the output: alternate screen and cursor save/restore by mode 1047
//! and 1048, and the mouse and focus reporting modes.

use vstd::prelude::*;
use crate::term::mouse::CompatPrivateMode;
use crate::text::{all_digits, digits_value, find_byte, is_first_index, parse_digits_u32, split_bytes, ESC};

verus! {

/// The 8-bit control sequence introducer.
pub const CSI: u8 = 0x9b;

/// Longest unfinished sequence kept while waiting for more output.
pub const MAX_COMPAT_CSI_LEN: usize = 64;

/// What a recognized sequence asks the terminal to do.
#[derive(Clone, Debug, Eq, PartialEq)]
pub enum CompatAction {
    SetAltScreen,
    ResetAltScreen,
    SaveCursor,
    RestoreCursor,
    PrivateModes { modes: Vec<CompatPrivateMode>, enabled: bool },
}

pub enum CompatActionView {
    SetAltScreen,
    ResetAltScreen,
    SaveCursor,
    RestoreCursor,
    PrivateModes { modes: Seq<CompatPrivateMode>, enabled: bool },
}

impl View for CompatAction {
    type V = CompatActionView;

    open spec fn view(&self) -> CompatActionView {
        match self {
            CompatAction::SetAltScreen => CompatActionView::SetAltScreen,
            CompatAction::ResetAltScreen => CompatActionView::ResetAltScreen,
            CompatAction::SaveCursor => CompatActionView::SaveCursor,
            CompatAction::RestoreCursor => CompatActionView::RestoreCursor,
            CompatAction::PrivateModes { modes, enabled } => CompatActionView::PrivateModes { modes: modes@, enabled: *enabled },
        }
    }
}

pub open spec fn option_action_view(a: Option<CompatAction>) -> Option<CompatActionView> {
    match a {
        Some(a) => Some(a@),
        None => None,
    }
}

/// What the output holds at a position.
#[derive(Clone, Debug, Eq, PartialEq)]
pub enum CsiScan {
    /// No control sequence starts here.
    NotCsi,
    /// A sequence starts here but its end has not arrived yet.
    Incomplete,
    /// A sequence ends at `end`; `action` if the terminal handles it.
    Complete { end: usize, action: Option<CompatAction> },
}

pub enum CsiScanView {
    NotCsi,
    Incomplete,
    Complete { end: int, action: Option<CompatActionView> },
}

pub open spec fn csi_scan_view(s: CsiScan) -> CsiScanView {
    match s {
        CsiScan::NotCsi => CsiScanView::NotCsi,
        CsiScan::Incomplete => CsiScanView::Incomplete,
        CsiScan::Complete { end, action } => CsiScanView::Complete { end: end as int, action: option_action_view(action) },
    }
}

pub open spec fn spec_compat_private_mode(mode: u16) -> Option<CompatPrivateMode> {
    if mode == 9 {
        Some(CompatPrivateMode::X10Mouse)
    } else if mode == 1000 {
        Some(CompatPrivateMode::NormalMouse)
    } else if mode == 1002 {
        Some(CompatPrivateMode::ButtonMotionMouse)
    } else if mode == 1003 {
        Some(CompatPrivateMode::AnyMotionMouse)
    } else if mode == 1004 {
        Some(CompatPrivateMode::FocusEvents)
    } else if mode == 1006 {
        Some(CompatPrivateMode::SgrMouse)
    } else if mode == 1005 || mode == 1015 || mode == 1016 {
        Some(CompatPrivateMode::UnsupportedMouseEncoding)
    } else {
        None
    }
}

pub fn compat_private_mode(mode: u16) -> (r: Option<CompatPrivateMode>)
    ensures
        r == spec_compat_private_mode(mode),
{
    match mode {
        9 => Some(CompatPrivateMode::X10Mouse),
        1000 => Some(CompatPrivateMode::NormalMouse),
        1002 => Some(CompatPrivateMode::ButtonMotionMouse),
        1003 => Some(CompatPrivateMode::AnyMotionMouse),
        1004 => Some(CompatPrivateMode::FocusEvents),
        1006 => Some(CompatPrivateMode::SgrMouse),
        1005 | 1015 | 1016 => Some(CompatPrivateMode::UnsupportedMouseEncoding),
        _ => None,
    }
}

/// A mode number: one or more decimal digits, at most 65535.
pub open spec fn spec_parse_private_mode(bytes: Seq<u8>) -> Option<u16> {
    if bytes.len() > 0 && all_digits(bytes) && digits_value(bytes) <= u16::MAX {
        Some(digits_value(bytes) as u16)
    } else {
        None
    }
}

pub fn parse_private_mode(bytes: &[u8]) -> (r: Option<u16>)
    ensures
        r == spec_parse_private_mode(bytes@),
{
    match parse_digits_u32(bytes) {
        Some(v) => if v <= 0xffff {
            Some(v as u16)
        } else {
            None
        },
        None => {
            proof {
                if bytes@.len() > 0 && all_digits(bytes@) {
                    assert(digits_value(bytes@) > u32::MAX);
                }
            }
            None
        },
    }
}

/// Mode numbers of `pieces` appended to `acc`; nothing if one is not a number.
pub open spec fn modes_from(pieces: Seq<Seq<u8>>, acc: Seq<u16>) -> Option<Seq<u16>>
    decreases pieces.len(),
{
    if pieces.len() == 0 {
        Some(acc)
    } else {
        match spec_parse_private_mode(pieces[0]) {
            None => None,
            Some(m) => modes_from(pieces.drop_first(), acc.push(m)),
        }
    }
}

/// The `;`-separated mode numbers of a parameter string.
pub open spec fn spec_parse_private_modes(bytes: Seq<u8>) -> Option<Seq<u16>> {
    match modes_from(split_bytes(bytes, 0x3b), Seq::empty()) {
        Some(modes) => if modes.len() == 0 { None } else { Some(modes) },
        None => None,
    }
}

/// `split_bytes` always yields at least one piece.
pub proof fn lemma_split_nonempty(s: Seq<u8>, sep: u8)
    ensures
        split_bytes(s, sep).len() >= 1,
    decreases s.len(),
{
    if exists|i: int| is_first_index(s, sep, i) {
        let i = choose|i: int| is_first_index(s, sep, i);
        lemma_split_nonempty(s.skip(i + 1), sep);
    }
}

/// The mode list only grows.
pub proof fn lemma_modes_from_len(pieces: Seq<Seq<u8>>, acc: Seq<u16>)
    ensures
        modes_from(pieces, acc) matches Some(m) ==> m.len() == acc.len() + pieces.len(),
    decreases pieces.len(),
{
    if pieces.len() > 0 {
        match spec_parse_private_mode(pieces[0]) {
            None => {},
            Some(m) => lemma_modes_from_len(pieces.drop_first(), acc.push(m)),
        }
    }
}

pub fn parse_private_modes(bytes: &[u8]) -> (r: Option<Vec<u16>>)
    ensures
        match r {
            Some(v) => spec_parse_private_modes(bytes@) == Some(v@),
            None => spec_parse_private_modes(bytes@) is None,
        },
{
    let mut modes: Vec<u16> = Vec::new();
    let ghost all = split_bytes(bytes@, 0x3b);
    proof {
        lemma_split_nonempty(bytes@, 0x3b);
        lemma_modes_from_len(all, Seq::empty());
    }
    let mut start: usize = 0;
    assert(bytes@.skip(0) =~= bytes@);
    assert(modes@ =~= Seq::<u16>::empty());
    loop
        invariant
            start <= bytes@.len(),
            all == split_bytes(bytes@, 0x3b),
            modes_from(all, Seq::empty()) == modes_from(split_bytes(bytes@.skip(start as int), 0x3b), modes@),
        decreases bytes@.len() - start,
    {
        let rest = &bytes[start..bytes.len()];
        assert(rest@ =~= bytes@.skip(start as int));
        let ghost pieces = split_bytes(rest@, 0x3b);
        match find_byte(rest, 0x3b) {
            Some(i) => {
                let piece = &rest[0..i];
                assert(piece@ =~= rest@.take(i as int));
                assert(rest@.skip(i + 1) =~= bytes@.skip(start + i + 1));
                assert(pieces[0] == piece@);
                assert(pieces.drop_first() =~= split_bytes(rest@.skip(i + 1), 0x3b));
                match parse_private_mode(piece) {
                    Some(m) => modes.push(m),
                    None => return None,
                }
                start = start + i + 1;
            },
            None => {
                assert(!exists|j: int| is_first_index(rest@, 0x3b, j));
                assert(pieces =~= seq![rest@]);
                assert(pieces.drop_first() =~= Seq::<Seq<u8>>::empty());
                match parse_private_mode(rest) {
                    Some(m) => modes.push(m),
                    None => return None,
                }
                assert(modes_from(Seq::empty(), modes@) == Some(modes@));
                assert(modes_from(all, Seq::empty()) == Some(modes@));
                return Some(modes);
            },
        }
    }
}

/// Map mode numbers to the modes the terminal handles; nothing if one is unknown.
pub open spec fn private_modes_from(modes: Seq<u16>, acc: Seq<CompatPrivateMode>) -> Option<Seq<CompatPrivateMode>>
    decreases modes.len(),
{
    if modes.len() == 0 {
        Some(acc)
    } else {
        match spec_compat_private_mode(modes[0]) {
            None => None,
            Some(m) => private_modes_from(modes.drop_first(), acc.push(m)),
        }
    }
}

/// The action for a private mode sequence `CSI ? <modes> h` (set) or `l`
/// (reset): the screen and cursor actions for a lone 1047 or 1048, else
/// the mouse and focus modes when all of them are known.
pub open spec fn spec_compat_action(params: Seq<u8>, final_byte: u8) -> Option<CompatActionView> {
    if final_byte != 0x68 && final_byte != 0x6c {
        None
    } else if params.len() == 0 || params[0] != 0x3f {
        None
    } else {
        match spec_parse_private_modes(params.skip(1)) {
            None => None,
            Some(modes) => if modes.len() == 1 && modes[0] == 1047 {
                Some(if final_byte == 0x68 { CompatActionView::SetAltScreen } else { CompatActionView::ResetAltScreen })
            } else if modes.len() == 1 && modes[0] == 1048 {
                Some(if final_byte == 0x68 { CompatActionView::SaveCursor } else { CompatActionView::RestoreCursor })
            } else {
                match private_modes_from(modes, Seq::empty()) {
                    None => None,
                    Some(pm) => if pm.len() == 0 {
                        None
                    } else {
                        Some(CompatActionView::PrivateModes { modes: pm, enabled: final_byte == 0x68 })
                    },
                }
            },
        }
    }
}

pub fn compat_action(params: &[u8], final_byte: u8) -> (r: Option<CompatAction>)
    ensures
        option_action_view(r) == spec_compat_action(params@, final_byte),
{
    if final_byte != 0x68 && final_byte != 0x6c {
        return None;
    }
    if params.len() == 0 || params[0] != 0x3f {
        return None;
    }
    let rest = &params[1..params.len()];
    assert(rest@ =~= params@.skip(1));
    let modes = match parse_private_modes(rest) {
        Some(m) => m,
        None => return None,
    };
    if modes.len() == 1 {
        if modes[0] == 1047 {
            return Some(if final_byte == 0x68 { CompatAction::SetAltScreen } else { CompatAction::ResetAltScreen });
        }
        if modes[0] == 1048 {
            return Some(if final_byte == 0x68 { CompatAction::SaveCursor } else { CompatAction::RestoreCursor });
        }
    }
    let mut private_modes: Vec<CompatPrivateMode> = Vec::new();
    let mut i: usize = 0;
    assert(modes@.skip(0) =~= modes@);
    while i < modes.len()
        invariant
            i <= modes@.len(),
            final_byte == 0x68 || final_byte == 0x6c,
            params@.len() > 0 && params@[0] == 0x3f,
            spec_parse_private_modes(params@.skip(1)) == Some(modes@),
            !(modes@.len() == 1 && (modes@[0] == 1047 || modes@[0] == 1048)),
            private_modes_from(modes@, Seq::empty()) == private_modes_from(modes@.skip(i as int), private_modes@),
        decreases modes@.len() - i,
    {
        assert(modes@.skip(i as int)[0] == modes@[i as int]);
        assert(modes@.skip(i as int).drop_first() =~= modes@.skip(i + 1));
        match compat_private_mode(modes[i]) {
            Some(m) => private_modes.push(m),
            None => return None,
        }
        i = i + 1;
    }
    assert(modes@.skip(i as int) =~= Seq::<u16>::empty());
    if private_modes.len() == 0 {
        return None;
    }
    Some(CompatAction::PrivateModes { modes: private_modes, enabled: final_byte == 0x68 })
}

/// Whether `b` ends a control sequence.
pub open spec fn is_final_byte(b: u8) -> bool {
    0x40 <= b <= 0x7e
}

/// `i` is the first position from `body` on that holds a final byte.
pub open spec fn is_first_final(input: Seq<u8>, body: int, i: int) -> bool {
    &&& body <= i < input.len()
    &&& is_final_byte(input[i])
    &&& forall|j: int| body <= j < i ==> !is_final_byte(#[trigger] input[j])
}

pub open spec fn scan_body(input: Seq<u8>, start: int, body: int) -> CsiScanView {
    if exists|i: int| is_first_final(input, body, i) {
        let i = choose|i: int| is_first_final(input, body, i);
        CsiScanView::Complete { end: i, action: spec_compat_action(input.subrange(body, i), input[i]) }
    } else if input.len() - start > MAX_COMPAT_CSI_LEN {
        CsiScanView::NotCsi
    } else {
        CsiScanView::Incomplete
    }
}

/// What starts at `start`: `ESC [` or the 8-bit introducer begins a
/// sequence, which ends at the first byte from `@` to `~`; a sequence
/// still open after more than 64 bytes is treated as ordinary output.
pub open spec fn spec_scan_csi(input: Seq<u8>, start: int) -> CsiScanView {
    if start < 0 || start >= input.len() {
        CsiScanView::NotCsi
    } else if input[start] == ESC {
        if start + 1 >= input.len() {
            CsiScanView::Incomplete
        } else if input[start + 1] != 0x5b {
            CsiScanView::NotCsi
        } else {
            scan_body(input, start, start + 2)
        }
    } else if input[start] == CSI {
        scan_body(input, start, start + 1)
    } else {
        CsiScanView::NotCsi
    }
}

pub fn scan_csi(input: &[u8], start: usize) -> (r: CsiScan)
    ensures
        csi_scan_view(r) == spec_scan_csi(input@, start as int),
        r matches CsiScan::Complete { end, action } ==> start < end < input@.len(),
{
    if start >= input.len() {
        return CsiScan::NotCsi;
    }
    let first = input[start];
    let body_start = if first == ESC {
        if start + 1 >= input.len() {
            return CsiScan::Incomplete;
        }
        if input[start + 1] != 0x5b {
            return CsiScan::NotCsi;
        }
        start + 2
    } else if first == CSI {
        start + 1
    } else {
        return CsiScan::NotCsi;
    };
    let mut index = body_start;
    assert(spec_scan_csi(input@, start as int) == scan_body(input@, start as int, body_start as int));
    while index < input.len()
        invariant
            start < body_start <= index <= input@.len(),
            spec_scan_csi(input@, start as int) == scan_body(input@, start as int, body_start as int),
            forall|j: int| body_start <= j < index ==> !is_final_byte(#[trigger] input@[j]),
        decreases input@.len() - index,
    {
        let byte = input[index];
        if 0x40 <= byte && byte <= 0x7e {
            assert(is_first_final(input@, body_start as int, index as int));
            let ghost k = choose|k: int| is_first_final(input@, body_start as int, k);
            assert(k == index) by {
                if k < index {
                    assert(!is_final_byte(input@[k]));
                } else if k > index {
                    assert(!is_final_byte(input@[index as int]));
                }
            }
            let params = &input[body_start..index];
            assert(params@ =~= input@.subrange(body_start as int, index as int));
            return CsiScan::Complete { end: index, action: compat_action(params, byte) };
        }
        index = index + 1;
    }
    if input.len() - start > MAX_COMPAT_CSI_LEN {
        CsiScan::NotCsi
    } else {
        CsiScan::Incomplete
    }
}

// ---------------------------------------------------------------------
// Splitting output into terminal input and handled sequences.
// ---------------------------------------------------------------------

pub proof fn lemma_scan_csi_end(input: Seq<u8>, start: int)
    ensures
        spec_scan_csi(input, start) matches CsiScanView::Complete { end, .. } ==> start < end < input.len(),
{
}

/// One step of processing a chunk of output.
#[derive(Clone, Debug, Eq, PartialEq)]
pub enum CompatStep {
    /// Feed `input[start..end]` to the terminal emulator.
    Vte { start: usize, end: usize },
    /// Apply a handled control sequence.
    Action(CompatAction),
}

pub enum CompatStepView {
    Vte(int, int),
    Action(CompatActionView),
}

impl View for CompatStep {
    type V = CompatStepView;

    open spec fn view(&self) -> CompatStepView {
        match self {
            CompatStep::Vte { start, end } => CompatStepView::Vte(*start as int, *end as int),
            CompatStep::Action(action) => CompatStepView::Action(action@),
        }
    }
}

/// The steps for a chunk of output, and how many of its bytes they cover;
/// the rest is an unfinished control sequence kept for the next chunk.
#[derive(Clone, Debug, Eq, PartialEq)]
pub struct CompatPlan {
    pub steps: Vec<CompatStep>,
    pub consumed: usize,
}

pub open spec fn steps_view(steps: Seq<CompatStep>) -> Seq<CompatStepView> {
    steps.map_values(|step: CompatStep| step@)
}

/// A step feeding `input[start..end]`, when that range is not empty.
pub open spec fn vte_steps(start: int, end: int) -> Seq<CompatStepView> {
    if start < end { seq![CompatStepView::Vte(start, end)] } else { Seq::empty() }
}

/// The steps from `cursor` on, with output since `chunk_start` not yet
/// fed: ordinary output and sequences the terminal does not handle are fed
/// in one piece up to each handled sequence, which becomes its own step; an
/// unfinished sequence ends the chunk.
pub open spec fn spec_plan_from(input: Seq<u8>, chunk_start: int, cursor: int) -> (Seq<CompatStepView>, int)
    decreases input.len() - cursor,
{
    if cursor < 0 || cursor >= input.len() {
        (vte_steps(chunk_start, cursor), cursor)
    } else {
        match spec_scan_csi(input, cursor) {
            CsiScanView::NotCsi => spec_plan_from(input, chunk_start, cursor + 1),
            CsiScanView::Incomplete => (vte_steps(chunk_start, cursor), cursor),
            CsiScanView::Complete { end, action } => {
                proof {
                    lemma_scan_csi_end(input, cursor);
                }
                match action {
                    Some(a) => {
                        let rest = spec_plan_from(input, end + 1, end + 1);
                        (vte_steps(chunk_start, cursor) + seq![CompatStepView::Action(a)] + rest.0, rest.1)
                    },
                    None => spec_plan_from(input, chunk_start, end + 1),
                }
            },
        }
    }
}

/// Plans the processing of one chunk of output.
pub fn plan_compat_input(input: &[u8]) -> (r: CompatPlan)
    ensures
        steps_view(r.steps@) == spec_plan_from(input@, 0, 0).0,
        r.consumed as int == spec_plan_from(input@, 0, 0).1,
{
    let ghost s = input@;
    let mut steps: Vec<CompatStep> = Vec::new();
    let mut chunk_start: usize = 0;
    let mut cursor: usize = 0;
    while cursor < input.len()
        invariant
            s == input@,
            chunk_start <= cursor <= input@.len(),
            steps_view(steps@) + spec_plan_from(s, chunk_start as int, cursor as int).0 == spec_plan_from(s, 0, 0).0,
            spec_plan_from(s, chunk_start as int, cursor as int).1 == spec_plan_from(s, 0, 0).1,
        decreases input.len() - cursor,
    {
        let scan = scan_csi(input, cursor);
        match scan {
            CsiScan::NotCsi => {
                cursor += 1;
            },
            CsiScan::Incomplete => {
                let ghost before = steps@;
                if chunk_start < cursor {
                    steps.push(CompatStep::Vte { start: chunk_start, end: cursor });
                }
                assert(steps_view(steps@) =~= steps_view(before) + vte_steps(chunk_start as int, cursor as int));
                assert(steps_view(steps@) =~= spec_plan_from(s, 0, 0).0);
                return CompatPlan { steps, consumed: cursor };
            },
            CsiScan::Complete { end, action } => {
                match action {
                    Some(a) => {
                        let ghost before = steps@;
                        if chunk_start < cursor {
                            steps.push(CompatStep::Vte { start: chunk_start, end: cursor });
                        }
                        let ghost a_view = a@;
                        steps.push(CompatStep::Action(a));
                        assert(steps_view(steps@) =~= steps_view(before) + vte_steps(chunk_start as int, cursor as int)
                            + seq![CompatStepView::Action(a_view)]);
                        cursor = end + 1;
                        chunk_start = cursor;
                    },
                    None => {
                        cursor = end + 1;
                    },
                }
            },
        }
    }
    let ghost before = steps@;
    if chunk_start < cursor {
        steps.push(CompatStep::Vte { start: chunk_start, end: cursor });
    }
    assert(steps_view(steps@) =~= steps_view(before) + vte_steps(chunk_start as int, cursor as int));
    assert(steps_view(steps@) =~= spec_plan_from(s, 0, 0).0);
    CompatPlan { steps, consumed: cursor }
}

/// The ranges of a plan from `chunk_start`, `cursor` lie between
/// `chunk_start` and what the plan consumes, and the plan stops early only
/// at an unfinished control sequence.
proof fn lemma_plan_from_bounds(input: Seq<u8>, chunk_start: int, cursor: int)
    requires
        0 <= chunk_start <= cursor <= input.len(),
    ensures
        ({
            let (steps, consumed) = spec_plan_from(input, chunk_start, cursor);
            &&& cursor <= consumed <= input.len()
            &&& consumed < input.len() ==> spec_scan_csi(input, consumed) == CsiScanView::Incomplete
            &&& forall|i: int| 0 <= i < steps.len() ==> (#[trigger] steps[i] matches CompatStepView::Vte(a, b)
                ==> chunk_start <= a < b <= consumed)
        }),
    decreases input.len() - cursor,
{
    if cursor < input.len() {
        lemma_scan_csi_end(input, cursor);
        match spec_scan_csi(input, cursor) {
            CsiScanView::NotCsi => {
                lemma_plan_from_bounds(input, chunk_start, cursor + 1);
            },
            CsiScanView::Incomplete => {},
            CsiScanView::Complete { end, action } => {
                match action {
                    Some(a) => {
                        lemma_plan_from_bounds(input, end + 1, end + 1);
                        let rest = spec_plan_from(input, end + 1, end + 1);
                        let head = vte_steps(chunk_start, cursor) + seq![CompatStepView::Action(a)];
                        let steps = head + rest.0;
                        assert forall|i: int| 0 <= i < steps.len() implies (#[trigger] steps[i] matches CompatStepView::Vte(x, y)
                            ==> chunk_start <= x < y <= rest.1) by {
                            if i >= head.len() {
                                assert(steps[i] == rest.0[i - head.len()]);
                            }
                        }
                    },
                    None => {
                        lemma_plan_from_bounds(input, chunk_start, end + 1);
                    },
                }
            },
        }
    }
}

/// A plan feeds the emulator only non-empty ranges within what it consumes,
/// and leaves bytes over only when they start an unfinished control
/// sequence.
pub proof fn lemma_plan_covers_consumed_prefix(input: Seq<u8>)
    ensures
        ({
            let (steps, consumed) = spec_plan_from(input, 0, 0);
            &&& 0 <= consumed <= input.len()
            &&& consumed < input.len() ==> spec_scan_csi(input, consumed) == CsiScanView::Incomplete
            &&& forall|i: int| 0 <= i < steps.len() ==> (#[trigger] steps[i] matches CompatStepView::Vte(a, b)
                ==> 0 <= a < b <= consumed)
        }),
{
    lemma_plan_from_bounds(input, 0, 0);
}

/// `bytes` hold a full reset, `ESC c`.
pub open spec fn spec_contains_full_reset(bytes: Seq<u8>) -> bool {
    exists|i: int| 0 <= i && i + 1 < bytes.len() && bytes[i] == 0x1bu8 && #[trigger] bytes[i + 1] == 0x63u8
}

/// Whether `bytes` hold a full reset, which also drops images and Kitty ids.
pub fn contains_full_reset(bytes: &[u8]) -> (r: bool)
    ensures
        r == spec_contains_full_reset(bytes@),
{
    let mut i: usize = 0;
    while i < bytes.len() && i + 1 < bytes.len()
        invariant
            i <= bytes@.len(),
            forall|j: int| 0 <= j < i && j + 1 < bytes@.len() ==> !(bytes@[j] == 0x1bu8 && #[trigger] bytes@[j + 1] == 0x63u8),
        decreases bytes@.len() - i,
    {
        if bytes[i] == 0x1b && bytes[i + 1] == 0x63 {
            return true;
        }
        i += 1;
    }
    proof {
        assert forall|j: int| 0 <= j && j + 1 < bytes@.len() implies !(bytes@[j] == 0x1bu8 && #[trigger] bytes@[j + 1] == 0x63u8) by {
            assert(j < i);
        }
    }
    false
}

} // verus!
