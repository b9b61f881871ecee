//! Cleaning text that applications send: window titles and OSC 8
//! hyperlink ids and targets lose their control characters and are cut to
//! a size limit.

use vstd::prelude::*;
use vstd::string::{StringExecFns, StrSliceExecFns, StringSliceAdditionalSpecFns};
use crate::term::grid::Hyperlink;
use crate::text::{char_is_control, is_control, is_digit};

verus! {

/// Most characters kept of a window title.
pub const MAX_WINDOW_TITLE_CHARS: usize = 1024;

/// Most bytes kept of a hyperlink target.
pub const MAX_HYPERLINK_URI_BYTES: usize = 2048;

/// Most bytes kept of a hyperlink id.
pub const MAX_HYPERLINK_ID_BYTES: usize = 1024;

/// The characters of `s` that are not control characters.
pub open spec fn without_controls(s: Seq<char>) -> Seq<char>
    decreases s.len(),
{
    if s.len() == 0 {
        Seq::empty()
    } else {
        without_controls(s.drop_last()) + (if is_control(s.last()) { Seq::empty() } else { seq![s.last()] })
    }
}

/// At most the first `n` entries of `s`.
pub open spec fn at_most<T>(s: Seq<T>, n: nat) -> Seq<T> {
    if s.len() <= n { s } else { s.take(n as int) }
}

/// A window title: its non-control characters, at most 1024 of them.
pub open spec fn spec_sanitize_window_title(title: Seq<char>) -> Seq<char> {
    at_most(without_controls(title), MAX_WINDOW_TITLE_CHARS as nat)
}

pub fn sanitize_window_title(title: &str) -> (r: String)
    ensures
        r@ == spec_sanitize_window_title(title@),
{
    let mut out = String::new();
    let n = title.unicode_len();
    let mut count: usize = 0;
    let mut i: usize = 0;
    while i < n
        invariant
            n == title@.len(),
            i <= n,
            out@ == at_most(without_controls(title@.take(i as int)), MAX_WINDOW_TITLE_CHARS as nat),
            count == out@.len(),
        decreases n - i,
    {
        let c = title.get_char(i);
        assert(title@.take(i + 1).drop_last() =~= title@.take(i as int));
        if !char_is_control(c) && count < MAX_WINDOW_TITLE_CHARS {
            let piece = title.substring_char(i, i + 1);
            assert(piece@ =~= seq![c]);
            out.append(piece);
            count = count + 1;
        }
        i = i + 1;
    }
    assert(title@.take(n as int) =~= title@);
    out
}

/// Bytes of the UTF-8 encoding of `c`.
pub open spec fn utf8_len(c: char) -> nat {
    if (c as u32) < 0x80 {
        1
    } else if (c as u32) < 0x800 {
        2
    } else if (c as u32) < 0x10000 {
        3
    } else {
        4
    }
}

pub fn char_utf8_len(c: char) -> (r: usize)
    ensures
        r == utf8_len(c),
{
    let v = c as u32;
    if v < 0x80 {
        1
    } else if v < 0x800 {
        2
    } else if v < 0x10000 {
        3
    } else {
        4
    }
}

/// The non-control characters of `s`, in order, for as long as their
/// UTF-8 size, added to `used` bytes, stays within `max_bytes`; the first
/// character that does not fit ends the text.
pub open spec fn limited_text(s: Seq<char>, used: nat, max_bytes: nat) -> Seq<char>
    decreases s.len(),
{
    if s.len() == 0 {
        Seq::empty()
    } else if is_control(s[0]) {
        limited_text(s.drop_first(), used, max_bytes)
    } else if used + utf8_len(s[0]) > max_bytes {
        Seq::empty()
    } else {
        seq![s[0]] + limited_text(s.drop_first(), used + utf8_len(s[0]), max_bytes)
    }
}

pub fn sanitize_hyperlink_text(value: &str, max_bytes: usize) -> (r: String)
    ensures
        r@ == limited_text(value@, 0, max_bytes as nat),
{
    let mut out = String::new();
    let n = value.unicode_len();
    let mut used: usize = 0;
    let mut i: usize = 0;
    let mut stopped = false;
    assert(value@.skip(0) =~= value@);
    while i < n && !stopped
        invariant
            n == value@.len(),
            i <= n,
            used <= max_bytes,
            stopped ==> limited_text(value@, 0, max_bytes as nat) == out@,
            !stopped ==> limited_text(value@, 0, max_bytes as nat)
                == out@ + limited_text(value@.skip(i as int), used as nat, max_bytes as nat),
        decreases n - i,
    {
        let c = value.get_char(i);
        let ghost rest = value@.skip(i as int);
        assert(rest[0] == c);
        assert(rest.drop_first() =~= value@.skip(i + 1));
        if !char_is_control(c) {
            let w = char_utf8_len(c);
            if w > max_bytes - used {
                assert(out@ + Seq::<char>::empty() =~= out@);
                stopped = true;
            } else {
                let piece = value.substring_char(i, i + 1);
                assert(piece@ =~= seq![c]);
                let ghost before = out@;
                out.append(piece);
                assert(before + (seq![c] + limited_text(value@.skip(i + 1), (used + w) as nat, max_bytes as nat))
                    =~= out@ + limited_text(value@.skip(i + 1), (used + w) as nat, max_bytes as nat));
                used = used + w;
            }
        }
        i = i + 1;
    }
    if !stopped {
        assert(value@.skip(i as int) =~= Seq::<char>::empty());
        assert(out@ + Seq::<char>::empty() =~= out@);
    }
    out
}

/// `_alacritty` as bytes.
pub open spec fn alacritty_suffix() -> Seq<u8> {
    seq![0x5fu8, 0x61u8, 0x6cu8, 0x61u8, 0x63u8, 0x72u8, 0x69u8, 0x74u8, 0x74u8, 0x79u8]
}

/// Ids that the emulator makes up for links without one: decimal digits
/// followed by `_alacritty`.
pub open spec fn spec_is_generated_hyperlink_id(id: Seq<u8>) -> bool {
    &&& id.len() > alacritty_suffix().len()
    &&& id.skip(id.len() - alacritty_suffix().len()) == alacritty_suffix()
    &&& forall|i: int| 0 <= i < id.len() - alacritty_suffix().len() ==> is_digit(#[trigger] id[i])
}

pub fn is_alacritty_generated_hyperlink_id(id: &str) -> (r: bool)
    ensures
        r == spec_is_generated_hyperlink_id(id.spec_bytes()),
{
    let bytes = id.as_bytes();
    let suffix: [u8; 10] = [0x5f, 0x61, 0x6c, 0x61, 0x63, 0x72, 0x69, 0x74, 0x74, 0x79];
    assert(suffix@ =~= alacritty_suffix());
    if bytes.len() <= 10 {
        return false;
    }
    let cut = bytes.len() - 10;
    let mut j: usize = 0;
    while j < 10
        invariant
            bytes@ == id.spec_bytes(),
            bytes@.len() > 10,
            cut == bytes.len() - 10,
            suffix@ == alacritty_suffix(),
            j <= 10,
            forall|k: int| 0 <= k < j ==> bytes@[cut + k] == suffix@[k],
        decreases 10 - j,
    {
        if bytes[cut + j] != suffix[j] {
            assert(bytes@.skip(cut as int)[j as int] != alacritty_suffix()[j as int]);
            return false;
        }
        j = j + 1;
    }
    assert(bytes@.skip(cut as int) =~= alacritty_suffix());
    let mut i: usize = 0;
    while i < cut
        invariant
            bytes@ == id.spec_bytes(),
            cut < bytes@.len(),
            cut == bytes@.len() - alacritty_suffix().len(),
            bytes@.skip(cut as int) == alacritty_suffix(),
            i <= cut,
            forall|k: int| 0 <= k < i ==> is_digit(#[trigger] bytes@[k]),
        decreases cut - i,
    {
        if bytes[i] < 0x30 || bytes[i] > 0x39 {
            return false;
        }
        i = i + 1;
    }
    true
}

/// A hyperlink id to keep: none for generated ids or ids that clean up to nothing.
pub open spec fn spec_sanitize_hyperlink_id(id: &str) -> Option<Seq<char>> {
    if spec_is_generated_hyperlink_id(id.spec_bytes()) {
        None
    } else {
        let clean = limited_text(id@, 0, MAX_HYPERLINK_ID_BYTES as nat);
        if clean.len() == 0 { None } else { Some(clean) }
    }
}

pub fn sanitize_hyperlink_id(id: &str) -> (r: Option<String>)
    ensures
        match r {
            Some(s) => spec_sanitize_hyperlink_id(id) == Some(s@),
            None => spec_sanitize_hyperlink_id(id) is None,
        },
{
    if is_alacritty_generated_hyperlink_id(id) {
        return None;
    }
    let clean = sanitize_hyperlink_text(id, MAX_HYPERLINK_ID_BYTES);
    if clean.unicode_len() == 0 {
        None
    } else {
        Some(clean)
    }
}

/// The hyperlink for an id and a target as the application sent them:
/// none when the cleaned target is empty.
pub fn hyperlink_from_parts(id: &str, uri: &str) -> (r: Option<Hyperlink>)
    ensures
        match r {
            Some(h) => {
                &&& limited_text(uri@, 0, MAX_HYPERLINK_URI_BYTES as nat).len() > 0
                &&& h.uri@ == limited_text(uri@, 0, MAX_HYPERLINK_URI_BYTES as nat)
                &&& match h.id {
                    Some(s) => spec_sanitize_hyperlink_id(id) == Some(s@),
                    None => spec_sanitize_hyperlink_id(id) is None,
                }
            },
            None => limited_text(uri@, 0, MAX_HYPERLINK_URI_BYTES as nat).len() == 0,
        },
{
    let clean_uri = sanitize_hyperlink_text(uri, MAX_HYPERLINK_URI_BYTES);
    if clean_uri.unicode_len() == 0 {
        return None;
    }
    Some(Hyperlink { id: sanitize_hyperlink_id(id), uri: clean_uri })
}


proof fn lemma_without_controls_clean(s: Seq<char>)
    ensures
        forall|i: int| 0 <= i < without_controls(s).len() ==> !is_control(#[trigger] without_controls(s)[i]),
        without_controls(s).len() <= s.len(),
    decreases s.len(),
{
    if s.len() > 0 {
        lemma_without_controls_clean(s.drop_last());
    }
}

/// A sanitized window title has no control characters and at most 1024
/// characters.
pub proof fn lemma_sanitized_title_is_clean(title: Seq<char>)
    ensures
        spec_sanitize_window_title(title).len() <= MAX_WINDOW_TITLE_CHARS,
        forall|i: int| 0 <= i < spec_sanitize_window_title(title).len()
            ==> !is_control(#[trigger] spec_sanitize_window_title(title)[i]),
{
    lemma_without_controls_clean(title);
}

/// UTF-8 size of a character sequence, by `utf8_len`.
pub open spec fn utf8_size(s: Seq<char>) -> nat
    decreases s.len(),
{
    if s.len() == 0 { 0 } else { utf8_len(s[0]) + utf8_size(s.drop_first()) }
}

/// Limited hyperlink text has no control characters and fits the byte budget.
pub proof fn lemma_limited_text_is_clean(s: Seq<char>, used: nat, max_bytes: nat)
    ensures
        used + utf8_size(limited_text(s, used, max_bytes)) <= (if used <= max_bytes { max_bytes } else { used }),
        forall|i: int| 0 <= i < limited_text(s, used, max_bytes).len()
            ==> !is_control(#[trigger] limited_text(s, used, max_bytes)[i]),
    decreases s.len(),
{
    if s.len() > 0 {
        if is_control(s[0]) {
            lemma_limited_text_is_clean(s.drop_first(), used, max_bytes);
        } else if used + utf8_len(s[0]) > max_bytes {
        } else {
            lemma_limited_text_is_clean(s.drop_first(), used + utf8_len(s[0]), max_bytes);
            let rest = limited_text(s.drop_first(), used + utf8_len(s[0]), max_bytes);
            assert((seq![s[0]] + rest).drop_first() =~= rest);
            assert forall|i: int| 0 <= i < limited_text(s, used, max_bytes).len()
                implies !is_control(#[trigger] limited_text(s, used, max_bytes)[i]) by {
                if i > 0 {
                    assert(limited_text(s, used, max_bytes)[i] == rest[i - 1]);
                }
            }
        }
    }
}
} // verus!
