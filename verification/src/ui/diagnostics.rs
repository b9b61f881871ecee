//! Graphics diagnostics: counting Kitty APC starts and string terminators
//! in raw PTY reads, including markers split between reads, and short hex
//! previews of each read.

use vstd::prelude::*;
use vstd::string::{StringExecFns, StrSliceExecFns};
use crate::text::{push_slice, ESC};

verus! {

/// Bytes shown at each edge of a read.
pub const HEX_EDGE_BYTES: usize = 16;

/// `ESC _ G`: start of a Kitty graphics command.
pub open spec fn kitty_start() -> Seq<u8> {
    seq![ESC, 0x5fu8, 0x47u8]
}

/// `ESC \`: string terminator.
pub open spec fn string_terminator() -> Seq<u8> {
    seq![ESC, 0x5cu8]
}

/// `needle` occurs in `bytes` at position `s`.
pub open spec fn occurs_at(bytes: Seq<u8>, s: int, needle: Seq<u8>) -> bool {
    0 <= s && s + needle.len() <= bytes.len() && bytes.subrange(s, s + needle.len()) == needle
}

/// Occurrences of `needle` starting at `s` or later that end after `old_len`.
pub open spec fn new_matches_from(bytes: Seq<u8>, old_len: int, needle: Seq<u8>, s: int) -> nat
    decreases bytes.len() - s,
{
    if s < 0 || s + needle.len() > bytes.len() || needle.len() == 0 {
        0
    } else {
        (if s + needle.len() > old_len && occurs_at(bytes, s, needle) { 1nat } else { 0nat })
            + new_matches_from(bytes, old_len, needle, s + 1)
    }
}

/// Occurrences of `needle` in `bytes` that end after the first `old_len` bytes.
pub open spec fn spec_count_new_matches(bytes: Seq<u8>, old_len: int, needle: Seq<u8>) -> nat {
    new_matches_from(bytes, old_len, needle, 0)
}

proof fn lemma_new_matches_bound(bytes: Seq<u8>, old_len: int, needle: Seq<u8>, s: int)
    requires
        0 <= s,
    ensures
        new_matches_from(bytes, old_len, needle, s) <= (if bytes.len() >= s { bytes.len() - s } else { 0 }),
    decreases bytes.len() - s,
{
    if !(s < 0 || s + needle.len() > bytes.len() || needle.len() == 0) {
        lemma_new_matches_bound(bytes, old_len, needle, s + 1);
    }
}

fn occurs_at_exec(bytes: &[u8], s: usize, needle: &[u8]) -> (r: bool)
    requires
        s + needle.len() <= bytes.len(),
    ensures
        r == occurs_at(bytes@, s as int, needle@),
{
    let mut k: usize = 0;
    while k < needle.len()
        invariant
            s + needle.len() <= bytes.len(),
            k <= needle@.len(),
            forall|j: int| 0 <= j < k ==> bytes@[s + j] == needle@[j],
        decreases needle@.len() - k,
    {
        if bytes[s + k] != needle[k] {
            assert(bytes@.subrange(s as int, s + needle@.len())[k as int] != needle@[k as int]);
            return false;
        }
        k = k + 1;
    }
    assert(bytes@.subrange(s as int, s + needle@.len()) =~= needle@);
    true
}

/// Occurrences of `needle` in `bytes` that end after the first `old_len` bytes.
pub fn count_new_matches(bytes: &[u8], old_len: usize, needle: &[u8]) -> (r: u64)
    requires
        needle@.len() > 0,
    ensures
        r == spec_count_new_matches(bytes@, old_len as int, needle@),
{
    let n = needle.len();
    if n > bytes.len() {
        return 0;
    }
    let last = bytes.len() - n;
    let mut count: u64 = 0;
    let mut s: usize = 0;
    proof {
        lemma_new_matches_bound(bytes@, old_len as int, needle@, 0);
    }
    while s <= last
        invariant
            n == needle@.len(),
            n > 0,
            last + n == bytes.len(),
            s <= last + 1,
            count + new_matches_from(bytes@, old_len as int, needle@, s as int)
                == spec_count_new_matches(bytes@, old_len as int, needle@),
            count <= s,
        decreases last + 1 - s,
    {
        if s + n > old_len && occurs_at_exec(bytes, s, needle) {
            count = count + 1;
        }
        s = s + 1;
    }
    count
}

/// Remembers the last bytes of the stream so that markers split between
/// reads are counted once.
#[derive(Clone, Debug)]
pub struct RawApcProbe {
    tail: Vec<u8>,
}

impl Default for RawApcProbe {
    fn default() -> (p: Self)
        ensures
            p.spec_tail() == Seq::<u8>::empty(),
    {
        RawApcProbe { tail: Vec::new() }
    }
}

/// The last (at most two) bytes of `s`.
pub open spec fn keep_tail(s: Seq<u8>) -> Seq<u8> {
    if s.len() >= 2 { s.skip(s.len() - 2) } else { s }
}

impl RawApcProbe {
    pub closed spec fn spec_tail(&self) -> Seq<u8> {
        self.tail@
    }

    /// Count the Kitty starts and string terminators completed by `bytes`.
    pub fn feed(&mut self, bytes: &[u8]) -> (r: (u64, u64))
        ensures
            r.0 == spec_count_new_matches(old(self).spec_tail() + bytes@, old(self).spec_tail().len() as int, kitty_start()),
            r.1 == spec_count_new_matches(old(self).spec_tail() + bytes@, old(self).spec_tail().len() as int, string_terminator()),
            final(self).spec_tail() == keep_tail(old(self).spec_tail() + bytes@),
    {
        let old_len = self.tail.len();
        let mut combined: Vec<u8> = Vec::new();
        push_slice(&mut combined, self.tail.as_slice());
        push_slice(&mut combined, bytes);
        assert(combined@ =~= old(self).tail@ + bytes@);
        let start = vec![ESC, 0x5f, 0x47];
        let terminator = vec![ESC, 0x5c];
        assert(start@ =~= kitty_start());
        assert(terminator@ =~= string_terminator());
        let starts = count_new_matches(combined.as_slice(), old_len, start.as_slice());
        let terminators = count_new_matches(combined.as_slice(), old_len, terminator.as_slice());
        let keep_from = if combined.len() >= 2 { combined.len() - 2 } else { 0 };
        let mut tail: Vec<u8> = Vec::new();
        push_slice(&mut tail, &combined.as_slice()[keep_from..combined.len()]);
        assert(tail@ =~= keep_tail(combined@));
        self.tail = tail;
        (starts, terminators)
    }
}

/// Lower-case hex digit for `n < 16`.
pub open spec fn hex_digit(n: u8) -> char {
    if n < 10 { (48 + n) as char } else { (87 + n) as char }
}

/// Two lower-case hex digits of a byte.
pub open spec fn hex_byte(b: u8) -> Seq<char> {
    seq![hex_digit(b / 16), hex_digit(b % 16)]
}

/// The bytes as two-digit lower-case hex, separated by single spaces.
pub open spec fn spec_hex(bytes: Seq<u8>) -> Seq<char>
    decreases bytes.len(),
{
    if bytes.len() == 0 {
        Seq::empty()
    } else if bytes.len() == 1 {
        hex_byte(bytes[0])
    } else {
        spec_hex(bytes.drop_last()) + seq![' '] + hex_byte(bytes.last())
    }
}

fn hex_digit_str(n: u8) -> (r: &'static str)
    requires
        n < 16,
    ensures
        r@ == seq![hex_digit(n)],
{
    let digits = "0123456789abcdef";
    proof {
        reveal_strlit("0123456789abcdef");
    }
    let r = digits.substring_char(n as usize, n as usize + 1);
    assert(r@ =~= seq![digits@[n as int]]);
    r
}

/// The bytes as two-digit lower-case hex, separated by single spaces.
pub fn hex(bytes: &[u8]) -> (r: String)
    ensures
        r@ == spec_hex(bytes@),
{
    let mut out = String::new();
    let mut i: usize = 0;
    while i < bytes.len()
        invariant
            i <= bytes@.len(),
            out@ == spec_hex(bytes@.take(i as int)),
        decreases bytes@.len() - i,
    {
        let b = bytes[i];
        assert(bytes@.take(i + 1).drop_last() =~= bytes@.take(i as int));
        if i > 0 {
            out.append(" ");
            assert(" "@ == seq![' ']) by {
                reveal_strlit(" ");
            }
        }
        out.append(hex_digit_str(b / 16));
        out.append(hex_digit_str(b % 16));
        i = i + 1;
        assert(out@ =~= spec_hex(bytes@.take(i as int)));
    }
    assert(bytes@.take(i as int) =~= bytes@);
    out
}

/// Hex previews of the first and last 16 bytes; the last is `-` when the
/// read is no longer than 16 bytes.
pub fn hex_edges(bytes: &[u8]) -> (r: (String, String))
    ensures
        r.0@ == spec_hex(if bytes@.len() <= HEX_EDGE_BYTES { bytes@ } else { bytes@.take(HEX_EDGE_BYTES as int) }),
        r.1@ == (if bytes@.len() > HEX_EDGE_BYTES {
            spec_hex(bytes@.skip(bytes@.len() - HEX_EDGE_BYTES))
        } else {
            "-"@
        }),
{
    let head_len = if bytes.len() < HEX_EDGE_BYTES { bytes.len() } else { HEX_EDGE_BYTES };
    let head_bytes = &bytes[0..head_len];
    assert(head_bytes@ =~= (if bytes@.len() <= HEX_EDGE_BYTES { bytes@ } else { bytes@.take(HEX_EDGE_BYTES as int) }));
    let head = hex(head_bytes);
    let tail = if bytes.len() > HEX_EDGE_BYTES {
        let tail_bytes = &bytes[bytes.len() - HEX_EDGE_BYTES..bytes.len()];
        assert(tail_bytes@ =~= bytes@.skip(bytes@.len() - HEX_EDGE_BYTES));
        hex(tail_bytes)
    } else {
        "-".to_owned()
    };
    (head, tail)
}

} // verus!
