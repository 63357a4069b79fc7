//! The typed values a device advertisement carries, and the parsers that
//! turn a raw header value into each of them.
//!
//! Every parser is total over its input string and returns `None` exactly on
//! the inputs its specification rejects; the decoder in [`crate::light`]
//! turns such a `None` into a per-field error.

use vstd::prelude::*;

verus! {

broadcast use vstd::seq_lib::group_seq_properties;

/// Whether a light is currently switched on.
#[derive(Clone, Copy, PartialEq, Eq, Structural, Debug)]
pub enum PowerStatus {
    On,
    Off,
}

/// Which colour system the light is currently driven by.
///
/// The wire format carries a small numeric code; the closed mapping is
/// `1` → `Color`, `2` → `ColorTemperature`, `3` → `Hsv`, and every other
/// code is rejected.
#[derive(Clone, Copy, PartialEq, Eq, Structural, Debug)]
pub enum ColorMode {
    Color,
    ColorTemperature,
    Hsv,
}

/// A colour as a byte triple, decoded from a packed 24-bit integer.
#[derive(Clone, Copy, PartialEq, Eq, Structural, Debug)]
pub struct Rgb {
    pub red: u8,
    pub green: u8,
    pub blue: u8,
}

/// A decimal digit.
pub open spec fn is_digit(c: char) -> bool {
    48 <= c as u32 <= 57
}

/// The numeric value of a decimal digit.
pub open spec fn digit_val(c: char) -> int {
    c as u32 - 48
}

/// A non-empty run of decimal digits.
pub open spec fn all_digits(s: Seq<char>) -> bool {
    s.len() > 0 && forall|i: int| 0 <= i < s.len() ==> is_digit(s[i])
}

/// The value of a digit string read in base ten.
pub open spec fn dec_value(s: Seq<char>) -> int
    decreases s.len(),
{
    if s.len() == 0 {
        0
    } else {
        dec_value(s.drop_last()) * 10 + digit_val(s.last())
    }
}

/// The digits of a decimal numeral: everything after an optional leading `+`.
pub open spec fn digits_part(s: Seq<char>) -> Seq<char> {
    if s.len() > 0 && s[0] == '+' {
        s.drop_first()
    } else {
        s
    }
}

/// Strict decimal parsing with a range check: the value of `s` if `s` is an
/// optional `+` followed by a non-empty run of digits and the value is at
/// most `max`, and nothing otherwise.
pub open spec fn parse_decimal(s: Seq<char>, max: int) -> Option<int> {
    if all_digits(digits_part(s)) && dec_value(digits_part(s)) <= max {
        Some(dec_value(digits_part(s)))
    } else {
        None
    }
}

/// A digit string has a non-negative value.
proof fn lemma_dec_value_nonneg(s: Seq<char>)
    requires
        forall|i: int| 0 <= i < s.len() ==> is_digit(s[i]),
    ensures
        dec_value(s) >= 0,
    decreases s.len(),
{
    if s.len() > 0 {
        lemma_dec_value_nonneg(s.drop_last());
    }
}

/// Extending a digit string only grows its value.
proof fn lemma_dec_value_prefix_le(s: Seq<char>, k: int)
    requires
        0 <= k <= s.len(),
        forall|i: int| 0 <= i < s.len() ==> is_digit(s[i]),
    ensures
        dec_value(s.subrange(0, k)) <= dec_value(s),
    decreases s.len() - k,
{
    if k < s.len() {
        let p = s.subrange(0, k);
        let q = s.subrange(0, k + 1);
        assert(q.drop_last() =~= p);
        lemma_dec_value_nonneg(p);
        lemma_dec_value_prefix_le(s, k + 1);
    } else {
        assert(s.subrange(0, k) =~= s);
    }
}

/// Parses `s` as a strict decimal numeral no larger than `max`, as
/// [`parse_decimal`] describes.
pub fn parse_bounded(s: &str, max: u32) -> (r: Option<u32>)
    ensures
        match r {
            Some(v) => parse_decimal(s@, max as int) == Some(v as int) && v <= max,
            None => parse_decimal(s@, max as int) is None,
        },
{
    let n = s.unicode_len();
    let mut i: usize = 0;
    if n > 0 && s.get_char(0) == '+' {
        i = 1;
    }
    let ghost start = i as int;
    let ghost t = digits_part(s@);
    proof {
        assert(t =~= s@.subrange(start, n as int));
    }
    if i >= n {
        return None;
    }
    let mut acc: u64 = 0;
    while i < n
        invariant
            n == s@.len(),
            0 <= start < n as int,
            start <= i as int <= n,
            t == digits_part(s@),
            t =~= s@.subrange(start, n as int),
            forall|j: int| start <= j < i as int ==> is_digit(s@[j]),
            acc == dec_value(s@.subrange(start, i as int)),
            acc <= max,
            max <= u32::MAX,
        decreases n - i,
    {
        let c = s.get_char(i);
        let cv = c as u32;
        if cv < 48 || cv > 57 {
            proof {
                assert(t[i as int - start] == s@[i as int]);
            }
            return None;
        }
        let d = (cv - 48) as u64;
        let next = acc * 10 + d;
        proof {
            let p = s@.subrange(start, i as int);
            let q = s@.subrange(start, i as int + 1);
            assert(q.drop_last() =~= p);
            assert(next == dec_value(q));
        }
        if next > max as u64 {
            proof {
                if all_digits(t) {
                    let q = s@.subrange(start, i as int + 1);
                    assert(q =~= t.subrange(0, i as int + 1 - start));
                    lemma_dec_value_prefix_le(t, i as int + 1 - start);
                }
            }
            return None;
        }
        acc = next;
        i += 1;
    }
    proof {
        assert(s@.subrange(start, i as int) =~= t);
    }
    Some(acc as u32)
}

/// Parses an 8-bit decimal field.
pub fn parse_u8_field(s: &str) -> (r: Option<u8>)
    ensures
        match r {
            Some(v) => parse_decimal(s@, 255) == Some(v as int),
            None => parse_decimal(s@, 255) is None,
        },
{
    match parse_bounded(s, 255) {
        Some(v) => Some(v as u8),
        None => None,
    }
}

/// Parses a 16-bit decimal field.
pub fn parse_u16_field(s: &str) -> (r: Option<u16>)
    ensures
        match r {
            Some(v) => parse_decimal(s@, 65535) == Some(v as int),
            None => parse_decimal(s@, 65535) is None,
        },
{
    match parse_bounded(s, 65535) {
        Some(v) => Some(v as u16),
        None => None,
    }
}

/// The power status a raw value denotes: exactly `"on"` or `"off"`.
pub open spec fn power_of(s: Seq<char>) -> Option<PowerStatus> {
    if s == "on"@ {
        Some(PowerStatus::On)
    } else if s == "off"@ {
        Some(PowerStatus::Off)
    } else {
        None
    }
}

/// Compares two string slices by their character sequences.
fn str_eq(a: &str, b: &str) -> (r: bool)
    ensures
        r == (a@ == b@),
{
    let sa: String = a.to_owned();
    let sb: String = b.to_owned();
    sa == sb
}

/// Parses the `power` field, as [`power_of`] describes.
pub fn parse_power(s: &str) -> (r: Option<PowerStatus>)
    ensures
        r == power_of(s@),
{
    if str_eq(s, "on") {
        Some(PowerStatus::On)
    } else if str_eq(s, "off") {
        Some(PowerStatus::Off)
    } else {
        None
    }
}

/// The colour mode a raw numeric code denotes, under the closed mapping
/// `1` → `Color`, `2` → `ColorTemperature`, `3` → `Hsv`.
pub open spec fn color_mode_of(s: Seq<char>) -> Option<ColorMode> {
    match parse_decimal(s, 255) {
        Some(v) => if v == 1 {
            Some(ColorMode::Color)
        } else if v == 2 {
            Some(ColorMode::ColorTemperature)
        } else if v == 3 {
            Some(ColorMode::Hsv)
        } else {
            None
        },
        None => None,
    }
}

/// Parses the `color_mode` field, as [`color_mode_of`] describes.
pub fn parse_color_mode(s: &str) -> (r: Option<ColorMode>)
    ensures
        r == color_mode_of(s@),
{
    match parse_bounded(s, 255) {
        Some(1) => Some(ColorMode::Color),
        Some(2) => Some(ColorMode::ColorTemperature),
        Some(3) => Some(ColorMode::Hsv),
        _ => None,
    }
}

/// The byte triple packed into the low 24 bits of `v`.
pub open spec fn unpack_rgb(v: u32) -> Rgb {
    Rgb {
        red: ((v >> 16) & 0xFF) as u8,
        green: ((v >> 8) & 0xFF) as u8,
        blue: (v & 0xFF) as u8,
    }
}

/// The colour a raw value denotes: a decimal numeral of at most 24 bits,
/// split into its three bytes.
pub open spec fn rgb_of(s: Seq<char>) -> Option<Rgb> {
    match parse_decimal(s, 0xFFFFFF) {
        Some(v) => Some(unpack_rgb(v as u32)),
        None => None,
    }
}

/// Parses the `rgb` field, as [`rgb_of`] describes.
pub fn parse_rgb(s: &str) -> (r: Option<Rgb>)
    ensures
        r == rgb_of(s@),
{
    match parse_bounded(s, 0xFFFFFF) {
        Some(v) => {
            proof {
                assert((v >> 16) & 0xFF < 256 && (v >> 8) & 0xFF < 256 && v & 0xFF < 256)
                    by (bit_vector);
            }
            Some(Rgb {
                red: ((v >> 16) & 0xFF) as u8,
                green: ((v >> 8) & 0xFF) as u8,
                blue: (v & 0xFF) as u8,
            })
        },
        None => None,
    }
}

/// ASCII whitespace: the separators the capability list is tokenized on.
pub open spec fn is_space(c: char) -> bool {
    c == ' ' || c == '\t' || c == '\n' || c == '\r' || c == '\u{B}' || c == '\u{C}'
}

/// The index just past the run of non-whitespace characters starting at `i`.
pub open spec fn token_end(s: Seq<char>, i: int) -> int
    decreases s.len() - i,
{
    if i < 0 || i >= s.len() || is_space(s[i]) {
        i
    } else {
        token_end(s, i + 1)
    }
}

/// [`token_end`] stays within the string and never moves backwards.
pub proof fn lemma_token_end_bounds(s: Seq<char>, i: int)
    requires
        0 <= i <= s.len(),
    ensures
        i <= token_end(s, i) <= s.len(),
    decreases s.len() - i,
{
    if i < s.len() && !is_space(s[i]) {
        lemma_token_end_bounds(s, i + 1);
    }
}

/// The whitespace-separated tokens of `s` from position `i` on: each maximal
/// run of non-whitespace characters, in order.
pub open spec fn split_tokens(s: Seq<char>, i: int) -> Seq<Seq<char>>
    decreases s.len() - i,
    when 0 <= i
    via split_tokens_decreases
{
    if i >= s.len() {
        Seq::empty()
    } else if is_space(s[i]) {
        split_tokens(s, i + 1)
    } else {
        seq![s.subrange(i, token_end(s, i))] + split_tokens(s, token_end(s, i))
    }
}

#[via_fn]
proof fn split_tokens_decreases(s: Seq<char>, i: int) {
    if i < s.len() && !is_space(s[i]) {
        lemma_token_end_bounds(s, i + 1);
    }
}

/// The capability set a raw `support` value denotes: its whitespace-separated
/// tokens, without order or multiplicity.  An empty or all-whitespace value
/// denotes the empty set.
pub open spec fn support_set(s: Seq<char>) -> Set<Seq<char>> {
    split_tokens(s, 0).to_set()
}

/// A sequence of strings without a repeated character sequence.
pub open spec fn distinct_views(v: Seq<Seq<char>>) -> bool {
    forall|i: int, j: int| 0 <= i < j < v.len() ==> v[i] != v[j]
}

/// The character sequences of a sequence of strings.
pub open spec fn seq_views(v: Seq<String>) -> Seq<Seq<char>> {
    Seq::new(v.len(), |i: int| v[i]@)
}

/// Runtime check for [`is_space`].
pub(crate) fn is_space_char(c: char) -> (r: bool)
    ensures
        r == is_space(c),
{
    c == ' ' || c == '\t' || c == '\n' || c == '\r' || c == '\u{B}' || c == '\u{C}'
}

/// Splits `s` into its whitespace-separated tokens, in order, duplicates
/// kept, as [`split_tokens`] describes.
pub fn tokenize(s: &str) -> (v: Vec<String>)
    ensures
        seq_views(v@) == split_tokens(s@, 0),
{
    let n = s.unicode_len();
    let mut v: Vec<String> = Vec::new();
    let mut i: usize = 0;
    while i < n
        invariant
            n == s@.len(),
            i <= n,
            seq_views(v@) + split_tokens(s@, i as int) == split_tokens(s@, 0),
        decreases n - i,
    {
        let c = s.get_char(i);
        if is_space_char(c) {
            i += 1;
        } else {
            let mut j = i + 1;
            proof {
                lemma_token_end_bounds(s@, i as int);
            }
            loop
                invariant_except_break
                    n == s@.len(),
                    i < j <= n,
                    token_end(s@, i as int) == token_end(s@, j as int),
                ensures
                    i < j <= n,
                    n == s@.len(),
                    token_end(s@, i as int) == j as int,
                decreases n - j,
            {
                if j >= n {
                    break ;
                }
                let c2 = s.get_char(j);
                if is_space_char(c2) {
                    break ;
                }
                j += 1;
            }
            let tok: String = s.substring_char(i, j).to_owned();
            let ghost old_v = v@;
            v.push(tok);
            proof {
                assert(seq_views(v@) =~= seq_views(old_v) + seq![tok@]);
                assert(seq_views(v@) + split_tokens(s@, j as int) =~= seq_views(old_v) + (seq![
                    s@.subrange(i as int, token_end(s@, i as int)),
                ] + split_tokens(s@, token_end(s@, i as int))));
            }
            i = j;
        }
    }
    proof {
        assert(seq_views(v@) + split_tokens(s@, i as int) =~= seq_views(v@));
    }
    v
}

/// Whether some string in `v` has the same characters as `t`.
fn contains_view(v: &Vec<String>, t: &String) -> (r: bool)
    ensures
        r == seq_views(v@).contains(t@),
{
    let n = v.len();
    let mut i: usize = 0;
    while i < n
        invariant
            n == v@.len(),
            i <= n,
            forall|k: int| 0 <= k < i as int ==> seq_views(v@)[k] != t@,
        decreases n - i,
    {
        if v[i].eq(t) {
            proof {
                assert(seq_views(v@)[i as int] == t@);
            }
            return true;
        }
        i += 1;
    }
    false
}

/// Drops every later repetition of a token, keeping first occurrences and
/// their order: the result holds the same set of tokens, each once.
pub fn dedup_tokens(v: Vec<String>) -> (out: Vec<String>)
    ensures
        seq_views(out@).to_set() == seq_views(v@).to_set(),
        distinct_views(seq_views(out@)),
{
    let n = v.len();
    let mut out: Vec<String> = Vec::new();
    let mut i: usize = 0;
    while i < n
        invariant
            n == v@.len(),
            i <= n,
            seq_views(out@).to_set() == seq_views(v@).subrange(0, i as int).to_set(),
            distinct_views(seq_views(out@)),
        decreases n - i,
    {
        let ghost pre = seq_views(v@).subrange(0, i as int);
        let ghost post = seq_views(v@).subrange(0, i as int + 1);
        proof {
            assert(post.drop_last() =~= pre);
            assert(post.last() == seq_views(v@)[i as int]);
        }
        let present = contains_view(&out, &v[i]);
        if !present {
            let ghost old_out = out@;
            out.push(v[i].clone());
            proof {
                assert(seq_views(out@) =~= seq_views(old_out).push(v@[i as int]@));
                assert(post =~= pre.push(v@[i as int]@));
                assert forall|a: Seq<char>|
                    seq_views(out@).to_set().contains(a) <==> post.to_set().contains(a) by {
                    assert(seq_views(out@).to_set().contains(a) == seq_views(out@).contains(a));
                    assert(post.to_set().contains(a) == post.contains(a));
                    assert(seq_views(out@).contains(a) <==> (seq_views(old_out).contains(a) || a
                        == v@[i as int]@));
                    assert(post.contains(a) <==> (pre.contains(a) || a == v@[i as int]@));
                    assert(seq_views(old_out).contains(a) == seq_views(old_out).to_set().contains(
                        a,
                    ));
                    assert(pre.contains(a) == pre.to_set().contains(a));
                }
                assert(seq_views(out@).to_set() =~= post.to_set());
            }
        } else {
            proof {
                assert(seq_views(out@).to_set() =~= post.to_set());
            }
        }
        i += 1;
    }
    proof {
        assert(seq_views(v@).subrange(0, n as int) =~= seq_views(v@));
    }
    out
}

/// Parses the `support` field into its capability list: the distinct
/// whitespace-separated tokens of `s`, together holding exactly
/// [`support_set`]`(s@)`.
pub fn parse_support(s: &str) -> (v: Vec<String>)
    ensures
        seq_views(v@).to_set() == support_set(s@),
        distinct_views(seq_views(v@)),
{
    dedup_tokens(tokenize(s))
}

} // verus!
