//! Turning one received datagram into a header mapping.
//!
//! A receive buffer is decoded as text with a lossy UTF-8 conversion,
//! stripped of the trailing padding left by a fixed-size buffer and of
//! surrounding whitespace, and handed to an HTTP-style response parser.  The
//! parsed header lines become a name-to-value mapping in which a repeated
//! name keeps its last value.

use vstd::prelude::*;

use crate::err::YeeError;
use crate::fields::is_space;
use crate::fields::is_space_char;

verus! {

broadcast use vstd::seq_lib::group_seq_properties;

/// The two classes of characters stripped from the ends of a received
/// buffer: NUL padding first, then whitespace.
#[derive(Clone, Copy, PartialEq, Eq, Structural, Debug)]
pub enum TrimKind {
    Nul,
    Space,
}

/// Whether `c` belongs to the trimmed class `k`.
pub open spec fn trim_char(k: TrimKind, c: char) -> bool {
    match k {
        TrimKind::Nul => c == '\u{0}',
        TrimKind::Space => is_space(c),
    }
}

/// `s` without its leading run of class-`k` characters.
pub open spec fn ltrim(s: Seq<char>, k: TrimKind) -> Seq<char>
    decreases s.len(),
{
    if s.len() > 0 && trim_char(k, s[0]) {
        ltrim(s.drop_first(), k)
    } else {
        s
    }
}

/// `s` without its trailing run of class-`k` characters.
pub open spec fn rtrim(s: Seq<char>, k: TrimKind) -> Seq<char>
    decreases s.len(),
{
    if s.len() > 0 && trim_char(k, s.last()) {
        rtrim(s.drop_last(), k)
    } else {
        s
    }
}

/// Locates [`ltrim`]: if the first `i` characters are of class `k` and the
/// next one is not, the trim keeps exactly the rest.
proof fn lemma_ltrim_at(s: Seq<char>, k: TrimKind, i: int)
    requires
        0 <= i <= s.len(),
        forall|j: int| 0 <= j < i ==> trim_char(k, s[j]),
        i < s.len() ==> !trim_char(k, s[i]),
    ensures
        ltrim(s, k) == s.subrange(i, s.len() as int),
    decreases i,
{
    if i == 0 {
        assert(s.subrange(0, s.len() as int) =~= s);
    } else {
        let rest = s.drop_first();
        lemma_ltrim_at(rest, k, i - 1);
        assert(rest.subrange(i - 1, rest.len() as int) =~= s.subrange(i, s.len() as int));
    }
}

/// Locates [`rtrim`]: if the characters from `i` on are of class `k` and the
/// one before is not, the trim keeps exactly the first `i`.
proof fn lemma_rtrim_at(s: Seq<char>, k: TrimKind, i: int)
    requires
        0 <= i <= s.len(),
        forall|j: int| i <= j < s.len() ==> trim_char(k, s[j]),
        i > 0 ==> !trim_char(k, s[i - 1]),
    ensures
        rtrim(s, k) == s.subrange(0, i),
    decreases s.len() - i,
{
    if i == s.len() {
        assert(s.subrange(0, i) =~= s);
    } else {
        let rest = s.drop_last();
        lemma_rtrim_at(rest, k, i);
        assert(rest.subrange(0, i) =~= s.subrange(0, i));
    }
}

/// Runtime check for [`trim_char`].
fn char_matches(c: char, k: TrimKind) -> (r: bool)
    ensures
        r == trim_char(k, c),
{
    match k {
        TrimKind::Nul => c == '\u{0}',
        TrimKind::Space => is_space_char(c),
    }
}

/// Strips class-`k` characters from both ends of `s`.
pub fn trim_ends(s: &str, k: TrimKind) -> (t: String)
    ensures
        t@ == rtrim(ltrim(s@, k), k),
{
    let n = s.unicode_len();
    let mut a: usize = 0;
    loop
        invariant_except_break
            n == s@.len(),
            a <= n,
            forall|j: int| 0 <= j < a as int ==> trim_char(k, s@[j]),
        ensures
            n == s@.len(),
            a <= n,
            forall|j: int| 0 <= j < a as int ==> trim_char(k, s@[j]),
            a < n ==> !trim_char(k, s@[a as int]),
        decreases n - a,
    {
        if a >= n {
            break ;
        }
        if !char_matches(s.get_char(a), k) {
            break ;
        }
        a += 1;
    }
    let mut b: usize = n;
    loop
        invariant_except_break
            n == s@.len(),
            a <= b <= n,
            forall|j: int| b as int <= j < n ==> trim_char(k, s@[j]),
        ensures
            n == s@.len(),
            a <= b <= n,
            forall|j: int| b as int <= j < n ==> trim_char(k, s@[j]),
            b > a ==> !trim_char(k, s@[b as int - 1]),
        decreases b,
    {
        if b <= a {
            break ;
        }
        if !char_matches(s.get_char(b - 1), k) {
            break ;
        }
        b -= 1;
    }
    proof {
        lemma_ltrim_at(s@, k, a as int);
        let s1 = s@.subrange(a as int, n as int);
        lemma_rtrim_at(s1, k, b as int - a as int);
        assert(s1.subrange(0, b as int - a as int) =~= s@.subrange(a as int, b as int));
    }
    s.substring_char(a, b).to_owned()
}

/// What the lossy UTF-8 conversion makes of a byte sequence: a function of
/// the bytes alone.
pub uninterp spec fn lossy_decode(bytes: Seq<u8>) -> Seq<char>;

/// A byte sequence that is plain ASCII.
pub open spec fn ascii_bytes(b: Seq<u8>) -> bool {
    forall|i: int| 0 <= i < b.len() ==> b[i] < 128
}

/// The characters of an ASCII byte sequence, one per byte.
pub open spec fn ascii_chars_of(b: Seq<u8>) -> Seq<char> {
    Seq::new(b.len(), |i: int| b[i] as char)
}

/// Relies on `String::from_utf8_lossy`: well-formed UTF-8 input — ASCII in
/// particular — is decoded unchanged, and invalid sequences become
/// replacement characters rather than a failure.
#[verifier::external_body]
pub fn utf8_lossy(bytes: &[u8]) -> (s: String)
    ensures
        s@ == lossy_decode(bytes@),
        ascii_bytes(bytes@) ==> s@ == ascii_chars_of(bytes@),
{
    String::from_utf8_lossy(bytes).into_owned()
}

/// What the HTTP-style response parser makes of a byte sequence: `None` when
/// it rejects the input (no status line, or more header lines than its fixed
/// bound of 17), and otherwise each parsed header line as a name and a raw
/// value, in order.
pub uninterp spec fn http_header_fields(bytes: Seq<u8>) -> Option<Seq<(Seq<char>, Seq<u8>)>>;

/// The name and value sequences of parsed header fields.
pub open spec fn field_views(v: Seq<(String, Vec<u8>)>) -> Seq<(Seq<char>, Seq<u8>)> {
    Seq::new(v.len(), |i: int| (v[i].0@, v[i].1@))
}

/// Relies on `httparse::Response::parse` with a fixed array of 17 header
/// slots: `Err` means the buffer is not an HTTP-style response (or overflows
/// the slots) and yields `None`.  On success the response's header slice is
/// handed back in order; after a complete parse it holds exactly the parsed
/// header lines, and after a partial one (input that ends before the blank
/// line) it keeps its full length, the header lines whose terminators were
/// read in front and untouched empty-name slots behind them.
#[verifier::external_body]
fn parse_header_fields(buf: &[u8]) -> (r: Option<Vec<(String, Vec<u8>)>>)
    ensures
        match r {
            Some(v) => http_header_fields(buf@) == Some(field_views(v@)),
            None => http_header_fields(buf@) is None,
        },
{
    let mut headers = [httparse::EMPTY_HEADER; 17];
    let mut res = httparse::Response::new(&mut headers);
    match res.parse(buf) {
        Ok(_) => Some(res.headers.iter().map(|h| (h.name.to_string(), h.value.to_vec())).collect()),
        Err(_) => None,
    }
}

/// The name-to-value mapping of a pair sequence, a later pair shadowing an
/// earlier one of the same name.
pub open spec fn header_map(pairs: Seq<(Seq<char>, Seq<char>)>) -> Map<Seq<char>, Seq<char>>
    decreases pairs.len(),
{
    if pairs.len() == 0 {
        Map::empty()
    } else {
        header_map(pairs.drop_last()).insert(pairs.last().0, pairs.last().1)
    }
}

/// The name and value sequences of owned header pairs.
pub open spec fn pair_views(v: Seq<(String, String)>) -> Seq<(Seq<char>, Seq<char>)> {
    Seq::new(v.len(), |i: int| (v[i].0@, v[i].1@))
}

/// The header mapping of one datagram: name-value pairs in which the names
/// come from the response parser and the raw values are decoded as lossy
/// UTF-8 text.
pub struct Headers {
    pub entries: Vec<(String, String)>,
}

impl View for Headers {
    type V = Map<Seq<char>, Seq<char>>;

    open spec fn view(&self) -> Map<Seq<char>, Seq<char>> {
        header_map(pair_views(self.entries@))
    }
}

impl Headers {
    /// An empty mapping.
    pub fn new() -> (h: Headers)
        ensures
            h@ == Map::<Seq<char>, Seq<char>>::empty(),
    {
        Headers { entries: Vec::new() }
    }

    /// Adds a pair; a pair added later shadows an earlier one of the same
    /// name.
    pub fn push(&mut self, name: String, value: String)
        ensures
            final(self)@ == old(self)@.insert(name@, value@),
    {
        let ghost old_entries = self.entries@;
        self.entries.push((name, value));
        proof {
            assert(pair_views(self.entries@).drop_last() =~= pair_views(old_entries));
        }
    }

    /// Looks `name` up: the value of the last pair carrying it, if any.
    pub fn get<'a>(&'a self, name: &str) -> (r: Option<&'a String>)
        ensures
            match r {
                Some(v) => self@.contains_key(name@) && v@ == self@[name@],
                None => !self@.contains_key(name@),
            },
    {
        let key: String = name.to_owned();
        let ghost pv = pair_views(self.entries@);
        let mut j = self.entries.len();
        proof {
            assert(pv.subrange(0, pv.len() as int) =~= pv);
        }
        while j > 0
            invariant
                j <= self.entries.len(),
                key@ == name@,
                pv == pair_views(self.entries@),
                header_map(pv).contains_key(name@) == header_map(
                    pv.subrange(0, j as int),
                ).contains_key(name@),
                header_map(pv).contains_key(name@) ==> header_map(pv)[name@] == header_map(
                    pv.subrange(0, j as int),
                )[name@],
            decreases j,
        {
            proof {
                assert(pv.subrange(0, j as int).drop_last() =~= pv.subrange(0, j as int - 1));
                assert(pv.subrange(0, j as int).last() == pv[j as int - 1]);
            }
            let e = &self.entries[j - 1];
            if e.0.eq(&key) {
                return Some(&e.1);
            }
            j -= 1;
        }
        proof {
            assert(pv.subrange(0, 0) =~= Seq::empty());
        }
        None
    }
}

/// The header pairs of one received buffer, after cleaning: `None` when the
/// response parser rejects the cleaned text.
pub open spec fn parsed_fields(bytes: Seq<u8>) -> Option<Seq<(Seq<char>, Seq<u8>)>> {
    http_header_fields(vstd::utf8::encode_utf8(cleaned_text(bytes)))
}

/// A received buffer as text: decoded as lossy UTF-8, stripped of NUL
/// padding at both ends, then of whitespace at both ends.
pub open spec fn cleaned_text(bytes: Seq<u8>) -> Seq<char> {
    let nul_trimmed = rtrim(ltrim(lossy_decode(bytes), TrimKind::Nul), TrimKind::Nul);
    rtrim(ltrim(nul_trimmed, TrimKind::Space), TrimKind::Space)
}

/// The raw header values of the parsed pairs, decoded as lossy UTF-8 text.
pub open spec fn decoded_pairs(fields: Seq<(Seq<char>, Seq<u8>)>) -> Seq<(Seq<char>, Seq<char>)> {
    Seq::new(fields.len(), |i: int| (fields[i].0, lossy_decode(fields[i].1)))
}

/// The header mapping of one received buffer, or `None` when its framing is
/// malformed.
pub open spec fn datagram_headers(bytes: Seq<u8>) -> Option<Map<Seq<char>, Seq<char>>> {
    match parsed_fields(bytes) {
        Some(fields) => Some(header_map(decoded_pairs(fields))),
        None => None,
    }
}

/// Parses one received buffer into its header mapping, as
/// [`datagram_headers`] describes; a buffer whose framing is malformed is
/// rejected with [`YeeError::Parse`].
pub fn parse_response(buf: &[u8]) -> (r: Result<Headers, YeeError>)
    ensures
        match r {
            Ok(h) => datagram_headers(buf@) == Some(h@),
            Err(e) => datagram_headers(buf@) is None && e is Parse,
        },
{
    let text = utf8_lossy(buf);
    let nul_trimmed = trim_ends(text.as_str(), TrimKind::Nul);
    let cleaned = trim_ends(nul_trimmed.as_str(), TrimKind::Space);
    let fields = match parse_header_fields(cleaned.as_str().as_bytes()) {
        Some(fields) => fields,
        None => {
            return Err(YeeError::Parse);
        },
    };
    let ghost fv = field_views(fields@);
    let n = fields.len();
    let mut h = Headers { entries: Vec::new() };
    let mut i: usize = 0;
    while i < n
        invariant
            n == fields@.len(),
            i <= n,
            fv == field_views(fields@),
            pair_views(h.entries@) == decoded_pairs(fv).subrange(0, i as int),
        decreases n - i,
    {
        let name = fields[i].0.clone();
        let value = utf8_lossy(fields[i].1.as_slice());
        let ghost old_pairs = pair_views(h.entries@);
        h.entries.push((name, value));
        proof {
            assert(pair_views(h.entries@) =~= old_pairs.push((fv[i as int].0, lossy_decode(fv[i as int].1))));
            assert(pair_views(h.entries@) =~= decoded_pairs(fv).subrange(0, i as int + 1));
        }
        i += 1;
    }
    proof {
        assert(decoded_pairs(fv).subrange(0, n as int) =~= decoded_pairs(fv));
    }
    Ok(h)
}

} // verus!
