//! The text forms of a [`Yyid`]: simple, hyphenated, braced and URN, each a
//! lightweight owned view that says how the identifier is to be rendered.
use vstd::prelude::*;

use crate::Yyid;
use vstd::utf8::{
    decode_utf8, encode_utf8, encode_utf8_decode_utf8, encode_utf8_valid_utf8, is_ascii_chars,
    is_ascii_chars_encode_utf8, valid_utf8,
};

verus! {

/// The ASCII code of the hex digit for `d` (below 16), upper or lower case.
pub open spec fn hex_digit(d: int, upper: bool) -> u8 {
    if d < 10 {
        ('0' as u8 + d) as u8
    } else if upper {
        ('A' as u8 + d - 10) as u8
    } else {
        ('a' as u8 + d - 10) as u8
    }
}

/// Two hex digits for each byte of `b`, the high nibble first.
pub open spec fn hex_text(b: Seq<u8>, upper: bool) -> Seq<u8> {
    Seq::new(
        2 * b.len(),
        |i: int|
            if i % 2 == 0 {
                hex_digit(b[i / 2] as int / 16, upper)
            } else {
                hex_digit(b[i / 2] as int % 16, upper)
            },
    )
}

/// Thirty-two characters laid out in groups of 8, 4, 4, 4 and 12, joined by
/// hyphens.
pub open spec fn group_join(s: Seq<u8>) -> Seq<u8> {
    let hyphen = seq!['-' as u8];
    s.subrange(0, 8) + hyphen + s.subrange(8, 12) + hyphen + s.subrange(12, 16) + hyphen
        + s.subrange(16, 20) + hyphen + s.subrange(20, 32)
}

/// The simple form: 32 hex digits.
pub open spec fn simple_text(b: Seq<u8>, upper: bool) -> Seq<u8> {
    hex_text(b, upper)
}

/// The hyphenated form: the simple form in groups of 8-4-4-4-12.
pub open spec fn hyphenated_text(b: Seq<u8>, upper: bool) -> Seq<u8> {
    group_join(hex_text(b, upper))
}

/// The braced form: the hyphenated form between `{` and `}`.
pub open spec fn braced_text(b: Seq<u8>, upper: bool) -> Seq<u8> {
    seq!['{' as u8] + hyphenated_text(b, upper) + seq!['}' as u8]
}

/// `urn:yyid:`, the prefix of the URN form.
pub open spec fn urn_prefix() -> Seq<u8> {
    seq!['u', 'r', 'n', ':', 'y', 'y', 'i', 'd', ':'].map_values(|c: char| c as u8)
}

/// The URN form: `urn:yyid:` followed by the hyphenated form.
pub open spec fn urn_text(b: Seq<u8>, upper: bool) -> Seq<u8> {
    urn_prefix() + hyphenated_text(b, upper)
}

/// The characters of ASCII text, one for each byte.
pub open spec fn ascii_chars(b: Seq<u8>) -> Seq<char> {
    b.map_values(|c: u8| c as char)
}

/// Every byte of `b` is an ASCII code.
pub open spec fn is_ascii_text(b: Seq<u8>) -> bool {
    forall|i: int| 0 <= i < b.len() ==> b[i] < 128
}

/// The hex digit for `d`, as `hex_digit` gives it.
fn hex_digit_of(d: u8, upper: bool) -> (c: u8)
    requires
        d < 16,
    ensures
        c == hex_digit(d as int, upper),
{
    if d < 10 {
        '0' as u8 + d
    } else if upper {
        'A' as u8 + (d - 10)
    } else {
        'a' as u8 + (d - 10)
    }
}

/// Writes the 32 hex digits of `src`.
pub(crate) fn format_simple(src: &[u8; 16], upper: bool) -> (r: [u8; 32])
    ensures
        r@ == simple_text(src@, upper),
{
    let mut dst: [u8; 32] = [0u8; 32];
    let mut i: usize = 0;
    while i < 16
        invariant
            i <= 16,
            forall|k: int| 0 <= k < 2 * i ==> dst@[k] == #[trigger] hex_text(src@, upper)[k],
        decreases 16 - i,
    {
        let x = src[i];
        dst[i * 2] = hex_digit_of(x / 16, upper);
        dst[i * 2 + 1] = hex_digit_of(x % 16, upper);
        i = i + 1;
    }
    assert(dst@ =~= simple_text(src@, upper));
    dst
}

/// How many hyphens the hyphenated form holds before position `j`.
pub open spec fn hyphens_before(j: int) -> int {
    let after = |gap: int| if j > gap { 1int } else { 0int };
    after(8) + after(13) + after(18) + after(23)
}

/// Position `j` of the hyphenated form: either a hyphen, or the character of
/// the simple form that follows the hyphens before it.
proof fn lemma_group_join_at(s: Seq<u8>, j: int)
    requires
        s.len() == 32,
        0 <= j < 36,
    ensures
        group_join(s).len() == 36,
        group_join(s)[j] == if j == 8 || j == 13 || j == 18 || j == 23 {
            '-' as u8
        } else {
            s[j - hyphens_before(j)]
        },
{
}

/// Writes the hyphenated form of `src`.
pub(crate) fn format_hyphenated(src: &[u8; 16], upper: bool) -> (r: [u8; 36])
    ensures
        r@ == hyphenated_text(src@, upper),
{
    let hex = format_simple(src, upper);
    let mut dst: [u8; 36] = [0u8; 36];
    let mut i: usize = 0;
    let mut j: usize = 0;
    while j < 36
        invariant
            j <= 36,
            i == j - hyphens_before(j as int),
            hex@ == hex_text(src@, upper),
            forall|k: int| 0 <= k < j ==> dst@[k] == #[trigger] group_join(hex@)[k],
        decreases 36 - j,
    {
        proof {
            lemma_group_join_at(hex@, j as int);
        }
        if j == 8 || j == 13 || j == 18 || j == 23 {
            dst[j] = '-' as u8;
        } else {
            dst[j] = hex[i];
            i = i + 1;
        }
        j = j + 1;
    }
    proof {
        lemma_group_join_at(hex@, 0);
    }
    assert(dst@ =~= hyphenated_text(src@, upper));
    dst
}

/// `c` is a hex digit of the given case: `[0-9a-f]`, or `[0-9A-F]` when
/// `upper`.
pub open spec fn is_hex_digit(c: u8, upper: bool) -> bool {
    ('0' as u8 <= c <= '9' as u8) || if upper {
        'A' as u8 <= c <= 'F' as u8
    } else {
        'a' as u8 <= c <= 'f' as u8
    }
}

/// `t` reads `[0-9a-f]{32}` (or its upper-case twin).
pub open spec fn is_simple_shape(t: Seq<u8>, upper: bool) -> bool {
    &&& t.len() == 32
    &&& forall|j: int| 0 <= j < 32 ==> is_hex_digit(#[trigger] t[j], upper)
}

/// `t` reads `[0-9a-f]{8}-[0-9a-f]{4}-[0-9a-f]{4}-[0-9a-f]{4}-[0-9a-f]{12}`
/// (or its upper-case twin).
pub open spec fn is_hyphenated_shape(t: Seq<u8>, upper: bool) -> bool {
    &&& t.len() == 36
    &&& forall|j: int|
        0 <= j < 36 ==> if j == 8 || j == 13 || j == 18 || j == 23 {
            #[trigger] t[j] == '-' as u8
        } else {
            is_hex_digit(t[j], upper)
        }
}

/// A byte other than the hyphen.
pub open spec fn not_hyphen(c: u8) -> bool {
    c != '-' as u8
}

/// The forms of every identifier have fixed lengths: simple 32, hyphenated
/// 36, braced 38 and URN 45.
pub proof fn lemma_text_lengths(id: Yyid, upper: bool)
    ensures
        simple_text(id@, upper).len() == 32,
        hyphenated_text(id@, upper).len() == 36,
        braced_text(id@, upper).len() == 38,
        urn_text(id@, upper).len() == 45,
{
    crate::lemma_len(id);
    lemma_group_join_at(hex_text(id@, upper), 0);
}

/// The simple form of every identifier is 32 hex digits; the hyphenated form
/// is hex digits in groups of 8-4-4-4-12 joined by hyphens; the braced form is
/// the hyphenated one between `{` and `}`; the URN form is `urn:yyid:`
/// followed by the hyphenated one.
pub proof fn lemma_text_charset(id: Yyid, upper: bool)
    ensures
        is_simple_shape(simple_text(id@, upper), upper),
        is_hyphenated_shape(hyphenated_text(id@, upper), upper),
        braced_text(id@, upper) == seq!['{' as u8] + hyphenated_text(id@, upper) + seq!['}' as u8],
        urn_text(id@, upper) == urn_prefix() + hyphenated_text(id@, upper),
{
    crate::lemma_len(id);
    let s = hex_text(id@, upper);
    assert forall|j: int| 0 <= j < 32 implies is_hex_digit(#[trigger] s[j], upper) by {
        let b = id@[j / 2] as int;
        assert(0 <= b / 16 < 16 && 0 <= b % 16 < 16);
    }
    assert forall|j: int| 0 <= j < 36 implies (if j == 8 || j == 13 || j == 18 || j == 23 {
        #[trigger] group_join(s)[j] == '-' as u8
    } else {
        is_hex_digit(group_join(s)[j], upper)
    }) by {
        lemma_group_join_at(s, j);
    }
    lemma_group_join_at(s, 0);
}

/// Filtering with a predicate that every element meets keeps the sequence.
proof fn lemma_filter_keeps_all(s: Seq<u8>)
    requires
        forall|j: int| 0 <= j < s.len() ==> not_hyphen(#[trigger] s[j]),
    ensures
        s.filter(|c: u8| not_hyphen(c)) == s,
    decreases s.len(),
{
    reveal(Seq::filter);
    if s.len() > 0 {
        lemma_filter_keeps_all(s.drop_last());
        assert(s.drop_last().push(s.last()) =~= s);
    }
}

/// Removing every `-` from the hyphenated form of an identifier gives its
/// simple form.
pub proof fn lemma_hyphens_removed(id: Yyid, upper: bool)
    ensures
        hyphenated_text(id@, upper).filter(|c: u8| not_hyphen(c)) == simple_text(id@, upper),
{
    lemma_text_charset(id, upper);
    let s = hex_text(id@, upper);
    let p = |c: u8| not_hyphen(c);
    let h = seq!['-' as u8];
    assert(h.filter(p) =~= Seq::<u8>::empty()) by {
        reveal_with_fuel(Seq::filter, 2);
        assert(h.drop_last() =~= Seq::<u8>::empty());
    }
    assert forall|j: int| 0 <= j < s.len() implies not_hyphen(#[trigger] s[j]) by {
        assert(is_hex_digit(s[j], upper));
    }
    let g0 = s.subrange(0, 8);
    let g1 = s.subrange(8, 12);
    let g2 = s.subrange(12, 16);
    let g3 = s.subrange(16, 20);
    let g4 = s.subrange(20, 32);
    lemma_filter_keeps_all(g0);
    lemma_filter_keeps_all(g1);
    lemma_filter_keeps_all(g2);
    lemma_filter_keeps_all(g3);
    lemma_filter_keeps_all(g4);
    Seq::filter_distributes_over_add(g0, h, p);
    Seq::filter_distributes_over_add(g0 + h, g1, p);
    Seq::filter_distributes_over_add(g0 + h + g1, h, p);
    Seq::filter_distributes_over_add(g0 + h + g1 + h, g2, p);
    Seq::filter_distributes_over_add(g0 + h + g1 + h + g2, h, p);
    Seq::filter_distributes_over_add(g0 + h + g1 + h + g2 + h, g3, p);
    Seq::filter_distributes_over_add(g0 + h + g1 + h + g2 + h + g3, h, p);
    Seq::filter_distributes_over_add(g0 + h + g1 + h + g2 + h + g3 + h, g4, p);
    assert(g0 + g1 + g2 + g3 + g4 =~= s);
}

/// `buffer` with `text` written over its first `text.len()` bytes.
pub open spec fn written(buffer: Seq<u8>, text: Seq<u8>) -> Seq<u8> {
    text + buffer.subrange(text.len() as int, buffer.len() as int)
}

/// Every form, in either case, is ASCII text.
pub(crate) proof fn lemma_texts_ascii(b: Seq<u8>, upper: bool)
    requires
        b.len() == 16,
    ensures
        is_ascii_text(simple_text(b, upper)),
        is_ascii_text(hyphenated_text(b, upper)),
        is_ascii_text(braced_text(b, upper)),
        is_ascii_text(urn_text(b, upper)),
{
    let s = hex_text(b, upper);
    let h = hyphenated_text(b, upper);
    assert(is_ascii_text(s));
    lemma_group_join_at(s, 0);
    assert forall|j: int| 0 <= j < h.len() implies h[j] < 128 by {
        lemma_group_join_at(s, j);
    }
    assert(is_ascii_text(braced_text(b, upper)));
    assert(is_ascii_text(urn_text(b, upper)));
}

/// ASCII text is valid UTF-8 and decodes to one character for each byte.
pub(crate) proof fn lemma_ascii_utf8(t: Seq<u8>)
    requires
        is_ascii_text(t),
    ensures
        valid_utf8(t),
        decode_utf8(t) == ascii_chars(t),
{
    let c = ascii_chars(t);
    assert(is_ascii_chars(c));
    is_ascii_chars_encode_utf8(c);
    assert(encode_utf8(c) =~= t);
    encode_utf8_valid_utf8(c);
    encode_utf8_decode_utf8(c);
}

/// Relies on core::str::from_utf8, which accepts exactly the valid UTF-8 byte
/// strings and hands back the text that they encode.
#[verifier::external_body]
fn utf8_str(bytes: &[u8]) -> (r: &str)
    requires
        valid_utf8(bytes@),
    ensures
        r@ == decode_utf8(bytes@),
{
    core::str::from_utf8(bytes).expect("valid UTF-8 is accepted")
}

/// Copies `text` into `buffer` from position `start` on.
pub(crate) fn write_at(buffer: &mut [u8], start: usize, text: &[u8])
    requires
        start + text@.len() <= old(buffer)@.len(),
    ensures
        final(buffer)@ == old(buffer)@.subrange(0, start as int) + text@ + old(buffer)@.subrange(
            start + text@.len(),
            old(buffer)@.len() as int,
        ),
{
    let n = buffer.len();
    let mut k: usize = 0;
    while k < text.len()
        invariant
            k <= text@.len(),
            start + text@.len() <= old(buffer)@.len(),
            n == old(buffer)@.len(),
            buffer@.len() == old(buffer)@.len(),
            forall|m: int|
                0 <= m < buffer@.len() ==> #[trigger] buffer@[m] == if start <= m < start + k {
                    text@[m - start]
                } else {
                    old(buffer)@[m]
                },
        decreases text@.len() - k,
    {
        buffer[start + k] = text[k];
        k = k + 1;
    }
    assert(buffer@ =~= old(buffer)@.subrange(0, start as int) + text@ + old(buffer)@.subrange(
        start + text@.len(),
        old(buffer)@.len() as int,
    ));
}

/// Hands out the first `len` bytes of `buffer`, which hold UTF-8 text, as a
/// string slice.
pub(crate) fn finish<'b>(buffer: &'b mut [u8], len: usize) -> (r: &'b str)
    requires
        len <= old(buffer)@.len(),
        valid_utf8(old(buffer)@.subrange(0, len as int)),
    ensures
        r@ == decode_utf8(old(buffer)@.subrange(0, len as int)),
        final(buffer)@ == old(buffer)@,
{
    let done: &'b [u8] = buffer;
    utf8_str(vstd::slice::slice_subrange(done, 0, len))
}

/// Writes the simple form of `src` at the start of `buffer`.
fn encode_simple<'b>(src: &[u8; 16], buffer: &'b mut [u8], upper: bool) -> (r: &'b str)
    requires
        old(buffer)@.len() >= 32,
    ensures
        r@ == ascii_chars(simple_text(src@, upper)),
        final(buffer)@ == written(old(buffer)@, simple_text(src@, upper)),
{
    let text = format_simple(src, upper);
    write_at(buffer, 0, &text);
    proof {
        lemma_texts_ascii(src@, upper);
        lemma_ascii_utf8(simple_text(src@, upper));
    }
    assert(buffer@.subrange(0, 32) =~= simple_text(src@, upper));
    assert(buffer@ =~= written(old(buffer)@, simple_text(src@, upper)));
    finish(buffer, 32)
}

/// Writes the hyphenated form of `src` at the start of `buffer`.
fn encode_hyphenated<'b>(src: &[u8; 16], buffer: &'b mut [u8], upper: bool) -> (r: &'b str)
    requires
        old(buffer)@.len() >= 36,
    ensures
        r@ == ascii_chars(hyphenated_text(src@, upper)),
        final(buffer)@ == written(old(buffer)@, hyphenated_text(src@, upper)),
{
    let text = format_hyphenated(src, upper);
    write_at(buffer, 0, &text);
    proof {
        lemma_texts_ascii(src@, upper);
        lemma_ascii_utf8(hyphenated_text(src@, upper));
    }
    assert(buffer@.subrange(0, 36) =~= hyphenated_text(src@, upper));
    assert(buffer@ =~= written(old(buffer)@, hyphenated_text(src@, upper)));
    finish(buffer, 36)
}

/// Writes the braced form of `src` at the start of `buffer`.
fn encode_braced<'b>(src: &[u8; 16], buffer: &'b mut [u8], upper: bool) -> (r: &'b str)
    requires
        old(buffer)@.len() >= 38,
    ensures
        r@ == ascii_chars(braced_text(src@, upper)),
        final(buffer)@ == written(old(buffer)@, braced_text(src@, upper)),
{
    let text = format_hyphenated(src, upper);
    buffer[0] = '{' as u8;
    write_at(buffer, 1, &text);
    buffer[37] = '}' as u8;
    proof {
        lemma_texts_ascii(src@, upper);
        lemma_ascii_utf8(braced_text(src@, upper));
    }
    assert(buffer@.subrange(0, 38) =~= braced_text(src@, upper));
    assert(buffer@ =~= written(old(buffer)@, braced_text(src@, upper)));
    finish(buffer, 38)
}

/// Writes the URN form of `src` at the start of `buffer`.
fn encode_urn<'b>(src: &[u8; 16], buffer: &'b mut [u8], upper: bool) -> (r: &'b str)
    requires
        old(buffer)@.len() >= 45,
    ensures
        r@ == ascii_chars(urn_text(src@, upper)),
        final(buffer)@ == written(old(buffer)@, urn_text(src@, upper)),
{
    let prefix: [u8; 9] = [
        'u' as u8,
        'r' as u8,
        'n' as u8,
        ':' as u8,
        'y' as u8,
        'y' as u8,
        'i' as u8,
        'd' as u8,
        ':' as u8,
    ];
    assert(prefix@ =~= urn_prefix());
    let text = format_hyphenated(src, upper);
    write_at(buffer, 0, &prefix);
    write_at(buffer, 9, &text);
    proof {
        lemma_texts_ascii(src@, upper);
        lemma_ascii_utf8(urn_text(src@, upper));
    }
    assert(buffer@.subrange(0, 45) =~= urn_text(src@, upper));
    assert(buffer@ =~= written(old(buffer)@, urn_text(src@, upper)));
    finish(buffer, 45)
}

impl Yyid {
    /// The identifier as lower-case hyphenated text, its canonical string
    /// form.
    pub fn to_string(&self) -> (r: String)
        ensures
            r@ == ascii_chars(hyphenated_text(self@, false)),
    {
        self.hyphenated().to_string()
    }

    /// Get an owned [`Hyphenated`] from a [`Yyid`]
    pub fn hyphenated(self) -> (r: Hyphenated)
        ensures
            r@ == self@,
    {
        Hyphenated(self)
    }

    /// Get an owned [`Simple`] from a [`Yyid`]
    pub fn simple(self) -> (r: Simple)
        ensures
            r@ == self@,
    {
        Simple(self)
    }

    /// Get an owned [`Urn`] from a [`Yyid`]
    pub fn urn(self) -> (r: Urn)
        ensures
            r@ == self@,
    {
        Urn(self)
    }

    /// Get an owned [`Braced`] from a [`Yyid`]
    pub fn braced(self) -> (r: Braced)
        ensures
            r@ == self@,
    {
        Braced(self)
    }
}

/// Format a [`Yyid`] as a hyphenated string, like
/// `c49b79f5-22d4-dc42-f214-f4209c80d048`.
#[derive(Clone, Copy, Debug, Default, Hash, PartialOrd, Ord)]
pub struct Hyphenated(Yyid);

impl View for Hyphenated {
    type V = Seq<u8>;

    /// The bytes of the wrapped identifier.
    closed spec fn view(&self) -> Seq<u8> {
        self.0@
    }
}

impl Hyphenated {
    /// Hyphenated string length
    pub const LENGTH: usize = 36;

    /// Wraps a [`Yyid`] into a [`Hyphenated`]
    pub fn from_yyid(yyid: Yyid) -> (r: Self)
        ensures
            r@ == yyid@,
    {
        Hyphenated(yyid)
    }

    /// Get a reference to the underlying [`Yyid`].
    pub fn as_yyid(&self) -> (r: &Yyid)
        ensures
            r@ == self@,
    {
        &self.0
    }

    /// Consumes the [`Hyphenated`], returning the underlying [`Yyid`].
    pub fn into_yyid(self) -> (r: Yyid)
        ensures
            r@ == self@,
    {
        self.0
    }

    /// Writes the [`Yyid`] as a lower-case hyphenated string to the start of
    /// `buffer`, and returns the part of the buffer that holds it.
    pub fn encode_lower<'buf>(&self, buffer: &'buf mut [u8]) -> (r: &'buf str)
        requires
            old(buffer)@.len() >= 36,
        ensures
            r@ == ascii_chars(hyphenated_text(self@, false)),
            final(buffer)@ == written(old(buffer)@, hyphenated_text(self@, false)),
    {
        encode_hyphenated(self.0.as_bytes(), buffer, false)
    }

    /// Writes the [`Yyid`] as an upper-case hyphenated string to the start of
    /// `buffer`, and returns the part of the buffer that holds it.
    pub fn encode_upper<'buf>(&self, buffer: &'buf mut [u8]) -> (r: &'buf str)
        requires
            old(buffer)@.len() >= 36,
        ensures
            r@ == ascii_chars(hyphenated_text(self@, true)),
            final(buffer)@ == written(old(buffer)@, hyphenated_text(self@, true)),
    {
        encode_hyphenated(self.0.as_bytes(), buffer, true)
    }

    /// The lower-case hyphenated string, as an owned `String`.
    pub fn to_string(&self) -> (r: String)
        ensures
            r@ == ascii_chars(hyphenated_text(self@, false)),
    {
        let mut buffer = [0u8; 36];
        let text = self.encode_lower(&mut buffer);
        text.to_owned()
    }
}

impl PartialEq for Hyphenated {
    fn eq(&self, other: &Hyphenated) -> (r: bool)
        ensures
            r == (self@ == other@),
    {
        self.0 == other.0
    }
}

impl vstd::std_specs::cmp::PartialEqSpecImpl for Hyphenated {
    open spec fn obeys_eq_spec() -> bool {
        true
    }

    open spec fn eq_spec(&self, other: &Hyphenated) -> bool {
        self@ == other@
    }
}

impl Eq for Hyphenated {

}

impl From<Yyid> for Hyphenated {
    fn from(f: Yyid) -> (r: Self)
        ensures
            r@ == f@,
    {
        Hyphenated(f)
    }
}

impl vstd::std_specs::convert::FromSpecImpl<Yyid> for Hyphenated {
    open spec fn obeys_from_spec() -> bool {
        true
    }

    closed spec fn from_spec(f: Yyid) -> Self {
        Hyphenated(f)
    }
}

impl From<Hyphenated> for Yyid {
    fn from(f: Hyphenated) -> (r: Self)
        ensures
            r@ == f@,
    {
        f.0
    }
}

impl vstd::std_specs::convert::FromSpecImpl<Hyphenated> for Yyid {
    open spec fn obeys_from_spec() -> bool {
        true
    }

    closed spec fn from_spec(f: Hyphenated) -> Yyid {
        f.0
    }
}

/// Format a [`Yyid`] as a simple string, like
/// `c49b79f522d4dc42f214f4209c80d048`.
#[derive(Clone, Copy, Debug, Default, Hash, PartialOrd, Ord)]
pub struct Simple(Yyid);

impl View for Simple {
    type V = Seq<u8>;

    /// The bytes of the wrapped identifier.
    closed spec fn view(&self) -> Seq<u8> {
        self.0@
    }
}

impl Simple {
    /// Simple string length
    pub const LENGTH: usize = 32;

    /// Wraps a [`Yyid`] into a [`Simple`]
    pub fn from_yyid(yyid: Yyid) -> (r: Self)
        ensures
            r@ == yyid@,
    {
        Simple(yyid)
    }

    /// Get a reference to the underlying [`Yyid`].
    pub fn as_yyid(&self) -> (r: &Yyid)
        ensures
            r@ == self@,
    {
        &self.0
    }

    /// Consumes the [`Simple`], returning the underlying [`Yyid`].
    pub fn into_yyid(self) -> (r: Yyid)
        ensures
            r@ == self@,
    {
        self.0
    }

    /// Writes the [`Yyid`] as a lower-case simple string to the start of
    /// `buffer`, and returns the part of the buffer that holds it.
    pub fn encode_lower<'buf>(&self, buffer: &'buf mut [u8]) -> (r: &'buf str)
        requires
            old(buffer)@.len() >= 32,
        ensures
            r@ == ascii_chars(simple_text(self@, false)),
            final(buffer)@ == written(old(buffer)@, simple_text(self@, false)),
    {
        encode_simple(self.0.as_bytes(), buffer, false)
    }

    /// Writes the [`Yyid`] as an upper-case simple string to the start of
    /// `buffer`, and returns the part of the buffer that holds it.
    pub fn encode_upper<'buf>(&self, buffer: &'buf mut [u8]) -> (r: &'buf str)
        requires
            old(buffer)@.len() >= 32,
        ensures
            r@ == ascii_chars(simple_text(self@, true)),
            final(buffer)@ == written(old(buffer)@, simple_text(self@, true)),
    {
        encode_simple(self.0.as_bytes(), buffer, true)
    }

    /// The lower-case simple string, as an owned `String`.
    pub fn to_string(&self) -> (r: String)
        ensures
            r@ == ascii_chars(simple_text(self@, false)),
    {
        let mut buffer = [0u8; 32];
        let text = self.encode_lower(&mut buffer);
        text.to_owned()
    }
}

impl PartialEq for Simple {
    fn eq(&self, other: &Simple) -> (r: bool)
        ensures
            r == (self@ == other@),
    {
        self.0 == other.0
    }
}

impl vstd::std_specs::cmp::PartialEqSpecImpl for Simple {
    open spec fn obeys_eq_spec() -> bool {
        true
    }

    open spec fn eq_spec(&self, other: &Simple) -> bool {
        self@ == other@
    }
}

impl Eq for Simple {

}

impl From<Yyid> for Simple {
    fn from(f: Yyid) -> (r: Self)
        ensures
            r@ == f@,
    {
        Simple(f)
    }
}

impl vstd::std_specs::convert::FromSpecImpl<Yyid> for Simple {
    open spec fn obeys_from_spec() -> bool {
        true
    }

    closed spec fn from_spec(f: Yyid) -> Self {
        Simple(f)
    }
}

impl From<Simple> for Yyid {
    fn from(f: Simple) -> (r: Self)
        ensures
            r@ == f@,
    {
        f.0
    }
}

impl vstd::std_specs::convert::FromSpecImpl<Simple> for Yyid {
    open spec fn obeys_from_spec() -> bool {
        true
    }

    closed spec fn from_spec(f: Simple) -> Yyid {
        f.0
    }
}

/// Format a [`Yyid`] as a URN string, like
/// `urn:yyid:c49b79f5-22d4-dc42-f214-f4209c80d048`.
#[derive(Clone, Copy, Debug, Default, Hash, PartialOrd, Ord)]
pub struct Urn(Yyid);

impl View for Urn {
    type V = Seq<u8>;

    /// The bytes of the wrapped identifier.
    closed spec fn view(&self) -> Seq<u8> {
        self.0@
    }
}

impl Urn {
    /// Urn string length
    pub const LENGTH: usize = 45;

    /// Wraps a [`Yyid`] into a [`Urn`]
    pub fn from_yyid(yyid: Yyid) -> (r: Self)
        ensures
            r@ == yyid@,
    {
        Urn(yyid)
    }

    /// Get a reference to the underlying [`Yyid`].
    pub fn as_yyid(&self) -> (r: &Yyid)
        ensures
            r@ == self@,
    {
        &self.0
    }

    /// Consumes the [`Urn`], returning the underlying [`Yyid`].
    pub fn into_yyid(self) -> (r: Yyid)
        ensures
            r@ == self@,
    {
        self.0
    }

    /// Writes the [`Yyid`] as a lower-case URN string to the start of
    /// `buffer`, and returns the part of the buffer that holds it.
    pub fn encode_lower<'buf>(&self, buffer: &'buf mut [u8]) -> (r: &'buf str)
        requires
            old(buffer)@.len() >= 45,
        ensures
            r@ == ascii_chars(urn_text(self@, false)),
            final(buffer)@ == written(old(buffer)@, urn_text(self@, false)),
    {
        encode_urn(self.0.as_bytes(), buffer, false)
    }

    /// Writes the [`Yyid`] as an upper-case URN string to the start of
    /// `buffer`, and returns the part of the buffer that holds it.
    pub fn encode_upper<'buf>(&self, buffer: &'buf mut [u8]) -> (r: &'buf str)
        requires
            old(buffer)@.len() >= 45,
        ensures
            r@ == ascii_chars(urn_text(self@, true)),
            final(buffer)@ == written(old(buffer)@, urn_text(self@, true)),
    {
        encode_urn(self.0.as_bytes(), buffer, true)
    }

    /// The lower-case URN string, as an owned `String`.
    pub fn to_string(&self) -> (r: String)
        ensures
            r@ == ascii_chars(urn_text(self@, false)),
    {
        let mut buffer = [0u8; 45];
        let text = self.encode_lower(&mut buffer);
        text.to_owned()
    }
}

impl PartialEq for Urn {
    fn eq(&self, other: &Urn) -> (r: bool)
        ensures
            r == (self@ == other@),
    {
        self.0 == other.0
    }
}

impl vstd::std_specs::cmp::PartialEqSpecImpl for Urn {
    open spec fn obeys_eq_spec() -> bool {
        true
    }

    open spec fn eq_spec(&self, other: &Urn) -> bool {
        self@ == other@
    }
}

impl Eq for Urn {

}

impl From<Yyid> for Urn {
    fn from(f: Yyid) -> (r: Self)
        ensures
            r@ == f@,
    {
        Urn(f)
    }
}

impl vstd::std_specs::convert::FromSpecImpl<Yyid> for Urn {
    open spec fn obeys_from_spec() -> bool {
        true
    }

    closed spec fn from_spec(f: Yyid) -> Self {
        Urn(f)
    }
}

impl From<Urn> for Yyid {
    fn from(f: Urn) -> (r: Self)
        ensures
            r@ == f@,
    {
        f.0
    }
}

impl vstd::std_specs::convert::FromSpecImpl<Urn> for Yyid {
    open spec fn obeys_from_spec() -> bool {
        true
    }

    closed spec fn from_spec(f: Urn) -> Yyid {
        f.0
    }
}

/// Format a [`Yyid`] as a braced hyphenated string, like
/// `{c49b79f5-22d4-dc42-f214-f4209c80d048}`.
#[derive(Clone, Copy, Debug, Default, Hash, PartialOrd, Ord)]
pub struct Braced(Yyid);

impl View for Braced {
    type V = Seq<u8>;

    /// The bytes of the wrapped identifier.
    closed spec fn view(&self) -> Seq<u8> {
        self.0@
    }
}

impl Braced {
    /// Braced string length
    pub const LENGTH: usize = 38;

    /// Wraps a [`Yyid`] into a [`Braced`]
    pub fn from_yyid(yyid: Yyid) -> (r: Self)
        ensures
            r@ == yyid@,
    {
        Braced(yyid)
    }

    /// Get a reference to the underlying [`Yyid`].
    pub fn as_yyid(&self) -> (r: &Yyid)
        ensures
            r@ == self@,
    {
        &self.0
    }

    /// Consumes the [`Braced`], returning the underlying [`Yyid`].
    pub fn into_yyid(self) -> (r: Yyid)
        ensures
            r@ == self@,
    {
        self.0
    }

    /// Writes the [`Yyid`] as a lower-case braced hyphenated string to the start of
    /// `buffer`, and returns the part of the buffer that holds it.
    pub fn encode_lower<'buf>(&self, buffer: &'buf mut [u8]) -> (r: &'buf str)
        requires
            old(buffer)@.len() >= 38,
        ensures
            r@ == ascii_chars(braced_text(self@, false)),
            final(buffer)@ == written(old(buffer)@, braced_text(self@, false)),
    {
        encode_braced(self.0.as_bytes(), buffer, false)
    }

    /// Writes the [`Yyid`] as an upper-case braced hyphenated string to the start of
    /// `buffer`, and returns the part of the buffer that holds it.
    pub fn encode_upper<'buf>(&self, buffer: &'buf mut [u8]) -> (r: &'buf str)
        requires
            old(buffer)@.len() >= 38,
        ensures
            r@ == ascii_chars(braced_text(self@, true)),
            final(buffer)@ == written(old(buffer)@, braced_text(self@, true)),
    {
        encode_braced(self.0.as_bytes(), buffer, true)
    }

    /// The lower-case braced hyphenated string, as an owned `String`.
    pub fn to_string(&self) -> (r: String)
        ensures
            r@ == ascii_chars(braced_text(self@, false)),
    {
        let mut buffer = [0u8; 38];
        let text = self.encode_lower(&mut buffer);
        text.to_owned()
    }
}

impl PartialEq for Braced {
    fn eq(&self, other: &Braced) -> (r: bool)
        ensures
            r == (self@ == other@),
    {
        self.0 == other.0
    }
}

impl vstd::std_specs::cmp::PartialEqSpecImpl for Braced {
    open spec fn obeys_eq_spec() -> bool {
        true
    }

    open spec fn eq_spec(&self, other: &Braced) -> bool {
        self@ == other@
    }
}

impl Eq for Braced {

}

impl From<Yyid> for Braced {
    fn from(f: Yyid) -> (r: Self)
        ensures
            r@ == f@,
    {
        Braced(f)
    }
}

impl vstd::std_specs::convert::FromSpecImpl<Yyid> for Braced {
    open spec fn obeys_from_spec() -> bool {
        true
    }

    closed spec fn from_spec(f: Yyid) -> Self {
        Braced(f)
    }
}

impl From<Braced> for Yyid {
    fn from(f: Braced) -> (r: Self)
        ensures
            r@ == f@,
    {
        f.0
    }
}

impl vstd::std_specs::convert::FromSpecImpl<Braced> for Yyid {
    open spec fn obeys_from_spec() -> bool {
        true
    }

    closed spec fn from_spec(f: Braced) -> Yyid {
        f.0
    }
}

} // verus!
