//! Views that borrow a [`Yyid`] rather than own it: hyphenated, simple and
//! URN text.
use vstd::prelude::*;

use crate::fmts::{
    ascii_chars, finish, format_hyphenated, format_simple, hyphenated_text, lemma_ascii_utf8,
    simple_text, urn_prefix, urn_text, write_at, written,
};
use crate::Yyid;
use vstd::utf8::{decode_utf8, valid_utf8, valid_utf8_concat};

verus! {

/// The lower-case text that the shared encoder writes: the hyphenated form or
/// the simple one.
pub open spec fn lower_text(b: Seq<u8>, hyphens: bool) -> Seq<u8> {
    if hyphens {
        hyphenated_text(b, false)
    } else {
        simple_text(b, false)
    }
}

/// Writes the lower-case text of `yyid` into `full_buffer` from position
/// `start` on, and returns everything up to its end, the bytes before `start`
/// included.
fn encode<'a>(full_buffer: &'a mut [u8], start: usize, yyid: &Yyid, hyphens: bool) -> (r: &'a str)
    requires
        start + (if hyphens { 36int } else { 32int }) <= old(full_buffer)@.len(),
        valid_utf8(old(full_buffer)@.subrange(0, start as int)),
    ensures
        r@ == decode_utf8(old(full_buffer)@.subrange(0, start as int) + lower_text(yyid@, hyphens)),
        final(full_buffer)@ == written(
            old(full_buffer)@,
            old(full_buffer)@.subrange(0, start as int) + lower_text(yyid@, hyphens),
        ),
{
    let capacity = full_buffer.len();
    let len: usize = if hyphens {
        36
    } else {
        32
    };
    if hyphens {
        let text = format_hyphenated(yyid.as_bytes(), false);
        write_at(full_buffer, start, &text);
    } else {
        let text = format_simple(yyid.as_bytes(), false);
        write_at(full_buffer, start, &text);
    }
    let ghost head = old(full_buffer)@.subrange(0, start as int) + lower_text(yyid@, hyphens);
    proof {
        crate::fmts::lemma_texts_ascii(yyid@, false);
        crate::lemma_len(*yyid);
        lemma_ascii_utf8(lower_text(yyid@, hyphens));
        valid_utf8_concat(old(full_buffer)@.subrange(0, start as int), lower_text(yyid@, hyphens));
    }
    assert(full_buffer@.subrange(0, (start + len) as int) =~= head);
    assert(full_buffer@ =~= written(old(full_buffer)@, head));
    assert(start + len <= capacity);
    finish(full_buffer, start + len)
}

/// Used for formatting a [`Yyid`] as a hyphenated string
#[derive(Clone, Copy, Debug, Hash, PartialOrd, Ord)]
pub struct HyphenatedRef<'a>(&'a Yyid);

/// Used for formatting a [`Yyid`] as a simple string
#[derive(Clone, Copy, Debug, Hash, PartialOrd, Ord)]
pub struct SimpleRef<'a>(&'a Yyid);

/// Used for formatting a [`Yyid`] as a URN string
/// URN prefix will be: `urn:yyid:`
#[derive(Clone, Copy, Debug, Hash, PartialOrd, Ord)]
pub struct UrnRef<'a>(&'a Yyid);

impl Yyid {
    /// Creates a [`HyphenatedRef`] from a [`Yyid`]
    pub fn to_hyphenated_ref(&self) -> (r: HyphenatedRef<'_>)
        ensures
            r@ == self@,
    {
        HyphenatedRef::from_yyid_ref(self)
    }

    /// Creates a [`SimpleRef`] from a [`Yyid`]
    pub fn to_simple_ref(&self) -> (r: SimpleRef<'_>)
        ensures
            r@ == self@,
    {
        SimpleRef::from_yyid_ref(self)
    }

    /// Creates a [`UrnRef`] from a [`Yyid`]
    pub fn to_urn_ref(&self) -> (r: UrnRef<'_>)
        ensures
            r@ == self@,
    {
        UrnRef::from_yyid_ref(self)
    }
}

impl<'a> View for HyphenatedRef<'a> {
    type V = Seq<u8>;

    /// The bytes of the borrowed identifier.
    closed spec fn view(&self) -> Seq<u8> {
        self.0@
    }
}

impl<'a> HyphenatedRef<'a> {
    /// Hyphenated string length
    pub const LENGTH: usize = 36;

    /// Wraps a [`Yyid`] into a [`HyphenatedRef`]
    pub fn from_yyid_ref(yyid: &'a Yyid) -> (r: Self)
        ensures
            r@ == yyid@,
    {
        Self(yyid)
    }

    /// Writes the [`Yyid`] as a lower-case hyphenated string to the start of
    /// `buffer`, and returns the part of the buffer that holds it.
    pub fn encode<'buf>(&self, buffer: &'buf mut [u8]) -> (r: &'buf str)
        requires
            old(buffer)@.len() >= 36,
        ensures
            r@ == ascii_chars(hyphenated_text(self@, false)),
            final(buffer)@ == written(old(buffer)@, hyphenated_text(self@, false)),
    {
        assert(old(buffer)@.subrange(0, 0) + lower_text(self@, true) =~= hyphenated_text(self@, false));
        proof {
            crate::fmts::lemma_texts_ascii(self@, false);
            lemma_ascii_utf8(hyphenated_text(self@, false));
            lemma_ascii_utf8(Seq::empty());
            assert(old(buffer)@.subrange(0, 0) =~= Seq::<u8>::empty());
        }
        encode(buffer, 0, self.0, true)
    }

    /// The lower-case hyphenated string, as an owned `String`.
    pub fn to_string(&self) -> (r: String)
        ensures
            r@ == ascii_chars(hyphenated_text(self@, false)),
    {
        let mut buffer = [0u8; 36];
        let text = self.encode(&mut buffer);
        text.to_owned()
    }
}

impl<'a> PartialEq for HyphenatedRef<'a> {
    fn eq(&self, other: &HyphenatedRef<'a>) -> (r: bool)
        ensures
            r == (self@ == other@),
    {
        *self.0 == *other.0
    }
}

impl<'a> vstd::std_specs::cmp::PartialEqSpecImpl for HyphenatedRef<'a> {
    open spec fn obeys_eq_spec() -> bool {
        true
    }

    open spec fn eq_spec(&self, other: &HyphenatedRef<'a>) -> bool {
        self@ == other@
    }
}

impl<'a> Eq for HyphenatedRef<'a> {

}

impl<'a> From<&'a Yyid> for HyphenatedRef<'a> {
    fn from(f: &'a Yyid) -> (r: Self)
        ensures
            r@ == f@,
    {
        HyphenatedRef(f)
    }
}

impl<'a> vstd::std_specs::convert::FromSpecImpl<&'a Yyid> for HyphenatedRef<'a> {
    open spec fn obeys_from_spec() -> bool {
        true
    }

    closed spec fn from_spec(f: &'a Yyid) -> Self {
        HyphenatedRef(f)
    }
}

impl<'a> View for SimpleRef<'a> {
    type V = Seq<u8>;

    /// The bytes of the borrowed identifier.
    closed spec fn view(&self) -> Seq<u8> {
        self.0@
    }
}

impl<'a> SimpleRef<'a> {
    /// Simple string length
    pub const LENGTH: usize = 32;

    /// Wraps a [`Yyid`] into a [`SimpleRef`]
    pub fn from_yyid_ref(yyid: &'a Yyid) -> (r: Self)
        ensures
            r@ == yyid@,
    {
        Self(yyid)
    }

    /// Writes the [`Yyid`] as a lower-case simple string to the start of
    /// `buffer`, and returns the part of the buffer that holds it.
    pub fn encode<'buf>(&self, buffer: &'buf mut [u8]) -> (r: &'buf str)
        requires
            old(buffer)@.len() >= 32,
        ensures
            r@ == ascii_chars(simple_text(self@, false)),
            final(buffer)@ == written(old(buffer)@, simple_text(self@, false)),
    {
        assert(old(buffer)@.subrange(0, 0) + lower_text(self@, false) =~= simple_text(self@, false));
        proof {
            crate::fmts::lemma_texts_ascii(self@, false);
            lemma_ascii_utf8(simple_text(self@, false));
            lemma_ascii_utf8(Seq::empty());
            assert(old(buffer)@.subrange(0, 0) =~= Seq::<u8>::empty());
        }
        encode(buffer, 0, self.0, false)
    }

    /// The lower-case simple string, as an owned `String`.
    pub fn to_string(&self) -> (r: String)
        ensures
            r@ == ascii_chars(simple_text(self@, false)),
    {
        let mut buffer = [0u8; 32];
        let text = self.encode(&mut buffer);
        text.to_owned()
    }
}

impl<'a> PartialEq for SimpleRef<'a> {
    fn eq(&self, other: &SimpleRef<'a>) -> (r: bool)
        ensures
            r == (self@ == other@),
    {
        *self.0 == *other.0
    }
}

impl<'a> vstd::std_specs::cmp::PartialEqSpecImpl for SimpleRef<'a> {
    open spec fn obeys_eq_spec() -> bool {
        true
    }

    open spec fn eq_spec(&self, other: &SimpleRef<'a>) -> bool {
        self@ == other@
    }
}

impl<'a> Eq for SimpleRef<'a> {

}

impl<'a> From<&'a Yyid> for SimpleRef<'a> {
    fn from(f: &'a Yyid) -> (r: Self)
        ensures
            r@ == f@,
    {
        SimpleRef(f)
    }
}

impl<'a> vstd::std_specs::convert::FromSpecImpl<&'a Yyid> for SimpleRef<'a> {
    open spec fn obeys_from_spec() -> bool {
        true
    }

    closed spec fn from_spec(f: &'a Yyid) -> Self {
        SimpleRef(f)
    }
}

impl<'a> View for UrnRef<'a> {
    type V = Seq<u8>;

    /// The bytes of the borrowed identifier.
    closed spec fn view(&self) -> Seq<u8> {
        self.0@
    }
}

impl<'a> UrnRef<'a> {
    /// URN string length
    pub const LENGTH: usize = 45;

    /// Wraps a [`Yyid`] into a [`UrnRef`]
    pub fn from_yyid_ref(yyid: &'a Yyid) -> (r: Self)
        ensures
            r@ == yyid@,
    {
        Self(yyid)
    }

    /// Writes the [`Yyid`] as a lower-case URN string to the start of
    /// `buffer`, and returns the part of the buffer that holds it.
    pub fn encode<'buf>(&self, buffer: &'buf mut [u8]) -> (r: &'buf str)
        requires
            old(buffer)@.len() >= 45,
        ensures
            r@ == ascii_chars(urn_text(self@, false)),
            final(buffer)@ == written(old(buffer)@, urn_text(self@, false)),
    {
        let prefix: [u8; 9] = [
            'u' as u8,
            'r' as u8,
            'n' as u8,
            ':' as u8,
            'y' as u8,
            'y' as u8,
            'i' as u8,
            'd' as u8,
            ':' as u8,
        ];
        assert(prefix@ =~= urn_prefix());
        write_at(buffer, 0, &prefix);
        let ghost head = buffer@.subrange(0, 9) + lower_text(self@, true);
        assert(buffer@.subrange(0, 9) =~= urn_prefix());
        assert(head =~= urn_text(self@, false));
        assert(written(buffer@, head) =~= written(old(buffer)@, urn_text(self@, false)));
        proof {
            crate::fmts::lemma_texts_ascii(self@, false);
            lemma_ascii_utf8(urn_text(self@, false));
            lemma_ascii_utf8(urn_prefix());
        }
        encode(buffer, 9, self.0, true)
    }

    /// The lower-case URN string, as an owned `String`.
    pub fn to_string(&self) -> (r: String)
        ensures
            r@ == ascii_chars(urn_text(self@, false)),
    {
        let mut buffer = [0u8; 45];
        let text = self.encode(&mut buffer);
        text.to_owned()
    }
}

impl<'a> PartialEq for UrnRef<'a> {
    fn eq(&self, other: &UrnRef<'a>) -> (r: bool)
        ensures
            r == (self@ == other@),
    {
        *self.0 == *other.0
    }
}

impl<'a> vstd::std_specs::cmp::PartialEqSpecImpl for UrnRef<'a> {
    open spec fn obeys_eq_spec() -> bool {
        true
    }

    open spec fn eq_spec(&self, other: &UrnRef<'a>) -> bool {
        self@ == other@
    }
}

impl<'a> Eq for UrnRef<'a> {

}

impl<'a> From<&'a Yyid> for UrnRef<'a> {
    fn from(f: &'a Yyid) -> (r: Self)
        ensures
            r@ == f@,
    {
        UrnRef(f)
    }
}

impl<'a> vstd::std_specs::convert::FromSpecImpl<&'a Yyid> for UrnRef<'a> {
    open spec fn obeys_from_spec() -> bool {
        true
    }

    closed spec fn from_spec(f: &'a Yyid) -> Self {
        UrnRef(f)
    }
}

} // verus!
