//! YYIDs: 128-bit random identifiers, like version 4 UUIDs but with every bit
//! random, and their canonical text forms.
//!
//! An identifier is sixteen bytes. It is drawn from the system's entropy
//! source, or it is the all-zero nil value. The [`fmts`] module renders it as
//! simple, hyphenated, braced or URN text; [`refs`] offers the same renderings
//! over a borrowed identifier.
use vstd::prelude::*;

pub mod fmts;
pub mod numeric;
pub mod refs;

use crate::numeric::{
    be_bytes, be_value, le_bytes, le_value, lemma_be_round_trip, lemma_le_round_trip, u128_from_be,
    u128_from_le,
};

verus! {

/// A 128-bit (16 byte) buffer containing the ID.
pub type Bytes = [u8; 16];

/// A yniversally ynique identifier (Yyid).
#[derive(Clone, Copy, Debug, Hash, PartialOrd, Ord)]
pub struct Yyid(Bytes);

/// True when every byte of `b` is zero.
pub open spec fn all_zero(b: Seq<u8>) -> bool {
    forall|i: int| 0 <= i < b.len() ==> b[i] == 0
}

/// Relies on getrandom::getrandom, which fills a 16-byte buffer from the
/// system's preferred source of randomness and reports whether it succeeded.
/// The filled buffer comes back on success, nothing on failure. Nothing is
/// promised of the bytes.
#[verifier::external_body]
fn draw_random() -> (r: Option<Bytes>) {
    let mut dest: Bytes = [0u8; 16];
    match getrandom::getrandom(&mut dest) {
        Ok(()) => Some(dest),
        Err(_) => None,
    }
}

/// Every identifier is sixteen bytes long.
pub proof fn lemma_len(id: Yyid)
    ensures
        id@.len() == 16,
{
}

/// Splitting the numeric value of an identifier back into sixteen bytes gives
/// its bytes again: most significant first from the big-endian value of
/// `to_u128`, least significant first from the little-endian value of
/// `to_u128_le`.
pub proof fn lemma_u128_round_trip(id: Yyid)
    ensures
        be_bytes(be_value(id@), 16) == id@,
        le_bytes(le_value(id@), 16) == id@,
{
    lemma_be_round_trip(id@);
    lemma_le_round_trip(id@);
}

impl View for Yyid {
    type V = Seq<u8>;

    /// The sixteen bytes of the identifier, in order.
    closed spec fn view(&self) -> Seq<u8> {
        self.0@
    }
}

impl Yyid {
    /// Creates a new random YYID from the system's entropy source.
    ///
    /// Returns `None` when the entropy source reports a failure: a YYID made
    /// of predictable bytes would be worse than none, so the failure is passed
    /// on rather than papered over. What comes back for each outcome of the
    /// draw is stated by [`Yyid::from_drawn`].
    pub fn new() -> (r: Option<Self>)
        ensures
            r is Some ==> r->0@.len() == 16,
    {
        Self::from_drawn(draw_random())
    }

    /// The YYID made of a draw from an entropy source: the drawn bytes, in
    /// order, when the draw succeeded (`Some`), and no YYID at all when it
    /// failed (`None`).
    pub fn from_drawn(drawn: Option<Bytes>) -> (r: Option<Self>)
        ensures
            r is Some <==> drawn is Some,
            r is Some ==> r->0@ == drawn->0@,
    {
        match drawn {
            Some(bytes) => Some(Yyid::from_bytes(bytes)),
            None => None,
        }
    }

    /// Wraps sixteen bytes, taken in order, into a YYID.
    pub fn from_bytes(bytes: Bytes) -> (r: Self)
        ensures
            r@ == bytes@,
    {
        Yyid(bytes)
    }

    /// Special case: a "nil" YYID, all sixteen bytes zero.
    pub fn nil() -> (r: Self)
        ensures
            r@ == Seq::new(16, |i: int| 0u8),
            all_zero(r@),
    {
        let r = Yyid([0u8; 16]);
        assert(r@ =~= Seq::new(16, |i: int| 0u8));
        r
    }

    /// Tests if the YYID is nil.
    pub fn is_nil(&self) -> (r: bool)
        ensures
            r == all_zero(self@),
    {
        let mut i: usize = 0;
        while i < 16
            invariant
                i <= 16,
                all_zero(self@.subrange(0, i as int)),
            decreases 16 - i,
        {
            if self.0[i] != 0 {
                return false;
            }
            assert(self@.subrange(0, i as int + 1) =~= self@.subrange(0, i as int).push(self.0[i as int]));
            i = i + 1;
        }
        assert(self@.subrange(0, 16) =~= self@);
        true
    }

    /// Return an owned array of 16 octets containing the YYID data
    pub fn bytes(self) -> (r: Bytes)
        ensures
            r@ == self@,
    {
        self.0
    }

    /// Return a borrowed array of 16 octets containing the YYID data
    pub fn as_bytes(&self) -> (r: &Bytes)
        ensures
            r@ == self@,
    {
        &self.0
    }

    /// Consume itself and return a 128bit value containing the YYID data,
    /// the first byte the most significant.
    pub fn to_u128(self) -> (r: u128)
        ensures
            r == be_value(self@),
    {
        u128_from_be(&self.0)
    }

    /// Return a 128bit value containing the YYID data, the first byte the
    /// most significant.
    pub fn as_u128(&self) -> (r: u128)
        ensures
            r == be_value(self@),
    {
        u128_from_be(&self.0)
    }

    /// Consume itself and return a 128bit little-endian value containing the
    /// YYID data: the first byte the least significant.
    pub fn to_u128_le(self) -> (r: u128)
        ensures
            r == le_value(self@),
    {
        u128_from_le(&self.0)
    }

    /// Return a 128bit little-endian value containing the YYID data: the first
    /// byte the least significant.
    pub fn as_u128_le(&self) -> (r: u128)
        ensures
            r == le_value(self@),
    {
        u128_from_le(&self.0)
    }
}

impl Default for Yyid {
    /// The nil YYID.
    fn default() -> (r: Self)
        ensures
            all_zero(r@),
            r@ == Seq::new(16, |i: int| 0u8),
    {
        Self::nil()
    }
}

impl PartialEq for Yyid {
    fn eq(&self, other: &Yyid) -> (r: bool)
        ensures
            r == (self@ == other@),
    {
        let mut i: usize = 0;
        while i < 16
            invariant
                i <= 16,
                self@.subrange(0, i as int) == other@.subrange(0, i as int),
            decreases 16 - i,
        {
            if self.0[i] != other.0[i] {
                return false;
            }
            assert(self@.subrange(0, i as int + 1) =~= self@.subrange(0, i as int).push(self.0[i as int]));
            assert(other@.subrange(0, i as int + 1) =~= other@.subrange(0, i as int).push(other.0[i as int]));
            i = i + 1;
        }
        assert(self@.subrange(0, 16) =~= self@);
        assert(other@.subrange(0, 16) =~= other@);
        true
    }
}

impl vstd::std_specs::cmp::PartialEqSpecImpl for Yyid {
    open spec fn obeys_eq_spec() -> bool {
        true
    }

    open spec fn eq_spec(&self, other: &Yyid) -> bool {
        self@ == other@
    }
}

impl Eq for Yyid {

}

} // verus!
