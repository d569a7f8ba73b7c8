//! Call flags to a function
use vstd::prelude::*;

verus! {

/// Flag: the function won't throw a value.
pub const CALL_NO_THROW: i32 = 1;
/// Flag: the function won't return.
pub const CALL_NO_RETURN: i32 = 2;
/// Flag: the call is a tail call.
pub const CALL_TAIL: i32 = 4;
/// The union of every named call flag.
pub const CALL_ALL: i32 = 7;

/// Call flags to a function
#[derive(PartialEq, Eq, Structural, Clone, Copy, Debug)]
pub struct CallFlags {
    bits: i32,
}

impl View for CallFlags {
    type V = i32;

    open spec fn view(&self) -> i32 {
        self.spec_bits()
    }
}

#[allow(non_snake_case)]
impl CallFlags {
    /// The raw bits of the flags.
    pub closed spec fn spec_bits(&self) -> i32 {
        self.bits
    }

    /// When the function won't throw a value
    pub fn NO_THROW() -> (r: CallFlags)
        ensures
            r@ == CALL_NO_THROW,
    {
        CallFlags { bits: CALL_NO_THROW }
    }

    /// When the function won't return a value
    pub fn NO_RETURN() -> (r: CallFlags)
        ensures
            r@ == CALL_NO_RETURN,
    {
        CallFlags { bits: CALL_NO_RETURN }
    }

    /// When the function is tail-recursive
    pub fn TAIL() -> (r: CallFlags)
        ensures
            r@ == CALL_TAIL,
    {
        CallFlags { bits: CALL_TAIL }
    }

    /// No flag set.
    pub fn empty() -> (r: CallFlags)
        ensures
            r@ == 0,
    {
        CallFlags { bits: 0 }
    }

    /// Every flag set.
    pub fn all() -> (r: CallFlags)
        ensures
            r@ == CALL_ALL,
    {
        CallFlags { bits: CALL_ALL }
    }

    /// The raw bits.
    pub fn bits(&self) -> (r: i32)
        ensures
            r == self@,
    {
        self.bits
    }

    /// The flags with exactly these bits, when every one of them is a named
    /// flag.
    pub fn from_bits(bits: i32) -> (r: Option<CallFlags>)
        ensures
            r is Some <==> bits & !CALL_ALL == 0,
            r matches Some(f) ==> f@ == bits,
    {
        if bits & !CALL_ALL == 0 {
            Some(CallFlags { bits })
        } else {
            None
        }
    }

    /// Whether every flag of `other` is set in `self`.
    pub fn contains(&self, other: CallFlags) -> (r: bool)
        ensures
            r == (self@ & other@ == other@),
    {
        self.bits & other.bits == other.bits
    }

    /// Set the flags of `other`.
    pub fn insert(&mut self, other: CallFlags)
        ensures
            final(self)@ == old(self)@ | other@,
    {
        self.bits = self.bits | other.bits;
    }

    /// Clear the flags of `other`.
    pub fn remove(&mut self, other: CallFlags)
        ensures
            final(self)@ == old(self)@ & !other@,
    {
        self.bits = self.bits & !other.bits;
    }
}

/// After inserting `b` into `a`, the result contains both; after removing
/// `b`, it contains none of the flags of `b`.
pub proof fn lemma_flags_insert_remove(a: CallFlags, b: CallFlags)
    ensures
        (a@ | b@) & a@ == a@,
        (a@ | b@) & b@ == b@,
        (a@ & !b@) & b@ == 0,
{
    let (x, y) = (a@, b@);
    assert((x | y) & x == x && (x | y) & y == y && (x & !y) & y == 0) by (bit_vector);
}

} // verus!
