//! Bounded byte strings, held in `heapless::Vec`: names of players and
//! tournaments, and the moves of a game.
use vstd::prelude::*;

verus! {

#[verifier::external_type_specification]
#[verifier::external_body]
#[verifier::reject_recursive_types(T)]
pub struct ExHeaplessVec<T, const N: usize>(heapless::Vec<T, N>);

/// A byte string of bounded length.
pub trait BoundedBytes: Sized {
    /// The bytes held.
    spec fn bytes(&self) -> Seq<u8>;

    /// The largest number of bytes that can be held.
    spec fn capacity() -> nat;

    /// The largest number of bytes that can be held; no kind of record
    /// here holds more than 96.
    fn max_len() -> (r: usize)
        ensures
            r == Self::capacity(),
            r <= 96;

    /// Builds a value holding `s`, or `None` where `s` is too long.
    fn from_bytes(s: &[u8]) -> (r: Option<Self>)
        ensures
            r is Some <==> s@.len() <= Self::capacity(),
            r matches Some(v) ==> v.bytes() == s@;

    /// The bytes held.
    fn as_bytes(&self) -> (r: &[u8])
        ensures
            r@ == self.bytes(),
            r@.len() <= Self::capacity();
}

/// The bytes that a `heapless::Vec<u8, 19>` holds.
pub uninterp spec fn bytes19(v: heapless::Vec<u8, 19>) -> Seq<u8>;

/// Relies on `heapless::Vec::from_slice`: it fails exactly when the slice is
/// longer than the capacity, and otherwise holds a copy of the slice.
#[verifier::external_body]
fn from_slice19(s: &[u8]) -> (r: Result<heapless::Vec<u8, 19>, ()>)
    ensures
        r is Ok <==> s@.len() <= 19,
        r matches Ok(v) ==> bytes19(v) == s@,
{
    heapless::Vec::from_slice(s)
}

/// Relies on `heapless::Vec::as_slice`: the slice of the bytes held, which
/// are never more than the capacity.
#[verifier::external_body]
fn as_slice19(v: &heapless::Vec<u8, 19>) -> (r: &[u8])
    ensures
        r@ == bytes19(*v),
        r@.len() <= 19,
{
    v.as_slice()
}

impl BoundedBytes for heapless::Vec<u8, 19> {
    open spec fn bytes(&self) -> Seq<u8> {
        bytes19(*self)
    }

    open spec fn capacity() -> nat {
        19
    }

    fn max_len() -> (r: usize) {
        19
    }

    fn from_bytes(s: &[u8]) -> (r: Option<Self>) {
        match from_slice19(s) {
            Ok(v) => Some(v),
            Err(_) => None,
        }
    }

    fn as_bytes(&self) -> (r: &[u8]) {
        as_slice19(self)
    }
}

/// The bytes that a `heapless::Vec<u8, 25>` holds.
pub uninterp spec fn bytes25(v: heapless::Vec<u8, 25>) -> Seq<u8>;

/// Relies on `heapless::Vec::from_slice`: it fails exactly when the slice is
/// longer than the capacity, and otherwise holds a copy of the slice.
#[verifier::external_body]
fn from_slice25(s: &[u8]) -> (r: Result<heapless::Vec<u8, 25>, ()>)
    ensures
        r is Ok <==> s@.len() <= 25,
        r matches Ok(v) ==> bytes25(v) == s@,
{
    heapless::Vec::from_slice(s)
}

/// Relies on `heapless::Vec::as_slice`: the slice of the bytes held, which
/// are never more than the capacity.
#[verifier::external_body]
fn as_slice25(v: &heapless::Vec<u8, 25>) -> (r: &[u8])
    ensures
        r@ == bytes25(*v),
        r@.len() <= 25,
{
    v.as_slice()
}

impl BoundedBytes for heapless::Vec<u8, 25> {
    open spec fn bytes(&self) -> Seq<u8> {
        bytes25(*self)
    }

    open spec fn capacity() -> nat {
        25
    }

    fn max_len() -> (r: usize) {
        25
    }

    fn from_bytes(s: &[u8]) -> (r: Option<Self>) {
        match from_slice25(s) {
            Ok(v) => Some(v),
            Err(_) => None,
        }
    }

    fn as_bytes(&self) -> (r: &[u8]) {
        as_slice25(self)
    }
}

/// The bytes that a `heapless::Vec<u8, 60>` holds.
pub uninterp spec fn bytes60(v: heapless::Vec<u8, 60>) -> Seq<u8>;

/// Relies on `heapless::Vec::from_slice`: it fails exactly when the slice is
/// longer than the capacity, and otherwise holds a copy of the slice.
#[verifier::external_body]
fn from_slice60(s: &[u8]) -> (r: Result<heapless::Vec<u8, 60>, ()>)
    ensures
        r is Ok <==> s@.len() <= 60,
        r matches Ok(v) ==> bytes60(v) == s@,
{
    heapless::Vec::from_slice(s)
}

/// Relies on `heapless::Vec::as_slice`: the slice of the bytes held, which
/// are never more than the capacity.
#[verifier::external_body]
fn as_slice60(v: &heapless::Vec<u8, 60>) -> (r: &[u8])
    ensures
        r@ == bytes60(*v),
        r@.len() <= 60,
{
    v.as_slice()
}

impl BoundedBytes for heapless::Vec<u8, 60> {
    open spec fn bytes(&self) -> Seq<u8> {
        bytes60(*self)
    }

    open spec fn capacity() -> nat {
        60
    }

    fn max_len() -> (r: usize) {
        60
    }

    fn from_bytes(s: &[u8]) -> (r: Option<Self>) {
        match from_slice60(s) {
            Ok(v) => Some(v),
            Err(_) => None,
        }
    }

    fn as_bytes(&self) -> (r: &[u8]) {
        as_slice60(self)
    }
}

/// The bytes that a `heapless::Vec<u8, 96>` holds.
pub uninterp spec fn bytes96(v: heapless::Vec<u8, 96>) -> Seq<u8>;

/// Relies on `heapless::Vec::from_slice`: it fails exactly when the slice is
/// longer than the capacity, and otherwise holds a copy of the slice.
#[verifier::external_body]
fn from_slice96(s: &[u8]) -> (r: Result<heapless::Vec<u8, 96>, ()>)
    ensures
        r is Ok <==> s@.len() <= 96,
        r matches Ok(v) ==> bytes96(v) == s@,
{
    heapless::Vec::from_slice(s)
}

/// Relies on `heapless::Vec::as_slice`: the slice of the bytes held, which
/// are never more than the capacity.
#[verifier::external_body]
fn as_slice96(v: &heapless::Vec<u8, 96>) -> (r: &[u8])
    ensures
        r@ == bytes96(*v),
        r@.len() <= 96,
{
    v.as_slice()
}

impl BoundedBytes for heapless::Vec<u8, 96> {
    open spec fn bytes(&self) -> Seq<u8> {
        bytes96(*self)
    }

    open spec fn capacity() -> nat {
        96
    }

    fn max_len() -> (r: usize) {
        96
    }

    fn from_bytes(s: &[u8]) -> (r: Option<Self>) {
        match from_slice96(s) {
            Ok(v) => Some(v),
            Err(_) => None,
        }
    }

    fn as_bytes(&self) -> (r: &[u8]) {
        as_slice96(self)
    }
}

} // verus!
