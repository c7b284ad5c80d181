//! Little-endian fields on the wire: what a field's bytes stand for, the
//! outcome of reading a fixed-width prefix, and the readers themselves, which
//! call `nom`.

use vstd::prelude::*;

verus! {

/// Why a decoder gave no value.
#[derive(Clone, Copy, Debug, PartialEq, Eq, Structural)]
pub enum DecodeError {
    /// The window holds fewer bytes than the fields being read need. More
    /// bytes may still come: this is no verdict on the bytes that are there.
    Incomplete,
}

/// The unsigned 16-bit value of the two bytes at `i`, low byte first.
pub open spec fn le_u16_at(s: Seq<u8>, i: int) -> u16 {
    (s[i] as int + s[i + 1] as int * 0x100) as u16
}

/// The unsigned 32-bit value of the four bytes at `i`, low byte first.
pub open spec fn le_u32_at(s: Seq<u8>, i: int) -> u32 {
    (s[i] as int + s[i + 1] as int * 0x100 + s[i + 2] as int * 0x1_0000 + s[i + 3] as int
        * 0x100_0000) as u32
}

/// The unsigned 64-bit value of the eight bytes at `i`, low byte first.
pub open spec fn le_u64_at(s: Seq<u8>, i: int) -> u64 {
    (le_u32_at(s, i) as int + le_u32_at(s, i + 4) as int * 0x1_0000_0000) as u64
}

/// What a decoder that needs `n` bytes makes of the window `s`: the value `v`
/// and the bytes after the first `n`, or `Incomplete` and nothing else where
/// the window is shorter than `n`.
pub open spec fn fixed_width<T>(s: Seq<u8>, n: int, v: T) -> Result<(Seq<u8>, T), DecodeError> {
    if s.len() >= n {
        Ok((s.skip(n), v))
    } else {
        Err(DecodeError::Incomplete)
    }
}

/// A decoder's result with the unread bytes taken as a sequence.
pub open spec fn outcome<T>(r: Result<(&[u8], T), DecodeError>) -> Result<
    (Seq<u8>, T),
    DecodeError,
> {
    match r {
        Ok((rest, v)) => Ok((rest@, v)),
        Err(e) => Err(e),
    }
}

/// Dropping `a` bytes and then `b` more drops `a + b`.
pub proof fn lemma_skip_twice(s: Seq<u8>)
    ensures
        forall|a: int, b: int|
            0 <= a && 0 <= b && a + b <= s.len() ==> #[trigger] s.skip(a).skip(b) == s.skip(a + b),
{
    assert forall|a: int, b: int| 0 <= a && 0 <= b && a + b <= s.len() implies #[trigger] s.skip(
        a,
    ).skip(b) == s.skip(a + b) by {
        assert(s.skip(a).skip(b) =~= s.skip(a + b));
    }
}

/// `nom::Err`, the error side of every `nom` parser. Nothing is read from it.
#[verifier::external_type_specification]
#[verifier::external_body]
#[verifier::reject_recursive_types(E)]
pub struct ExNomErr<E>(nom::Err<E>);

/// `nom::error::Error`, the default payload of `nom::Err`. Nothing is read
/// from it.
#[verifier::external_type_specification]
#[verifier::external_body]
#[verifier::reject_recursive_types(I)]
pub struct ExNomError<I>(nom::error::Error<I>);

/// Calls `nom::number::complete::le_u16`. Trusted: on a window of two bytes
/// or more it succeeds with `byte 0 + byte 1 << 8` and the window from index
/// 2 on; on a shorter window it fails.
#[verifier::external_body]
fn nom_le_u16<'a>(input: &'a [u8]) -> (r: Result<
    (&'a [u8], u16),
    nom::Err<nom::error::Error<&'a [u8]>>,
>)
    ensures
        input@.len() >= 2 ==> {
            &&& r is Ok
            &&& r->Ok_0.0@ == input@.skip(2)
            &&& r->Ok_0.1 == le_u16_at(input@, 0)
        },
        input@.len() < 2 ==> r is Err,
{
    nom::number::complete::le_u16(input)
}

/// Calls `nom::number::complete::le_u32`. Trusted: on a window of four bytes
/// or more it succeeds with the sum of `byte k << 8 * k` over the first four
/// and the window from index 4 on; on a shorter window it fails.
#[verifier::external_body]
fn nom_le_u32<'a>(input: &'a [u8]) -> (r: Result<
    (&'a [u8], u32),
    nom::Err<nom::error::Error<&'a [u8]>>,
>)
    ensures
        input@.len() >= 4 ==> {
            &&& r is Ok
            &&& r->Ok_0.0@ == input@.skip(4)
            &&& r->Ok_0.1 == le_u32_at(input@, 0)
        },
        input@.len() < 4 ==> r is Err,
{
    nom::number::complete::le_u32(input)
}

/// Calls `nom::number::complete::le_u64`. Trusted: on a window of eight bytes
/// or more it succeeds with the sum of `byte k << 8 * k` over the first eight
/// and the window from index 8 on; on a shorter window it fails.
#[verifier::external_body]
fn nom_le_u64<'a>(input: &'a [u8]) -> (r: Result<
    (&'a [u8], u64),
    nom::Err<nom::error::Error<&'a [u8]>>,
>)
    ensures
        input@.len() >= 8 ==> {
            &&& r is Ok
            &&& r->Ok_0.0@ == input@.skip(8)
            &&& r->Ok_0.1 == le_u64_at(input@, 0)
        },
        input@.len() < 8 ==> r is Err,
{
    nom::number::complete::le_u64(input)
}

/// Reads a little-endian `u16` off the front of the window.
pub(crate) fn take_u16(input: &[u8]) -> (r: Result<(&[u8], u16), DecodeError>)
    ensures
        outcome(r) == fixed_width(input@, 2, le_u16_at(input@, 0)),
{
    match nom_le_u16(input) {
        Ok(read) => Ok(read),
        Err(_) => Err(DecodeError::Incomplete),
    }
}

/// Reads a little-endian `u32` off the front of the window.
pub(crate) fn take_u32(input: &[u8]) -> (r: Result<(&[u8], u32), DecodeError>)
    ensures
        outcome(r) == fixed_width(input@, 4, le_u32_at(input@, 0)),
{
    match nom_le_u32(input) {
        Ok(read) => Ok(read),
        Err(_) => Err(DecodeError::Incomplete),
    }
}

/// Reads a little-endian `u64` off the front of the window.
pub(crate) fn take_u64(input: &[u8]) -> (r: Result<(&[u8], u64), DecodeError>)
    ensures
        outcome(r) == fixed_width(input@, 8, le_u64_at(input@, 0)),
{
    match nom_le_u64(input) {
        Ok(read) => Ok(read),
        Err(_) => Err(DecodeError::Incomplete),
    }
}

} // verus!
