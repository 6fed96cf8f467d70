//! Reading fixed-size pieces off the front of a byte slice.
//!
//! The reads themselves are done by `nom`; what is stated of them here is
//! taken on trust.

use vstd::prelude::*;
use crate::error::DecodeError;

verus! {

/// Whether a decoding step's result `r` on the input `i` is the `expected`
/// one: on success the expected value, together with the input that is left
/// after the expected number of bytes; on failure the expected failure.
pub open spec fn decoded<T: View>(
    r: Result<(&[u8], T), DecodeError>,
    i: Seq<u8>,
    expected: Result<(T::V, int), DecodeError>,
) -> bool {
    match r {
        Ok((rest, value)) => {
            &&& expected matches Ok((v, n))
            &&& value@ == v
            &&& 0 <= n <= i.len()
            &&& rest@ == i.skip(n)
        },
        Err(e) => expected == Err::<(T::V, int), _>(e),
    }
}

/// `nom::Err`, the failure of a `nom` parser. Nothing is known of a value of
/// it but that the parser failed.
#[verifier::external_type_specification]
#[verifier::external_body]
#[verifier::reject_recursive_types(E)]
pub struct ExNomErr<E>(nom::Err<E>);

/// `nom::error::Error`, what `nom::Err` carries by default: the input at the
/// failure and a code. Nothing is read from it here.
#[verifier::external_type_specification]
#[verifier::external_body]
#[verifier::reject_recursive_types(I)]
pub struct ExNomError<I>(nom::error::Error<I>);

/// `nom::number::complete::be_u8`: on a non-empty input, its first byte and
/// the input after it; on an empty input, an error.
#[verifier::external_body]
pub(crate) fn be_u8<'a>(i: &'a [u8]) -> (r: Result<
    (&'a [u8], u8),
    nom::Err<nom::error::Error<&'a [u8]>>,
>)
    ensures
        r is Ok <==> i@.len() >= 1,
        r matches Ok((rest, value)) ==> rest@ == i@.skip(1) && value == i@[0],
{
    nom::number::complete::be_u8(i)
}

/// `nom::number::complete::be_u16`: on an input of two bytes or more, the
/// number that its first two bytes spell, the first being the high one, and
/// the input after them; on a shorter input, an error.
#[verifier::external_body]
pub(crate) fn be_u16<'a>(i: &'a [u8]) -> (r: Result<
    (&'a [u8], u16),
    nom::Err<nom::error::Error<&'a [u8]>>,
>)
    ensures
        r is Ok <==> i@.len() >= 2,
        r matches Ok((rest, value)) ==> rest@ == i@.skip(2) && value == i@[0] * 256 + i@[1],
{
    nom::number::complete::be_u16(i)
}

/// `nom::bytes::complete::take`: on an input of `count` bytes or more, its
/// first `count` bytes and the input after them; on a shorter input, an
/// error.
#[verifier::external_body]
pub(crate) fn take<'a>(i: &'a [u8], count: usize) -> (r: Result<
    (&'a [u8], &'a [u8]),
    nom::Err<nom::error::Error<&'a [u8]>>,
>)
    ensures
        r is Ok <==> i@.len() >= count,
        r matches Ok((rest, taken)) ==> rest@ == i@.skip(count as int) && taken@ == i@.take(
            count as int,
        ),
{
    nom::bytes::complete::take(count)(i)
}

/// Reads one byte off the front of `i`. Fails, with `UnexpectedEndOfInput`,
/// exactly when `i` is empty.
pub fn read_u8<'a>(i: &'a [u8]) -> (r: Result<(&'a [u8], u8), DecodeError>)
    ensures
        (match r {
            Ok((rest, value)) => i@.len() >= 1 && rest@ == i@.skip(1) && value == i@[0],
            Err(e) => i@.len() < 1 && e == DecodeError::UnexpectedEndOfInput,
        }),
{
    match be_u8(i) {
        Ok(read) => Ok(read),
        Err(_) => Err(DecodeError::UnexpectedEndOfInput),
    }
}

/// Reads a big-endian 16-bit number off the front of `i`. Fails, with
/// `UnexpectedEndOfInput`, exactly when `i` is shorter than two bytes.
pub fn read_u16<'a>(i: &'a [u8]) -> (r: Result<(&'a [u8], u16), DecodeError>)
    ensures
        (match r {
            Ok((rest, value)) => i@.len() >= 2 && rest@ == i@.skip(2) && value == i@[0] * 256
                + i@[1],
            Err(e) => i@.len() < 2 && e == DecodeError::UnexpectedEndOfInput,
        }),
{
    match be_u16(i) {
        Ok(read) => Ok(read),
        Err(_) => Err(DecodeError::UnexpectedEndOfInput),
    }
}

/// Reads `count` bytes off the front of `i`. Fails, with
/// `UnexpectedEndOfInput`, exactly when `i` is shorter than that.
pub fn read_bytes<'a>(i: &'a [u8], count: usize) -> (r: Result<(&'a [u8], &'a [u8]), DecodeError>)
    ensures
        (match r {
            Ok((rest, taken)) => i@.len() >= count && rest@ == i@.skip(count as int) && taken@
                == i@.take(count as int),
            Err(e) => i@.len() < count && e == DecodeError::UnexpectedEndOfInput,
        }),
{
    match take(i, count) {
        Ok(read) => Ok(read),
        Err(_) => Err(DecodeError::UnexpectedEndOfInput),
    }
}

/// The `N` bytes of `bytes` as an array.
pub fn to_array<const N: usize>(bytes: &[u8]) -> (r: [u8; N])
    requires
        bytes@.len() == N,
    ensures
        r@ == bytes@,
{
    let mut r = [0u8;N];
    let mut k: usize = 0;
    while k < N
        invariant
            k <= N,
            bytes@.len() == N,
            forall|j: int| 0 <= j < k ==> r@[j] == bytes@[j],
        decreases N - k,
    {
        r[k] = bytes[k];
        k += 1;
    }
    assert(r@ =~= bytes@);
    r
}

} // verus!
