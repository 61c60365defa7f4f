//! Byte strings: UTF-8, little-endian integers and content hashes.
use vstd::prelude::*;
use vstd::utf8::{decode_utf8, valid_utf8};

verus! {

/// What `blake3::hash` makes of a byte string.
pub uninterp spec fn blake3_hash(input: Seq<u8>) -> Seq<u8>;

/// The message of the `Utf8Error` that a byte string gives where it is not
/// UTF-8.
pub uninterp spec fn utf8_error_text(bytes: Seq<u8>) -> Seq<char>;

/// `blake3::hash`: thirty-two bytes that depend on the input alone.
/// [`blake3_hash`] names them.
#[verifier::external_body]
pub(crate) fn content_hash(input: &[u8]) -> (r: [u8; 32])
    ensures
        r@ == blake3_hash(input@),
{
    *blake3::hash(input).as_bytes()
}

/// `String::from_utf8`: the text that a byte string encodes, or the message
/// of the error where it is not UTF-8.
#[verifier::external_body]
pub(crate) fn utf8_text(bytes: &[u8]) -> (r: Result<String, String>)
    ensures
        match r {
            Ok(s) => valid_utf8(bytes@) && s@ == decode_utf8(bytes@),
            Err(m) => !valid_utf8(bytes@) && m@ == utf8_error_text(bytes@),
        },
{
    String::from_utf8(bytes.to_vec()).map_err(|error| error.to_string())
}

/// Whether two byte arrays are equal.
pub fn same_bytes<const N: usize>(a: &[u8; N], b: &[u8; N]) -> (r: bool)
    ensures
        r == (a@ == b@),
{
    let mut i: usize = 0;
    while i < N
        invariant
            i <= N,
            a@.len() == N,
            b@.len() == N,
            forall|j: int| 0 <= j < i ==> a@[j] == b@[j],
        decreases N - i,
    {
        if a[i] != b[i] {
            return false;
        }
        i += 1;
    }
    assert(a@ =~= b@);
    true
}

/// The array of the bytes `bytes[from..from + N]`.
pub fn array_at<const N: usize>(bytes: &[u8], from: usize) -> (r: [u8; N])
    requires
        from + N <= bytes@.len(),
    ensures
        r@ == bytes@.subrange(from as int, from + N),
{
    let mut out: [u8; N] = [0; N];
    let total: usize = bytes.len();
    let mut i: usize = 0;
    while i < N
        invariant
            i <= N,
            out@.len() == N,
            bytes@.len() == total,
            from + N <= total,
            forall|j: int| 0 <= j < i ==> out@[j] == bytes@[from + j],
        decreases N - i,
    {
        out[i] = bytes[from + i];
        i += 1;
    }
    assert(out@ =~= bytes@.subrange(from as int, from + N));
    out
}

/// Appends bytes to a buffer.
pub fn push_bytes(out: &mut Vec<u8>, bytes: &[u8])
    ensures
        final(out)@ == old(out)@ + bytes@,
{
    let mut i: usize = 0;
    let ghost start = out@;
    while i < bytes.len()
        invariant
            i <= bytes@.len(),
            out@ == start + bytes@.take(i as int),
        decreases bytes@.len() - i,
    {
        out.push(bytes[i]);
        assert(start + bytes@.take(i + 1) =~= (start + bytes@.take(i as int)).push(
            bytes@[i as int],
        ));
        i += 1;
    }
    assert(bytes@.take(bytes@.len() as int) =~= bytes@);
}

/// Appends the bytes of an array to a buffer.
pub fn push_array<const N: usize>(out: &mut Vec<u8>, bytes: &[u8; N])
    ensures
        final(out)@ == old(out)@ + bytes@,
{
    let mut i: usize = 0;
    let ghost start = out@;
    while i < N
        invariant
            i <= N,
            bytes@.len() == N,
            out@ == start + bytes@.take(i as int),
        decreases N - i,
    {
        out.push(bytes[i]);
        assert(start + bytes@.take(i + 1) =~= (start + bytes@.take(i as int)).push(
            bytes@[i as int],
        ));
        i += 1;
    }
    assert(bytes@.take(bytes@.len() as int) =~= bytes@);
}

} // verus!
