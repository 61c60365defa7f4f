//! One pass over a file's bytes: are they UTF-8, and where is the first NUL?
use vstd::prelude::*;
use vstd::utf8::{partial_valid_partial_invalid_utf8, valid_utf8, valid_utf8_concat};

verus! {

/// What looking at a byte string as UTF-8 shows.
pub enum Utf8Scan {
    /// It is UTF-8.
    Valid,
    /// It ends inside a character; so many bytes before that are UTF-8.
    Incomplete(usize),
    /// A byte in it cannot be part of UTF-8, whatever follows.
    Invalid,
}

/// `memchr::memchr` finds the first occurrence of a byte.
pub assume_specification[ memchr::memchr ](needle: u8, haystack: &[u8]) -> (r: Option<usize>)
    ensures
        match r {
            Some(i) => i < haystack@.len() && haystack@[i as int] == needle && (forall|j: int|
                0 <= j < i ==> haystack@[j] != needle),
            None => forall|j: int| 0 <= j < haystack@.len() ==> haystack@[j] != needle,
        },
;

/// `std::str::from_utf8` and what its error says: without an `error_len` the
/// input ends inside a character, one to three bytes behind `valid_up_to`,
/// before which it is UTF-8; with one it holds an unexpected byte, so that no
/// continuation makes it UTF-8.
#[verifier::external_body]
pub(crate) fn scan_utf8(bytes: &[u8]) -> (r: Utf8Scan)
    ensures
        match r {
            Utf8Scan::Valid => valid_utf8(bytes@),
            Utf8Scan::Incomplete(n) => !valid_utf8(bytes@) && valid_utf8(bytes@.take(n as int)) && 1
                <= bytes@.len() - n <= 3,
            Utf8Scan::Invalid => forall|more: Seq<u8>| !valid_utf8(#[trigger] (bytes@ + more)),
        },
{
    match std::str::from_utf8(bytes) {
        Ok(_) => Utf8Scan::Valid,
        Err(e) => match e.error_len() {
            None => Utf8Scan::Incomplete(e.valid_up_to()),
            Some(_) => Utf8Scan::Invalid,
        },
    }
}

/// Whether `found` is the place of the first NUL byte, or there is none.
pub open spec fn is_first_nul(bytes: Seq<u8>, found: Option<usize>) -> bool {
    match found {
        Some(i) => i < bytes.len() && bytes[i as int] == 0 && (forall|j: int|
            0 <= j < i ==> bytes[j] != 0),
        None => forall|j: int| 0 <= j < bytes.len() ==> bytes[j] != 0,
    }
}

/// The number of bytes that are looked at together: large enough that the few
/// bytes carried over are noise, small enough to stay in cache between the two
/// questions asked of them.
pub const CHUNK: usize = 1048576;

/// Validates bytes as UTF-8 and locates the first NUL byte in one traversal.
///
/// `None` where the bytes are not UTF-8. The bytes are taken in chunks, so that
/// each is still at hand for the second question; a character that straddles
/// two chunks is carried into the later one.
pub fn validate_utf8_and_find_nul(bytes: &[u8]) -> (r: Option<Option<usize>>)
    ensures
        match r {
            Some(found) => valid_utf8(bytes@) && is_first_nul(bytes@, found),
            None => !valid_utf8(bytes@),
        },
{
    let total: usize = bytes.len();
    let mut pos: usize = 0;
    let mut first_nul: Option<usize> = None;
    while pos < total
        invariant
            pos <= total,
            total == bytes@.len(),
            valid_utf8(bytes@.take(pos as int)),
            is_first_nul(bytes@.take(pos as int), first_nul),
        decreases total - pos,
    {
        let end: usize = if total - pos > CHUNK {
            pos + CHUNK
        } else {
            total
        };
        let chunk: &[u8] = &bytes[pos..end];
        let ghost before = bytes@.take(pos as int);
        let ghost rest = bytes@.subrange(pos as int, total as int);
        assert(chunk@ =~= bytes@.subrange(pos as int, end as int));
        assert(rest =~= chunk@ + bytes@.skip(end as int));
        assert(before =~= bytes@.subrange(0, pos as int));
        let valid_len: usize = match scan_utf8(chunk) {
            Utf8Scan::Valid => chunk.len(),
            Utf8Scan::Incomplete(n) => {
                if end == total {
                    proof {
                        assert(rest =~= chunk@);
                        partial_valid_partial_invalid_utf8(bytes@, pos as int);
                    }
                    return None;
                }
                n
            },
            Utf8Scan::Invalid => {
                proof {
                    assert(!valid_utf8(chunk@ + bytes@.skip(end as int)));
                    partial_valid_partial_invalid_utf8(bytes@, pos as int);
                }
                return None;
            },
        };
        let ghost seen = chunk@.take(valid_len as int);
        proof {
            assert(chunk@.take(chunk@.len() as int) =~= chunk@);
            valid_utf8_concat(before, seen);
            assert(bytes@.take(pos + valid_len) =~= before + seen);
        }
        if first_nul.is_none() {
            let part: &[u8] = &chunk[0..valid_len];
            assert(part@ =~= seen);
            if let Some(i) = memchr::memchr(0, part) {
                first_nul = Some(pos + i);
            }
        }
        assert(is_first_nul(before + seen, first_nul));
        pos = pos + valid_len;
    }
    assert(bytes@.take(total as int) =~= bytes@);
    Some(first_nul)
}

} // verus!
