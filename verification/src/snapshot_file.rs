//! The stored form of a snapshot.
//!
//! A file holds a magic number, the time of creation, flags, the root and the
//! label as length-prefixed UTF-8, the number of files, and one record per
//! file: its path, size, whole-second modification time, and the two digests,
//! each behind a byte that says whether it is there. Integers are
//! little-endian.
use crate::bytes::{array_at, push_array, push_bytes, utf8_error_text, utf8_text};
use crate::path_map::PathMap;
use crate::snapshot::{entry_views, option_bytes, Entry, EntryView, Snapshot, SnapshotView};
use crate::text::owned;
use vstd::bytes::{
    lemma_auto_spec_u32_to_from_le_bytes, lemma_auto_spec_u64_to_from_le_bytes,
    spec_u32_from_le_bytes, spec_u32_to_le_bytes, spec_u64_from_le_bytes, spec_u64_to_le_bytes,
    u32_from_le_bytes, u32_to_le_bytes, u64_from_le_bytes, u64_to_le_bytes,
};
use vstd::prelude::*;
use vstd::utf8::{
    decode_utf8, encode_utf8, encode_utf8_decode_utf8, encode_utf8_valid_utf8, valid_utf8,
};

verus! {

/// The first eight bytes of every snapshot file.
pub open spec fn magic() -> Seq<u8> {
    seq![0x54u8, 0x47u8, 0x53u8, 0x4eu8, 0x41u8, 0x50u8, 0x01u8, 0x00u8]
}

/// The flag that says that content hashes were recorded.
pub const FLAG_CONTENT_HASHES: u32 = 1;

/// The flag of a tree that was walked without its ignore rules.
pub const FLAG_NO_IGNORE: u32 = 2;

/// What reading a value off the front of a byte string gives: the value and
/// the bytes behind it, or the message of an error.
pub type Parsed<T> = Result<(T, Seq<u8>), Seq<char>>;

/// The message for a byte string that ends too soon.
pub open spec fn truncated_text() -> Seq<char> {
    "failed to fill whole buffer"@
}

pub open spec fn parse_byte(b: Seq<u8>) -> Parsed<u8> {
    if b.len() < 1 {
        Err(truncated_text())
    } else {
        Ok((b[0], b.skip(1)))
    }
}

#[verifier::opaque]
pub open spec fn parse_u32(b: Seq<u8>) -> Parsed<u32> {
    if b.len() < 4 {
        Err(truncated_text())
    } else {
        Ok((spec_u32_from_le_bytes(b.take(4)), b.skip(4)))
    }
}

#[verifier::opaque]
pub open spec fn parse_u64(b: Seq<u8>) -> Parsed<u64> {
    if b.len() < 8 {
        Err(truncated_text())
    } else {
        Ok((spec_u64_from_le_bytes(b.take(8)), b.skip(8)))
    }
}

/// Exactly `n` bytes.
pub open spec fn parse_exact(b: Seq<u8>, n: int) -> Parsed<Seq<u8>> {
    if b.len() < n {
        Err(truncated_text())
    } else {
        Ok((b.take(n), b.skip(n)))
    }
}

/// A length in four bytes and that many bytes of UTF-8.
#[verifier::opaque]
pub open spec fn parse_text(b: Seq<u8>) -> Parsed<Seq<char>> {
    match parse_u32(b) {
        Err(m) => Err(m),
        Ok((n, rest)) => match parse_exact(rest, n as int) {
            Err(m) => Err(m),
            Ok((body, rest)) => if valid_utf8(body) {
                Ok((decode_utf8(body), rest))
            } else {
                Err(utf8_error_text(body))
            },
        },
    }
}

/// A zero byte, or another byte and `n` bytes.
pub open spec fn parse_optional(b: Seq<u8>, n: int) -> Parsed<Option<Seq<u8>>> {
    match parse_byte(b) {
        Err(m) => Err(m),
        Ok((tag, rest)) => if tag == 0 {
            Ok((None, rest))
        } else {
            match parse_exact(rest, n) {
                Err(m) => Err(m),
                Ok((body, rest)) => Ok((Some(body), rest)),
            }
        },
    }
}

/// One file's record.
pub open spec fn parse_entry(b: Seq<u8>) -> Parsed<(Seq<char>, EntryView)> {
    match parse_text(b) {
        Err(m) => Err(m),
        Ok((path, b)) => match parse_u64(b) {
            Err(m) => Err(m),
            Ok((size, b)) => match parse_u64(b) {
                Err(m) => Err(m),
                Ok((mtime, b)) => match parse_optional(b, 16) {
                    Err(m) => Err(m),
                    Ok((digest, b)) => match parse_optional(b, 32) {
                        Err(m) => Err(m),
                        Ok((hash, b)) => Ok(
                            ((path, EntryView { size, mtime, digest, hash }), b),
                        ),
                    },
                },
            },
        },
    }
}

/// `count` records, added to the files read before them; a path that occurs
/// again replaces its earlier record.
pub open spec fn parse_entries(
    b: Seq<u8>,
    count: nat,
    files: Map<Seq<char>, EntryView>,
) -> Parsed<Map<Seq<char>, EntryView>>
    decreases count,
{
    if count == 0 {
        Ok((files, b))
    } else {
        match parse_entry(b) {
            Err(m) => Err(m),
            Ok(((path, entry), b)) => parse_entries(
                b,
                (count - 1) as nat,
                files.insert(path, entry),
            ),
        }
    }
}

/// The message for a file that does not start with the magic number.
pub open spec fn foreign_text(id: Seq<char>) -> Seq<char> {
    "`"@ + id + "` is not a tgrep snapshot (or was written by another version)"@
}

/// What a snapshot file says. Bytes behind the last record are ignored.
pub open spec fn parse_snapshot(b: Seq<u8>, id: Seq<char>) -> Result<SnapshotView, Seq<char>> {
    match parse_exact(b, 8) {
        Err(m) => Err(m),
        Ok((start, b)) => if start != magic() {
            Err(foreign_text(id))
        } else {
            match parse_u64(b) {
                Err(m) => Err(m),
                Ok((created_at, b)) => match parse_u32(b) {
                    Err(m) => Err(m),
                    Ok((flags, b)) => match parse_text(b) {
                        Err(m) => Err(m),
                        Ok((root, b)) => match parse_text(b) {
                            Err(m) => Err(m),
                            Ok((label, b)) => match parse_u64(b) {
                                Err(m) => Err(m),
                                Ok((count, b)) => match parse_entries(
                                    b,
                                    count as nat,
                                    Map::empty(),
                                ) {
                                    Err(m) => Err(m),
                                    Ok((files, _)) => Ok(
                                        SnapshotView {
                                            id,
                                            label,
                                            created_at,
                                            root,
                                            has_hashes: flags % 2 == 1,
                                            no_ignore: (flags / 2) % 2 == 1,
                                            files,
                                        },
                                    ),
                                },
                            },
                        },
                    },
                },
            }
        },
    }
}

/// A text as it is stored.
#[verifier::opaque]
pub open spec fn text_bytes(text: Seq<char>) -> Seq<u8> {
    spec_u32_to_le_bytes(encode_utf8(text).len() as u32) + encode_utf8(text)
}

/// Bytes that may be absent as they are stored.
pub open spec fn optional_bytes(bytes: Option<Seq<u8>>) -> Seq<u8> {
    match bytes {
        Some(bytes) => seq![1u8] + bytes,
        None => seq![0u8],
    }
}

/// One file's record as it is stored.
pub open spec fn entry_bytes(path: Seq<char>, entry: EntryView) -> Seq<u8> {
    text_bytes(path) + spec_u64_to_le_bytes(entry.size) + spec_u64_to_le_bytes(entry.mtime)
        + optional_bytes(entry.digest) + optional_bytes(entry.hash)
}

/// The records of files in the order of `paths`.
pub open spec fn entries_bytes(paths: Seq<Seq<char>>, files: Map<Seq<char>, EntryView>) -> Seq<u8>
    decreases paths.len(),
{
    if paths.len() == 0 {
        Seq::empty()
    } else {
        entries_bytes(paths.drop_last(), files) + entry_bytes(paths.last(), files[paths.last()])
    }
}

/// The flags of a snapshot.
pub open spec fn flags_of(s: SnapshotView) -> u32 {
    match (s.has_hashes, s.no_ignore) {
        (false, false) => 0,
        (true, false) => FLAG_CONTENT_HASHES,
        (false, true) => FLAG_NO_IGNORE,
        (true, true) => 3,
    }
}

/// What stands before the records: all but the files.
pub open spec fn header_bytes(s: SnapshotView, count: u64) -> Seq<u8> {
    magic() + (spec_u64_to_le_bytes(s.created_at) + (spec_u32_to_le_bytes(
        flags_of(s),
    ) + (text_bytes(s.root) + (text_bytes(s.label) + spec_u64_to_le_bytes(count)))))
}

/// A snapshot as it is stored, its files in the order of `paths`.
pub open spec fn snapshot_bytes(s: SnapshotView, paths: Seq<Seq<char>>) -> Seq<u8> {
    header_bytes(s, paths.len() as u64) + entries_bytes(paths, s.files)
}

/// Whether a text's length fits the four bytes it is stored in.
pub open spec fn storable(text: Seq<char>) -> bool {
    encode_utf8(text).len() <= u32::MAX
}

/// Whether every text of a snapshot can be stored.
pub open spec fn all_storable(s: SnapshotView) -> bool {
    &&& storable(s.root)
    &&& storable(s.label)
    &&& forall|path: Seq<char>| #[trigger] s.files.contains_key(path) ==> storable(path)
}

fn push_text(out: &mut Vec<u8>, text: &str) -> (fits: bool)
    ensures
        fits == storable(text@),
        fits ==> final(out)@ == old(out)@ + text_bytes(text@),
{
    proof {
        reveal(text_bytes);
    }
    let bytes: &[u8] = text.as_bytes();
    if bytes.len() > u32::MAX as usize {
        return false;
    }
    let length = u32_to_le_bytes(bytes.len() as u32);
    let ghost start = out@;
    push_bytes(out, length.as_slice());
    push_bytes(out, bytes);
    assert(out@ =~= start + text_bytes(text@));
    true
}

fn push_optional<const N: usize>(out: &mut Vec<u8>, bytes: &Option<[u8; N]>)
    ensures
        final(out)@ == old(out)@ + optional_bytes(option_bytes(*bytes)),
{
    let ghost start = out@;
    match bytes {
        Some(b) => {
            out.push(1);
            push_array(out, b);
        },
        None => {
            out.push(0);
        },
    }
    assert(out@ =~= start + optional_bytes(option_bytes(*bytes)));
}

fn push_header(out: &mut Vec<u8>, snapshot: &Snapshot, count: u64) -> (fits: bool)
    requires
        old(out)@.len() == 0,
    ensures
        fits == (storable(snapshot.root@) && storable(snapshot.label@)),
        fits ==> final(out)@ == header_bytes(snapshot@, count),
{
    push_array(out, &[0x54u8, 0x47u8, 0x53u8, 0x4eu8, 0x41u8, 0x50u8, 0x01u8, 0x00u8]);
    assert(out@ =~= magic());
    let created = u64_to_le_bytes(snapshot.created_at);
    push_bytes(out, created.as_slice());
    let flags: u32 = match (snapshot.has_hashes, snapshot.no_ignore) {
        (false, false) => 0,
        (true, false) => FLAG_CONTENT_HASHES,
        (false, true) => FLAG_NO_IGNORE,
        (true, true) => FLAG_CONTENT_HASHES + FLAG_NO_IGNORE,
    };
    let flag_bytes = u32_to_le_bytes(flags);
    push_bytes(out, flag_bytes.as_slice());
    if !push_text(out, snapshot.root.as_str()) {
        return false;
    }
    if !push_text(out, snapshot.label.as_str()) {
        return false;
    }
    let count_bytes = u64_to_le_bytes(count);
    push_bytes(out, count_bytes.as_slice());
    proof {
        let a = magic();
        let b = spec_u64_to_le_bytes(snapshot.created_at);
        let c = spec_u32_to_le_bytes(flags);
        let d = text_bytes(snapshot.root@);
        let e = text_bytes(snapshot.label@);
        let f = spec_u64_to_le_bytes(count);
        lemma_associative(a + b + c + d, e, f);
        lemma_associative(a + b + c, d, e + f);
        lemma_associative(a + b, c, d + (e + f));
        lemma_associative(a, b, c + (d + (e + f)));
    }
    true
}

proof fn lemma_associative(a: Seq<u8>, b: Seq<u8>, c: Seq<u8>)
    ensures
        (a + b) + c == a + (b + c),
{
    assert((a + b) + c =~= a + (b + c));
}

fn push_entry(out: &mut Vec<u8>, path: &str, entry: &Entry) -> (fits: bool)
    ensures
        fits == storable(path@),
        fits ==> final(out)@ == old(out)@ + entry_bytes(path@, entry@),
{
    let ghost start = out@;
    if !push_text(out, path) {
        return false;
    }
    let size = u64_to_le_bytes(entry.size);
    push_bytes(out, size.as_slice());
    let mtime = u64_to_le_bytes(entry.mtime);
    push_bytes(out, mtime.as_slice());
    push_optional(out, &entry.digest);
    push_optional(out, &entry.hash);
    proof {
        let a = text_bytes(path@);
        let b = spec_u64_to_le_bytes(entry.size);
        let c = spec_u64_to_le_bytes(entry.mtime);
        let d = optional_bytes(entry@.digest);
        let e = optional_bytes(entry@.hash);
        lemma_associative(start, a, b);
        lemma_associative(start, a + b, c);
        lemma_associative(start, a + b + c, d);
        lemma_associative(start, a + b + c + d, e);
    }
    true
}

/// The bytes that store a snapshot; an error where one of its texts is too
/// long for the length in front of it.
pub fn write_snapshot(snapshot: &Snapshot) -> (r: Result<Vec<u8>, String>)
    requires
        snapshot.wf(),
    ensures
        match r {
            Ok(bytes) => all_storable(snapshot@) && bytes@ == snapshot_bytes(
                snapshot@,
                snapshot.files.keys(),
            ),
            Err(m) => !all_storable(snapshot@) && m@ == "string too long"@,
        },
{
    let mut out: Vec<u8> = Vec::new();
    let total: usize = snapshot.files.len();
    let ghost keys = snapshot.files.keys();
    let ghost start = header_bytes(snapshot@, keys.len() as u64);
    let ghost files = snapshot@.files;
    proof {
        snapshot.files.lemma_keys();
    }
    if !push_header(&mut out, snapshot, total as u64) {
        return Err("string too long".to_string());
    }
    let mut i: usize = 0;
    assert(keys.take(0) =~= Seq::empty());
    assert(start + entries_bytes(keys.take(0), files) =~= start);
    while i < total
        invariant
            i <= total,
            total == keys.len(),
            keys == snapshot.files.keys(),
            files == snapshot@.files,
            snapshot.wf(),
            forall|j: int|
                0 <= j < keys.len() ==> snapshot.files@.contains_key(#[trigger] keys[j]),
            out@ == start + entries_bytes(keys.take(i as int), files),
            forall|j: int| 0 <= j < i ==> storable(#[trigger] keys[j]),
        decreases total - i,
    {
        let path = snapshot.files.key_at(i);
        let entry = snapshot.files.value_at(i);
        assert(files.contains_key(keys[i as int]));
        assert(files[keys[i as int]] == entry@);
        if !push_entry(&mut out, path, entry) {
            assert(!storable(keys[i as int]));
            return Err("string too long".to_string());
        }
        proof {
            assert(keys.take(i + 1).drop_last() =~= keys.take(i as int));
            lemma_associative(
                start,
                entries_bytes(keys.take(i as int), files),
                entry_bytes(keys[i as int], entry@),
            );
        }
        i += 1;
    }
    proof {
        assert(keys.take(total as int) =~= keys);
        assert forall|path: Seq<char>| #[trigger] snapshot@.files.contains_key(path) implies storable(
            path,
        ) by {
            assert(snapshot.files@.contains_key(path));
            let j = choose|j: int| 0 <= j < keys.len() && keys[j] == path;
            assert(storable(keys[j]));
        }
    }
    Ok(out)
}

/// A place in a byte string that is being read.
struct Cursor<'a> {
    bytes: &'a [u8],
    at: usize,
}

impl<'a> Cursor<'a> {
    /// What is left to read.
    spec fn rest(self) -> Seq<u8> {
        self.bytes@.skip(self.at as int)
    }

    spec fn wf(self) -> bool {
        self.at <= self.bytes@.len()
    }

    /// Reads `n` bytes; the slice holds them.
    fn exact(&mut self, n: usize) -> (r: Result<&'a [u8], String>)
        requires
            old(self).wf(),
        ensures
            final(self).wf(),
            match (r, parse_exact(old(self).rest(), n as int)) {
                (Ok(v), Ok((w, rest))) => v@ == w && final(self).rest() == rest,
                (Err(e), Err(m)) => e@ == m,
                _ => false,
            },
    {
        if self.bytes.len() - self.at < n {
            return Err("failed to fill whole buffer".to_string());
        }
        let from: usize = self.at;
        let part = &self.bytes[from..from + n];
        self.at = from + n;
        assert(part@ =~= old(self).rest().take(n as int));
        assert(self.rest() =~= old(self).rest().skip(n as int));
        Ok(part)
    }

    fn byte(&mut self) -> (r: Result<u8, String>)
        requires
            old(self).wf(),
        ensures
            final(self).wf(),
            match (r, parse_byte(old(self).rest())) {
                (Ok(v), Ok((w, rest))) => v == w && final(self).rest() == rest,
                (Err(e), Err(m)) => e@ == m,
                _ => false,
            },
    {
        match self.exact(1) {
            Ok(part) => {
                assert(part@[0] == old(self).rest()[0]);
                Ok(part[0])
            },
            Err(m) => Err(m),
        }
    }

    fn read_u32(&mut self) -> (r: Result<u32, String>)
        requires
            old(self).wf(),
        ensures
            final(self).wf(),
            match (r, parse_u32(old(self).rest())) {
                (Ok(v), Ok((w, rest))) => v == w && final(self).rest() == rest,
                (Err(e), Err(m)) => e@ == m,
                _ => false,
            },
    {
        proof {
            reveal(parse_u32);
        }
        match self.exact(4) {
            Ok(part) => Ok(u32_from_le_bytes(part)),
            Err(m) => Err(m),
        }
    }

    fn read_u64(&mut self) -> (r: Result<u64, String>)
        requires
            old(self).wf(),
        ensures
            final(self).wf(),
            match (r, parse_u64(old(self).rest())) {
                (Ok(v), Ok((w, rest))) => v == w && final(self).rest() == rest,
                (Err(e), Err(m)) => e@ == m,
                _ => false,
            },
    {
        proof {
            reveal(parse_u64);
        }
        match self.exact(8) {
            Ok(part) => Ok(u64_from_le_bytes(part)),
            Err(m) => Err(m),
        }
    }

    fn text(&mut self) -> (r: Result<String, String>)
        requires
            old(self).wf(),
        ensures
            final(self).wf(),
            match (r, parse_text(old(self).rest())) {
                (Ok(v), Ok((w, rest))) => v@ == w && final(self).rest() == rest,
                (Err(e), Err(m)) => e@ == m,
                _ => false,
            },
    {
        proof {
            reveal(parse_text);
        }
        let n: u32 = match self.read_u32() {
            Ok(n) => n,
            Err(m) => return Err(m),
        };
        match self.exact(n as usize) {
            Ok(part) => utf8_text(part),
            Err(m) => Err(m),
        }
    }

    fn optional<const N: usize>(&mut self) -> (r: Result<Option<[u8; N]>, String>)
        requires
            old(self).wf(),
        ensures
            final(self).wf(),
            match (r, parse_optional(old(self).rest(), N as int)) {
                (Ok(v), Ok((w, rest))) => option_bytes(v) == w && final(self).rest() == rest,
                (Err(e), Err(m)) => e@ == m,
                _ => false,
            },
    {
        let tag: u8 = match self.byte() {
            Ok(tag) => tag,
            Err(m) => return Err(m),
        };
        if tag == 0 {
            return Ok(None);
        }
        match self.exact(N) {
            Ok(part) => {
                let array: [u8; N] = array_at(part, 0);
                assert(array@ =~= part@);
                Ok(Some(array))
            },
            Err(m) => Err(m),
        }
    }

    fn entry(&mut self) -> (r: Result<(String, Entry), String>)
        requires
            old(self).wf(),
        ensures
            final(self).wf(),
            match (r, parse_entry(old(self).rest())) {
                (Ok(v), Ok((w, rest))) => v.0@ == w.0 && v.1@ == w.1 && final(self).rest() == rest,
                (Err(e), Err(m)) => e@ == m,
                _ => false,
            },
    {
        let path = match self.text() {
            Ok(path) => path,
            Err(m) => return Err(m),
        };
        let size: u64 = match self.read_u64() {
            Ok(size) => size,
            Err(m) => return Err(m),
        };
        let mtime: u64 = match self.read_u64() {
            Ok(mtime) => mtime,
            Err(m) => return Err(m),
        };
        let digest: Option<[u8; 16]> = match self.optional() {
            Ok(digest) => digest,
            Err(m) => return Err(m),
        };
        let hash: Option<[u8; 32]> = match self.optional() {
            Ok(hash) => hash,
            Err(m) => return Err(m),
        };
        Ok((path, Entry { size, mtime, digest, hash }))
    }
}

/// The outcome of reading a snapshot, by what it records.
pub open spec fn snapshot_result(r: Result<Snapshot, String>) -> Result<SnapshotView, Seq<char>> {
    match r {
        Ok(s) => Ok(s@),
        Err(m) => Err(m@),
    }
}

/// Reads a stored snapshot.
#[verifier::loop_isolation(false)]
pub fn read_snapshot(bytes: &[u8], id: &str) -> (r: Result<Snapshot, String>)
    ensures
        snapshot_result(r) == parse_snapshot(bytes@, id@),
        r matches Ok(s) ==> s.wf(),
{
    let mut input = Cursor { bytes, at: 0 };
    assert(input.rest() =~= bytes@);
    let start: [u8; 8] = match input.exact(8) {
        Ok(part) => array_at(part, 0),
        Err(m) => return Err(m),
    };
    let expected: [u8; 8] = [0x54u8, 0x47u8, 0x53u8, 0x4eu8, 0x41u8, 0x50u8, 0x01u8, 0x00u8];
    assert(expected@ =~= magic());
    assert(start@ =~= bytes@.take(8));
    if !crate::bytes::same_bytes(&start, &expected) {
        let mut message = owned("`");
        message.append(id);
        message.append("` is not a tgrep snapshot (or was written by another version)");
        return Err(message);
    }
    let created_at: u64 = match input.read_u64() {
        Ok(v) => v,
        Err(m) => return Err(m),
    };
    let flags: u32 = match input.read_u32() {
        Ok(v) => v,
        Err(m) => return Err(m),
    };
    let root = match input.text() {
        Ok(v) => v,
        Err(m) => return Err(m),
    };
    let label = match input.text() {
        Ok(v) => v,
        Err(m) => return Err(m),
    };
    let count: u64 = match input.read_u64() {
        Ok(v) => v,
        Err(m) => return Err(m),
    };
    let mut files: PathMap<Entry> = PathMap::new();
    let ghost all = parse_entries(input.rest(), count as nat, Map::empty());
    assert(entry_views(files@) =~= Map::empty());
    let mut i: u64 = 0;
    while i < count
        invariant
            i <= count,
            files.wf(),
            input.wf(),
            all == parse_entries(input.rest(), (count - i) as nat, entry_views(files@)),
        decreases count - i,
    {
        let ghost before = files@;
        match input.entry() {
            Ok((path, entry)) => {
                files.insert(path, entry);
                assert(entry_views(files@) =~= entry_views(before).insert(path@, entry@));
            },
            Err(m) => return Err(m),
        }
        i += 1;
    }
    proof {
        assert((flags & 1 != 0) == (flags % 2 == 1)) by (bit_vector);
        assert((flags & 2 != 0) == ((flags / 2) % 2 == 1)) by (bit_vector);
    }
    Ok(
        Snapshot {
            id: owned(id),
            label,
            created_at,
            root,
            has_hashes: flags & FLAG_CONTENT_HASHES != 0,
            no_ignore: flags & FLAG_NO_IGNORE != 0,
            files,
        },
    )
}

proof fn lemma_text_round_trip(text: Seq<char>, rest: Seq<u8>)
    requires
        storable(text),
    ensures
        parse_text(text_bytes(text) + rest) == Parsed::<Seq<char>>::Ok((text, rest)),
{
    reveal(parse_u32);
    reveal(parse_text);
    reveal(text_bytes);
    lemma_auto_spec_u32_to_from_le_bytes();
    let body = encode_utf8(text);
    let n = spec_u32_to_le_bytes(body.len() as u32);
    let all = text_bytes(text) + rest;
    assert(n.len() == 4);
    assert(all.take(4) =~= n);
    assert(all.skip(4) =~= body + rest);
    assert((body + rest).take(body.len() as int) =~= body);
    assert((body + rest).skip(body.len() as int) =~= rest);
    encode_utf8_valid_utf8(text);
    encode_utf8_decode_utf8(text);
}

proof fn lemma_u64_round_trip(v: u64, rest: Seq<u8>)
    ensures
        parse_u64(spec_u64_to_le_bytes(v) + rest) == Parsed::<u64>::Ok((v, rest)),
{
    reveal(parse_u64);
    lemma_auto_spec_u64_to_from_le_bytes();
    let n = spec_u64_to_le_bytes(v);
    assert(n.len() == 8);
    assert((n + rest).take(8) =~= n);
    assert((n + rest).skip(8) =~= rest);
}

proof fn lemma_u32_round_trip(v: u32, rest: Seq<u8>)
    ensures
        parse_u32(spec_u32_to_le_bytes(v) + rest) == Parsed::<u32>::Ok((v, rest)),
{
    reveal(parse_u32);
    lemma_auto_spec_u32_to_from_le_bytes();
    let n = spec_u32_to_le_bytes(v);
    assert(n.len() == 4);
    assert((n + rest).take(4) =~= n);
    assert((n + rest).skip(4) =~= rest);
}

proof fn lemma_optional_round_trip(bytes: Option<Seq<u8>>, n: int, rest: Seq<u8>)
    requires
        bytes matches Some(b) ==> b.len() == n,
    ensures
        parse_optional(optional_bytes(bytes) + rest, n) == Parsed::<Option<Seq<u8>>>::Ok(
            (bytes, rest),
        ),
{
    let all = optional_bytes(bytes) + rest;
    match bytes {
        Some(b) => {
            assert(all[0] == 1);
            assert(all.skip(1) =~= b + rest);
            assert((b + rest).take(n) =~= b);
            assert((b + rest).skip(n) =~= rest);
        },
        None => {
            assert(all[0] == 0);
            assert(all.skip(1) =~= rest);
        },
    }
}

/// Whether an entry's digests have the lengths they are stored with.
pub open spec fn digests_fit(entry: EntryView) -> bool {
    &&& entry.digest matches Some(d) ==> d.len() == 16
    &&& entry.hash matches Some(h) ==> h.len() == 32
}

proof fn lemma_entry_round_trip(path: Seq<char>, entry: EntryView, rest: Seq<u8>)
    requires
        storable(path),
        digests_fit(entry),
    ensures
        parse_entry(entry_bytes(path, entry) + rest) == Parsed::<(Seq<char>, EntryView)>::Ok(
            ((path, entry), rest),
        ),
{
    let r4 = optional_bytes(entry.hash) + rest;
    let r3 = optional_bytes(entry.digest) + r4;
    let r2 = spec_u64_to_le_bytes(entry.mtime) + r3;
    let r1 = spec_u64_to_le_bytes(entry.size) + r2;
    assert(entry_bytes(path, entry) + rest =~= text_bytes(path) + r1);
    lemma_text_round_trip(path, r1);
    lemma_u64_round_trip(entry.size, r2);
    lemma_u64_round_trip(entry.mtime, r3);
    lemma_optional_round_trip(entry.digest, 16, r4);
    lemma_optional_round_trip(entry.hash, 32, rest);
}

/// The files of `all` whose paths are among the first `n` of `paths`.
spec fn first_files(
    paths: Seq<Seq<char>>,
    all: Map<Seq<char>, EntryView>,
    n: int,
) -> Map<Seq<char>, EntryView> {
    all.restrict(paths.take(n).to_set())
}

proof fn lemma_entries_front(paths: Seq<Seq<char>>, files: Map<Seq<char>, EntryView>)
    requires
        paths.len() > 0,
    ensures
        entries_bytes(paths, files) == entry_bytes(paths[0], files[paths[0]]) + entries_bytes(
            paths.skip(1),
            files,
        ),
    decreases paths.len(),
{
    if paths.len() == 1 {
        assert(paths.drop_last() =~= Seq::empty());
        assert(paths.skip(1) =~= Seq::empty());
        assert(entries_bytes(paths, files) =~= entry_bytes(paths[0], files[paths[0]])
            + entries_bytes(paths.skip(1), files));
    } else {
        lemma_entries_front(paths.drop_last(), files);
        assert(paths.drop_last().skip(1) =~= paths.skip(1).drop_last());
        assert(paths.skip(1).last() == paths.last());
        assert(entries_bytes(paths, files) =~= entry_bytes(paths[0], files[paths[0]])
            + entries_bytes(paths.skip(1), files));
    }
}

proof fn lemma_entries_round_trip(
    paths: Seq<Seq<char>>,
    files: Map<Seq<char>, EntryView>,
    n: int,
    rest: Seq<u8>,
)
    requires
        0 <= n <= paths.len(),
        forall|i: int| 0 <= i < paths.len() ==> files.contains_key(#[trigger] paths[i]),
        forall|i: int| 0 <= i < paths.len() ==> storable(#[trigger] paths[i]),
        forall|i: int| 0 <= i < paths.len() ==> digests_fit(files[#[trigger] paths[i]]),
    ensures
        parse_entries(
            entries_bytes(paths.skip(n), files) + rest,
            (paths.len() - n) as nat,
            first_files(paths, files, n),
        ) == Parsed::<Map<Seq<char>, EntryView>>::Ok(
            (first_files(paths, files, paths.len() as int), rest),
        ),
    decreases paths.len() - n,
{
    if n == paths.len() {
        assert(entries_bytes(paths.skip(n), files) + rest =~= rest);
    } else {
        let tail = paths.skip(n);
        let path = paths[n];
        lemma_entries_front(tail, files);
        assert(tail.skip(1) =~= paths.skip(n + 1));
        let after = entries_bytes(paths.skip(n + 1), files) + rest;
        assert(entries_bytes(tail, files) + rest =~= entry_bytes(path, files[path]) + after);
        lemma_entry_round_trip(path, files[path], after);
        assert(first_files(paths, files, n + 1) =~= first_files(paths, files, n).insert(
            path,
            files[path],
        )) by {
            assert(paths.take(n + 1) =~= paths.take(n).push(path));
            let small = paths.take(n);
            let large = paths.take(n + 1);
            assert forall|k: Seq<char>| #[trigger]
                large.to_set().contains(k) == (small.to_set().contains(k) || k == path) by {
                if small.contains(k) {
                    let i = choose|i: int| 0 <= i < n && small[i] == k;
                    assert(large[i] == k);
                }
                if large.contains(k) {
                    let i = choose|i: int| 0 <= i < n + 1 && large[i] == k;
                    if i < n {
                        assert(small[i] == k);
                    }
                }
                assert(large[n] == path);
            }
        }
        lemma_entries_round_trip(paths, files, n + 1, rest);
    }
}

proof fn lemma_header_split(s: SnapshotView, paths: Seq<Seq<char>>, behind: Seq<u8>)
    ensures
        ({
            let flags: u32 = flags_of(s);
            let f = spec_u64_to_le_bytes(paths.len() as u64);
            let e = text_bytes(s.label);
            let d = text_bytes(s.root);
            let c = spec_u32_to_le_bytes(flags);
            let b = spec_u64_to_le_bytes(s.created_at);
            let g = entries_bytes(paths, s.files);
            let r1 = b + (c + (d + (e + (f + (g + behind)))));
            parse_exact(snapshot_bytes(s, paths) + behind, 8) == Parsed::<Seq<u8>>::Ok(
                (magic(), r1),
            )
        }),
{
    let flags: u32 = flags_of(s);
    let f = spec_u64_to_le_bytes(paths.len() as u64);
    let e = text_bytes(s.label);
    let d = text_bytes(s.root);
    let c = spec_u32_to_le_bytes(flags);
    let b = spec_u64_to_le_bytes(s.created_at);
    let g = entries_bytes(paths, s.files);
    let r6 = g + behind;
    let r1 = b + (c + (d + (e + (f + r6))));
    lemma_associative(header_bytes(s, paths.len() as u64), g, behind);
    lemma_associative(magic(), b + (c + (d + (e + f))), r6);
    lemma_associative(b, c + (d + (e + f)), r6);
    lemma_associative(c, d + (e + f), r6);
    lemma_associative(d, e + f, r6);
    lemma_associative(e, f, r6);
    assert((magic() + r1).take(8) =~= magic());
    assert((magic() + r1).skip(8) =~= r1);
}

proof fn lemma_all_entries(files: Map<Seq<char>, EntryView>, paths: Seq<Seq<char>>, behind: Seq<u8>)
    requires
        forall|path: Seq<char>| #[trigger] files.contains_key(path) ==> storable(path),
        forall|path: Seq<char>| #[trigger] files.contains_key(path) <==> paths.contains(path),
        forall|path: Seq<char>| #[trigger] files.contains_key(path) ==> digests_fit(files[path]),
    ensures
        parse_entries(entries_bytes(paths, files) + behind, paths.len(), Map::empty())
            == Parsed::<Map<Seq<char>, EntryView>>::Ok((files, behind)),
{
    assert forall|i: int| 0 <= i < paths.len() implies files.contains_key(#[trigger] paths[i])
        && storable(paths[i]) && digests_fit(files[paths[i]]) by {
        assert(paths.contains(paths[i]));
        assert(files.contains_key(paths[i]));
    }
    lemma_entries_round_trip(paths, files, 0, behind);
    assert(paths.skip(0) =~= paths);
    assert(first_files(paths, files, 0) =~= Map::empty());
    assert(paths.take(paths.len() as int) =~= paths);
    assert forall|path: Seq<char>| #[trigger] paths.to_set().contains(path) == files.contains_key(
        path,
    ) by {
        assert(files.contains_key(path) <==> paths.contains(path));
    }
    assert(first_files(paths, files, paths.len() as int) =~= files);
}

proof fn lemma_snapshot_round_trip(
    s: SnapshotView,
    paths: Seq<Seq<char>>,
    behind: Seq<u8>,
)
    requires
        all_storable(s),
        paths.len() <= u64::MAX,
        forall|path: Seq<char>| #[trigger] s.files.contains_key(path) <==> paths.contains(path),
        forall|path: Seq<char>| #[trigger] s.files.contains_key(path) ==> digests_fit(s.files[path]),
    ensures
        parse_snapshot(snapshot_bytes(s, paths) + behind, s.id) == Result::<
            SnapshotView,
            Seq<char>,
        >::Ok(s),
{
    let flags: u32 = flags_of(s);
    let f = spec_u64_to_le_bytes(paths.len() as u64);
    let e = text_bytes(s.label);
    let d = text_bytes(s.root);
    let c = spec_u32_to_le_bytes(flags);
    let r6 = entries_bytes(paths, s.files) + behind;
    let r5 = f + r6;
    let r4 = e + r5;
    let r3 = d + r4;
    let r2 = c + r3;
    lemma_header_split(s, paths, behind);
    lemma_u64_round_trip(s.created_at, r2);
    lemma_u32_round_trip(flags, r3);
    lemma_text_round_trip(s.root, r4);
    lemma_text_round_trip(s.label, r5);
    lemma_u64_round_trip(paths.len() as u64, r6);
    lemma_all_entries(s.files, paths, behind);
}

/// Reading what was written gives the snapshot back, under the name it is read
/// by: for every snapshot whose texts can be stored, whatever follows the
/// stored bytes.
pub proof fn law_read_gives_back_what_was_written(s: Snapshot, behind: Seq<u8>)
    requires
        s.wf(),
        all_storable(s@),
        s.files.keys().len() <= u64::MAX,
    ensures
        parse_snapshot(snapshot_bytes(s@, s.files.keys()) + behind, s.id@) == Result::<
            SnapshotView,
            Seq<char>,
        >::Ok(s@),
{
    s.files.lemma_keys();
    let paths = s.files.keys();
    let files = s@.files;
    assert forall|path: Seq<char>| #[trigger] files.contains_key(path) implies digests_fit(
        files[path],
    ) by {
        let entry = s.files@[path];
        assert(files[path] == entry@);
        if let Some(d) = entry.digest {
            assert(d@.len() == 16);
        }
        if let Some(h) = entry.hash {
            assert(h@.len() == 32);
        }
    }
    assert forall|path: Seq<char>| #[trigger] files.contains_key(path) <==> paths.contains(
        path,
    ) by {
        assert(files.contains_key(path) == s.files@.contains_key(path));
    }
    lemma_snapshot_round_trip(s@, paths, behind);
}

} // verus!
