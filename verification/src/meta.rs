//! What an index records of itself and of the files it was built from.
use crate::bytes::{array_at, blake3_hash, content_hash, push_bytes};
use vstd::bytes::{spec_u32_to_le_bytes, spec_u64_to_le_bytes, u32_to_le_bytes, u64_to_le_bytes};
use vstd::prelude::*;
use vstd::utf8::encode_utf8;

verus! {

/// Identity of a path table.
pub type FileTableId = [u8; 32];

/// The identity of a path table: the hash of its bytes.
pub fn file_table_id(data: &[u8]) -> (r: FileTableId)
    ensures
        r@ == blake3_hash(data@),
{
    content_hash(data)
}

/// Per-file stamp for change detection.
#[derive(Clone, Copy, Debug, PartialEq, Eq, Structural)]
pub struct FileStamp {
    pub mtime: u64,
    pub size: u64,
}

/// A point in time: whole seconds from the epoch, rounded down, and the
/// nanoseconds after them.
#[derive(Clone, Copy, Debug, PartialEq, Eq, Structural)]
pub struct FileTime {
    pub seconds: i64,
    pub nanos: u32,
}

impl FileTime {
    /// The nanoseconds make less than a second.
    pub open spec fn wf(self) -> bool {
        self.nanos < 1_000_000_000
    }

    /// Nanoseconds from the epoch.
    pub open spec fn total(self) -> int {
        self.seconds * 1_000_000_000 + self.nanos
    }
}

/// A point in time as its distance from the epoch and the side it lies on.
#[derive(Clone, Copy, Debug, PartialEq, Eq, Structural)]
pub struct VersionTime {
    pub before_epoch: bool,
    pub seconds: u64,
    pub nanos: u32,
}

impl VersionTime {
    /// Nanoseconds from the epoch.
    pub open spec fn total(self) -> int {
        let distance = self.seconds * 1_000_000_000 + self.nanos;
        if self.before_epoch {
            -distance
        } else {
            distance
        }
    }

    /// The distance from the epoch; the epoch itself lies not before it.
    pub fn of(time: FileTime) -> (r: VersionTime)
        requires
            time.wf(),
        ensures
            r == version_time(time),
            r.total() == time.total(),
            r.nanos < 1_000_000_000,
    {
        if time.seconds >= 0 {
            VersionTime { before_epoch: false, seconds: time.seconds as u64, nanos: time.nanos }
        } else if time.nanos == 0 {
            let seconds: u64 = (-(time.seconds as i128)) as u64;
            VersionTime { before_epoch: true, seconds, nanos: 0 }
        } else {
            let seconds: u64 = (-(time.seconds as i128) - 1) as u64;
            VersionTime { before_epoch: true, seconds, nanos: 1_000_000_000 - time.nanos }
        }
    }

    /// The point in time, where the nanoseconds make less than a second and
    /// the whole seconds fit a signed 64-bit count.
    pub fn decode(self) -> (r: Option<FileTime>)
        ensures
            r == decoded_time(self),
            r matches Some(t) ==> t.wf() && t.total() == self.total(),
    {
        if self.nanos >= 1_000_000_000 {
            return None;
        }
        if !self.before_epoch {
            if self.seconds > i64::MAX as u64 {
                return None;
            }
            return Some(FileTime { seconds: self.seconds as i64, nanos: self.nanos });
        }
        if self.nanos == 0 {
            if self.seconds > 0x8000_0000_0000_0000 {
                return None;
            }
            let seconds: i64 = (-(self.seconds as i128)) as i64;
            return Some(FileTime { seconds, nanos: 0 });
        }
        if self.seconds >= 0x8000_0000_0000_0000 {
            return None;
        }
        let seconds: i64 = (-(self.seconds as i128) - 1) as i64;
        Some(FileTime { seconds, nanos: 1_000_000_000 - self.nanos })
    }
}

/// A time's distance from the epoch.
pub open spec fn version_time(time: FileTime) -> VersionTime {
    if time.seconds >= 0 {
        VersionTime { before_epoch: false, seconds: time.seconds as u64, nanos: time.nanos }
    } else if time.nanos == 0 {
        VersionTime { before_epoch: true, seconds: (-time.seconds) as u64, nanos: 0 }
    } else {
        VersionTime {
            before_epoch: true,
            seconds: (-time.seconds - 1) as u64,
            nanos: (1_000_000_000 - time.nanos) as u32,
        }
    }
}

/// The time that lies at a distance from the epoch, where there is one.
pub open spec fn decoded_time(time: VersionTime) -> Option<FileTime> {
    let total = time.total();
    let seconds = total / 1_000_000_000;
    if time.nanos >= 1_000_000_000 || !(i64::MIN <= seconds <= i64::MAX) {
        None
    } else {
        Some(FileTime { seconds: seconds as i64, nanos: (total % 1_000_000_000) as u32 })
    }
}

/// What a Unix file system reports beyond the times.
#[derive(Clone, Copy, Debug, PartialEq, Eq, Structural)]
pub struct UnixVersion {
    pub device: u64,
    pub inode: u64,
    pub change_seconds: i64,
    pub change_nanos: i64,
}

/// What the platform reports of a file beyond its size and times.
#[derive(Clone, Copy, Debug, PartialEq, Eq, Structural)]
pub enum PlatformVersion {
    Unix(UnixVersion),
    Windows,
    Other,
}

/// The platform a version is read on: its name and what it reports.
#[derive(Clone, Copy, Debug, PartialEq, Eq, Structural)]
pub enum Family {
    Unix,
    Windows,
    Other,
}

/// Full-resolution metadata identifying the file version used by an indexed
/// read.
#[derive(Clone, Copy, Debug, PartialEq, Eq, Structural)]
pub struct FileVersion {
    pub stamp: FileStamp,
    pub modified: Option<FileTime>,
    pub created: Option<FileTime>,
    pub platform: PlatformVersion,
}

/// The bytes a time adds to a digest, distinguishing absent from zero.
pub open spec fn time_bytes(time: Option<FileTime>) -> Seq<u8> {
    match time {
        None => seq![0u8],
        Some(time) => {
            let v = version_time(time);
            seq![
                1u8,
                if v.before_epoch {
                    1u8
                } else {
                    0u8
                },
            ] + spec_u64_to_le_bytes(v.seconds) + spec_u32_to_le_bytes(v.nanos)
        },
    }
}

/// The bytes the platform's fields add to a digest.
pub open spec fn platform_bytes(platform: PlatformVersion) -> Seq<u8> {
    match platform {
        PlatformVersion::Unix(unix) => spec_u64_to_le_bytes(unix.device) + spec_u64_to_le_bytes(
            unix.inode,
        ) + spec_u64_to_le_bytes(unix.change_seconds as u64) + spec_u64_to_le_bytes(
            unix.change_nanos as u64,
        ),
        PlatformVersion::Windows => Seq::empty(),
        PlatformVersion::Other => Seq::empty(),
    }
}

fn push_time(out: &mut Vec<u8>, time: &Option<FileTime>)
    requires
        time matches Some(t) ==> t.wf(),
    ensures
        final(out)@ == old(out)@ + time_bytes(*time),
{
    let ghost start = out@;
    match time {
        None => {
            out.push(0);
        },
        Some(time) => {
            let v = VersionTime::of(*time);
            let side: u8 = if v.before_epoch {
                1
            } else {
                0
            };
            out.push(1);
            out.push(side);
            let seconds = u64_to_le_bytes(v.seconds);
            push_bytes(out, seconds.as_slice());
            let nanos = u32_to_le_bytes(v.nanos);
            push_bytes(out, nanos.as_slice());
        },
    }
    assert(out@ =~= start + time_bytes(*time));
}

impl FileVersion {
    /// Its times are points in time.
    pub open spec fn wf(self) -> bool {
        &&& self.modified matches Some(t) ==> t.wf()
        &&& self.created matches Some(t) ==> t.wf()
    }

    /// Whether the platform supplied enough metadata for precise comparisons.
    pub open spec fn trusted(self) -> bool {
        self.modified is Some && match self.platform {
            PlatformVersion::Unix(unix) => 0 <= unix.change_nanos < 1_000_000_000,
            PlatformVersion::Windows => self.created is Some,
            PlatformVersion::Other => false,
        }
    }

    /// Every change-detection field the platform supplies.
    pub open spec fn evidence_bytes(self) -> Seq<u8> {
        spec_u64_to_le_bytes(self.stamp.size) + spec_u64_to_le_bytes(self.stamp.mtime)
            + time_bytes(self.modified) + time_bytes(self.created) + platform_bytes(self.platform)
    }

    /// The stamp of the version.
    pub fn stamp(&self) -> (r: &FileStamp)
        ensures
            *r == self.stamp,
    {
        &self.stamp
    }

    /// Whether the platform supplied enough metadata for precise comparisons.
    pub fn is_trusted(&self) -> (r: bool)
        ensures
            r == self.trusted(),
    {
        if self.modified.is_none() {
            return false;
        }
        match &self.platform {
            PlatformVersion::Unix(unix) => 0 <= unix.change_nanos && unix.change_nanos
                < 1_000_000_000,
            PlatformVersion::Windows => self.created.is_some(),
            PlatformVersion::Other => false,
        }
    }

    /// Compact digest over every change-detection field the platform supplies,
    /// for callers that only need equality between two observations.
    ///
    /// `None` when the version is not trusted: an untrusted observation must
    /// not be compared as if it were complete evidence.
    pub fn evidence_digest(&self) -> (r: Option<[u8; 16]>)
        requires
            self.wf(),
        ensures
            match r {
                Some(digest) => self.trusted() && digest@ == blake3_hash(
                    self.evidence_bytes(),
                ).take(16),
                None => !self.trusted(),
            },
    {
        if !self.is_trusted() {
            return None;
        }
        let mut input: Vec<u8> = Vec::new();
        let size = u64_to_le_bytes(self.stamp.size);
        push_bytes(&mut input, size.as_slice());
        assert(input@ =~= spec_u64_to_le_bytes(self.stamp.size));
        let mtime = u64_to_le_bytes(self.stamp.mtime);
        push_bytes(&mut input, mtime.as_slice());
        push_time(&mut input, &self.modified);
        push_time(&mut input, &self.created);
        let ghost before = input@;
        if let PlatformVersion::Unix(unix) = &self.platform {
            let device = u64_to_le_bytes(unix.device);
            push_bytes(&mut input, device.as_slice());
            let inode = u64_to_le_bytes(unix.inode);
            push_bytes(&mut input, inode.as_slice());
            let change_seconds = u64_to_le_bytes(#[verifier::truncate] (unix.change_seconds as u64));
            push_bytes(&mut input, change_seconds.as_slice());
            let change_nanos = u64_to_le_bytes(#[verifier::truncate] (unix.change_nanos as u64));
            push_bytes(&mut input, change_nanos.as_slice());
        }
        assert(input@ =~= before + platform_bytes(self.platform));
        let hash = content_hash(input.as_slice());
        let digest: [u8; 16] = array_at(vstd::array::array_as_slice(&hash), 0);
        assert(digest@ =~= hash@.take(16));
        Some(digest)
    }
}

/// Identity of the decoded bytes used to build one path's postings.
#[derive(Clone, Copy, Debug, PartialEq, Eq, Hash)]
pub struct ContentId([u8; 16]);

impl View for ContentId {
    type V = Seq<u8>;

    closed spec fn view(&self) -> Seq<u8> {
        self.0@
    }
}

/// What is hashed in front of decoded bytes. It must change if decoding, binary
/// classification or posting semantics change in a way that makes identities
/// from an older index unsafe to compare with newly decoded bytes.
pub open spec fn content_id_domain() -> Seq<u8> {
    encode_utf8(
        "tgrep/content-id/v1\0decode_for_index-output\0binary-and-posting-semantics-v2"@,
    )
}

/// The lower-case hexadecimal digit of a number below sixteen.
pub open spec fn hex_char(n: int) -> char {
    if n == 10 {
        'a'
    } else if n == 11 {
        'b'
    } else if n == 12 {
        'c'
    } else if n == 13 {
        'd'
    } else if n == 14 {
        'e'
    } else if n == 15 {
        'f'
    } else {
        crate::text::digit(n)
    }
}

/// Bytes in lower-case hexadecimal notation.
pub open spec fn hex_text(bytes: Seq<u8>) -> Seq<char> {
    Seq::new(
        2 * bytes.len(),
        |i: int|
            if i % 2 == 0 {
                hex_char(bytes[i / 2] as int / 16)
            } else {
                hex_char(bytes[i / 2] as int % 16)
            },
    )
}

fn hex_of(n: u8) -> (c: char)
    requires
        n < 16,
    ensures
        c == hex_char(n as int),
{
    match n {
        10 => 'a',
        11 => 'b',
        12 => 'c',
        13 => 'd',
        14 => 'e',
        15 => 'f',
        _ => crate::text::digit_char(n as u64),
    }
}

fn hex_digit(c: char) -> (r: Option<u8>)
    ensures
        match r {
            Some(n) => n < 16 && hex_char(n as int) == c,
            None => forall|n: int| 0 <= n < 16 ==> #[trigger] hex_char(n) != c,
        },
{
    let mut n: u8 = 0;
    while n < 16
        invariant
            n <= 16,
            forall|m: int| 0 <= m < n ==> #[trigger] hex_char(m) != c,
        decreases 16 - n,
    {
        if hex_of(n) == c {
            return Some(n);
        }
        n += 1;
    }
    None
}

impl ContentId {
    /// An identity is sixteen bytes.
    pub proof fn lemma_len(self)
        ensures
            self@.len() == 16,
    {
    }

    /// The identity of decoded bytes.
    pub fn from_indexed_bytes(bytes: &[u8]) -> (r: ContentId)
        ensures
            r@ == blake3_hash(content_id_domain() + bytes@).take(16),
    {
        let mut input: Vec<u8> = Vec::new();
        push_bytes(
            &mut input,
            "tgrep/content-id/v1\0decode_for_index-output\0binary-and-posting-semantics-v2".as_bytes(),
        );
        push_bytes(&mut input, bytes);
        assert(input@ =~= content_id_domain() + bytes@);
        let hash = content_hash(input.as_slice());
        let id: [u8; 16] = array_at(vstd::array::array_as_slice(&hash), 0);
        assert(id@ =~= hash@.take(16));
        ContentId(id)
    }

    /// The identity that a hexadecimal text stands for.
    #[verifier::loop_isolation(false)]
    pub fn from_hex(value: &str) -> (r: Option<ContentId>)
        ensures
            match r {
                Some(id) => value@ == hex_text(id@),
                None => forall|bytes: Seq<u8>| bytes.len() == 16 ==> value@ != #[trigger] hex_text(
                    bytes,
                ),
            },
    {
        let chars = crate::text::chars_of(value);
        if chars.len() != 32 {
            return None;
        }
        let mut id: [u8; 16] = [0; 16];
        let mut i: usize = 0;
        while i < 16
            invariant
                i <= 16,
                id@.len() == 16,
                forall|k: int|
                    0 <= k < i ==> hex_char(#[trigger] id@[k] as int / 16) == value@[2 * k]
                        && hex_char(id@[k] as int % 16) == value@[2 * k + 1],
            decreases 16 - i,
        {
            let high: u8 = match hex_digit(chars[2 * i]) {
                Some(n) => n,
                None => {
                    proof {
                        lemma_not_hex(value@, 2 * i as int);
                    }
                    return None;
                },
            };
            let low: u8 = match hex_digit(chars[2 * i + 1]) {
                Some(n) => n,
                None => {
                    proof {
                        lemma_not_hex(value@, 2 * i + 1);
                    }
                    return None;
                },
            };
            id[i] = high * 16 + low;
            i += 1;
        }
        let r = ContentId(id);
        assert(value@ =~= hex_text(r@)) by {
            assert forall|j: int| 0 <= j < 32 implies value@[j] == hex_text(r@)[j] by {
                let k = j / 2;
                assert(id@[k] == r@[k]);
                assert(j == 2 * k || j == 2 * k + 1);
            }
        }
        Some(r)
    }

    /// The identity in hexadecimal notation.
    pub fn to_hex(self) -> (r: String)
        ensures
            r@ == hex_text(self@),
    {
        let mut out = String::new();
        let mut i: usize = 0;
        while i < 16
            invariant
                i <= 16,
                self@.len() == 16,
                self@ == self.0@,
                out@ == hex_text(self@.take(i as int)),
            decreases 16 - i,
        {
            let byte: u8 = self.0[i];
            out.push(hex_of(byte / 16));
            out.push(hex_of(byte % 16));
            assert(hex_text(self@.take(i + 1)) =~= hex_text(self@.take(i as int)).push(
                hex_char(byte as int / 16),
            ).push(hex_char(byte as int % 16)));
            i += 1;
        }
        assert(self@.take(16) =~= self@);
        out
    }
}

/// A text with a character that is no digit stands for no bytes.
proof fn lemma_not_hex(value: Seq<char>, at: int)
    requires
        0 <= at < value.len(),
        forall|n: int| 0 <= n < 16 ==> #[trigger] hex_char(n) != value[at],
    ensures
        forall|bytes: Seq<u8>| 2 * bytes.len() == value.len() ==> value != #[trigger] hex_text(bytes),
{
    assert forall|bytes: Seq<u8>| 2 * bytes.len() == value.len() implies value
        != #[trigger] hex_text(bytes) by {
        let b = bytes[at / 2] as int;
        assert(0 <= b / 16 < 16);
        assert(0 <= b % 16 < 16);
        if at % 2 == 0 {
            assert(hex_text(bytes)[at] == hex_char(b / 16));
        } else {
            assert(hex_text(bytes)[at] == hex_char(b % 16));
        }
    }
}

/// Two different byte strings never have the same hexadecimal text, so reading
/// an identity's text gives that identity back.
pub proof fn law_hex_text_is_read_back(a: Seq<u8>, b: Seq<u8>)
    requires
        hex_text(a) == hex_text(b),
    ensures
        a == b,
{
    assert(hex_text(a).len() == 2 * a.len());
    assert(hex_text(b).len() == 2 * b.len());
    assert forall|i: int| 0 <= i < a.len() implies a[i] == b[i] by {
        assert(hex_text(a)[2 * i] == hex_text(b)[2 * i]);
        assert(hex_text(a)[2 * i + 1] == hex_text(b)[2 * i + 1]);
        let even = 2 * i;
        let odd = 2 * i + 1;
        assert(even / 2 == i && odd / 2 == i && even % 2 == 0 && odd % 2 == 1);
        assert(hex_text(a)[even] == hex_char(a[even / 2] as int / 16));
        assert(hex_text(b)[even] == hex_char(b[even / 2] as int / 16));
        assert(hex_text(a)[odd] == hex_char(a[odd / 2] as int % 16));
        assert(hex_text(b)[odd] == hex_char(b[odd / 2] as int % 16));
        assert(hex_char(a[i] as int / 16) == hex_char(b[i] as int / 16));
        assert(hex_char(a[i] as int % 16) == hex_char(b[i] as int % 16));
    }
    assert(a =~= b);
}

} // verus!
