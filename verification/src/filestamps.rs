//! Stamps and versions of files, made from what a file system reports, and the
//! stamps that are stored.
use crate::evidence::{lemma_last_contains, whole_seconds};
use crate::meta::{FileStamp, FileTime, FileVersion, PlatformVersion};
use crate::path_map::PathMap;
use crate::text::owned;
use vstd::prelude::*;

verus! {

/// What a file system reports of a file. A time is absent where the platform
/// does not supply it.
#[derive(Clone, Copy)]
pub struct FileMetadata {
    pub size: u64,
    pub modified: Option<FileTime>,
    pub created: Option<FileTime>,
    pub platform: PlatformVersion,
}

impl FileMetadata {
    /// The times are well formed.
    pub open spec fn wf(self) -> bool {
        &&& self.modified matches Some(t) ==> t.wf()
        &&& self.created matches Some(t) ==> t.wf()
    }
}

/// The stamp of a file: its size, and the whole seconds of its modification
/// time, zero where that is absent or lies before the epoch.
pub open spec fn stamp_of(metadata: FileMetadata) -> FileStamp {
    FileStamp {
        mtime: match metadata.modified {
            Some(t) => whole_seconds(t),
            None => 0,
        },
        size: metadata.size,
    }
}

/// The stamp of a file.
pub fn file_stamp(metadata: &FileMetadata) -> (r: FileStamp)
    ensures
        r == stamp_of(*metadata),
{
    let mtime: u64 = match metadata.modified {
        Some(t) => if t.seconds >= 0 {
            t.seconds as u64
        } else {
            0
        },
        None => 0,
    };
    FileStamp { mtime, size: metadata.size }
}

/// The version of a file: its stamp, and all else that is reported. It is
/// evidence of an indexed read only once that read has been validated.
pub fn file_version(metadata: &FileMetadata) -> (r: FileVersion)
    requires
        metadata.wf(),
    ensures
        r.wf(),
        r == (FileVersion {
            stamp: stamp_of(*metadata),
            modified: metadata.modified,
            created: metadata.created,
            platform: metadata.platform,
        }),
{
    FileVersion {
        stamp: file_stamp(metadata),
        modified: metadata.modified,
        created: metadata.created,
        platform: metadata.platform,
    }
}

/// The stamps of the files that could be read, the last report of a path
/// counting.
pub open spec fn collected(found: Seq<(String, Option<FileMetadata>)>) -> Map<Seq<char>, FileStamp>
    decreases found.len(),
{
    if found.len() == 0 {
        Map::empty()
    } else {
        let before = collected(found.drop_last());
        match found.last().1 {
            Some(m) => before.insert(found.last().0@, stamp_of(m)),
            None => before,
        }
    }
}

/// Collects the stamps of files; one whose metadata could not be read has none.
pub fn collect_filestamps(found: &Vec<(String, Option<FileMetadata>)>) -> (r: PathMap<FileStamp>)
    ensures
        r.wf(),
        r@ == collected(found@),
{
    let mut out: PathMap<FileStamp> = PathMap::new();
    let mut i: usize = 0;
    while i < found.len()
        invariant
            i <= found@.len(),
            out.wf(),
            out@ == collected(found@.take(i as int)),
        decreases found@.len() - i,
    {
        assert(found@.take(i + 1).drop_last() =~= found@.take(i as int));
        assert(found@.take(i + 1).last() == found@[i as int]);
        match &found[i].1 {
            Some(metadata) => {
                out.insert(owned(found[i].0.as_str()), file_stamp(metadata));
            },
            None => {},
        }
        i += 1;
    }
    assert(found@.take(found@.len() as int) =~= found@);
    out
}

/// The views of stored stamps.
pub open spec fn stamp_views(stored: Seq<(String, FileStamp)>) -> Seq<(Seq<char>, FileStamp)> {
    stored.map_values(|e: (String, FileStamp)| (e.0@, e.1))
}

/// The stamps that a list holds, the last of a path counting.
pub open spec fn stamps_of(stored: Seq<(Seq<char>, FileStamp)>) -> Map<Seq<char>, FileStamp>
    decreases stored.len(),
{
    if stored.len() == 0 {
        Map::empty()
    } else {
        stamps_of(stored.drop_last()).insert(stored.last().0, stored.last().1)
    }
}

/// What is stored of stamps: each with its path.
pub open spec fn stored_stamps(
    stamps: Map<Seq<char>, FileStamp>,
    paths: Seq<Seq<char>>,
) -> Seq<(Seq<char>, FileStamp)> {
    paths.map_values(|p: Seq<char>| (p, stamps[p]))
}

/// What is stored of stamps, in the order of the paths.
pub fn write_filestamps(stamps: &PathMap<FileStamp>) -> (r: Vec<(String, FileStamp)>)
    requires
        stamps.wf(),
    ensures
        stamp_views(r@) == stored_stamps(stamps@, stamps.keys()),
{
    let mut out: Vec<(String, FileStamp)> = Vec::new();
    let ghost keys = stamps.keys();
    let ghost f = |p: Seq<char>| (p, stamps@[p]);
    let total: usize = stamps.len();
    let mut i: usize = 0;
    assert(stamp_views(out@) =~= keys.take(0).map_values(f));
    while i < total
        invariant
            i <= total,
            stamps.wf(),
            keys == stamps.keys(),
            total == keys.len(),
            f == (|p: Seq<char>| (p, stamps@[p])),
            stamp_views(out@) == keys.take(i as int).map_values(f),
        decreases total - i,
    {
        let path = owned(stamps.key_at(i));
        let stamp = *stamps.value_at(i);
        let ghost before = stamp_views(out@);
        out.push((path, stamp));
        proof {
            assert(stamp_views(out@) =~= before.push((path@, stamp)));
            assert(keys.take(i + 1).map_values(f) =~= keys.take(i as int).map_values(f).push(
                f(keys[i as int]),
            ));
        }
        i += 1;
    }
    assert(keys.take(total as int) =~= keys);
    out
}

/// Reads stored stamps; there are none where nothing is stored.
pub fn read_filestamps(stored: Option<&Vec<(String, FileStamp)>>) -> (r: PathMap<FileStamp>)
    ensures
        r.wf(),
        r@ == (match stored {
            Some(list) => stamps_of(stamp_views(list@)),
            None => Map::empty(),
        }),
{
    let mut out: PathMap<FileStamp> = PathMap::new();
    let list = match stored {
        Some(list) => list,
        None => {
            return out;
        },
    };
    let ghost all = stamp_views(list@);
    let mut i: usize = 0;
    assert(all.take(0) =~= Seq::<(Seq<char>, FileStamp)>::empty());
    while i < list.len()
        invariant
            i <= list@.len(),
            all == stamp_views(list@),
            out.wf(),
            out@ == stamps_of(all.take(i as int)),
        decreases list@.len() - i,
    {
        proof {
            assert(all.take(i + 1).drop_last() =~= all.take(i as int));
            assert(all.take(i + 1).last() == (list@[i as int].0@, list@[i as int].1));
        }
        out.insert(owned(list[i].0.as_str()), list[i].1);
        i += 1;
    }
    assert(all.take(all.len() as int) =~= all);
    out
}

proof fn lemma_stamps_of(stamps: Map<Seq<char>, FileStamp>, paths: Seq<Seq<char>>)
    ensures
        ({
            let read = stamps_of(stored_stamps(stamps, paths));
            &&& forall|p: Seq<char>| #[trigger] read.contains_key(p) <==> paths.contains(p)
            &&& forall|p: Seq<char>| #[trigger] read.contains_key(p) ==> read[p] == stamps[p]
        }),
    decreases paths.len(),
{
    let all = stored_stamps(stamps, paths);
    if paths.len() > 0 {
        let front = paths.drop_last();
        lemma_stamps_of(stamps, front);
        assert(all.drop_last() =~= stored_stamps(stamps, front));
        assert(all.last() == (paths.last(), stamps[paths.last()]));
        lemma_last_contains(paths);
        assert(stamps_of(all) == stamps_of(all.drop_last()).insert(all.last().0, all.last().1));
    } else {
        assert(all =~= Seq::empty());
    }
}

/// Stamps that are stored and read again are what they were.
pub proof fn law_stored_stamps_are_read_back(
    stamps: Map<Seq<char>, FileStamp>,
    paths: Seq<Seq<char>>,
)
    requires
        forall|p: Seq<char>| #[trigger] stamps.contains_key(p) <==> paths.contains(p),
    ensures
        stamps_of(stored_stamps(stamps, paths)) == stamps,
{
    lemma_stamps_of(stamps, paths);
    let read = stamps_of(stored_stamps(stamps, paths));
    assert forall|p: Seq<char>| #[trigger] stamps.contains_key(p) <==> read.contains_key(p) by {
        assert(stamps.contains_key(p) <==> paths.contains(p));
    }
    assert(read =~= stamps);
}

} // verus!
