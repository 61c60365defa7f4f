//! Per-path evidence of what an index was built from.
use crate::meta::{
    decoded_time, version_time, ContentId, Family, FileStamp, FileTime, FileVersion,
    PlatformVersion, UnixVersion, VersionTime,
};
use crate::path_map::PathMap;
use crate::text::{owned, same};
use vstd::prelude::*;

verus! {

/// A version as it is stored.
#[derive(Debug, PartialEq, Eq)]
pub struct PersistedVersion {
    pub schema: u32,
    pub platform: String,
    pub size: u64,
    pub modified: VersionTime,
    pub created: Option<VersionTime>,
    pub unix: Option<UnixVersion>,
}

/// What a [`PersistedVersion`] holds.
pub struct PersistedView {
    pub schema: u32,
    pub platform: Seq<char>,
    pub size: u64,
    pub modified: VersionTime,
    pub created: Option<VersionTime>,
    pub unix: Option<UnixVersion>,
}

impl View for PersistedVersion {
    type V = PersistedView;

    open spec fn view(&self) -> PersistedView {
        PersistedView {
            schema: self.schema,
            platform: self.platform@,
            size: self.size,
            modified: self.modified,
            created: self.created,
            unix: self.unix,
        }
    }
}

/// What a platform's name and its family say about stored versions.
pub struct Platform {
    /// The name of the operating system.
    pub os: String,
    pub family: Family,
}

/// The family that a version's platform belongs to.
pub open spec fn family_of(version: FileVersion) -> Family {
    match version.platform {
        PlatformVersion::Unix(_) => Family::Unix,
        PlatformVersion::Windows => Family::Windows,
        PlatformVersion::Other => Family::Other,
    }
}

/// The whole seconds from the epoch to a time, none for a time before it.
pub open spec fn whole_seconds(time: FileTime) -> u64 {
    if time.seconds >= 0 {
        time.seconds as u64
    } else {
        0
    }
}

/// A trusted version as it is stored on the system `os`.
pub open spec fn persisted_view(version: FileVersion, os: Seq<char>) -> Option<PersistedView> {
    if !version.trusted() {
        None
    } else {
        Some(
            PersistedView {
                schema: 1,
                platform: os,
                size: version.stamp.size,
                modified: version_time(version.modified->0),
                created: match version.created {
                    Some(time) => Some(version_time(time)),
                    None => None,
                },
                unix: match version.platform {
                    PlatformVersion::Unix(unix) => Some(unix),
                    _ => None,
                },
            },
        )
    }
}

/// The view of a version that may be stored.
pub open spec fn option_persisted(p: Option<PersistedVersion>) -> Option<PersistedView> {
    match p {
        Some(p) => Some(p@),
        None => None,
    }
}

/// The version that a stored one stands for, where it fits the stamp and the
/// platform and amounts to trusted evidence.
pub open spec fn decoded_version(
    p: PersistedView,
    stamp: FileStamp,
    os: Seq<char>,
    family: Family,
) -> Option<FileVersion> {
    let modified = decoded_time(p.modified);
    let created = match p.created {
        Some(time) => decoded_time(time),
        None => None,
    };
    let version = FileVersion {
        stamp,
        modified,
        created,
        platform: match family {
            Family::Unix => PlatformVersion::Unix(p.unix->0),
            Family::Windows => PlatformVersion::Windows,
            Family::Other => PlatformVersion::Other,
        },
    };
    if p.schema == 1 && p.platform == os && p.size == stamp.size && modified is Some
        && whole_seconds(modified->0) == stamp.mtime && (p.created is Some ==> created is Some) && (
    family == Family::Unix <==> p.unix is Some) && version.trusted() {
        Some(version)
    } else {
        None
    }
}

impl FileVersion {
    /// The version as it is stored on the system `os`; none where it is not
    /// trusted.
    pub fn persisted(&self, os: &str) -> (r: Option<PersistedVersion>)
        requires
            self.wf(),
        ensures
            option_persisted(r) == persisted_view(*self, os@),
    {
        if !self.is_trusted() {
            return None;
        }
        match &self.modified {
            Some(modified) => {
                let created = match &self.created {
                    Some(time) => Some(VersionTime::of(*time)),
                    None => None,
                };
                let unix = match &self.platform {
                    PlatformVersion::Unix(unix) => Some(*unix),
                    _ => None,
                };
                Some(
                    PersistedVersion {
                        schema: 1,
                        platform: owned(os),
                        size: self.stamp.size,
                        modified: VersionTime::of(*modified),
                        created,
                        unix,
                    },
                )
            },
            None => None,
        }
    }
}

impl PersistedVersion {
    /// The version that the stored one stands for.
    pub fn decode(self, stamp: FileStamp, platform: &Platform) -> (r: Option<FileVersion>)
        ensures
            r == decoded_version(self@, stamp, platform.os@, platform.family),
            r matches Some(v) ==> v.wf() && v.trusted() && v.stamp == stamp,
    {
        if self.schema != 1 || !same(self.platform.as_str(), platform.os.as_str()) || self.size
            != stamp.size {
            return None;
        }
        let modified = match self.modified.decode() {
            Some(time) => time,
            None => return None,
        };
        let seconds: u64 = if modified.seconds >= 0 {
            modified.seconds as u64
        } else {
            0
        };
        if seconds != stamp.mtime {
            return None;
        }
        let created = match self.created {
            Some(time) => match time.decode() {
                Some(time) => Some(time),
                None => return None,
            },
            None => None,
        };
        let platform = match (platform.family, self.unix) {
            (Family::Unix, Some(unix)) => PlatformVersion::Unix(unix),
            (Family::Unix, None) => return None,
            (_, Some(_)) => return None,
            (Family::Windows, None) => PlatformVersion::Windows,
            (Family::Other, None) => PlatformVersion::Other,
        };
        let version = FileVersion { stamp, modified: Some(modified), created, platform };
        if version.is_trusted() {
            Some(version)
        } else {
            None
        }
    }
}

/// A time is at its own distance from the epoch.
pub proof fn lemma_time_round_trip(time: FileTime)
    requires
        time.wf(),
    ensures
        decoded_time(version_time(time)) == Some(time),
{
    let v = version_time(time);
    assert(v.total() == time.total());
    assert(time.total() / 1_000_000_000 == time.seconds);
    assert(time.total() % 1_000_000_000 == time.nanos);
}

/// A trusted version whose stamp is that of its modification time is read back
/// as it was stored, on the platform that stored it; times before the epoch
/// too.
pub proof fn law_stored_version_is_read_back(version: FileVersion, os: Seq<char>)
    requires
        version.wf(),
        version.trusted(),
        version.stamp.mtime == whole_seconds(version.modified->0),
    ensures
        decoded_version(
            persisted_view(version, os)->0,
            version.stamp,
            os,
            family_of(version),
        ) == Some(version),
{
    lemma_time_round_trip(version.modified->0);
    if let Some(time) = version.created {
        lemma_time_round_trip(time);
    }
}

/// Per-path metadata and optional trusted content and version evidence from
/// one index generation.
#[derive(Debug, PartialEq, Eq)]
pub struct FileEvidence {
    pub stamps: PathMap<FileStamp>,
    pub content_ids: PathMap<ContentId>,
    pub versions: PathMap<FileVersion>,
}

/// What [`FileEvidence`] holds.
#[verifier::ext_equal]
pub struct EvidenceView {
    pub stamps: Map<Seq<char>, FileStamp>,
    pub content_ids: Map<Seq<char>, Seq<u8>>,
    pub versions: Map<Seq<char>, FileVersion>,
}

/// The identities of a map.
pub open spec fn id_views(ids: Map<Seq<char>, ContentId>) -> Map<Seq<char>, Seq<u8>> {
    ids.map_values(|id: ContentId| id@)
}

impl View for FileEvidence {
    type V = EvidenceView;

    open spec fn view(&self) -> EvidenceView {
        EvidenceView {
            stamps: self.stamps@,
            content_ids: id_views(self.content_ids@),
            versions: self.versions@,
        }
    }
}

impl EvidenceView {
    /// The version that may be relied on for a path: a trusted one whose stamp
    /// is the path's.
    pub open spec fn usable_version(self, path: Seq<char>) -> Option<FileVersion> {
        if self.versions.contains_key(path) && self.versions[path].trusted()
            && self.stamps.contains_key(path) && self.stamps[path] == self.versions[path].stamp {
            Some(self.versions[path])
        } else {
            None
        }
    }

    /// The evidence once a path's has been replaced.
    pub open spec fn with_path(
        self,
        path: Seq<char>,
        stamp: FileStamp,
        content_id: Option<Seq<u8>>,
        version: Option<FileVersion>,
    ) -> EvidenceView {
        EvidenceView {
            stamps: self.stamps.insert(path, stamp),
            content_ids: match content_id {
                Some(id) => self.content_ids.insert(path, id),
                None => self.content_ids.remove(path),
            },
            versions: match version {
                Some(v) if v.trusted() && v.stamp == stamp => self.versions.insert(path, v),
                _ => self.versions.remove(path),
            },
        }
    }

    /// The evidence once a path's is gone.
    pub open spec fn without_path(self, path: Seq<char>) -> EvidenceView {
        EvidenceView {
            stamps: self.stamps.remove(path),
            content_ids: self.content_ids.remove(path),
            versions: self.versions.remove(path),
        }
    }

    /// Every version is trusted evidence for the stamp of its path, and no
    /// path has evidence without a stamp.
    pub open spec fn consistent(self) -> bool {
        &&& forall|p: Seq<char>| #[trigger]
            self.versions.contains_key(p) ==> self.usable_version(p) is Some
        &&& forall|p: Seq<char>| #[trigger]
            self.content_ids.contains_key(p) ==> self.stamps.contains_key(p)
    }
}

/// The bytes of an identity that may be absent.
pub open spec fn option_id(id: Option<ContentId>) -> Option<Seq<u8>> {
    match id {
        Some(id) => Some(id@),
        None => None,
    }
}

impl Default for FileEvidence {
    fn default() -> (r: FileEvidence)
        ensures
            r.wf(),
            r@.consistent(),
            r@.stamps == Map::<Seq<char>, FileStamp>::empty(),
            r@.content_ids == Map::<Seq<char>, Seq<u8>>::empty(),
            r@.versions == Map::<Seq<char>, FileVersion>::empty(),
    {
        let r = FileEvidence {
            stamps: PathMap::new(),
            content_ids: PathMap::new(),
            versions: PathMap::new(),
        };
        assert(r@.content_ids =~= Map::<Seq<char>, Seq<u8>>::empty());
        r
    }
}

impl FileEvidence {
    /// The maps are in order and the times are points in time.
    pub open spec fn wf(self) -> bool {
        &&& self.stamps.wf()
        &&& self.content_ids.wf()
        &&& self.versions.wf()
        &&& forall|p: Seq<char>| #[trigger]
            self.versions@.contains_key(p) ==> self.versions@[p].wf()
    }

    /// Evidence that consists of stamps alone.
    pub fn from_stamps(stamps: PathMap<FileStamp>) -> (r: FileEvidence)
        requires
            stamps.wf(),
        ensures
            r.wf(),
            r@.consistent(),
            r@ == (EvidenceView {
                stamps: stamps@,
                content_ids: Map::empty(),
                versions: Map::empty(),
            }),
    {
        let r = FileEvidence { stamps, content_ids: PathMap::new(), versions: PathMap::new() };
        assert(r@.content_ids =~= Map::<Seq<char>, Seq<u8>>::empty());
        r
    }

    /// The stamp of a path.
    pub fn stamp(&self, path: &str) -> (r: Option<&FileStamp>)
        requires
            self.wf(),
        ensures
            match r {
                Some(stamp) => self@.stamps.contains_key(path@) && *stamp == self@.stamps[path@],
                None => !self@.stamps.contains_key(path@),
            },
    {
        self.stamps.get(path)
    }

    /// The content identity of a path.
    pub fn content_id(&self, path: &str) -> (r: Option<ContentId>)
        requires
            self.wf(),
        ensures
            match r {
                Some(id) => self@.content_ids.contains_key(path@) && id@
                    == self@.content_ids[path@],
                None => !self@.content_ids.contains_key(path@),
            },
    {
        match self.content_ids.get(path) {
            Some(id) => Some(*id),
            None => None,
        }
    }

    /// The version that may be relied on for a path.
    pub fn version(&self, path: &str) -> (r: Option<&FileVersion>)
        requires
            self.wf(),
        ensures
            self@.usable_version(path@) == (match r {
                Some(v) => Some(*v),
                None => None,
            }),
            r matches Some(v) ==> v.wf(),
    {
        match self.versions.get(path) {
            Some(version) => match self.stamps.get(path) {
                Some(stamp) if version.is_trusted() && *stamp == version.stamp => Some(version),
                _ => None,
            },
            None => None,
        }
    }

    /// Replaces the evidence of a path, without a version.
    pub fn insert(&mut self, path: String, stamp: FileStamp, content_id: Option<ContentId>)
        requires
            old(self).wf(),
        ensures
            final(self).wf(),
            final(self)@ == old(self)@.with_path(path@, stamp, option_id(content_id), None),
    {
        self.insert_verified(path, stamp, content_id, None);
    }

    /// Replaces the evidence of a path. The version must have been validated
    /// around the read that produced the path's postings. Omitted or
    /// incompatible evidence clears what was there.
    pub fn insert_verified(
        &mut self,
        path: String,
        stamp: FileStamp,
        content_id: Option<ContentId>,
        version: Option<FileVersion>,
    )
        requires
            old(self).wf(),
            version matches Some(v) ==> v.wf(),
        ensures
            final(self).wf(),
            final(self)@ == old(self)@.with_path(path@, stamp, option_id(content_id), version),
    {
        let ghost before = self@;
        match version {
            Some(version) if version.is_trusted() && version.stamp == stamp => {
                self.versions.insert(path.clone(), version);
            },
            _ => {
                let _ = self.versions.remove(path.as_str());
            },
        }
        match content_id {
            Some(id) => {
                self.content_ids.insert(path.clone(), id);
                assert(id_views(self.content_ids@) =~= before.content_ids.insert(path@, id@));
            },
            None => {
                let _ = self.content_ids.remove(path.as_str());
                assert(id_views(self.content_ids@) =~= before.content_ids.remove(path@));
            },
        }
        self.stamps.insert(path, stamp);
    }

    /// Drops the evidence of a path; the stamp it had.
    pub fn remove(&mut self, path: &str) -> (r: Option<FileStamp>)
        requires
            old(self).wf(),
        ensures
            final(self).wf(),
            final(self)@ == old(self)@.without_path(path@),
            match r {
                Some(stamp) => old(self)@.stamps.contains_key(path@) && stamp
                    == old(self)@.stamps[path@],
                None => !old(self)@.stamps.contains_key(path@),
            },
    {
        let ghost before = self@;
        let stamp = match self.stamps.get(path) {
            Some(stamp) => Some(*stamp),
            None => None,
        };
        let _ = self.versions.remove(path);
        let _ = self.content_ids.remove(path);
        let _ = self.stamps.remove(path);
        assert(id_views(self.content_ids@) =~= before.content_ids.remove(path@));
        stamp
    }

    /// Drops all evidence.
    pub fn clear(&mut self)
        ensures
            final(self).wf(),
            final(self)@ == (EvidenceView {
                stamps: Map::empty(),
                content_ids: Map::empty(),
                versions: Map::empty(),
            }),
    {
        self.stamps.clear();
        self.content_ids.clear();
        self.versions.clear();
        assert(id_views(self.content_ids@) =~= Map::<Seq<char>, Seq<u8>>::empty());
    }
}

/// Whether `kept` holds of `all` exactly the stamps for which `keep` answered
/// yes.
pub open spec fn is_kept<F: Fn(&str, &FileStamp) -> bool>(
    all: Map<Seq<char>, FileStamp>,
    kept: Map<Seq<char>, FileStamp>,
    keep: F,
) -> bool {
    &&& forall|p: Seq<char>| #[trigger] kept.contains_key(p) ==> all.contains_key(p) && kept[p] == all[p]
    &&& forall|p: Seq<char>| #[trigger]
        all.contains_key(p) ==> answered(keep, p, all[p], kept.contains_key(p))
}

/// Whether `keep` answered `answer` of a path and its stamp.
pub open spec fn answered<F: Fn(&str, &FileStamp) -> bool>(
    keep: F,
    path: Seq<char>,
    stamp: FileStamp,
    answer: bool,
) -> bool {
    exists|p: &str| p@ == path && #[trigger] keep.ensures((p, &stamp), answer)
}

impl EvidenceView {
    /// The evidence of the paths whose stamps are kept: their identities, and
    /// those of their versions that carry the same stamp.
    pub open spec fn with_stamps(self, kept: Map<Seq<char>, FileStamp>) -> EvidenceView {
        EvidenceView {
            stamps: kept,
            content_ids: Map::new(
                |p: Seq<char>| self.content_ids.contains_key(p) && kept.contains_key(p),
                |p: Seq<char>| self.content_ids[p],
            ),
            versions: Map::new(
                |p: Seq<char>|
                    self.versions.contains_key(p) && kept.contains_key(p) && kept[p]
                        == self.versions[p].stamp,
                |p: Seq<char>| self.versions[p],
            ),
        }
    }
}

impl FileEvidence {
    /// Keeps the evidence of the paths for which `keep` answers yes.
    pub fn retain<F: Fn(&str, &FileStamp) -> bool>(&mut self, keep: F)
        requires
            old(self).wf(),
            forall|p: &str, s: &FileStamp| #[trigger] keep.requires((p, s)),
        ensures
            final(self).wf(),
            is_kept(old(self)@.stamps, final(self)@.stamps, keep),
            final(self)@ == old(self)@.with_stamps(final(self)@.stamps),
    {
        let stamps = kept_stamps(&self.stamps, keep);
        let content_ids = kept_ids(&self.content_ids, &stamps);
        let versions = kept_versions(&self.versions, &stamps);
        proof {
            assert(id_views(content_ids@) =~= old(self)@.with_stamps(stamps@).content_ids);
        }
        self.stamps = stamps;
        self.content_ids = content_ids;
        self.versions = versions;
    }
}

fn kept_stamps<F: Fn(&str, &FileStamp) -> bool>(all: &PathMap<FileStamp>, keep: F) -> (r: PathMap<
    FileStamp,
>)
    requires
        all.wf(),
        forall|p: &str, s: &FileStamp| #[trigger] keep.requires((p, s)),
    ensures
        r.wf(),
        is_kept(all@, r@, keep),
{
    let mut out: PathMap<FileStamp> = PathMap::new();
    let total: usize = all.len();
    let ghost keys = all.keys();
    let mut i: usize = 0;
    proof {
        all.lemma_keys();
    }
    while i < total
        invariant
            i <= total,
            all.wf(),
            out.wf(),
            keys == all.keys(),
            total == keys.len(),
            crate::path_map::ascending(keys),
            forall|p: &str, s: &FileStamp| #[trigger] keep.requires((p, s)),
            forall|p: Seq<char>| #[trigger]
                out@.contains_key(p) ==> all@.contains_key(p) && out@[p] == all@[p]
                    && keys.take(i as int).contains(p),
            forall|j: int|
                0 <= j < i ==> answered(
                    keep,
                    #[trigger] keys[j],
                    all@[keys[j]],
                    out@.contains_key(keys[j]),
                ),
        decreases total - i,
    {
        let path = all.key_at(i);
        let stamp = all.value_at(i);
        let ghost before = out@;
        let answer = keep(path, stamp);
        assert(answered(keep, keys[i as int], all@[keys[i as int]], answer));
        if answer {
            out.insert(owned(path), *stamp);
        }
        proof {
            assert(keys.take(i + 1) =~= keys.take(i as int).push(keys[i as int]));
            assert forall|p: Seq<char>| keys.take(i as int).contains(p) implies keys.take(
                i + 1,
            ).contains(p) by {
                let j = choose|j: int| 0 <= j < i && keys.take(i as int)[j] == p;
                assert(keys.take(i + 1)[j] == p);
            }
            assert(keys.take(i + 1)[i as int] == keys[i as int]);
            assert forall|j: int| 0 <= j < i implies #[trigger] keys[j] != keys[i as int] by {
                assert(crate::text::precedes(keys[j], keys[i as int]));
                crate::text::lemma_precedes_irreflexive(keys[j]);
            }
            if before.contains_key(keys[i as int]) {
                let j = choose|j: int| 0 <= j < i && keys.take(i as int)[j] == keys[i as int];
                assert(keys[j] == keys[i as int]);
            }
        }
        i += 1;
    }
    proof {
        assert forall|p: Seq<char>| #[trigger] all@.contains_key(p) implies answered(
            keep,
            p,
            all@[p],
            out@.contains_key(p),
        ) by {
            assert(keys.contains(p));
            let j = choose|j: int| 0 <= j < keys.len() && keys[j] == p;
            assert(answered(keep, keys[j], all@[keys[j]], out@.contains_key(keys[j])));
        }
    }
    out
}

fn kept_ids(all: &PathMap<ContentId>, stamps: &PathMap<FileStamp>) -> (r: PathMap<ContentId>)
    requires
        all.wf(),
        stamps.wf(),
    ensures
        r.wf(),
        r@ == Map::new(
            |p: Seq<char>| all@.contains_key(p) && stamps@.contains_key(p),
            |p: Seq<char>| all@[p],
        ),
{
    let mut out: PathMap<ContentId> = PathMap::new();
    let total: usize = all.len();
    let ghost keys = all.keys();
    let mut i: usize = 0;
    while i < total
        invariant
            i <= total,
            all.wf(),
            stamps.wf(),
            out.wf(),
            keys == all.keys(),
            total == keys.len(),
            forall|p: Seq<char>| #[trigger]
                out@.contains_key(p) <==> keys.take(i as int).contains(p) && stamps@.contains_key(
                    p,
                ),
            forall|p: Seq<char>| #[trigger]
                out@.contains_key(p) ==> all@.contains_key(p) && out@[p] == all@[p],
        decreases total - i,
    {
        let path = all.key_at(i);
        let id = all.value_at(i);
        proof {
            lemma_take_contains(keys, i as int);
        }
        if stamps.contains_key(path) {
            out.insert(owned(path), *id);
        }
        i += 1;
    }
    proof {
        all.lemma_keys();
        assert(keys.take(total as int) =~= keys);
        assert(out@ =~= Map::new(
            |p: Seq<char>| all@.contains_key(p) && stamps@.contains_key(p),
            |p: Seq<char>| all@[p],
        ));
    }
    out
}

fn kept_versions(all: &PathMap<FileVersion>, stamps: &PathMap<FileStamp>) -> (r: PathMap<
    FileVersion,
>)
    requires
        all.wf(),
        stamps.wf(),
        forall|p: Seq<char>| #[trigger] all@.contains_key(p) ==> all@[p].wf(),
    ensures
        r.wf(),
        forall|p: Seq<char>| #[trigger] r@.contains_key(p) ==> r@[p].wf(),
        r@ == Map::new(
            |p: Seq<char>|
                all@.contains_key(p) && stamps@.contains_key(p) && stamps@[p] == all@[p].stamp,
            |p: Seq<char>| all@[p],
        ),
{
    let mut out: PathMap<FileVersion> = PathMap::new();
    let total: usize = all.len();
    let ghost keys = all.keys();
    let mut i: usize = 0;
    while i < total
        invariant
            i <= total,
            all.wf(),
            stamps.wf(),
            out.wf(),
            keys == all.keys(),
            total == keys.len(),
            forall|p: Seq<char>| #[trigger]
                out@.contains_key(p) <==> keys.take(i as int).contains(p) && stamps@.contains_key(
                    p,
                ) && stamps@[p] == all@[p].stamp,
            forall|p: Seq<char>| #[trigger]
                out@.contains_key(p) ==> all@.contains_key(p) && out@[p] == all@[p],
        decreases total - i,
    {
        let path = all.key_at(i);
        let version = all.value_at(i);
        proof {
            lemma_take_contains(keys, i as int);
        }
        if let Some(stamp) = stamps.get(path) {
            if *stamp == version.stamp {
                out.insert(owned(path), *version);
            }
        }
        i += 1;
    }
    proof {
        all.lemma_keys();
        assert(keys.take(total as int) =~= keys);
        assert(out@ =~= Map::new(
            |p: Seq<char>|
                all@.contains_key(p) && stamps@.contains_key(p) && stamps@[p] == all@[p].stamp,
            |p: Seq<char>| all@[p],
        ));
    }
    out
}

/// The members of a list are those before the last, and the last.
pub proof fn lemma_last_contains(keys: Seq<Seq<char>>)
    requires
        keys.len() > 0,
    ensures
        forall|p: Seq<char>| #[trigger]
            keys.contains(p) <==> keys.drop_last().contains(p) || p == keys.last(),
{
    lemma_take_contains(keys, keys.len() - 1);
    assert(keys.take(keys.len() - 1 + 1) =~= keys);
    assert(keys.take(keys.len() - 1) =~= keys.drop_last());
}

pub proof fn lemma_take_contains(keys: Seq<Seq<char>>, i: int)
    requires
        0 <= i < keys.len(),
    ensures
        forall|p: Seq<char>| #[trigger]
            keys.take(i + 1).contains(p) <==> keys.take(i).contains(p) || p == keys[i],
{
    let small = keys.take(i);
    let large = keys.take(i + 1);
    assert forall|p: Seq<char>| #[trigger] large.contains(p) <==> small.contains(p) || p
        == keys[i] by {
        if small.contains(p) {
            let j = choose|j: int| 0 <= j < i && small[j] == p;
            assert(large[j] == p);
        }
        if large.contains(p) {
            let j = choose|j: int| 0 <= j < i + 1 && large[j] == p;
            if j < i {
                assert(small[j] == p);
            }
        }
        assert(large[i] == keys[i]);
    }
}

/// Every change of the evidence keeps it consistent, and no lookup gives a
/// version that is not trusted or does not carry the stamp of its path.
pub proof fn law_evidence_stays_consistent(
    evidence: EvidenceView,
    path: Seq<char>,
    stamp: FileStamp,
    content_id: Option<Seq<u8>>,
    version: Option<FileVersion>,
    kept: Map<Seq<char>, FileStamp>,
)
    requires
        evidence.consistent(),
        forall|p: Seq<char>| #[trigger]
            kept.contains_key(p) ==> evidence.stamps.contains_key(p) && kept[p]
                == evidence.stamps[p],
    ensures
        evidence.with_path(path, stamp, content_id, version).consistent(),
        evidence.without_path(path).consistent(),
        evidence.with_stamps(kept).consistent(),
        evidence.with_path(path, stamp, content_id, None).usable_version(path) is None,
        evidence.usable_version(path) matches Some(v) ==> v.trusted() && v.stamp
            == evidence.stamps[path],
{
    let a = evidence.with_path(path, stamp, content_id, version);
    assert forall|p: Seq<char>| #[trigger] a.versions.contains_key(p) implies a.usable_version(
        p,
    ) is Some by {
        if p != path {
            assert(evidence.versions.contains_key(p));
        }
    }
    assert forall|p: Seq<char>| #[trigger] a.content_ids.contains_key(p) implies a.stamps.contains_key(
        p,
    ) by {
        if p != path {
            assert(evidence.content_ids.contains_key(p));
        }
    }
    let b = evidence.without_path(path);
    assert forall|p: Seq<char>| #[trigger] b.versions.contains_key(p) implies b.usable_version(
        p,
    ) is Some by {
        assert(evidence.versions.contains_key(p));
    }
    assert forall|p: Seq<char>| #[trigger] b.content_ids.contains_key(p) implies b.stamps.contains_key(
        p,
    ) by {
        assert(evidence.content_ids.contains_key(p));
    }
    let c = evidence.with_stamps(kept);
    assert forall|p: Seq<char>| #[trigger] c.versions.contains_key(p) implies c.usable_version(
        p,
    ) is Some by {
        assert(evidence.versions.contains_key(p));
    }
}

} // verus!
