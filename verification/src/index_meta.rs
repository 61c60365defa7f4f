//! What an index says of itself.
use crate::evidence_file::json_view;
use crate::json::{Json, JsonTree};
use crate::meta::FileTableId;
use crate::text::owned;
use vstd::prelude::*;

verus! {

/// What an index says of itself.
pub struct IndexMeta {
    pub version: u32,
    pub num_files: u64,
    pub num_trigrams: u64,
    pub created_at: u64,
    pub updated_at: u64,
    pub root_path: String,
    /// Whether the index covers the whole tree; an index whose build was
    /// stopped does not.
    pub complete: bool,
    /// Proven coverage of otherwise eligible hidden files. Neither `complete`
    /// alone nor a partial build proves it.
    pub hidden_complete: bool,
    /// How the paths are visible, as data.
    pub visibility: Json,
    /// Binds the visibility to the exact path table.
    pub file_table_id: Option<FileTableId>,
}

/// What an [`IndexMeta`] says.
pub struct IndexMetaView {
    pub version: u32,
    pub num_files: u64,
    pub num_trigrams: u64,
    pub created_at: u64,
    pub updated_at: u64,
    pub root_path: Seq<char>,
    pub complete: bool,
    pub hidden_complete: bool,
    pub visibility: JsonTree,
    pub file_table_id: Option<Seq<u8>>,
}

/// The bytes of an identity that may be missing.
pub open spec fn table_id_view(id: Option<FileTableId>) -> Option<Seq<u8>> {
    match id {
        Some(id) => Some(id@),
        None => None,
    }
}

impl View for IndexMeta {
    type V = IndexMetaView;

    open spec fn view(&self) -> IndexMetaView {
        IndexMetaView {
            version: self.version,
            num_files: self.num_files,
            num_trigrams: self.num_trigrams,
            created_at: self.created_at,
            updated_at: self.updated_at,
            root_path: self.root_path@,
            complete: self.complete,
            hidden_complete: self.hidden_complete,
            visibility: self.visibility@,
            file_table_id: table_id_view(self.file_table_id),
        }
    }
}

/// Metadata as it is stored. The fields from `complete` on may be missing.
pub struct StoredMeta {
    pub version: u32,
    pub num_files: u64,
    pub num_trigrams: u64,
    pub created_at: u64,
    pub updated_at: u64,
    pub root_path: String,
    pub complete: Option<bool>,
    pub hidden_complete: Option<bool>,
    pub visibility: Option<Json>,
    pub file_table_id: Option<FileTableId>,
}

/// What a [`StoredMeta`] holds.
pub struct StoredMetaView {
    pub version: u32,
    pub num_files: u64,
    pub num_trigrams: u64,
    pub created_at: u64,
    pub updated_at: u64,
    pub root_path: Seq<char>,
    pub complete: Option<bool>,
    pub hidden_complete: Option<bool>,
    pub visibility: Option<JsonTree>,
    pub file_table_id: Option<Seq<u8>>,
}

impl View for StoredMeta {
    type V = StoredMetaView;

    open spec fn view(&self) -> StoredMetaView {
        StoredMetaView {
            version: self.version,
            num_files: self.num_files,
            num_trigrams: self.num_trigrams,
            created_at: self.created_at,
            updated_at: self.updated_at,
            root_path: self.root_path@,
            complete: self.complete,
            hidden_complete: self.hidden_complete,
            visibility: json_view(self.visibility),
            file_table_id: table_id_view(self.file_table_id),
        }
    }
}

/// The metadata that is stored: nothing is missing.
pub open spec fn stored_meta(m: IndexMetaView) -> StoredMetaView {
    StoredMetaView {
        version: m.version,
        num_files: m.num_files,
        num_trigrams: m.num_trigrams,
        created_at: m.created_at,
        updated_at: m.updated_at,
        root_path: m.root_path,
        complete: Some(m.complete),
        hidden_complete: Some(m.hidden_complete),
        visibility: Some(m.visibility),
        file_table_id: m.file_table_id,
    }
}

/// The metadata that is read. What does not speak of its coverage is of a
/// complete index, which proves nothing of hidden files; `unrecorded` is the
/// visibility where none is stored.
pub open spec fn read_meta(s: StoredMetaView, unrecorded: JsonTree) -> IndexMetaView {
    IndexMetaView {
        version: s.version,
        num_files: s.num_files,
        num_trigrams: s.num_trigrams,
        created_at: s.created_at,
        updated_at: s.updated_at,
        root_path: s.root_path,
        complete: s.complete != Some(false),
        hidden_complete: s.hidden_complete == Some(true),
        visibility: match s.visibility {
            Some(v) => v,
            None => unrecorded,
        },
        file_table_id: s.file_table_id,
    }
}

/// Why metadata could not be loaded.
pub enum LoadError {
    /// There is no index in this directory.
    IndexNotFound(String),
    /// What is stored could not be read, and why.
    Unreadable(String),
}

impl IndexMeta {
    /// The metadata of a new and complete index, written in a format version at
    /// a time, with a visibility in which nothing is recorded.
    pub fn new(
        root_path: &str,
        num_files: u64,
        num_trigrams: u64,
        version: u32,
        now: u64,
        unrecorded: Json,
    ) -> (r: IndexMeta)
        ensures
            r@ == (IndexMetaView {
                version,
                num_files,
                num_trigrams,
                created_at: now,
                updated_at: now,
                root_path: root_path@,
                complete: true,
                hidden_complete: false,
                visibility: unrecorded@,
                file_table_id: None,
            }),
    {
        IndexMeta {
            version,
            num_files,
            num_trigrams,
            created_at: now,
            updated_at: now,
            root_path: owned(root_path),
            complete: true,
            hidden_complete: false,
            visibility: unrecorded,
            file_table_id: None,
        }
    }

    /// What is stored of the metadata.
    pub fn save(&self) -> (r: StoredMeta)
        ensures
            r@ == stored_meta(self@),
    {
        StoredMeta {
            version: self.version,
            num_files: self.num_files,
            num_trigrams: self.num_trigrams,
            created_at: self.created_at,
            updated_at: self.updated_at,
            root_path: owned(self.root_path.as_str()),
            complete: Some(self.complete),
            hidden_complete: Some(self.hidden_complete),
            visibility: Some(self.visibility.copy()),
            file_table_id: self.file_table_id,
        }
    }

    /// Loads metadata from what an index directory was found to store; a
    /// directory that stores none holds no index.
    pub fn load(
        index_dir: &str,
        found: Option<Result<StoredMeta, String>>,
        unrecorded: Json,
    ) -> (r: Result<IndexMeta, LoadError>)
        ensures
            match found {
                None => r matches Err(LoadError::IndexNotFound(dir)) && dir@ == index_dir@,
                Some(Err(why)) => r matches Err(LoadError::Unreadable(m)) && m@ == why@,
                Some(Ok(stored)) => r matches Ok(m) && m@ == read_meta(stored@, unrecorded@),
            },
    {
        match found {
            None => Err(LoadError::IndexNotFound(owned(index_dir))),
            Some(Err(why)) => Err(LoadError::Unreadable(why)),
            Some(Ok(stored)) => Ok(
                IndexMeta {
                    version: stored.version,
                    num_files: stored.num_files,
                    num_trigrams: stored.num_trigrams,
                    created_at: stored.created_at,
                    updated_at: stored.updated_at,
                    root_path: stored.root_path,
                    complete: match stored.complete {
                        Some(complete) => complete,
                        None => true,
                    },
                    hidden_complete: match stored.hidden_complete {
                        Some(complete) => complete,
                        None => false,
                    },
                    visibility: match stored.visibility {
                        Some(v) => v,
                        None => unrecorded,
                    },
                    file_table_id: stored.file_table_id,
                },
            ),
        }
    }
}

/// Metadata that is stored and read again is what it was.
pub proof fn law_stored_meta_is_read_back(m: IndexMetaView, unrecorded: JsonTree)
    ensures
        read_meta(stored_meta(m), unrecorded) == m,
{
}

/// Metadata that says nothing of hidden files does not prove that they are
/// covered, however complete the index is.
pub proof fn law_silence_proves_no_hidden_coverage(s: StoredMetaView, unrecorded: JsonTree)
    requires
        s.hidden_complete is None,
    ensures
        !read_meta(s, unrecorded).hidden_complete,
{
}

} // verus!
