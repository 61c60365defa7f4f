//! The state of one session: the served root, the index it reads, and the
//! server it talks to.
use crate::json::{Json, JsonTree};
use crate::local_search::{index_problem, IndexFacts};
use crate::options::copy_texts;
use crate::output::{DisplayView, PathDisplay};
use crate::paths::{display_path, strip_prefix, with_slashes, without_verbatim_prefix};
use crate::rows::number_at;
use crate::snapshot::{text_result, Snapshot};
use crate::snapshot_diff::option_text;
use crate::text::{
    add_number, add_text, closes, decimal, ends_with, opens, owned, pieces, replace_char, replaced,
    same, split, starts_with, texts, trim, trimmed,
};
use vstd::prelude::*;

verus! {

/// How this process obtained the server its queries reach, if any.
#[derive(Clone, Copy, Debug, PartialEq, Eq, Structural)]
pub enum ServerOrigin {
    /// A server was already running for this index directory.
    External,
    /// This process started one on a background thread.
    Embedded,
    /// None was running and none was started.
    Absent,
}

impl ServerOrigin {
    /// The name under which the origin is reported.
    pub open spec fn name(self) -> Seq<char> {
        match self {
            ServerOrigin::External => "external"@,
            ServerOrigin::Embedded => "embedded"@,
            ServerOrigin::Absent => "none"@,
        }
    }

    fn as_str(self) -> (r: &'static str)
        ensures
            r@ == self.name(),
    {
        match self {
            ServerOrigin::External => "external",
            ServerOrigin::Embedded => "embedded",
            ServerOrigin::Absent => "none",
        }
    }
}

/// How a session is set up.
pub struct McpOptions {
    /// Start a server for the root when none is running.
    pub auto_index: bool,
    pub exclude_dirs: Vec<String>,
    pub no_ignore: bool,
    pub no_require_git: bool,
    pub max_file_size: Option<u64>,
    pub memory_cap_bytes: u64,
    pub index_threads: usize,
}

/// The state of a session.
pub struct McpState {
    pub root: String,
    /// What stands between the components of the platform's paths, besides
    /// the slash.
    pub separator: char,
    pub index_path: Option<String>,
    pub index_dir: String,
    pub opts: McpOptions,
    pub origin: ServerOrigin,
    /// Why the embedded server stopped, once it has.
    pub server_error: Option<String>,
}

#[derive(Clone, Copy, Debug, PartialEq, Eq, Structural)]
pub enum IndexReadiness {
    /// Queries use the trigram index.
    Indexed,
    /// The initial build is still running; queries scan.
    Building,
    /// No usable index; queries scan every file.
    Scanning,
}

impl IndexReadiness {
    /// The name under which readiness is reported.
    pub open spec fn name(self) -> Seq<char> {
        match self {
            IndexReadiness::Indexed => "indexed"@,
            IndexReadiness::Building => "building"@,
            IndexReadiness::Scanning => "scanning"@,
        }
    }

    /// The name under which readiness is reported.
    pub fn as_str(self) -> (r: &'static str)
        ensures
            r@ == self.name(),
    {
        match self {
            IndexReadiness::Indexed => "indexed",
            IndexReadiness::Building => "building",
            IndexReadiness::Scanning => "scanning",
        }
    }
}

/// What a query issued right now would read, and how fresh that is.
pub struct IndexStatus {
    pub readiness: IndexReadiness,
    pub origin: ServerOrigin,
    pub note: Option<String>,
    pub server: Option<Json>,
    pub index_updated_at: Option<u64>,
    pub server_error: Option<String>,
}

/// What an [`IndexStatus`] says.
pub struct IndexStatusView {
    pub readiness: IndexReadiness,
    pub origin: ServerOrigin,
    pub note: Option<Seq<char>>,
    pub server: Option<JsonTree>,
    pub index_updated_at: Option<u64>,
    pub server_error: Option<Seq<char>>,
}

impl View for IndexStatus {
    type V = IndexStatusView;

    open spec fn view(&self) -> IndexStatusView {
        IndexStatusView {
            readiness: self.readiness,
            origin: self.origin,
            note: option_text(self.note),
            server: match self.server {
                Some(json) => Some(json@),
                None => None,
            },
            index_updated_at: self.index_updated_at,
            server_error: option_text(self.server_error),
        }
    }
}

/// What the metadata of an index on disk says of its coverage.
#[derive(Clone, Copy, Debug, PartialEq, Eq, Structural)]
pub struct MetaCoverage {
    pub complete: bool,
    pub hidden_complete: bool,
    /// It was written in the format of this build.
    pub current_format: bool,
    pub updated_at: u64,
}

impl MetaCoverage {
    /// Whether a query can be answered from the index.
    pub open spec fn answers(self) -> bool {
        self.complete && self.hidden_complete && self.current_format
    }
}

/// How ready the index of a server is, by what the server says.
pub open spec fn server_readiness(server: JsonTree) -> IndexReadiness {
    if server.field_bool("indexing"@) == Some(true) {
        IndexReadiness::Building
    } else if server.field_bool("hidden_complete"@) == Some(true) {
        IndexReadiness::Indexed
    } else {
        IndexReadiness::Scanning
    }
}

/// What is noted of a server's index.
pub open spec fn server_note(server: JsonTree) -> Option<Seq<char>> {
    let total = number_at(server, "index_total"@);
    match server_readiness(server) {
        IndexReadiness::Building => if total == 0 {
            Some("initial index build starting; queries scan the tree until it completes"@)
        } else {
            Some(
                "initial index "@ + decimal(number_at(server, "index_progress"@) as nat) + "/"@
                    + decimal(total as nat)
                    + " files; queries scan the tree until it completes"@,
            )
        },
        IndexReadiness::Scanning => Some(
            "server is up but has not published complete file coverage yet; queries scan"@,
        ),
        IndexReadiness::Indexed => None,
    }
}

/// The status of a session's index: what its server says, or where there is
/// none, what the index on disk says.
pub open spec fn status_of(
    server: Option<JsonTree>,
    meta: Option<MetaCoverage>,
    origin: ServerOrigin,
    index_dir: Seq<char>,
    server_error: Option<Seq<char>>,
) -> IndexStatusView {
    match server {
        Some(reply) => IndexStatusView {
            readiness: server_readiness(reply),
            origin,
            note: server_note(reply),
            server: Some(reply),
            index_updated_at: None,
            server_error,
        },
        None => match meta {
            Some(m) => if m.answers() {
                IndexStatusView {
                    readiness: IndexReadiness::Indexed,
                    origin,
                    note: Some(
                        "no server running; answering from the on-disk index, which is a snapshot of its last build"@,
                    ),
                    server: None,
                    index_updated_at: Some(m.updated_at),
                    server_error,
                }
            } else {
                IndexStatusView {
                    readiness: IndexReadiness::Scanning,
                    origin,
                    note: Some(
                        "on-disk index is incomplete or predates hidden-file coverage; queries scan"@,
                    ),
                    server: None,
                    index_updated_at: Some(m.updated_at),
                    server_error,
                }
            },
            None => IndexStatusView {
                readiness: IndexReadiness::Scanning,
                origin,
                note: Some(
                    "no index at "@ + without_verbatim_prefix(index_dir)
                        + "; queries scan every file"@,
                ),
                server: None,
                index_updated_at: None,
                server_error,
            },
        },
    }
}

/// The summary that every answer carries.
pub open spec fn summary_map(s: IndexStatusView) -> Map<Seq<char>, JsonTree> {
    let plain = Map::<Seq<char>, JsonTree>::empty().insert(
        "state"@,
        JsonTree::Text(s.readiness.name()),
    ).insert("server"@, JsonTree::Text(s.origin.name()));
    let noted = match s.note {
        Some(note) => plain.insert("note"@, JsonTree::Text(note)),
        None => plain,
    };
    match s.server_error {
        Some(error) => noted.insert("server_error"@, JsonTree::Text(error)),
        None => noted,
    }
}

impl IndexStatus {
    /// The summary that every answer carries, so that a caller always knows
    /// whether it read an index or the files themselves.
    pub fn summary(&self) -> (r: Json)
        ensures
            r@ == JsonTree::Object(summary_map(self@)),
    {
        let plain = Json::object().put("state", Json::text(self.readiness.as_str())).put(
            "server",
            Json::text(self.origin.as_str()),
        );
        let noted = match &self.note {
            Some(note) => plain.put("note", Json::text(note.as_str())),
            None => plain,
        };
        match &self.server_error {
            Some(error) => noted.put("server_error", Json::text(error.as_str())),
            None => noted,
        }
    }
}

fn copy_error(error: &Option<String>) -> (r: Option<String>)
    ensures
        option_text(r) == option_text(*error),
{
    match error {
        Some(s) => Some(s.clone()),
        None => None,
    }
}

fn note_server(server: &Json) -> (r: (IndexReadiness, Option<String>))
    ensures
        r.0 == server_readiness(server@),
        option_text(r.1) == server_note(server@),
{
    let indexing = match server.get_bool("indexing") {
        Some(b) => b,
        None => false,
    };
    let hidden_complete = match server.get_bool("hidden_complete") {
        Some(b) => b,
        None => false,
    };
    if indexing {
        let total: u64 = match server.get_u64("index_total") {
            Some(n) => n,
            None => 0,
        };
        if total == 0 {
            return (
                IndexReadiness::Building,
                Some(
                    owned("initial index build starting; queries scan the tree until it completes"),
                ),
            );
        }
        let progress: u64 = match server.get_u64("index_progress") {
            Some(n) => n,
            None => 0,
        };
        let mut note = owned("initial index ");
        add_number(&mut note, progress);
        add_text(&mut note, "/");
        add_number(&mut note, total);
        add_text(&mut note, " files; queries scan the tree until it completes");
        (IndexReadiness::Building, Some(note))
    } else if hidden_complete {
        (IndexReadiness::Indexed, None)
    } else {
        (
            IndexReadiness::Scanning,
            Some(
                owned(
                    "server is up but has not published complete file coverage yet; queries scan",
                ),
            ),
        )
    }
}

/// What becomes of the search for a server when a session starts.
#[derive(Clone, Copy, Debug, PartialEq, Eq, Structural)]
pub enum StartAction {
    /// Use the server that is running.
    Adopt,
    /// Start one.
    Spawn,
    /// Do without.
    Nothing,
}

/// Whether a path with slashes is another or lies below it.
pub open spec fn is_within(path: Seq<char>, root: Seq<char>) -> bool {
    path == root || opens(path, below(root))
}

/// Whether a path of the platform is another or lies below it.
pub open spec fn lies_within(path: Seq<char>, root: Seq<char>, separator: char) -> bool {
    is_within(with_slashes(path, separator), with_slashes(root, separator))
}

/// What the paths below a directory start with.
pub open spec fn below(root: Seq<char>) -> Seq<char> {
    if closes(root, "/"@) {
        root
    } else {
        root + "/"@
    }
}

/// What a path is relative to a directory it lies in.
pub open spec fn relative_to(path: Seq<char>, root: Seq<char>) -> Seq<char> {
    if path == root {
        Seq::empty()
    } else {
        path.skip(below(root).len() as int)
    }
}

/// The path that a request names: nothing for the whole root.
pub open spec fn requested_path(requested: Option<Seq<char>>) -> Option<Seq<char>> {
    match requested {
        Some(p) => if trimmed(p).len() == 0 {
            None
        } else {
            Some(trimmed(p))
        },
        None => None,
    }
}

/// Where a request's path leads, or why it is refused: it cannot be opened, or
/// it resolves outside the root. `resolved` is the path once links and `..`
/// are resolved.
pub open spec fn scope_result(
    root: Seq<char>,
    separator: char,
    requested: Option<Seq<char>>,
    resolved: Result<Seq<char>, Seq<char>>,
) -> Result<Seq<char>, Seq<char>> {
    match requested_path(requested) {
        None => Ok(root),
        Some(asked) => match resolved {
            Err(e) => Err("cannot open path `"@ + asked + "`: "@ + e),
            Ok(path) => if lies_within(path, root, separator) {
                Ok(path)
            } else {
                Err("path `"@ + asked + "` resolves outside the server root"@)
            },
        },
    }
}

fn within(path: &str, root: &str) -> (r: bool)
    ensures
        r == is_within(path@, root@),
{
    if same(path, root) {
        return true;
    }
    let mut prefix = owned(root);
    if !ends_with(root, "/") {
        add_text(&mut prefix, "/");
    }
    starts_with(path, prefix.as_str())
}

fn stays_within(path: &str, root: &str, separator: char) -> (r: bool)
    ensures
        r == lies_within(path@, root@, separator),
{
    let path = replace_char(path, separator, '/');
    let root = replace_char(root, separator, '/');
    within(path.as_str(), root.as_str())
}

impl McpState {
    /// Sets a session up. `root` is the served directory once links are
    /// resolved, or why it cannot be; `given` is how it was named, and
    /// `separator` is what the platform separates the components of a path by.
    pub fn new(
        given: &str,
        root: Result<String, String>,
        is_dir: bool,
        separator: char,
        index_path: Option<String>,
        default_index_dir: String,
        opts: McpOptions,
    ) -> (r: Result<McpState, String>)
        ensures
            match root {
                Err(e) => r matches Err(m) && m@ == "cannot open root "@ + given@ + ": "@ + e@,
                Ok(path) => if !is_dir {
                    r matches Err(m) && m@ == "root "@ + path@ + " is not a directory"@
                } else {
                    r matches Ok(s) && s.root@ == path@ && s.separator == separator && s.index_path
                        == index_path && s.opts == opts && s.origin == ServerOrigin::Absent && s.server_error is None
                        && s.index_dir@ == (match index_path {
                        Some(p) => p@,
                        None => default_index_dir@,
                    })
                },
            },
    {
        let path = match root {
            Ok(path) => path,
            Err(e) => {
                let mut m = owned("cannot open root ");
                add_text(&mut m, given);
                add_text(&mut m, ": ");
                add_text(&mut m, e.as_str());
                return Err(m);
            },
        };
        if !is_dir {
            let mut m = owned("root ");
            add_text(&mut m, path.as_str());
            add_text(&mut m, " is not a directory");
            return Err(m);
        }
        let index_dir = match &index_path {
            Some(p) => p.clone(),
            None => default_index_dir,
        };
        Ok(
            McpState {
                root: path,
                separator,
                index_path,
                index_dir,
                opts,
                origin: ServerOrigin::Absent,
                server_error: None,
            },
        )
    }

    /// The index path that was given, if one was.
    pub fn index_path_arg(&self) -> (r: Option<&str>)
        ensures
            option_text(self.index_path) == (match r {
                Some(p) => Some(p@),
                None => None,
            }),
    {
        match &self.index_path {
            Some(p) => Some(p.as_str()),
            None => None,
        }
    }

    /// What becomes of the search for a server: one that is reachable is
    /// adopted, otherwise one is started where that is asked for. Startup never
    /// fails the session.
    pub fn start_action(&self, reachable: bool) -> (r: StartAction)
        ensures
            r == start_of(reachable, self.opts.auto_index),
            r == (if reachable {
                StartAction::Adopt
            } else if self.opts.auto_index {
                StartAction::Spawn
            } else {
                StartAction::Nothing
            }),
    {
        if reachable {
            StartAction::Adopt
        } else if self.opts.auto_index {
            StartAction::Spawn
        } else {
            StartAction::Nothing
        }
    }

    /// Where a request's path leads. The containment check is on the resolved
    /// path, which is what makes it hold: a test on the literal path passes for
    /// `..` and for a link that points out of the tree.
    pub fn resolve_scope(&self, requested: Option<&str>, resolved: Result<String, String>) -> (r:
        Result<String, String>)
        ensures
            text_result(r) == scope_result(
                self.root@,
                self.separator,
                match requested {
                    Some(p) => Some(p@),
                    None => None,
                },
                text_result(resolved),
            ),
            r matches Ok(path) ==> lies_within(path@, self.root@, self.separator),
    {
        let asked = match requested {
            Some(p) => trim(p),
            None => return Ok(self.root.clone()),
        };
        if asked.as_str().is_empty() {
            return Ok(self.root.clone());
        }
        match resolved {
            Err(e) => {
                let mut m = owned("cannot open path `");
                add_text(&mut m, asked.as_str());
                add_text(&mut m, "`: ");
                add_text(&mut m, e.as_str());
                Err(m)
            },
            Ok(path) => if stays_within(path.as_str(), self.root.as_str(), self.separator) {
                Ok(path)
            } else {
                let mut m = owned("path `");
                add_text(&mut m, asked.as_str());
                add_text(&mut m, "` resolves outside the server root");
                Err(m)
            },
        }
    }

    /// What a query issued right now would read. `server` is what a running
    /// server says of itself, `meta` what the index on disk says.
    pub fn index_status(&self, server: Option<Json>, meta: Option<MetaCoverage>) -> (r: IndexStatus)
        ensures
            r@ == status_of(
                match server {
                    Some(json) => Some(json@),
                    None => None,
                },
                meta,
                self.origin,
                self.index_dir@,
                option_text(self.server_error),
            ),
    {
        let server_error = copy_error(&self.server_error);
        let origin = self.origin;
        if let Some(reply) = server {
            let (readiness, note) = note_server(&reply);
            return IndexStatus {
                readiness,
                origin,
                note,
                server: Some(reply),
                index_updated_at: None,
                server_error,
            };
        }
        match meta {
            Some(m) => {
                let (readiness, note) = if m.complete && m.hidden_complete && m.current_format {
                    (
                        IndexReadiness::Indexed,
                        "no server running; answering from the on-disk index, which is a snapshot of its last build",
                    )
                } else {
                    (
                        IndexReadiness::Scanning,
                        "on-disk index is incomplete or predates hidden-file coverage; queries scan",
                    )
                };
                IndexStatus {
                    readiness,
                    origin,
                    note: Some(owned(note)),
                    server: None,
                    index_updated_at: Some(m.updated_at),
                    server_error,
                }
            },
            None => {
                let mut note = owned("no index at ");
                let dir = display_path(self.index_dir.as_str());
                add_text(&mut note, dir.as_str());
                add_text(&mut note, "; queries scan every file");
                IndexStatus {
                    readiness: IndexReadiness::Scanning,
                    origin,
                    note: Some(note),
                    server: None,
                    index_updated_at: None,
                    server_error,
                }
            },
        }
    }

    /// How the paths below a request's path are shown: relative to the served
    /// root, whatever part of it was searched.
    pub fn scope_display(&self, path: &str, is_file: bool) -> (r: PathDisplay)
        ensures
            r@ == display_of(
                with_slashes(self.root@, self.separator),
                with_slashes(path@, self.separator),
                is_file,
            ),
    {
        let path = replace_char(path, self.separator, '/');
        let root = replace_char(self.root.as_str(), self.separator, '/');
        if same(path.as_str(), root.as_str()) || !within(path.as_str(), root.as_str()) {
            return PathDisplay::Bare;
        }
        let mut prefix = owned(root.as_str());
        if !ends_with(root.as_str(), "/") {
            add_text(&mut prefix, "/");
        }
        let rel = match strip_prefix(path.as_str(), prefix.as_str()) {
            Some(rel) => rel,
            None => return PathDisplay::Bare,
        };
        let mut shown = replace_char(rel.as_str(), '\\', '/');
        if is_file {
            PathDisplay::Exact(shown)
        } else {
            add_text(&mut shown, "/");
            PathDisplay::Prefix(shown)
        }
    }
}

/// How the paths below a path are shown, of paths with slashes.
pub open spec fn display_of(root: Seq<char>, path: Seq<char>, is_file: bool) -> DisplayView {
    if path == root || !is_within(path, root) {
        DisplayView::Bare
    } else {
        let rel = replaced(relative_to(path, root), '\\', '/');
        if is_file {
            DisplayView::Exact(rel)
        } else {
            DisplayView::Prefix(rel + "/"@)
        }
    }
}

/// Whether an index is being built by a server: one that says so, or one that
/// this process started and that has neither answered nor failed.
pub open spec fn is_being_built(s: IndexStatusView) -> bool {
    s.readiness == IndexReadiness::Building || (s.readiness == IndexReadiness::Scanning && s.origin
        == ServerOrigin::Embedded && s.server is None && s.server_error is None)
}

/// Whether a query of the whole root is refused rather than scan it: while an
/// index is being built, unless scanning was allowed. A query of a part is
/// never refused, nor any where nothing builds an index.
pub open spec fn is_refused(s: IndexStatusView, whole_root: bool, allow_scan: bool) -> bool {
    is_being_built(s) && whole_root && !allow_scan
}

/// The part of a note before its semicolon.
pub open spec fn note_head(note: Option<Seq<char>>) -> Seq<char> {
    match note {
        Some(note) => pieces(note, ';')[0],
        None => Seq::empty(),
    }
}

/// What a refused query is answered.
pub open spec fn refusal_text(s: IndexStatusView) -> Seq<char> {
    "the index is not ready ("@ + s.readiness.name() + (if note_head(s.note).len() > 0 {
        ": "@ + note_head(s.note)
    } else {
        Seq::empty()
    }) + "), and scanning the whole repository would read every file in it. Wait with index_status {\"wait_seconds\": 60}, narrow the query with `path`, or pass allow_scan=true to scan anyway."@
}

/// What the wait for an index comes to.
#[derive(Clone, Copy, Debug, PartialEq, Eq, Structural)]
pub enum WaitStep {
    /// It is over.
    Done,
    /// Look again after so many milliseconds.
    Again(u64),
}

/// The pause between two looks at an index, in milliseconds.
pub const POLL_MS: u64 = 100;

impl IndexStatus {
    /// Whether an index is being built by a server.
    pub fn being_built(&self) -> (r: bool)
        ensures
            r == is_being_built(self@),
    {
        self.readiness == IndexReadiness::Building || (self.readiness == IndexReadiness::Scanning
            && self.origin == ServerOrigin::Embedded && self.server.is_none()
            && self.server_error.is_none())
    }

    /// Whether a query of the whole root is refused, and with what answer.
    pub fn refusal(&self, whole_root: bool, allow_scan: bool) -> (r: Option<String>)
        ensures
            option_text(r) == (if is_refused(self@, whole_root, allow_scan) {
                Some(refusal_text(self@))
            } else {
                None
            }),
    {
        if !(self.being_built() && whole_root && !allow_scan) {
            return None;
        }
        let mut out = owned("the index is not ready (");
        add_text(&mut out, self.readiness.as_str());
        let mut reason = String::new();
        assert(reason@ =~= Seq::<char>::empty());
        if let Some(note) = &self.note {
            let parts = split(note.as_str(), ';');
            proof {
                crate::text::lemma_pieces_nonempty(note@, ';');
                assert(parts@.map_values(|p: String| p@)[0] == parts@[0]@);
            }
            if !parts[0].as_str().is_empty() {
                reason = owned(": ");
                add_text(&mut reason, parts[0].as_str());
            }
        }
        add_text(&mut out, reason.as_str());
        add_text(
            &mut out,
            "), and scanning the whole repository would read every file in it. Wait with index_status {\"wait_seconds\": 60}, narrow the query with `path`, or pass allow_scan=true to scan anyway.",
        );
        Some(out)
    }

    /// What the wait for an index comes to: it is over once the index is ready,
    /// once nothing is building it, or once the time is up.
    pub fn await_ready(&self, waited_ms: u64, limit_ms: u64) -> (r: WaitStep)
        ensures
            r == wait_step(self@, waited_ms, limit_ms),
            r == (if !is_being_built(self@) || waited_ms >= limit_ms {
                WaitStep::Done
            } else if limit_ms - waited_ms < POLL_MS {
                WaitStep::Again((limit_ms - waited_ms) as u64)
            } else {
                WaitStep::Again(POLL_MS)
            }),
    {
        if !self.being_built() || waited_ms >= limit_ms {
            WaitStep::Done
        } else if limit_ms - waited_ms < POLL_MS {
            WaitStep::Again(limit_ms - waited_ms)
        } else {
            WaitStep::Again(POLL_MS)
        }
    }
}

/// How the tree is walked for a snapshot.
pub struct SnapshotWalk {
    pub exclude_dirs: Vec<String>,
    pub exclude_paths: Vec<String>,
    pub no_ignore: bool,
    pub no_require_git: bool,
    pub max_file_size: Option<u64>,
}

/// What a [`SnapshotWalk`] asks for.
pub struct SnapshotWalkView {
    pub exclude_dirs: Seq<Seq<char>>,
    pub exclude_paths: Seq<Seq<char>>,
    pub no_ignore: bool,
    pub no_require_git: bool,
    pub max_file_size: Option<u64>,
}

impl View for SnapshotWalk {
    type V = SnapshotWalkView;

    open spec fn view(&self) -> SnapshotWalkView {
        SnapshotWalkView {
            exclude_dirs: texts(self.exclude_dirs@),
            exclude_paths: texts(self.exclude_paths@),
            no_ignore: self.no_ignore,
            no_require_git: self.no_require_git,
            max_file_size: self.max_file_size,
        }
    }
}

impl McpState {
    /// How the tree is walked for a snapshot: by the rules of an index, without
    /// the index itself, and whatever a file weighs, since a snapshot describes
    /// the folder and not what can be searched.
    pub open spec fn walk_for(self, no_ignore: bool) -> SnapshotWalkView {
        SnapshotWalkView {
            exclude_dirs: texts(self.opts.exclude_dirs@),
            exclude_paths: seq![self.index_dir@],
            no_ignore: no_ignore || self.opts.no_ignore,
            no_require_git: self.opts.no_require_git,
            max_file_size: None,
        }
    }

    /// How the tree is walked for a snapshot.
    pub fn snapshot_walk(&self, no_ignore: bool) -> (r: SnapshotWalk)
        ensures
            r.no_ignore == (no_ignore || self.opts.no_ignore),
            r.max_file_size is None,
            texts(r.exclude_dirs@) == texts(self.opts.exclude_dirs@),
            texts(r.exclude_paths@) == seq![self.index_dir@],
            r.no_require_git == self.opts.no_require_git,
            r@ == self.walk_for(no_ignore),
    {
        let mut exclude_paths: Vec<String> = Vec::new();
        exclude_paths.push(self.index_dir.clone());
        assert(texts(exclude_paths@) =~= seq![self.index_dir@]);
        SnapshotWalk {
            exclude_dirs: copy_texts(&self.opts.exclude_dirs),
            exclude_paths,
            no_ignore: no_ignore || self.opts.no_ignore,
            no_require_git: self.opts.no_require_git,
            max_file_size: None,
        }
    }

    /// How the tree is walked to be compared with a snapshot: as it was walked
    /// for the snapshot, or files would seem to have come or gone.
    pub fn diff_walk(&self, base: &Snapshot) -> (r: SnapshotWalk)
        ensures
            r@ == self.walk_for(base@.no_ignore),
    {
        self.snapshot_walk(base.no_ignore)
    }
}

/// What is done for a server when a session starts.
pub open spec fn start_of(reachable: bool, auto_index: bool) -> StartAction {
    if reachable {
        StartAction::Adopt
    } else if auto_index {
        StartAction::Spawn
    } else {
        StartAction::Nothing
    }
}

/// Whether to wait for the index, and how long until it is looked at again.
pub open spec fn wait_step(s: IndexStatusView, waited_ms: u64, limit_ms: u64) -> WaitStep {
    if !is_being_built(s) || waited_ms >= limit_ms {
        WaitStep::Done
    } else if limit_ms - waited_ms < POLL_MS {
        WaitStep::Again((limit_ms - waited_ms) as u64)
    } else {
        WaitStep::Again(POLL_MS)
    }
}

/// An index on disk is said to answer only where a search would take it: it is
/// complete, covers hidden files and has the current format. Anything else is
/// said to be scanned.
pub proof fn law_only_indexes_that_answer_are_reported(
    meta: MetaCoverage,
    facts: IndexFacts,
    origin: ServerOrigin,
    index_dir: Seq<char>,
    server_error: Option<Seq<char>>,
)
    requires
        facts.complete == meta.complete,
        facts.hidden_complete == meta.hidden_complete,
        facts.current_format == meta.current_format,
    ensures
        ({
            let s = status_of(None, Some(meta), origin, index_dir, server_error);
            &&& s.readiness == IndexReadiness::Indexed <==> meta.answers()
            &&& s.readiness == IndexReadiness::Scanning <==> !meta.answers()
            &&& s.index_updated_at == Some(meta.updated_at)
            &&& index_problem(Ok(facts)) is None ==> s.readiness == IndexReadiness::Indexed
            &&& s.readiness == IndexReadiness::Scanning ==> index_problem(Ok(facts)) is Some
        }),
{
}

/// No query is refused that is of a part of the root, that allows scanning, or
/// that is issued where no server is there to build an index.
pub proof fn law_refusal_is_only_of_whole_scans_during_a_build(
    s: IndexStatusView,
    whole_root: bool,
    allow_scan: bool,
)
    ensures
        !whole_root ==> !is_refused(s, whole_root, allow_scan),
        allow_scan ==> !is_refused(s, whole_root, allow_scan),
        s.readiness == IndexReadiness::Indexed ==> !is_refused(s, whole_root, allow_scan),
        s.server is None && s.origin != ServerOrigin::Embedded && s.readiness
            != IndexReadiness::Building ==> !is_refused(s, whole_root, allow_scan),
{
}

/// A request's path never leads outside the root, whatever it is and however
/// it resolves.
pub proof fn law_scopes_stay_in_the_root(
    root: Seq<char>,
    separator: char,
    requested: Option<Seq<char>>,
    resolved: Result<Seq<char>, Seq<char>>,
)
    ensures
        scope_result(root, separator, requested, resolved) matches Ok(path) ==> lies_within(
            path,
            root,
            separator,
        ),
{
}

} // verus!
