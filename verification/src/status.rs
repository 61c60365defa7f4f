//! The status of an index and of the server over it.
use crate::fields::{
    as_record, bool_field, bool_or, get_bool_or, get_boolean, get_text, get_unsigned,
    get_unsigned_or_zero, record, str_views, text_field, unsigned_field, unsigned_or_zero,
};
use crate::json::{Json, JsonTree};
use crate::snapshot::{age, age_text, seconds_between};
use crate::snapshot_diff::option_text;
use crate::text::{add_number, add_text, decimal, owned};
use vstd::prelude::*;

verus! {

/// A server's answer to a status request.
pub struct StatusResult {
    pub num_files: u64,
    pub num_trigrams: u64,
    pub cache_size: u64,
    pub cache_capacity: u64,
    pub watcher_active: bool,
    pub watch_mode_requested: Option<String>,
    pub watch_mode_active: Option<String>,
    pub watch_fallback_reason: Option<String>,
    pub watch_budget: Option<u64>,
    pub poll_interval_secs: Option<u64>,
    pub last_reconcile_at: Option<u64>,
    pub last_reconcile_duration_ms: Option<u64>,
    pub last_reconcile_error: Option<String>,
    pub reconcile_running: bool,
    pub reconcile_pending: Option<bool>,
    pub reconcile_overdue: Option<bool>,
    pub indexing: bool,
    pub index_progress: u64,
    pub index_total: u64,
    pub hidden_complete: Option<bool>,
}

/// What a [`StatusResult`] says.
pub struct StatusView {
    pub num_files: u64,
    pub num_trigrams: u64,
    pub cache_size: u64,
    pub cache_capacity: u64,
    pub watcher_active: bool,
    pub watch_mode_requested: Option<Seq<char>>,
    pub watch_mode_active: Option<Seq<char>>,
    pub watch_fallback_reason: Option<Seq<char>>,
    pub watch_budget: Option<u64>,
    pub poll_interval_secs: Option<u64>,
    pub last_reconcile_at: Option<u64>,
    pub last_reconcile_duration_ms: Option<u64>,
    pub last_reconcile_error: Option<Seq<char>>,
    pub reconcile_running: bool,
    pub reconcile_pending: Option<bool>,
    pub reconcile_overdue: Option<bool>,
    pub indexing: bool,
    pub index_progress: u64,
    pub index_total: u64,
    pub hidden_complete: Option<bool>,
}

impl View for StatusResult {
    type V = StatusView;

    open spec fn view(&self) -> StatusView {
        StatusView {
            num_files: self.num_files,
            num_trigrams: self.num_trigrams,
            cache_size: self.cache_size,
            cache_capacity: self.cache_capacity,
            watcher_active: self.watcher_active,
            watch_mode_requested: option_text(self.watch_mode_requested),
            watch_mode_active: option_text(self.watch_mode_active),
            watch_fallback_reason: option_text(self.watch_fallback_reason),
            watch_budget: self.watch_budget,
            poll_interval_secs: self.poll_interval_secs,
            last_reconcile_at: self.last_reconcile_at,
            last_reconcile_duration_ms: self.last_reconcile_duration_ms,
            last_reconcile_error: option_text(self.last_reconcile_error),
            reconcile_running: self.reconcile_running,
            reconcile_pending: self.reconcile_pending,
            reconcile_overdue: self.reconcile_overdue,
            indexing: self.indexing,
            index_progress: self.index_progress,
            index_total: self.index_total,
            hidden_complete: self.hidden_complete,
        }
    }
}

/// Whether every field of an answer that is there holds what it should, and
/// the fields that must be there are.
pub open spec fn is_status(tree: JsonTree) -> bool {
    &&& tree.field_unsigned("num_files"@) is Some
    &&& tree.field_unsigned("num_trigrams"@) is Some
    &&& tree.field_unsigned("cache_size"@) is Some
    &&& tree.field_unsigned("cache_capacity"@) is Some
    &&& tree.field_bool("watcher_active"@) is Some
    &&& text_field(tree, "watch_mode_requested"@) is Some
    &&& text_field(tree, "watch_mode_active"@) is Some
    &&& text_field(tree, "watch_fallback_reason"@) is Some
    &&& unsigned_field(tree, "watch_budget"@) is Some
    &&& unsigned_field(tree, "poll_interval_secs"@) is Some
    &&& unsigned_field(tree, "last_reconcile_at"@) is Some
    &&& unsigned_field(tree, "last_reconcile_duration_ms"@) is Some
    &&& text_field(tree, "last_reconcile_error"@) is Some
    &&& bool_or(tree, "reconcile_running"@, false) is Some
    &&& bool_field(tree, "reconcile_pending"@) is Some
    &&& bool_field(tree, "reconcile_overdue"@) is Some
    &&& bool_or(tree, "indexing"@, false) is Some
    &&& unsigned_or_zero(tree, "index_progress"@) is Some
    &&& unsigned_or_zero(tree, "index_total"@) is Some
    &&& bool_field(tree, "hidden_complete"@) is Some
}

/// The fields of an answer, in order.
pub open spec fn status_keys() -> Seq<Seq<char>> {
    seq![
        "num_files"@,
        "num_trigrams"@,
        "cache_size"@,
        "cache_capacity"@,
        "watcher_active"@,
        "watch_mode_requested"@,
        "watch_mode_active"@,
        "watch_fallback_reason"@,
        "watch_budget"@,
        "poll_interval_secs"@,
        "last_reconcile_at"@,
        "last_reconcile_duration_ms"@,
        "last_reconcile_error"@,
        "reconcile_running"@,
        "reconcile_pending"@,
        "reconcile_overdue"@,
        "indexing"@,
        "index_progress"@,
        "index_total"@,
        "hidden_complete"@,
    ]
}

/// What an answer says. Fields that an older server does not send are absent,
/// false or zero; fields that a newer one sends are ignored.
pub open spec fn parsed_status(answer: JsonTree) -> Option<StatusView> {
    let tree = record(answer, status_keys(), 20);
    if !is_status(tree) {
        None
    } else {
        Some(
            StatusView {
                num_files: tree.field_unsigned("num_files"@)->0,
                num_trigrams: tree.field_unsigned("num_trigrams"@)->0,
                cache_size: tree.field_unsigned("cache_size"@)->0,
                cache_capacity: tree.field_unsigned("cache_capacity"@)->0,
                watcher_active: tree.field_bool("watcher_active"@)->0,
                watch_mode_requested: text_field(tree, "watch_mode_requested"@)->0,
                watch_mode_active: text_field(tree, "watch_mode_active"@)->0,
                watch_fallback_reason: text_field(tree, "watch_fallback_reason"@)->0,
                watch_budget: unsigned_field(tree, "watch_budget"@)->0,
                poll_interval_secs: unsigned_field(tree, "poll_interval_secs"@)->0,
                last_reconcile_at: unsigned_field(tree, "last_reconcile_at"@)->0,
                last_reconcile_duration_ms: unsigned_field(
                    tree,
                    "last_reconcile_duration_ms"@,
                )->0,
                last_reconcile_error: text_field(tree, "last_reconcile_error"@)->0,
                reconcile_running: bool_or(tree, "reconcile_running"@, false)->0,
                reconcile_pending: bool_field(tree, "reconcile_pending"@)->0,
                reconcile_overdue: bool_field(tree, "reconcile_overdue"@)->0,
                indexing: bool_or(tree, "indexing"@, false)->0,
                index_progress: unsigned_or_zero(tree, "index_progress"@)->0,
                index_total: unsigned_or_zero(tree, "index_total"@)->0,
                hidden_complete: bool_field(tree, "hidden_complete"@)->0,
            },
        )
    }
}

/// The view of an answer that may be malformed.
pub open spec fn option_status(s: Option<StatusResult>) -> Option<StatusView> {
    match s {
        Some(s) => Some(s@),
        None => None,
    }
}

fn own(text: Option<&str>) -> (r: Option<String>)
    ensures
        option_text(r) == (match text {
            Some(s) => Some(s@),
            None => None,
        }),
{
    match text {
        Some(s) => Some(owned(s)),
        None => None,
    }
}

impl StatusResult {
    /// Reads a server's answer.
    pub fn from_json(json: &Json) -> (r: Option<StatusResult>)
        ensures
            option_status(r) == parsed_status(json@),
    {
        let keys: Vec<&str> = vec![
            "num_files",
            "num_trigrams",
            "cache_size",
            "cache_capacity",
            "watcher_active",
            "watch_mode_requested",
            "watch_mode_active",
            "watch_fallback_reason",
            "watch_budget",
            "poll_interval_secs",
            "last_reconcile_at",
            "last_reconcile_duration_ms",
            "last_reconcile_error",
            "reconcile_running",
            "reconcile_pending",
            "reconcile_overdue",
            "indexing",
            "index_progress",
            "index_total",
            "hidden_complete",
        ];
        assert(str_views(keys@) =~= status_keys());
        let answer = as_record(json, &keys, 20);
        let json = &answer;
        let num_files: u64 = json.get_u64("num_files")?;
        let num_trigrams: u64 = json.get_u64("num_trigrams")?;
        let cache_size: u64 = json.get_u64("cache_size")?;
        let cache_capacity: u64 = json.get_u64("cache_capacity")?;
        let watcher_active = json.get_bool("watcher_active")?;
        let watch_mode_requested = own(get_text(json, "watch_mode_requested")?);
        let watch_mode_active = own(get_text(json, "watch_mode_active")?);
        let watch_fallback_reason = own(get_text(json, "watch_fallback_reason")?);
        let watch_budget = get_unsigned(json, "watch_budget")?;
        let poll_interval_secs = get_unsigned(json, "poll_interval_secs")?;
        let last_reconcile_at = get_unsigned(json, "last_reconcile_at")?;
        let last_reconcile_duration_ms = get_unsigned(json, "last_reconcile_duration_ms")?;
        let last_reconcile_error = own(get_text(json, "last_reconcile_error")?);
        let reconcile_running = get_bool_or(json, "reconcile_running", false)?;
        let reconcile_pending = get_boolean(json, "reconcile_pending")?;
        let reconcile_overdue = get_boolean(json, "reconcile_overdue")?;
        let indexing = get_bool_or(json, "indexing", false)?;
        let index_progress: u64 = get_unsigned_or_zero(json, "index_progress")?;
        let index_total: u64 = get_unsigned_or_zero(json, "index_total")?;
        let hidden_complete = get_boolean(json, "hidden_complete")?;
        Some(
            StatusResult {
                num_files,
                num_trigrams,
                cache_size,
                cache_capacity,
                watcher_active,
                watch_mode_requested,
                watch_mode_active,
                watch_fallback_reason,
                watch_budget,
                poll_interval_secs,
                last_reconcile_at,
                last_reconcile_duration_ms,
                last_reconcile_error,
                reconcile_running,
                reconcile_pending,
                reconcile_overdue,
                indexing,
                index_progress,
                index_total,
                hidden_complete,
            },
        )
    }
}

/// How much of the hidden corpus an index covers, as printed.
pub open spec fn coverage_text(complete: bool) -> Seq<char> {
    if complete {
        "complete"@
    } else {
        "unavailable (queries scan)"@
    }
}

/// How much of the hidden corpus an index covers, as printed.
pub fn coverage_label(complete: bool) -> (label: &'static str)
    ensures
        label@ == coverage_text(complete),
{
    if complete {
        "complete"
    } else {
        "unavailable (queries scan)"
    }
}

/// How long before `now` a time was.
pub fn format_timestamp(ts: u64, now: u64) -> (r: String)
    ensures
        r@ == age_text(seconds_between(ts, now)),
{
    age(ts, now)
}

/// A line that is there only with a value.
pub open spec fn text_line(label: Seq<char>, value: Option<Seq<char>>) -> Seq<char> {
    match value {
        Some(value) => label + value + "\n"@,
        None => Seq::empty(),
    }
}

/// A line that is there only with a number.
pub open spec fn number_line(label: Seq<char>, value: Option<u64>, unit: Seq<char>) -> Seq<char> {
    match value {
        Some(n) => label + decimal(n as nat) + unit + "\n"@,
        None => Seq::empty(),
    }
}

/// A line that is there only with an answer.
pub open spec fn answer_line(label: Seq<char>, value: Option<bool>) -> Seq<char> {
    match value {
        Some(true) => label + "yes"@ + "\n"@,
        Some(false) => label + "no"@ + "\n"@,
        None => Seq::empty(),
    }
}

/// The line on how changes are watched for.
pub open spec fn mode_line(active: Option<Seq<char>>, requested: Option<Seq<char>>) -> Seq<char> {
    match active {
        Some(mode) => "  Watch mode: "@ + mode + (match requested {
            Some(requested) => " (requested: "@ + requested + ")"@,
            None => Seq::empty(),
        }) + "\n"@,
        None => text_line("  Requested:  "@, requested),
    }
}

/// The lines on the state of reconciliation.
pub open spec fn reconcile_lines(s: StatusView) -> Seq<char> {
    if s.watch_mode_active is Some || s.watch_mode_requested is Some || s.reconcile_running {
        "  Reconcile:  "@ + (if s.reconcile_running {
            "running"@
        } else {
            "idle"@
        }) + "\n"@ + (if s.last_reconcile_at is None {
            "  Last successful reconcile: never\n"@
        } else {
            Seq::empty()
        })
    } else {
        Seq::empty()
    }
}

/// The time of the last reconciliation, as printed.
pub open spec fn reconciled_ago(s: StatusView, now: u64) -> Option<Seq<char>> {
    match s.last_reconcile_at {
        Some(ts) => Some(age_text(seconds_between(ts, now))),
        None => None,
    }
}

/// How an index is kept fresh, as printed. A server that says nothing of it
/// gets no line.
pub open spec fn refresh_text(s: StatusView, now: u64) -> Seq<char> {
    mode_line(s.watch_mode_active, s.watch_mode_requested) + text_line(
        "  Fallback:   "@,
        s.watch_fallback_reason,
    ) + number_line("  Watch budget: "@, s.watch_budget, Seq::empty()) + number_line(
        "  Poll interval: "@,
        s.poll_interval_secs,
        "s (after completion)"@,
    ) + reconcile_lines(s) + text_line(
        "  Last successful reconcile: "@,
        reconciled_ago(s, now),
    ) + answer_line("  Reconcile pending: "@, s.reconcile_pending) + answer_line(
        "  Reconcile overdue: "@,
        s.reconcile_overdue,
    ) + number_line("  Last reconcile duration: "@, s.last_reconcile_duration_ms, "ms"@)
        + text_line("  Last reconcile error: "@, s.last_reconcile_error)
}

fn add_text_line(out: &mut String, label: &str, value: &Option<String>)
    ensures
        final(out)@ == old(out)@ + text_line(label@, option_text(*value)),
{
    let ghost start = out@;
    if let Some(value) = value {
        add_text(out, label);
        add_text(out, value.as_str());
        add_text(out, "\n");
    }
    assert(out@ =~= start + text_line(label@, option_text(*value)));
}

fn add_number_line(out: &mut String, label: &str, value: Option<u64>, unit: &str)
    ensures
        final(out)@ == old(out)@ + number_line(label@, value, unit@),
{
    let ghost start = out@;
    if let Some(n) = value {
        add_text(out, label);
        add_number(out, n);
        add_text(out, unit);
        add_text(out, "\n");
    }
    assert(out@ =~= start + number_line(label@, value, unit@));
}

fn add_answer_line(out: &mut String, label: &str, value: Option<bool>)
    ensures
        final(out)@ == old(out)@ + answer_line(label@, value),
{
    let ghost start = out@;
    if let Some(b) = value {
        add_text(out, label);
        add_text(
            out,
            if b {
                "yes"
            } else {
                "no"
            },
        );
        add_text(out, "\n");
    }
    assert(out@ =~= start + answer_line(label@, value));
}

fn mode_status(s: &StatusResult) -> (r: String)
    ensures
        r@ == mode_line(s@.watch_mode_active, s@.watch_mode_requested),
{
    let mut out = String::new();
    match &s.watch_mode_active {
        Some(mode) => {
            out = owned("  Watch mode: ");
            add_text(&mut out, mode.as_str());
            let mut asked = String::new();
            if let Some(requested) = &s.watch_mode_requested {
                asked = owned(" (requested: ");
                add_text(&mut asked, requested.as_str());
                add_text(&mut asked, ")");
            }
            add_text(&mut out, asked.as_str());
            add_text(&mut out, "\n");
        },
        None => {
            add_text_line(&mut out, "  Requested:  ", &s.watch_mode_requested);
            assert(out@ =~= text_line("  Requested:  "@, s@.watch_mode_requested));
        },
    }
    out
}

fn reconcile_status(s: &StatusResult) -> (r: String)
    ensures
        r@ == reconcile_lines(s@),
{
    let mut out = String::new();
    if s.watch_mode_active.is_some() || s.watch_mode_requested.is_some() || s.reconcile_running {
        out = owned("  Reconcile:  ");
        add_text(
            &mut out,
            if s.reconcile_running {
                "running"
            } else {
                "idle"
            },
        );
        add_text(&mut out, "\n");
        let mut never = String::new();
        if s.last_reconcile_at.is_none() {
            never = owned("  Last successful reconcile: never\n");
        }
        add_text(&mut out, never.as_str());
    }
    out
}

/// How an index is kept fresh, as printed.
pub fn write_refresh_status(s: &StatusResult, now: u64) -> (r: String)
    ensures
        r@ == refresh_text(s@, now),
{
    let mut out = mode_status(s);
    add_text_line(&mut out, "  Fallback:   ", &s.watch_fallback_reason);
    let empty = String::new();
    add_number_line(&mut out, "  Watch budget: ", s.watch_budget, empty.as_str());
    add_number_line(
        &mut out,
        "  Poll interval: ",
        s.poll_interval_secs,
        "s (after completion)",
    );
    let reconcile = reconcile_status(s);
    add_text(&mut out, reconcile.as_str());
    let ago = match s.last_reconcile_at {
        Some(ts) => Some(format_timestamp(ts, now)),
        None => None,
    };
    add_text_line(&mut out, "  Last successful reconcile: ", &ago);
    add_answer_line(&mut out, "  Reconcile pending: ", s.reconcile_pending);
    add_answer_line(&mut out, "  Reconcile overdue: ", s.reconcile_overdue);
    add_number_line(
        &mut out,
        "  Last reconcile duration: ",
        s.last_reconcile_duration_ms,
        "ms",
    );
    add_text_line(&mut out, "  Last reconcile error: ", &s.last_reconcile_error);
    out
}

/// A running server's status, as printed.
pub open spec fn server_status_text(
    root: Seq<char>,
    pid: u64,
    port: u64,
    s: StatusView,
    now: u64,
) -> Seq<char> {
    "Server status for "@ + root + "\n  PID:        "@ + decimal(pid as nat)
        + "\n  Port:       "@ + decimal(port as nat) + "\n  Files:      "@ + decimal(
        s.num_files as nat,
    ) + "\n  Trigrams:   "@ + decimal(s.num_trigrams as nat) + "\n  Cache:      "@ + decimal(
        s.cache_size as nat,
    ) + "/"@ + decimal(s.cache_capacity as nat) + "\n  Watcher:    "@ + (if s.watcher_active {
        "active"@
    } else {
        "inactive"@
    }) + "\n"@ + refresh_text(s, now) + "  Indexing:   "@ + (if s.indexing {
        decimal(s.index_progress as nat) + "/"@ + decimal(s.index_total as nat) + " files"@
    } else {
        "complete"@
    }) + "\n  Hidden coverage: "@ + coverage_text(s.hidden_complete == Some(true)) + "\n"@
}

/// A running server's status, as printed.
pub fn server_status(root: &str, pid: u64, port: u64, s: &StatusResult, now: u64) -> (r: String)
    ensures
        r@ == server_status_text(root@, pid, port, s@, now),
{
    let mut out = owned("Server status for ");
    add_text(&mut out, root);
    add_text(&mut out, "\n  PID:        ");
    add_number(&mut out, pid);
    add_text(&mut out, "\n  Port:       ");
    add_number(&mut out, port);
    add_text(&mut out, "\n  Files:      ");
    add_number(&mut out, s.num_files);
    add_text(&mut out, "\n  Trigrams:   ");
    add_number(&mut out, s.num_trigrams);
    add_text(&mut out, "\n  Cache:      ");
    add_number(&mut out, s.cache_size);
    add_text(&mut out, "/");
    add_number(&mut out, s.cache_capacity);
    add_text(&mut out, "\n  Watcher:    ");
    add_text(
        &mut out,
        if s.watcher_active {
            "active"
        } else {
            "inactive"
        },
    );
    add_text(&mut out, "\n");
    let refresh = write_refresh_status(s, now);
    add_text(&mut out, refresh.as_str());
    add_text(&mut out, "  Indexing:   ");
    let mut progress = owned("complete");
    if s.indexing {
        progress = crate::text::number(s.index_progress);
        add_text(&mut progress, "/");
        add_number(&mut progress, s.index_total);
        add_text(&mut progress, " files");
    }
    add_text(&mut out, progress.as_str());
    add_text(&mut out, "\n  Hidden coverage: ");
    let covered = match s.hidden_complete {
        Some(b) => b,
        None => false,
    };
    add_text(&mut out, coverage_label(covered));
    add_text(&mut out, "\n");
    out
}

/// What the metadata of an index on disk says, as printed.
pub open spec fn index_status_text(
    root: Seq<char>,
    meta: MetaCounts,
    hidden_complete: bool,
    now: u64,
) -> Seq<char> {
    "Index status for "@ + root + "\n  Files:      "@ + decimal(meta.num_files as nat)
        + "\n  Trigrams:   "@ + decimal(meta.num_trigrams as nat) + "\n  Created:    "@ + age_text(
        seconds_between(meta.created_at, now),
    ) + "\n  Updated:    "@ + age_text(seconds_between(meta.updated_at, now))
        + "\n  Server:     not running\n  Hidden coverage: "@ + coverage_text(hidden_complete)
        + "\n"@
}

/// The numbers of an index's metadata that are printed.
pub struct MetaCounts {
    pub num_files: u64,
    pub num_trigrams: u64,
    pub created_at: u64,
    pub updated_at: u64,
}

/// What the metadata of an index on disk says, as printed.
pub fn index_status(root: &str, meta: &MetaCounts, hidden_complete: bool, now: u64) -> (r: String)
    ensures
        r@ == index_status_text(root@, *meta, hidden_complete, now),
{
    let mut out = owned("Index status for ");
    add_text(&mut out, root);
    add_text(&mut out, "\n  Files:      ");
    add_number(&mut out, meta.num_files);
    add_text(&mut out, "\n  Trigrams:   ");
    add_number(&mut out, meta.num_trigrams);
    add_text(&mut out, "\n  Created:    ");
    let created = format_timestamp(meta.created_at, now);
    add_text(&mut out, created.as_str());
    add_text(&mut out, "\n  Updated:    ");
    let updated = format_timestamp(meta.updated_at, now);
    add_text(&mut out, updated.as_str());
    add_text(&mut out, "\n  Server:     not running\n  Hidden coverage: ");
    add_text(&mut out, coverage_label(hidden_complete));
    add_text(&mut out, "\n");
    out
}

/// What is printed where there is no index.
pub fn no_index(index_dir: &str, root: &str) -> (r: String)
    ensures
        r@ == "No index found at "@ + index_dir@ + "\nRun `tgrep index "@ + root@
            + "` to build one.\n"@,
{
    let mut out = owned("No index found at ");
    add_text(&mut out, index_dir);
    add_text(&mut out, "\nRun `tgrep index ");
    add_text(&mut out, root);
    add_text(&mut out, "` to build one.\n");
    out
}

/// The request for a server's status.
pub open spec fn status_request_tree() -> JsonTree {
    JsonTree::Object(
        Map::<Seq<char>, JsonTree>::empty().insert("jsonrpc"@, JsonTree::Text("2.0"@)).insert(
            "method"@,
            JsonTree::Text("status"@),
        ).insert("id"@, JsonTree::unsigned(1)),
    )
}

/// The request for a server's status.
pub fn status_request() -> (r: Json)
    ensures
        r@ == status_request_tree(),
{
    Json::object().put("jsonrpc", Json::text("2.0")).put("method", Json::text("status")).put(
        "id",
        Json::unsigned(1),
    )
}

/// The result that a server's reply carries.
pub fn reply_result(reply: &Json) -> (r: Result<&Json, String>)
    ensures
        match r {
            Ok(result) => reply@.field("result"@) == Some(result@),
            Err(m) => reply@.field("result"@) is None && m@ == "no result in response"@,
        },
{
    match reply.get("result") {
        Some(result) => Ok(result),
        None => Err("no result in response".to_string()),
    }
}

} // verus!
