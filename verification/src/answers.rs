//! The search-shaped tools: what they answer.
use crate::events::{hit_views, Hit, HitView, Parsed, ParsedView};
use crate::json::{lemma_trees_push, trees, Json, JsonTree};
use crate::query::{lower_case, to_lower, TOP_FILES};
use crate::ranking::{counted_views, rank_list, ranked_list};
use crate::server_search::{all_texts_json, texts_tree};
use crate::server_stats::{add_capped, capped_sum};
use crate::snapshot_diff::{first, option_text};
use crate::state::{summary_map, IndexStatus, IndexStatusView};
use crate::text::{
    add_number, add_text, before_last, chars_of, contains, decimal, lemma_texts_push, lines,
    lines_of, number, occurs, owned, pad_left, padded_left, parse_unsigned, parsed_unsigned, same,
    split_before_last, string_of, texts, trim, trimmed,
};
use crate::tool::{ToolOutput, ToolOutputView};
use vstd::prelude::*;

verus! {

/// What answered, in brackets.
pub open spec fn status_text(s: IndexStatusView) -> Seq<char> {
    match s.note {
        Some(note) => "["@ + s.readiness.name() + ": "@ + note + "]"@,
        None => "["@ + s.readiness.name() + "]"@,
    }
}

/// What answered, in brackets.
pub fn status_line(status: &IndexStatus) -> (r: String)
    ensures
        r@ == status_text(status@),
{
    let mut out = owned("[");
    add_text(&mut out, status.readiness.as_str());
    if let Some(note) = &status.note {
        add_text(&mut out, ": ");
        add_text(&mut out, note.as_str());
    }
    add_text(&mut out, "]");
    out
}

/// A hit as data.
pub open spec fn hit_tree(h: HitView) -> JsonTree {
    let plain = Map::<Seq<char>, JsonTree>::empty().insert("path"@, JsonTree::Text(h.path)).insert(
        "line"@,
        JsonTree::unsigned(h.line),
    ).insert("text"@, JsonTree::Text(h.text));
    let placed = match h.column {
        Some(c) => plain.insert("column"@, JsonTree::unsigned(c)),
        None => plain,
    };
    let led = if h.before.len() > 0 {
        placed.insert("before"@, texts_tree(h.before))
    } else {
        placed
    };
    JsonTree::Object(
        if h.after.len() > 0 {
            led.insert("after"@, texts_tree(h.after))
        } else {
            led
        },
    )
}

impl Hit {
    /// The hit as data.
    pub fn to_json(&self) -> (r: Json)
        ensures
            r@ == hit_tree(self@),
    {
        let plain = Json::object().put("path", Json::text(self.path.as_str())).put(
            "line",
            Json::unsigned(self.line),
        ).put("text", Json::text(self.text.as_str()));
        let placed = match self.column {
            Some(c) => plain.put("column", Json::unsigned(c)),
            None => plain,
        };
        let led = if self.before.len() > 0 {
            placed.put("before", all_texts_json(&self.before))
        } else {
            placed
        };
        if self.after.len() > 0 {
            led.put("after", all_texts_json(&self.after))
        } else {
            led
        }
    }
}

/// A file and its number of matches as data.
pub open spec fn file_count_tree(entry: (Seq<char>, u64)) -> JsonTree {
    JsonTree::Object(
        Map::<Seq<char>, JsonTree>::empty().insert("path"@, JsonTree::Text(entry.0)).insert(
            "matches"@,
            JsonTree::unsigned(entry.1),
        ),
    )
}

/// Files and their numbers of matches as data, the first of them.
pub open spec fn file_counts_tree(list: Seq<(Seq<char>, u64)>, limit: nat) -> JsonTree {
    JsonTree::List(
        first(list, limit).map_values(|e: (Seq<char>, u64)| file_count_tree(e)),
    )
}

fn file_counts_json(list: &Vec<(String, u64)>, limit: usize) -> (r: Json)
    ensures
        r@ == file_counts_tree(counted_views(list@), limit as nat),
{
    let total: usize = if list.len() <= limit {
        list.len()
    } else {
        limit
    };
    let mut out: Vec<Json> = Vec::new();
    let ghost all = counted_views(list@);
    let ghost f = |e: (Seq<char>, u64)| file_count_tree(e);
    let mut i: usize = 0;
    assert(trees(out@) =~= all.take(0).map_values(f));
    while i < total
        invariant
            i <= total <= list@.len(),
            all == counted_views(list@),
            f == (|e: (Seq<char>, u64)| file_count_tree(e)),
            trees(out@) == all.take(i as int).map_values(f),
        decreases total - i,
    {
        let item = Json::object().put("path", Json::text(list[i].0.as_str())).put(
            "matches",
            Json::unsigned(list[i].1),
        );
        proof {
            lemma_trees_push(out@, item);
            assert(all[i as int] == (list@[i as int].0@, list@[i as int].1));
            assert(all.take(i + 1).map_values(f) =~= all.take(i as int).map_values(f).push(item@));
        }
        out.push(item);
        i += 1;
    }
    assert(all.take(total as int) =~= first(all, limit as nat));
    Json::List(out)
}

fn hits_json(hits: &Vec<Hit>) -> (r: Json)
    ensures
        r@ == JsonTree::List(hit_views(hits@).map_values(|h: HitView| hit_tree(h))),
{
    let mut out: Vec<Json> = Vec::new();
    let ghost all = hit_views(hits@);
    let ghost f = |h: HitView| hit_tree(h);
    let mut i: usize = 0;
    assert(trees(out@) =~= all.take(0).map_values(f));
    while i < hits.len()
        invariant
            i <= hits@.len(),
            all == hit_views(hits@),
            f == (|h: HitView| hit_tree(h)),
            trees(out@) == all.take(i as int).map_values(f),
        decreases hits@.len() - i,
    {
        let item = hits[i].to_json();
        proof {
            lemma_trees_push(out@, item);
            assert(all[i as int] == hits@[i as int]@);
            assert(all.take(i + 1).map_values(f) =~= all.take(i as int).map_values(f).push(item@));
        }
        out.push(item);
        i += 1;
    }
    assert(all.take(all.len() as int) =~= all);
    Json::List(out)
}

/// A line of a listing: its number, a mark and its text.
pub open spec fn numbered_line(n: u64, mark: Seq<char>, text: Seq<char>) -> Seq<char> {
    padded_left(decimal(n as nat), 6, ' ') + mark + text + "\n"@
}

/// Numbered lines, the first of them with the number `start`.
pub open spec fn numbered_lines(start: int, mark: Seq<char>, list: Seq<Seq<char>>) -> Seq<char>
    decreases list.len(),
{
    if list.len() == 0 {
        Seq::empty()
    } else {
        numbered_lines(start, mark, list.drop_last()) + numbered_line(
            capped_sum((start + list.len() - 1) as nat),
            mark,
            list.last(),
        )
    }
}

/// A hit as text. The path stands before the first hit of a file.
pub open spec fn hit_text(previous: Seq<char>, h: HitView) -> Seq<char> {
    let first_before = if h.line as int >= h.before.len() {
        h.line - h.before.len()
    } else {
        0
    };
    (if h.path != previous {
        (if previous.len() > 0 {
            "\n"@
        } else {
            Seq::empty()
        }) + h.path + "\n"@
    } else {
        Seq::empty()
    }) + numbered_lines(first_before as int, "- "@, h.before) + numbered_line(h.line, ": "@, h.text)
        + numbered_lines(h.line + 1, "- "@, h.after)
}

/// The path of the hit before a place, nothing where there is none.
pub open spec fn previous_path(hits: Seq<HitView>) -> Seq<char> {
    if hits.len() == 0 {
        Seq::empty()
    } else {
        hits.last().path
    }
}

/// Hits as text.
pub open spec fn hits_text(hits: Seq<HitView>) -> Seq<char>
    decreases hits.len(),
{
    if hits.len() == 0 {
        Seq::empty()
    } else {
        hits_text(hits.drop_last()) + hit_text(previous_path(hits.drop_last()), hits.last())
    }
}

/// The answer to a search as text.
pub open spec fn matches_text(p: ParsedView, truncated: bool, status: Seq<char>) -> Seq<char> {
    if p.hits.len() == 0 {
        "No matches. "@ + status + "\n"@
    } else {
        hits_text(p.hits) + "\n"@ + decimal(p.hits.len()) + " of "@ + decimal(
            p.total_matches as nat,
        ) + " matches in "@ + decimal(p.files_with_matches as nat) + " files"@ + (if truncated {
            " (truncated — narrow with path/glob/type, or raise max_results)"@
        } else {
            Seq::empty()
        }) + ". "@ + status + "\n"@
    }
}

fn add_numbered(out: &mut String, n: u64, mark: &str, text: &str)
    ensures
        final(out)@ == old(out)@ + numbered_line(n, mark@, text@),
{
    let ghost start = out@;
    let digits = number(n);
    let padded = pad_left(digits.as_str(), 6, ' ');
    add_text(out, padded.as_str());
    add_text(out, mark);
    add_text(out, text);
    add_text(out, "\n");
    assert(out@ =~= start + numbered_line(n, mark@, text@));
}

fn numbered_text(start: u64, mark: &str, list: &Vec<String>, skip_one: bool) -> (r: String)
    ensures
        r@ == numbered_lines(
            start + if skip_one {
                1int
            } else {
                0int
            },
            mark@,
            texts(list@),
        ),
{
    let mut out = String::new();
    let ghost all = texts(list@);
    let ghost base: int = start + if skip_one {
        1int
    } else {
        0int
    };
    let mut i: usize = 0;
    assert(all.take(0) =~= Seq::<Seq<char>>::empty());
    while i < list.len()
        invariant
            i <= list@.len(),
            all == texts(list@),
            base == start + if skip_one {
                1int
            } else {
                0int
            },
            out@ == numbered_lines(base, mark@, all.take(i as int)),
        decreases list@.len() - i,
    {
        assert(all.take(i + 1).drop_last() =~= all.take(i as int));
        assert(all.take(i + 1).last() == list@[i as int]@);
        let first: u64 = if skip_one {
            add_capped(start, 1)
        } else {
            start
        };
        let n: u64 = add_capped(first, i as u64);
        add_numbered(&mut out, n, mark, list[i].as_str());
        i += 1;
    }
    assert(all.take(all.len() as int) =~= all);
    out
}

fn hit_string(previous: &str, h: &Hit) -> (r: String)
    ensures
        r@ == hit_text(previous@, h@),
{
    let mut out = String::new();
    if !same(h.path.as_str(), previous) {
        if !previous.is_empty() {
            out = owned("\n");
        }
        add_text(&mut out, h.path.as_str());
        add_text(&mut out, "\n");
    }
    let count: u64 = h.before.len() as u64;
    let first_before: u64 = if h.line >= count {
        h.line - count
    } else {
        0
    };
    let lead = numbered_text(first_before, "- ", &h.before, false);
    add_text(&mut out, lead.as_str());
    add_numbered(&mut out, h.line, ": ", h.text.as_str());
    let tail = numbered_text(h.line, "- ", &h.after, true);
    add_text(&mut out, tail.as_str());
    out
}

/// The answer to a search as text.
pub fn render_matches(p: &Parsed, truncated: bool, status: &str) -> (r: String)
    ensures
        r@ == matches_text(p@, truncated, status@),
{
    if p.hits.len() == 0 {
        let mut out = owned("No matches. ");
        add_text(&mut out, status);
        add_text(&mut out, "\n");
        return out;
    }
    let mut out = String::new();
    let ghost all = hit_views(p.hits@);
    let nothing = String::new();
    assert(nothing@ =~= Seq::<char>::empty());
    let mut i: usize = 0;
    assert(all.take(0) =~= Seq::<HitView>::empty());
    while i < p.hits.len()
        invariant
            i <= p.hits@.len(),
            all == hit_views(p.hits@),
            nothing@ == Seq::<char>::empty(),
            out@ == hits_text(all.take(i as int)),
        decreases p.hits@.len() - i,
    {
        assert(all.take(i + 1).drop_last() =~= all.take(i as int));
        assert(all.take(i + 1).last() == p.hits@[i as int]@);
        let previous = if i > 0 {
            assert(all.take(i as int).last() == p.hits@[i - 1]@);
            p.hits[i - 1].path.as_str()
        } else {
            nothing.as_str()
        };
        let one = hit_string(previous, &p.hits[i]);
        add_text(&mut out, one.as_str());
        i += 1;
    }
    assert(all.take(all.len() as int) =~= all);
    add_text(&mut out, "\n");
    add_number(&mut out, p.hits.len() as u64);
    add_text(&mut out, " of ");
    add_number(&mut out, p.total_matches);
    add_text(&mut out, " matches in ");
    add_number(&mut out, p.files_with_matches);
    add_text(&mut out, " files");
    let mut remark = String::new();
    assert(remark@ =~= Seq::<char>::empty());
    if truncated {
        remark = owned(" (truncated — narrow with path/glob/type, or raise max_results)");
    }
    add_text(&mut out, remark.as_str());
    add_text(&mut out, ". ");
    add_text(&mut out, status);
    add_text(&mut out, "\n");
    out
}

/// Whether a search lists fewer matches than there are.
pub open spec fn is_cut(p: ParsedView) -> bool {
    p.total_matches > p.hits.len()
}

/// What a truncated search advises.
pub open spec fn next_step_text() -> Seq<char> {
    "Narrow with `path`, `glob` or `type`, or raise `max_results`. `count_matches` shows the full per-file distribution cheaply."@
}

/// The answer to a search as data.
pub open spec fn search_tree(p: ParsedView, elapsed_ms: u64, s: IndexStatusView) -> JsonTree {
    let plain = Map::<Seq<char>, JsonTree>::empty().insert(
        "matches"@,
        JsonTree::List(p.hits.map_values(|h: HitView| hit_tree(h))),
    ).insert("shown"@, JsonTree::unsigned(p.hits.len() as u64)).insert(
        "total_matches"@,
        JsonTree::unsigned(p.total_matches),
    ).insert("files_with_matches"@, JsonTree::unsigned(p.files_with_matches)).insert(
        "truncated"@,
        JsonTree::Bool(is_cut(p)),
    ).insert("elapsed_ms"@, JsonTree::unsigned(elapsed_ms)).insert(
        "index"@,
        JsonTree::Object(summary_map(s)),
    );
    if is_cut(p) {
        JsonTree::Object(
            plain.insert(
                "top_files"@,
                file_counts_tree(ranked_list(p.per_file), TOP_FILES as nat),
            ).insert("next_step"@, JsonTree::Text(next_step_text())),
        )
    } else {
        JsonTree::Object(plain)
    }
}

/// The answer to a search.
pub open spec fn search_answer(p: ParsedView, elapsed_ms: u64, s: IndexStatusView) -> ToolOutputView {
    ToolOutputView {
        text: matches_text(p, is_cut(p), status_text(s)),
        structured: search_tree(p, elapsed_ms, s),
    }
}

/// Answers a search: the hits, the true totals, and where the rest is.
pub fn search(p: &Parsed, elapsed_ms: u64, status: &IndexStatus) -> (r: ToolOutput)
    ensures
        r@ == search_answer(p@, elapsed_ms, status@),
        r@ == (ToolOutputView {
            text: matches_text(p@, is_cut(p@), status_text(status@)),
            structured: search_tree(p@, elapsed_ms, status@),
        }),
{
    let truncated = p.total_matches > p.hits.len() as u64;
    let plain = Json::object().put("matches", hits_json(&p.hits)).put(
        "shown",
        Json::unsigned(p.hits.len() as u64),
    ).put("total_matches", Json::unsigned(p.total_matches)).put(
        "files_with_matches",
        Json::unsigned(p.files_with_matches),
    ).put("truncated", Json::Bool(truncated)).put("elapsed_ms", Json::unsigned(elapsed_ms)).put(
        "index",
        status.summary(),
    );
    let structured = if truncated {
        let ranked = rank_list(&p.per_file);
        plain.put("top_files", file_counts_json(&ranked, TOP_FILES)).put(
            "next_step",
            Json::text(
                "Narrow with `path`, `glob` or `type`, or raise `max_results`. `count_matches` shows the full per-file distribution cheaply.",
            ),
        )
    } else {
        plain
    };
    let line = status_line(status);
    ToolOutput { text: render_matches(p, truncated, line.as_str()), structured }
}

/// The separator between a path and its count.
pub open spec fn count_separator() -> char {
    '\u{1}'
}

/// The path and the count that a line of a count's output holds.
pub open spec fn count_of_line(line: Seq<char>) -> Option<(Seq<char>, u64)> {
    match before_last(line, count_separator()) {
        Some(path) => match parsed_unsigned(trimmed(line.skip(path.len() as int + 1))) {
            Some(n) => Some((path, n)),
            None => None,
        },
        None => None,
    }
}

/// The paths and counts of a count's output.
pub open spec fn counts_in(raw: Seq<char>) -> Seq<(Seq<char>, u64)> {
    lines_of(raw).filter_map(|line: Seq<char>| count_of_line(line))
}

fn read_count(line: &str) -> (r: Option<(String, u64)>)
    ensures
        count_of_line(line@) == (match r {
            Some(e) => Some((e.0@, e.1)),
            None => None,
        }),
{
    let path = match split_before_last(line, '\u{1}') {
        Some(path) => path,
        None => return None,
    };
    let chars = chars_of(line);
    let n: usize = path.as_str().unicode_len();
    let total: usize = chars.len();
    proof {
        lemma_before_last(line@, '\u{1}');
        assert(n < total);
        assert(line@.skip(n + 1) =~= chars@.subrange(n + 1, chars@.len() as int));
    }
    let rest = string_of(&chars, n + 1, total);
    let count = trim(rest.as_str());
    match parse_unsigned(count.as_str()) {
        Some(n) => Some((path, n)),
        None => None,
    }
}

/// What stands before the last separator is shorter than the text.
proof fn lemma_before_last(s: Seq<char>, sep: char)
    ensures
        before_last(s, sep) matches Some(t) ==> t.len() < s.len(),
    decreases s.len(),
{
    if s.len() > 0 {
        lemma_before_last(s.drop_last(), sep);
    }
}

/// Reads a count's output.
pub fn read_counts(raw: &str) -> (r: Vec<(String, u64)>)
    ensures
        counted_views(r@) == counts_in(raw@),
{
    let all = lines(raw);
    let ghost ls = lines_of(raw@);
    let ghost f = |line: Seq<char>| count_of_line(line);
    let mut out: Vec<(String, u64)> = Vec::new();
    let mut i: usize = 0;
    assert(counted_views(out@) =~= ls.take(0).filter_map(f));
    while i < all.len()
        invariant
            i <= all@.len(),
            ls == texts(all@),
            f == (|line: Seq<char>| count_of_line(line)),
            counted_views(out@) == ls.take(i as int).filter_map(f),
        decreases all@.len() - i,
    {
        let ghost before = counted_views(out@);
        assert(ls.take(i + 1).drop_last() =~= ls.take(i as int));
        assert(ls.take(i + 1).last() == all@[i as int]@);
        if let Some((path, n)) = read_count(all[i].as_str()) {
            let ghost entry = (path@, n);
            out.push((path, n));
            assert(counted_views(out@) =~= before + seq![entry]);
        }
        i += 1;
    }
    assert(ls.take(ls.len() as int) =~= ls);
    out
}

/// The sum of counts.
pub open spec fn total_count(list: Seq<(Seq<char>, u64)>) -> nat
    decreases list.len(),
{
    if list.len() == 0 {
        0
    } else {
        total_count(list.drop_last()) + list.last().1 as nat
    }
}

fn sum_counts(list: &Vec<(String, u64)>) -> (r: u64)
    ensures
        r == capped_sum(total_count(counted_views(list@))),
{
    let mut total: u64 = 0;
    let ghost all = counted_views(list@);
    let mut i: usize = 0;
    assert(all.take(0) =~= Seq::<(Seq<char>, u64)>::empty());
    while i < list.len()
        invariant
            i <= list@.len(),
            all == counted_views(list@),
            total == capped_sum(total_count(all.take(i as int))),
        decreases list@.len() - i,
    {
        assert(all.take(i + 1).drop_last() =~= all.take(i as int));
        assert(all.take(i + 1).last() == (list@[i as int].0@, list@[i as int].1));
        total = add_capped(total, list[i].1);
        i += 1;
    }
    assert(all.take(all.len() as int) =~= all);
    total
}

/// Counts as text, one line each.
pub open spec fn count_lines(list: Seq<(Seq<char>, u64)>) -> Seq<char>
    decreases list.len(),
{
    if list.len() == 0 {
        Seq::empty()
    } else {
        count_lines(list.drop_last()) + (padded_left(decimal(list.last().1 as nat), 6, ' ') + "  "@
            + list.last().0 + "\n"@)
    }
}

/// The answer to a count as text. `list` is in the order of rank.
pub open spec fn counts_text(
    list: Seq<(Seq<char>, u64)>,
    limit: nat,
    total: u64,
    status: Seq<char>,
) -> Seq<char> {
    count_lines(first(list, limit)) + "\n"@ + decimal(total as nat) + " matches in "@ + decimal(
        list.len(),
    ) + " files"@ + (if list.len() > limit {
        " (showing top "@ + decimal(limit) + ")"@
    } else {
        Seq::empty()
    }) + ". "@ + status + "\n"@
}

/// The answer to a count as data.
pub open spec fn counts_tree(
    list: Seq<(Seq<char>, u64)>,
    limit: nat,
    total: u64,
    elapsed_ms: u64,
    s: IndexStatusView,
) -> JsonTree {
    JsonTree::Object(
        Map::<Seq<char>, JsonTree>::empty().insert("files"@, file_counts_tree(list, limit)).insert(
            "shown"@,
            JsonTree::unsigned(first(list, limit).len() as u64),
        ).insert("files_with_matches"@, JsonTree::unsigned(list.len() as u64)).insert(
            "total_matches"@,
            JsonTree::unsigned(total),
        ).insert("truncated"@, JsonTree::Bool(list.len() > limit)).insert(
            "elapsed_ms"@,
            JsonTree::unsigned(elapsed_ms),
        ).insert("index"@, JsonTree::Object(summary_map(s))),
    )
}

fn counts_string(list: &Vec<(String, u64)>, shown: usize) -> (r: String)
    requires
        shown <= list@.len(),
    ensures
        r@ == count_lines(counted_views(list@).take(shown as int)),
{
    let mut out = String::new();
    let ghost all = counted_views(list@);
    let mut i: usize = 0;
    assert(all.take(0) =~= Seq::<(Seq<char>, u64)>::empty());
    while i < shown
        invariant
            i <= shown <= list@.len(),
            all == counted_views(list@),
            out@ == count_lines(all.take(i as int)),
        decreases shown - i,
    {
        assert(all.take(i + 1).drop_last() =~= all.take(i as int));
        assert(all.take(i + 1).last() == (list@[i as int].0@, list@[i as int].1));
        let digits = number(list[i].1);
        let mut line = pad_left(digits.as_str(), 6, ' ');
        add_text(&mut line, "  ");
        add_text(&mut line, list[i].0.as_str());
        add_text(&mut line, "\n");
        add_text(&mut out, line.as_str());
        i += 1;
    }
    out
}

/// The answer to counting: the files with the most matches first.
pub open spec fn count_answer(
    raw: Seq<char>,
    max_files: nat,
    elapsed_ms: u64,
    s: IndexStatusView,
) -> ToolOutputView {
    let ranked = ranked_list(counts_in(raw));
    let total = capped_sum(total_count(ranked));
    ToolOutputView {
        text: counts_text(ranked, max_files, total, status_text(s)),
        structured: counts_tree(ranked, max_files, total, elapsed_ms, s),
    }
}

/// Answers a count from its output: the files by rank, and the totals over all
/// of them.
pub fn count_matches(raw: &str, max_files: usize, elapsed_ms: u64, status: &IndexStatus) -> (r:
    ToolOutput)
    ensures
        r@ == count_answer(raw@, max_files as nat, elapsed_ms, status@),
        ({
            let counts = counts_in(raw@);
            let ranked = ranked_list(counts);
            let total = capped_sum(total_count(ranked));
            r@ == (ToolOutputView {
                text: counts_text(ranked, max_files as nat, total, status_text(status@)),
                structured: counts_tree(ranked, max_files as nat, total, elapsed_ms, status@),
            })
        }),
{
    let counts = read_counts(raw);
    let ranked = rank_list(&counts);
    let total: u64 = sum_counts(&ranked);
    let files: usize = ranked.len();
    let shown: usize = if files <= max_files {
        files
    } else {
        max_files
    };
    proof {
        let all = counted_views(ranked@);
        assert(all.take(shown as int) =~= first(all, max_files as nat));
    }
    let line = status_line(status);
    let mut text = counts_string(&ranked, shown);
    add_text(&mut text, "\n");
    add_number(&mut text, total);
    add_text(&mut text, " matches in ");
    add_number(&mut text, files as u64);
    add_text(&mut text, " files");
    let mut remark = String::new();
    assert(remark@ =~= Seq::<char>::empty());
    if files > max_files {
        remark = owned(" (showing top ");
        add_number(&mut remark, max_files as u64);
        add_text(&mut remark, ")");
    }
    add_text(&mut text, remark.as_str());
    add_text(&mut text, ". ");
    add_text(&mut text, line.as_str());
    add_text(&mut text, "\n");
    let structured = Json::object().put("files", file_counts_json(&ranked, max_files)).put(
        "shown",
        Json::unsigned(shown as u64),
    ).put("files_with_matches", Json::unsigned(files as u64)).put(
        "total_matches",
        Json::unsigned(total),
    ).put("truncated", Json::Bool(files > max_files)).put(
        "elapsed_ms",
        Json::unsigned(elapsed_ms),
    ).put("index", status.summary());
    ToolOutput { text, structured }
}

/// Whether a listed path is reported: it is not empty, and it contains what is
/// asked for, whatever the case.
pub open spec fn is_wanted(path: Seq<char>, needle: Option<Seq<char>>) -> bool {
    path.len() > 0 && match needle {
        Some(needle) => occurs(lower_case(path), needle),
        None => true,
    }
}

/// The paths of a listing that are reported.
pub open spec fn wanted_paths(raw: Seq<char>, needle: Option<Seq<char>>) -> Seq<Seq<char>> {
    lines_of(raw).filter(|path: Seq<char>| is_wanted(path, needle))
}

/// Paths as text, one line each.
pub open spec fn path_lines(list: Seq<Seq<char>>) -> Seq<char>
    decreases list.len(),
{
    if list.len() == 0 {
        Seq::empty()
    } else {
        path_lines(list.drop_last()) + (list.last() + "\n"@)
    }
}

/// The answer to a search for files as text.
pub open spec fn files_text(all: Seq<Seq<char>>, limit: nat, status: Seq<char>) -> Seq<char> {
    path_lines(first(all, limit)) + "\n"@ + decimal(all.len()) + " files"@ + (if all.len() > limit {
        " (showing first "@ + decimal(limit) + ")"@
    } else {
        Seq::empty()
    }) + ". "@ + status + "\n"@
}

/// The answer to a search for files as data.
pub open spec fn files_tree(
    all: Seq<Seq<char>>,
    limit: nat,
    elapsed_ms: u64,
    s: IndexStatusView,
) -> JsonTree {
    JsonTree::Object(
        Map::<Seq<char>, JsonTree>::empty().insert("files"@, texts_tree(first(all, limit))).insert(
            "shown"@,
            JsonTree::unsigned(first(all, limit).len() as u64),
        ).insert("total"@, JsonTree::unsigned(all.len() as u64)).insert(
            "truncated"@,
            JsonTree::Bool(all.len() > limit),
        ).insert("elapsed_ms"@, JsonTree::unsigned(elapsed_ms)).insert(
            "index"@,
            JsonTree::Object(summary_map(s)),
        ),
    )
}

/// The answer to a search for files, from the paths that are reported.
pub open spec fn files_answer(
    all: Seq<Seq<char>>,
    limit: nat,
    elapsed_ms: u64,
    s: IndexStatusView,
) -> ToolOutputView {
    ToolOutputView {
        text: files_text(all, limit, status_text(s)),
        structured: files_tree(all, limit, elapsed_ms, s),
    }
}

/// Answers a search for files, from the paths that are reported.
pub fn list_paths(all: Vec<String>, limit: usize, elapsed_ms: u64, status: &IndexStatus) -> (r:
    ToolOutput)
    ensures
        r@ == files_answer(texts(all@), limit as nat, elapsed_ms, status@),
{
    let total: usize = all.len();
    let shown: usize = if total <= limit {
        total
    } else {
        limit
    };
    let ghost names = texts(all@);
    let mut text = String::new();
    let mut list: Vec<String> = Vec::new();
    let mut i: usize = 0;
    assert(names.take(0) =~= Seq::<Seq<char>>::empty());
    assert(texts(list@) =~= names.take(0));
    while i < shown
        invariant
            i <= shown <= all@.len(),
            names == texts(all@),
            text@ == path_lines(names.take(i as int)),
            texts(list@) == names.take(i as int),
            list@.len() == i,
        decreases shown - i,
    {
        assert(names.take(i + 1).drop_last() =~= names.take(i as int));
        assert(names.take(i + 1).last() == all@[i as int]@);
        let mut line = all[i].clone();
        add_text(&mut line, "\n");
        add_text(&mut text, line.as_str());
        let copy = all[i].clone();
        proof {
            lemma_texts_push(list@, copy);
            assert(names.take(i + 1) =~= names.take(i as int).push(copy@));
        }
        list.push(copy);
        i += 1;
    }
    assert(names.take(shown as int) =~= first(names, limit as nat));
    add_text(&mut text, "\n");
    add_number(&mut text, total as u64);
    add_text(&mut text, " files");
    let mut remark = String::new();
    assert(remark@ =~= Seq::<char>::empty());
    if total > limit {
        remark = owned(" (showing first ");
        add_number(&mut remark, limit as u64);
        add_text(&mut remark, ")");
    }
    add_text(&mut text, remark.as_str());
    add_text(&mut text, ". ");
    let line = status_line(status);
    add_text(&mut text, line.as_str());
    add_text(&mut text, "\n");
    let structured = Json::object().put("files", all_texts_json(&list)).put(
        "shown",
        Json::unsigned(shown as u64),
    ).put("total", Json::unsigned(total as u64)).put("truncated", Json::Bool(total > limit)).put(
        "elapsed_ms",
        Json::unsigned(elapsed_ms),
    ).put("index", status.summary());
    ToolOutput { text, structured }
}

/// The answer to looking for files by a part of their path.
pub open spec fn found_answer(
    raw: Seq<char>,
    needle: Option<Seq<char>>,
    limit: nat,
    elapsed_ms: u64,
    s: IndexStatusView,
) -> ToolOutputView {
    files_answer(wanted_paths(raw, needle), limit, elapsed_ms, s)
}

/// Answers a search for files from a listing, keeping the paths that contain
/// what is asked for.
pub fn search_files(
    raw: &str,
    needle: &Option<String>,
    limit: usize,
    elapsed_ms: u64,
    status: &IndexStatus,
) -> (r: ToolOutput)
    ensures
        r@ == found_answer(raw@, option_text(*needle), limit as nat, elapsed_ms, status@),
        r@ == files_answer(
            wanted_paths(raw@, option_text(*needle)),
            limit as nat,
            elapsed_ms,
            status@,
        ),
{
    let all = lines(raw);
    let ghost ls = lines_of(raw@);
    let ghost wants = option_text(*needle);
    let ghost p = |path: Seq<char>| is_wanted(path, wants);
    let mut kept: Vec<String> = Vec::new();
    let mut i: usize = 0;
    proof {
        reveal(Seq::filter);
        assert(texts(kept@) =~= ls.take(0).filter(p));
    }
    while i < all.len()
        invariant
            i <= all@.len(),
            ls == texts(all@),
            wants == option_text(*needle),
            p == (|path: Seq<char>| is_wanted(path, wants)),
            texts(kept@) == ls.take(i as int).filter(p),
        decreases all@.len() - i,
    {
        proof {
            reveal(Seq::filter);
            assert(ls.take(i + 1).drop_last() =~= ls.take(i as int));
            assert(ls.take(i + 1).last() == all@[i as int]@);
        }
        let path = all[i].as_str();
        let wanted = !path.is_empty() && match needle {
            Some(needle) => {
                let lowered = to_lower(path);
                contains(lowered.as_str(), needle.as_str())
            },
            None => true,
        };
        if wanted {
            let copy = all[i].clone();
            proof {
                lemma_texts_push(kept@, copy);
            }
            kept.push(copy);
        }
        i += 1;
    }
    assert(ls.take(ls.len() as int) =~= ls);
    list_paths(kept, limit, elapsed_ms, status)
}

/// The answer to a question for the index's status as data.
pub open spec fn index_status_tree(s: IndexStatusView, root: Seq<char>, index_dir: Seq<char>) -> JsonTree {
    let plain = summary_map(s).insert("root"@, JsonTree::Text(root)).insert(
        "index_dir"@,
        JsonTree::Text(index_dir),
    );
    let dated = match s.index_updated_at {
        Some(at) => plain.insert("index_updated_at"@, JsonTree::unsigned(at)),
        None => plain,
    };
    match s.server {
        Some(server) => JsonTree::Object(dated.insert("server_status"@, server)),
        None => JsonTree::Object(dated),
    }
}

/// The answer to a question for the index's status as text.
pub open spec fn index_status_text(s: IndexStatusView, root: Seq<char>, index_dir: Seq<char>) -> Seq<
    char,
> {
    "root: "@ + root + "\nindex: "@ + index_dir + "\nstate: "@ + s.readiness.name() + (
    match s.note {
        Some(note) => "\nnote: "@ + note,
        None => Seq::empty(),
    }) + "\n"@
}

/// The answer about the index.
pub open spec fn index_answer(s: IndexStatusView, root: Seq<char>, index_dir: Seq<char>) -> ToolOutputView {
    ToolOutputView {
        text: index_status_text(s, root, index_dir),
        structured: index_status_tree(s, root, index_dir),
    }
}

/// Answers a question for the index's status.
pub fn index_status(status: &IndexStatus, root: &str, index_dir: &str) -> (r: ToolOutput)
    ensures
        r@ == index_answer(status@, root@, index_dir@),
        r@ == (ToolOutputView {
            text: index_status_text(status@, root@, index_dir@),
            structured: index_status_tree(status@, root@, index_dir@),
        }),
{
    let plain = status.summary().put("root", Json::text(root)).put(
        "index_dir",
        Json::text(index_dir),
    );
    let dated = match status.index_updated_at {
        Some(at) => plain.put("index_updated_at", Json::unsigned(at)),
        None => plain,
    };
    let structured = match &status.server {
        Some(server) => dated.put("server_status", server.copy()),
        None => dated,
    };
    let mut text = owned("root: ");
    add_text(&mut text, root);
    add_text(&mut text, "\nindex: ");
    add_text(&mut text, index_dir);
    add_text(&mut text, "\nstate: ");
    add_text(&mut text, status.readiness.as_str());
    let mut note = String::new();
    assert(note@ =~= Seq::<char>::empty());
    if let Some(n) = &status.note {
        note = owned("\nnote: ");
        add_text(&mut note, n.as_str());
    }
    add_text(&mut text, note.as_str());
    add_text(&mut text, "\n");
    ToolOutput { text, structured }
}

proof fn lemma_answer_keys()
    ensures
        "index"@.len() == 5,
        "truncated"@.len() == 9,
        "elapsed_ms"@.len() == 10,
        "top_files"@.len() == 9,
        "next_step"@.len() == 9,
        "total_matches"@.len() == 13,
        "files_with_matches"@.len() == 18,
        "shown"@.len() == 5,
        "total"@.len() == 5,
        "truncated"@[1] == 'r',
        "top_files"@[1] == 'o',
        "next_step"@[1] == 'e',
        "index"@[0] == 'i',
        "shown"@[0] == 's',
        "total"@[0] == 't',
{
    reveal_strlit("index");
    reveal_strlit("truncated");
    reveal_strlit("elapsed_ms");
    reveal_strlit("top_files");
    reveal_strlit("next_step");
    reveal_strlit("total_matches");
    reveal_strlit("files_with_matches");
    reveal_strlit("shown");
    reveal_strlit("total");
}

/// Every answer of a search says what answered it.
pub proof fn law_answers_say_what_answered(
    p: ParsedView,
    counts: Seq<(Seq<char>, u64)>,
    files: Seq<Seq<char>>,
    limit: nat,
    total: u64,
    elapsed_ms: u64,
    s: IndexStatusView,
)
    ensures
        search_tree(p, elapsed_ms, s).field("index"@) == Some(JsonTree::Object(summary_map(s))),
        counts_tree(counts, limit, total, elapsed_ms, s).field("index"@) == Some(
            JsonTree::Object(summary_map(s)),
        ),
        files_tree(files, limit, elapsed_ms, s).field("index"@) == Some(
            JsonTree::Object(summary_map(s)),
        ),
{
    lemma_answer_keys();
}

/// A search whose listing is cut short says so, gives the totals all the same,
/// and says where the rest of the matches are; any other gives no such hint.
pub proof fn law_cut_searches_say_where_the_rest_is(
    p: ParsedView,
    elapsed_ms: u64,
    s: IndexStatusView,
)
    ensures
        ({
            let tree = search_tree(p, elapsed_ms, s);
            &&& tree.field_bool("truncated"@) == Some(is_cut(p))
            &&& tree.field_unsigned("total_matches"@) == Some(p.total_matches)
            &&& tree.field_unsigned("files_with_matches"@) == Some(p.files_with_matches)
            &&& tree.field("top_files"@) is Some <==> is_cut(p)
            &&& tree.field("next_step"@) is Some <==> is_cut(p)
        }),
{
    lemma_answer_keys();
    reveal_strlit("matches");
    assert("matches"@.len() == 7);
}

} // verus!
