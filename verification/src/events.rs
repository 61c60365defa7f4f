//! The event stream of a search, folded into a flat list of hits.
use crate::json::{json_parsed, lemma_trees, parse, Json, JsonTree};
use crate::rows::{number_at, text_at};
use crate::server_stats::{add_capped, capped_sum};
use crate::slices::{floor_at, floor_boundary, lemma_ends_are_boundaries, piece, size_of, slice};
use crate::text::{
    add_number, add_text, byte_len, chars_of, decimal, lemma_texts_push, lines, lines_of, owned,
    same, string_of, texts, without_end,
};
use vstd::prelude::*;

verus! {

/// Longest text of a line that is reported, in bytes.
pub const MAX_LINE_BYTES: usize = 512;

/// Whether a character ends a line.
pub open spec fn is_line_end(c: char) -> bool {
    c == '\n' || c == '\r'
}

/// A line's text without its end, cut to the budget at a character boundary,
/// with a note of what was dropped.
pub open spec fn clipped(text: Seq<char>) -> Seq<char> {
    let line = without_end(text, |c: char| is_line_end(c));
    if size_of(line) <= MAX_LINE_BYTES {
        line
    } else {
        let end = floor_at(line, MAX_LINE_BYTES as int);
        piece(line, 0, end) + "… [+"@ + decimal((size_of(line) - end) as nat) + " bytes]"@
    }
}

fn without_line_end(text: &str) -> (r: String)
    ensures
        r@ == without_end(text@, |c: char| is_line_end(c)),
{
    let chars = chars_of(text);
    let ghost p = |c: char| is_line_end(c);
    let mut to: usize = chars.len();
    assert(chars@.take(to as int) =~= chars@);
    while 0 < to && (chars[to - 1] == '\n' || chars[to - 1] == '\r')
        invariant
            to <= chars@.len(),
            p == (|c: char| is_line_end(c)),
            without_end(chars@, p) == without_end(chars@.take(to as int), p),
        decreases to,
    {
        assert(chars@.take(to as int).drop_last() =~= chars@.take(to - 1));
        to -= 1;
    }
    assert(chars@.take(to as int) =~= chars@.subrange(0, to as int));
    string_of(&chars, 0, to)
}

/// Cuts a line to the budget, on a character boundary, noting what was dropped.
pub fn clip(text: &str) -> (r: String)
    ensures
        r@ == clipped(text@),
{
    let line = without_line_end(text);
    let total: usize = byte_len(line.as_str());
    if total <= MAX_LINE_BYTES {
        return line;
    }
    let end: usize = floor_boundary(line.as_str(), MAX_LINE_BYTES);
    proof {
        lemma_ends_are_boundaries(line@);
    }
    let mut out = owned(slice(line.as_str(), 0, end));
    add_text(&mut out, "… [+");
    add_number(&mut out, (total - end) as u64);
    add_text(&mut out, " bytes]");
    out
}

/// An event of the stream.
pub enum Event {
    Begin,
    Match { path: String, line: u64, column: Option<u64>, text: String },
    Context { line: u64, text: String },
    End { path: String, matches: u64 },
    Other,
}

/// What an [`Event`] says.
pub enum EventView {
    Begin,
    Match { path: Seq<char>, line: u64, column: Option<u64>, text: Seq<char> },
    Context { line: u64, text: Seq<char> },
    End { path: Seq<char>, matches: u64 },
    Other,
}

impl View for Event {
    type V = EventView;

    open spec fn view(&self) -> EventView {
        match self {
            Event::Begin => EventView::Begin,
            Event::Match { path, line, column, text } => EventView::Match {
                path: path@,
                line: *line,
                column: *column,
                text: text@,
            },
            Event::Context { line, text } => EventView::Context { line: *line, text: text@ },
            Event::End { path, matches } => EventView::End { path: path@, matches: *matches },
            Event::Other => EventView::Other,
        }
    }
}

/// The text below a key, of which there may be none.
pub open spec fn inner_text(data: JsonTree, key: Seq<char>) -> Seq<char> {
    match data.field(key) {
        Some(inner) => text_at(inner, "text"@, Seq::empty()),
        None => Seq::empty(),
    }
}

/// The 1-based column of the first match on a line.
pub open spec fn first_column(data: JsonTree) -> Option<u64> {
    match data.field_list("submatches"@) {
        Some(items) => if items.len() > 0 {
            match items[0].field_unsigned("start"@) {
                Some(start) => Some(capped_sum((start + 1) as nat)),
                None => None,
            }
        } else {
            None
        },
        None => None,
    }
}

/// The number of matches that the end of a file reports.
pub open spec fn ended_matches(data: JsonTree) -> u64 {
    match data.field("stats"@) {
        Some(stats) => number_at(stats, "matches"@),
        None => 0,
    }
}

/// The event that a value stands for.
pub open spec fn event_of(tree: JsonTree) -> EventView {
    let data = match tree.field("data"@) {
        Some(data) => data,
        None => JsonTree::Null,
    };
    let kind = text_at(tree, "type"@, Seq::empty());
    if kind == "begin"@ {
        EventView::Begin
    } else if kind == "match"@ {
        EventView::Match {
            path: inner_text(data, "path"@),
            line: number_at(data, "line_number"@),
            column: first_column(data),
            text: clipped(inner_text(data, "lines"@)),
        }
    } else if kind == "context"@ {
        EventView::Context {
            line: number_at(data, "line_number"@),
            text: clipped(inner_text(data, "lines"@)),
        }
    } else if kind == "end"@ {
        EventView::End { path: inner_text(data, "path"@), matches: ended_matches(data) }
    } else {
        EventView::Other
    }
}

fn read_inner_text<'a>(data: &'a Json, key: &str) -> (r: Option<&'a str>)
    ensures
        inner_text(data@, key@) == (match r {
            Some(s) => s@,
            None => Seq::empty(),
        }),
{
    match data.get(key) {
        Some(inner) => inner.get_str("text"),
        None => None,
    }
}

fn path_of(data: &Json) -> (r: String)
    ensures
        r@ == inner_text(data@, "path"@),
{
    match read_inner_text(data, "path") {
        Some(s) => owned(s),
        None => {
            let none = String::new();
            assert(none@ =~= Seq::<char>::empty());
            none
        },
    }
}

fn clipped_line(data: &Json) -> (r: String)
    ensures
        r@ == clipped(inner_text(data@, "lines"@)),
{
    match read_inner_text(data, "lines") {
        Some(s) => clip(s),
        None => {
            let none = String::new();
            assert(none@ =~= Seq::<char>::empty());
            clip(none.as_str())
        },
    }
}

fn line_number(data: &Json) -> (r: u64)
    ensures
        r == number_at(data@, "line_number"@),
{
    match data.get_u64("line_number") {
        Some(n) => n,
        None => 0,
    }
}

fn column_of_first(data: &Json) -> (r: Option<u64>)
    ensures
        r == first_column(data@),
{
    let items = data.get_list("submatches")?;
    proof {
        lemma_trees(items@);
    }
    if items.len() == 0 {
        return None;
    }
    match items[0].get_u64("start") {
        Some(start) => Some(add_capped(start, 1)),
        None => None,
    }
}

impl Event {
    /// Reads an event.
    pub fn from_json(json: &Json) -> (r: Event)
        ensures
            r@ == event_of(json@),
    {
        let nothing = Json::Null;
        let data = match json.get("data") {
            Some(data) => data,
            None => &nothing,
        };
        let kind = match json.get_str("type") {
            Some(kind) => owned(kind),
            None => {
                let none = String::new();
                assert(none@ =~= Seq::<char>::empty());
                none
            },
        };
        let k = kind.as_str();
        if same(k, "begin") {
            Event::Begin
        } else if same(k, "match") {
            Event::Match {
                path: path_of(data),
                line: line_number(data),
                column: column_of_first(data),
                text: clipped_line(data),
            }
        } else if same(k, "context") {
            Event::Context { line: line_number(data), text: clipped_line(data) }
        } else if same(k, "end") {
            let matches: u64 = match data.get("stats") {
                Some(stats) => match stats.get_u64("matches") {
                    Some(n) => n,
                    None => 0,
                },
                None => 0,
            };
            Event::End { path: path_of(data), matches }
        } else {
            Event::Other
        }
    }
}

/// A matching line that is reported.
#[derive(Debug, PartialEq, Eq)]
pub struct Hit {
    pub path: String,
    pub line: u64,
    pub column: Option<u64>,
    pub text: String,
    pub before: Vec<String>,
    pub after: Vec<String>,
}

/// What a [`Hit`] reports.
#[verifier::ext_equal]
pub struct HitView {
    pub path: Seq<char>,
    pub line: u64,
    pub column: Option<u64>,
    pub text: Seq<char>,
    pub before: Seq<Seq<char>>,
    pub after: Seq<Seq<char>>,
}

impl View for Hit {
    type V = HitView;

    open spec fn view(&self) -> HitView {
        HitView {
            path: self.path@,
            line: self.line,
            column: self.column,
            text: self.text@,
            before: texts(self.before@),
            after: texts(self.after@),
        }
    }
}

/// What a list of hits reports.
pub open spec fn hit_views(hits: Seq<Hit>) -> Seq<HitView> {
    hits.map_values(|h: Hit| h@)
}

/// What the stream comes to: the hits that are reported, and the totals over
/// everything.
pub struct Parsed {
    pub hits: Vec<Hit>,
    pub total_matches: u64,
    pub files_with_matches: u64,
    pub per_file: Vec<(String, u64)>,
}

/// What [`Parsed`] holds.
pub struct ParsedView {
    pub hits: Seq<HitView>,
    pub total_matches: u64,
    pub files_with_matches: u64,
    pub per_file: Seq<(Seq<char>, u64)>,
}

impl View for Parsed {
    type V = ParsedView;

    open spec fn view(&self) -> ParsedView {
        ParsedView {
            hits: hit_views(self.hits@),
            total_matches: self.total_matches,
            files_with_matches: self.files_with_matches,
            per_file: crate::ranking::counted_views(self.per_file@),
        }
    }
}

/// How much of the stream is reported.
#[derive(Clone, Copy, Debug, PartialEq, Eq, Structural)]
pub struct Budget {
    /// Hits in all.
    pub max_results: usize,
    /// Hits for each file.
    pub max_per_file: usize,
    /// Lines of context on either side of a hit.
    pub context: usize,
}

/// How far the stream has been folded.
#[verifier::ext_equal]
pub struct FoldState {
    pub hits: Seq<HitView>,
    pub total_matches: u64,
    pub files_with_matches: u64,
    pub per_file: Seq<(Seq<char>, u64)>,
    /// Context lines that may belong to the next hit.
    pub pending: Seq<Seq<char>>,
    /// Whether the last hit may still get context lines.
    pub open: bool,
    pub last_line: u64,
    /// Hits of the current file.
    pub shown: nat,
}

impl FoldState {
    pub open spec fn start() -> FoldState {
        FoldState {
            hits: Seq::empty(),
            total_matches: 0,
            files_with_matches: 0,
            per_file: Seq::empty(),
            pending: Seq::empty(),
            open: false,
            last_line: 0,
            shown: 0,
        }
    }

    /// Whether a context line continues the last hit: only while adjacent.
    pub open spec fn continues(self, line: u64, budget: Budget) -> bool {
        self.open && self.hits.len() > 0 && self.hits.last().after.len() < budget.context && line
            == self.last_line + 1
    }

    /// The context lines kept for the next hit once one more has been read.
    pub open spec fn kept(self, text: Seq<char>, budget: Budget) -> Seq<Seq<char>> {
        if budget.context == 0 {
            self.pending
        } else {
            let all = self.pending.push(text);
            if all.len() > budget.context {
                all.skip(1)
            } else {
                all
            }
        }
    }

    /// The state after an event. Hits stop at the budget, totals do not.
    pub open spec fn after(self, event: EventView, budget: Budget) -> FoldState {
        match event {
            EventView::Begin => FoldState {
                pending: Seq::empty(),
                open: false,
                shown: 0,
                ..self
            },
            EventView::Match { path, line, column, text } => if self.hits.len()
                >= budget.max_results || self.shown >= budget.max_per_file {
                FoldState { pending: Seq::empty(), open: false, last_line: line, ..self }
            } else {
                FoldState {
                    hits: self.hits.push(
                        HitView {
                            path,
                            line,
                            column,
                            text,
                            before: self.pending,
                            after: Seq::empty(),
                        },
                    ),
                    pending: Seq::empty(),
                    open: true,
                    last_line: line,
                    shown: self.shown + 1,
                    ..self
                }
            },
            EventView::Context { line, text } => if self.continues(line, budget) {
                let last = self.hits.last();
                FoldState {
                    hits: self.hits.drop_last().push(
                        HitView { after: last.after.push(text), ..last },
                    ),
                    last_line: line,
                    ..self
                }
            } else {
                FoldState {
                    pending: self.kept(text, budget),
                    open: false,
                    last_line: line,
                    ..self
                }
            },
            EventView::End { path, matches } => {
                let counted = if matches > 0 {
                    FoldState {
                        files_with_matches: capped_sum((self.files_with_matches + 1) as nat),
                        total_matches: capped_sum((self.total_matches + matches) as nat),
                        per_file: self.per_file.push((path, matches)),
                        ..self
                    }
                } else {
                    self
                };
                FoldState { pending: Seq::empty(), open: false, ..counted }
            },
            EventView::Other => self,
        }
    }

    pub open spec fn result(self) -> ParsedView {
        ParsedView {
            hits: self.hits,
            total_matches: self.total_matches,
            files_with_matches: self.files_with_matches,
            per_file: self.per_file,
        }
    }
}

/// The state after a list of events.
pub open spec fn folded(events: Seq<EventView>, budget: Budget) -> FoldState
    decreases events.len(),
{
    if events.len() == 0 {
        FoldState::start()
    } else {
        folded(events.drop_last(), budget).after(events.last(), budget)
    }
}

/// What a list of events says.
pub open spec fn event_views(events: Seq<Event>) -> Seq<EventView> {
    events.map_values(|e: Event| e@)
}

/// The fold as it is carried out.
struct Fold {
    parsed: Parsed,
    pending: Vec<String>,
    open: bool,
    last_line: u64,
    shown: usize,
}

impl Fold {
    spec fn state(self) -> FoldState {
        FoldState {
            hits: hit_views(self.parsed.hits@),
            total_matches: self.parsed.total_matches,
            files_with_matches: self.parsed.files_with_matches,
            per_file: crate::ranking::counted_views(self.parsed.per_file@),
            pending: texts(self.pending@),
            open: self.open,
            last_line: self.last_line,
            shown: self.shown as nat,
        }
    }

    fn new() -> (r: Fold)
        ensures
            r.state() == FoldState::start(),
    {
        let r = Fold {
            parsed: Parsed {
                hits: Vec::new(),
                total_matches: 0,
                files_with_matches: 0,
                per_file: Vec::new(),
            },
            pending: Vec::new(),
            open: false,
            last_line: 0,
            shown: 0,
        };
        assert(r.state() =~= FoldState::start());
        r
    }

    fn take_match(
        &mut self,
        path: &str,
        line: u64,
        column: Option<u64>,
        text: &str,
        budget: &Budget,
    )
        ensures
            final(self).state() == old(self).state().after(
                EventView::Match { path: path@, line, column, text: text@ },
                *budget,
            ),
    {
        self.last_line = line;
        let mut before: Vec<String> = Vec::new();
        if self.parsed.hits.len() >= budget.max_results || self.shown >= budget.max_per_file {
            self.open = false;
            self.pending = before;
            assert(texts(self.pending@) =~= Seq::<Seq<char>>::empty());
            return;
        }
        let ghost earlier = hit_views(self.parsed.hits@);
        before.append(&mut self.pending);
        let after: Vec<String> = Vec::new();
        let hit = Hit { path: owned(path), line, column, text: owned(text), before, after };
        self.parsed.hits.push(hit);
        self.open = true;
        self.shown = self.shown + 1;
        proof {
            assert(texts(self.pending@) =~= Seq::<Seq<char>>::empty());
            assert(texts(after@) =~= Seq::<Seq<char>>::empty());
            assert(before@ =~= old(self).pending@);
            assert(hit_views(self.parsed.hits@) =~= earlier.push(hit@));
        }
    }

    fn take_context(&mut self, line: u64, text: &str, budget: &Budget)
        ensures
            final(self).state() == old(self).state().after(
                EventView::Context { line, text: text@ },
                *budget,
            ),
    {
        let ghost earlier = hit_views(self.parsed.hits@);
        let n: usize = self.parsed.hits.len();
        let adjacent = line > 0 && line - 1 == self.last_line;
        let continues = self.open && n > 0 && self.parsed.hits[n - 1].after.len() < budget.context
            && adjacent;
        proof {
            if n > 0 {
                assert(earlier.last() == self.parsed.hits@[n - 1]@);
                assert(texts(self.parsed.hits@[n - 1].after@).len() == self.parsed.hits@[n
                    - 1].after@.len());
            }
        }
        let copy = owned(text);
        self.last_line = line;
        if continues {
            proof {
                lemma_texts_push(self.parsed.hits@[n - 1].after@, copy);
            }
            self.parsed.hits[n - 1].after.push(copy);
            proof {
                let last = earlier.last();
                let now = hit_views(self.parsed.hits@);
                let want = earlier.drop_last().push(HitView { after: last.after.push(text@), ..last });
                assert(now.len() == want.len());
                assert forall|k: int| 0 <= k < now.len() implies now[k] == want[k] by {
                    assert(now[k] == self.parsed.hits@[k]@);
                }
                assert(now =~= want);
            }
            return;
        }
        self.open = false;
        if budget.context > 0 {
            let ghost was = texts(self.pending@);
            proof {
                lemma_texts_push(self.pending@, copy);
            }
            self.pending.push(copy);
            if self.pending.len() > budget.context {
                let _ = self.pending.remove(0);
                assert(texts(self.pending@) =~= was.push(text@).skip(1));
            }
        }
    }

    fn take_end(&mut self, path: &str, matches: u64, budget: &Budget)
        ensures
            final(self).state() == old(self).state().after(
                EventView::End { path: path@, matches },
                *budget,
            ),
    {
        if matches > 0 {
            let ghost was = crate::ranking::counted_views(self.parsed.per_file@);
            self.parsed.files_with_matches = add_capped(self.parsed.files_with_matches, 1);
            self.parsed.total_matches = add_capped(self.parsed.total_matches, matches);
            let copy = owned(path);
            self.parsed.per_file.push((copy, matches));
            assert(crate::ranking::counted_views(self.parsed.per_file@) =~= was.push(
                (path@, matches),
            ));
        }
        self.open = false;
        self.pending = Vec::new();
        assert(texts(self.pending@) =~= Seq::<Seq<char>>::empty());
    }

    fn take(&mut self, event: &Event, budget: &Budget)
        ensures
            final(self).state() == old(self).state().after(event@, *budget),
    {
        match event {
            Event::Begin => {
                self.open = false;
                self.pending = Vec::new();
                self.shown = 0;
                assert(texts(self.pending@) =~= Seq::<Seq<char>>::empty());
            },
            Event::Match { path, line, column, text } => {
                self.take_match(path.as_str(), *line, *column, text.as_str(), budget);
            },
            Event::Context { line, text } => {
                self.take_context(*line, text.as_str(), budget);
            },
            Event::End { path, matches } => {
                self.take_end(path.as_str(), *matches, budget);
            },
            Event::Other => {},
        }
    }
}

/// Folds a list of events into hits and totals.
pub fn fold_events(events: &Vec<Event>, budget: &Budget) -> (r: Parsed)
    ensures
        r@ == folded(event_views(events@), *budget).result(),
{
    let mut fold = Fold::new();
    let ghost all = event_views(events@);
    let mut i: usize = 0;
    assert(all.take(0) =~= Seq::<EventView>::empty());
    while i < events.len()
        invariant
            i <= events@.len(),
            all == event_views(events@),
            fold.state() == folded(all.take(i as int), *budget),
        decreases events@.len() - i,
    {
        assert(all.take(i + 1).drop_last() =~= all.take(i as int));
        assert(all.take(i + 1).last() == events@[i as int]@);
        fold.take(&events[i], budget);
        i += 1;
    }
    assert(all.take(all.len() as int) =~= all);
    fold.parsed
}

/// The events of a stream: one for each line that is JSON.
pub open spec fn events_in(raw: Seq<char>) -> Seq<EventView> {
    lines_of(raw).filter_map(
        |line: Seq<char>|
            match json_parsed(line) {
                Ok(tree) => Some(event_of(tree)),
                Err(_) => None,
            },
    )
}

/// What a stream of events comes to.
pub open spec fn parsed_events(raw: Seq<char>, budget: Budget) -> ParsedView {
    folded(events_in(raw), budget).result()
}

/// Folds a stream of events into the flat shape that is reported.
pub fn parse_events(raw: &str, budget: &Budget) -> (r: Parsed)
    ensures
        r@ == parsed_events(raw@, *budget),
        r@ == folded(events_in(raw@), *budget).result(),
{
    let all = lines(raw);
    let ghost f = |line: Seq<char>|
        match json_parsed(line) {
            Ok(tree) => Some(event_of(tree)),
            Err(_) => None,
        };
    let ghost ls = lines_of(raw@);
    let mut events: Vec<Event> = Vec::new();
    let mut i: usize = 0;
    assert(event_views(events@) =~= ls.take(0).filter_map(f));
    while i < all.len()
        invariant
            i <= all@.len(),
            ls == texts(all@),
            f == (|line: Seq<char>|
                match json_parsed(line) {
                    Ok(tree) => Some(event_of(tree)),
                    Err(_) => None,
                }),
            event_views(events@) == ls.take(i as int).filter_map(f),
        decreases all@.len() - i,
    {
        let ghost before = event_views(events@);
        assert(ls.take(i + 1).drop_last() =~= ls.take(i as int));
        assert(ls.take(i + 1).last() == all@[i as int]@);
        if let Ok(json) = parse(all[i].as_str()) {
            let event = Event::from_json(&json);
            events.push(event);
            assert(event_views(events@) =~= before.push(event@));
            assert(before.push(event@) =~= before + seq![event@]);
        }
        i += 1;
    }
    assert(ls.take(ls.len() as int) =~= ls);
    fold_events(&events, budget)
}

/// Truncation narrows the list of hits, never the totals: they are the same
/// for every budget, and no more hits are reported than the budget allows.
pub proof fn law_budgets_leave_the_totals_alone(events: Seq<EventView>, a: Budget, b: Budget)
    ensures
        folded(events, a).total_matches == folded(events, b).total_matches,
        folded(events, a).files_with_matches == folded(events, b).files_with_matches,
        folded(events, a).per_file == folded(events, b).per_file,
        folded(events, a).hits.len() <= a.max_results,
    decreases events.len(),
{
    if events.len() > 0 {
        law_budgets_leave_the_totals_alone(events.drop_last(), a, b);
    }
}

/// What two budgets that differ only in how much is listed come to: the same,
/// or the smaller is spent and its hits are settled.
proof fn lemma_smaller_budget(events: Seq<EventView>, a: Budget, b: Budget)
    requires
        a.max_results <= b.max_results,
        a.max_per_file == b.max_per_file,
        a.context == b.context,
    ensures
        ({
            let x = folded(events, a);
            let y = folded(events, b);
            ||| x == y
            ||| x.hits.len() == a.max_results && !x.open && x.hits.len() < y.hits.len() && x.hits
                == y.hits.take(x.hits.len() as int)
        }),
    decreases events.len(),
{
    if events.len() > 0 {
        lemma_smaller_budget(events.drop_last(), a, b);
        let x = folded(events.drop_last(), a);
        let y = folded(events.drop_last(), b);
        let p = folded(events, a);
        let q = folded(events, b);
        let n = x.hits.len() as int;
        if x == y {
            law_budgets_leave_the_totals_alone(events.drop_last(), a, b);
            if q.hits.len() > p.hits.len() {
                assert(q.hits.take(n) =~= y.hits);
            }
        } else {
            assert(p.hits == x.hits);
            assert(q.hits.take(n) =~= y.hits.take(n));
        }
    }
}

/// A listing under a smaller budget is the beginning of the one under a larger,
/// where each file has the same share and each hit the same context.
pub proof fn law_smaller_listings_are_beginnings(events: Seq<EventView>, a: Budget, b: Budget)
    requires
        a.max_results <= b.max_results,
        a.max_per_file == b.max_per_file,
        a.context == b.context,
    ensures
        ({
            let small = folded(events, a).result().hits;
            let large = folded(events, b).result().hits;
            small.len() <= large.len() && small == large.take(small.len() as int)
        }),
{
    lemma_smaller_budget(events, a, b);
    let large = folded(events, b).hits;
    assert(large.take(large.len() as int) =~= large);
}

/// A hit never carries more context than the budget allows.
pub proof fn law_context_stays_within_its_budget(events: Seq<EventView>, budget: Budget)
    ensures
        folded(events, budget).pending.len() <= budget.context,
        forall|i: int|
            0 <= i < folded(events, budget).hits.len() ==> (#[trigger] folded(
                events,
                budget,
            ).hits[i]).before.len() <= budget.context && folded(events, budget).hits[i].after.len()
                <= budget.context,
    decreases events.len(),
{
    if events.len() > 0 {
        law_context_stays_within_its_budget(events.drop_last(), budget);
        let was = folded(events.drop_last(), budget);
        let now = folded(events, budget);
        assert forall|i: int| 0 <= i < now.hits.len() implies (#[trigger] now.hits[i]).before.len()
            <= budget.context && now.hits[i].after.len() <= budget.context by {
            if i < was.hits.len() {
                assert(was.hits[i].before.len() <= budget.context);
            }
        }
    }
}

/// A reported line is the line itself where it fits the budget, and otherwise
/// starts with a piece of it that ends between characters within the budget.
pub proof fn law_clipped_lines_fit(text: Seq<char>)
    ensures
        ({
            let line = without_end(text, |c: char| is_line_end(c));
            let end = floor_at(line, MAX_LINE_BYTES as int);
            &&& size_of(line) <= MAX_LINE_BYTES ==> clipped(text) == line
            &&& size_of(line) > MAX_LINE_BYTES ==> crate::text::opens(
                clipped(text),
                piece(line, 0, end),
            ) && size_of(piece(line, 0, end)) <= MAX_LINE_BYTES
        }),
{
    let line = without_end(text, |c: char| is_line_end(c));
    let end = floor_at(line, MAX_LINE_BYTES as int);
    if size_of(line) > MAX_LINE_BYTES {
        crate::slices::lemma_floor(line, MAX_LINE_BYTES as int);
        lemma_ends_are_boundaries(line);
        crate::slices::lemma_piece(line, 0, end);
        let head = piece(line, 0, end);
        assert(clipped(text).take(head.len() as int) =~= head);
    }
}

/// The hits of a file.
pub open spec fn hits_in(hits: Seq<HitView>, path: Seq<char>) -> nat
    decreases hits.len(),
{
    if hits.len() == 0 {
        0
    } else {
        hits_in(hits.drop_last(), path) + if hits.last().path == path {
            1nat
        } else {
            0
        }
    }
}

/// Whether an event is a match in a file.
pub open spec fn is_match_in(event: EventView, path: Seq<char>) -> bool {
    event matches EventView::Match { path: p, line, column, text } && p == path
}

/// Whether the matches of a file stand together: no file begins between them.
pub open spec fn stands_together(events: Seq<EventView>, path: Seq<char>) -> bool {
    forall|i: int, k: int, j: int|
        0 <= i < k < j < events.len() && is_match_in(#[trigger] events[i], path)
            && #[trigger] events[k] is Begin ==> !is_match_in(#[trigger] events[j], path)
}

/// Whether a match in a file stands before the last begin of a file.
spec fn is_past(events: Seq<EventView>, path: Seq<char>) -> bool {
    exists|i: int, k: int|
        0 <= i < k < events.len() && is_match_in(#[trigger] events[i], path)
            && #[trigger] events[k] is Begin
}

/// Giving a hit more context does not change which file it is in.
proof fn lemma_hits_in(a: Seq<HitView>, b: Seq<HitView>, path: Seq<char>)
    requires
        a.len() == b.len(),
        forall|i: int| 0 <= i < a.len() ==> (#[trigger] a[i]).path == b[i].path,
    ensures
        hits_in(a, path) == hits_in(b, path),
    decreases a.len(),
{
    if a.len() > 0 {
        let x = a.drop_last();
        let y = b.drop_last();
        assert forall|i: int| 0 <= i < x.len() implies (#[trigger] x[i]).path == y[i].path by {
            assert(a[i].path == b[i].path);
        }
        lemma_hits_in(x, y, path);
        assert(a[a.len() - 1].path == b[b.len() - 1].path);
    }
}

proof fn lemma_share(events: Seq<EventView>, budget: Budget, path: Seq<char>)
    requires
        stands_together(events, path),
    ensures
        hits_in(folded(events, budget).hits, path) <= budget.max_per_file,
        !is_past(events, path) ==> hits_in(folded(events, budget).hits, path) <= folded(
            events,
            budget,
        ).shown,
        (forall|i: int| 0 <= i < events.len() ==> !is_match_in(#[trigger] events[i], path))
            ==> hits_in(folded(events, budget).hits, path) == 0,
    decreases events.len(),
{
    if events.len() > 0 {
        let front = events.drop_last();
        let n = front.len() as int;
        assert forall|i: int, k: int, j: int|
            0 <= i < k < j < front.len() && is_match_in(#[trigger] front[i], path)
                && #[trigger] front[k] is Begin implies !is_match_in(
            #[trigger] front[j],
            path,
        ) by {
            assert(front[i] == events[i] && front[k] == events[k] && front[j] == events[j]);
        }
        lemma_share(front, budget, path);
        let was = folded(front, budget);
        let now = folded(events, budget);
        if is_past(front, path) {
            let (i, k) = choose|i: int, k: int|
                0 <= i < k < front.len() && is_match_in(#[trigger] front[i], path)
                    && #[trigger] front[k] is Begin;
            assert(is_match_in(events[i], path) && events[k] is Begin);
        }
        if forall|i: int| 0 <= i < events.len() ==> !is_match_in(#[trigger] events[i], path) {
            assert forall|i: int| 0 <= i < front.len() implies !is_match_in(
                #[trigger] front[i],
                path,
            ) by {
                assert(front[i] == events[i]);
            }
        }
        match events.last() {
            EventView::Match { path: p, line, column, text } => {
                if now.hits.len() > was.hits.len() {
                    assert(now.hits.drop_last() =~= was.hits);
                    if p == path {
                        assert(is_match_in(events[n], path));
                        if is_past(front, path) {
                            let (i, k) = choose|i: int, k: int|
                                0 <= i < k < front.len() && is_match_in(#[trigger] front[i], path)
                                    && #[trigger] front[k] is Begin;
                            assert(is_match_in(events[i], path) && events[k] is Begin);
                            assert(!is_match_in(events[n], path));
                        }
                    }
                }
            },
            EventView::Context { line, text } => {
                assert(now.hits.len() == was.hits.len());
                lemma_hits_in(now.hits, was.hits, path);
            },
            EventView::Begin => {
                if !is_past(events, path) {
                    assert forall|i: int| 0 <= i < front.len() implies !is_match_in(
                        #[trigger] front[i],
                        path,
                    ) by {
                        assert(front[i] == events[i]);
                        assert(events[n] is Begin);
                        if is_match_in(events[i], path) {
                            assert(is_past(events, path));
                        }
                    }
                }
            },
            _ => {},
        }
    }
}

/// No file crowds out the rest: where the matches of a file stand together, no
/// more of them are reported than the budget gives each file.
pub proof fn law_no_file_exceeds_its_share(
    events: Seq<EventView>,
    budget: Budget,
    path: Seq<char>,
)
    requires
        stands_together(events, path),
    ensures
        hits_in(folded(events, budget).result().hits, path) <= budget.max_per_file,
{
    lemma_share(events, budget, path);
}

} // verus!
