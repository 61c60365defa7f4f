//! What the events of a search come to: which matches are hits, which lines
//! stand around them, and what is counted.
use crate::events::{event_of, folded, Budget, EventView, HitView};
use crate::json::JsonTree;
use vstd::prelude::*;

verus! {

/// The number of matches since the last file began.
pub open spec fn matches_since_begin(events: Seq<EventView>) -> nat
    decreases events.len(),
{
    if events.len() == 0 {
        0
    } else {
        match events.last() {
            EventView::Begin => 0,
            EventView::Match { .. } => matches_since_begin(events.drop_last()) + 1,
            _ => matches_since_begin(events.drop_last()),
        }
    }
}

proof fn lemma_shown(events: Seq<EventView>, budget: Budget)
    ensures
        folded(events, budget).shown <= matches_since_begin(events),
    decreases events.len(),
{
    if events.len() > 0 {
        lemma_shown(events.drop_last(), budget);
    }
}

/// Whether two hits are of the same match, with the same lines before it.
pub open spec fn same_match(a: HitView, b: HitView) -> bool {
    a.path == b.path && a.line == b.line && a.column == b.column && a.text == b.text && a.before
        == b.before
}

/// What later events leave alone: every hit, but for the lines after an open
/// one.
proof fn lemma_hits_stay(events: Seq<EventView>, budget: Budget, m: int, h: int)
    requires
        0 <= m <= events.len(),
        0 <= h < folded(events.take(m), budget).hits.len(),
    ensures
        ({
            let was = folded(events.take(m), budget);
            let now = folded(events, budget);
            &&& was.hits.len() <= now.hits.len()
            &&& same_match(was.hits[h], now.hits[h])
            &&& !was.open || h < was.hits.len() - 1 ==> was.hits[h] == now.hits[h]
            &&& !was.open && now.open ==> now.hits.len() > was.hits.len()
            &&& h < was.hits.len() - 1 ==> h < now.hits.len() - 1
        }),
    decreases events.len(),
{
    if m == events.len() {
        assert(events.take(m) =~= events);
    } else {
        let front = events.drop_last();
        assert(front.take(m) =~= events.take(m));
        lemma_hits_stay(front, budget, m, h);
    }
}

/// A match is a hit wherever the budget has room for it, both for the whole
/// answer and for its file: with its own path, line, column and text, behind the
/// hits of the matches before it.
pub proof fn law_matches_within_the_budget_are_hits(
    events: Seq<EventView>,
    budget: Budget,
    m: int,
)
    requires
        0 <= m < events.len(),
        events[m] is Match,
        folded(events.take(m), budget).result().hits.len() < budget.max_results,
        matches_since_begin(events.take(m)) < budget.max_per_file,
    ensures
        ({
            let at = folded(events.take(m), budget).result().hits.len() as int;
            let hits = folded(events, budget).result().hits;
            &&& at < hits.len()
            &&& events[m] matches EventView::Match { path, line, column, text } && hits[at].path
                == path && hits[at].line == line && hits[at].column == column && hits[at].text
                == text
        }),
{
    let was = folded(events.take(m), budget);
    let at = was.hits.len() as int;
    lemma_shown(events.take(m), budget);
    assert(events.take(m + 1).drop_last() =~= events.take(m));
    assert(events.take(m + 1).last() == events[m]);
    lemma_hits_stay(events, budget, m + 1, at);
}

/// Every hit is of a match: nothing else makes one.
pub proof fn law_hits_are_matches(events: Seq<EventView>, budget: Budget, h: int)
    requires
        0 <= h < folded(events, budget).result().hits.len(),
    ensures
        ({
            let hit = folded(events, budget).result().hits[h];
            exists|m: int|
                0 <= m < events.len() && (#[trigger] events[m] matches EventView::Match {
                    path,
                    line,
                    column,
                    text,
                } && path == hit.path && line == hit.line && column == hit.column && text
                    == hit.text)
        }),
    decreases events.len(),
{
    let now = folded(events, budget);
    let front = events.drop_last();
    let was = folded(front, budget);
    if h < was.hits.len() {
        law_hits_are_matches(front, budget, h);
        let m = choose|m: int|
            0 <= m < front.len() && (#[trigger] front[m] matches EventView::Match {
                path,
                line,
                column,
                text,
            } && path == was.hits[h].path && line == was.hits[h].line && column
                == was.hits[h].column && text == was.hits[h].text);
        assert(events[m] == front[m]);
        assert(same_match(was.hits[h], now.hits[h]));
    } else {
        assert(events[events.len() - 1] is Match);
    }
}

/// The text of a line of context.
pub open spec fn context_text(event: EventView) -> Seq<char> {
    match event {
        EventView::Context { line, text } => text,
        _ => Seq::empty(),
    }
}

/// The texts of the `k` events behind the one at `m`.
pub open spec fn texts_behind(events: Seq<EventView>, m: int, k: nat) -> Seq<Seq<char>> {
    Seq::new(k, |i: int| context_text(events[m + 1 + i]))
}

/// Whether the `k` events behind the one at `m` are the lines behind line `n`,
/// one after the other.
pub open spec fn lines_follow(events: Seq<EventView>, m: int, k: nat, n: u64) -> bool {
    &&& m + 1 + k <= events.len()
    &&& forall|i: int|
        m < i <= m + k ==> (#[trigger] events[i] matches EventView::Context { line, text } && line
            == n + (i - m))
}

/// The last of a list, up to a limit.
pub open spec fn last_of(list: Seq<Seq<char>>, limit: nat) -> Seq<Seq<char>> {
    if list.len() <= limit {
        list
    } else {
        list.skip(list.len() - limit)
    }
}

/// The smaller of two numbers.
pub open spec fn least(a: nat, b: nat) -> nat {
    if a <= b {
        a
    } else {
        b
    }
}

/// What follows a hit: the first lines behind it are its own, and what is more
/// is kept for the next.
proof fn lemma_lines_follow(events: Seq<EventView>, budget: Budget, m: int, k: nat, n: u64)
    requires
        0 <= m,
        lines_follow(events, m, k, n),
        folded(events.take(m + 1), budget).open,
        folded(events.take(m + 1), budget).hits.len() > 0,
        folded(events.take(m + 1), budget).hits.last().after.len() == 0,
        folded(events.take(m + 1), budget).pending.len() == 0,
        folded(events.take(m + 1), budget).last_line == n,
    ensures
        ({
            let was = folded(events.take(m + 1), budget);
            let now = folded(events.take(m + 1 + k), budget);
            let all = texts_behind(events, m, k);
            let taken = least(k, budget.context as nat);
            &&& now.hits.len() == was.hits.len()
            &&& now.hits.last().after == all.take(taken as int)
            &&& same_match(now.hits.last(), was.hits.last())
            &&& now.pending == last_of(all.skip(taken as int), budget.context as nat)
            &&& now.open <==> k <= budget.context
            &&& now.shown == was.shown
            &&& k > 0 ==> now.last_line == n + k
            &&& k == 0 ==> now.last_line == n
        }),
    decreases k,
{
    let was = folded(events.take(m + 1), budget);
    let all = texts_behind(events, m, k);
    let limit = budget.context as nat;
    if k == 0 {
        assert(all.take(0) =~= was.hits.last().after);
        assert(last_of(all.skip(0), limit) =~= was.pending);
        assert(events.take(m + 1 + k) =~= events.take(m + 1));
    } else {
        let j = (k - 1) as nat;
        lemma_lines_follow(events, budget, m, j, n);
        let some = texts_behind(events, m, j);
        let before = folded(events.take(m + 1 + j), budget);
        let now = folded(events.take(m + 1 + k), budget);
        assert(events.take(m + 1 + k).drop_last() =~= events.take(m + 1 + j));
        assert(events.take(m + 1 + k).last() == events[m + k]);
        assert(all =~= some.push(all.last()));
        if k <= limit {
            assert(before.continues((n + k) as u64, budget));
            assert(all.take(k as int) =~= some.take(j as int).push(all.last()));
            assert(last_of(all.skip(k as int), limit) =~= before.pending);
        } else {
            assert(!before.continues((n + k) as u64, budget)) by {
                if before.open {
                    assert(before.hits.last().after.len() == limit);
                }
            }
            let t = limit as int;
            assert(all.take(t) =~= some.take(t));
            assert(all.skip(t) =~= some.skip(t).push(all.last()));
            let left = some.skip(t);
            if limit == 0 {
                assert(last_of(all.skip(t), limit) =~= Seq::<Seq<char>>::empty());
                assert(before.pending =~= Seq::<Seq<char>>::empty());
            } else if left.len() < limit {
                assert(last_of(all.skip(t), limit) =~= before.pending.push(all.last()));
            } else {
                assert(last_of(all.skip(t), limit) =~= before.pending.push(all.last()).skip(1));
            }
        }
    }
}

/// The state behind a match that is a hit.
proof fn lemma_hit(events: Seq<EventView>, budget: Budget, m: int)
    requires
        0 <= m < events.len(),
        events[m] is Match,
        folded(events.take(m), budget).hits.len() < budget.max_results,
        matches_since_begin(events.take(m)) < budget.max_per_file,
    ensures
        ({
            let was = folded(events.take(m), budget);
            let now = folded(events.take(m + 1), budget);
            &&& now.open
            &&& now.hits.len() == was.hits.len() + 1
            &&& now.hits.last().before == was.pending
            &&& now.hits.last().after.len() == 0
            &&& now.pending.len() == 0
            &&& events[m] matches EventView::Match { path, line, column, text } && now.last_line
                == line
        }),
{
    lemma_shown(events.take(m), budget);
    assert(events.take(m + 1).drop_last() =~= events.take(m));
    assert(events.take(m + 1).last() == events[m]);
}

/// The lines right behind a hit are its own: the texts of as many of the lines
/// that follow one another behind it as the context asks for, in order, and no
/// other.
pub proof fn law_hits_carry_the_lines_behind_them(
    events: Seq<EventView>,
    budget: Budget,
    m: int,
    k: nat,
    n: u64,
)
    requires
        0 <= m < events.len(),
        events[m] matches EventView::Match { path, line, column, text } && line == n,
        folded(events.take(m), budget).result().hits.len() < budget.max_results,
        matches_since_begin(events.take(m)) < budget.max_per_file,
        lines_follow(events, m, k, n),
        m + 1 + k < events.len() ==> !(events[m + 1 + k] is Other) && !lines_follow(
            events,
            m,
            k + 1,
            n,
        ),
    ensures
        ({
            let at = folded(events.take(m), budget).result().hits.len() as int;
            let hits = folded(events, budget).result().hits;
            at < hits.len() && hits[at].after == texts_behind(events, m, k).take(
                least(k, budget.context as nat) as int,
            )
        }),
{
    let at = folded(events.take(m), budget).hits.len() as int;
    lemma_hit(events, budget, m);
    lemma_lines_follow(events, budget, m, k, n);
    let e = m + 1 + k;
    let run = folded(events.take(e), budget);
    assert(run.hits[at] == run.hits.last());
    if e == events.len() {
        assert(events.take(e) =~= events);
    } else {
        assert(events.take(e + 1).drop_last() =~= events.take(e));
        assert(events.take(e + 1).last() == events[e]);
        let next = folded(events.take(e + 1), budget);
        if let EventView::Context { line, text } = events[e] {
            if line == n + (k + 1) {
                assert forall|i: int| m < i <= m + (k + 1) implies (
                #[trigger] events[i] matches EventView::Context { line, text } && line == n + (i
                    - m)) by {}
                assert(lines_follow(events, m, k + 1, n));
            }
            assert(!run.continues(line, budget));
        }
        assert(next.hits[at] == run.hits[at]);
        assert(!next.open || at < next.hits.len() - 1);
        lemma_hits_stay(events, budget, e + 1, at);
    }
}

/// The lines between two hits of a file that follow one another are shared out:
/// the first takes as many as the context asks for, and the second the last of
/// what is left, again as many at most.
pub proof fn law_lines_between_hits_are_shared_out(
    events: Seq<EventView>,
    budget: Budget,
    m: int,
    k: nat,
    n: u64,
)
    requires
        0 <= m,
        m + 1 + k < events.len(),
        events[m] matches EventView::Match { path, line, column, text } && line == n,
        events[m + 1 + k] is Match,
        folded(events.take(m), budget).result().hits.len() + 1 < budget.max_results,
        matches_since_begin(events.take(m)) + 1 < budget.max_per_file,
        lines_follow(events, m, k, n),
    ensures
        ({
            let at = folded(events.take(m), budget).result().hits.len() as int;
            let hits = folded(events, budget).result().hits;
            let all = texts_behind(events, m, k);
            let limit = budget.context as nat;
            &&& at + 1 < hits.len()
            &&& hits[at].after == all.take(least(k, limit) as int)
            &&& hits[at + 1].before == last_of(all.skip(least(k, limit) as int), limit)
        }),
{
    let e = m + 1 + k;
    let at = folded(events.take(m), budget).hits.len() as int;
    law_hits_carry_the_lines_behind_them(events, budget, m, k, n);
    lemma_hit(events, budget, m);
    lemma_lines_follow(events, budget, m, k, n);
    lemma_matches_since(events, m, k, n);
    lemma_hit(events, budget, e);
    lemma_hits_stay(events, budget, e + 1, at + 1);
}

proof fn lemma_matches_since(events: Seq<EventView>, m: int, k: nat, n: u64)
    requires
        0 <= m < events.len(),
        events[m] is Match,
        lines_follow(events, m, k, n),
    ensures
        matches_since_begin(events.take(m + 1 + k)) == matches_since_begin(events.take(m)) + 1,
    decreases k,
{
    if k == 0 {
        assert(events.take(m + 1).drop_last() =~= events.take(m));
        assert(events.take(m + 1).last() == events[m]);
    } else {
        lemma_matches_since(events, m, (k - 1) as nat, n);
        assert(events.take(m + 1 + k).drop_last() =~= events.take(m + k));
        assert(events.take(m + 1 + k).last() == events[m + k]);
    }
}

proof fn lemma_lines_before(events: Seq<EventView>, budget: Budget, b: int, k: nat)
    requires
        0 <= b,
        b + 1 + k <= events.len(),
        events[b] is Begin || events[b] is End,
        forall|i: int| b < i <= b + k ==> #[trigger] events[i] is Context,
    ensures
        ({
            let was = folded(events.take(b), budget);
            let now = folded(events.take(b + 1 + k), budget);
            &&& now.pending == last_of(texts_behind(events, b, k), budget.context as nat)
            &&& !now.open
            &&& now.hits == was.hits
        }),
    decreases k,
{
    let limit = budget.context as nat;
    let all = texts_behind(events, b, k);
    if k == 0 {
        assert(events.take(b + 1).drop_last() =~= events.take(b));
        assert(events.take(b + 1).last() == events[b]);
        assert(last_of(all, limit) =~= Seq::<Seq<char>>::empty());
    } else {
        let j = (k - 1) as nat;
        lemma_lines_before(events, budget, b, j);
        let some = texts_behind(events, b, j);
        let before = folded(events.take(b + 1 + j), budget);
        assert(events.take(b + 1 + k).drop_last() =~= events.take(b + 1 + j));
        assert(events.take(b + 1 + k).last() == events[b + k]);
        assert(events[b + k] is Context);
        assert(all =~= some.push(all.last()));
        if limit == 0 {
            assert(last_of(all, limit) =~= before.pending);
        } else if some.len() < limit {
            assert(last_of(all, limit) =~= before.pending.push(all.last()));
        } else {
            assert(last_of(all, limit) =~= before.pending.push(all.last()).skip(1));
        }
    }
}

/// The lines between the beginning of a file, or the end of the one before, and
/// its first match stand before that match: the last of them, as many as the
/// context asks for, in order.
pub proof fn law_first_hits_carry_the_lines_before_them(
    events: Seq<EventView>,
    budget: Budget,
    b: int,
    k: nat,
)
    requires
        0 <= b,
        b + 1 + k < events.len(),
        events[b] is Begin || events[b] is End,
        forall|i: int| b < i <= b + k ==> #[trigger] events[i] is Context,
        events[b + 1 + k] is Match,
        folded(events.take(b), budget).result().hits.len() < budget.max_results,
        matches_since_begin(events.take(b + 1)) < budget.max_per_file,
    ensures
        ({
            let at = folded(events.take(b), budget).result().hits.len() as int;
            let hits = folded(events, budget).result().hits;
            at < hits.len() && hits[at].before == last_of(
                texts_behind(events, b, k),
                budget.context as nat,
            )
        }),
{
    let m = b + 1 + k;
    lemma_lines_before(events, budget, b, k);
    lemma_none_since(events, b, k);
    lemma_hit(events, budget, m);
    lemma_hits_stay(events, budget, m + 1, folded(events.take(b), budget).hits.len() as int);
}

proof fn lemma_none_since(events: Seq<EventView>, b: int, k: nat)
    requires
        0 <= b,
        b + 1 + k <= events.len(),
        forall|i: int| b < i <= b + k ==> #[trigger] events[i] is Context,
    ensures
        matches_since_begin(events.take(b + 1 + k)) == matches_since_begin(events.take(b + 1)),
    decreases k,
{
    if k > 0 {
        lemma_none_since(events, b, (k - 1) as nat);
        assert(events.take(b + 1 + k).drop_last() =~= events.take(b + k));
        assert(events.take(b + 1 + k).last() == events[b + k]);
        assert(events[b + k] is Context);
    }
}

/// The file and the number of matches that an event reports, if it ends a file
/// that has any.
pub open spec fn ended(event: EventView) -> Option<(Seq<char>, u64)> {
    match event {
        EventView::End { path, matches } => if matches > 0 {
            Some((path, matches))
        } else {
            None
        },
        _ => None,
    }
}

/// The sum of counts.
pub open spec fn sum_of(counts: Seq<(Seq<char>, u64)>) -> nat
    decreases counts.len(),
{
    if counts.len() == 0 {
        0
    } else {
        sum_of(counts.drop_last()) + counts.last().1 as nat
    }
}

/// What is counted comes from the ends of files, whatever is reported: the files
/// that have matches, in order, each with its number, how many they are, and the
/// sum of their matches, as far as it can be counted.
pub proof fn law_totals_come_from_the_ends_of_files(events: Seq<EventView>, budget: Budget)
    ensures
        ({
            let r = folded(events, budget).result();
            let ends = events.filter_map(|e: EventView| ended(e));
            &&& r.per_file == ends
            &&& ends.len() <= u64::MAX ==> r.files_with_matches == ends.len()
            &&& sum_of(ends) <= u64::MAX ==> r.total_matches == sum_of(ends)
            &&& sum_of(ends) > u64::MAX ==> r.total_matches == u64::MAX
        }),
    decreases events.len(),
{
    let f = |e: EventView| ended(e);
    if events.len() > 0 {
        let front = events.drop_last();
        law_totals_come_from_the_ends_of_files(front, budget);
        let before = front.filter_map(f);
        let ends = events.filter_map(f);
        if let Some(one) = f(events.last()) {
            assert(before + seq![one] =~= before.push(one));
            assert(ends.drop_last() =~= before);
            assert(ends.last() == one);
        }
    }
}

proof fn lemma_event_keys()
    ensures
        "begin"@.len() == 5,
        "match"@.len() == 5,
        "context"@.len() == 7,
        "end"@.len() == 3,
        "begin"@[0] != "match"@[0],
{
    reveal_strlit("begin");
    reveal_strlit("match");
    reveal_strlit("context");
    reveal_strlit("end");
}

/// The text inside a field, which stands under `text` in it; none where it is
/// missing.
pub open spec fn wrapped_text(data: JsonTree, key: Seq<char>) -> Seq<char> {
    match data.field(key) {
        Some(inner) => match inner.field_text("text"@) {
            Some(text) => text,
            None => Seq::empty(),
        },
        None => Seq::empty(),
    }
}

/// Where the first match of a line starts, if the data says so.
pub open spec fn first_start(data: JsonTree) -> Option<u64> {
    match data.field_list("submatches"@) {
        Some(items) => if items.len() > 0 {
            items[0].field_unsigned("start"@)
        } else {
            None
        },
        None => None,
    }
}

/// What an event is follows from its type, and what it says from its data: a
/// match the path, the line, the column of its first place and the text; a line
/// of context the line and the text; the end of a file its path and how many
/// matches it has.
pub proof fn law_events_say_what_their_data_holds(tree: JsonTree, data: JsonTree)
    requires
        tree.field("data"@) == Some(data),
    ensures
        ({
            let kind = tree.field_text("type"@);
            let line = data.field_unsigned("line_number"@);
            let text = crate::events::clipped(wrapped_text(data, "lines"@));
            &&& kind == Some("begin"@) ==> event_of(tree) is Begin
            &&& kind == Some("match"@) ==> (event_of(tree) matches EventView::Match {
                path,
                line: l,
                column,
                text: t,
            } && path == wrapped_text(data, "path"@) && t == text && (line matches Some(n) ==> l
                == n) && (
            first_start(data) matches Some(start) ==> column == Some(
                if start < u64::MAX {
                    (start + 1) as u64
                } else {
                    u64::MAX
                },
            )) && (first_start(data) is None ==> column is None))
            &&& kind == Some("context"@) ==> (event_of(tree) matches EventView::Context {
                line: l,
                text: t,
            } && t == text && (line matches Some(n) ==> l == n))
            &&& kind == Some("end"@) ==> (event_of(tree) matches EventView::End { path, matches }
                && path == wrapped_text(data, "path"@) && (data.field("stats"@) matches Some(s) && (
            s.field_unsigned("matches"@) is Some) ==> Some(matches) == (data.field(
                "stats"@,
            )->0).field_unsigned("matches"@)))
            &&& kind is None ==> event_of(tree) is Other
        }),
{
    lemma_event_keys();
}

proof fn lemma_ends_stripped(text: Seq<char>)
    requires
        text.len() > 0 ==> text.last() != '\n' && text.last() != '\r',
    ensures
        crate::text::without_end(text, |c: char| crate::events::is_line_end(c)) == text,
        crate::text::without_end(text.push('\n'), |c: char| crate::events::is_line_end(c)) == text,
        crate::text::without_end(
            text.push('\r').push('\n'),
            |c: char| crate::events::is_line_end(c),
        ) == text,
{
    let f = |c: char| crate::events::is_line_end(c);
    assert(text.push('\n').drop_last() =~= text);
    assert(text.push('\r').drop_last() =~= text);
    assert(text.push('\r').push('\n').drop_last() =~= text.push('\r'));
    reveal_with_fuel(crate::text::without_end, 4);
    assert(f('\r') && f('\n'));
}

/// A line of up to five hundred and twelve bytes is reported whole, without the
/// end of the line.
pub proof fn law_short_lines_are_reported_whole(text: Seq<char>)
    requires
        text.len() > 0 ==> text.last() != '\n' && text.last() != '\r',
        vstd::utf8::encode_utf8(text).len() <= 512,
    ensures
        crate::events::clipped(text) == text,
        crate::events::clipped(text.push('\n')) == text,
        crate::events::clipped(text.push('\r').push('\n')) == text,
{
    lemma_ends_stripped(text);
}

/// Every line that is JSON is an event, in order, and other lines are passed
/// over.
pub proof fn law_every_line_of_json_is_an_event(line: Seq<char>, rest: Seq<char>)
    requires
        !line.contains('\n'),
        line.len() == 0 || line.last() != '\r',
    ensures
        crate::json::json_parsed(line) matches Ok(tree) ==> crate::events::events_in(
            line + seq!['\n'] + rest,
        ) == seq![event_of(tree)] + crate::events::events_in(rest),
        crate::json::json_parsed(line) is Err ==> crate::events::events_in(
            line + seq!['\n'] + rest,
        ) == crate::events::events_in(rest),
{
    crate::text_laws::law_lines_end_at_line_feeds(line, rest);
    let f = |line: Seq<char>|
        match crate::json::json_parsed(line) {
            Ok(tree) => Some(event_of(tree)),
            Err(_) => None,
        };
    crate::lists::lemma_filter_map_first(line, crate::text::lines_of(rest), f);
}

} // verus!
