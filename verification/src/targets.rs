//! The paths a search is given, and what the search ends with.
use crate::output::{DisplayView, PathDisplay};
use crate::text::{
    add_text, chars_of, is_space, owned, string_of, texts, trim, trimmed, without_end,
    without_start,
};
use vstd::prelude::*;

verus! {

/// A path argument as it is searched and as it was typed. What was typed is
/// printed in front of every path that is found below it.
pub struct SearchTarget {
    pub path: String,
    pub typed: String,
}

/// What a [`SearchTarget`] is.
pub struct TargetView {
    pub path: Seq<char>,
    pub typed: Seq<char>,
}

impl View for SearchTarget {
    type V = TargetView;

    open spec fn view(&self) -> TargetView {
        TargetView { path: self.path@, typed: self.typed@ }
    }
}

/// The views of targets.
pub open spec fn target_views(targets: Seq<SearchTarget>) -> Seq<TargetView> {
    targets.map_values(|t: SearchTarget| t@)
}

/// Whether a text stands in quotes of one kind.
pub open spec fn is_quoted(s: Seq<char>) -> bool {
    s.len() >= 2 && s[0] == s.last() && (s[0] == '"' || s[0] == '\'')
}

/// A text without the quotes around it, however many, and without the space
/// within them.
pub open spec fn unquoted(s: Seq<char>) -> Seq<char>
    decreases s.len(),
    via unquoted_decreases
{
    if is_quoted(s) {
        unquoted(trimmed(s.subrange(1, s.len() - 1)))
    } else {
        s
    }
}

#[via_fn]
proof fn unquoted_decreases(s: Seq<char>) {
    if is_quoted(s) {
        lemma_trimmed(s.subrange(1, s.len() - 1));
    }
}

/// A path argument without the space and the quotes around it.
pub open spec fn target_text(given: Seq<char>) -> Seq<char> {
    unquoted(trimmed(given))
}

/// The target that an argument is.
pub open spec fn target_of(given: Seq<char>) -> TargetView {
    TargetView { path: target_text(given), typed: target_text(given) }
}

/// The targets of a list of arguments; without any it is the current directory,
/// which is then not printed.
pub open spec fn targets_of(given: Seq<Seq<char>>) -> Seq<TargetView> {
    if given.len() == 0 {
        seq![TargetView { path: "."@, typed: Seq::empty() }]
    } else {
        given.map_values(|s: Seq<char>| target_of(s))
    }
}

proof fn lemma_without_end_len(s: Seq<char>, p: spec_fn(char) -> bool)
    ensures
        without_end(s, p).len() <= s.len(),
        without_end(s, p).len() > 0 ==> !p(without_end(s, p).last()),
        without_end(s, p) == s.take(without_end(s, p).len() as int),
    decreases s.len(),
{
    if s.len() > 0 && p(s.last()) {
        lemma_without_end_len(s.drop_last(), p);
        let n = without_end(s, p).len() as int;
        assert(s.drop_last().take(n) =~= s.take(n));
    } else {
        assert(s.take(s.len() as int) =~= s);
    }
}

proof fn lemma_without_start_len(s: Seq<char>, p: spec_fn(char) -> bool)
    ensures
        without_start(s, p).len() <= s.len(),
        without_start(s, p).len() > 0 ==> !p(without_start(s, p)[0]),
    decreases s.len(),
{
    if s.len() > 0 && p(s[0]) {
        lemma_without_start_len(s.skip(1), p);
    }
}

/// What is trimmed is not longer, and has no space at either end.
proof fn lemma_trimmed(s: Seq<char>)
    ensures
        trimmed(s).len() <= s.len(),
        trimmed(trimmed(s)) == trimmed(s),
{
    let p = |c: char| is_space(c);
    let a = without_start(s, p);
    let b = without_end(a, p);
    lemma_without_start_len(s, p);
    lemma_without_end_len(a, p);
    if b.len() > 0 {
        assert(b[0] == a[0]);
        assert(!p(b[0]));
        assert(!p(b.last()));
    }
    assert(without_start(b, p) == b);
    assert(without_end(b, p) == b);
}

/// What is left of a path argument stands in no quotes and has no space at
/// either end, so that taking it apart again changes nothing.
pub proof fn law_target_texts_are_bare(given: Seq<char>)
    ensures
        !is_quoted(target_text(given)),
        trimmed(target_text(given)) == target_text(given),
        target_text(target_text(given)) == target_text(given),
{
    lemma_trimmed(given);
    lemma_unquoted(trimmed(given));
}

proof fn lemma_unquoted(s: Seq<char>)
    requires
        trimmed(s) == s,
    ensures
        !is_quoted(unquoted(s)),
        trimmed(unquoted(s)) == unquoted(s),
        unquoted(unquoted(s)) == unquoted(s),
    decreases s.len(),
{
    if is_quoted(s) {
        let inner = s.subrange(1, s.len() - 1);
        lemma_trimmed(inner);
        lemma_unquoted(trimmed(inner));
    }
}

fn unquote(s: &str) -> (r: String)
    requires
        trimmed(s@) == s@,
    ensures
        r@ == unquoted(s@),
{
    let mut text = owned(s);
    loop
        invariant
            trimmed(text@) == text@,
            unquoted(text@) == unquoted(s@),
        decreases text@.len(),
    {
        let chars = chars_of(text.as_str());
        let n: usize = chars.len();
        if n < 2 || chars[0] != chars[n - 1] || !(chars[0] == '"' || chars[0] == '\'') {
            return text;
        }
        let inner = string_of(&chars, 1, n - 1);
        proof {
            lemma_trimmed(inner@);
        }
        text = trim(inner.as_str());
    }
}

fn target(given: &str) -> (r: SearchTarget)
    ensures
        r@ == target_of(given@),
{
    proof {
        lemma_trimmed(given@);
    }
    let outer = trim(given);
    let text = unquote(outer.as_str());
    SearchTarget { path: text.clone(), typed: text }
}

/// The targets of a list of arguments.
pub fn normalize_search_paths(paths: &Vec<String>) -> (r: Vec<SearchTarget>)
    ensures
        target_views(r@) == targets_of(texts(paths@)),
{
    let mut out: Vec<SearchTarget> = Vec::new();
    if paths.len() == 0 {
        out.push(SearchTarget { path: owned("."), typed: String::new() });
        proof {
            reveal_strlit("");
            assert(target_views(out@) =~= targets_of(texts(paths@)));
        }
        return out;
    }
    let ghost all = texts(paths@);
    let ghost f = |s: Seq<char>| target_of(s);
    let mut i: usize = 0;
    assert(target_views(out@) =~= all.take(0).map_values(f));
    while i < paths.len()
        invariant
            i <= paths@.len(),
            all == texts(paths@),
            f == (|s: Seq<char>| target_of(s)),
            target_views(out@) == all.take(i as int).map_values(f),
        decreases paths@.len() - i,
    {
        let next = target(paths[i].as_str());
        let ghost before = out@;
        out.push(next);
        proof {
            assert(target_views(out@) =~= target_views(before).push(next@));
            assert(all.take(i + 1).map_values(f) =~= all.take(i as int).map_values(f).push(
                target_of(all[i as int]),
            ));
        }
        i += 1;
    }
    assert(all.take(all.len() as int) =~= all);
    out
}

/// How paths found below an argument are printed: a file as it was typed, and
/// what is found in a directory behind it and a separator. One that was typed
/// is kept, and `separator` is put where there is none.
pub open spec fn target_display(typed: Seq<char>, is_file: bool, separator: char) -> DisplayView {
    if typed.len() == 0 {
        DisplayView::Bare
    } else if is_file {
        DisplayView::Exact(typed)
    } else if typed.last() == '/' || typed.last() == '\\' {
        DisplayView::Prefix(typed)
    } else {
        DisplayView::Prefix(typed.push(separator))
    }
}

impl SearchTarget {
    /// How paths found below this argument are printed.
    pub fn display(&self, is_file: bool, separator: char) -> (r: PathDisplay)
        ensures
            r@ == target_display(self.typed@, is_file, separator),
    {
        let chars = chars_of(self.typed.as_str());
        let n: usize = chars.len();
        if n == 0 {
            return PathDisplay::Bare;
        }
        let mut prefix = self.typed.clone();
        if is_file {
            return PathDisplay::Exact(prefix);
        }
        if chars[n - 1] != '/' && chars[n - 1] != '\\' {
            prefix.push(separator);
        }
        PathDisplay::Prefix(prefix)
    }
}

/// Whether names of files are left out: where that is asked for, or where one
/// file alone is searched and nothing asks for its name.
pub open spec fn hides_names(
    no_filename: bool,
    with_filename: bool,
    vimgrep: bool,
    targets: nat,
    first_is_file: bool,
) -> bool {
    no_filename || (!with_filename && !vimgrep && targets == 1 && first_is_file)
}

/// Whether names of files are left out.
pub fn hides_filenames(
    no_filename: bool,
    with_filename: bool,
    vimgrep: bool,
    targets: usize,
    first_is_file: bool,
) -> (r: bool)
    ensures
        r == hides_names(no_filename, with_filename, vimgrep, targets as nat, first_is_file),
{
    no_filename || (!with_filename && !vimgrep && targets == 1 && first_is_file)
}

/// What is said of a path that cannot be read.
pub open spec fn missing_text(path: Seq<char>, reason: Seq<char>) -> Seq<char> {
    "tgrep: "@ + path + ": IO error for operation on "@ + path + ": "@ + reason
}

/// What is said of a path that cannot be read; nothing where messages are
/// suppressed.
pub fn report_missing_path(path: &str, reason: &str, no_messages: bool) -> (r: Option<String>)
    ensures
        match r {
            Some(m) => !no_messages && m@ == missing_text(path@, reason@),
            None => no_messages,
        },
{
    if no_messages {
        return None;
    }
    let mut out = owned("tgrep: ");
    add_text(&mut out, path);
    add_text(&mut out, ": IO error for operation on ");
    add_text(&mut out, path);
    add_text(&mut out, ": ");
    add_text(&mut out, reason);
    Some(out)
}

/// What came of searching one target.
#[derive(Clone, Copy, Debug, PartialEq, Eq, Structural)]
pub enum Searched {
    /// There is no such path.
    Missing,
    /// It was searched, and matched or not.
    Done(bool),
    /// The search failed.
    Failed,
}

/// How far a search has come.
#[derive(Clone, Copy, Debug, PartialEq, Eq, Structural)]
pub struct SearchRun {
    pub had_matches: bool,
    pub errored: bool,
}

/// What follows the search of a target.
#[derive(Clone, Copy, Debug, PartialEq, Eq, Structural)]
pub enum AfterTarget {
    /// The next target is searched.
    Continue(SearchRun),
    /// The program ends with this code.
    Exit(i32),
}

/// The code of a program that found something.
pub const FOUND: i32 = 0;

/// The code of a program that found nothing.
pub const NOT_FOUND: i32 = 1;

/// The code of a program that failed.
pub const FAILED: i32 = 2;

impl SearchRun {
    /// What follows a target: a failure ends the search, and so does a match
    /// where nothing is printed. A path that is missing is an error, but the
    /// rest is still searched.
    pub open spec fn next(self, quiet: bool, searched: Searched) -> AfterTarget {
        match searched {
            Searched::Missing => AfterTarget::Continue(SearchRun { errored: true, ..self }),
            Searched::Done(true) => if quiet {
                AfterTarget::Exit(FOUND)
            } else {
                AfterTarget::Continue(SearchRun { had_matches: true, ..self })
            },
            Searched::Done(false) => AfterTarget::Continue(self),
            Searched::Failed => AfterTarget::Exit(FAILED),
        }
    }

    /// The code that a search ends with when all targets were searched: an error
    /// is told even where there are matches, unless nothing is printed.
    pub open spec fn code(self, quiet: bool) -> i32 {
        if self.had_matches && (quiet || !self.errored) {
            FOUND
        } else if self.errored {
            FAILED
        } else {
            NOT_FOUND
        }
    }

    /// A search that has not begun.
    pub fn new() -> (r: SearchRun)
        ensures
            r == (SearchRun { had_matches: false, errored: false }),
    {
        SearchRun { had_matches: false, errored: false }
    }

    /// Decides what follows the search of a target.
    pub fn after_target(self, quiet: bool, searched: Searched) -> (r: AfterTarget)
        ensures
            r == self.next(quiet, searched),
    {
        match searched {
            Searched::Missing => AfterTarget::Continue(
                SearchRun { had_matches: self.had_matches, errored: true },
            ),
            Searched::Done(matched) => if matched && quiet {
                AfterTarget::Exit(FOUND)
            } else {
                AfterTarget::Continue(
                    SearchRun { had_matches: self.had_matches || matched, errored: self.errored },
                )
            },
            Searched::Failed => AfterTarget::Exit(FAILED),
        }
    }

    /// The code that a search ends with when all targets were searched.
    pub fn exit_code(self, quiet: bool) -> (r: i32)
        ensures
            r == self.code(quiet),
    {
        if self.had_matches && (quiet || !self.errored) {
            FOUND
        } else if self.errored {
            FAILED
        } else {
            NOT_FOUND
        }
    }
}

impl SearchRun {
    /// What follows a target whose files were to be listed: a path that is
    /// missing is an error, but the rest is still listed.
    pub open spec fn listed(self, exists_there: bool) -> SearchRun {
        SearchRun { errored: self.errored || !exists_there, ..self }
    }

    /// The code that a listing ends with: it tells of an error, and there is
    /// nothing to find.
    pub open spec fn listed_code(self) -> i32 {
        if self.errored {
            FAILED
        } else {
            FOUND
        }
    }

    /// Decides what follows a target whose files were to be listed.
    pub fn after_listing(self, exists_there: bool) -> (r: SearchRun)
        ensures
            r == self.listed(exists_there),
    {
        SearchRun { had_matches: self.had_matches, errored: self.errored || !exists_there }
    }

    /// The code that a listing ends with.
    pub fn listing_code(self) -> (r: i32)
        ensures
            r == self.listed_code(),
    {
        if self.errored {
            FAILED
        } else {
            FOUND
        }
    }
}

/// How far a listing has come behind a row of targets.
pub open spec fn listing_over(found: Seq<bool>) -> SearchRun
    decreases found.len(),
{
    if found.len() == 0 {
        SearchRun { had_matches: false, errored: false }
    } else {
        listing_over(found.drop_last()).listed(found.last())
    }
}

/// A listing fails where one of its paths is missing, and only there.
pub proof fn law_listings_tell_what_is_missing(found: Seq<bool>)
    ensures
        listing_over(found).listed_code() == (if found.contains(false) {
            FAILED
        } else {
            FOUND
        }),
    decreases found.len(),
{
    if found.len() > 0 {
        let front = found.drop_last();
        law_listings_tell_what_is_missing(front);
        if found.contains(false) {
            let i = choose|i: int| 0 <= i < found.len() && found[i] == false;
            if i < front.len() {
                assert(front[i] == false);
            }
        }
        if front.contains(false) {
            let i = choose|i: int| 0 <= i < front.len() && front[i] == false;
            assert(found[i] == false);
        }
        if !found.last() {
            assert(found[found.len() - 1] == false);
        }
    }
}

/// How far a search has come behind a row of targets, or the code it ended with.
pub open spec fn run_over(quiet: bool, searched: Seq<Searched>) -> AfterTarget
    decreases searched.len(),
{
    if searched.len() == 0 {
        AfterTarget::Continue(SearchRun { had_matches: false, errored: false })
    } else {
        match run_over(quiet, searched.drop_last()) {
            AfterTarget::Continue(run) => run.next(quiet, searched.last()),
            ended => ended,
        }
    }
}

/// The code that a search of a row of targets ends with.
pub open spec fn code_of(quiet: bool, searched: Seq<Searched>) -> i32 {
    match run_over(quiet, searched) {
        AfterTarget::Continue(run) => run.code(quiet),
        AfterTarget::Exit(code) => code,
    }
}

/// Whether one of the targets came to something.
pub open spec fn came_to(searched: Seq<Searched>, what: Searched) -> bool {
    searched.contains(what)
}

proof fn lemma_run_over(quiet: bool, searched: Seq<Searched>)
    ensures
        match run_over(quiet, searched) {
            AfterTarget::Continue(run) => {
                &&& !came_to(searched, Searched::Failed)
                &&& run.had_matches <==> came_to(searched, Searched::Done(true))
                &&& run.errored <==> came_to(searched, Searched::Missing)
                &&& quiet ==> !run.had_matches
            },
            AfterTarget::Exit(code) => {
                ||| code == FAILED && came_to(searched, Searched::Failed)
                ||| code == FOUND && quiet && came_to(searched, Searched::Done(true))
            },
        },
    decreases searched.len(),
{
    if searched.len() > 0 {
        let front = searched.drop_last();
        lemma_run_over(quiet, front);
        lemma_came_to(searched, Searched::Failed);
        lemma_came_to(searched, Searched::Missing);
        lemma_came_to(searched, Searched::Done(true));
    }
}

proof fn lemma_came_to(searched: Seq<Searched>, what: Searched)
    requires
        searched.len() > 0,
    ensures
        came_to(searched, what) <==> came_to(searched.drop_last(), what) || searched.last() == what,
{
    let front = searched.drop_last();
    if came_to(searched, what) {
        let i = choose|i: int| 0 <= i < searched.len() && searched[i] == what;
        if i < front.len() {
            assert(front[i] == what);
        }
    }
    if came_to(front, what) {
        let i = choose|i: int| 0 <= i < front.len() && front[i] == what;
        assert(searched[i] == what);
    }
    if searched.last() == what {
        assert(searched[searched.len() - 1] == what);
    }
}

/// A program that prints what it finds ends with success where something
/// matched and nothing went wrong, with failure where anything went wrong, and
/// otherwise says that nothing was found.
pub proof fn law_exit_codes(searched: Seq<Searched>)
    ensures
        ({
            let bad = came_to(searched, Searched::Failed) || came_to(searched, Searched::Missing);
            let good = came_to(searched, Searched::Done(true));
            code_of(false, searched) == (if bad {
                FAILED
            } else if good {
                FOUND
            } else {
                NOT_FOUND
            })
        }),
{
    lemma_run_over(false, searched);
}

/// A quiet program ends with success as soon as something matched, whatever was
/// missing, unless a search failed before that.
pub proof fn law_quiet_exit_codes(searched: Seq<Searched>)
    requires
        !came_to(searched, Searched::Failed),
    ensures
        code_of(true, searched) == (if came_to(searched, Searched::Done(true)) {
            FOUND
        } else if came_to(searched, Searched::Missing) {
            FAILED
        } else {
            NOT_FOUND
        }),
{
    lemma_run_over(true, searched);
}

} // verus!
