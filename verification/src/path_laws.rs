//! What holds of paths: the part of an index that a search covers, depths, and
//! the order of paths and files.
use crate::meta::FileTime;
use crate::order::law_sorted_indices_are_in_stable_order;
use crate::paths::{
    is_within_depth, parts_of, parts_precede, slash_count, without_verbatim_prefix, Part,
    ScopeView,
};
use crate::sort::{SortItem, SortKey, SortMode};
use crate::text::{opens, pieces};
use crate::text_laws::law_texts_are_cut_at_every_separator;
use vstd::prelude::*;

verus! {

/// A search of the whole index sees every path as it is; one of a directory the
/// paths below it, without it; one of a file that file, as it was named.
pub proof fn law_scopes_see_what_is_below(
    p: Seq<char>,
    rest: Seq<char>,
    indexed: Seq<char>,
    named: Seq<char>,
)
    ensures
        ScopeView::Whole.relative(indexed, named) == Some(indexed),
        ScopeView::Subtree(p).relative(p + rest, named) == Some(rest),
        ScopeView::Subtree(p).relative(indexed, named) matches Some(r) ==> indexed == p + r,
        ScopeView::File(p).relative(p, named) == Some(named),
        indexed != p ==> ScopeView::File(p).relative(indexed, named) is None,
{
    assert((p + rest).take(p.len() as int) =~= p);
    assert((p + rest).skip(p.len() as int) =~= rest);
    if opens(indexed, p) {
        assert(indexed =~= p + indexed.skip(p.len() as int));
    }
}

/// What a search sees is found again where the index has it.
pub proof fn law_scopes_know_where_files_are(p: Seq<char>, rel: Seq<char>)
    ensures
        ScopeView::Whole.indexed(rel) == rel,
        ScopeView::Subtree(p).indexed(rel) == p + rel,
        ScopeView::File(p).indexed(rel) == p,
        ScopeView::Whole.prefix() == Seq::<char>::empty(),
        ScopeView::Subtree(p).prefix() == p,
        ScopeView::File(p).prefix() == Seq::<char>::empty(),
{
}

/// A search root at the root of the index covers all of it; a file below it
/// covers itself, and a directory what is below it.
pub proof fn law_search_roots_cover_themselves(rel: Seq<char>)
    requires
        !rel.contains('\\'),
    ensures
        rel.len() == 0 ==> ScopeView::of(rel, false) == ScopeView::Whole && ScopeView::of(rel, true)
            == ScopeView::Whole,
        rel.len() > 0 ==> ScopeView::of(rel, true) == ScopeView::File(rel),
        rel.len() > 0 ==> ScopeView::of(rel, false) == ScopeView::Subtree(rel.push('/')),
{
    assert forall|i: int| 0 <= i < rel.len() implies rel[i] != '\\' by {
        assert(rel.contains(rel[i]));
    }
    assert(crate::text::replaced(rel, '\\', '/') =~= rel);
    reveal_strlit("/");
    assert(rel + "/"@ =~= rel.push('/'));
}

/// A path is deep enough to be left out where it has as many slashes as the
/// limit: with a limit of one only what is right in the root is left.
pub proof fn law_depth_counts_slashes(rel: Seq<char>, max: usize)
    ensures
        is_within_depth(rel, None),
        is_within_depth(rel, Some(max)) <==> rel.filter(|c: char| c == '/').len() < max,
{
    lemma_slashes(rel);
}

proof fn lemma_slashes(rel: Seq<char>)
    ensures
        slash_count(rel) == rel.filter(|c: char| c == '/').len(),
    decreases rel.len(),
{
    reveal(Seq::filter);
    if rel.len() > 0 {
        lemma_slashes(rel.drop_last());
    }
}

/// The prefix of a verbatim path is left out, that of a share stays as the two
/// backslashes it stands for, and other paths are as they are.
pub proof fn law_verbatim_prefixes_are_left_out(s: Seq<char>)
    ensures
        without_verbatim_prefix("\\\\?\\UNC\\"@ + s) == "\\\\"@ + s,
        !opens(s, "UNC\\"@) ==> without_verbatim_prefix("\\\\?\\"@ + s) == s,
        !opens(s, "\\\\?\\"@) ==> without_verbatim_prefix(s) == s,
{
    reveal_strlit("\\\\?\\UNC\\");
    reveal_strlit("\\\\?\\");
    reveal_strlit("UNC\\");
    let unc = "\\\\?\\UNC\\"@;
    let plain = "\\\\?\\"@;
    let short = "UNC\\"@;
    assert((unc + s).take(unc.len() as int) =~= unc);
    assert((unc + s).skip(unc.len() as int) =~= s);
    assert((plain + s).take(plain.len() as int) =~= plain);
    assert((plain + s).skip(plain.len() as int) =~= s);
    assert(unc =~= plain + short);
    if opens(plain + s, unc) {
        assert(s.take(short.len() as int) =~= short) by {
            assert forall|i: int| 0 <= i < short.len() implies s[i] == short[i] by {
                assert((plain + s).take(unc.len() as int)[plain.len() + i] == unc[plain.len() + i]);
            }
        }
    }
    if opens(s, unc) {
        assert(s.take(plain.len() as int) =~= plain) by {
            assert forall|i: int| 0 <= i < plain.len() implies s[i] == plain[i] by {
                assert(s.take(unc.len() as int)[i] == unc[i]);
            }
        }
    }
}

/// Whether a text is the plain name of a file.
pub open spec fn is_name(name: Seq<char>) -> bool {
    name.len() > 0 && !name.contains('/') && name != "."@ && name != ".."@
}

/// A path is ordered by its components: the names between its slashes.
pub proof fn law_paths_are_made_of_names(name: Seq<char>, rest: Seq<char>)
    requires
        is_name(name),
        rest.len() > 0,
        rest[0] != '/',
        pieces(rest, '/')[0] != "."@,
    ensures
        parts_of(name) == seq![(3int, name)],
        parts_of(name + seq!['/'] + rest) == seq![(3int, name)] + parts_of(rest),
{
    law_texts_are_cut_at_every_separator(name, '/', rest);
    let f = |p: Seq<char>| crate::paths::part_of(p);
    assert(name.contains(name[0]));
    reveal_with_fuel(Seq::filter_map, 2);
    let one = seq![name];
    assert(one.drop_last() =~= Seq::<Seq<char>>::empty());
    assert(one.filter_map(f) =~= seq![(3int, name)]);
    assert(parts_of(name) =~= seq![(3int, name)]);
    let all = name + seq!['/'] + rest;
    assert(all[0] == name[0]);
    assert(pieces(all, '/')[0] == name);
    lemma_filter_map_first(name, pieces(rest, '/'), f);
    assert(parts_of(all) =~= seq![(3int, name)] + parts_of(rest));
}

proof fn lemma_filter_map_first(
    first: Seq<char>,
    rest: Seq<Seq<char>>,
    f: spec_fn(Seq<char>) -> Option<Part>,
)
    requires
        f(first) is Some,
    ensures
        (seq![first] + rest).filter_map(f) == seq![f(first)->0] + rest.filter_map(f),
    decreases rest.len(),
{
    let all = seq![first] + rest;
    reveal_with_fuel(Seq::filter_map, 2);
    if rest.len() == 0 {
        assert(all =~= seq![first]);
        assert(all.drop_last() =~= Seq::<Seq<char>>::empty());
        assert(all.filter_map(f) =~= seq![f(first)->0] + rest.filter_map(f));
    } else {
        lemma_filter_map_first(first, rest.drop_last(), f);
        assert(all.drop_last() =~= seq![first] + rest.drop_last());
        assert(all.last() == rest.last());
        assert(all.filter_map(f) =~= seq![f(first)->0] + rest.filter_map(f));
    }
}

/// Of two paths the first component in which they differ decides, and a path
/// comes before what is below it.
pub proof fn law_components_decide_the_order(
    common: Seq<Part>,
    a: Seq<Part>,
    b: Seq<Part>,
)
    requires
        b.len() > 0,
        a.len() > 0 ==> a[0].0 == b[0].0 && a[0] != b[0],
    ensures
        a.len() == 0 ==> parts_precede(common + a, common + b),
        a.len() > 0 ==> (parts_precede(common + a, common + b) <==> crate::text::precedes(
            a[0].1,
            b[0].1,
        )),
    decreases common.len(),
{
    if common.len() == 0 {
        assert(common + a =~= a);
        assert(common + b =~= b);
    } else {
        law_components_decide_the_order(common.skip(1), a, b);
        assert((common + a).skip(1) =~= common.skip(1) + a);
        assert((common + b).skip(1) =~= common.skip(1) + b);
        assert((common + a)[0] == common[0] && (common + b)[0] == common[0]);
    }
}

/// Whether a time is later than another; every time is later than none.
pub open spec fn is_later(a: Option<FileTime>, b: Option<FileTime>) -> bool {
    match (a, b) {
        (Some(x), Some(y)) => x.seconds > y.seconds || (x.seconds == y.seconds && x.nanos
            > y.nanos),
        (Some(_), None) => true,
        _ => false,
    }
}

/// Files are ordered by what is asked for: by their paths, or by their times and
/// then their paths, the earlier first and what has no time before all; equal
/// ones stay in order.
pub proof fn law_files_are_put_in_the_order_that_is_asked_for(
    key: SortKey,
    paths: Seq<Seq<char>>,
    times: Seq<Option<FileTime>>,
    i: int,
    j: int,
)
    requires
        paths.len() <= usize::MAX,
        times.len() == paths.len(),
        0 <= i < j < paths.len(),
    ensures
        ({
            let order = (SortMode { key, reverse: false }).order_of(paths, times);
            let x = order[i] as int;
            let y = order[j] as int;
            let by_time = key != SortKey::Path;
            &&& order.len() == paths.len()
            &&& 0 <= x < paths.len() && 0 <= y < paths.len()
            &&& by_time ==> !is_later(times[x], times[y])
            &&& !by_time || times[x] == times[y] ==> !parts_precede(
                parts_of(paths[y]),
                parts_of(paths[x]),
            )
            &&& (!by_time || times[x] == times[y]) && paths[x] == paths[y] ==> x < y
        }),
{
    let mode = SortMode { key, reverse: false };
    let keys = crate::sort::sort_keys(key, paths, times);
    law_sorted_indices_are_in_stable_order::<SortItem>(keys);
    let order = mode.order_of(paths, times);
    let x = order[i] as int;
    let y = order[j] as int;
    assert(crate::order::comes_before::<SortItem>(keys, x, y));
    if paths[x] == paths[y] && keys[x] == keys[y] {
        use_total(keys[x]);
    }
}

proof fn use_total(k: crate::sort::SortedBy)
    ensures
        <SortItem as crate::order::Ordered>::at_most(k, k),
{
    <SortItem as crate::order::Ordered>::lemma_total(k, k);
}

/// The reverse order is the order backwards.
pub proof fn law_the_reverse_order_goes_backwards(
    key: SortKey,
    paths: Seq<Seq<char>>,
    times: Seq<Option<FileTime>>,
    i: int,
)
    requires
        paths.len() <= usize::MAX,
        0 <= i < paths.len(),
    ensures
        ({
            let up = (SortMode { key, reverse: false }).order_of(paths, times);
            let down = (SortMode { key, reverse: true }).order_of(paths, times);
            up.len() == down.len() && down[i] == up[up.len() - 1 - i]
        }),
{
    law_sorted_indices_are_in_stable_order::<SortItem>(crate::sort::sort_keys(key, paths, times));
}

/// The root, the current directory and the parent directory come before names,
/// in that order.
pub proof fn law_special_components_come_first()
    ensures
        parts_of("/"@) == seq![(0int, Seq::<char>::empty())],
        parts_of("."@) == seq![(1int, Seq::<char>::empty())],
        parts_of(".."@) == seq![(2int, Seq::<char>::empty())],
{
    reveal_strlit("/");
    reveal_strlit(".");
    reveal_strlit("..");
    reveal_with_fuel(Seq::filter_map, 3);
    let none = Seq::<char>::empty();
    assert("/"@ =~= none + seq!['/'] + none);
    assert(!none.contains('/'));
    law_texts_are_cut_at_every_separator(none, '/', none);
    assert(pieces("/"@, '/') =~= seq![none, none]);
    let f = |p: Seq<char>| crate::paths::part_of(p);
    assert(seq![none, none].drop_last() =~= seq![none]);
    assert(seq![none].drop_last() =~= Seq::<Seq<char>>::empty());
    assert(seq![none, none].filter_map(f) =~= Seq::<Part>::empty());
    assert(parts_of("/"@) =~= seq![(0int, Seq::<char>::empty())]);
    let dot = "."@;
    let up = ".."@;
    assert(dot.len() == 1 && up.len() == 2 && dot[0] == '.' && up[0] == '.' && up[1] == '.');
    assert(!dot.contains('/'));
    assert(!up.contains('/'));
    law_texts_are_cut_at_every_separator(dot, '/', none);
    law_texts_are_cut_at_every_separator(up, '/', none);
    assert(seq![dot].drop_last() =~= Seq::<Seq<char>>::empty());
    assert(seq![up].drop_last() =~= Seq::<Seq<char>>::empty());
    assert(seq![dot].filter_map(f) =~= Seq::<Part>::empty());
    assert(seq![up].filter_map(f) =~= seq![(2int, Seq::<char>::empty())]);
    assert(parts_of(dot) =~= seq![(1int, Seq::<char>::empty())]);
    assert(parts_of(up) =~= seq![(2int, Seq::<char>::empty())]);
}

/// A file that is named is shown below the current directory where it is there,
/// and else as it is, always with slashes.
pub proof fn law_named_files_are_shown_from_the_current_directory(
    path: Seq<char>,
    rel: Seq<char>,
)
    requires
        !opens(path, "\\\\?\\"@),
        !opens(rel, "\\\\?\\"@),
    ensures
        crate::paths::explicit_path(path, None) == crate::text::replaced(path, '\\', '/'),
        crate::paths::explicit_path(path, Some(rel)) == crate::text::replaced(rel, '\\', '/'),
{
    law_verbatim_prefixes_are_left_out(path);
    law_verbatim_prefixes_are_left_out(rel);
}

} // verus!
