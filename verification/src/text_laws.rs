//! What holds of texts: numbers, lines, pieces and orders.
use crate::text::{
    before_last, closes, decimal, digits_value, is_space, lines_of, occurs, occurs_at, opens,
    padded_left, parsed_unsigned, pieces, precedes, replaced, trimmed, without_end, without_start,
};
use vstd::prelude::*;

verus! {

/// What stands in a text occurs in it.
pub proof fn lemma_occurs(before: Seq<char>, s: Seq<char>, after: Seq<char>)
    ensures
        occurs(before + s + after, s),
{
    let all = before + s + after;
    assert(all.subrange(before.len() as int, (before.len() + s.len()) as int) =~= s);
    assert(occurs_at(all, s, before.len() as int));
}

/// What occurs in a part of a text occurs in the text.
pub proof fn lemma_occurs_in_part(
    before: Seq<char>,
    part: Seq<char>,
    after: Seq<char>,
    s: Seq<char>,
)
    requires
        occurs(part, s),
    ensures
        occurs(before + part + after, s),
{
    let at = choose|at: int| occurs_at(part, s, at);
    let all = before + part + after;
    assert(all.subrange(before.len() + at, before.len() + at + s.len()) =~= part.subrange(
        at,
        at + s.len(),
    ));
    assert(occurs_at(all, s, before.len() + at));
}

/// A text occurs in another if and only if that is the text with something
/// before it and something behind it.
pub proof fn law_what_occurs_stands_between(s: Seq<char>, needle: Seq<char>)
    ensures
        occurs(s, needle) <==> exists|a: Seq<char>, b: Seq<char>| s == #[trigger] (a + needle + b),
{
    if occurs(s, needle) {
        let at = choose|at: int| occurs_at(s, needle, at);
        let a = s.take(at);
        let b = s.skip(at + needle.len());
        assert forall|i: int| 0 <= i < needle.len() implies s[at + i] == needle[i] by {
            assert(s.subrange(at, at + needle.len())[i] == s[at + i]);
        }
        assert(s =~= a + needle + b);
    }
    if exists|a: Seq<char>, b: Seq<char>| s == #[trigger] (a + needle + b) {
        let (a, b) = choose|a: Seq<char>, b: Seq<char>| s == #[trigger] (a + needle + b);
        lemma_occurs(a, needle, b);
    }
}

/// The character of a digit.
pub open spec fn numeral(d: nat) -> char {
    (48 + d) as char
}

/// A number is written by its digits, the least significant last, without zeros
/// in front.
pub proof fn law_numbers_are_written_by_their_digits(n: nat)
    ensures
        n < 10 ==> decimal(n) == seq![numeral(n)],
        n >= 10 ==> decimal(n) == decimal(n / 10).push(numeral(n % 10)),
{
    let d = n % 10;
    assert(d == 0 || d == 1 || d == 2 || d == 3 || d == 4 || d == 5 || d == 6 || d == 7 || d == 8
        || d == 9);
}

proof fn lemma_digits(n: nat)
    ensures
        decimal(n).len() > 0,
        digits_value(decimal(n)) == Some(n),
        forall|i: int| 0 <= i < decimal(n).len() ==> '0' <= #[trigger] decimal(n)[i] <= '9',
    decreases n,
{
    let d = n % 10;
    assert(d == 0 || d == 1 || d == 2 || d == 3 || d == 4 || d == 5 || d == 6 || d == 7 || d == 8
        || d == 9);
    if n >= 10 {
        lemma_digits(n / 10);
        assert(decimal(n).drop_last() =~= decimal(n / 10));
    } else {
        assert(decimal(n).drop_last() =~= Seq::<char>::empty());
        assert(digits_value(Seq::<char>::empty()) == Some(0nat));
    }
}

/// A number that is written is read back.
pub proof fn law_numbers_are_read_back(n: u64)
    ensures
        parsed_unsigned(decimal(n as nat)) == Some(n),
{
    lemma_digits(n as nat);
    assert('0' <= decimal(n as nat)[0] <= '9');
}

/// A number has no white space around it.
pub proof fn lemma_digits_are_not_trimmed(n: nat)
    ensures
        trimmed(decimal(n)) == decimal(n),
        !decimal(n).contains('\u{1}'),
{
    lemma_digits(n);
    let s = decimal(n);
    assert('0' <= s[0] <= '9');
    assert('0' <= s[s.len() - 1] <= '9');
    if s.contains('\u{1}') {
        let i = choose|i: int| 0 <= i < s.len() && s[i] == '\u{1}';
        assert('0' <= s[i]);
    }
}

/// What stands before the last of a character is found, where what stands behind
/// it is known.
pub proof fn lemma_before_last_of(a: Seq<char>, sep: char, b: Seq<char>)
    requires
        forall|i: int| 0 <= i < b.len() ==> #[trigger] b[i] != sep,
    ensures
        before_last(a + seq![sep] + b, sep) == Some(a),
    decreases b.len(),
{
    let all = a + seq![sep] + b;
    if b.len() == 0 {
        assert(all.drop_last() =~= a);
        assert(all.last() == sep);
    } else {
        let front = b.drop_last();
        assert forall|i: int| 0 <= i < front.len() implies #[trigger] front[i] != sep by {
            assert(front[i] == b[i]);
        }
        lemma_before_last_of(a, sep, front);
        assert(all.drop_last() =~= a + seq![sep] + front);
        assert(all.last() == b[b.len() - 1]);
    }
}

/// What stands before the last of a character is all of the text up to it.
pub proof fn law_texts_split_at_the_last_separator(a: Seq<char>, sep: char, b: Seq<char>)
    requires
        !b.contains(sep),
    ensures
        before_last(a + seq![sep] + b, sep) == Some(a),
        before_last(b, sep) is None,
{
    assert forall|i: int| 0 <= i < b.len() implies #[trigger] b[i] != sep by {
        assert(b.contains(b[i]));
    }
    lemma_before_last_of(a, sep, b);
    lemma_none_before(b, sep);
}

proof fn lemma_none_before(b: Seq<char>, sep: char)
    requires
        forall|i: int| 0 <= i < b.len() ==> #[trigger] b[i] != sep,
    ensures
        before_last(b, sep) is None,
    decreases b.len(),
{
    if b.len() > 0 {
        let front = b.drop_last();
        assert forall|i: int| 0 <= i < front.len() implies #[trigger] front[i] != sep by {
            assert(front[i] == b[i]);
        }
        lemma_none_before(front, sep);
        assert(b[b.len() - 1] != sep);
    }
}

/// A text is cut at every separator: its first piece is what stands before the
/// first one, and the others are the pieces of what stands behind that.
pub proof fn law_texts_are_cut_at_every_separator(a: Seq<char>, sep: char, b: Seq<char>)
    requires
        !a.contains(sep),
    ensures
        pieces(a, sep) == seq![a],
        pieces(a + seq![sep] + b, sep) == seq![a] + pieces(b, sep),
{
    lemma_one_piece(a, sep);
    lemma_cut(a, sep, b);
}

proof fn lemma_one_piece(a: Seq<char>, sep: char)
    requires
        !a.contains(sep),
    ensures
        pieces(a, sep) == seq![a],
    decreases a.len(),
{
    if a.len() > 0 {
        let front = a.drop_last();
        assert forall|c: char| front.contains(c) implies a.contains(c) by {
            let i = choose|i: int| 0 <= i < front.len() && front[i] == c;
            assert(a[i] == c);
        }
        lemma_one_piece(front, sep);
        assert(a.contains(a[a.len() - 1]));
        assert(front.push(a.last()) =~= a);
        assert(pieces(a, sep) =~= seq![a]);
    } else {
        assert(a =~= Seq::<char>::empty());
        assert(pieces(a, sep) =~= seq![a]);
    }
}

proof fn lemma_cut(a: Seq<char>, sep: char, b: Seq<char>)
    requires
        !a.contains(sep),
    ensures
        pieces(a + seq![sep] + b, sep) == seq![a] + pieces(b, sep),
    decreases b.len(),
{
    let all = a + seq![sep] + b;
    crate::text::lemma_pieces_nonempty(b, sep);
    if b.len() == 0 {
        lemma_one_piece(a, sep);
        assert(all.drop_last() =~= a);
        assert(all.last() == sep);
        assert(pieces(all, sep) =~= seq![a] + pieces(b, sep));
    } else {
        let front = b.drop_last();
        lemma_cut(a, sep, front);
        crate::text::lemma_pieces_nonempty(front, sep);
        assert(all.drop_last() =~= a + seq![sep] + front);
        assert(all.last() == b.last());
        assert(pieces(all, sep) =~= seq![a] + pieces(b, sep));
    }
}

/// The lines of a text: the first is what stands before the first line feed,
/// without a carriage return at its end, and the others are the lines of what
/// stands behind it. What stands behind the last line feed is a line where it is
/// not empty.
pub proof fn law_lines_end_at_line_feeds(a: Seq<char>, b: Seq<char>)
    requires
        !a.contains('\n'),
    ensures
        lines_of(a) == (if a.len() == 0 {
            Seq::<Seq<char>>::empty()
        } else {
            seq![a]
        }),
        lines_of(a + seq!['\n'] + b) == seq![
            if a.len() > 0 && a.last() == '\r' {
                a.drop_last()
            } else {
                a
            },
        ] + lines_of(b),
{
    law_texts_are_cut_at_every_separator(a, '\n', b);
    crate::text::lemma_pieces_nonempty(b, '\n');
    let one = seq![
        if a.len() > 0 && a.last() == '\r' {
            a.drop_last()
        } else {
            a
        },
    ];
    assert(lines_of(a) =~= (if a.len() == 0 {
        Seq::<Seq<char>>::empty()
    } else {
        seq![a]
    }));
    let all = pieces(a + seq!['\n'] + b, '\n');
    let rest = pieces(b, '\n');
    assert(all.last() == rest.last());
    assert(all.drop_last() =~= seq![a] + rest.drop_last());
    assert(lines_of(a + seq!['\n'] + b) =~= one + lines_of(b));
}

/// A trimmed text is the text without the white space around it: none is left at
/// either end, and nothing else is gone.
pub proof fn law_trimming_takes_only_space(s: Seq<char>)
    ensures
        ({
            let t = trimmed(s);
            &&& t.len() > 0 ==> !is_space(t[0]) && !is_space(t.last())
            &&& exists|a: Seq<char>, b: Seq<char>| s == #[trigger] (a + t + b) && all_space(a)
                && all_space(b)
        }),
{
    let p = |c: char| is_space(c);
    let inner = without_start(s, p);
    let a = lemma_without_start(s, p);
    let b = lemma_without_end(inner, p);
    let t = trimmed(s);
    assert(a + (t + b) =~= a + t + b);
    assert(all_space(a)) by {
        assert forall|i: int| 0 <= i < a.len() implies is_space(#[trigger] a[i]) by {
            assert(p(a[i]));
        }
    }
    assert(all_space(b)) by {
        assert forall|i: int| 0 <= i < b.len() implies is_space(#[trigger] b[i]) by {
            assert(p(b[i]));
        }
    }
    if t.len() > 0 {
        assert(t[0] == inner[0]);
    }
}

/// Whether a text is white space.
pub open spec fn all_space(s: Seq<char>) -> bool {
    forall|i: int| 0 <= i < s.len() ==> is_space(#[trigger] s[i])
}

/// Blanks, tabs and the ends of lines are white space; what is printed in ASCII
/// is not.
pub proof fn law_space_is_what_is_not_printed(c: char)
    requires
        c as u32 <= 0x7f,
    ensures
        is_space(c) <==> c == ' ' || c == '\t' || c == '\n' || c == '\r' || c as u32 == 0xb || c as u32
            == 0xc,
{
}

proof fn lemma_without_start(s: Seq<char>, p: spec_fn(char) -> bool) -> (a: Seq<char>)
    ensures
        s == a + without_start(s, p),
        forall|i: int| 0 <= i < a.len() ==> p(#[trigger] a[i]),
        without_start(s, p).len() > 0 ==> !p(without_start(s, p)[0]),
    decreases s.len(),
{
    if s.len() > 0 && p(s[0]) {
        let rest = lemma_without_start(s.skip(1), p);
        let a = seq![s[0]] + rest;
        assert(s =~= a + without_start(s, p)) by {
            assert(s =~= seq![s[0]] + s.skip(1));
        }
        assert forall|i: int| 0 <= i < a.len() implies p(#[trigger] a[i]) by {
            if i > 0 {
                assert(a[i] == rest[i - 1]);
            }
        }
        a
    } else {
        assert(s =~= Seq::<char>::empty() + s);
        Seq::empty()
    }
}

proof fn lemma_without_end(s: Seq<char>, p: spec_fn(char) -> bool) -> (b: Seq<char>)
    ensures
        s == without_end(s, p) + b,
        forall|i: int| 0 <= i < b.len() ==> p(#[trigger] b[i]),
        without_end(s, p).len() > 0 ==> !p(without_end(s, p).last()),
    decreases s.len(),
{
    if s.len() > 0 && p(s.last()) {
        let rest = lemma_without_end(s.drop_last(), p);
        let b = rest.push(s.last());
        assert(s =~= without_end(s, p) + b) by {
            assert(s =~= s.drop_last().push(s.last()));
        }
        assert forall|i: int| 0 <= i < b.len() implies p(#[trigger] b[i]) by {
            if i < rest.len() {
                assert(b[i] == rest[i]);
            }
        }
        b
    } else {
        assert(s =~= s + Seq::<char>::empty());
        Seq::empty()
    }
}

/// Texts are ordered by the first character in which they differ, and a text
/// comes before every longer one that starts with it.
pub proof fn law_texts_are_ordered_by_their_first_difference(
    common: Seq<char>,
    a: Seq<char>,
    b: Seq<char>,
)
    ensures
        a.len() > 0 && b.len() > 0 && (a[0] as u32) < (b[0] as u32) ==> precedes(
            common + a,
            common + b,
        ) && !precedes(common + b, common + a),
        a.len() == 0 && b.len() > 0 ==> precedes(common + a, common + b) && !precedes(
            common + b,
            common + a,
        ),
    decreases common.len(),
{
    if common.len() == 0 {
        assert(common + a =~= a);
        assert(common + b =~= b);
    } else {
        law_texts_are_ordered_by_their_first_difference(common.skip(1), a, b);
        assert((common + a).skip(1) =~= common.skip(1) + a);
        assert((common + b).skip(1) =~= common.skip(1) + b);
        assert((common + a)[0] == common[0] && (common + b)[0] == common[0]);
    }
}

/// A text that is padded is as wide as asked for at least, and ends in what was
/// padded behind nothing but the filling.
pub proof fn law_padding_fills_in_front(s: Seq<char>, width: nat, fill: char)
    ensures
        ({
            let r = padded_left(s, width, fill);
            &&& r.len() == (if s.len() >= width {
                s.len()
            } else {
                width
            })
            &&& r.skip(r.len() - s.len()) == s
            &&& forall|i: int| 0 <= i < r.len() - s.len() ==> #[trigger] r[i] == fill
        }),
{
    let r = padded_left(s, width, fill);
    assert(r.skip(r.len() - s.len()) =~= s);
}

/// A text starts with whatever it was made by appending to, and ends in whatever
/// was appended.
pub proof fn law_texts_start_and_end_with_their_parts(a: Seq<char>, b: Seq<char>)
    ensures
        opens(a + b, a),
        closes(a + b, b),
{
    assert((a + b).take(a.len() as int) =~= a);
    assert((a + b).skip(a.len() as int) =~= b);
}

/// Replacing a character changes it wherever it stands, and nothing else.
pub proof fn law_replacing_changes_one_character(s: Seq<char>, from: char, to: char, i: int)
    requires
        0 <= i < s.len(),
    ensures
        replaced(s, from, to).len() == s.len(),
        s[i] == from ==> replaced(s, from, to)[i] == to,
        s[i] != from ==> replaced(s, from, to)[i] == s[i],
{
}

/// A number is a text of digits.
pub proof fn lemma_number_is_plain(n: nat)
    ensures
        decimal(n).len() > 0,
        forall|i: int| 0 <= i < decimal(n).len() ==> '0' <= #[trigger] decimal(n)[i] <= '9',
{
    lemma_digits(n);
}

/// Data is asked by name: a field is there where the object has it, and is of
/// the sort that is asked for or not at all.
pub proof fn law_fields_are_asked_by_name(
    map: Map<Seq<char>, crate::json::JsonTree>,
    key: Seq<char>,
    b: bool,
    n: u64,
    s: Seq<char>,
)
    ensures
        ({
            let t = crate::json::JsonTree::Object(map);
            let bool = crate::json::JsonTree::Bool(b);
            let text = crate::json::JsonTree::Text(s);
            let number = crate::json::JsonTree::unsigned(n);
            &&& map.contains_key(key) ==> t.field(key) == Some(map[key])
            &&& !map.contains_key(key) ==> t.field(key) is None
            &&& t.field(key) == Some(bool) ==> t.field_bool(key) == Some(b) && t.field_text(
                key,
            ) is None && t.field_unsigned(key) is None
            &&& t.field(key) == Some(text) ==> t.field_text(key) == Some(s) && t.field_bool(
                key,
            ) is None && t.field_unsigned(key) is None
            &&& t.field(key) == Some(number) ==> t.field_unsigned(key) == Some(n) && t.field_text(
                key,
            ) is None && t.field_bool(key) is None
            &&& text.field(key) is None
        }),
{
}

} // verus!
