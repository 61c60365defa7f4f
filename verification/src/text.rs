//! Text as sequences of characters.
//!
//! Every contract of the library speaks of a string through its view, a
//! `Seq<char>`; this module holds the operations on such sequences that the
//! rest of the library is written with.
use vstd::prelude::*;
use vstd::utf8::{encode_utf8, encode_utf8_decode_utf8};

verus! {

/// `String::push` appends one character.
pub assume_specification[ String::push ](s: &mut String, c: char)
    ensures
        final(s)@ == old(s)@.push(c),
;

/// Whether two sequences of characters start alike: `prefix` opens `s`.
pub open spec fn opens(s: Seq<char>, prefix: Seq<char>) -> bool {
    prefix.len() <= s.len() && s.take(prefix.len() as int) == prefix
}

/// Whether `suffix` closes `s`.
pub open spec fn closes(s: Seq<char>, suffix: Seq<char>) -> bool {
    suffix.len() <= s.len() && s.skip(s.len() - suffix.len()) == suffix
}

/// `s` without every leading character that satisfies `p`.
pub open spec fn without_start(s: Seq<char>, p: spec_fn(char) -> bool) -> Seq<char>
    decreases s.len(),
{
    if s.len() > 0 && p(s[0]) {
        without_start(s.skip(1), p)
    } else {
        s
    }
}

/// `s` without every trailing character that satisfies `p`.
pub open spec fn without_end(s: Seq<char>, p: spec_fn(char) -> bool) -> Seq<char>
    decreases s.len(),
{
    if s.len() > 0 && p(s.last()) {
        without_end(s.drop_last(), p)
    } else {
        s
    }
}

/// The characters with the Unicode property `White_Space`.
pub open spec fn is_space(c: char) -> bool {
    let u = c as u32;
    ||| 0x9 <= u <= 0xd
    ||| u == 0x20
    ||| u == 0x85
    ||| u == 0xa0
    ||| u == 0x1680
    ||| 0x2000 <= u <= 0x200a
    ||| u == 0x2028
    ||| u == 0x2029
    ||| u == 0x202f
    ||| u == 0x205f
    ||| u == 0x3000
}

/// `s` without leading and trailing white space.
pub open spec fn trimmed(s: Seq<char>) -> Seq<char> {
    without_end(without_start(s, |c: char| is_space(c)), |c: char| is_space(c))
}

/// `s` with every `from` replaced by `to`.
pub open spec fn replaced(s: Seq<char>, from: char, to: char) -> Seq<char> {
    s.map_values(|c: char| if c == from { to } else { c })
}

/// The character of a decimal digit.
pub open spec fn digit(d: int) -> char {
    if d == 0 {
        '0'
    } else if d == 1 {
        '1'
    } else if d == 2 {
        '2'
    } else if d == 3 {
        '3'
    } else if d == 4 {
        '4'
    } else if d == 5 {
        '5'
    } else if d == 6 {
        '6'
    } else if d == 7 {
        '7'
    } else if d == 8 {
        '8'
    } else {
        '9'
    }
}

/// A number in decimal notation, without leading zeros.
pub open spec fn decimal(n: nat) -> Seq<char>
    decreases n,
{
    if n < 10 {
        seq![digit(n as int)]
    } else {
        decimal(n / 10).push(digit((n % 10) as int))
    }
}

/// The value of a decimal digit, if the character is one.
pub open spec fn digit_value(c: char) -> Option<nat> {
    if '0' <= c && c <= '9' {
        Some((c as u32 - '0' as u32) as nat)
    } else {
        None
    }
}

/// The value of a row of decimal digits, if it is one; an empty row counts as
/// zero here.
pub open spec fn digits_value(s: Seq<char>) -> Option<nat>
    decreases s.len(),
{
    if s.len() == 0 {
        Some(0)
    } else {
        match (digits_value(s.drop_last()), digit_value(s.last())) {
            (Some(front), Some(d)) => Some(front * 10 + d),
            _ => None,
        }
    }
}

/// The number that a text stands for: at least one digit, with a plus sign
/// before them or not, and a value that fits sixty-four bits.
pub open spec fn parsed_unsigned(s: Seq<char>) -> Option<u64> {
    let digits = if s.len() > 0 && s[0] == '+' {
        s.skip(1)
    } else {
        s
    };
    if digits.len() == 0 {
        None
    } else {
        match digits_value(digits) {
            Some(n) => if n <= u64::MAX {
                Some(n as u64)
            } else {
                None
            },
            None => None,
        }
    }
}

/// `s` padded on the left with `fill` to at least `width` characters.
pub open spec fn padded_left(s: Seq<char>, width: nat, fill: char) -> Seq<char> {
    if s.len() >= width {
        s
    } else {
        Seq::new((width - s.len()) as nat, |i: int| fill) + s
    }
}

/// Strict lexicographic order of two sequences of characters, which is also
/// the order of their UTF-8 bytes.
pub open spec fn precedes(a: Seq<char>, b: Seq<char>) -> bool
    decreases a.len(),
{
    if b.len() == 0 {
        false
    } else if a.len() == 0 {
        true
    } else if a[0] != b[0] {
        (a[0] as u32) < (b[0] as u32)
    } else {
        precedes(a.skip(1), b.skip(1))
    }
}

/// The pieces of `s` between occurrences of `sep`, in order; one piece more
/// than there are separators.
pub open spec fn pieces(s: Seq<char>, sep: char) -> Seq<Seq<char>>
    decreases s.len(),
{
    if s.len() == 0 {
        seq![Seq::<char>::empty()]
    } else {
        let before = pieces(s.drop_last(), sep);
        if s.last() == sep {
            before.push(Seq::<char>::empty())
        } else {
            before.drop_last().push(before.last().push(s.last()))
        }
    }
}

/// What stands before the last `sep`; `None` where there is none.
pub open spec fn before_last(s: Seq<char>, sep: char) -> Option<Seq<char>>
    decreases s.len(),
{
    if s.len() == 0 {
        None
    } else if s.last() == sep {
        Some(s.drop_last())
    } else {
        before_last(s.drop_last(), sep)
    }
}

/// A line without the carriage return that stands before its line feed.
pub open spec fn without_return(line: Seq<char>) -> Seq<char> {
    if line.len() > 0 && line.last() == '\r' {
        line.drop_last()
    } else {
        line
    }
}

/// The lines of a text. A line ends with a line feed, with or without a
/// carriage return before it; the last one may lack both.
pub open spec fn lines_of(s: Seq<char>) -> Seq<Seq<char>> {
    let all = pieces(s, '\n');
    let ended = all.drop_last().map_values(|line: Seq<char>| without_return(line));
    if all.last().len() == 0 {
        ended
    } else {
        ended.push(all.last())
    }
}

/// Whether `needle` stands in `s` at index `at`.
pub open spec fn occurs_at(s: Seq<char>, needle: Seq<char>, at: int) -> bool {
    0 <= at && at + needle.len() <= s.len() && s.subrange(at, at + needle.len()) == needle
}

/// Whether `needle` occurs anywhere in `s`.
pub open spec fn occurs(s: Seq<char>, needle: Seq<char>) -> bool {
    exists|at: int| occurs_at(s, needle, at)
}

pub proof fn lemma_pieces_nonempty(s: Seq<char>, sep: char)
    ensures
        pieces(s, sep).len() > 0,
    decreases s.len(),
{
    if s.len() > 0 {
        lemma_pieces_nonempty(s.drop_last(), sep);
    }
}

/// Distinct characters have distinct code points.
pub proof fn lemma_char_code(a: char, b: char)
    ensures
        (a as u32) == (b as u32) ==> a == b,
{
}

/// `precedes` is irreflexive.
pub proof fn lemma_precedes_irreflexive(a: Seq<char>)
    ensures
        !precedes(a, a),
    decreases a.len(),
{
    if a.len() > 0 {
        lemma_precedes_irreflexive(a.skip(1));
    }
}

/// `precedes` is transitive.
pub proof fn lemma_precedes_transitive(a: Seq<char>, b: Seq<char>, c: Seq<char>)
    requires
        precedes(a, b),
        precedes(b, c),
    ensures
        precedes(a, c),
    decreases a.len(),
{
    if a.len() > 0 && b.len() > 0 && c.len() > 0 && a[0] == b[0] && b[0] == c[0] {
        lemma_precedes_transitive(a.skip(1), b.skip(1), c.skip(1));
    }
}

/// Of two different sequences one precedes the other.
pub proof fn lemma_precedes_total(a: Seq<char>, b: Seq<char>)
    ensures
        precedes(a, b) || precedes(b, a) || a == b,
    decreases a.len(),
{
    if a.len() > 0 && b.len() > 0 {
        if a[0] == b[0] {
            lemma_precedes_total(a.skip(1), b.skip(1));
            if a.skip(1) == b.skip(1) {
                assert(a =~= seq![a[0]] + a.skip(1));
                assert(b =~= seq![b[0]] + b.skip(1));
            }
        } else {
            lemma_char_code(a[0], b[0]);
        }
    } else {
        assert(a.len() == 0 && b.len() == 0 ==> a =~= b);
    }
}

/// The characters of a string.
pub fn chars_of(s: &str) -> (r: Vec<char>)
    ensures
        r@ == s@,
{
    let mut out: Vec<char> = Vec::new();
    for c in it: s.chars()
        invariant
            it.seq() == s@,
            out@ == s@.take(it.index()),
    {
        out.push(c);
        assert(s@.take(it.index() + 1) =~= s@.take(it.index()).push(c));
    }
    assert(s@.take(s@.len() as int) =~= s@);
    out
}

/// The string with the characters `chars[from..to]`.
pub fn string_of(chars: &Vec<char>, from: usize, to: usize) -> (r: String)
    requires
        from <= to <= chars@.len(),
    ensures
        r@ == chars@.subrange(from as int, to as int),
{
    let mut out = String::new();
    let mut i: usize = from;
    while i < to
        invariant
            from <= i <= to <= chars@.len(),
            out@ == chars@.subrange(from as int, i as int),
        decreases to - i,
    {
        out.push(chars[i]);
        assert(chars@.subrange(from as int, i + 1) =~= chars@.subrange(from as int, i as int).push(
            chars@[i as int],
        ));
        i += 1;
    }
    out
}

/// The length of a string in bytes.
pub fn byte_len(s: &str) -> (n: usize)
    ensures
        n == encode_utf8(s@).len(),
{
    s.as_bytes().len()
}

/// A copy of a string.
pub fn owned(s: &str) -> (r: String)
    ensures
        r@ == s@,
{
    let mut out = String::new();
    out.append(s);
    assert(out@ =~= s@);
    out
}

/// Whether two strings hold the same characters.
pub fn same(a: &str, b: &str) -> (r: bool)
    ensures
        r == (a@ == b@),
{
    let x: &[u8] = a.as_bytes();
    let y: &[u8] = b.as_bytes();
    proof {
        encode_utf8_decode_utf8(a@);
        encode_utf8_decode_utf8(b@);
    }
    if x.len() != y.len() {
        return false;
    }
    let mut i: usize = 0;
    while i < x.len()
        invariant
            i <= x.len(),
            x.len() == y.len(),
            x@ == encode_utf8(a@),
            y@ == encode_utf8(b@),
            forall|j: int| 0 <= j < i ==> x@[j] == y@[j],
        decreases x.len() - i,
    {
        if x[i] != y[i] {
            return false;
        }
        i += 1;
    }
    assert(x@ =~= y@);
    true
}

/// Appends to a string.
pub fn add_text(out: &mut String, s: &str)
    ensures
        final(out)@ == old(out)@ + s@,
{
    out.append(s);
}

/// Appends a number in decimal notation to a string.
pub fn add_number(out: &mut String, n: u64)
    ensures
        final(out)@ == old(out)@ + decimal(n as nat),
{
    let s = number(n);
    out.append(s.as_str());
}

/// The view of a list of strings.
pub open spec fn texts(list: Seq<String>) -> Seq<Seq<char>> {
    list.map_values(|s: String| s@)
}

/// Pushing a string pushes its view.
pub proof fn lemma_texts_push(list: Seq<String>, s: String)
    ensures
        texts(list.push(s)) == texts(list).push(s@),
{
    assert(texts(list.push(s)) =~= texts(list).push(s@));
}

/// Whether a list holds a string.
pub fn list_contains(list: &Vec<String>, s: &str) -> (r: bool)
    ensures
        r == texts(list@).contains(s@),
{
    let mut i: usize = 0;
    while i < list.len()
        invariant
            i <= list@.len(),
            forall|j: int| 0 <= j < i ==> texts(list@)[j] != s@,
        decreases list@.len() - i,
    {
        if same(list[i].as_str(), s) {
            assert(texts(list@)[i as int] == s@);
            return true;
        }
        i += 1;
    }
    false
}

/// Whether `prefix` opens `s`.
pub fn starts_with(s: &str, prefix: &str) -> (r: bool)
    ensures
        r == opens(s@, prefix@),
{
    let a = chars_of(s);
    let b = chars_of(prefix);
    if b.len() > a.len() {
        return false;
    }
    matches_at(&a, &b, 0)
}

/// Whether `suffix` closes `s`.
pub fn ends_with(s: &str, suffix: &str) -> (r: bool)
    ensures
        r == closes(s@, suffix@),
{
    let a = chars_of(s);
    let b = chars_of(suffix);
    if b.len() > a.len() {
        return false;
    }
    proof {
        let at = a@.len() - b@.len();
        assert(a@.subrange(at, at + b@.len()) =~= a@.skip(at));
    }
    matches_at(&a, &b, a.len() - b.len())
}

/// Whether `needle` stands in `hay` at index `at`.
pub fn matches_at(hay: &Vec<char>, needle: &Vec<char>, at: usize) -> (r: bool)
    requires
        at + needle@.len() <= hay@.len(),
    ensures
        r == occurs_at(hay@, needle@, at as int),
        at == 0 ==> r == opens(hay@, needle@),
{
    let mut i: usize = 0;
    let total: usize = hay.len();
    assert(at == 0 ==> hay@.take(needle@.len() as int) =~= hay@.subrange(0, needle@.len() as int));
    while i < needle.len()
        invariant
            i <= needle@.len(),
            at + needle@.len() <= hay@.len(),
            hay@.len() == total,
            forall|j: int| 0 <= j < i ==> hay@[at + j] == #[trigger] needle@[j],
        decreases needle@.len() - i,
    {
        if hay[at + i] != needle[i] {
            assert(hay@.subrange(at as int, at + needle@.len())[i as int] == hay@[at + i]);
            assert(at == 0 ==> hay@.take(needle@.len() as int)[i as int] == hay@[at + i]);
            return false;
        }
        i += 1;
    }
    assert(hay@.subrange(at as int, at + needle@.len()) =~= needle@);
    true
}

/// Whether `needle` occurs in `s`.
pub fn contains(s: &str, needle: &str) -> (r: bool)
    ensures
        r == occurs(s@, needle@),
{
    let a = chars_of(s);
    let b = chars_of(needle);
    if b.len() > a.len() {
        return false;
    }
    let mut at: usize = 0;
    let last: usize = a.len() - b.len();
    while at <= last
        invariant
            a@ == s@,
            b@ == needle@,
            last + b@.len() == a@.len(),
            at <= last + 1,
            forall|j: int| 0 <= j < at ==> !occurs_at(s@, needle@, j),
        decreases last + 1 - at,
    {
        if matches_at(&a, &b, at) {
            return true;
        }
        if at == last {
            return false;
        }
        at += 1;
    }
    false
}

/// White space by Unicode's `White_Space` property.
pub fn space(c: char) -> (r: bool)
    ensures
        r == is_space(c),
{
    let u: u32 = c as u32;
    (0x9 <= u && u <= 0xd) || u == 0x20 || u == 0x85 || u == 0xa0 || u == 0x1680 || (0x2000 <= u
        && u <= 0x200a) || u == 0x2028 || u == 0x2029 || u == 0x202f || u == 0x205f || u == 0x3000
}

/// A string without surrounding white space.
pub fn trim(s: &str) -> (r: String)
    ensures
        r@ == trimmed(s@),
{
    let chars = chars_of(s);
    let ghost p = |c: char| is_space(c);
    let mut from: usize = 0;
    assert(chars@.skip(0) =~= chars@);
    while from < chars.len() && space(chars[from])
        invariant
            from <= chars@.len(),
            p == (|c: char| is_space(c)),
            without_start(chars@, p) == without_start(chars@.skip(from as int), p),
        decreases chars@.len() - from,
    {
        assert(chars@.skip(from as int).skip(1) =~= chars@.skip(from + 1));
        from += 1;
    }
    let mut to: usize = chars.len();
    assert(chars@.skip(from as int) =~= chars@.subrange(from as int, to as int));
    while from < to && space(chars[to - 1])
        invariant
            from <= to <= chars@.len(),
            p == (|c: char| is_space(c)),
            without_end(chars@.skip(from as int), p) == without_end(
                chars@.subrange(from as int, to as int),
                p,
            ),
        decreases to,
    {
        assert(chars@.subrange(from as int, to as int).drop_last() =~= chars@.subrange(
            from as int,
            to - 1,
        ));
        to -= 1;
    }
    string_of(&chars, from, to)
}

/// A string without every trailing `c`.
pub fn trim_end_char(s: &str, c: char) -> (r: String)
    ensures
        r@ == without_end(s@, |x: char| x == c),
{
    let chars = chars_of(s);
    let ghost p = |x: char| x == c;
    let mut to: usize = chars.len();
    assert(chars@.take(to as int) =~= chars@);
    while 0 < to && chars[to - 1] == c
        invariant
            to <= chars@.len(),
            p == (|x: char| x == c),
            without_end(chars@, p) == without_end(chars@.take(to as int), p),
        decreases to,
    {
        assert(chars@.take(to as int).drop_last() =~= chars@.take(to - 1));
        to -= 1;
    }
    assert(chars@.take(to as int) =~= chars@.subrange(0, to as int));
    string_of(&chars, 0, to)
}

/// A string without every leading `c`.
pub fn trim_start_char(s: &str, c: char) -> (r: String)
    ensures
        r@ == without_start(s@, |x: char| x == c),
{
    let chars = chars_of(s);
    let ghost p = |x: char| x == c;
    let mut from: usize = 0;
    assert(chars@.skip(0) =~= chars@);
    while from < chars.len() && chars[from] == c
        invariant
            from <= chars@.len(),
            p == (|x: char| x == c),
            without_start(chars@, p) == without_start(chars@.skip(from as int), p),
        decreases chars@.len() - from,
    {
        assert(chars@.skip(from as int).skip(1) =~= chars@.skip(from + 1));
        from += 1;
    }
    assert(chars@.skip(from as int) =~= chars@.subrange(from as int, chars@.len() as int));
    string_of(&chars, from, chars.len())
}

/// A string with every `from` replaced by `to`.
pub fn replace_char(s: &str, from: char, to: char) -> (r: String)
    ensures
        r@ == replaced(s@, from, to),
{
    let chars = chars_of(s);
    let mut out = String::new();
    let mut i: usize = 0;
    while i < chars.len()
        invariant
            i <= chars@.len(),
            out@ == replaced(chars@.take(i as int), from, to),
        decreases chars@.len() - i,
    {
        let c = if chars[i] == from {
            to
        } else {
            chars[i]
        };
        out.push(c);
        assert(replaced(chars@.take(i + 1), from, to) =~= replaced(
            chars@.take(i as int),
            from,
            to,
        ).push(c));
        i += 1;
    }
    assert(chars@.take(chars@.len() as int) =~= chars@);
    out
}

/// The character of a decimal digit.
pub fn digit_char(d: u64) -> (c: char)
    requires
        d < 10,
    ensures
        c == digit(d as int),
{
    match d {
        0 => '0',
        1 => '1',
        2 => '2',
        3 => '3',
        4 => '4',
        5 => '5',
        6 => '6',
        7 => '7',
        8 => '8',
        _ => '9',
    }
}

/// A number in decimal notation.
pub fn number(n: u64) -> (r: String)
    ensures
        r@ == decimal(n as nat),
    decreases n,
{
    let mut out = if n < 10 {
        String::new()
    } else {
        number(n / 10)
    };
    out.push(digit_char(n % 10));
    assert(n < 10 ==> out@ =~= decimal(n as nat));
    out
}

/// A row that is no number, or too large a one, does not become one by further
/// digits.
proof fn lemma_digits_grow(s: Seq<char>, i: int)
    requires
        0 <= i <= s.len(),
        digits_value(s.take(i)) is None || digits_value(s.take(i))->0 > u64::MAX,
    ensures
        digits_value(s) is None || digits_value(s)->0 > u64::MAX,
    decreases s.len() - i,
{
    if i < s.len() {
        assert(s.take(i + 1).drop_last() =~= s.take(i));
        lemma_digits_grow(s, i + 1);
    } else {
        assert(s.take(i) =~= s);
    }
}

/// The number that a text stands for.
pub fn parse_unsigned(s: &str) -> (r: Option<u64>)
    ensures
        r == parsed_unsigned(s@),
{
    let chars = chars_of(s);
    let from: usize = if chars.len() > 0 && chars[0] == '+' {
        1
    } else {
        0
    };
    let ghost digits = chars@.skip(from as int);
    assert(chars@.skip(0) =~= chars@);
    if chars.len() == from {
        return None;
    }
    let mut value: u64 = 0;
    let mut i: usize = from;
    assert(digits.take(0) =~= Seq::<char>::empty());
    while i < chars.len()
        invariant
            from <= i <= chars@.len(),
            digits == chars@.skip(from as int),
            digits.len() > 0,
            parsed_unsigned(s@) == (match digits_value(digits) {
                Some(n) => if n <= u64::MAX {
                    Some(n as u64)
                } else {
                    None
                },
                None => None,
            }),
            digits_value(digits.take(i - from)) == Some(value as nat),
        decreases chars@.len() - i,
    {
        let c = chars[i];
        proof {
            assert(digits.take(i + 1 - from).drop_last() =~= digits.take(i - from));
            assert(digits.take(i + 1 - from).last() == c);
        }
        if !('0' <= c && c <= '9') {
            proof {
                lemma_digits_grow(digits, i + 1 - from);
            }
            return None;
        }
        let d: u64 = (c as u32 - '0' as u32) as u64;
        if value > (u64::MAX - d) / 10 {
            proof {
                assert(value * 10 + d > u64::MAX);
                lemma_digits_grow(digits, i + 1 - from);
            }
            return None;
        }
        value = value * 10 + d;
        i += 1;
    }
    assert(digits.take(digits.len() as int) =~= digits);
    Some(value)
}

/// A string padded on the left to at least `width` characters.
pub fn pad_left(s: &str, width: usize, fill: char) -> (r: String)
    ensures
        r@ == padded_left(s@, width as nat, fill),
{
    let n: usize = s.unicode_len();
    let mut out = String::new();
    let mut k: usize = n;
    while k < width
        invariant
            n <= k,
            k <= width || k == n,
            out@ == Seq::new((k - n) as nat, |i: int| fill),
        decreases width - k,
    {
        out.push(fill);
        k += 1;
        assert(out@ =~= Seq::new((k - n) as nat, |i: int| fill));
    }
    out.append(s);
    assert(out@ =~= padded_left(s@, width as nat, fill));
    out
}

/// Whether `a` comes before `b`.
pub fn before(a: &str, b: &str) -> (r: bool)
    ensures
        r == precedes(a@, b@),
{
    let x = chars_of(a);
    let y = chars_of(b);
    let mut i: usize = 0;
    assert(x@.skip(0) =~= x@);
    assert(y@.skip(0) =~= y@);
    loop
        invariant
            i <= x@.len(),
            i <= y@.len(),
            precedes(x@, y@) == precedes(x@.skip(i as int), y@.skip(i as int)),
            x@ == a@,
            y@ == b@,
        decreases x@.len() - i,
    {
        if i >= y.len() {
            return false;
        }
        if i >= x.len() {
            return true;
        }
        if x[i] != y[i] {
            return (x[i] as u32) < (y[i] as u32);
        }
        assert(x@.skip(i as int).skip(1) =~= x@.skip(i + 1));
        assert(y@.skip(i as int).skip(1) =~= y@.skip(i + 1));
        i += 1;
    }
}

/// What stands before the last `sep`.
pub fn split_before_last(s: &str, sep: char) -> (r: Option<String>)
    ensures
        before_last(s@, sep) == (match r {
            Some(t) => Some(t@),
            None => None,
        }),
{
    let chars = chars_of(s);
    let mut to: usize = chars.len();
    assert(chars@.take(to as int) =~= chars@);
    while to > 0
        invariant
            to <= chars@.len(),
            before_last(s@, sep) == before_last(chars@.take(to as int), sep),
        decreases to,
    {
        to -= 1;
        assert(chars@.take(to + 1).drop_last() =~= chars@.take(to as int));
        if chars[to] == sep {
            assert(chars@.take(to as int) =~= chars@.subrange(0, to as int));
            return Some(string_of(&chars, 0, to));
        }
    }
    None
}

/// The pieces of a string between occurrences of `sep`.
pub fn split(s: &str, sep: char) -> (r: Vec<String>)
    ensures
        r@.map_values(|p: String| p@) == pieces(s@, sep),
{
    let chars = chars_of(s);
    let mut out: Vec<String> = Vec::new();
    let mut current = String::new();
    let mut i: usize = 0;
    let ghost f = |p: String| p@;
    while i < chars.len()
        invariant
            i <= chars@.len(),
            f == (|p: String| p@),
            pieces(chars@.take(i as int), sep) == out@.map_values(f).push(current@),
        decreases chars@.len() - i,
    {
        assert(chars@.take(i + 1).drop_last() =~= chars@.take(i as int));
        if chars[i] == sep {
            let ghost before = out@.map_values(f).push(current@);
            out.push(current);
            assert(out@.map_values(f) =~= before);
            current = String::new();
        } else {
            assert(out@.map_values(f).push(current@).drop_last() =~= out@.map_values(f));
            current.push(chars[i]);
        }
        i += 1;
    }
    assert(chars@.take(chars@.len() as int) =~= chars@);
    let ghost last = out@.map_values(f).push(current@);
    out.push(current);
    assert(out@.map_values(f) =~= last);
    out
}

/// The lines of a text.
pub fn lines(s: &str) -> (r: Vec<String>)
    ensures
        texts(r@) == lines_of(s@),
{
    let all = split(s, '\n');
    let ghost f = |p: String| p@;
    let ghost ps = pieces(s@, '\n');
    proof {
        lemma_pieces_nonempty(s@, '\n');
        assert(ps == all@.map_values(f));
    }
    let n: usize = all.len() - 1;
    let ghost g = |line: Seq<char>| without_return(line);
    let mut out: Vec<String> = Vec::new();
    let mut i: usize = 0;
    assert(texts(out@) =~= ps.take(0).map_values(g));
    while i < n
        invariant
            i <= n,
            n + 1 == all@.len(),
            f == (|p: String| p@),
            g == (|line: Seq<char>| without_return(line)),
            ps == all@.map_values(f),
            texts(out@) == ps.take(i as int).map_values(g),
        decreases n - i,
    {
        let chars = chars_of(all[i].as_str());
        let m: usize = chars.len();
        let line = if m > 0 && chars[m - 1] == '\r' {
            string_of(&chars, 0, m - 1)
        } else {
            all[i].clone()
        };
        proof {
            assert(ps[i as int] == all@[i as int]@);
            assert(line@ =~= without_return(ps[i as int]));
            assert(ps.take(i + 1).map_values(g) =~= ps.take(i as int).map_values(g).push(line@));
            assert(texts(out@.push(line)) =~= texts(out@).push(line@));
        }
        out.push(line);
        i += 1;
    }
    assert(ps.take(n as int) =~= ps.drop_last());
    assert(ps.last() == all@[n as int]@);
    if !all[n].as_str().is_empty() {
        proof {
            assert(texts(out@.push(all@[n as int])) =~= texts(out@).push(ps.last()));
        }
        out.push(all[n].clone());
    }
    out
}

} // verus!
