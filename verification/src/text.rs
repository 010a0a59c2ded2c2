//! Character-level text operations, stated over sequences of characters.

use vstd::prelude::*;

verus! {

/// [`String::push`] appends one character to the end of the string.
pub assume_specification[ String::push ](s: &mut String, c: char)
    ensures
        final(s)@ == old(s)@.push(c),
;

/// The characters with the Unicode `White_Space` property.
pub open spec fn white_space(c: char) -> bool {
    ||| '\u{9}' <= c <= '\u{d}'
    ||| c == '\u{20}'
    ||| c == '\u{85}'
    ||| c == '\u{a0}'
    ||| c == '\u{1680}'
    ||| '\u{2000}' <= c <= '\u{200a}'
    ||| c == '\u{2028}'
    ||| c == '\u{2029}'
    ||| c == '\u{202f}'
    ||| c == '\u{205f}'
    ||| c == '\u{3000}'
}

/// Whether `c` has the Unicode `White_Space` property.
pub fn is_white_space(c: char) -> (r: bool)
    ensures
        r == white_space(c),
{
    ('\u{9}' <= c && c <= '\u{d}') || c == '\u{20}' || c == '\u{85}' || c == '\u{a0}' || c
        == '\u{1680}' || ('\u{2000}' <= c && c <= '\u{200a}') || c == '\u{2028}' || c == '\u{2029}'
        || c == '\u{202f}' || c == '\u{205f}' || c == '\u{3000}'
}

/// The characters of `s`, in order.
pub fn chars_of(s: &str) -> (r: Vec<char>)
    ensures
        r@ == s@,
{
    let mut out: Vec<char> = Vec::new();
    for c in it: s.chars()
        invariant
            out@ == s@.take(it.index()),
            it.seq() == s@,
    {
        out.push(c);
    }
    assert(out@ == s@);
    out
}

/// The string made of the characters `s[from..to]`.
pub fn string_from(s: &Vec<char>, from: usize, to: usize) -> (r: String)
    requires
        from <= to <= s@.len(),
    ensures
        r@ == s@.subrange(from as int, to as int),
{
    let mut out = String::new();
    let mut i: usize = from;
    while i < to
        invariant
            from <= i <= to <= s@.len(),
            out@ == s@.subrange(from as int, i as int),
        decreases to - i,
    {
        out.push(s[i]);
        i += 1;
    }
    out
}

/// Whether two strings hold the same characters.
pub fn same(a: &str, b: &str) -> (r: bool)
    ensures
        r == (a@ == b@),
{
    let x = chars_of(a);
    let y = chars_of(b);
    if x.len() != y.len() {
        return false;
    }
    let mut i: usize = 0;
    while i < x.len()
        invariant
            x@ == a@,
            y@ == b@,
            x@.len() == y@.len(),
            i <= x@.len(),
            forall|k: int| 0 <= k < i ==> x@[k] == y@[k],
        decreases x@.len() - i,
    {
        if x[i] != y[i] {
            return false;
        }
        i += 1;
    }
    assert(x@ == y@);
    true
}

/// The views of a list of strings.
pub open spec fn views(list: Seq<String>) -> Seq<Seq<char>> {
    list.map_values(|s: String| s@)
}

/// Whether some string of `list` holds the characters of `s`.
pub fn contains(list: &Vec<String>, s: &str) -> (r: bool)
    ensures
        r == views(list@).contains(s@),
{
    let mut i: usize = 0;
    while i < list.len()
        invariant
            i <= list@.len(),
            forall|k: int| 0 <= k < i ==> views(list@)[k] != s@,
        decreases list@.len() - i,
    {
        if same(list[i].as_str(), s) {
            assert(views(list@)[i as int] == s@);
            return true;
        }
        i += 1;
    }
    false
}

/// The concatenation of two strings.
pub fn concat(a: &str, b: &str) -> (r: String)
    ensures
        r@ == a@ + b@,
{
    let mut out = a.to_owned();
    out.append(b);
    out
}

/// The concatenation of three strings.
pub fn concat3(a: &str, b: &str, c: &str) -> (r: String)
    ensures
        r@ == a@ + b@ + c@,
{
    let mut out = a.to_owned();
    out.append(b);
    out.append(c);
    out
}

/// `s` without the white space at its start.
pub open spec fn trimmed_start(s: Seq<char>) -> Seq<char>
    decreases s.len(),
{
    if s.len() > 0 && white_space(s[0]) {
        trimmed_start(s.drop_first())
    } else {
        s
    }
}

/// `s` without the white space at its end.
pub open spec fn trimmed_end(s: Seq<char>) -> Seq<char>
    decreases s.len(),
{
    if s.len() > 0 && white_space(s.last()) {
        trimmed_end(s.drop_last())
    } else {
        s
    }
}

/// `s` without the white space at either end.
pub open spec fn trimmed(s: Seq<char>) -> Seq<char> {
    trimmed_end(trimmed_start(s))
}

/// Removes the white space at both ends.
pub fn trim(s: &Vec<char>) -> (r: Vec<char>)
    ensures
        r@ == trimmed(s@),
{
    let mut from: usize = 0;
    assert(s@.skip(0) == s@);
    while from < s.len() && is_white_space(s[from])
        invariant
            from <= s@.len(),
            trimmed_start(s@) == trimmed_start(s@.skip(from as int)),
        decreases s@.len() - from,
    {
        assert(s@.skip(from as int).drop_first() == s@.skip(from + 1));
        from += 1;
    }
    let ghost rest = s@.skip(from as int);
    assert(trimmed_start(s@) == rest);
    let mut to: usize = s.len();
    assert(rest.take(to - from) == rest);
    while to > from && is_white_space(s[to - 1])
        invariant
            from <= to <= s@.len(),
            rest == s@.skip(from as int),
            trimmed_end(rest) == trimmed_end(rest.take(to - from)),
        decreases to,
    {
        assert(rest.take(to - from).drop_last() == rest.take(to - from - 1));
        to -= 1;
    }
    assert(trimmed_end(rest) == rest.take(to - from));
    let mut out: Vec<char> = Vec::new();
    let mut i: usize = from;
    while i < to
        invariant
            from <= i <= to <= s@.len(),
            out@ == s@.subrange(from as int, i as int),
        decreases to - i,
    {
        out.push(s[i]);
        i += 1;
    }
    assert(rest.take(to - from) == s@.subrange(from as int, to as int));
    out
}

/// `s` without the occurrences of `c` at its end.
pub open spec fn trimmed_end_of(s: Seq<char>, c: char) -> Seq<char>
    decreases s.len(),
{
    if s.len() > 0 && s.last() == c {
        trimmed_end_of(s.drop_last(), c)
    } else {
        s
    }
}

/// Removes every occurrence of `c` at the end of `s`.
pub fn trim_end_of(s: &str, c: char) -> (r: String)
    ensures
        r@ == trimmed_end_of(s@, c),
{
    let v = chars_of(s);
    let mut to: usize = v.len();
    assert(v@.take(to as int) == v@);
    while to > 0 && v[to - 1] == c
        invariant
            to <= v@.len(),
            trimmed_end_of(v@, c) == trimmed_end_of(v@.take(to as int), c),
        decreases to,
    {
        assert(v@.take(to as int).drop_last() == v@.take(to - 1));
        to -= 1;
    }
    assert(v@.take(to as int) == v@.subrange(0, to as int));
    string_from(&v, 0, to)
}

/// What separates the pieces of a split.
#[derive(Clone, Copy, PartialEq, Eq, Debug)]
pub enum Separator {
    /// One given character.
    Char(char),
    /// Any white space character.
    WhiteSpace,
}

impl Separator {
    /// Whether `c` separates two pieces.
    pub open spec fn separates(self, c: char) -> bool {
        match self {
            Separator::Char(x) => c == x,
            Separator::WhiteSpace => white_space(c),
        }
    }

    fn matches(&self, c: char) -> (r: bool)
        ensures
            r == self.separates(c),
    {
        match self {
            Separator::Char(x) => c == *x,
            Separator::WhiteSpace => is_white_space(c),
        }
    }
}

/// The pieces of `s` between its separators: one more piece than there are separators.
pub open spec fn pieces(s: Seq<char>, sep: Separator) -> Seq<Seq<char>>
    decreases s.len(),
{
    if s.len() == 0 {
        seq![Seq::<char>::empty()]
    } else {
        let before = pieces(s.drop_last(), sep);
        if sep.separates(s.last()) {
            before.push(Seq::empty())
        } else {
            before.drop_last().push(before.last().push(s.last()))
        }
    }
}

/// The views of a list of character vectors.
pub open spec fn char_views(list: Seq<Vec<char>>) -> Seq<Seq<char>> {
    list.map_values(|v: Vec<char>| v@)
}

/// Splits `s` at every separator.
pub fn split(s: &Vec<char>, sep: Separator) -> (r: Vec<Vec<char>>)
    ensures
        char_views(r@) == pieces(s@, sep),
{
    let mut out: Vec<Vec<char>> = Vec::new();
    let mut current: Vec<char> = Vec::new();
    let mut i: usize = 0;
    assert(char_views(out@).push(current@) == pieces(s@.take(0), sep));
    while i < s.len()
        invariant
            i <= s@.len(),
            char_views(out@).push(current@) == pieces(s@.take(i as int), sep),
        decreases s@.len() - i,
    {
        let ghost before = pieces(s@.take(i as int), sep);
        assert(s@.take(i + 1).drop_last() == s@.take(i as int));
        assert(before.last() == current@);
        assert(before.drop_last() == char_views(out@));
        if sep.matches(s[i]) {
            let ghost list = out@;
            out.push(current);
            assert(char_views(out@) == char_views(list).push(out@.last()@));
            current = Vec::new();
            assert(char_views(out@).push(current@) == before.push(Seq::empty()));
        } else {
            current.push(s[i]);
        }
        i += 1;
    }
    assert(s@.take(i as int) == s@);
    let ghost list = out@;
    out.push(current);
    assert(char_views(out@) == char_views(list).push(out@.last()@));
    out
}

/// The maximal runs of characters that are not white space.
pub open spec fn words(s: Seq<char>) -> Seq<Seq<char>> {
    pieces(s, Separator::WhiteSpace).filter(|p: Seq<char>| p.len() > 0)
}

/// Splits `s` into its words.
pub fn split_words(s: &Vec<char>) -> (r: Vec<Vec<char>>)
    ensures
        char_views(r@) == words(s@),
{
    let all = split(s, Separator::WhiteSpace);
    let ghost views = char_views(all@);
    let ghost keep = |p: Seq<char>| p.len() > 0;
    let mut out: Vec<Vec<char>> = Vec::new();
    let mut i: usize = 0;
    assert(char_views(out@) == views.take(0).filter(keep)) by {
        reveal(Seq::filter);
    }
    while i < all.len()
        invariant
            i <= all@.len(),
            views == char_views(all@),
            keep == (|p: Seq<char>| p.len() > 0),
            char_views(out@) == views.take(i as int).filter(keep),
        decreases all@.len() - i,
    {
        proof {
            reveal(Seq::filter);
            assert(views.take(i + 1).drop_last() == views.take(i as int));
        }
        if all[i].len() > 0 {
            let ghost list = out@;
            let word = copied(&all[i]);
            out.push(word);
            assert(char_views(out@) == char_views(list).push(word@));
        }
        i += 1;
    }
    assert(views.take(i as int) == views);
    out
}

fn copied(s: &Vec<char>) -> (r: Vec<char>)
    ensures
        r@ == s@,
{
    let mut out: Vec<char> = Vec::new();
    let mut i: usize = 0;
    while i < s.len()
        invariant
            i <= s@.len(),
            out@ == s@.take(i as int),
        decreases s@.len() - i,
    {
        out.push(s[i]);
        i += 1;
    }
    assert(s@.take(i as int) == s@);
    out
}

/// Whether the characters of `p` stand in `s` at `at`.
pub open spec fn stands_at(s: Seq<char>, p: Seq<char>, at: int) -> bool {
    0 <= at && at + p.len() <= s.len() && s.subrange(at, at + p.len()) == p
}

/// Whether `p` stands in `s` at position `at`.
pub fn found_at(s: &Vec<char>, p: &Vec<char>, at: usize) -> (r: bool)
    ensures
        r == stands_at(s@, p@, at as int),
{
    if p.len() > s.len() || at > s.len() - p.len() {
        return false;
    }
    let mut i: usize = 0;
    while i < p.len()
        invariant
            i <= p@.len(),
            at + p@.len() <= s@.len() <= usize::MAX,
            forall|k: int| 0 <= k < i ==> s@[at + k] == p@[k],
        decreases p@.len() - i,
    {
        if s[at + i] != p[i] {
            assert(s@.subrange(at as int, at + p@.len())[i as int] != p@[i as int]);
            return false;
        }
        i += 1;
    }
    assert(s@.subrange(at as int, at + p@.len()) == p@);
    true
}

/// The first position at which `p` stands in `s`.
pub open spec fn first_position(s: Seq<char>, p: Seq<char>, at: int) -> bool {
    stands_at(s, p, at) && forall|k: int| 0 <= k < at ==> !#[trigger] stands_at(s, p, k)
}

/// The part of `s` before the first occurrence of `p`, or all of `s` where there is none.
pub open spec fn before_first(s: Seq<char>, p: Seq<char>) -> Seq<char> {
    if exists|at: int| first_position(s, p, at) {
        s.take(choose|at: int| first_position(s, p, at))
    } else {
        s
    }
}

/// The first position of `p` in `s`, if there is one.
pub fn find(s: &Vec<char>, p: &Vec<char>) -> (r: Option<usize>)
    ensures
        match r {
            Some(at) => first_position(s@, p@, at as int),
            None => forall|k: int| !stands_at(s@, p@, k),
        },
{
    let mut i: usize = 0;
    while i < s.len()
        invariant
            i <= s@.len(),
            forall|k: int| 0 <= k < i ==> !stands_at(s@, p@, k),
        decreases s@.len() - i,
    {
        if found_at(s, p, i) {
            return Some(i);
        }
        i += 1;
    }
    if found_at(s, p, i) {
        return Some(i);
    }
    None
}

/// The decimal digit of `n`, which is below ten.
pub open spec fn digit(n: nat) -> char {
    (48 + n) as char
}

/// The decimal form of `n`, without leading zeros.
pub open spec fn decimal(n: nat) -> Seq<char>
    decreases n,
{
    if n < 10 {
        seq![digit(n)]
    } else {
        decimal(n / 10).push(digit(n % 10))
    }
}

/// The decimal form of `n`.
pub fn to_decimal(n: u64) -> (r: String)
    ensures
        r@ == decimal(n as nat),
    decreases n,
{
    let last = (48u8 + (n % 10) as u8) as char;
    let mut out = if n < 10 {
        String::new()
    } else {
        to_decimal(n / 10)
    };
    out.push(last);
    assert(out@ == decimal(n as nat));
    out
}

/// Whether every character of `s` is a decimal digit.
pub open spec fn all_digits(s: Seq<char>) -> bool {
    forall|i: int| 0 <= i < s.len() ==> '0' <= #[trigger] s[i] <= '9'
}

/// The number that the decimal digits `s` stand for.
pub open spec fn digits_value(s: Seq<char>) -> nat
    decreases s.len(),
{
    if s.len() == 0 {
        0
    } else {
        10 * digits_value(s.drop_last()) + (s.last() as int - 48) as nat
    }
}

/// The digits of a number written with an optional `+` sign.
pub open spec fn unsigned_part(s: Seq<char>) -> Seq<char> {
    if s.len() > 1 && s[0] == '+' {
        s.skip(1)
    } else {
        s
    }
}

/// The 32-bit number that `s` writes in decimal, if it writes one.
pub open spec fn number_u32(s: Seq<char>) -> Option<u32> {
    let digits = unsigned_part(s);
    if digits.len() > 0 && all_digits(digits) && digits_value(digits) <= u32::MAX {
        Some(digits_value(digits) as u32)
    } else {
        None
    }
}

proof fn lemma_digits_value_prefix(s: Seq<char>, n: int)
    requires
        0 <= n <= s.len(),
        all_digits(s),
    ensures
        digits_value(s.take(n)) <= digits_value(s),
    decreases s.len() - n,
{
    if n < s.len() {
        lemma_digits_value_prefix(s, n + 1);
        assert(s.take(n + 1).drop_last() == s.take(n));
    } else {
        assert(s.take(n) == s);
    }
}

/// Reads a decimal 32-bit number with an optional `+` sign.
pub fn parse_u32(s: &Vec<char>) -> (r: Option<u32>)
    ensures
        r == number_u32(s@),
{
    let from: usize = if s.len() > 1 && s[0] == '+' {
        1
    } else {
        0
    };
    let ghost digits = unsigned_part(s@);
    assert(digits == s@.skip(from as int));
    if from == s.len() {
        return None;
    }
    let mut value: u64 = 0;
    let mut i: usize = from;
    while i < s.len()
        invariant
            from <= i <= s@.len(),
            digits == s@.skip(from as int),
            digits == unsigned_part(s@),
            all_digits(digits.take(i - from)),
            value == digits_value(digits.take(i - from)),
            value <= u32::MAX,
        decreases s@.len() - i,
    {
        let c = s[i];
        assert(digits[i - from] == c);
        if c < '0' || '9' < c {
            return None;
        }
        let d: u64 = (c as u32 - 48) as u64;
        value = 10 * value + d;
        assert(digits.take(i - from + 1).drop_last() == digits.take(i - from));
        if value > 0xffff_ffff {
            proof {
                if all_digits(digits) {
                    lemma_digits_value_prefix(digits, i - from + 1);
                }
            }
            return None;
        }
        i += 1;
    }
    assert(digits.take(i - from) == digits);
    Some(value as u32)
}

/// The list with `item` at its end, where there is one that it does not hold yet.
pub open spec fn with_new(list: Seq<Seq<char>>, item: Option<Seq<char>>) -> Seq<Seq<char>> {
    match item {
        Some(x) => if list.contains(x) {
            list
        } else {
            list.push(x)
        },
        None => list,
    }
}

/// An entry is added to a list, and never repeats one that is there.
pub proof fn lemma_with_new(list: Seq<Seq<char>>, item: Option<Seq<char>>)
    ensures
        list.no_duplicates() ==> with_new(list, item).no_duplicates(),
        forall|a: Seq<char>|
            #[trigger] with_new(list, item).contains(a) <==> list.contains(a) || item == Some(a),
{
    let after = with_new(list, item);
    if let Some(x) = item {
        if !list.contains(x) {
            assert forall|a: Seq<char>| #[trigger] after.contains(a) <==> list.contains(a) || item
                == Some(a) by {
                if list.contains(a) {
                    let k = choose|k: int| 0 <= k < list.len() && list[k] == a;
                    assert(after[k] == a);
                }
                assert(after[list.len() as int] == x);
                if after.contains(a) {
                    let k = choose|k: int| 0 <= k < after.len() && after[k] == a;
                    if k < list.len() {
                        assert(list[k] == a);
                    }
                }
            }
            assert forall|i: int, j: int|
                list.no_duplicates() && 0 <= i < after.len() && 0 <= j < after.len() && i
                    != j implies after[i] != after[j] by {
                if i < list.len() && j < list.len() {
                    assert(list[i] != list[j]);
                } else if i < list.len() {
                    assert(list.contains(list[i]));
                } else {
                    assert(list.contains(list[j]));
                }
            }
        }
    }
}

/// What remains of a text without the white space around it is a part of the text, with
/// nothing but white space before and behind it, and none at its own ends.
pub proof fn law_trimmed_is_the_core(s: Seq<char>) -> (ends: (int, int))
    ensures
        0 <= ends.0 <= ends.1 <= s.len(),
        trimmed(s) == s.subrange(ends.0, ends.1),
        forall|i: int| 0 <= i < ends.0 ==> white_space(#[trigger] s[i]),
        forall|i: int| ends.1 <= i < s.len() ==> white_space(#[trigger] s[i]),
        ends.0 < ends.1 ==> !white_space(s[ends.0]) && !white_space(s[ends.1 - 1]),
{
    let a = lemma_trimmed_start(s);
    let rest = s.skip(a);
    let b = a + lemma_trimmed_end(rest);
    assert(trimmed(s) =~= s.subrange(a, b));
    assert forall|i: int| b <= i < s.len() implies white_space(#[trigger] s[i]) by {
        assert(s[i] == rest[i - a]);
    }
    if a < b {
        assert(s[b - 1] == rest[b - 1 - a]);
    }
    (a, b)
}

proof fn lemma_trimmed_start(s: Seq<char>) -> (a: int)
    ensures
        0 <= a <= s.len(),
        trimmed_start(s) == s.skip(a),
        forall|i: int| 0 <= i < a ==> white_space(#[trigger] s[i]),
        a < s.len() ==> !white_space(s[a]),
    decreases s.len(),
{
    if s.len() > 0 && white_space(s[0]) {
        let rest = s.drop_first();
        let a = 1 + lemma_trimmed_start(rest);
        assert(rest.skip(a - 1) =~= s.skip(a));
        assert forall|i: int| 0 <= i < a implies white_space(#[trigger] s[i]) by {
            if i > 0 {
                assert(s[i] == rest[i - 1]);
            }
        }
        a
    } else {
        assert(s.skip(0) =~= s);
        0
    }
}

proof fn lemma_trimmed_end(s: Seq<char>) -> (b: int)
    ensures
        0 <= b <= s.len(),
        trimmed_end(s) == s.take(b),
        forall|i: int| b <= i < s.len() ==> white_space(#[trigger] s[i]),
        b > 0 ==> !white_space(s[b - 1]),
    decreases s.len(),
{
    if s.len() > 0 && white_space(s.last()) {
        let rest = s.drop_last();
        let b = lemma_trimmed_end(rest);
        assert(rest.take(b) =~= s.take(b));
        assert forall|i: int| b <= i < s.len() implies white_space(#[trigger] s[i]) by {
            if i < rest.len() {
                assert(s[i] == rest[i]);
            }
        }
        b
    } else {
        assert(s.take(s.len() as int) =~= s);
        s.len() as int
    }
}

/// White space around a text makes no difference once it is taken off.
pub proof fn law_outer_white_space_is_lost(before: Seq<char>, s: Seq<char>, behind: Seq<char>)
    requires
        forall|i: int| 0 <= i < before.len() ==> white_space(#[trigger] before[i]),
        forall|i: int| 0 <= i < behind.len() ==> white_space(#[trigger] behind[i]),
    ensures
        trimmed(before + s + behind) == trimmed(s),
{
    let all = before + s + behind;
    let (a, b) = law_trimmed_is_the_core(s);
    let (c, d) = law_trimmed_is_the_core(all);
    assert forall|i: int| 0 <= i < s.len() implies #[trigger] s[i] == all[before.len() + i] by {}
    assert forall|i: int| 0 <= i < behind.len() implies #[trigger] behind[i] == all[before.len()
        + s.len() + i] by {}
    assert forall|i: int| 0 <= i < before.len() implies #[trigger] before[i] == all[i] by {}
    if a < b {
        assert(all[before.len() + a] == s[a]);
        assert(all[before.len() + b - 1] == s[b - 1]);
        assert(c <= before.len() + a);
        assert(d >= before.len() + b);
        if c < before.len() {
            assert(white_space(before[c]));
        } else if c < before.len() + a {
            assert(white_space(s[c - before.len()]));
        }
        if d > before.len() + s.len() {
            assert(white_space(behind[d - 1 - before.len() - s.len()]));
        } else if d > before.len() + b {
            assert(white_space(s[d - 1 - before.len()]));
        }
        assert(all.subrange(c, d) =~= s.subrange(a, b));
    } else {
        if c < d {
            if c < before.len() {
                assert(white_space(before[c]));
            } else if c < before.len() + s.len() {
                assert(white_space(s[c - before.len()]));
            } else {
                assert(white_space(behind[c - before.len() - s.len()]));
            }
        }
        assert(all.subrange(c, d) =~= s.subrange(a, b));
    }
}

/// A text without the occurrences of `c` at its end starts the text, does not end in
/// `c`, and is followed by `c` alone.
pub proof fn law_trimmed_end_of_is_the_start(s: Seq<char>, c: char) -> (n: int)
    ensures
        0 <= n <= s.len(),
        trimmed_end_of(s, c) == s.take(n),
        forall|i: int| n <= i < s.len() ==> #[trigger] s[i] == c,
        n > 0 ==> s[n - 1] != c,
    decreases s.len(),
{
    if s.len() > 0 && s.last() == c {
        let rest = s.drop_last();
        let n = law_trimmed_end_of_is_the_start(rest, c);
        assert(rest.take(n) =~= s.take(n));
        assert forall|i: int| n <= i < s.len() implies #[trigger] s[i] == c by {
            if i < rest.len() {
                assert(s[i] == rest[i]);
            }
        }
        n
    } else {
        assert(s.take(s.len() as int) =~= s);
        s.len() as int
    }
}

/// A text is split at each of its separators: the pieces of two texts with a separator
/// between them are those of the one and those of the other.
pub proof fn law_split_at_separator(a: Seq<char>, c: char, b: Seq<char>, sep: Separator)
    requires
        sep.separates(c),
    ensures
        pieces(a.push(c) + b, sep) == pieces(a, sep) + pieces(b, sep),
    decreases b.len(),
{
    let all = a.push(c) + b;
    lemma_pieces_not_empty(a, sep);
    lemma_pieces_not_empty(b, sep);
    if b.len() == 0 {
        assert(all.drop_last() =~= a);
        assert(pieces(all, sep) =~= pieces(a, sep) + pieces(b, sep));
    } else {
        assert(all.drop_last() =~= a.push(c) + b.drop_last());
        law_split_at_separator(a, c, b.drop_last(), sep);
        lemma_pieces_not_empty(b.drop_last(), sep);
        let before = pieces(b.drop_last(), sep);
        let whole = pieces(a, sep) + before;
        assert(pieces(all.drop_last(), sep) == whole);
        assert(whole.last() == before.last());
        assert(pieces(all, sep) =~= pieces(a, sep) + pieces(b, sep));
    }
}

proof fn lemma_pieces_not_empty(s: Seq<char>, sep: Separator)
    ensures
        pieces(s, sep).len() > 0,
    decreases s.len(),
{
    if s.len() > 0 {
        lemma_pieces_not_empty(s.drop_last(), sep);
    }
}

/// A text without separators is not split.
pub proof fn law_nothing_to_split(s: Seq<char>, sep: Separator)
    requires
        forall|i: int| 0 <= i < s.len() ==> !sep.separates(#[trigger] s[i]),
    ensures
        pieces(s, sep) == seq![s],
    decreases s.len(),
{
    if s.len() > 0 {
        let rest = s.drop_last();
        assert forall|i: int| 0 <= i < rest.len() implies !sep.separates(#[trigger] rest[i]) by {
            assert(rest[i] == s[i]);
        }
        law_nothing_to_split(rest, sep);
        assert(rest.push(s.last()) =~= s);
        assert(pieces(s, sep) =~= seq![s]);
    } else {
        assert(s =~= Seq::<char>::empty());
    }
}

/// A given character separates where it stands and no other does; white space separates
/// wherever it stands.
pub proof fn law_separators(c: char, x: char)
    ensures
        Separator::Char(x).separates(c) <==> c == x,
        Separator::WhiteSpace.separates(c) <==> white_space(c),
{
}

/// The words of two texts with white space between them are those of the one and those
/// of the other; a text without white space is one word, and an empty one has none.
pub proof fn law_words_are_split_by_white_space(a: Seq<char>, c: char, b: Seq<char>)
    requires
        white_space(c),
    ensures
        words(a.push(c) + b) == words(a) + words(b),
        words(Seq::<char>::empty()) == Seq::<Seq<char>>::empty(),
        a.len() > 0 && (forall|i: int| 0 <= i < a.len() ==> !white_space(#[trigger] a[i]))
            ==> words(a) == seq![a],
{
    let keep = |p: Seq<char>| p.len() > 0;
    law_split_at_separator(a, c, b, Separator::WhiteSpace);
    lemma_filter_of_sum(
        pieces(a, Separator::WhiteSpace),
        pieces(b, Separator::WhiteSpace),
        keep,
    );
    reveal(Seq::filter);
    let none = pieces(Seq::<char>::empty(), Separator::WhiteSpace);
    assert(none.drop_last() =~= Seq::<Seq<char>>::empty());
    assert(none.drop_last().filter(keep) =~= Seq::<Seq<char>>::empty());
    assert(none.filter(keep) =~= Seq::<Seq<char>>::empty());
    if a.len() > 0 && (forall|i: int| 0 <= i < a.len() ==> !white_space(#[trigger] a[i])) {
        law_nothing_to_split(a, Separator::WhiteSpace);
        let one = seq![a];
        assert(one.drop_last() =~= Seq::<Seq<char>>::empty());
        assert(one.drop_last().filter(keep) =~= Seq::<Seq<char>>::empty());
        assert(one.filter(keep) =~= seq![a]);
    }
}

/// What is kept of two lists one behind the other is what is kept of each.
pub proof fn lemma_filter_of_sum<A>(a: Seq<A>, b: Seq<A>, keep: spec_fn(A) -> bool)
    ensures
        (a + b).filter(keep) == a.filter(keep) + b.filter(keep),
    decreases b.len(),
{
    reveal(Seq::filter);
    if b.len() == 0 {
        assert(a + b =~= a);
        assert(b.filter(keep) =~= Seq::<A>::empty());
        assert(a.filter(keep) + b.filter(keep) =~= a.filter(keep));
    } else {
        assert((a + b).drop_last() =~= a + b.drop_last());
        lemma_filter_of_sum(a, b.drop_last(), keep);
        assert((a + b).filter(keep) =~= a.filter(keep) + b.filter(keep));
    }
}

/// A text stands in another where each of its characters does.
pub proof fn law_stands_at_by_characters(s: Seq<char>, p: Seq<char>, at: int)
    ensures
        stands_at(s, p, at) <==> 0 <= at && at + p.len() <= s.len() && (forall|i: int|
            0 <= i < p.len() ==> #[trigger] p[i] == s[at + i]),
{
    if 0 <= at && at + p.len() <= s.len() {
        let part = s.subrange(at, at + p.len());
        if forall|i: int| 0 <= i < p.len() ==> #[trigger] p[i] == s[at + i] {
            assert(part =~= p);
        }
        if part == p {
            assert forall|i: int| 0 <= i < p.len() implies #[trigger] p[i] == s[at + i] by {
                assert(part[i] == s[at + i]);
            }
        }
    }
}

/// What stands before the first occurrence of a text is followed by it, and holds no
/// occurrence that starts in it; without an occurrence, the whole is left.
pub proof fn law_before_first_is_cut_at_the_first(s: Seq<char>, p: Seq<char>)
    ensures
        (forall|k: int| !stands_at(s, p, k)) ==> before_first(s, p) == s,
        (exists|k: int| stands_at(s, p, k)) ==> {
            &&& before_first(s, p).is_prefix_of(s)
            &&& stands_at(s, p, before_first(s, p).len() as int)
            &&& forall|k: int|
                0 <= k < before_first(s, p).len() ==> !#[trigger] stands_at(s, p, k)
        },
{
    if exists|k: int| stands_at(s, p, k) {
        let k = choose|k: int| stands_at(s, p, k);
        lemma_first_exists(s, p, k);
    }
}

proof fn lemma_first_exists(s: Seq<char>, p: Seq<char>, k: int)
    requires
        stands_at(s, p, k),
    ensures
        exists|at: int| first_position(s, p, at),
    decreases k,
{
    if !first_position(s, p, k) {
        let j = choose|j: int| 0 <= j < k && #[trigger] stands_at(s, p, j);
        lemma_first_exists(s, p, j);
    }
}

/// The decimal form of a number is made of digits, has no needless zero in front, and
/// stands for the number.
pub proof fn law_decimal_stands_for_the_number(n: nat)
    ensures
        decimal(n).len() > 0,
        all_digits(decimal(n)),
        n > 0 ==> decimal(n)[0] != '0',
        n == 0 ==> decimal(n) == seq!['0'],
        digits_value(decimal(n)) == n,
    decreases n,
{
    let s = decimal(n);
    if n < 10 {
        assert(s.drop_last() =~= Seq::<char>::empty());
        assert(digits_value(s.drop_last()) == 0);
    } else {
        law_decimal_stands_for_the_number(n / 10);
        assert(s.drop_last() =~= decimal(n / 10));
        assert(s[0] == decimal(n / 10)[0]);
        assert forall|i: int| 0 <= i < s.len() implies '0' <= #[trigger] s[i] <= '9' by {
            if i < decimal(n / 10).len() {
                assert(s[i] == decimal(n / 10)[i]);
            }
        }
    }
}

/// The value of digits is positional: a digit behind others counts for itself, and the
/// others for ten times as much.
pub proof fn law_digits_are_positional(s: Seq<char>, c: char)
    requires
        '0' <= c <= '9',
    ensures
        digits_value(s.push(c)) == 10 * digits_value(s) + (c as int - '0' as int),
        digits_value(Seq::<char>::empty()) == 0,
{
    assert(s.push(c).drop_last() =~= s);
}

/// A number that fits into 32 bits is read back from its decimal form, with a plus sign
/// or without; a larger one is not read, nor is a text with any other character, nor an
/// empty one.
pub proof fn law_numbers_are_read_back(n: nat, s: Seq<char>, i: int)
    ensures
        number_u32(decimal(n)) == (if n <= u32::MAX {
            Some(n as u32)
        } else {
            None
        }),
        number_u32(seq!['+'] + decimal(n)) == number_u32(decimal(n)),
        number_u32(Seq::<char>::empty()) is None,
        0 <= i < s.len() && !('0' <= s[i] <= '9') && !(i == 0 && s[0] == '+') ==> number_u32(s) is None,
        s == seq!['+'] ==> number_u32(s) is None,
        s.len() > 0 && (forall|k: int| 0 <= k < s.len() ==> '0' <= #[trigger] s[k] <= '9')
            && digits_value(s) <= u32::MAX ==> number_u32(s) == Some(digits_value(s) as u32),
{
    law_decimal_stands_for_the_number(n);
    let signed = seq!['+'] + decimal(n);
    assert(signed.skip(1) =~= decimal(n));
    assert('0' <= decimal(n)[0] <= '9');
    if 0 <= i < s.len() && !('0' <= s[i] <= '9') && !(i == 0 && s[0] == '+') {
        let digits = unsigned_part(s);
        if s.len() > 1 && s[0] == '+' {
            assert(digits[i - 1] == s[i]);
        } else {
            assert(digits[i] == s[i]);
        }
    }
    if s == seq!['+'] {
        assert(unsigned_part(s)[0] == '+');
    }
}

/// What a list holds stays in its place when an entry is added.
pub proof fn law_new_entry_comes_last(list: Seq<Seq<char>>, item: Option<Seq<char>>)
    ensures
        list.is_prefix_of(with_new(list, item)),
        with_new(list, item).len() <= list.len() + 1,
        item matches Some(x) ==> with_new(list, item).contains(x),
        item is None ==> with_new(list, item) == list,
        item matches Some(x) && list.contains(x) ==> with_new(list, item) == list,
{
    if let Some(x) = item {
        if !list.contains(x) {
            assert(with_new(list, item)[list.len() as int] == x);
        }
    }
}

/// A list of texts holds each of them, in its place.
pub proof fn law_views_are_in_place(list: Seq<String>, chars: Seq<Vec<char>>, i: int)
    ensures
        views(list).len() == list.len(),
        char_views(chars).len() == chars.len(),
        0 <= i < list.len() ==> views(list)[i] == list[i]@,
        0 <= i < chars.len() ==> char_views(chars)[i] == chars[i]@,
{
}

} // verus!
