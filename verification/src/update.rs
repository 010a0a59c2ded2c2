//! Whether a published release is newer than the running version.

use crate::text::{
    char_views, chars_of, concat, decimal, law_decimal_stands_for_the_number, law_nothing_to_split,
    law_numbers_are_read_back, law_split_at_separator, number_u32, parse_u32, pieces, split,
    string_from, Separator,
};
use vstd::prelude::*;

verus! {

/// The published release, as the release server names it.
pub struct Release {
    /// Its tag: the version, often with a `v` in front.
    pub tag_name: String,
    /// The page that offers it.
    pub html_url: String,
}

/// The numbers among the dot-separated pieces, in order; other pieces are passed over.
pub open spec fn numbers_of(parts: Seq<Seq<char>>) -> Seq<u32>
    decreases parts.len(),
{
    if parts.len() == 0 {
        Seq::empty()
    } else {
        let before = numbers_of(parts.drop_last());
        match number_u32(parts.last()) {
            Some(n) => before.push(n),
            None => before,
        }
    }
}

/// The numbers of a version such as `0.1.3`.
pub open spec fn version_numbers(version: Seq<char>) -> Seq<u32> {
    numbers_of(pieces(version, Separator::Char('.')))
}

/// The lexicographic order of two lists of numbers.
pub open spec fn precedes(a: Seq<u32>, b: Seq<u32>) -> bool
    decreases a.len(),
{
    if b.len() == 0 {
        false
    } else if a.len() == 0 {
        true
    } else if a[0] != b[0] {
        a[0] < b[0]
    } else {
        precedes(a.drop_first(), b.drop_first())
    }
}

/// Whether `remote` is a newer version than `current`.
pub open spec fn newer(current: Seq<char>, remote: Seq<char>) -> bool {
    precedes(version_numbers(current), version_numbers(remote))
}

fn parse_version(version: &str) -> (r: Vec<u32>)
    ensures
        r@ == version_numbers(version@),
{
    let chars = chars_of(version);
    let parts = split(&chars, Separator::Char('.'));
    let ghost views = char_views(parts@);
    let mut out: Vec<u32> = Vec::new();
    let mut i: usize = 0;
    while i < parts.len()
        invariant
            i <= parts@.len(),
            views == char_views(parts@),
            out@ == numbers_of(views.take(i as int)),
        decreases parts@.len() - i,
    {
        assert(views.take(i + 1).drop_last() == views.take(i as int));
        if let Some(n) = parse_u32(&parts[i]) {
            out.push(n);
        }
        i += 1;
    }
    assert(views.take(i as int) == views);
    out
}

/// Whether `remote` is a newer version than `current`: its numbers come later in
/// lexicographic order.
pub fn is_newer_version(current: &str, remote: &str) -> (r: bool)
    ensures
        r == newer(current@, remote@),
{
    let a = parse_version(current);
    let b = parse_version(remote);
    let mut i: usize = 0;
    assert(a@.skip(0) == a@);
    assert(b@.skip(0) == b@);
    while i < a.len() && i < b.len()
        invariant
            i <= a@.len(),
            i <= b@.len(),
            a@ == version_numbers(current@),
            b@ == version_numbers(remote@),
            precedes(a@, b@) == precedes(a@.skip(i as int), b@.skip(i as int)),
        decreases a@.len() - i,
    {
        if a[i] != b[i] {
            return a[i] < b[i];
        }
        assert(a@.skip(i as int).drop_first() == a@.skip(i + 1));
        assert(b@.skip(i as int).drop_first() == b@.skip(i + 1));
        i += 1;
    }
    i < b.len()
}

/// The version that a tag names: the tag without a `v` in front.
pub open spec fn bare_version(tag: Seq<char>) -> Seq<char> {
    if tag.len() > 0 && tag[0] == 'v' {
        tag.skip(1)
    } else {
        tag
    }
}

fn strip_v(tag: &str) -> (r: String)
    ensures
        r@ == bare_version(tag@),
{
    let chars = chars_of(tag);
    let from: usize = if chars.len() > 0 && chars[0] == 'v' {
        1
    } else {
        0
    };
    assert(chars@.subrange(from as int, chars@.len() as int) == bare_version(tag@));
    string_from(&chars, from, chars.len())
}

/// The address at which the latest release is asked for.
pub fn release_url() -> (r: String)
    ensures
        r@ == "https://api.github.com/repos/pieeg-club/PiEEG-local-bridge/releases/latest"@,
{
    "https://api.github.com/repos/pieeg-club/PiEEG-local-bridge/releases/latest".to_owned()
}

/// The name under which the request for the latest release is made.
pub fn user_agent(version: &str) -> (r: String)
    ensures
        r@ == "PiEEG-Local-Bridge/"@ + version@,
{
    concat("PiEEG-Local-Bridge/", version)
}

/// The tag and the page of `release` where it is newer than `current`, else nothing.
pub fn check_for_update(current: &str, release: Release) -> (r: Option<(String, String)>)
    ensures
        r == (if newer(current@, bare_version(release.tag_name@)) {
            Some((release.tag_name, release.html_url))
        } else {
            None
        }),
{
    let remote = strip_v(release.tag_name.as_str());
    if is_newer_version(current, remote.as_str()) {
        Some((release.tag_name, release.html_url))
    } else {
        None
    }
}

proof fn lemma_precedes_irreflexive(a: Seq<u32>)
    ensures
        !precedes(a, a),
    decreases a.len(),
{
    if a.len() > 0 {
        lemma_precedes_irreflexive(a.drop_first());
    }
}

proof fn lemma_precedes_transitive(a: Seq<u32>, b: Seq<u32>, c: Seq<u32>)
    requires
        precedes(a, b),
        precedes(b, c),
    ensures
        precedes(a, c),
    decreases a.len(),
{
    if a.len() > 0 && a[0] == b[0] && b[0] == c[0] {
        lemma_precedes_transitive(a.drop_first(), b.drop_first(), c.drop_first());
    }
}

proof fn lemma_precedes_total(a: Seq<u32>, b: Seq<u32>)
    requires
        !precedes(a, b),
        !precedes(b, a),
    ensures
        a == b,
    decreases a.len(),
{
    if a.len() > 0 && b.len() > 0 {
        lemma_precedes_total(a.drop_first(), b.drop_first());
        assert(a == seq![a[0]] + a.drop_first());
        assert(b == seq![b[0]] + b.drop_first());
    } else {
        assert(a.len() == 0 && b.len() == 0);
        assert(a == b);
    }
}

/// No version is newer than itself: the running version is never offered.
pub proof fn law_version_is_not_newer_than_itself(version: Seq<char>)
    ensures
        !newer(version, version),
{
    lemma_precedes_irreflexive(version_numbers(version));
}

/// A version that is newer than a newer one is newer.
pub proof fn law_newer_is_transitive(a: Seq<char>, b: Seq<char>, c: Seq<char>)
    requires
        newer(a, b),
        newer(b, c),
    ensures
        newer(a, c),
{
    lemma_precedes_transitive(version_numbers(a), version_numbers(b), version_numbers(c));
}

/// Of two versions at most one is newer than the other, and none only where they
/// have the same numbers.
pub proof fn law_newer_is_total(a: Seq<char>, b: Seq<char>)
    ensures
        !(newer(a, b) && newer(b, a)),
        newer(a, b) || newer(b, a) || version_numbers(a) == version_numbers(b),
{
    if newer(a, b) && newer(b, a) {
        law_newer_is_transitive(a, b, a);
        law_version_is_not_newer_than_itself(a);
    }
    if !newer(a, b) && !newer(b, a) {
        lemma_precedes_total(version_numbers(a), version_numbers(b));
    }
}

/// A `v` in front of a tag changes nothing about the version that it names.
pub proof fn law_tag_prefix_is_ignored(version: Seq<char>)
    ensures
        bare_version(seq!['v'] + version) == version,
{
    assert((seq!['v'] + version).skip(1) == version);
}

/// Numbers written one behind the other with dots between them.
pub open spec fn dotted(numbers: Seq<u32>) -> Seq<char>
    decreases numbers.len(),
{
    if numbers.len() == 0 {
        Seq::empty()
    } else if numbers.len() == 1 {
        decimal(numbers[0] as nat)
    } else {
        dotted(numbers.drop_last()).push('.') + decimal(numbers.last() as nat)
    }
}

/// The numbers of a version are all that it is made of: those that are written with dots
/// between them are read back, as many as there are.
pub proof fn law_version_is_read_back(numbers: Seq<u32>)
    requires
        numbers.len() > 0,
    ensures
        version_numbers(dotted(numbers)) == numbers,
    decreases numbers.len(),
{
    let last = decimal(numbers.last() as nat);
    law_decimal_stands_for_the_number(numbers.last() as nat);
    law_numbers_are_read_back(numbers.last() as nat, Seq::empty(), 0);
    assert forall|i: int| 0 <= i < last.len() implies !Separator::Char('.').separates(
        #[trigger] last[i],
    ) by {
        assert('0' <= last[i] <= '9');
    }
    law_nothing_to_split(last, Separator::Char('.'));
    let sole = seq![last];
    if numbers.len() == 1 {
        assert(sole.drop_last() =~= Seq::<Seq<char>>::empty());
        assert(numbers_of(sole.drop_last()) =~= Seq::<u32>::empty());
        assert(numbers_of(sole) =~= numbers);
    } else {
        let before = dotted(numbers.drop_last());
        law_version_is_read_back(numbers.drop_last());
        law_split_at_separator(before, '.', last, Separator::Char('.'));
        let parts = pieces(before, Separator::Char('.')) + sole;
        assert(parts.drop_last() =~= pieces(before, Separator::Char('.')));
        assert(numbers_of(parts) =~= numbers);
    }
}

/// The numbers of two runs of pieces are those of the one and those of the other; a
/// piece that is no number adds nothing.
pub proof fn law_numbers_come_piece_by_piece(
    a: Seq<Seq<char>>,
    b: Seq<Seq<char>>,
    piece: Seq<char>,
)
    ensures
        numbers_of(a + b) == numbers_of(a) + numbers_of(b),
        numbers_of(seq![piece]) == (match number_u32(piece) {
            Some(n) => seq![n],
            None => Seq::empty(),
        }),
    decreases b.len(),
{
    let sole = seq![piece];
    assert(sole.drop_last() =~= Seq::<Seq<char>>::empty());
    assert(numbers_of(sole.drop_last()) =~= Seq::<u32>::empty());
    assert(numbers_of(sole) =~= (match number_u32(piece) {
        Some(n) => seq![n],
        None => Seq::empty(),
    }));
    if b.len() == 0 {
        assert(a + b =~= a);
        assert(numbers_of(a) + numbers_of(b) =~= numbers_of(a));
    } else {
        assert((a + b).drop_last() =~= a + b.drop_last());
        law_numbers_come_piece_by_piece(a, b.drop_last(), piece);
        assert(numbers_of(a + b) =~= numbers_of(a) + numbers_of(b));
    }
}

/// One list of numbers comes before another where, at the first place at which they
/// differ, it is over or has the smaller number.
pub proof fn law_first_difference_decides(a: Seq<u32>, b: Seq<u32>)
    ensures
        precedes(a, b) <==> exists|i: int|
            0 <= i <= a.len() && i < b.len() && #[trigger] a.take(i) == b.take(i) && (i == a.len()
                || a[i] < b[i]),
    decreases a.len(),
{
    if b.len() > 0 {
        if a.len() == 0 {
            assert(a.take(0) =~= b.take(0));
        } else if a[0] != b[0] {
            if a[0] < b[0] {
                assert(a.take(0) =~= b.take(0));
            }
            assert forall|i: int|
                0 <= i <= a.len() && i < b.len() && #[trigger] a.take(i) == b.take(i) implies i
                == 0 by {
                if i > 0 {
                    assert(a.take(i)[0] == a[0]);
                    assert(b.take(i)[0] == b[0]);
                }
            }
        } else {
            let x = a.drop_first();
            let y = b.drop_first();
            law_first_difference_decides(x, y);
            if precedes(x, y) {
                let i = choose|i: int|
                    0 <= i <= x.len() && i < y.len() && #[trigger] x.take(i) == y.take(i) && (i
                        == x.len() || x[i] < y[i]);
                assert(a.take(i + 1) =~= seq![a[0]] + x.take(i));
                assert(b.take(i + 1) =~= seq![b[0]] + y.take(i));
                assert(i + 1 == a.len() || a[i + 1] < b[i + 1]);
            }
            if exists|i: int|
                0 <= i <= a.len() && i < b.len() && #[trigger] a.take(i) == b.take(i) && (i
                    == a.len() || a[i] < b[i]) {
                let i = choose|i: int|
                    0 <= i <= a.len() && i < b.len() && #[trigger] a.take(i) == b.take(i) && (i
                        == a.len() || a[i] < b[i]);
                assert(i > 0);
                assert(x.take(i - 1) =~= a.take(i).drop_first());
                assert(y.take(i - 1) =~= b.take(i).drop_first());
                assert(i == a.len() || x[i - 1] < y[i - 1]);
            }
        }
    }
}

/// A version is newer where its numbers come later.
pub proof fn law_newer_goes_by_the_numbers(current: Seq<u32>, remote: Seq<u32>)
    requires
        current.len() > 0,
        remote.len() > 0,
    ensures
        newer(dotted(current), dotted(remote)) <==> precedes(current, remote),
{
    law_version_is_read_back(current);
    law_version_is_read_back(remote);
}

/// A tag without a `v` in front is the version itself.
pub proof fn law_other_tags_are_versions(tag: Seq<char>)
    requires
        tag.len() == 0 || tag[0] != 'v',
    ensures
        bare_version(tag) == tag,
{
}

} // verus!
