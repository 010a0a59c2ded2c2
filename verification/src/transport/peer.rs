//! What can be told of a peer from its offer.

use crate::state::PeerInfo;
use crate::text::{
    char_views, chars_of, contains, found_at, law_new_entry_comes_last, law_nothing_to_split,
    law_outer_white_space_is_lost, law_split_at_separator, law_trimmed_is_the_core, lemma_with_new,
    pieces, same, split, split_words, stands_at, string_from, trim, trimmed, views, white_space,
    with_new, words, Separator,
};
use vstd::prelude::*;

verus! {

/// What a peer says of itself next to its offer. It is shown to the user, never
/// trusted.
pub struct PeerMeta {
    /// Its name.
    pub name: Option<String>,
    /// The site that it runs on.
    pub origin: Option<String>,
    /// The browser that it runs in.
    pub user_agent: Option<String>,
}

/// Whether there is anything but white space in `s`.
pub open spec fn says_something(s: Seq<char>) -> bool {
    trimmed(s).len() > 0
}

/// The text where it says something, else nothing.
pub open spec fn told(text: Option<String>) -> Option<String> {
    match text {
        Some(s) => if says_something(s@) {
            Some(s)
        } else {
            None
        },
        None => None,
    }
}

fn keep_told(text: Option<String>) -> (r: Option<String>)
    ensures
        r == told(text),
{
    match text {
        Some(s) => {
            let chars = chars_of(s.as_str());
            if trim(&chars).len() > 0 {
                Some(s)
            } else {
                None
            }
        },
        None => None,
    }
}

/// The tokens of a candidate line, which are the words behind `a=candidate:`; the
/// line may have white space at either end.
pub open spec fn candidate_tokens(line: Seq<char>) -> Option<Seq<Seq<char>>> {
    let l = trimmed(line);
    if stands_at(l, "a=candidate:"@, 0) {
        Some(words(l.skip("a=candidate:"@.len() as int)))
    } else {
        None
    }
}

/// Whether a host name is one of those that stand for a hidden address.
pub open spec fn hidden_address(address: Seq<char>) -> bool {
    stands_at(address, ".local"@, address.len() - ".local"@.len())
}

/// The address that a line of an offer names: the fifth token of a candidate, unless
/// it hides the address.
pub open spec fn line_address(line: Seq<char>) -> Option<Seq<char>> {
    match candidate_tokens(line) {
        Some(tokens) => if tokens.len() > 4 && !hidden_address(tokens[4]) {
            Some(tokens[4])
        } else {
            None
        },
        None => None,
    }
}

/// The token behind the first `typ`.
pub open spec fn token_after_typ(tokens: Seq<Seq<char>>) -> Option<Seq<char>>
    decreases tokens.len(),
{
    if tokens.len() < 2 {
        None
    } else if tokens[0] == "typ"@ {
        Some(tokens[1])
    } else {
        token_after_typ(tokens.drop_first())
    }
}

/// The candidate type that a line of an offer names.
pub open spec fn line_type(line: Seq<char>) -> Option<Seq<char>> {
    match candidate_tokens(line) {
        Some(tokens) => token_after_typ(tokens),
        None => None,
    }
}

/// What `pick` finds in the lines, each once, in the order of its first appearance.
pub open spec fn found_in(
    lines: Seq<Seq<char>>,
    pick: spec_fn(Seq<char>) -> Option<Seq<char>>,
) -> Seq<Seq<char>>
    decreases lines.len(),
{
    if lines.len() == 0 {
        Seq::empty()
    } else {
        with_new(found_in(lines.drop_last(), pick), pick(lines.last()))
    }
}

/// Picks the address that a line names.
pub open spec fn address_picker() -> spec_fn(Seq<char>) -> Option<Seq<char>> {
    |line: Seq<char>| line_address(line)
}

/// Picks the candidate type that a line names.
pub open spec fn type_picker() -> spec_fn(Seq<char>) -> Option<Seq<char>> {
    |line: Seq<char>| line_type(line)
}

/// The addresses that the lines name, each once, in the order of their first
/// appearance.
pub open spec fn addresses(lines: Seq<Seq<char>>) -> Seq<Seq<char>> {
    found_in(lines, address_picker())
}

/// The candidate types that the lines name, each once, in the order of their first
/// appearance.
pub open spec fn candidate_kinds(lines: Seq<Seq<char>>) -> Seq<Seq<char>> {
    found_in(lines, type_picker())
}

/// The lines of an offer.
pub open spec fn offer_lines(sdp: Seq<char>) -> Seq<Seq<char>> {
    pieces(sdp, Separator::Char('\n'))
}

fn push_new(list: &mut Vec<String>, item: &Vec<char>)
    ensures
        views(final(list)@) == with_new(views(old(list)@), Some(item@)),
{
    let s = string_from(item, 0, item.len());
    assert(s@ == item@);
    if !contains(list, s.as_str()) {
        let ghost before = list@;
        list.push(s);
        assert(views(list@) == views(before).push(item@));
    }
}

fn ends_with(s: &Vec<char>, end: &Vec<char>) -> (r: bool)
    ensures
        r == stands_at(s@, end@, s@.len() - end@.len()),
{
    if end.len() > s.len() {
        return false;
    }
    found_at(s, end, s.len() - end.len())
}

fn suffix(s: &Vec<char>, from: usize) -> (r: Vec<char>)
    requires
        from <= s@.len(),
    ensures
        r@ == s@.skip(from as int),
{
    let mut out: Vec<char> = Vec::new();
    let mut i: usize = from;
    while i < s.len()
        invariant
            from <= i <= s@.len(),
            out@ == s@.subrange(from as int, i as int),
        decreases s@.len() - i,
    {
        out.push(s[i]);
        i += 1;
    }
    assert(out@ == s@.skip(from as int));
    out
}

fn tokens_of(line: &Vec<char>) -> (r: Option<Vec<Vec<char>>>)
    ensures
        match r {
            Some(tokens) => candidate_tokens(line@) == Some(char_views(tokens@)),
            None => candidate_tokens(line@) is None,
        },
{
    let l = trim(line);
    let head = chars_of("a=candidate:");
    if found_at(&l, &head, 0) {
        let rest = suffix(&l, head.len());
        Some(split_words(&rest))
    } else {
        None
    }
}

fn is_word(token: &Vec<char>, word: &str) -> (r: bool)
    ensures
        r == (token@ == word@),
{
    let s = string_from(token, 0, token.len());
    assert(s@ == token@);
    same(s.as_str(), word)
}

/// The position of the token behind the first `typ`.
fn type_position(tokens: &Vec<Vec<char>>) -> (r: Option<usize>)
    ensures
        match r {
            Some(i) => i < tokens@.len() && token_after_typ(char_views(tokens@)) == Some(
                tokens@[i as int]@,
            ),
            None => token_after_typ(char_views(tokens@)) is None,
        },
{
    let ghost all = char_views(tokens@);
    assert(all.skip(0) == all);
    let mut i: usize = 0;
    while tokens.len() - i >= 2
        invariant
            i <= tokens@.len(),
            all == char_views(tokens@),
            token_after_typ(all) == token_after_typ(all.skip(i as int)),
        decreases tokens@.len() - i,
    {
        assert(all.skip(i as int)[0] == tokens@[i as int]@);
        assert(all.skip(i as int)[1] == tokens@[i + 1]@);
        if is_word(&tokens[i], "typ") {
            return Some(i + 1);
        }
        assert(all.skip(i as int).drop_first() == all.skip(i + 1));
        i += 1;
    }
    None
}

/// Whether `info` is what the user is shown of a peer that offers `sdp` and says
/// `meta` of itself.
pub open spec fn describes(
    info: PeerInfo,
    sdp: Seq<char>,
    meta: Option<PeerMeta>,
    now_ms: u64,
) -> bool {
    &&& info.requested_ms == now_ms
    &&& match meta {
        Some(m) => info.name == told(m.name) && info.origin == told(m.origin) && info.user_agent
            == told(m.user_agent),
        None => info.name is None && info.origin is None && info.user_agent is None,
    }
    &&& views(info.ip_addresses@) == addresses(offer_lines(sdp))
    &&& views(info.candidate_types@) == candidate_kinds(offer_lines(sdp))
}

/// What to show the user of a peer: what it says of itself, as far as it says
/// anything, and the network facts in its offer.
pub fn build_peer_info(offer_sdp: &str, meta: Option<PeerMeta>, now_ms: u64) -> (r: PeerInfo)
    ensures
        describes(r, offer_sdp@, meta, now_ms),
{
    let (name, origin, user_agent) = match meta {
        Some(m) => (keep_told(m.name), keep_told(m.origin), keep_told(m.user_agent)),
        None => (None, None, None),
    };
    let mut ip_addresses: Vec<String> = Vec::new();
    let mut candidate_types: Vec<String> = Vec::new();
    let sdp = chars_of(offer_sdp);
    let hidden = chars_of(".local");
    let lines = split(&sdp, Separator::Char('\n'));
    let ghost all = char_views(lines@);
    let mut i: usize = 0;
    assert(views(ip_addresses@) == addresses(all.take(0)));
    assert(views(candidate_types@) == candidate_kinds(all.take(0)));
    while i < lines.len()
        invariant
            i <= lines@.len(),
            hidden@ == ".local"@,
            all == char_views(lines@),
            views(ip_addresses@) == addresses(all.take(i as int)),
            views(candidate_types@) == candidate_kinds(all.take(i as int)),
        decreases lines@.len() - i,
    {
        assert(all.take(i + 1).drop_last() == all.take(i as int));
        assert(all.take(i + 1).last() == lines@[i as int]@);
        if let Some(tokens) = tokens_of(&lines[i]) {
            if tokens.len() > 4 {
                assert(char_views(tokens@)[4] == tokens@[4]@);
                if !ends_with(&tokens[4], &hidden) {
                    push_new(&mut ip_addresses, &tokens[4]);
                }
            }
            if let Some(k) = type_position(&tokens) {
                push_new(&mut candidate_types, &tokens[k]);
            }
        }
        i += 1;
    }
    assert(all.take(i as int) == all);
    PeerInfo {
        name,
        origin,
        user_agent,
        ip_addresses,
        candidate_types,
        requested_ms: now_ms,
    }
}

/// What is found in the lines is listed once, and it is what the lines name.
proof fn lemma_found_once(
    lines: Seq<Seq<char>>,
    pick: spec_fn(Seq<char>) -> Option<Seq<char>>,
)
    ensures
        found_in(lines, pick).no_duplicates(),
        forall|a: Seq<char>|
            #[trigger] found_in(lines, pick).contains(a) <==> exists|i: int|
                0 <= i < lines.len() && pick(#[trigger] lines[i]) == Some(a),
    decreases lines.len(),
{
    if lines.len() > 0 {
        let rest = lines.drop_last();
        let before = found_in(rest, pick);
        lemma_found_once(rest, pick);
        lemma_with_new(before, pick(lines.last()));
        assert forall|a: Seq<char>| #[trigger] found_in(lines, pick).contains(a) <==> exists|i: int|
            0 <= i < lines.len() && pick(#[trigger] lines[i]) == Some(a) by {
            assert(found_in(lines, pick).contains(a) <==> before.contains(a) || pick(lines.last())
                == Some(a));
            if before.contains(a) {
                let i = choose|i: int| 0 <= i < rest.len() && pick(#[trigger] rest[i]) == Some(a);
                assert(lines[i] == rest[i]);
            }
            if exists|i: int| 0 <= i < lines.len() && pick(#[trigger] lines[i]) == Some(a) {
                let i = choose|i: int| 0 <= i < lines.len() && pick(#[trigger] lines[i]) == Some(a);
                if i < rest.len() {
                    assert(rest[i] == lines[i]);
                }
            }
            if pick(lines.last()) == Some(a) {
                assert(lines[lines.len() - 1] == lines.last());
            }
        }
    }
}

/// No address is shown twice, and none that hides the address: each stands in a
/// candidate line of the offer.
pub proof fn law_addresses_are_distinct_and_named(lines: Seq<Seq<char>>)
    ensures
        addresses(lines).no_duplicates(),
        forall|a: Seq<char>|
            #[trigger] addresses(lines).contains(a) <==> exists|i: int|
                0 <= i < lines.len() && line_address(#[trigger] lines[i]) == Some(a),
        forall|a: Seq<char>| #[trigger] addresses(lines).contains(a) ==> !hidden_address(a),
{
    lemma_found_once(lines, address_picker());
}

/// No candidate type is shown twice: each stands in a candidate line of the offer.
pub proof fn law_candidate_kinds_are_distinct_and_named(lines: Seq<Seq<char>>)
    ensures
        candidate_kinds(lines).no_duplicates(),
        forall|a: Seq<char>|
            #[trigger] candidate_kinds(lines).contains(a) <==> exists|i: int|
                0 <= i < lines.len() && line_type(#[trigger] lines[i]) == Some(a),
{
    lemma_found_once(lines, type_picker());
}

/// A text says something where any character of it is not white space.
pub proof fn law_anything_but_white_space_says_something(s: Seq<char>)
    ensures
        says_something(s) <==> exists|i: int| 0 <= i < s.len() && !white_space(#[trigger] s[i]),
{
    let (a, b) = law_trimmed_is_the_core(s);
    if exists|i: int| 0 <= i < s.len() && !white_space(#[trigger] s[i]) {
        let i = choose|i: int| 0 <= i < s.len() && !white_space(#[trigger] s[i]);
        assert(a <= i < b);
    }
    if a < b {
        assert(!white_space(s[a]));
    }
}

/// What a peer says of itself is shown unchanged where it is more than white space, and
/// not at all where it is not.
pub open spec fn shown_as_said(said: Option<String>, shown: Option<String>) -> bool {
    match said {
        Some(s) => if exists|i: int| 0 <= i < s@.len() && !white_space(#[trigger] s@[i]) {
            shown == Some(s)
        } else {
            shown is None
        },
        None => shown is None,
    }
}

/// Whatever a peer says of itself that is not only white space, its name, its origin and
/// its browser, is shown to the user unchanged, each in the field of its own; a peer that
/// says nothing is shown with none of the three.
pub proof fn law_peer_is_shown_as_it_says(
    info: PeerInfo,
    sdp: Seq<char>,
    meta: Option<PeerMeta>,
    now_ms: u64,
)
    requires
        describes(info, sdp, meta, now_ms),
    ensures
        info.requested_ms == now_ms,
        meta matches Some(m) ==> shown_as_said(m.name, info.name) && shown_as_said(
            m.origin,
            info.origin,
        ) && shown_as_said(m.user_agent, info.user_agent),
        meta is None ==> info.name is None && info.origin is None && info.user_agent is None,
{
    if let Some(m) = meta {
        if let Some(s) = m.name {
            law_anything_but_white_space_says_something(s@);
        }
        if let Some(s) = m.origin {
            law_anything_but_white_space_says_something(s@);
        }
        if let Some(s) = m.user_agent {
            law_anything_but_white_space_says_something(s@);
        }
    }
}

/// The addresses and the candidate types that are shown are those that the lines of the
/// offer name, each once.
pub proof fn law_network_facts_of_the_offer_are_shown(
    info: PeerInfo,
    sdp: Seq<char>,
    meta: Option<PeerMeta>,
    now_ms: u64,
    x: Seq<char>,
)
    requires
        describes(info, sdp, meta, now_ms),
    ensures
        views(info.ip_addresses@).no_duplicates(),
        views(info.candidate_types@).no_duplicates(),
        views(info.ip_addresses@).contains(x) <==> exists|i: int|
            0 <= i < offer_lines(sdp).len() && line_address(#[trigger] offer_lines(sdp)[i]) == Some(
                x,
            ),
        views(info.candidate_types@).contains(x) <==> exists|i: int|
            0 <= i < offer_lines(sdp).len() && line_type(#[trigger] offer_lines(sdp)[i]) == Some(x),
{
    law_addresses_are_distinct_and_named(offer_lines(sdp));
    law_candidate_kinds_are_distinct_and_named(offer_lines(sdp));
}

/// What further lines of an offer name comes behind what the lines before them name.
pub proof fn law_later_lines_add_behind(
    lines: Seq<Seq<char>>,
    more: Seq<Seq<char>>,
)
    ensures
        addresses(lines).is_prefix_of(addresses(lines + more)),
        candidate_kinds(lines).is_prefix_of(candidate_kinds(lines + more)),
{
    lemma_later_lines_add_behind(lines, more, address_picker());
    lemma_later_lines_add_behind(lines, more, type_picker());
}

proof fn lemma_later_lines_add_behind(
    lines: Seq<Seq<char>>,
    more: Seq<Seq<char>>,
    pick: spec_fn(Seq<char>) -> Option<Seq<char>>,
)
    ensures
        found_in(lines, pick).is_prefix_of(found_in(lines + more, pick)),
    decreases more.len(),
{
    if more.len() == 0 {
        assert(lines + more =~= lines);
    } else {
        let all = lines + more;
        assert(all.drop_last() =~= lines + more.drop_last());
        lemma_later_lines_add_behind(lines, more.drop_last(), pick);
        law_new_entry_comes_last(found_in(all.drop_last(), pick), pick(all.last()));
    }
}

/// An offer is taken line by line: the lines of two texts with a line break between them
/// are those of the one and those of the other, and a text without one is a line.
pub proof fn law_offer_is_taken_line_by_line(a: Seq<char>, b: Seq<char>)
    ensures
        offer_lines(a.push('\n') + b) == offer_lines(a) + offer_lines(b),
        !a.contains('\n') ==> offer_lines(a) == seq![a],
{
    law_split_at_separator(a, '\n', b, Separator::Char('\n'));
    if !a.contains('\n') {
        law_nothing_to_split(a, Separator::Char('\n'));
    }
}

/// The tokens of a candidate line are the words behind `a=candidate:`, whatever white
/// space stands round the line.
pub proof fn law_candidate_line_is_read(
    before: Seq<char>,
    rest: Seq<char>,
    behind: Seq<char>,
)
    requires
        forall|i: int| 0 <= i < before.len() ==> white_space(#[trigger] before[i]),
        forall|i: int| 0 <= i < behind.len() ==> white_space(#[trigger] behind[i]),
        rest.len() > 0 && !white_space(rest.last()),
    ensures
        candidate_tokens(before + ("a=candidate:"@ + rest) + behind) == Some(words(rest)),
{
    reveal_strlit("a=candidate:");
    let head = "a=candidate:"@;
    let line = head + rest;
    law_outer_white_space_is_lost(before, line, behind);
    let (a, b) = law_trimmed_is_the_core(line);
    assert(line[0] == 'a');
    assert(line[line.len() - 1] == rest.last());
    assert(a == 0 && b == line.len());
    assert(trimmed(line) =~= line);
    assert(line.subrange(0, head.len() as int) =~= head);
    assert(line.skip(head.len() as int) =~= rest);
}

/// A line that does not start with `a=candidate:`, white space aside, is no candidate,
/// and names nothing.
pub proof fn law_other_lines_name_nothing(line: Seq<char>)
    ensures
        candidate_tokens(line) is Some <==> stands_at(trimmed(line), "a=candidate:"@, 0),
        candidate_tokens(line) is None ==> line_address(line) is None && line_type(line) is None,
{
}

/// A candidate names its fifth token as its address, unless that ends in `.local`.
pub proof fn law_fifth_token_is_the_address(line: Seq<char>, tokens: Seq<Seq<char>>)
    requires
        candidate_tokens(line) == Some(tokens),
    ensures
        tokens.len() <= 4 ==> line_address(line) is None,
        tokens.len() > 4 && hidden_address(tokens[4]) ==> line_address(line) is None,
        tokens.len() > 4 && !hidden_address(tokens[4]) ==> line_address(line) == Some(tokens[4]),
{
}

/// An address is hidden where it ends in `.local`.
pub proof fn law_hidden_addresses_end_in_local(address: Seq<char>)
    ensures
        hidden_address(address) <==> address.len() >= ".local"@.len() && address.skip(
            address.len() - ".local"@.len(),
        ) == ".local"@,
{
    let n = address.len() - ".local"@.len();
    if n >= 0 {
        assert(address.subrange(n, address.len() as int) =~= address.skip(n));
    }
}

/// A candidate names as its type the token behind the first `typ`, and none where
/// nothing stands behind it or there is none.
pub proof fn law_type_stands_behind_the_first_typ(
    line: Seq<char>,
    tokens: Seq<Seq<char>>,
    k: int,
)
    requires
        candidate_tokens(line) == Some(tokens),
        0 <= k <= tokens.len(),
        forall|i: int| 0 <= i < k ==> #[trigger] tokens[i] != "typ"@,
    ensures
        k + 1 < tokens.len() && tokens[k] == "typ"@ ==> line_type(line) == Some(tokens[k + 1]),
        k + 1 >= tokens.len() ==> line_type(line) is None,
{
    lemma_token_after_typ(tokens, k);
}

proof fn lemma_token_after_typ(tokens: Seq<Seq<char>>, k: int)
    requires
        0 <= k <= tokens.len(),
        forall|i: int| 0 <= i < k ==> #[trigger] tokens[i] != "typ"@,
    ensures
        k + 1 < tokens.len() && tokens[k] == "typ"@ ==> token_after_typ(tokens) == Some(
            tokens[k + 1],
        ),
        k + 1 >= tokens.len() ==> token_after_typ(tokens) is None,
    decreases k,
{
    if k > 0 && tokens.len() >= 2 {
        let rest = tokens.drop_first();
        assert forall|i: int| 0 <= i < k - 1 implies #[trigger] rest[i] != "typ"@ by {
            assert(rest[i] == tokens[i + 1]);
        }
        assert(tokens[0] != "typ"@);
        lemma_token_after_typ(rest, k - 1);
    }
}

} // verus!
