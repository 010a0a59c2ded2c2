//! The list of OSC destinations that announce themselves on the local network.

use crate::state::Discovered;
use crate::text::{
    before_first, chars_of, find, first_position, lemma_filter_of_sum, same, string_from,
    trim_end_of, trimmed_end_of,
};
use vstd::prelude::*;

verus! {

/// The service type that is browsed for.
pub const SERVICE_TYPE: &'static str = "_osc._udp.local.";

/// The name to show for a service: what stands before the service type.
pub fn pretty_name(fullname: &str) -> (r: String)
    ensures
        r@ == before_first(fullname@, "._osc._udp"@),
{
    let name = chars_of(fullname);
    let kind = chars_of("._osc._udp");
    match find(&name, &kind) {
        Some(at) => {
            proof {
                let chosen = choose|k: int| first_position(fullname@, "._osc._udp"@, k);
                assert(first_position(fullname@, "._osc._udp"@, at as int));
                assert(first_position(fullname@, "._osc._udp"@, chosen));
                assert(chosen == at);
                assert(name@.subrange(0, at as int) == fullname@.take(at as int));
            }
            string_from(&name, 0, at)
        },
        None => fullname.to_owned(),
    }
}

/// The host of a service: its first address, or its host name without the dots at
/// the end where it has no address.
pub fn service_host(address: Option<String>, hostname: &str) -> (r: String)
    ensures
        match address {
            Some(a) => r == a,
            None => r@ == trimmed_end_of(hostname@, '.'),
        },
{
    match address {
        Some(a) => a,
        None => trim_end_of(hostname, '.'),
    }
}

/// Whether no two destinations have the same name.
pub open spec fn names_distinct(list: Seq<Discovered>) -> bool {
    forall|i: int, j: int|
        0 <= i < j < list.len() ==> (#[trigger] list[i]).name@ != (#[trigger] list[j]).name@
}

/// The list with `entry` in place of the first destination of its name, or at the end
/// where there is none.
pub open spec fn with_entry(list: Seq<Discovered>, entry: Discovered) -> Seq<Discovered>
    decreases list.len(),
{
    if list.len() == 0 {
        seq![entry]
    } else if list[0].name@ == entry.name@ {
        list.update(0, entry)
    } else {
        seq![list[0]] + with_entry(list.drop_first(), entry)
    }
}

/// Whether a destination has another name than `name`.
pub open spec fn other_than(name: Seq<char>) -> spec_fn(Discovered) -> bool {
    |d: Discovered| d.name@ != name
}

/// The list without the destinations called `name`.
pub open spec fn without_name(list: Seq<Discovered>, name: Seq<char>) -> Seq<Discovered> {
    list.filter(other_than(name))
}

/// Enters a destination that was resolved.
pub fn on_resolved(list: &mut Vec<Discovered>, entry: Discovered)
    ensures
        final(list)@ == with_entry(old(list)@, entry),
{
    let ghost before = list@;
    let mut i: usize = 0;
    assert(before.take(0) + with_entry(before.skip(0), entry) == with_entry(before, entry)) by {
        assert(before.skip(0) == before);
    }
    while i < list.len()
        invariant
            i <= list@.len(),
            list@ == before,
            before == old(list)@,
            with_entry(before, entry) == before.take(i as int) + with_entry(
                before.skip(i as int),
                entry,
            ),
        decreases list@.len() - i,
    {
        let ghost rest = before.skip(i as int);
        if same(list[i].name.as_str(), entry.name.as_str()) {
            list.set(i, entry);
            assert(list@ == before.take(i as int) + rest.update(0, entry));
            return;
        }
        assert(rest.drop_first() == before.skip(i + 1));
        assert(before.take(i as int) + (seq![rest[0]] + with_entry(before.skip(i + 1), entry))
            == before.take(i + 1) + with_entry(before.skip(i + 1), entry));
        i += 1;
    }
    list.push(entry);
    assert(list@ == before.take(i as int) + seq![entry]);
}

/// Takes out a destination that is gone.
pub fn on_removed(list: &mut Vec<Discovered>, fullname: &str)
    ensures
        final(list)@ == without_name(old(list)@, before_first(fullname@, "._osc._udp"@)),
{
    let name = pretty_name(fullname);
    let ghost before = list@;
    let ghost keep = other_than(name@);
    let mut kept: Vec<Discovered> = Vec::new();
    let mut gone: Vec<Discovered> = Vec::new();
    gone.append(list);
    assert(kept@ == before.take(0).filter(keep)) by {
        reveal(Seq::filter);
    }
    for d in it: gone.into_iter()
        invariant
            it.seq() == before,
            keep == other_than(name@),
            kept@ == before.take(it.index() as int).filter(keep),
    {
        proof {
            reveal(Seq::filter);
            assert(before.take(it.index() + 1).drop_last() == before.take(it.index() as int));
        }
        if !same(d.name.as_str(), name.as_str()) {
            kept.push(d);
        }
    }
    assert(before.take(before.len() as int) == before);
    list.append(&mut kept);
    assert(list@ == before.filter(keep));
}

/// A destination that was resolved is listed, and every destination of another name
/// stays as it was.
pub proof fn law_resolved_is_listed(list: Seq<Discovered>, entry: Discovered)
    ensures
        with_entry(list, entry).contains(entry),
        forall|d: Discovered|
            d.name@ != entry.name@ ==> (#[trigger] with_entry(list, entry).contains(d)
                <==> list.contains(d)),
    decreases list.len(),
{
    let after = with_entry(list, entry);
    if list.len() == 0 {
        assert(after[0] == entry);
    } else if list[0].name@ == entry.name@ {
        assert(after[0] == entry);
        assert forall|d: Discovered| d.name@ != entry.name@ implies (#[trigger] after.contains(d)
            <==> list.contains(d)) by {
            if after.contains(d) {
                let k = choose|k: int| 0 <= k < after.len() && after[k] == d;
                assert(list[k] == d);
            }
            if list.contains(d) {
                let k = choose|k: int| 0 <= k < list.len() && list[k] == d;
                assert(after[k] == d);
            }
        }
    } else {
        let rest = list.drop_first();
        let below = with_entry(rest, entry);
        law_resolved_is_listed(rest, entry);
        let k = choose|k: int| 0 <= k < below.len() && below[k] == entry;
        assert(after[k + 1] == entry);
        assert forall|d: Discovered| d.name@ != entry.name@ implies (#[trigger] after.contains(d)
            <==> list.contains(d)) by {
            assert(below.contains(d) <==> rest.contains(d));
            if after.contains(d) {
                let k = choose|k: int| 0 <= k < after.len() && after[k] == d;
                if k == 0 {
                    assert(list[0] == d);
                } else {
                    assert(below[k - 1] == d);
                    let m = choose|m: int| 0 <= m < rest.len() && rest[m] == d;
                    assert(list[m + 1] == d);
                }
            }
            if list.contains(d) {
                let k = choose|k: int| 0 <= k < list.len() && list[k] == d;
                if k == 0 {
                    assert(after[0] == d);
                } else {
                    assert(rest[k - 1] == d);
                    let m = choose|m: int| 0 <= m < below.len() && below[m] == d;
                    assert(after[m + 1] == d);
                }
            }
        }
    }
}

/// No two destinations ever have the same name: a list in which that holds keeps it
/// when a destination is entered.
pub proof fn law_resolved_keeps_names_distinct(list: Seq<Discovered>, entry: Discovered)
    requires
        names_distinct(list),
    ensures
        names_distinct(with_entry(list, entry)),
    decreases list.len(),
{
    let after = with_entry(list, entry);
    if list.len() == 0 {
    } else if list[0].name@ == entry.name@ {
        assert forall|i: int, j: int| 0 <= i < j < after.len() implies (#[trigger] after[i]).name@
            != (#[trigger] after[j]).name@ by {
            assert(list[i].name@ != list[j].name@);
        }
    } else {
        let rest = list.drop_first();
        let below = with_entry(rest, entry);
        assert forall|i: int, j: int| 0 <= i < j < rest.len() implies (#[trigger] rest[i]).name@
            != (#[trigger] rest[j]).name@ by {
            assert(list[i + 1].name@ != list[j + 1].name@);
        }
        law_resolved_keeps_names_distinct(rest, entry);
        law_resolved_is_listed(rest, entry);
        assert forall|i: int, j: int| 0 <= i < j < after.len() implies (#[trigger] after[i]).name@
            != (#[trigger] after[j]).name@ by {
            assert(after[j] == below[j - 1]);
            if i > 0 {
                assert(after[i] == below[i - 1]);
            } else if after[j].name@ != entry.name@ {
                assert(below.contains(below[j - 1]));
                assert(rest.contains(below[j - 1]));
                let m = choose|m: int| 0 <= m < rest.len() && rest[m] == below[j - 1];
                assert(list[0].name@ != list[m + 1].name@);
            }
        }
    }
}

/// No two destinations ever have the same name: a list in which that holds keeps it
/// when destinations are taken out.
pub proof fn law_removed_keeps_names_distinct(list: Seq<Discovered>, name: Seq<char>)
    requires
        names_distinct(list),
    ensures
        names_distinct(without_name(list, name)),
    decreases list.len(),
{
    reveal(Seq::filter);
    if list.len() > 0 {
        let rest = list.drop_last();
        let below = without_name(rest, name);
        let after = without_name(list, name);
        law_removed_keeps_names_distinct(rest, name);
        if list.last().name@ != name {
            assert(after == below.push(list.last()));
            assert forall|i: int, j: int| 0 <= i < j < after.len() implies (#[trigger] after[i]).name@
                != (#[trigger] after[j]).name@ by {
                if j == below.len() {
                    assert(below.contains(below[i]));
                    rest.lemma_filter_contains_rev(other_than(name), below[i]);
                    let m = choose|m: int| 0 <= m < rest.len() && rest[m] == below[i];
                    assert(list[m].name@ != list[list.len() - 1].name@);
                }
            }
        }
    }
}

/// Of a destination that is gone nothing is left, and every other stays.
pub proof fn law_removed_is_gone(list: Seq<Discovered>, name: Seq<char>)
    ensures
        forall|d: Discovered|
            #[trigger] without_name(list, name).contains(d) <==> list.contains(d) && d.name@
                != name,
{
    let keep = other_than(name);
    let after = without_name(list, name);
    assert forall|d: Discovered| #[trigger] after.contains(d) implies list.contains(d) && d.name@
        != name by {
        let k = choose|k: int| 0 <= k < after.len() && after[k] == d;
        list.lemma_filter_pred(keep, k);
        list.lemma_filter_contains_rev(keep, d);
    }
    assert forall|d: Discovered| list.contains(d) && d.name@ != name implies #[trigger] after.contains(
        d,
    ) by {
        let k = choose|k: int| 0 <= k < list.len() && list[k] == d;
        list.lemma_filter_contains(keep, k);
    }
}

/// A destination that was resolved takes the place of the first one of its name, or the
/// last place where there is none; every other keeps its place.
pub proof fn law_resolved_takes_its_place(list: Seq<Discovered>, entry: Discovered, i: int)
    requires
        0 <= i <= list.len(),
        forall|k: int| 0 <= k < i ==> (#[trigger] list[k]).name@ != entry.name@,
        i < list.len() ==> list[i].name@ == entry.name@,
    ensures
        i < list.len() ==> with_entry(list, entry) == list.update(i, entry),
        i == list.len() ==> with_entry(list, entry) == list.push(entry),
    decreases list.len(),
{
    if list.len() == 0 {
        assert(with_entry(list, entry) =~= list.push(entry));
    } else if i > 0 {
        assert(list[0].name@ != entry.name@);
        let rest = list.drop_first();
        assert forall|k: int| 0 <= k < i - 1 implies (#[trigger] rest[k]).name@
            != entry.name@ by {
            assert(rest[k] == list[k + 1]);
        }
        law_resolved_takes_its_place(rest, entry, i - 1);
        if i < list.len() {
            assert(with_entry(list, entry) =~= list.update(i, entry));
        } else {
            assert(with_entry(list, entry) =~= list.push(entry));
        }
    }
}

/// What stays when a destination is gone stays in its order: of two lists one behind the
/// other, what stays is what stays of each, and of one destination itself unless it has
/// that name.
pub proof fn law_removed_keeps_the_order(
    a: Seq<Discovered>,
    b: Seq<Discovered>,
    d: Discovered,
    name: Seq<char>,
)
    ensures
        without_name(a + b, name) == without_name(a, name) + without_name(b, name),
        without_name(seq![d], name) == (if d.name@ == name {
            Seq::empty()
        } else {
            seq![d]
        }),
{
    lemma_filter_of_sum(a, b, other_than(name));
    reveal(Seq::filter);
    let sole = seq![d];
    assert(sole.drop_last() =~= Seq::<Discovered>::empty());
    assert(sole.drop_last().filter(other_than(name)) =~= Seq::<Discovered>::empty());
    assert(without_name(sole, name) =~= (if d.name@ == name {
        Seq::empty()
    } else {
        seq![d]
    }));
}

} // verus!
