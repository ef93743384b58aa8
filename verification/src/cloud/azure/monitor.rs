//! Business events for Azure Monitor.

use crate::cloud::property_views;
use crate::keyed::is_listing;
use crate::text::{comes_before, lemma_order_is_transitive, lemma_texts_are_ordered, precedes, same};
use vstd::prelude::*;

verus! {

/// The tracing target under which business events are exported.
pub const TELEMETRY_TARGET: &'static str = "vanguard::telemetry_event";

/// Properties by name; of several with one name, the last.
pub open spec fn keyed_properties(properties: Seq<(Seq<char>, Seq<char>)>) -> Map<Seq<char>, Seq<char>>
    decreases properties.len(),
{
    if properties.len() == 0 {
        Map::empty()
    } else {
        keyed_properties(properties.drop_last()).insert(properties.last().0, properties.last().1)
    }
}

/// Properties in the order of their names, each name once.
pub open spec fn in_order(properties: Seq<(Seq<char>, Seq<char>)>) -> bool {
    forall|i: int, j: int|
        0 <= i < j < properties.len() ==> comes_before((#[trigger] properties[i]).0, (#[trigger] properties[j]).0)
}

/// Ordered properties list what they hold by name.
proof fn lemma_keyed_listing(properties: Seq<(Seq<char>, Seq<char>)>)
    requires
        in_order(properties),
    ensures
        is_listing(properties, keyed_properties(properties)),
    decreases properties.len(),
{
    let keyed = keyed_properties(properties);
    assert forall|i: int, j: int| 0 <= i < j < properties.len() implies (#[trigger] properties[i]).0 != (
    #[trigger] properties[j]).0 by {
        lemma_texts_are_ordered(properties[i].0, properties[j].0);
    }
    if properties.len() > 0 {
        let shorter = properties.drop_last();
        let last = properties.len() - 1;
        assert(in_order(shorter)) by {
            assert forall|i: int, j: int| 0 <= i < j < shorter.len() implies comes_before(
                (#[trigger] shorter[i]).0,
                (#[trigger] shorter[j]).0,
            ) by {
                assert(comes_before(properties[i].0, properties[j].0));
            }
        }
        lemma_keyed_listing(shorter);
        assert forall|i: int| 0 <= i < properties.len() implies keyed.contains_key((#[trigger] properties[i]).0)
            && keyed[properties[i].0] == properties[i].1 by {
            if i < last {
                assert(shorter[i] == properties[i]);
                assert(properties[i].0 != properties[last].0);
            }
        }
        assert forall|k: Seq<char>| #[trigger] keyed.contains_key(k) implies exists|i: int|
            0 <= i < properties.len() && (#[trigger] properties[i]).0 == k by {
            if k == properties[last].0 {
                assert(properties[last].0 == k);
            } else {
                assert(keyed_properties(shorter).contains_key(k));
                let i = choose|i: int| 0 <= i < shorter.len() && (#[trigger] shorter[i]).0 == k;
                assert(properties[i].0 == k);
            }
        }
    }
}

/// Two maps with the same listing are the same.
proof fn lemma_listing_determines(
    properties: Seq<(Seq<char>, Seq<char>)>,
    a: Map<Seq<char>, Seq<char>>,
    b: Map<Seq<char>, Seq<char>>,
)
    requires
        is_listing(properties, a),
        is_listing(properties, b),
    ensures
        a == b,
{
    assert forall|k: Seq<char>| a.contains_key(k) == b.contains_key(k) && (a.contains_key(k) ==> a[k] == b[k]) by {
        if a.contains_key(k) {
            let i = choose|i: int| 0 <= i < properties.len() && (#[trigger] properties[i]).0 == k;
            assert(b.contains_key(properties[i].0));
        }
        if b.contains_key(k) {
            let i = choose|i: int| 0 <= i < properties.len() && (#[trigger] properties[i]).0 == k;
            assert(a.contains_key(properties[i].0));
        }
    }
    assert(a =~= b);
}

/// Puts a property in its place among ordered ones; one that has its name
/// makes way.
fn put_in_order(sorted: &mut Vec<(String, String)>, name: String, value: String)
    requires
        in_order(property_views(old(sorted)@)),
    ensures
        in_order(property_views(final(sorted)@)),
        keyed_properties(property_views(final(sorted)@)) == keyed_properties(property_views(old(sorted)@)).insert(
            name@,
            value@,
        ),
{
    let ghost before = property_views(sorted@);
    let n: usize = sorted.len();
    let mut p: usize = 0;
    while p < n && precedes(sorted[p].0.as_str(), name.as_str())
        invariant
            p <= n,
            n == sorted@.len(),
            before == property_views(sorted@),
            forall|i: int| 0 <= i < p ==> comes_before((#[trigger] before[i]).0, name@),
        decreases n - p,
    {
        p = p + 1;
    }
    let ghost entry = (name@, value@);
    let ghost wanted = keyed_properties(before).insert(name@, value@);
    proof {
        lemma_keyed_listing(before);
    }
    if p < n && same(sorted[p].0.as_str(), name.as_str()) {
        sorted.set(p, (name, value));
        proof {
            let after = property_views(sorted@);
            assert(after =~= before.update(p as int, entry));
            assert forall|i: int, j: int| 0 <= i < j < after.len() implies comes_before(
                (#[trigger] after[i]).0,
                (#[trigger] after[j]).0,
            ) by {
                assert(comes_before(before[i].0, before[j].0));
            }
            lemma_keyed_listing(after);
            assert forall|i: int| 0 <= i < after.len() implies wanted.contains_key((#[trigger] after[i]).0)
                && wanted[after[i].0] == after[i].1 by {
                if i != p {
                    assert(before[i].0 != before[p as int].0);
                }
            }
            assert forall|k: Seq<char>| #[trigger] wanted.contains_key(k) implies exists|i: int|
                0 <= i < after.len() && (#[trigger] after[i]).0 == k by {
                if k == name@ {
                    assert(after[p as int].0 == k);
                } else {
                    assert(keyed_properties(before).contains_key(k));
                    let i = choose|i: int| 0 <= i < before.len() && (#[trigger] before[i]).0 == k;
                    assert(after[i].0 == k);
                }
            }
            lemma_listing_determines(after, keyed_properties(after), wanted);
        }
    } else {
        sorted.insert(p, (name, value));
        proof {
            let after = property_views(sorted@);
            assert(after =~= before.insert(p as int, entry));
            if p < n {
                lemma_texts_are_ordered(before[p as int].0, entry.0);
            }
            assert forall|i: int| p <= i < n implies comes_before(entry.0, (#[trigger] before[i]).0) by {
                if i > p {
                    lemma_order_is_transitive(entry.0, before[p as int].0, before[i].0);
                }
            }
            assert forall|i: int| 0 <= i < before.len() implies (#[trigger] before[i]).0 != entry.0 by {
                lemma_texts_are_ordered(before[i].0, entry.0);
                lemma_texts_are_ordered(entry.0, before[i].0);
            }
            assert forall|i: int, j: int| 0 <= i < j < after.len() implies comes_before(
                (#[trigger] after[i]).0,
                (#[trigger] after[j]).0,
            ) by {
                let from = |x: int| if x < p {
                    x
                } else {
                    x - 1
                };
                if i != p {
                    assert(after[i] == before[from(i)]);
                }
                if j != p {
                    assert(after[j] == before[from(j)]);
                }
                if i != p && j != p {
                    assert(comes_before(before[from(i)].0, before[from(j)].0));
                }
            }
            lemma_keyed_listing(after);
            assert forall|i: int| 0 <= i < after.len() implies wanted.contains_key((#[trigger] after[i]).0)
                && wanted[after[i].0] == after[i].1 by {
                if i < p {
                    assert(after[i] == before[i]);
                } else if i > p {
                    assert(after[i] == before[i - 1]);
                }
            }
            assert forall|k: Seq<char>| #[trigger] wanted.contains_key(k) implies exists|i: int|
                0 <= i < after.len() && (#[trigger] after[i]).0 == k by {
                if k == name@ {
                    assert(after[p as int].0 == k);
                } else {
                    assert(keyed_properties(before).contains_key(k));
                    let i = choose|i: int| 0 <= i < before.len() && (#[trigger] before[i]).0 == k;
                    if i < p {
                        assert(after[i].0 == k);
                    } else {
                        assert(after[i + 1].0 == k);
                    }
                }
            }
            lemma_listing_determines(after, keyed_properties(after), wanted);
        }
    }
}

/// Orders properties by their names; of several with one name, the last stays.
fn order_properties(properties: &Vec<(String, String)>) -> (r: Vec<(String, String)>)
    ensures
        in_order(property_views(r@)),
        keyed_properties(property_views(r@)) == keyed_properties(property_views(properties@)),
{
    let ghost all = property_views(properties@);
    let mut sorted: Vec<(String, String)> = Vec::new();
    let mut i: usize = 0;
    assert(all.take(0) =~= property_views(sorted@));
    while i < properties.len()
        invariant
            i <= properties@.len(),
            all == property_views(properties@),
            in_order(property_views(sorted@)),
            keyed_properties(property_views(sorted@)) == keyed_properties(all.take(i as int)),
        decreases properties@.len() - i,
    {
        put_in_order(&mut sorted, properties[i].0.clone(), properties[i].1.clone());
        proof {
            assert(all.take(i + 1).drop_last() =~= all.take(i as int));
            assert(all.take(i + 1).last() == all[i as int]);
        }
        i = i + 1;
    }
    assert(all.take(properties@.len() as int) =~= all);
    sorted
}

/// The JSON object that holds the given properties, in the order of their
/// names.
pub uninterp spec fn properties_json(properties: Map<Seq<char>, Seq<char>>) -> Seq<char>;

/// Calls `serde_json::to_string` on ordered properties, as a map that is
/// walked in that order. Trusted: the text is determined by the properties
/// alone.
#[verifier::external_body]
fn write_properties(properties: Vec<(String, String)>) -> (r: String)
    requires
        in_order(property_views(properties@)),
    ensures
        r@ == properties_json(keyed_properties(property_views(properties@))),
{
    let map: std::collections::BTreeMap<String, String> = properties.into_iter().collect();
    serde_json::to_string(&map).unwrap_or_default()
}

/// Writes business events in the form that Azure Monitor shows them.
#[derive(Clone, Copy, Debug)]
pub struct AzureMonitorTelemetrySink {}

impl Default for AzureMonitorTelemetrySink {
    fn default() -> (r: Self)
        ensures
            r == (AzureMonitorTelemetrySink {  }),
    {
        AzureMonitorTelemetrySink {  }
    }
}

impl AzureMonitorTelemetrySink {
    /// The properties field of an event.
    pub fn properties_field(&self, properties: Vec<(String, String)>) -> (r: String)
        ensures
            r@ == properties_json(keyed_properties(property_views(properties@))),
    {
        write_properties(order_properties(&properties))
    }
}

/// A property is kept by its name; a later one of the same name takes its
/// place, and no other name is touched.
pub proof fn law_last_property_of_a_name_counts(
    properties: Seq<(Seq<char>, Seq<char>)>,
    name: Seq<char>,
    value: Seq<char>,
    other: Seq<char>,
)
    ensures
        ({
            let before = keyed_properties(properties);
            let after = keyed_properties(properties.push((name, value)));
            &&& after.contains_key(name) && after[name] == value
            &&& other != name ==> after.contains_key(other) == before.contains_key(other)
            &&& other != name && before.contains_key(other) ==> after[other] == before[other]
        }),
        !keyed_properties(Seq::empty()).contains_key(name),
{
    assert(properties.push((name, value)).drop_last() =~= properties);
}

} // verus!
