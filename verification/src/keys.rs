//! The attribute names of a schema over all records, and the manufacturers
//! of the catalog: sorted lists without repetition.

use crate::item::{item_section, items_view, Schema, ToolItem, ToolItemView};
use crate::record::{attributes_view, section_pairs, section_view, ScalarView, Section};
use crate::text::{insert_sorted, lemma_sorted_of, lemma_sorted_of_finite, sorted_of};
use crate::text::{strictly_sorted, texts};
use vstd::prelude::*;

verus! {

broadcast use vstd::seq_lib::group_to_multiset_ensures;

/// The names that occur in a list of pairs.
pub open spec fn pair_keys(pairs: Seq<(Seq<char>, ScalarView)>) -> Set<Seq<char>> {
    Set::new(|k: Seq<char>| exists|j: int| 0 <= j < pairs.len() && (#[trigger] pairs[j]).0 == k)
}

/// The attribute names of one schema that occur in any of the items: the
/// union over the items whose section for the schema is a mapping.
pub open spec fn key_set(items: Seq<ToolItemView>, schema: Schema) -> Set<Seq<char>> {
    Set::new(
        |k: Seq<char>|
            exists|i: int|
                0 <= i < items.len() && pair_keys(
                    section_pairs(item_section(#[trigger] items[i], schema)),
                ).contains(k),
    )
}

/// The attribute names of one schema in ascending order.
pub open spec fn sorted_keys(items: Seq<ToolItemView>, schema: Schema) -> Seq<Seq<char>> {
    sorted_of(key_set(items, schema))
}

/// The texts of a list that are not empty.
pub open spec fn nonempty_members(values: Seq<Seq<char>>) -> Set<Seq<char>> {
    Set::new(|t: Seq<char>| t.len() > 0 && values.contains(t))
}

/// The names of a schema do not depend on the order of the records: two lists
/// that hold the same records, each as often as the other, have the same
/// sorted names.
pub proof fn lemma_keys_order_independent(
    a: Seq<ToolItemView>,
    b: Seq<ToolItemView>,
    schema: Schema,
)
    requires
        a.to_multiset() == b.to_multiset(),
    ensures
        key_set(a, schema) == key_set(b, schema),
        sorted_keys(a, schema) == sorted_keys(b, schema),
{
    assert forall|k: Seq<char>| key_set(a, schema).contains(k) <==> key_set(b, schema).contains(
        k,
    ) by {
        if key_set(a, schema).contains(k) {
            let i = choose|i: int|
                0 <= i < a.len() && pair_keys(
                    section_pairs(item_section(#[trigger] a[i], schema)),
                ).contains(k);
            assert(a.contains(a[i]));
            assert(b.to_multiset().count(a[i]) > 0);
            assert(b.contains(a[i]));
        }
        if key_set(b, schema).contains(k) {
            let i = choose|i: int|
                0 <= i < b.len() && pair_keys(
                    section_pairs(item_section(#[trigger] b[i], schema)),
                ).contains(k);
            assert(b.contains(b[i]));
            assert(a.to_multiset().count(b[i]) > 0);
            assert(a.contains(b[i]));
        }
    }
    assert(key_set(a, schema) =~= key_set(b, schema));
}

/// The names of a schema are those of the records seen so far together with
/// those of the next record.
proof fn lemma_key_set_step(items: Seq<ToolItemView>, schema: Schema, i: int)
    requires
        0 <= i < items.len(),
    ensures
        key_set(items.take(i + 1), schema) == key_set(items.take(i), schema).union(
            pair_keys(section_pairs(item_section(items[i], schema))),
        ),
{
    let more = items.take(i + 1);
    let fewer = items.take(i);
    let step = pair_keys(section_pairs(item_section(items[i], schema)));
    assert forall|k: Seq<char>| key_set(more, schema).contains(k) <==> key_set(
        fewer,
        schema,
    ).union(step).contains(k) by {
        if key_set(more, schema).contains(k) {
            let x = choose|x: int|
                0 <= x < more.len() && pair_keys(
                    section_pairs(item_section(#[trigger] more[x], schema)),
                ).contains(k);
            if x < i {
                assert(fewer[x] == more[x]);
            }
        }
        if key_set(fewer, schema).contains(k) {
            let x = choose|x: int|
                0 <= x < fewer.len() && pair_keys(
                    section_pairs(item_section(#[trigger] fewer[x], schema)),
                ).contains(k);
            assert(more[x] == fewer[x]);
        }
        if step.contains(k) {
            assert(more[i] == items[i]);
        }
    }
    assert(key_set(more, schema) =~= key_set(fewer, schema).union(step));
}

/// The names that occur in a list of pairs are finitely many.
proof fn lemma_pair_keys_finite(pairs: Seq<(Seq<char>, ScalarView)>)
    ensures
        pair_keys(pairs).finite(),
{
    let names = pairs.map_values(|p: (Seq<char>, ScalarView)| p.0);
    assert forall|k: Seq<char>| pair_keys(pairs).contains(k) <==> names.to_set().contains(k) by {
        if pair_keys(pairs).contains(k) {
            let j = choose|j: int| 0 <= j < pairs.len() && (#[trigger] pairs[j]).0 == k;
            assert(names[j] == k);
        }
        if names.to_set().contains(k) {
            let j = choose|j: int| 0 <= j < names.len() && names[j] == k;
            assert(pairs[j].0 == k);
        }
    }
    assert(pair_keys(pairs) =~= names.to_set());
    vstd::seq_lib::seq_to_set_is_finite(names);
}

/// The attribute names of a schema over a list of records are finitely many.
pub proof fn lemma_key_set_finite(items: Seq<ToolItemView>, schema: Schema)
    ensures
        key_set(items, schema).finite(),
    decreases items.len(),
{
    if items.len() == 0 {
        assert(key_set(items, schema) =~= Set::empty());
    } else {
        let n = items.len() - 1;
        let front = items.take(n);
        lemma_key_set_finite(front, schema);
        lemma_key_set_step(items, schema, n);
        lemma_pair_keys_finite(section_pairs(item_section(items[n], schema)));
        assert(items.take(n + 1) =~= items);
    }
}

/// The sorted attribute names of a schema are in ascending order, and they
/// are exactly the names that occur in the sections of the records.
pub proof fn lemma_sorted_keys(items: Seq<ToolItemView>, schema: Schema)
    ensures
        strictly_sorted(sorted_keys(items, schema)),
        sorted_keys(items, schema).to_set() == key_set(items, schema),
{
    lemma_key_set_finite(items, schema);
    lemma_sorted_of_finite(key_set(items, schema));
}

/// The sorted list of the texts of a list that are not empty is in ascending
/// order and holds exactly those texts.
pub proof fn lemma_sorted_members(values: Seq<Seq<char>>)
    ensures
        strictly_sorted(sorted_of(nonempty_members(values))),
        sorted_of(nonempty_members(values)).to_set() == nonempty_members(values),
{
    vstd::seq_lib::seq_to_set_is_finite(values);
    assert(nonempty_members(values).subset_of(values.to_set()));
    vstd::set_lib::lemma_set_subset_finite(values.to_set(), nonempty_members(values));
    lemma_sorted_of_finite(nonempty_members(values));
}

/// Adds the attribute names of a section to an ascending list.
pub fn add_section_keys(keys: &mut Vec<String>, section: &Option<Section>)
    requires
        strictly_sorted(texts(old(keys)@)),
    ensures
        strictly_sorted(texts(final(keys)@)),
        texts(final(keys)@).to_set() == texts(old(keys)@).to_set().union(
            pair_keys(section_pairs(section_view(*section))),
        ),
{
    match section {
        Some(Section::Mapping(attributes)) => {
            let ghost pairs = attributes_view(attributes@);
            let ghost start = texts(keys@).to_set();
            let mut j: usize = 0;
            assert(start.union(pair_keys(pairs.take(0))) =~= start);
            while j < attributes.len()
                invariant
                    j <= attributes.len(),
                    pairs == attributes_view(attributes@),
                    strictly_sorted(texts(keys@)),
                    texts(keys@).to_set() == start.union(pair_keys(pairs.take(j as int))),
                decreases attributes.len() - j,
            {
                let key: String = attributes[j].key.clone();
                insert_sorted(keys, key);
                proof {
                    let shorter = pairs.take(j as int);
                    let longer = pairs.take(j + 1);
                    assert forall|k: Seq<char>| pair_keys(longer).contains(k) <==> pair_keys(
                        shorter,
                    ).insert(key@).contains(k) by {
                        if pair_keys(longer).contains(k) {
                            let x = choose|x: int|
                                0 <= x < longer.len() && (#[trigger] longer[x]).0 == k;
                            if x < j {
                                assert(shorter[x].0 == k);
                            }
                        }
                        if pair_keys(shorter).contains(k) {
                            let x = choose|x: int|
                                0 <= x < shorter.len() && (#[trigger] shorter[x]).0 == k;
                            assert(longer[x].0 == k);
                        }
                        if k == key@ {
                            assert(longer[j as int].0 == k);
                        }
                    }
                    assert(pair_keys(longer) =~= pair_keys(shorter).insert(key@));
                    assert(start.union(pair_keys(shorter)).insert(key@) =~= start.union(
                        pair_keys(longer),
                    ));
                }
                j += 1;
            }
            assert(pairs.take(j as int) =~= pairs);
        },
        _ => {
            assert(pair_keys(section_pairs(section_view(*section))) =~= Set::empty());
            assert(texts(keys@).to_set().union(Set::empty()) =~= texts(keys@).to_set());
        },
    }
}

/// The attribute names of one schema over all items: every name that occurs
/// in the section of some item, where that section is a mapping, once each and
/// in ascending order by code points.
pub fn collect_keys(items: &Vec<ToolItem>, schema: Schema) -> (keys: Vec<String>)
    ensures
        strictly_sorted(texts(keys@)),
        texts(keys@).to_set() == key_set(items_view(items@), schema),
        texts(keys@) == sorted_keys(items_view(items@), schema),
{
    let mut keys: Vec<String> = Vec::new();
    let ghost views = items_view(items@);
    let mut i: usize = 0;
    assert(texts(keys@).to_set() =~= key_set(views.take(0), schema));
    while i < items.len()
        invariant
            i <= items.len(),
            views == items_view(items@),
            strictly_sorted(texts(keys@)),
            texts(keys@).to_set() == key_set(views.take(i as int), schema),
        decreases items.len() - i,
    {
        add_section_keys(&mut keys, items[i].section(schema));
        proof {
            lemma_key_set_step(views, schema, i as int);
        }
        i += 1;
    }
    proof {
        assert(views.take(i as int) =~= views);
        lemma_sorted_of(texts(keys@));
    }
    keys
}

/// The texts of a list that are not empty, once each and in ascending order
/// by code points.
pub fn unique(values: &Vec<String>) -> (r: Vec<String>)
    ensures
        strictly_sorted(texts(r@)),
        texts(r@).to_set() == nonempty_members(texts(values@)),
        texts(r@) == sorted_of(nonempty_members(texts(values@))),
{
    let mut r: Vec<String> = Vec::new();
    let ghost all = texts(values@);
    let mut i: usize = 0;
    assert(texts(r@).to_set() =~= nonempty_members(all.take(0)));
    while i < values.len()
        invariant
            i <= values.len(),
            all == texts(values@),
            strictly_sorted(texts(r@)),
            texts(r@).to_set() == nonempty_members(all.take(i as int)),
        decreases values.len() - i,
    {
        let ghost shorter = all.take(i as int);
        let ghost longer = all.take(i + 1);
        let ghost t = all[i as int];
        proof {
            assert(longer =~= shorter.push(t));
            assert forall|x: Seq<char>| longer.contains(x) <==> (shorter.contains(x) || x == t) by {
                if longer.contains(x) {
                    let k = choose|k: int| 0 <= k < longer.len() && longer[k] == x;
                    if k < i {
                        assert(shorter[k] == x);
                    }
                }
                if shorter.contains(x) {
                    let k = choose|k: int| 0 <= k < shorter.len() && shorter[k] == x;
                    assert(longer[k] == x);
                }
                if x == t {
                    assert(longer[i as int] == x);
                }
            }
        }
        if !values[i].as_str().is_empty() {
            insert_sorted(&mut r, values[i].clone());
            assert(nonempty_members(longer) =~= nonempty_members(shorter).insert(t));
        } else {
            assert(nonempty_members(longer) =~= nonempty_members(shorter));
        }
        i += 1;
    }
    proof {
        assert(all.take(i as int) =~= all);
        lemma_sorted_of(texts(r@));
    }
    r
}

} // verus!
