//! Associative maps and sets. They are walked in the order that the container
//! gives, which it does not promise, so their renderings are stated over the
//! sequence of entries that one walk visits.
use vstd::prelude::*;
use crate::inspect::{item_id, Inspect};
use crate::text::{decimal, push_decimal};
use crate::ui::{Drawn, Response, Ui};
use std::collections::{HashMap, HashSet};
use vstd::std_specs::hash::{builds_valid_hashers, obeys_key_model, spec_hash_map_len, spec_hash_set_len};

verus! {

/// Whether hashing and equality of `K`, with hashers built by `S`, behave as
/// the mathematical model of a hash table expects.
pub open spec fn sound_keys<K, S>() -> bool {
    obeys_key_model::<K>() && builds_valid_hashers::<S>()
}

/// Relies on `HashMap::iter`: it visits each of the map's `len()` entries
/// once, in an order that the map does not promise.
#[verifier::external_body]
fn map_entries<'a, K, V, S>(m: &'a HashMap<K, V, S>) -> (r: Vec<(&'a K, &'a V)>)
    ensures
        r@.len() == spec_hash_map_len(m),
        (sound_keys::<K, S>() ==> forall|i: int|
            0 <= i < r@.len() ==> #[trigger] m@.contains_key(*r@[i].0) && m@[*r@[i].0] == *r@[i].1),
        (sound_keys::<K, S>() ==> forall|i: int, j: int|
            0 <= i < j < r@.len() ==> *(#[trigger] r@[i]).0 != *(#[trigger] r@[j]).0),
{
    m.iter().collect()
}

/// Relies on `HashSet::iter`: it visits each of the set's `len()` elements
/// once, in an order that the set does not promise.
#[verifier::external_body]
fn set_elements<'a, T, S>(s: &'a HashSet<T, S>) -> (r: Vec<&'a T>)
    ensures
        r@.len() == spec_hash_set_len(s),
        (sound_keys::<T, S>() ==> forall|i: int| 0 <= i < r@.len() ==> #[trigger] s@.contains(*r@[i])),
        (sound_keys::<T, S>() ==> forall|i: int, j: int|
            0 <= i < j < r@.len() ==> *(#[trigger] r@[i]) != *(#[trigger] r@[j])),
{
    s.iter().collect()
}

/// The title of the section of a map with `n` entries.
pub open spec fn map_title(n: nat) -> Seq<char> {
    "HashMap ["@ + decimal(n as int) + "]"@
}

/// The title of the section of a set with `n` elements.
pub open spec fn set_title(n: nat) -> Seq<char> {
    "HashSet ["@ + decimal(n as int) + "]"@
}

/// The start of an entry's row: the key's debug text, which copies itself
/// when clicked.
pub open spec fn entry_head<K: Inspect>(k: K::Model) -> Seq<Drawn> {
    seq![Drawn::RowBegin, Drawn::CopyLabel { text: K::debug_of(k), hover: None, copy: K::debug_of(k) }]
}

/// The rows of the first `n` entries of a walk: the key's debug text, which
/// copies itself when clicked, then the value with the entry's position as its
/// identity.
pub open spec fn entry_rows<K: Inspect, V: Inspect>(es: Seq<(K::Model, V::Model)>, n: nat) -> Seq<Drawn>
    decreases n,
{
    if n == 0 {
        Seq::empty()
    } else {
        let i = n - 1;
        entry_rows::<K, V>(es, i as nat) + entry_head::<K>(es[i].0) + V::shown(es[i].1, item_id(i))
            + seq![Drawn::RowEnd]
    }
}

/// The rows of the first `n` elements of a walk, each rendered with its
/// position as its identity.
pub open spec fn element_rows<T: Inspect>(es: Seq<T::Model>, n: nat) -> Seq<Drawn>
    decreases n,
{
    if n == 0 {
        Seq::empty()
    } else {
        let i = n - 1;
        element_rows::<T>(es, i as nat) + T::shown(es[i], item_id(i))
    }
}

/// What a map renders, for the walk that visits the entries `es`.
pub open spec fn map_shown<K: Inspect, V: Inspect>(es: Seq<(K::Model, V::Model)>, id: u64) -> Seq<Drawn> {
    seq![Drawn::SectionBegin { title: map_title(es.len()), id }] + entry_rows::<K, V>(es, es.len())
        + seq![Drawn::SectionEnd]
}

/// What a set renders, for the walk that visits the elements `es`.
pub open spec fn set_shown<T: Inspect>(es: Seq<T::Model>, id: u64) -> Seq<Drawn> {
    seq![Drawn::SectionBegin { title: set_title(es.len()), id }] + element_rows::<T>(es, es.len())
        + seq![Drawn::SectionEnd]
}

/// Renders the entries of a map in the order given, in a section with
/// identity `id` titled with their number.
pub fn inspect_entries<K: Inspect, V: Inspect>(ui: &mut Ui, entries: &Vec<(&K, &V)>, id: u64)
    ensures
        final(ui).drawn() == old(ui).drawn() + map_shown::<K, V>(
            entries@.map_values(|e: (&K, &V)| (e.0.model(), e.1.model())),
            id,
        ),
        final(ui).responses() == old(ui).responses(),
{
    let ghost es = entries@.map_values(|e: (&K, &V)| (e.0.model(), e.1.model()));
    let n = entries.len();
    let mut title = String::from_str("HashMap [");
    push_decimal(&mut title, n as i128);
    title.append("]");
    ui.section_begin(title, id);
    let ghost d0 = ui.drawn();
    let mut i: usize = 0;
    while i < n
        invariant
            n == entries@.len(),
            es == entries@.map_values(|e: (&K, &V)| (e.0.model(), e.1.model())),
            i <= n,
            ui.drawn() == d0 + entry_rows::<K, V>(es, i as nat),
            ui.responses() == old(ui).responses(),
        decreases n - i,
    {
        let (k, v) = entries[i];
        assert(es[i as int] == (k.model(), v.model()));
        ui.row_begin();
        let key = k.debug_text();
        let copy = key.clone();
        ui.copy_label(key, String::new(), copy);
        v.inspect(ui, i as u64);
        ui.row_end();
        i = i + 1;
        proof {
            assert(ui.drawn() =~= d0 + entry_rows::<K, V>(es, i as nat));
        }
    }
    ui.section_end();
    proof {
        assert(final(ui).drawn() =~= old(ui).drawn() + map_shown::<K, V>(es, id));
    }
}

/// Renders the elements of a set in the order given, in a section with
/// identity `id` titled with their number.
pub fn inspect_elements<T: Inspect>(ui: &mut Ui, elements: &Vec<&T>, id: u64)
    ensures
        final(ui).drawn() == old(ui).drawn() + set_shown::<T>(
            elements@.map_values(|e: &T| e.model()),
            id,
        ),
        final(ui).responses() == old(ui).responses(),
{
    let ghost es = elements@.map_values(|e: &T| e.model());
    let n = elements.len();
    let mut title = String::from_str("HashSet [");
    push_decimal(&mut title, n as i128);
    title.append("]");
    ui.section_begin(title, id);
    let ghost d0 = ui.drawn();
    let mut i: usize = 0;
    while i < n
        invariant
            n == elements@.len(),
            es == elements@.map_values(|e: &T| e.model()),
            i <= n,
            ui.drawn() == d0 + element_rows::<T>(es, i as nat),
            ui.responses() == old(ui).responses(),
        decreases n - i,
    {
        let e = elements[i];
        assert(es[i as int] == e.model());
        e.inspect(ui, i as u64);
        i = i + 1;
        proof {
            assert(ui.drawn() =~= d0 + element_rows::<T>(es, i as nat));
        }
    }
    ui.section_end();
    proof {
        assert(final(ui).drawn() =~= old(ui).drawn() + set_shown::<T>(es, id));
    }
}

/// Renders a map read-only: a section with identity `id` titled with the
/// map's number of entries, and one row per entry in the order of one walk.
pub fn inspect_map<K: Inspect, V: Inspect, S>(ui: &mut Ui, m: &HashMap<K, V, S>, id: u64)
    ensures
        exists|es: Seq<(K, V)>|
            {
                &&& es.len() == spec_hash_map_len(m)
                &&& sound_keys::<K, S>() ==> forall|i: int|
                    0 <= i < es.len() ==> #[trigger] m@.contains_key(es[i].0) && m@[es[i].0] == es[i].1
                &&& sound_keys::<K, S>() ==> forall|i: int, j: int|
                    0 <= i < j < es.len() ==> (#[trigger] es[i]).0 != (#[trigger] es[j]).0
                &&& #[trigger] final(ui).drawn() == old(ui).drawn() + map_shown::<K, V>(
                    es.map_values(|e: (K, V)| (e.0.model(), e.1.model())),
                    id,
                )
            },
        final(ui).drawn()[old(ui).drawn().len() as int] == (Drawn::SectionBegin {
            title: map_title(spec_hash_map_len(m) as nat),
            id,
        }),
        final(ui).responses() == old(ui).responses(),
{
    let entries = map_entries(m);
    inspect_entries(ui, &entries, id);
    proof {
        let ms = entries@.map_values(|e: (&K, &V)| (e.0.model(), e.1.model()));
        assert(final(ui).drawn()[old(ui).drawn().len() as int] == map_shown::<K, V>(ms, id)[0]);
        let es = entries@.map_values(|e: (&K, &V)| (*e.0, *e.1));
        assert(es.map_values(|e: (K, V)| (e.0.model(), e.1.model())) =~= ms);
        assert(sound_keys::<K, S>() ==> forall|i: int|
            0 <= i < es.len() ==> #[trigger] m@.contains_key(es[i].0) && m@[es[i].0] == es[i].1) by {
            if sound_keys::<K, S>() {
                assert forall|i: int| 0 <= i < es.len() implies #[trigger] m@.contains_key(es[i].0) && m@[es[i].0] == es[i].1 by {
                    assert(es[i] == (*entries@[i].0, *entries@[i].1));
                }
            }
        }
        assert(sound_keys::<K, S>() ==> forall|i: int, j: int|
            0 <= i < j < es.len() ==> (#[trigger] es[i]).0 != (#[trigger] es[j]).0) by {
            if sound_keys::<K, S>() {
                assert forall|i: int, j: int| 0 <= i < j < es.len() implies (#[trigger] es[i]).0 != (#[trigger] es[j]).0 by {
                    assert(es[i] == (*entries@[i].0, *entries@[i].1));
                    assert(es[j] == (*entries@[j].0, *entries@[j].1));
                }
            }
        }
    }
}

/// Renders a set read-only: a section with identity `id` titled with the
/// set's number of elements, and its elements in the order of one walk.
pub fn inspect_set<T: Inspect, S>(ui: &mut Ui, s: &HashSet<T, S>, id: u64)
    ensures
        exists|es: Seq<T>|
            {
                &&& es.len() == spec_hash_set_len(s)
                &&& sound_keys::<T, S>() ==> forall|i: int| 0 <= i < es.len() ==> #[trigger] s@.contains(es[i])
                &&& sound_keys::<T, S>() ==> forall|i: int, j: int|
                    0 <= i < j < es.len() ==> #[trigger] es[i] != #[trigger] es[j]
                &&& #[trigger] final(ui).drawn() == old(ui).drawn() + set_shown::<T>(
                    es.map_values(|e: T| e.model()),
                    id,
                )
            },
        final(ui).drawn()[old(ui).drawn().len() as int] == (Drawn::SectionBegin {
            title: set_title(spec_hash_set_len(s) as nat),
            id,
        }),
        final(ui).responses() == old(ui).responses(),
{
    let elements = set_elements(s);
    inspect_elements(ui, &elements, id);
    proof {
        let ms = elements@.map_values(|e: &T| e.model());
        assert(final(ui).drawn()[old(ui).drawn().len() as int] == set_shown::<T>(ms, id)[0]);
        let es = elements@.map_values(|e: &T| *e);
        assert(es.map_values(|e: T| e.model()) =~= ms);
        assert(sound_keys::<T, S>() ==> forall|i: int| 0 <= i < es.len() ==> #[trigger] s@.contains(es[i])) by {
            if sound_keys::<T, S>() {
                assert forall|i: int| 0 <= i < es.len() implies #[trigger] s@.contains(es[i]) by {
                    assert(es[i] == *elements@[i]);
                }
            }
        }
        assert(sound_keys::<T, S>() ==> forall|i: int, j: int|
            0 <= i < j < es.len() ==> #[trigger] es[i] != #[trigger] es[j]) by {
            if sound_keys::<T, S>() {
                assert forall|i: int, j: int| 0 <= i < j < es.len() implies #[trigger] es[i] != #[trigger] es[j] by {
                    assert(es[i] == *elements@[i]);
                    assert(es[j] == *elements@[j]);
                }
            }
        }
    }
}


/// Relies on `HashMap::iter_mut`: it visits each of the map's `len()` entries
/// once, in an order that the map does not promise, and writing through a
/// value edits that entry.
#[verifier::external_body]
fn map_entries_mut<'a, K, V, S>(m: &'a mut HashMap<K, V, S>) -> (r: Vec<(&'a K, &'a mut V)>)
    ensures
        r@.len() == spec_hash_map_len(old(m)),
        (sound_keys::<K, S>() ==> forall|i: int|
            0 <= i < r@.len() ==> #[trigger] old(m)@.contains_key(*r@[i].0) && old(m)@[*r@[i].0]
                == *r@[i].1),
        (sound_keys::<K, S>() ==> forall|i: int, j: int|
            0 <= i < j < r@.len() ==> *(#[trigger] r@[i]).0 != *(#[trigger] r@[j]).0),
        (sound_keys::<K, S>() ==> final(m)@.dom() == old(m)@.dom()),
        (sound_keys::<K, S>() ==> forall|i: int|
            0 <= i < r@.len() ==> #[trigger] final(m)@[*r@[i].0] == *final(r@[i].1)),
{
    m.iter_mut().collect()
}

/// The values of the first `n` entries of a walk after editing, and their
/// rows, with the first row starting at position `start`.
pub open spec fn entries_edited<K: Inspect, V: Inspect>(
    es: Seq<(K::Model, V::Model)>,
    rs: Seq<Response>,
    start: int,
    n: nat,
) -> (Seq<V::Model>, Seq<Drawn>)
    decreases n,
{
    if n == 0 {
        (Seq::empty(), Seq::empty())
    } else {
        let i = n - 1;
        let (pv, pd) = entries_edited::<K, V>(es, rs, start, i as nat);
        let (v, d) = V::edited(es[i].1, rs, start + pd.len() + 2, item_id(i));
        (pv.push(v), pd + entry_head::<K>(es[i].0) + d + seq![Drawn::RowEnd])
    }
}

/// The values after editing a map, for the walk that visits the entries `es`,
/// and what the editing draws, with its first widget at position `at`.
pub open spec fn map_edited<K: Inspect, V: Inspect>(
    es: Seq<(K::Model, V::Model)>,
    rs: Seq<Response>,
    at: int,
    id: u64,
) -> (Seq<V::Model>, Seq<Drawn>) {
    let (vs, body) = entries_edited::<K, V>(es, rs, at + 1, es.len());
    (vs, seq![Drawn::SectionBegin { title: map_title(es.len()), id }] + body + seq![Drawn::SectionEnd])
}

/// The edited values of a walk's first `n` entries number `n`.
pub proof fn lemma_entries_edited_len<K: Inspect, V: Inspect>(
    es: Seq<(K::Model, V::Model)>,
    rs: Seq<Response>,
    start: int,
    n: nat,
)
    ensures
        entries_edited::<K, V>(es, rs, start, n).0.len() == n,
    decreases n,
{
    if n > 0 {
        lemma_entries_edited_len::<K, V>(es, rs, start, (n - 1) as nat);
    }
}

/// Renders a map for editing: a section with identity `id` titled with the
/// map's number of entries, then one row per entry in the order of one walk,
/// the key's debug text and the value edited with the entry's position as its
/// identity. The keys stay; each value becomes what its editing made of it.
pub fn inspect_map_mut<K: Inspect, V: Inspect, S>(ui: &mut Ui, m: &mut HashMap<K, V, S>, id: u64)
    ensures
        exists|es: Seq<(K, V)>|
            #![trigger es.len()]
            {
                let ms = es.map_values(|e: (K, V)| (e.0.model(), e.1.model()));
                let e = map_edited::<K, V>(ms, old(ui).responses(), old(ui).pos(), id);
                &&& es.len() == spec_hash_map_len(old(m))
                &&& sound_keys::<K, S>() ==> forall|i: int|
                    0 <= i < es.len() ==> #[trigger] old(m)@.contains_key(es[i].0) && old(m)@[es[i].0]
                        == es[i].1
                &&& sound_keys::<K, S>() ==> forall|i: int, j: int|
                    0 <= i < j < es.len() ==> (#[trigger] es[i]).0 != (#[trigger] es[j]).0
                &&& sound_keys::<K, S>() ==> final(m)@.dom() == old(m)@.dom()
                &&& sound_keys::<K, S>() ==> forall|i: int|
                    0 <= i < es.len() ==> (#[trigger] final(m)@[es[i].0]).model() == e.0[i]
                &&& final(ui).drawn() == old(ui).drawn() + e.1
            },
        final(ui).drawn()[old(ui).drawn().len() as int] == (Drawn::SectionBegin {
            title: map_title(spec_hash_map_len(old(m)) as nat),
            id,
        }),
        final(ui).responses() == old(ui).responses(),
{
    let ghost rs = old(ui).responses();
    let mut entries = map_entries_mut(m);
    let ghost orig = entries@;
    let ghost es = orig.map_values(|e: (&K, &mut V)| (*e.0, *e.1));
    let ghost ms = es.map_values(|e: (K, V)| (e.0.model(), e.1.model()));
    let n = entries.len();
    let mut title = String::from_str("HashMap [");
    push_decimal(&mut title, n as i128);
    title.append("]");
    ui.section_begin(title, id);
    let ghost d0 = ui.drawn();
    let ghost start = ui.pos();
    let mut i: usize = 0;
    while i < n
        invariant
            n == entries@.len(),
            orig.len() == n,
            es == orig.map_values(|e: (&K, &mut V)| (*e.0, *e.1)),
            ms == es.map_values(|e: (K, V)| (e.0.model(), e.1.model())),
            i <= n,
            forall|j: int| i <= j < n ==> #[trigger] entries@[j] == orig[j],
            forall|j: int|
                0 <= j < n ==> *(#[trigger] entries@[j]).0 == *orig[j].0 && *final(entries@[j].1)
                    == *final(orig[j].1),
            forall|j: int|
                0 <= j < i ==> (*(#[trigger] entries@[j]).1).model() == entries_edited::<K, V>(
                    ms,
                    rs,
                    start,
                    i as nat,
                ).0[j],
            ui.drawn() == d0 + entries_edited::<K, V>(ms, rs, start, i as nat).1,
            ui.responses() == rs,
            start == d0.len(),
        decreases n - i,
    {
        proof {
            lemma_entries_edited_len::<K, V>(ms, rs, start, i as nat);
        }
        ui.row_begin();
        let key = entries[i].0.debug_text();
        let copy = key.clone();
        ui.copy_label(key, String::new(), copy);
        let ghost before = entries@;
        entries[i].1.inspect_mut(ui, i as u64);
        ui.row_end();
        i = i + 1;
        proof {
            assert(ui.drawn() =~= d0 + entries_edited::<K, V>(ms, rs, start, i as nat).1);
            assert forall|j: int| 0 <= j < i implies (*(#[trigger] entries@[j]).1).model()
                == entries_edited::<K, V>(ms, rs, start, i as nat).0[j] by {
                if j < i - 1 {
                    assert(entries@[j] == before[j]);
                }
            }
        }
    }
    ui.section_end();
    proof {
        let e = map_edited::<K, V>(ms, rs, old(ui).pos(), id);
        assert(final(ui).drawn() =~= old(ui).drawn() + e.1);
        assert(es.len() == spec_hash_map_len(old(m)));
        assert(sound_keys::<K, S>() ==> forall|i: int|
            0 <= i < es.len() ==> #[trigger] old(m)@.contains_key(es[i].0) && old(m)@[es[i].0] == es[i].1) by {
            if sound_keys::<K, S>() {
                assert forall|i: int| 0 <= i < es.len() implies #[trigger] old(m)@.contains_key(es[i].0) && old(m)@[es[i].0] == es[i].1 by {
                    assert(es[i] == (*orig[i].0, *orig[i].1));
                }
            }
        }
        assert(sound_keys::<K, S>() ==> forall|i: int, j: int|
            0 <= i < j < es.len() ==> (#[trigger] es[i]).0 != (#[trigger] es[j]).0) by {
            if sound_keys::<K, S>() {
                assert forall|i: int, j: int| 0 <= i < j < es.len() implies (#[trigger] es[i]).0 != (#[trigger] es[j]).0 by {
                    assert(es[i] == (*orig[i].0, *orig[i].1));
                    assert(es[j] == (*orig[j].0, *orig[j].1));
                }
            }
        }
        assert(sound_keys::<K, S>() ==> forall|i: int|
            0 <= i < es.len() ==> (#[trigger] final(m)@[es[i].0]).model() == e.0[i]) by {
            if sound_keys::<K, S>() {
                assert forall|i: int| 0 <= i < es.len() implies (#[trigger] final(m)@[es[i].0]).model() == e.0[i] by {
                    assert(es[i].0 == *orig[i].0);
                    assert(final(m)@[*orig[i].0] == *final(orig[i].1));
                    assert(*final(entries@[i].1) == *entries@[i].1);
                }
            }
        }
    }
}
} // verus!
