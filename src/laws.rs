//! Laws of rendering that relate several calls or hold of every input.
use vstd::prelude::*;
use crate::collections::{
    element_rows, entries_edited, entry_rows, lemma_entries_edited_len, map_edited, map_shown,
    map_title, set_shown, set_title,
};
use crate::derive::{
    derived_ok, plan_matches, variant_shown, DeriveError, Derived, ShapeData, TypeShape,
};
use crate::inspect::{
    after_buttons, can_append, item_id, items_edited, items_shown, lemma_items_edited_len, vec_head,
    vec_title, Inspect,
};
use crate::ui::{clicked_at, pick_after, response_at, Drawn, Response};
use std::marker::PhantomData;

verus! {

/// Clearing a sequence: when the clear button of a sequence is clicked, the
/// sequence is empty when the rendering ends, whatever it held and whether or
/// not the append button was clicked too.
pub proof fn lemma_clear_empties<T: Inspect>(m: Seq<T::Model>, rs: Seq<Response>, at: int, id: u64)
    requires
        clicked_at(rs, if can_append::<T>() { at + 1 } else { at }),
    ensures
        Vec::<T>::edited(m, rs, at, id).0.len() == 0,
        Vec::<T>::edited(m, rs, at, id).1.contains(
            Drawn::SectionBegin { title: crate::inspect::vec_title(0), id },
        ),
{
    let m2 = after_buttons::<T>(m, rs, at);
    assert(m2.len() == 0);
    let head = crate::inspect::vec_head::<T>(0, id);
    let (m3, body) = items_edited::<T>(m2, rs, at + head.len(), 0);
    let d = Vec::<T>::edited(m, rs, at, id).1;
    assert(d == head + body + seq![Drawn::SectionEnd]);
    assert(d[head.len() - 1] == Drawn::SectionBegin { title: crate::inspect::vec_title(0), id });
}

/// Whether `part` stands in `d` from position `p` on.
pub open spec fn renders_at(d: Seq<Drawn>, p: int, part: Seq<Drawn>) -> bool {
    &&& 0 <= p
    &&& p + part.len() <= d.len()
    &&& d.subrange(p, p + part.len()) == part
}

/// Where the rendering of element `i` starts in the read-only rendering of a
/// sequence: after the section header, the rows before it, and its own index label.
pub open spec fn shown_child_at<T: Inspect>(ms: Seq<T::Model>, i: int) -> int {
    1 + items_shown::<T>(ms, i as nat).len() as int + 2
}

/// The read-only rendering of a sequence `ms` with identity `id` opens a
/// section keyed by `id`, renders each element `i` in place with identity `i`,
/// one after the other, and gives two siblings distinct identities.
pub open spec fn vec_siblings_shown<T: Inspect>(ms: Seq<T::Model>, id: u64) -> bool {
    let d = Vec::<T>::shown(ms, id);
    &&& d[0] == (Drawn::SectionBegin { title: vec_title(ms.len()), id })
    &&& forall|i: int|
        0 <= i < ms.len() ==> renders_at(
            d,
            #[trigger] shown_child_at::<T>(ms, i),
            T::shown(ms[i], item_id(i)),
        )
    &&& forall|i: int, j: int|
        0 <= i < j < ms.len() ==> #[trigger] shown_child_at::<T>(ms, i) + T::shown(
            ms[i],
            item_id(i),
        ).len() < #[trigger] shown_child_at::<T>(ms, j) && item_id(i) != item_id(j)
}

proof fn lemma_items_shown_prefix<T: Inspect>(ms: Seq<T::Model>, m: nat, n: nat)
    requires
        m <= n,
    ensures
        items_shown::<T>(ms, m).len() <= items_shown::<T>(ms, n).len(),
        items_shown::<T>(ms, n).subrange(0, items_shown::<T>(ms, m).len() as int)
            == items_shown::<T>(ms, m),
    decreases n,
{
    let b = items_shown::<T>(ms, n);
    let c = items_shown::<T>(ms, m);
    if m < n {
        lemma_items_shown_prefix::<T>(ms, m, (n - 1) as nat);
        let a = items_shown::<T>(ms, (n - 1) as nat);
        assert(b.subrange(0, a.len() as int) =~= a);
        assert(b.subrange(0, c.len() as int) =~= a.subrange(0, c.len() as int));
    } else {
        assert(b.subrange(0, c.len() as int) =~= c);
    }
}

proof fn lemma_shown_child<T: Inspect>(ms: Seq<T::Model>, id: u64, i: int)
    requires
        0 <= i < ms.len(),
    ensures
        renders_at(Vec::<T>::shown(ms, id), shown_child_at::<T>(ms, i), T::shown(ms[i], item_id(i))),
        shown_child_at::<T>(ms, i) + T::shown(ms[i], item_id(i)).len() < 1 + items_shown::<T>(
            ms,
            (i + 1) as nat,
        ).len(),
{
    let n = ms.len();
    lemma_items_shown_prefix::<T>(ms, (i + 1) as nat, n);
    let d = Vec::<T>::shown(ms, id);
    let all = items_shown::<T>(ms, n);
    let p = items_shown::<T>(ms, (i + 1) as nat);
    let part = T::shown(ms[i], item_id(i));
    let l = items_shown::<T>(ms, i as nat).len() as int;
    assert(d.subrange(1, 1 + p.len() as int) =~= p);
    assert(p.subrange(l + 2, l + 2 + part.len() as int) =~= part);
    let q = shown_child_at::<T>(ms, i);
    assert(d.subrange(q, q + part.len() as int) =~= d.subrange(1, 1 + p.len() as int).subrange(
        l + 2,
        l + 2 + part.len() as int,
    ));
}

/// Sibling identities in a read-only rendering of a sequence: see
/// [`vec_siblings_shown`]. Each element is itself rendered through its own
/// type, so a nested sequence numbers its own elements in turn.
pub proof fn lemma_vec_siblings_shown<T: Inspect>(ms: Seq<T::Model>, id: u64)
    requires
        ms.len() <= u64::MAX + 1,
    ensures
        vec_siblings_shown::<T>(ms, id),
{
    assert forall|i: int| 0 <= i < ms.len() implies renders_at(
        Vec::<T>::shown(ms, id),
        #[trigger] shown_child_at::<T>(ms, i),
        T::shown(ms[i], item_id(i)),
    ) by {
        lemma_shown_child::<T>(ms, id, i);
    }
    assert forall|i: int, j: int| 0 <= i < j < ms.len() implies #[trigger] shown_child_at::<T>(
        ms,
        i,
    ) + T::shown(ms[i], item_id(i)).len() < #[trigger] shown_child_at::<T>(ms, j) && item_id(i)
        != item_id(j) by {
        lemma_shown_child::<T>(ms, id, i);
        lemma_items_shown_prefix::<T>(ms, (i + 1) as nat, j as nat);
    }
}

/// Sibling identities at three levels of nesting: a sequence of sequences of
/// sequences keys each section with the identity its call received, and at
/// every level renders its elements in place with pairwise distinct identities.
pub proof fn lemma_nested_siblings_shown<T: Inspect>(ms: Seq<Seq<Seq<T::Model>>>, id: u64)
    requires
        ms.len() <= u64::MAX + 1,
        forall|i: int| 0 <= i < ms.len() ==> (#[trigger] ms[i]).len() <= u64::MAX + 1,
        forall|i: int, a: int|
            0 <= i < ms.len() && 0 <= a < ms[i].len() ==> (#[trigger] ms[i][a]).len() <= u64::MAX
                + 1,
    ensures
        vec_siblings_shown::<Vec<Vec<T>>>(ms, id),
        forall|i: int| 0 <= i < ms.len() ==> vec_siblings_shown::<Vec<T>>(#[trigger] ms[i], item_id(i)),
        forall|i: int, a: int|
            0 <= i < ms.len() && 0 <= a < ms[i].len() ==> vec_siblings_shown::<T>(
                #[trigger] ms[i][a],
                item_id(a),
            ),
{
    lemma_vec_siblings_shown::<Vec<Vec<T>>>(ms, id);
    assert forall|i: int| 0 <= i < ms.len() implies vec_siblings_shown::<Vec<T>>(
        #[trigger] ms[i],
        item_id(i),
    ) by {
        lemma_vec_siblings_shown::<Vec<T>>(ms[i], item_id(i));
    }
    assert forall|i: int, a: int| 0 <= i < ms.len() && 0 <= a < ms[i].len() implies vec_siblings_shown::<T>(
        #[trigger] ms[i][a],
        item_id(a),
    ) by {
        lemma_vec_siblings_shown::<T>(ms[i][a], item_id(a));
    }
}

/// Where the editing of element `i` of a sequence starts, as a position of the
/// frame, when its rows start at `start`.
pub open spec fn edited_child_at<T: Inspect>(ms: Seq<T::Model>, rs: Seq<Response>, start: int, i: int) -> int {
    start + items_edited::<T>(ms, rs, start, i as nat).1.len() as int + 2
}

/// The editing rendering of a sequence `m` with identity `id`, its first widget
/// at `at`, opens a section keyed by `id`, then edits each element `i` of the
/// sequence left by the buttons in place with identity `i`, one after the
/// other, each element becoming what its own editing made of it; two siblings
/// get distinct identities.
pub open spec fn vec_siblings_edited<T: Inspect>(m: Seq<T::Model>, rs: Seq<Response>, at: int, id: u64) -> bool {
    let m2 = after_buttons::<T>(m, rs, at);
    let h = vec_head::<T>(m2.len(), id).len() as int;
    let start = at + h;
    let e = Vec::<T>::edited(m, rs, at, id);
    &&& e.1[h - 1] == (Drawn::SectionBegin { title: vec_title(m2.len()), id })
    &&& e.0.len() == m2.len()
    &&& forall|i: int|
        0 <= i < m2.len() ==> {
            let c = T::edited(m2[i], rs, #[trigger] edited_child_at::<T>(m2, rs, start, i), item_id(i));
            &&& renders_at(e.1, edited_child_at::<T>(m2, rs, start, i) - at, c.1)
            &&& e.0[i] == c.0
        }
    &&& forall|i: int, j: int|
        0 <= i < j < m2.len() ==> #[trigger] edited_child_at::<T>(m2, rs, start, i) + T::edited(
            m2[i],
            rs,
            edited_child_at::<T>(m2, rs, start, i),
            item_id(i),
        ).1.len() < #[trigger] edited_child_at::<T>(m2, rs, start, j) && item_id(i) != item_id(j)
}

proof fn lemma_items_edited_prefix<T: Inspect>(ms: Seq<T::Model>, rs: Seq<Response>, start: int, m: nat, n: nat)
    requires
        m <= n,
    ensures
        items_edited::<T>(ms, rs, start, m).1.len() <= items_edited::<T>(ms, rs, start, n).1.len(),
        items_edited::<T>(ms, rs, start, n).1.subrange(
            0,
            items_edited::<T>(ms, rs, start, m).1.len() as int,
        ) == items_edited::<T>(ms, rs, start, m).1,
        items_edited::<T>(ms, rs, start, n).0.subrange(0, m as int) == items_edited::<T>(
            ms,
            rs,
            start,
            m,
        ).0,
    decreases n,
{
    lemma_items_edited_len::<T>(ms, rs, start, m);
    lemma_items_edited_len::<T>(ms, rs, start, n);
    let b = items_edited::<T>(ms, rs, start, n);
    let c = items_edited::<T>(ms, rs, start, m);
    if m < n {
        lemma_items_edited_prefix::<T>(ms, rs, start, m, (n - 1) as nat);
        lemma_items_edited_len::<T>(ms, rs, start, (n - 1) as nat);
        let a = items_edited::<T>(ms, rs, start, (n - 1) as nat);
        assert(b.1.subrange(0, a.1.len() as int) =~= a.1);
        assert(b.1.subrange(0, c.1.len() as int) =~= a.1.subrange(0, c.1.len() as int));
        assert(b.0.subrange(0, (n - 1) as int) =~= a.0);
        assert(b.0.subrange(0, m as int) =~= a.0.subrange(0, m as int));
    } else {
        assert(b.1.subrange(0, c.1.len() as int) =~= c.1);
        assert(b.0.subrange(0, m as int) =~= c.0);
    }
}

proof fn lemma_edited_child<T: Inspect>(m: Seq<T::Model>, rs: Seq<Response>, at: int, id: u64, i: int)
    requires
        0 <= i < after_buttons::<T>(m, rs, at).len(),
    ensures
        ({
            let m2 = after_buttons::<T>(m, rs, at);
            let start = at + vec_head::<T>(m2.len(), id).len();
            let p = edited_child_at::<T>(m2, rs, start, i);
            let c = T::edited(m2[i], rs, p, item_id(i));
            &&& renders_at(Vec::<T>::edited(m, rs, at, id).1, p - at, c.1)
            &&& Vec::<T>::edited(m, rs, at, id).0[i] == c.0
            &&& p + c.1.len() < start + items_edited::<T>(m2, rs, start, (i + 1) as nat).1.len()
        }),
{
    let m2 = after_buttons::<T>(m, rs, at);
    let n = m2.len();
    let h = vec_head::<T>(n, id).len() as int;
    let start = at + h;
    lemma_items_edited_prefix::<T>(m2, rs, start, (i + 1) as nat, n);
    lemma_items_edited_len::<T>(m2, rs, start, i as nat);
    lemma_items_edited_len::<T>(m2, rs, start, (i + 1) as nat);
    let e = Vec::<T>::edited(m, rs, at, id);
    let pi = items_edited::<T>(m2, rs, start, (i + 1) as nat);
    let l = items_edited::<T>(m2, rs, start, i as nat).1.len() as int;
    let p = edited_child_at::<T>(m2, rs, start, i);
    let c = T::edited(m2[i], rs, p, item_id(i));
    assert(e.1.subrange(h, h + pi.1.len() as int) =~= pi.1);
    assert(pi.1.subrange(l + 2, l + 2 + c.1.len() as int) =~= c.1);
    assert(e.1.subrange(p - at, p - at + c.1.len() as int) =~= e.1.subrange(
        h,
        h + pi.1.len() as int,
    ).subrange(l + 2, l + 2 + c.1.len() as int));
    lemma_items_edited_len::<T>(m2, rs, start, n);
    assert(e.0 == items_edited::<T>(m2, rs, start, n).0);
    assert(pi.0[i] == c.0);
    assert(e.0.subrange(0, i + 1)[i] == pi.0[i]);
}

/// Sibling identities in the editing rendering of a sequence: see
/// [`vec_siblings_edited`].
pub proof fn lemma_vec_siblings_edited<T: Inspect>(m: Seq<T::Model>, rs: Seq<Response>, at: int, id: u64)
    requires
        after_buttons::<T>(m, rs, at).len() <= u64::MAX + 1,
    ensures
        vec_siblings_edited::<T>(m, rs, at, id),
{
    let m2 = after_buttons::<T>(m, rs, at);
    let h = vec_head::<T>(m2.len(), id).len() as int;
    let start = at + h;
    let e = Vec::<T>::edited(m, rs, at, id);
    lemma_items_edited_len::<T>(m2, rs, start, m2.len());
    assert(e.1[h - 1] == vec_head::<T>(m2.len(), id)[h - 1]);
    assert forall|i: int| 0 <= i < m2.len() implies {
        let c = T::edited(m2[i], rs, #[trigger] edited_child_at::<T>(m2, rs, start, i), item_id(i));
        &&& renders_at(e.1, edited_child_at::<T>(m2, rs, start, i) - at, c.1)
        &&& e.0[i] == c.0
    } by {
        lemma_edited_child::<T>(m, rs, at, id, i);
    }
    assert forall|i: int, j: int| 0 <= i < j < m2.len() implies #[trigger] edited_child_at::<T>(
        m2,
        rs,
        start,
        i,
    ) + T::edited(m2[i], rs, edited_child_at::<T>(m2, rs, start, i), item_id(i)).1.len()
        < #[trigger] edited_child_at::<T>(m2, rs, start, j) && item_id(i) != item_id(j) by {
        lemma_edited_child::<T>(m, rs, at, id, i);
        lemma_items_edited_prefix::<T>(m2, rs, start, (i + 1) as nat, j as nat);
    }
}

/// Sibling identities at three levels of nesting, when editing: a sequence of
/// sequences of sequences edits its elements in place with pairwise distinct
/// identities, and so does every sequence met one or two levels down, wherever
/// in the frame its editing starts and whatever identity it received.
pub proof fn lemma_nested_siblings_edited<T: Inspect>(m: Seq<Seq<Seq<T::Model>>>, rs: Seq<Response>, at: int, id: u64)
    requires
        after_buttons::<Vec<Vec<T>>>(m, rs, at).len() <= u64::MAX + 1,
    ensures
        vec_siblings_edited::<Vec<Vec<T>>>(m, rs, at, id),
        forall|x: Seq<Seq<T::Model>>, p: int, k: u64|
            after_buttons::<Vec<T>>(x, rs, p).len() <= u64::MAX + 1 ==> #[trigger] vec_siblings_edited::<Vec<T>>(x, rs, p, k),
        forall|y: Seq<T::Model>, p: int, k: u64|
            after_buttons::<T>(y, rs, p).len() <= u64::MAX + 1 ==> #[trigger] vec_siblings_edited::<T>(y, rs, p, k),
{
    lemma_vec_siblings_edited::<Vec<Vec<T>>>(m, rs, at, id);
    assert forall|x: Seq<Seq<T::Model>>, p: int, k: u64|
        after_buttons::<Vec<T>>(x, rs, p).len() <= u64::MAX + 1 implies #[trigger] vec_siblings_edited::<Vec<T>>(x, rs, p, k) by {
        lemma_vec_siblings_edited::<Vec<T>>(x, rs, p, k);
    }
    assert forall|y: Seq<T::Model>, p: int, k: u64|
        after_buttons::<T>(y, rs, p).len() <= u64::MAX + 1 implies #[trigger] vec_siblings_edited::<T>(y, rs, p, k) by {
        lemma_vec_siblings_edited::<T>(y, rs, p, k);
    }
}

/// Where the value of entry `i` starts in the read-only rendering of a map.
pub open spec fn map_child_at<K: Inspect, V: Inspect>(es: Seq<(K::Model, V::Model)>, i: int) -> int {
    1 + entry_rows::<K, V>(es, i as nat).len() as int + 2
}

/// The read-only rendering of a map, for the walk `es`, opens a section keyed
/// by `id` and titled with the number of entries, then renders each value `i`
/// in place with identity `i`; two siblings get distinct identities.
pub open spec fn map_siblings_shown<K: Inspect, V: Inspect>(es: Seq<(K::Model, V::Model)>, id: u64) -> bool {
    let d = map_shown::<K, V>(es, id);
    &&& d[0] == (Drawn::SectionBegin { title: map_title(es.len()), id })
    &&& forall|i: int|
        0 <= i < es.len() ==> renders_at(
            d,
            #[trigger] map_child_at::<K, V>(es, i),
            V::shown(es[i].1, item_id(i)),
        )
    &&& forall|i: int, j: int|
        0 <= i < j < es.len() ==> #[trigger] map_child_at::<K, V>(es, i) + V::shown(
            es[i].1,
            item_id(i),
        ).len() < #[trigger] map_child_at::<K, V>(es, j) && item_id(i) != item_id(j)
}

proof fn lemma_entry_rows_prefix<K: Inspect, V: Inspect>(es: Seq<(K::Model, V::Model)>, m: nat, n: nat)
    requires
        m <= n,
    ensures
        entry_rows::<K, V>(es, m).len() <= entry_rows::<K, V>(es, n).len(),
        entry_rows::<K, V>(es, n).subrange(0, entry_rows::<K, V>(es, m).len() as int)
            == entry_rows::<K, V>(es, m),
    decreases n,
{
    let b = entry_rows::<K, V>(es, n);
    let c = entry_rows::<K, V>(es, m);
    if m < n {
        lemma_entry_rows_prefix::<K, V>(es, m, (n - 1) as nat);
        let a = entry_rows::<K, V>(es, (n - 1) as nat);
        assert(b.subrange(0, a.len() as int) =~= a);
        assert(b.subrange(0, c.len() as int) =~= a.subrange(0, c.len() as int));
    } else {
        assert(b.subrange(0, c.len() as int) =~= c);
    }
}

proof fn lemma_map_child<K: Inspect, V: Inspect>(es: Seq<(K::Model, V::Model)>, id: u64, i: int)
    requires
        0 <= i < es.len(),
    ensures
        renders_at(map_shown::<K, V>(es, id), map_child_at::<K, V>(es, i), V::shown(es[i].1, item_id(i))),
        map_child_at::<K, V>(es, i) + V::shown(es[i].1, item_id(i)).len() < 1 + entry_rows::<K, V>(
            es,
            (i + 1) as nat,
        ).len(),
{
    lemma_entry_rows_prefix::<K, V>(es, (i + 1) as nat, es.len());
    let d = map_shown::<K, V>(es, id);
    let p = entry_rows::<K, V>(es, (i + 1) as nat);
    let part = V::shown(es[i].1, item_id(i));
    let l = entry_rows::<K, V>(es, i as nat).len() as int;
    assert(d.subrange(1, 1 + p.len() as int) =~= p);
    assert(p.subrange(l + 2, l + 2 + part.len() as int) =~= part);
    let q = map_child_at::<K, V>(es, i);
    assert(d.subrange(q, q + part.len() as int) =~= d.subrange(1, 1 + p.len() as int).subrange(
        l + 2,
        l + 2 + part.len() as int,
    ));
}

/// Sibling identities in a read-only rendering of a map: see
/// [`map_siblings_shown`]; `inspect_map` draws `map_shown` of one walk.
pub proof fn lemma_map_siblings_shown<K: Inspect, V: Inspect>(es: Seq<(K::Model, V::Model)>, id: u64)
    requires
        es.len() <= u64::MAX + 1,
    ensures
        map_siblings_shown::<K, V>(es, id),
{
    assert forall|i: int| 0 <= i < es.len() implies renders_at(
        map_shown::<K, V>(es, id),
        #[trigger] map_child_at::<K, V>(es, i),
        V::shown(es[i].1, item_id(i)),
    ) by {
        lemma_map_child::<K, V>(es, id, i);
    }
    assert forall|i: int, j: int| 0 <= i < j < es.len() implies #[trigger] map_child_at::<K, V>(
        es,
        i,
    ) + V::shown(es[i].1, item_id(i)).len() < #[trigger] map_child_at::<K, V>(es, j) && item_id(i)
        != item_id(j) by {
        lemma_map_child::<K, V>(es, id, i);
        lemma_entry_rows_prefix::<K, V>(es, (i + 1) as nat, j as nat);
    }
}

/// Where element `i` starts in the read-only rendering of a set.
pub open spec fn set_child_at<T: Inspect>(es: Seq<T::Model>, i: int) -> int {
    1 + element_rows::<T>(es, i as nat).len() as int
}

/// The read-only rendering of a set, for the walk `es`, opens a section keyed
/// by `id` and titled with the number of elements, then renders each element
/// `i` in place with identity `i`; two siblings get distinct identities.
pub open spec fn set_siblings_shown<T: Inspect>(es: Seq<T::Model>, id: u64) -> bool {
    let d = set_shown::<T>(es, id);
    &&& d[0] == (Drawn::SectionBegin { title: set_title(es.len()), id })
    &&& forall|i: int|
        0 <= i < es.len() ==> renders_at(d, #[trigger] set_child_at::<T>(es, i), T::shown(es[i], item_id(i)))
    &&& forall|i: int, j: int|
        0 <= i < j < es.len() ==> #[trigger] set_child_at::<T>(es, i) + T::shown(es[i], item_id(i)).len()
            <= #[trigger] set_child_at::<T>(es, j) && item_id(i) != item_id(j)
}

proof fn lemma_element_rows_prefix<T: Inspect>(es: Seq<T::Model>, m: nat, n: nat)
    requires
        m <= n,
    ensures
        element_rows::<T>(es, m).len() <= element_rows::<T>(es, n).len(),
        element_rows::<T>(es, n).subrange(0, element_rows::<T>(es, m).len() as int)
            == element_rows::<T>(es, m),
    decreases n,
{
    let b = element_rows::<T>(es, n);
    let c = element_rows::<T>(es, m);
    if m < n {
        lemma_element_rows_prefix::<T>(es, m, (n - 1) as nat);
        let a = element_rows::<T>(es, (n - 1) as nat);
        assert(b.subrange(0, a.len() as int) =~= a);
        assert(b.subrange(0, c.len() as int) =~= a.subrange(0, c.len() as int));
    } else {
        assert(b.subrange(0, c.len() as int) =~= c);
    }
}

proof fn lemma_set_child<T: Inspect>(es: Seq<T::Model>, id: u64, i: int)
    requires
        0 <= i < es.len(),
    ensures
        renders_at(set_shown::<T>(es, id), set_child_at::<T>(es, i), T::shown(es[i], item_id(i))),
        set_child_at::<T>(es, i) + T::shown(es[i], item_id(i)).len() == 1 + element_rows::<T>(
            es,
            (i + 1) as nat,
        ).len(),
{
    lemma_element_rows_prefix::<T>(es, (i + 1) as nat, es.len());
    let d = set_shown::<T>(es, id);
    let p = element_rows::<T>(es, (i + 1) as nat);
    let part = T::shown(es[i], item_id(i));
    let l = element_rows::<T>(es, i as nat).len() as int;
    assert(d.subrange(1, 1 + p.len() as int) =~= p);
    assert(p.subrange(l, l + part.len() as int) =~= part);
    let q = set_child_at::<T>(es, i);
    assert(d.subrange(q, q + part.len() as int) =~= d.subrange(1, 1 + p.len() as int).subrange(
        l,
        l + part.len() as int,
    ));
}

/// Sibling identities in a read-only rendering of a set: see
/// [`set_siblings_shown`]; `inspect_set` draws `set_shown` of one walk.
pub proof fn lemma_set_siblings_shown<T: Inspect>(es: Seq<T::Model>, id: u64)
    requires
        es.len() <= u64::MAX + 1,
    ensures
        set_siblings_shown::<T>(es, id),
{
    assert forall|i: int| 0 <= i < es.len() implies renders_at(
        set_shown::<T>(es, id),
        #[trigger] set_child_at::<T>(es, i),
        T::shown(es[i], item_id(i)),
    ) by {
        lemma_set_child::<T>(es, id, i);
    }
    assert forall|i: int, j: int| 0 <= i < j < es.len() implies #[trigger] set_child_at::<T>(es, i)
        + T::shown(es[i], item_id(i)).len() <= #[trigger] set_child_at::<T>(es, j) && item_id(i)
        != item_id(j) by {
        lemma_set_child::<T>(es, id, i);
        lemma_element_rows_prefix::<T>(es, (i + 1) as nat, j as nat);
    }
}

/// Where the editing of entry `i`'s value starts, as a position of the frame,
/// in the editing rendering of a map whose first widget stands at `at`.
pub open spec fn map_edited_child_at<K: Inspect, V: Inspect>(
    es: Seq<(K::Model, V::Model)>,
    rs: Seq<Response>,
    at: int,
    i: int,
) -> int {
    at + 1 + entries_edited::<K, V>(es, rs, at + 1, i as nat).1.len() as int + 2
}

/// The editing rendering of a map, for the walk `es`, opens a section keyed by
/// `id` and titled with the number of entries, then edits each value `i` in
/// place with identity `i`, the value becoming what its editing made of it;
/// two siblings get distinct identities.
pub open spec fn map_siblings_edited<K: Inspect, V: Inspect>(
    es: Seq<(K::Model, V::Model)>,
    rs: Seq<Response>,
    at: int,
    id: u64,
) -> bool {
    let e = map_edited::<K, V>(es, rs, at, id);
    &&& e.1[0] == (Drawn::SectionBegin { title: map_title(es.len()), id })
    &&& e.0.len() == es.len()
    &&& forall|i: int|
        0 <= i < es.len() ==> {
            let c = V::edited(es[i].1, rs, #[trigger] map_edited_child_at::<K, V>(es, rs, at, i), item_id(i));
            &&& renders_at(e.1, map_edited_child_at::<K, V>(es, rs, at, i) - at, c.1)
            &&& e.0[i] == c.0
        }
    &&& forall|i: int, j: int|
        0 <= i < j < es.len() ==> #[trigger] map_edited_child_at::<K, V>(es, rs, at, i) + V::edited(
            es[i].1,
            rs,
            map_edited_child_at::<K, V>(es, rs, at, i),
            item_id(i),
        ).1.len() < #[trigger] map_edited_child_at::<K, V>(es, rs, at, j) && item_id(i) != item_id(j)
}

proof fn lemma_entries_edited_prefix<K: Inspect, V: Inspect>(
    es: Seq<(K::Model, V::Model)>,
    rs: Seq<Response>,
    start: int,
    m: nat,
    n: nat,
)
    requires
        m <= n,
    ensures
        entries_edited::<K, V>(es, rs, start, m).1.len() <= entries_edited::<K, V>(es, rs, start, n).1.len(),
        entries_edited::<K, V>(es, rs, start, n).1.subrange(
            0,
            entries_edited::<K, V>(es, rs, start, m).1.len() as int,
        ) == entries_edited::<K, V>(es, rs, start, m).1,
        entries_edited::<K, V>(es, rs, start, n).0.subrange(0, m as int) == entries_edited::<K, V>(
            es,
            rs,
            start,
            m,
        ).0,
    decreases n,
{
    lemma_entries_edited_len::<K, V>(es, rs, start, m);
    lemma_entries_edited_len::<K, V>(es, rs, start, n);
    let b = entries_edited::<K, V>(es, rs, start, n);
    let c = entries_edited::<K, V>(es, rs, start, m);
    if m < n {
        lemma_entries_edited_prefix::<K, V>(es, rs, start, m, (n - 1) as nat);
        lemma_entries_edited_len::<K, V>(es, rs, start, (n - 1) as nat);
        let a = entries_edited::<K, V>(es, rs, start, (n - 1) as nat);
        assert(b.1.subrange(0, a.1.len() as int) =~= a.1);
        assert(b.1.subrange(0, c.1.len() as int) =~= a.1.subrange(0, c.1.len() as int));
        assert(b.0.subrange(0, (n - 1) as int) =~= a.0);
        assert(b.0.subrange(0, m as int) =~= a.0.subrange(0, m as int));
    } else {
        assert(b.1.subrange(0, c.1.len() as int) =~= c.1);
        assert(b.0.subrange(0, m as int) =~= c.0);
    }
}

proof fn lemma_map_edited_child<K: Inspect, V: Inspect>(
    es: Seq<(K::Model, V::Model)>,
    rs: Seq<Response>,
    at: int,
    id: u64,
    i: int,
)
    requires
        0 <= i < es.len(),
    ensures
        ({
            let p = map_edited_child_at::<K, V>(es, rs, at, i);
            let c = V::edited(es[i].1, rs, p, item_id(i));
            &&& renders_at(map_edited::<K, V>(es, rs, at, id).1, p - at, c.1)
            &&& map_edited::<K, V>(es, rs, at, id).0[i] == c.0
            &&& p + c.1.len() < at + 1 + entries_edited::<K, V>(es, rs, at + 1, (i + 1) as nat).1.len()
        }),
{
    let n = es.len();
    let start = at + 1;
    lemma_entries_edited_prefix::<K, V>(es, rs, start, (i + 1) as nat, n);
    lemma_entries_edited_len::<K, V>(es, rs, start, i as nat);
    lemma_entries_edited_len::<K, V>(es, rs, start, (i + 1) as nat);
    lemma_entries_edited_len::<K, V>(es, rs, start, n);
    let e = map_edited::<K, V>(es, rs, at, id);
    let pi = entries_edited::<K, V>(es, rs, start, (i + 1) as nat);
    let l = entries_edited::<K, V>(es, rs, start, i as nat).1.len() as int;
    let p = map_edited_child_at::<K, V>(es, rs, at, i);
    let c = V::edited(es[i].1, rs, p, item_id(i));
    assert(e.1.subrange(1, 1 + pi.1.len() as int) =~= pi.1);
    assert(pi.1.subrange(l + 2, l + 2 + c.1.len() as int) =~= c.1);
    assert(e.1.subrange(p - at, p - at + c.1.len() as int) =~= e.1.subrange(
        1,
        1 + pi.1.len() as int,
    ).subrange(l + 2, l + 2 + c.1.len() as int));
    assert(e.0 == entries_edited::<K, V>(es, rs, start, n).0);
    assert(pi.0[i] == c.0);
    assert(e.0.subrange(0, i + 1)[i] == pi.0[i]);
}

/// Sibling identities in the editing rendering of a map: see
/// [`map_siblings_edited`]; `inspect_map_mut` draws `map_edited` of one walk.
pub proof fn lemma_map_siblings_edited<K: Inspect, V: Inspect>(
    es: Seq<(K::Model, V::Model)>,
    rs: Seq<Response>,
    at: int,
    id: u64,
)
    requires
        es.len() <= u64::MAX + 1,
    ensures
        map_siblings_edited::<K, V>(es, rs, at, id),
{
    lemma_entries_edited_len::<K, V>(es, rs, at + 1, es.len());
    assert forall|i: int| 0 <= i < es.len() implies {
        let c = V::edited(es[i].1, rs, #[trigger] map_edited_child_at::<K, V>(es, rs, at, i), item_id(i));
        &&& renders_at(map_edited::<K, V>(es, rs, at, id).1, map_edited_child_at::<K, V>(es, rs, at, i) - at, c.1)
        &&& map_edited::<K, V>(es, rs, at, id).0[i] == c.0
    } by {
        lemma_map_edited_child::<K, V>(es, rs, at, id, i);
    }
    assert forall|i: int, j: int| 0 <= i < j < es.len() implies #[trigger] map_edited_child_at::<K, V>(
        es,
        rs,
        at,
        i,
    ) + V::edited(es[i].1, rs, map_edited_child_at::<K, V>(es, rs, at, i), item_id(i)).1.len()
        < #[trigger] map_edited_child_at::<K, V>(es, rs, at, j) && item_id(i) != item_id(j) by {
        lemma_map_edited_child::<K, V>(es, rs, at, id, i);
        lemma_entries_edited_prefix::<K, V>(es, rs, at + 1, (i + 1) as nat, j as nat);
    }
}

/// The identities that `k` renderings made one after the other through one
/// counter starting at `c0` receive: each call of `UiExt` renders with the
/// counter's value and advances it by one.
pub open spec fn counter_ids(c0: u64, k: nat) -> Seq<u64> {
    Seq::new(k, |j: int| (c0 + j) as u64)
}

/// Renderings through a shared counter get strictly increasing, hence pairwise
/// distinct, identities, and the counter ends at `c0 + k`.
pub proof fn lemma_counter_identities(c0: u64, k: nat)
    requires
        c0 + k <= u64::MAX,
    ensures
        forall|i: int, j: int|
            0 <= i < j < k ==> #[trigger] counter_ids(c0, k)[i] < #[trigger] counter_ids(c0, k)[j],
        counter_ids(c0, k).no_duplicates(),
        k > 0 ==> counter_ids(c0, k)[k - 1] + 1 == c0 + k,
{
    let ids = counter_ids(c0, k);
    assert forall|i: int, j: int| 0 <= i < ids.len() && 0 <= j < ids.len() && i != j implies ids[i]
        != ids[j] by {
        assert(ids[i] == c0 + i);
        assert(ids[j] == c0 + j);
    }
}

/// Field identities: a struct's plan gives field `i` the position `i`, which
/// `field_row` and `field_row_mut` render it with, so two fields of one struct
/// never share an identity.
pub proof fn lemma_field_identities(shape: TypeShape, handlers: Seq<String>, r: Result<Derived, DeriveError>)
    requires
        derived_ok(shape, handlers, r),
    ensures
        match r {
            Ok(Derived::Struct { fields, .. }) => {
                &&& forall|i: int| 0 <= i < fields@.len() ==> (#[trigger] fields@[i]).position == i
                &&& fields@.len() <= u64::MAX + 1 ==> forall|i: int, j: int|
                    0 <= i < j < fields@.len() ==> item_id((#[trigger] fields@[i]).position as int)
                        != item_id((#[trigger] fields@[j]).position as int)
            },
            _ => true,
        },
{
    match r {
        Ok(Derived::Struct { fields, .. }) => {
            match shape.data {
                ShapeData::Struct(fs) => {
                    assert forall|i: int| 0 <= i < fields@.len() implies (#[trigger] fields@[i]).position == i by {
                        assert(plan_matches(fs@[i], i, fields@[i]));
                    }
                },
                _ => {},
            }
        },
        _ => {},
    }
}

/// Whether the editing rendering of a type keeps every value and draws what
/// the read-only rendering draws.
pub open spec fn edits_nothing<T: Inspect>() -> bool {
    forall|m: T::Model, rs: Seq<Response>, at: int, id: u64|
        #[trigger] T::edited(m, rs, at, id) == (m, T::shown(m, id))
}

/// The types that only render read-only behave under the editing rendering
/// exactly as under the read-only one.
pub proof fn lemma_read_only_types<T>()
    ensures
        edits_nothing::<()>(),
        edits_nothing::<PhantomData<T>>(),
        edits_nothing::<&str>(),
{
}

/// An optional value or a box of a type that edits nothing edits nothing either.
pub proof fn lemma_read_only_wrappers<T: Inspect>()
    requires
        edits_nothing::<T>(),
    ensures
        edits_nothing::<Option<T>>(),
        edits_nothing::<Box<T>>(),
{
    assert forall|m: Option<T::Model>, rs: Seq<Response>, at: int, id: u64|
        #[trigger] Option::<T>::edited(m, rs, at, id) == (m, Option::<T>::shown(m, id)) by {
        match m {
            Some(x) => {
                assert(T::edited(x, rs, at, id) == (x, T::shown(x, id)));
            },
            None => {},
        }
    }
    assert forall|m: T::Model, rs: Seq<Response>, at: int, id: u64|
        #[trigger] Box::<T>::edited(m, rs, at, id) == (m, Box::<T>::shown(m, id)) by {
        assert(T::edited(m, rs, at, id) == (m, T::shown(m, id)));
    }
}

/// Choosing a variant: when variant `j` of an enum's `n` variants is chosen in
/// its selector, the value holds variant `j` afterwards, and the next rendering
/// highlights `j`.
pub proof fn lemma_variant_selection(
    rs: Seq<Response>,
    at: int,
    current: nat,
    j: nat,
    id: u64,
    name: Seq<char>,
    variants: Seq<Seq<char>>,
)
    requires
        current < variants.len(),
        j < variants.len(),
        response_at(rs, at) == Response::Pick(j),
    ensures
        pick_after(response_at(rs, at), current, variants.len()) == j,
        variant_shown(id, name, variants, pick_after(response_at(rs, at), current, variants.len()))
            == seq![Drawn::Combo { id, title: name, selected: j, options: variants }],
{
}

} // verus!
