//! Helpers that render values with identities taken from a shared counter,
//! and sections whose items a caller-supplied function renders.
use vstd::prelude::*;
use crate::inspect::Inspect;
use crate::ui::{Drawn, Ui};

verus! {

/// The row that names a property: its name, which copies the debug text of
/// the value when clicked.
pub open spec fn property_head(name: Seq<char>, copy: Seq<char>) -> Seq<Drawn> {
    seq![Drawn::RowBegin, Drawn::CopyLabel { text: name, hover: None, copy }]
}

/// Rendering with identities drawn from a counter that each call advances.
pub trait UiExt: Sized {
    /// The frame behind this handle.
    spec fn frame(&self) -> Ui;

    /// Renders `what` read-only with the counter's identity, then advances the counter.
    fn inspect<T: Inspect>(&mut self, what: &T, id: &mut u64)
        requires
            *old(id) < u64::MAX,
        ensures
            *final(id) == *old(id) + 1,
            final(self).frame().drawn() == old(self).frame().drawn() + T::shown(
                what.model(),
                *old(id),
            ),
            final(self).frame().responses() == old(self).frame().responses(),
    ;

    /// Renders `what` for editing with the counter's identity, then advances the counter.
    fn inspect_mut<T: Inspect>(&mut self, what: &mut T, id: &mut u64)
        requires
            *old(id) < u64::MAX,
        ensures
            *final(id) == *old(id) + 1,
            final(what).model() == T::edited(
                old(what).model(),
                old(self).frame().responses(),
                old(self).frame().pos(),
                *old(id),
            ).0,
            final(self).frame().drawn() == old(self).frame().drawn() + T::edited(
                old(what).model(),
                old(self).frame().responses(),
                old(self).frame().pos(),
                *old(id),
            ).1,
            final(self).frame().responses() == old(self).frame().responses(),
    ;

    /// Renders a named row: the name, which copies the value's debug text when
    /// clicked, and the value for editing with the counter's identity.
    fn property_mut<T: Inspect>(&mut self, name: &str, what: &mut T, id: &mut u64)
        requires
            *old(id) < u64::MAX,
        ensures
            *final(id) == *old(id) + 1,
            final(what).model() == T::edited(
                old(what).model(),
                old(self).frame().responses(),
                old(self).frame().pos() + 2,
                *old(id),
            ).0,
            final(self).frame().drawn() == old(self).frame().drawn() + property_head(
                name@,
                T::debug_of(old(what).model()),
            ) + T::edited(
                old(what).model(),
                old(self).frame().responses(),
                old(self).frame().pos() + 2,
                *old(id),
            ).1 + seq![Drawn::RowEnd],
            final(self).frame().responses() == old(self).frame().responses(),
    ;
}

impl UiExt for Ui {
    open spec fn frame(&self) -> Ui {
        *self
    }

    fn inspect<T: Inspect>(&mut self, what: &T, id: &mut u64) {
        what.inspect(self, *id);
        *id = *id + 1;
    }

    fn inspect_mut<T: Inspect>(&mut self, what: &mut T, id: &mut u64) {
        what.inspect_mut(self, *id);
        *id = *id + 1;
    }

    fn property_mut<T: Inspect>(&mut self, name: &str, what: &mut T, id: &mut u64) {
        self.row_begin();
        let copy = what.debug_text();
        self.copy_label(String::from_str(name), String::new(), copy);
        UiExt::inspect_mut(self, what, id);
        self.row_end();
        proof {
            let e = T::edited(old(what).model(), old(self).responses(), old(self).pos() + 2, *old(id));
            assert(final(self).drawn() =~= old(self).drawn() + property_head(
                name@,
                T::debug_of(old(what).model()),
            ) + e.1 + seq![Drawn::RowEnd]);
        }
    }
}


/// Renders `items` in a section titled `title` and keyed by the counter's
/// value, calling `fun` on each item in order with its position and the
/// counter. `fun` may be called on anything and only draws more widgets.
pub fn inspect_iter_with<T, F: Fn(&mut Ui, usize, &T, &mut u64)>(
    ui: &mut Ui,
    title: &str,
    items: &Vec<T>,
    id: &mut u64,
    fun: F,
)
    requires
        forall|u: &mut Ui, i: usize, t: &T, c: &mut u64| #[trigger] fun.requires((u, i, t, c)),
        forall|u: &mut Ui, i: usize, t: &T, c: &mut u64, r: ()|
            #[trigger] fun.ensures((u, i, t, c), r) ==> {
                &&& final(u).drawn().len() >= u.drawn().len()
                &&& final(u).drawn().subrange(0, u.drawn().len() as int) == u.drawn()
                &&& final(u).responses() == u.responses()
            },
    ensures
        exists|mid: Seq<Drawn>|
            final(ui).drawn() == old(ui).drawn() + seq![Drawn::SectionBegin { title: title@, id: *old(id) }]
                + mid + seq![Drawn::SectionEnd],
        final(ui).responses() == old(ui).responses(),
{
    ui.section_begin(String::from_str(title), *id);
    let ghost d0 = ui.drawn();
    let n = items.len();
    let mut i: usize = 0;
    while i < n
        invariant
            n == items@.len(),
            d0 == old(ui).drawn().push(Drawn::SectionBegin { title: title@, id: *old(id) }),
            forall|u: &mut Ui, i: usize, t: &T, c: &mut u64| #[trigger] fun.requires((u, i, t, c)),
            forall|u: &mut Ui, i: usize, t: &T, c: &mut u64, r: ()|
                #[trigger] fun.ensures((u, i, t, c), r) ==> {
                    &&& final(u).drawn().len() >= u.drawn().len()
                    &&& final(u).drawn().subrange(0, u.drawn().len() as int) == u.drawn()
                    &&& final(u).responses() == u.responses()
                },
            ui.drawn().len() >= d0.len(),
            ui.drawn().subrange(0, d0.len() as int) == d0,
            ui.responses() == old(ui).responses(),
        decreases n - i,
    {
        let ghost before = ui.drawn();
        fun(ui, i, &items[i], id);
        proof {
            assert(ui.drawn().subrange(0, d0.len() as int) =~= ui.drawn().subrange(0, before.len() as int).subrange(0, d0.len() as int));
        }
        i = i + 1;
    }
    let ghost d1 = ui.drawn();
    ui.section_end();
    proof {
        let mid = d1.subrange(d0.len() as int, d1.len() as int);
        assert(d1 =~= d1.subrange(0, d0.len() as int) + mid);
        assert(d1 =~= d0 + mid);
        assert(final(ui).drawn() =~= old(ui).drawn() + seq![Drawn::SectionBegin { title: title@, id: *old(id) }] + mid + seq![Drawn::SectionEnd]);
    }
}


/// Renders `items` in a section titled `title` and keyed by the counter's
/// value, calling `fun` on each item in order with its position, the item to
/// edit and the counter. `fun` may be called on anything and only draws more
/// widgets; the sequence keeps its length.
pub fn inspect_iter_with_mut<T, F: Fn(&mut Ui, usize, &mut T, &mut u64)>(
    ui: &mut Ui,
    title: &str,
    items: &mut Vec<T>,
    id: &mut u64,
    fun: F,
)
    requires
        forall|u: &mut Ui, i: usize, t: &mut T, c: &mut u64| #[trigger] fun.requires((u, i, t, c)),
        forall|u: &mut Ui, i: usize, t: &mut T, c: &mut u64, r: ()|
            #[trigger] fun.ensures((u, i, t, c), r) ==> {
                &&& final(u).drawn().len() >= u.drawn().len()
                &&& final(u).drawn().subrange(0, u.drawn().len() as int) == u.drawn()
                &&& final(u).responses() == u.responses()
            },
    ensures
        exists|mid: Seq<Drawn>|
            final(ui).drawn() == old(ui).drawn() + seq![Drawn::SectionBegin { title: title@, id: *old(id) }]
                + mid + seq![Drawn::SectionEnd],
        final(ui).responses() == old(ui).responses(),
        final(items)@.len() == old(items)@.len(),
{
    ui.section_begin(String::from_str(title), *id);
    let ghost d0 = ui.drawn();
    let n = items.len();
    let mut i: usize = 0;
    while i < n
        invariant
            n == items@.len(),
            n == old(items)@.len(),
            d0 == old(ui).drawn().push(Drawn::SectionBegin { title: title@, id: *old(id) }),
            forall|u: &mut Ui, i: usize, t: &mut T, c: &mut u64| #[trigger] fun.requires((u, i, t, c)),
            forall|u: &mut Ui, i: usize, t: &mut T, c: &mut u64, r: ()|
                #[trigger] fun.ensures((u, i, t, c), r) ==> {
                    &&& final(u).drawn().len() >= u.drawn().len()
                    &&& final(u).drawn().subrange(0, u.drawn().len() as int) == u.drawn()
                    &&& final(u).responses() == u.responses()
                },
            ui.drawn().len() >= d0.len(),
            ui.drawn().subrange(0, d0.len() as int) == d0,
            ui.responses() == old(ui).responses(),
        decreases n - i,
    {
        let ghost before = ui.drawn();
        fun(ui, i, &mut items[i], id);
        proof {
            assert(ui.drawn().subrange(0, d0.len() as int) =~= ui.drawn().subrange(0, before.len() as int).subrange(0, d0.len() as int));
        }
        i = i + 1;
    }
    let ghost d1 = ui.drawn();
    ui.section_end();
    proof {
        let mid = d1.subrange(d0.len() as int, d1.len() as int);
        assert(d1 =~= d1.subrange(0, d0.len() as int) + mid);
        assert(d1 =~= d0 + mid);
        assert(final(ui).drawn() =~= old(ui).drawn() + seq![Drawn::SectionBegin { title: title@, id: *old(id) }] + mid + seq![Drawn::SectionEnd]);
    }
}
} // verus!
