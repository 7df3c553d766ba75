//! The capability that every inspectable type has, and its implementations
//! for text, flags, markers, boxes, optional values, pairs, sequences and arrays.
use vstd::prelude::*;
use crate::text::{decimal, push_decimal};
use crate::ui::{clicked_at, flag_after, response_at, text_after, Drawn, Response, Ui};
use std::marker::PhantomData;

verus! {

/// A type whose values can be rendered into a [`Ui`].
///
/// `inspect` renders a value read-only; `inspect_mut` renders it so that the
/// responses of the frame edit it in place. `id` tells this call apart from its
/// siblings; the parts of a composite value get identities derived from their
/// position in it.
pub trait Inspect: Sized {
    /// The mathematical form of a value, which is all that its rendering reads.
    type Model;

    /// The model of this value.
    spec fn model(&self) -> Self::Model;

    /// The debug text of a value, copied when the label in front of it is clicked.
    spec fn debug_of(m: Self::Model) -> Seq<char>;

    /// The widgets that the read-only rendering draws.
    spec fn shown(m: Self::Model, id: u64) -> Seq<Drawn>;

    /// The value after the editing rendering and the widgets that it draws,
    /// where `rs` are the responses of the frame and `at` the position of the
    /// first widget drawn.
    spec fn edited(m: Self::Model, rs: Seq<Response>, at: int, id: u64) -> (Self::Model, Seq<
        Drawn,
    >);

    /// The value that a new element of this type starts with, where the type has one.
    spec fn fresh() -> Option<Self::Model>;

    /// The debug text of this value.
    fn debug_text(&self) -> (r: String)
        ensures
            r@ == Self::debug_of(self.model()),
    ;

    /// A new element of this type, where the type has one: a sequence of
    /// such elements offers a button that appends one.
    fn fresh_value() -> (r: Option<Self>)
        ensures
            match r {
                Some(v) => Self::fresh() == Some(v.model()),
                None => Self::fresh() is None,
            },
    ;

    /// Renders this value read-only.
    fn inspect(&self, ui: &mut Ui, id: u64)
        ensures
            final(ui).drawn() == old(ui).drawn() + Self::shown(self.model(), id),
            final(ui).responses() == old(ui).responses(),
    ;

    /// Renders this value and applies the frame's responses to it. A type
    /// that edits nothing renders as `inspect` does and keeps its value.
    fn inspect_mut(&mut self, ui: &mut Ui, id: u64)
        ensures
            final(self).model() == Self::edited(
                old(self).model(),
                old(ui).responses(),
                old(ui).pos(),
                id,
            ).0,
            final(ui).drawn() == old(ui).drawn() + Self::edited(
                old(self).model(),
                old(ui).responses(),
                old(ui).pos(),
                id,
            ).1,
            final(ui).responses() == old(ui).responses(),
    ;
}

/// What a type that edits nothing does when rendered for editing: it keeps
/// its value and draws what the read-only rendering draws.
pub open spec fn read_only<M>(m: M, shown: Seq<Drawn>) -> (M, Seq<Drawn>) {
    (m, shown)
}

/// Relies on `<str as Debug>::fmt`: the quoted and escaped form of a text,
/// which depends on the text alone.
pub uninterp spec fn quoted(s: Seq<char>) -> Seq<char>;

/// Relies on `<str as Debug>::fmt` for the quoted and escaped form of `s`.
#[verifier::external_body]
fn debug_quoted(s: &str) -> (r: String)
    ensures
        r@ == quoted(s@),
{
    format!("{:?}", s)
}

impl Inspect for String {
    type Model = Seq<char>;

    open spec fn model(&self) -> Seq<char> {
        self@
    }

    open spec fn debug_of(m: Seq<char>) -> Seq<char> {
        quoted(m)
    }

    open spec fn shown(m: Seq<char>, id: u64) -> Seq<Drawn> {
        seq![Drawn::Label(m)]
    }

    open spec fn edited(m: Seq<char>, rs: Seq<Response>, at: int, id: u64) -> (Seq<char>, Seq<
        Drawn,
    >) {
        let t = text_after(response_at(rs, at), m);
        (t, seq![Drawn::TextEdit(t)])
    }

    open spec fn fresh() -> Option<Seq<char>> {
        Some(Seq::empty())
    }

    fn debug_text(&self) -> (r: String) {
        debug_quoted(self.as_str())
    }

    fn fresh_value() -> (r: Option<String>) {
        Some(String::new())
    }

    fn inspect(&self, ui: &mut Ui, id: u64) {
        ui.label(self.clone());
        proof {
            assert(final(ui).drawn() =~= old(ui).drawn() + Self::shown(self.model(), id));
        }
    }

    fn inspect_mut(&mut self, ui: &mut Ui, id: u64) {
        ui.text_edit(self);
        proof {
            let e = Self::edited(old(self).model(), old(ui).responses(), old(ui).pos(), id);
            assert(final(ui).drawn() =~= old(ui).drawn() + e.1);
        }
    }
}

impl Inspect for bool {
    type Model = bool;

    open spec fn model(&self) -> bool {
        *self
    }

    open spec fn debug_of(m: bool) -> Seq<char> {
        if m {
            "true"@
        } else {
            "false"@
        }
    }

    open spec fn shown(m: bool, id: u64) -> Seq<Drawn> {
        seq![Drawn::Checkbox(m)]
    }

    open spec fn edited(m: bool, rs: Seq<Response>, at: int, id: u64) -> (bool, Seq<Drawn>) {
        let b = flag_after(response_at(rs, at), m);
        (b, seq![Drawn::Checkbox(b)])
    }

    open spec fn fresh() -> Option<bool> {
        Some(false)
    }

    fn debug_text(&self) -> (r: String) {
        if *self {
            String::from_str("true")
        } else {
            String::from_str("false")
        }
    }

    fn fresh_value() -> (r: Option<bool>) {
        Some(false)
    }

    fn inspect(&self, ui: &mut Ui, id: u64) {
        ui.checkbox_shown(*self);
        proof {
            assert(final(ui).drawn() =~= old(ui).drawn() + Self::shown(self.model(), id));
        }
    }

    fn inspect_mut(&mut self, ui: &mut Ui, id: u64) {
        ui.checkbox(self);
        proof {
            let e = Self::edited(old(self).model(), old(ui).responses(), old(ui).pos(), id);
            assert(final(ui).drawn() =~= old(ui).drawn() + e.1);
        }
    }
}

impl Inspect for () {
    type Model = ();

    open spec fn model(&self) -> () {
        ()
    }

    open spec fn debug_of(m: ()) -> Seq<char> {
        "()"@
    }

    open spec fn shown(m: (), id: u64) -> Seq<Drawn> {
        seq![Drawn::Label("()"@)]
    }

    open spec fn edited(m: (), rs: Seq<Response>, at: int, id: u64) -> ((), Seq<Drawn>) {
        read_only(m, Self::shown(m, id))
    }

    open spec fn fresh() -> Option<()> {
        Some(())
    }

    fn debug_text(&self) -> (r: String) {
        String::from_str("()")
    }

    fn fresh_value() -> (r: Option<()>) {
        Some(())
    }

    fn inspect(&self, ui: &mut Ui, id: u64) {
        ui.label(String::from_str("()"));
        proof {
            assert(final(ui).drawn() =~= old(ui).drawn() + Self::shown(self.model(), id));
        }
    }

    fn inspect_mut(&mut self, ui: &mut Ui, id: u64) {
        self.inspect(ui, id);
    }
}


impl<T> Inspect for PhantomData<T> {
    type Model = ();

    open spec fn model(&self) -> () {
        ()
    }

    open spec fn debug_of(m: ()) -> Seq<char> {
        "PhantomData"@
    }

    open spec fn shown(m: (), id: u64) -> Seq<Drawn> {
        seq![Drawn::Label("PhantomData"@)]
    }

    open spec fn edited(m: (), rs: Seq<Response>, at: int, id: u64) -> ((), Seq<Drawn>) {
        read_only(m, Self::shown(m, id))
    }

    open spec fn fresh() -> Option<()> {
        Some(())
    }

    fn debug_text(&self) -> (r: String) {
        String::from_str("PhantomData")
    }

    fn fresh_value() -> (r: Option<PhantomData<T>>) {
        Some(PhantomData)
    }

    fn inspect(&self, ui: &mut Ui, id: u64) {
        ui.label(String::from_str("PhantomData"));
        proof {
            assert(final(ui).drawn() =~= old(ui).drawn() + Self::shown(self.model(), id));
        }
    }

    fn inspect_mut(&mut self, ui: &mut Ui, id: u64) {
        self.inspect(ui, id);
    }
}

impl<'a> Inspect for &'a str {
    type Model = Seq<char>;

    open spec fn model(&self) -> Seq<char> {
        (*self)@
    }

    open spec fn debug_of(m: Seq<char>) -> Seq<char> {
        quoted(m)
    }

    open spec fn shown(m: Seq<char>, id: u64) -> Seq<Drawn> {
        seq![Drawn::CopyLabel { text: m, hover: None, copy: m }]
    }

    open spec fn edited(m: Seq<char>, rs: Seq<Response>, at: int, id: u64) -> (Seq<char>, Seq<
        Drawn,
    >) {
        read_only(m, Self::shown(m, id))
    }

    open spec fn fresh() -> Option<Seq<char>> {
        Some(Seq::empty())
    }

    fn debug_text(&self) -> (r: String) {
        debug_quoted(*self)
    }

    fn fresh_value() -> (r: Option<&'a str>) {
        proof {
            reveal_strlit("");
        }
        Some("")
    }

    fn inspect(&self, ui: &mut Ui, id: u64) {
        ui.copy_label(String::from_str(*self), String::new(), String::from_str(*self));
        proof {
            assert(final(ui).drawn() =~= old(ui).drawn() + Self::shown(self.model(), id));
        }
    }

    fn inspect_mut(&mut self, ui: &mut Ui, id: u64) {
        self.inspect(ui, id);
    }
}

impl<T: Inspect> Inspect for Box<T> {
    type Model = T::Model;

    open spec fn model(&self) -> T::Model {
        (**self).model()
    }

    open spec fn debug_of(m: T::Model) -> Seq<char> {
        T::debug_of(m)
    }

    open spec fn shown(m: T::Model, id: u64) -> Seq<Drawn> {
        T::shown(m, id)
    }

    open spec fn edited(m: T::Model, rs: Seq<Response>, at: int, id: u64) -> (T::Model, Seq<
        Drawn,
    >) {
        T::edited(m, rs, at, id)
    }

    open spec fn fresh() -> Option<T::Model> {
        T::fresh()
    }

    fn debug_text(&self) -> (r: String) {
        (**self).debug_text()
    }

    fn fresh_value() -> (r: Option<Box<T>>) {
        match T::fresh_value() {
            Some(v) => Some(Box::new(v)),
            None => None,
        }
    }

    fn inspect(&self, ui: &mut Ui, id: u64) {
        (**self).inspect(ui, id);
    }

    fn inspect_mut(&mut self, ui: &mut Ui, id: u64) {
        (**self).inspect_mut(ui, id);
    }
}

/// The debug text of an optional value.
pub open spec fn debug_option<T: Inspect>(m: Option<T::Model>) -> Seq<char> {
    match m {
        Some(x) => "Some("@ + T::debug_of(x) + ")"@,
        None => "None"@,
    }
}

impl<T: Inspect> Inspect for Option<T> {
    type Model = Option<T::Model>;

    open spec fn model(&self) -> Option<T::Model> {
        match self {
            Some(t) => Some(t.model()),
            None => None,
        }
    }

    open spec fn debug_of(m: Option<T::Model>) -> Seq<char> {
        debug_option::<T>(m)
    }

    open spec fn shown(m: Option<T::Model>, id: u64) -> Seq<Drawn> {
        match m {
            Some(x) => T::shown(x, id),
            None => seq![Drawn::Label("None"@)],
        }
    }

    open spec fn edited(m: Option<T::Model>, rs: Seq<Response>, at: int, id: u64) -> (Option<
        T::Model,
    >, Seq<Drawn>) {
        match m {
            Some(x) => {
                let (y, d) = T::edited(x, rs, at, id);
                (Some(y), d)
            },
            None => (None, seq![Drawn::Label("None"@)]),
        }
    }

    open spec fn fresh() -> Option<Option<T::Model>> {
        Some(None)
    }

    fn debug_text(&self) -> (r: String) {
        match self {
            Some(t) => {
                let mut s = String::from_str("Some(");
                let inner = t.debug_text();
                s.append(inner.as_str());
                s.append(")");
                s
            },
            None => String::from_str("None"),
        }
    }

    fn fresh_value() -> (r: Option<Option<T>>) {
        Some(None)
    }

    fn inspect(&self, ui: &mut Ui, id: u64) {
        match self {
            Some(t) => t.inspect(ui, id),
            None => {
                ui.label(String::from_str("None"));
                proof {
                    assert(final(ui).drawn() =~= old(ui).drawn() + Self::shown(self.model(), id));
                }
            },
        }
    }

    fn inspect_mut(&mut self, ui: &mut Ui, id: u64) {
        match self {
            Some(t) => t.inspect_mut(ui, id),
            None => {
                ui.label(String::from_str("None"));
                proof {
                    let e = Self::edited(old(self).model(), old(ui).responses(), old(ui).pos(), id);
                    assert(final(ui).drawn() =~= old(ui).drawn() + e.1);
                }
            },
        }
    }
}

/// The debug text of a pair.
pub open spec fn debug_pair<A: Inspect, B: Inspect>(m: (A::Model, B::Model)) -> Seq<char> {
    "("@ + A::debug_of(m.0) + ", "@ + B::debug_of(m.1) + ")"@
}

impl<A: Inspect, B: Inspect> Inspect for (A, B) {
    type Model = (A::Model, B::Model);

    open spec fn model(&self) -> (A::Model, B::Model) {
        (self.0.model(), self.1.model())
    }

    open spec fn debug_of(m: (A::Model, B::Model)) -> Seq<char> {
        debug_pair::<A, B>(m)
    }

    /// Both halves are rendered with the same identity, one after the other.
    open spec fn shown(m: (A::Model, B::Model), id: u64) -> Seq<Drawn> {
        A::shown(m.0, id) + B::shown(m.1, id)
    }

    open spec fn edited(m: (A::Model, B::Model), rs: Seq<Response>, at: int, id: u64) -> ((
        A::Model,
        B::Model,
    ), Seq<Drawn>) {
        let (a, da) = A::edited(m.0, rs, at, id);
        let (b, db) = B::edited(m.1, rs, at + da.len(), id);
        ((a, b), da + db)
    }

    open spec fn fresh() -> Option<(A::Model, B::Model)> {
        match (A::fresh(), B::fresh()) {
            (Some(a), Some(b)) => Some((a, b)),
            _ => None,
        }
    }

    fn debug_text(&self) -> (r: String) {
        let mut s = String::from_str("(");
        let a = self.0.debug_text();
        s.append(a.as_str());
        s.append(", ");
        let b = self.1.debug_text();
        s.append(b.as_str());
        s.append(")");
        s
    }

    fn fresh_value() -> (r: Option<(A, B)>) {
        match A::fresh_value() {
            Some(a) => match B::fresh_value() {
                Some(b) => Some((a, b)),
                None => None,
            },
            None => None,
        }
    }

    fn inspect(&self, ui: &mut Ui, id: u64) {
        self.0.inspect(ui, id);
        self.1.inspect(ui, id);
        proof {
            assert(final(ui).drawn() =~= old(ui).drawn() + Self::shown(self.model(), id));
        }
    }

    fn inspect_mut(&mut self, ui: &mut Ui, id: u64) {
        self.0.inspect_mut(ui, id);
        self.1.inspect_mut(ui, id);
        proof {
            let e = Self::edited(old(self).model(), old(ui).responses(), old(ui).pos(), id);
            assert(final(ui).drawn() =~= old(ui).drawn() + e.1);
        }
    }
}

/// The identity of the element at position `i` of a sequence: its position.
pub open spec fn item_id(i: int) -> u64 {
    i as u64
}

/// The title of the section that holds a sequence of `n` elements.
pub open spec fn vec_title(n: nat) -> Seq<char> {
    "Vec ["@ + decimal(n as int) + "]"@
}

/// The row of element `i`: its index, which copies the element's debug text when
/// clicked, then the element itself with identity `i`.
pub open spec fn item_head<T: Inspect>(i: int, m: T::Model) -> Seq<Drawn> {
    seq![Drawn::RowBegin, Drawn::CopyLabel { text: decimal(i), hover: None, copy: T::debug_of(m) }]
}

/// The rows of the first `n` elements, rendered read-only.
pub open spec fn items_shown<T: Inspect>(ms: Seq<T::Model>, n: nat) -> Seq<Drawn>
    decreases n,
{
    if n == 0 {
        Seq::empty()
    } else {
        let i = n - 1;
        items_shown::<T>(ms, i as nat) + item_head::<T>(i, ms[i]) + T::shown(ms[i], item_id(i))
            + seq![Drawn::RowEnd]
    }
}

/// The first `n` elements after editing, and their rows, with the first row
/// starting at position `start`.
pub open spec fn items_edited<T: Inspect>(ms: Seq<T::Model>, rs: Seq<Response>, start: int, n: nat) -> (Seq<T::Model>, Seq<Drawn>)
    decreases n,
{
    if n == 0 {
        (Seq::empty(), Seq::empty())
    } else {
        let i = n - 1;
        let (pm, pd) = items_edited::<T>(ms, rs, start, i as nat);
        let (m, d) = T::edited(ms[i], rs, start + pd.len() + 2, item_id(i));
        (pm.push(m), pd + item_head::<T>(i, ms[i]) + d + seq![Drawn::RowEnd])
    }
}

/// The debug text of the first `n` elements, separated by commas.
pub open spec fn debug_items<T: Inspect>(ms: Seq<T::Model>, n: nat) -> Seq<char>
    decreases n,
{
    if n == 0 {
        Seq::empty()
    } else if n == 1 {
        T::debug_of(ms[0])
    } else {
        debug_items::<T>(ms, (n - 1) as nat) + ", "@ + T::debug_of(ms[n - 1])
    }
}

/// Whether the button that appends a new element is drawn.
pub open spec fn can_append<T: Inspect>() -> bool {
    T::fresh() is Some
}

/// The elements after the append and clear buttons, pressed or not, where the
/// first of them stands at `at`.
pub open spec fn after_buttons<T: Inspect>(ms: Seq<T::Model>, rs: Seq<Response>, at: int) -> Seq<T::Model> {
    let appended = if can_append::<T>() && clicked_at(rs, at) {
        ms.push(T::fresh()->0)
    } else {
        ms
    };
    let clear_at = if can_append::<T>() { at + 1 } else { at };
    if clicked_at(rs, clear_at) {
        Seq::empty()
    } else {
        appended
    }
}

/// The buttons and section header of an edited sequence.
pub open spec fn vec_head<T: Inspect>(n: nat, id: u64) -> Seq<Drawn> {
    let add: Seq<Drawn> = if can_append::<T>() { seq![Drawn::Button("+"@)] } else { Seq::empty() };
    add + seq![Drawn::Button("Clear"@), Drawn::SectionBegin { title: vec_title(n), id }]
}

impl<T: Inspect> Inspect for Vec<T> {
    type Model = Seq<T::Model>;

    open spec fn model(&self) -> Seq<T::Model> {
        self@.map_values(|t: T| t.model())
    }

    open spec fn debug_of(m: Seq<T::Model>) -> Seq<char> {
        "["@ + debug_items::<T>(m, m.len()) + "]"@
    }

    open spec fn shown(m: Seq<T::Model>, id: u64) -> Seq<Drawn> {
        seq![Drawn::SectionBegin { title: vec_title(m.len()), id }] + items_shown::<T>(m, m.len())
            + seq![Drawn::SectionEnd]
    }

    open spec fn edited(m: Seq<T::Model>, rs: Seq<Response>, at: int, id: u64) -> (Seq<T::Model>, Seq<Drawn>) {
        let m2 = after_buttons::<T>(m, rs, at);
        let head = vec_head::<T>(m2.len(), id);
        let (m3, body) = items_edited::<T>(m2, rs, at + head.len(), m2.len());
        (m3, head + body + seq![Drawn::SectionEnd])
    }

    open spec fn fresh() -> Option<Seq<T::Model>> {
        Some(Seq::empty())
    }

    fn debug_text(&self) -> (r: String) {
        let mut s = String::from_str("[");
        let n = self.len();
        let mut i: usize = 0;
        while i < n
            invariant
                n == self@.len(),
                i <= n,
                s@ == "["@ + debug_items::<T>(self.model(), i as nat),
            decreases n - i,
        {
            if i > 0 {
                s.append(", ");
            }
            let d = self[i].debug_text();
            s.append(d.as_str());
            i = i + 1;
            proof {
                let ms = self.model();
                assert(ms[i - 1] == self@[i - 1].model());
                assert(s@ =~= "["@ + debug_items::<T>(ms, i as nat));
            }
        }
        s.append("]");
        proof {
            assert(self.model().len() == n);
        }
        s
    }

    fn fresh_value() -> (r: Option<Vec<T>>) {
        let v: Vec<T> = Vec::new();
        proof {
            assert(v.model() =~= Seq::<T::Model>::empty());
        }
        Some(v)
    }

    fn inspect(&self, ui: &mut Ui, id: u64) {
        let n = self.len();
        let mut title = String::from_str("Vec [");
        push_decimal(&mut title, n as i128);
        title.append("]");
        ui.section_begin(title, id);
        let ghost ms = self.model();
        let ghost d0 = ui.drawn();
        let mut i: usize = 0;
        while i < n
            invariant
                n == self@.len(),
                ms == self.model(),
                ms.len() == n,
                i <= n,
                ui.drawn() == d0 + items_shown::<T>(ms, i as nat),
                ui.responses() == old(ui).responses(),
            decreases n - i,
        {
            assert(ms[i as int] == self@[i as int].model());
            ui.row_begin();
            let label = crate::text::decimal_text(i as i128);
            let copy = self[i].debug_text();
            ui.copy_label(label, String::new(), copy);
            self[i].inspect(ui, i as u64);
            ui.row_end();
            i = i + 1;
            proof {
                assert(ui.drawn() =~= d0 + items_shown::<T>(ms, i as nat));
            }
        }
        ui.section_end();
        proof {
            assert(final(ui).drawn() =~= old(ui).drawn() + Self::shown(self.model(), id));
        }
    }

    fn inspect_mut(&mut self, ui: &mut Ui, id: u64) {
        let ghost m0 = old(self).model();
        let ghost rs = old(ui).responses();
        let ghost at = old(ui).pos();
        match T::fresh_value() {
            Some(d) => {
                if ui.button(String::from_str("+")) {
                    self.push(d);
                }
            },
            None => {},
        }
        if ui.button(String::from_str("Clear")) {
            self.clear();
        }
        proof {
            assert(self.model() =~= after_buttons::<T>(m0, rs, at));
        }
        let n = self.len();
        let mut title = String::from_str("Vec [");
        push_decimal(&mut title, n as i128);
        title.append("]");
        ui.section_begin(title, id);
        let ghost ms = self.model();
        let ghost vals = self@;
        let ghost d0 = ui.drawn();
        let ghost start = ui.pos();
        proof {
            assert(d0 =~= old(ui).drawn() + vec_head::<T>(ms.len(), id));
        }
        let mut i: usize = 0;
        while i < n
            invariant
                n == self@.len(),
                vals.len() == n,
                ms.len() == n,
                forall|j: int| 0 <= j < n ==> #[trigger] ms[j] == vals[j].model(),
                forall|j: int| i <= j < n ==> #[trigger] self@[j] == vals[j],
                forall|j: int| 0 <= j < i ==> #[trigger] self@[j].model() == items_edited::<T>(ms, rs, start, i as nat).0[j],
                items_edited::<T>(ms, rs, start, i as nat).0.len() == i,
                i <= n,
                ui.drawn() == d0 + items_edited::<T>(ms, rs, start, i as nat).1,
                ui.responses() == rs,
                start == d0.len(),
            decreases n - i,
        {
            proof {
                lemma_items_edited_len::<T>(ms, rs, start, i as nat);
            }
            ui.row_begin();
            let label = crate::text::decimal_text(i as i128);
            let copy = self[i].debug_text();
            ui.copy_label(label, String::new(), copy);
            let ghost before = self@;
            self[i].inspect_mut(ui, i as u64);
            ui.row_end();
            i = i + 1;
            proof {
                let (pm, pd) = items_edited::<T>(ms, rs, start, (i - 1) as nat);
                assert(ui.drawn() =~= d0 + items_edited::<T>(ms, rs, start, i as nat).1);
                assert forall|j: int| 0 <= j < i implies #[trigger] self@[j].model() == items_edited::<T>(ms, rs, start, i as nat).0[j] by {
                    if j < i - 1 {
                        assert(self@[j] == before[j]);
                    }
                }
            }
        }
        ui.section_end();
        proof {
            let e = Self::edited(m0, rs, at, id);
            assert(ms == after_buttons::<T>(m0, rs, at));
            assert(self.model() =~= e.0);
            assert(final(ui).drawn() =~= old(ui).drawn() + e.1);
        }
    }
}

/// The title of the section that holds an array of `n` elements.
pub open spec fn array_title(n: nat) -> Seq<char> {
    "array["@ + decimal(n as int) + "]"@
}

impl<T: Inspect, const N: usize> Inspect for [T; N] {
    type Model = Seq<T::Model>;

    open spec fn model(&self) -> Seq<T::Model> {
        self@.map_values(|t: T| t.model())
    }

    open spec fn debug_of(m: Seq<T::Model>) -> Seq<char> {
        "["@ + debug_items::<T>(m, m.len()) + "]"@
    }

    open spec fn shown(m: Seq<T::Model>, id: u64) -> Seq<Drawn> {
        seq![Drawn::SectionBegin { title: array_title(m.len()), id }] + items_shown::<T>(m, m.len())
            + seq![Drawn::SectionEnd]
    }

    open spec fn edited(m: Seq<T::Model>, rs: Seq<Response>, at: int, id: u64) -> (Seq<T::Model>, Seq<Drawn>) {
        let (m2, body) = items_edited::<T>(m, rs, at + 1, m.len());
        (m2, seq![Drawn::SectionBegin { title: array_title(m.len()), id }] + body + seq![Drawn::SectionEnd])
    }

    open spec fn fresh() -> Option<Seq<T::Model>> {
        None
    }

    fn debug_text(&self) -> (r: String) {
        let mut s = String::from_str("[");
        let mut i: usize = 0;
        while i < N
            invariant
                N == self@.len(),
                i <= N,
                s@ == "["@ + debug_items::<T>(self.model(), i as nat),
            decreases N - i,
        {
            if i > 0 {
                s.append(", ");
            }
            let d = self[i].debug_text();
            s.append(d.as_str());
            i = i + 1;
            proof {
                let ms = self.model();
                assert(ms[i - 1] == self@[i - 1].model());
                assert(s@ =~= "["@ + debug_items::<T>(ms, i as nat));
            }
        }
        s.append("]");
        s
    }

    fn fresh_value() -> (r: Option<[T; N]>) {
        None
    }

    fn inspect(&self, ui: &mut Ui, id: u64) {
        let mut title = String::from_str("array[");
        push_decimal(&mut title, N as i128);
        title.append("]");
        ui.section_begin(title, id);
        let ghost ms = self.model();
        let ghost d0 = ui.drawn();
        let mut i: usize = 0;
        while i < N
            invariant
                N == self@.len(),
                ms == self.model(),
                ms.len() == N,
                i <= N,
                ui.drawn() == d0 + items_shown::<T>(ms, i as nat),
                ui.responses() == old(ui).responses(),
            decreases N - i,
        {
            assert(ms[i as int] == self@[i as int].model());
            ui.row_begin();
            let label = crate::text::decimal_text(i as i128);
            let copy = self[i].debug_text();
            ui.copy_label(label, String::new(), copy);
            self[i].inspect(ui, i as u64);
            ui.row_end();
            i = i + 1;
            proof {
                assert(ui.drawn() =~= d0 + items_shown::<T>(ms, i as nat));
            }
        }
        ui.section_end();
        proof {
            assert(final(ui).drawn() =~= old(ui).drawn() + Self::shown(self.model(), id));
        }
    }

    fn inspect_mut(&mut self, ui: &mut Ui, id: u64) {
        let ghost rs = old(ui).responses();
        let mut title = String::from_str("array[");
        push_decimal(&mut title, N as i128);
        title.append("]");
        ui.section_begin(title, id);
        let ghost ms = self.model();
        let ghost vals = self@;
        let ghost d0 = ui.drawn();
        let ghost start = ui.pos();
        let mut i: usize = 0;
        while i < N
            invariant
                N == self@.len(),
                vals.len() == N,
                ms.len() == N,
                forall|j: int| 0 <= j < N ==> #[trigger] ms[j] == vals[j].model(),
                forall|j: int| i <= j < N ==> #[trigger] self@[j] == vals[j],
                forall|j: int| 0 <= j < i ==> #[trigger] self@[j].model() == items_edited::<T>(ms, rs, start, i as nat).0[j],
                items_edited::<T>(ms, rs, start, i as nat).0.len() == i,
                i <= N,
                ui.drawn() == d0 + items_edited::<T>(ms, rs, start, i as nat).1,
                ui.responses() == rs,
                start == d0.len(),
            decreases N - i,
        {
            proof {
                lemma_items_edited_len::<T>(ms, rs, start, i as nat);
            }
            ui.row_begin();
            let label = crate::text::decimal_text(i as i128);
            let copy = self[i].debug_text();
            ui.copy_label(label, String::new(), copy);
            let ghost before = self@;
            self[i].inspect_mut(ui, i as u64);
            ui.row_end();
            i = i + 1;
            proof {
                assert(ui.drawn() =~= d0 + items_edited::<T>(ms, rs, start, i as nat).1);
                assert forall|j: int| 0 <= j < i implies #[trigger] self@[j].model() == items_edited::<T>(ms, rs, start, i as nat).0[j] by {
                    if j < i - 1 {
                        assert(self@[j] == before[j]);
                    }
                }
            }
        }
        ui.section_end();
        proof {
            let e = Self::edited(old(self).model(), rs, old(ui).pos(), id);
            assert(self.model() =~= e.0);
            assert(final(ui).drawn() =~= old(ui).drawn() + e.1);
        }
    }
}

/// The edited prefix has one model per element.
pub proof fn lemma_items_edited_len<T: Inspect>(ms: Seq<T::Model>, rs: Seq<Response>, start: int, n: nat)
    ensures
        items_edited::<T>(ms, rs, start, n).0.len() == n,
    decreases n,
{
    if n > 0 {
        lemma_items_edited_len::<T>(ms, rs, start, (n - 1) as nat);
    }
}
} // verus!
