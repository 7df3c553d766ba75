//! Integers: shown as decimal text, edited by dragging within the type's range.
use vstd::prelude::*;
use crate::inspect::Inspect;
use crate::text::{decimal, decimal_text};
use crate::ui::{number_after, response_at, Drawn, Response, Ui};

verus! {

impl Inspect for i8 {
    type Model = int;

    open spec fn model(&self) -> int {
        *self as int
    }

    open spec fn debug_of(m: int) -> Seq<char> {
        decimal(m)
    }

    open spec fn shown(m: int, id: u64) -> Seq<Drawn> {
        seq![Drawn::Label(decimal(m))]
    }

    open spec fn edited(m: int, rs: Seq<Response>, at: int, id: u64) -> (int, Seq<Drawn>) {
        let n = number_after(response_at(rs, at), m, i8::MIN as int, i8::MAX as int);
        (n, seq![Drawn::DragValue(n)])
    }

    open spec fn fresh() -> Option<int> {
        Some(0)
    }

    fn debug_text(&self) -> (r: String) {
        decimal_text(*self as i128)
    }

    fn fresh_value() -> (r: Option<i8>) {
        Some(0)
    }

    fn inspect(&self, ui: &mut Ui, id: u64) {
        ui.label(decimal_text(*self as i128));
        proof {
            assert(final(ui).drawn() =~= old(ui).drawn() + Self::shown(self.model(), id));
        }
    }

    fn inspect_mut(&mut self, ui: &mut Ui, id: u64) {
        let r = ui.drag_value(*self as i128, i8::MIN as i128, i8::MAX as i128);
        *self = r as i8;
        proof {
            let e = Self::edited(old(self).model(), old(ui).responses(), old(ui).pos(), id);
            assert(final(ui).drawn() =~= old(ui).drawn() + e.1);
        }
    }
}

impl Inspect for u8 {
    type Model = int;

    open spec fn model(&self) -> int {
        *self as int
    }

    open spec fn debug_of(m: int) -> Seq<char> {
        decimal(m)
    }

    open spec fn shown(m: int, id: u64) -> Seq<Drawn> {
        seq![Drawn::Label(decimal(m))]
    }

    open spec fn edited(m: int, rs: Seq<Response>, at: int, id: u64) -> (int, Seq<Drawn>) {
        let n = number_after(response_at(rs, at), m, u8::MIN as int, u8::MAX as int);
        (n, seq![Drawn::DragValue(n)])
    }

    open spec fn fresh() -> Option<int> {
        Some(0)
    }

    fn debug_text(&self) -> (r: String) {
        decimal_text(*self as i128)
    }

    fn fresh_value() -> (r: Option<u8>) {
        Some(0)
    }

    fn inspect(&self, ui: &mut Ui, id: u64) {
        ui.label(decimal_text(*self as i128));
        proof {
            assert(final(ui).drawn() =~= old(ui).drawn() + Self::shown(self.model(), id));
        }
    }

    fn inspect_mut(&mut self, ui: &mut Ui, id: u64) {
        let r = ui.drag_value(*self as i128, u8::MIN as i128, u8::MAX as i128);
        *self = r as u8;
        proof {
            let e = Self::edited(old(self).model(), old(ui).responses(), old(ui).pos(), id);
            assert(final(ui).drawn() =~= old(ui).drawn() + e.1);
        }
    }
}

impl Inspect for i16 {
    type Model = int;

    open spec fn model(&self) -> int {
        *self as int
    }

    open spec fn debug_of(m: int) -> Seq<char> {
        decimal(m)
    }

    open spec fn shown(m: int, id: u64) -> Seq<Drawn> {
        seq![Drawn::Label(decimal(m))]
    }

    open spec fn edited(m: int, rs: Seq<Response>, at: int, id: u64) -> (int, Seq<Drawn>) {
        let n = number_after(response_at(rs, at), m, i16::MIN as int, i16::MAX as int);
        (n, seq![Drawn::DragValue(n)])
    }

    open spec fn fresh() -> Option<int> {
        Some(0)
    }

    fn debug_text(&self) -> (r: String) {
        decimal_text(*self as i128)
    }

    fn fresh_value() -> (r: Option<i16>) {
        Some(0)
    }

    fn inspect(&self, ui: &mut Ui, id: u64) {
        ui.label(decimal_text(*self as i128));
        proof {
            assert(final(ui).drawn() =~= old(ui).drawn() + Self::shown(self.model(), id));
        }
    }

    fn inspect_mut(&mut self, ui: &mut Ui, id: u64) {
        let r = ui.drag_value(*self as i128, i16::MIN as i128, i16::MAX as i128);
        *self = r as i16;
        proof {
            let e = Self::edited(old(self).model(), old(ui).responses(), old(ui).pos(), id);
            assert(final(ui).drawn() =~= old(ui).drawn() + e.1);
        }
    }
}

impl Inspect for u16 {
    type Model = int;

    open spec fn model(&self) -> int {
        *self as int
    }

    open spec fn debug_of(m: int) -> Seq<char> {
        decimal(m)
    }

    open spec fn shown(m: int, id: u64) -> Seq<Drawn> {
        seq![Drawn::Label(decimal(m))]
    }

    open spec fn edited(m: int, rs: Seq<Response>, at: int, id: u64) -> (int, Seq<Drawn>) {
        let n = number_after(response_at(rs, at), m, u16::MIN as int, u16::MAX as int);
        (n, seq![Drawn::DragValue(n)])
    }

    open spec fn fresh() -> Option<int> {
        Some(0)
    }

    fn debug_text(&self) -> (r: String) {
        decimal_text(*self as i128)
    }

    fn fresh_value() -> (r: Option<u16>) {
        Some(0)
    }

    fn inspect(&self, ui: &mut Ui, id: u64) {
        ui.label(decimal_text(*self as i128));
        proof {
            assert(final(ui).drawn() =~= old(ui).drawn() + Self::shown(self.model(), id));
        }
    }

    fn inspect_mut(&mut self, ui: &mut Ui, id: u64) {
        let r = ui.drag_value(*self as i128, u16::MIN as i128, u16::MAX as i128);
        *self = r as u16;
        proof {
            let e = Self::edited(old(self).model(), old(ui).responses(), old(ui).pos(), id);
            assert(final(ui).drawn() =~= old(ui).drawn() + e.1);
        }
    }
}

impl Inspect for i32 {
    type Model = int;

    open spec fn model(&self) -> int {
        *self as int
    }

    open spec fn debug_of(m: int) -> Seq<char> {
        decimal(m)
    }

    open spec fn shown(m: int, id: u64) -> Seq<Drawn> {
        seq![Drawn::Label(decimal(m))]
    }

    open spec fn edited(m: int, rs: Seq<Response>, at: int, id: u64) -> (int, Seq<Drawn>) {
        let n = number_after(response_at(rs, at), m, i32::MIN as int, i32::MAX as int);
        (n, seq![Drawn::DragValue(n)])
    }

    open spec fn fresh() -> Option<int> {
        Some(0)
    }

    fn debug_text(&self) -> (r: String) {
        decimal_text(*self as i128)
    }

    fn fresh_value() -> (r: Option<i32>) {
        Some(0)
    }

    fn inspect(&self, ui: &mut Ui, id: u64) {
        ui.label(decimal_text(*self as i128));
        proof {
            assert(final(ui).drawn() =~= old(ui).drawn() + Self::shown(self.model(), id));
        }
    }

    fn inspect_mut(&mut self, ui: &mut Ui, id: u64) {
        let r = ui.drag_value(*self as i128, i32::MIN as i128, i32::MAX as i128);
        *self = r as i32;
        proof {
            let e = Self::edited(old(self).model(), old(ui).responses(), old(ui).pos(), id);
            assert(final(ui).drawn() =~= old(ui).drawn() + e.1);
        }
    }
}

impl Inspect for u32 {
    type Model = int;

    open spec fn model(&self) -> int {
        *self as int
    }

    open spec fn debug_of(m: int) -> Seq<char> {
        decimal(m)
    }

    open spec fn shown(m: int, id: u64) -> Seq<Drawn> {
        seq![Drawn::Label(decimal(m))]
    }

    open spec fn edited(m: int, rs: Seq<Response>, at: int, id: u64) -> (int, Seq<Drawn>) {
        let n = number_after(response_at(rs, at), m, u32::MIN as int, u32::MAX as int);
        (n, seq![Drawn::DragValue(n)])
    }

    open spec fn fresh() -> Option<int> {
        Some(0)
    }

    fn debug_text(&self) -> (r: String) {
        decimal_text(*self as i128)
    }

    fn fresh_value() -> (r: Option<u32>) {
        Some(0)
    }

    fn inspect(&self, ui: &mut Ui, id: u64) {
        ui.label(decimal_text(*self as i128));
        proof {
            assert(final(ui).drawn() =~= old(ui).drawn() + Self::shown(self.model(), id));
        }
    }

    fn inspect_mut(&mut self, ui: &mut Ui, id: u64) {
        let r = ui.drag_value(*self as i128, u32::MIN as i128, u32::MAX as i128);
        *self = r as u32;
        proof {
            let e = Self::edited(old(self).model(), old(ui).responses(), old(ui).pos(), id);
            assert(final(ui).drawn() =~= old(ui).drawn() + e.1);
        }
    }
}

impl Inspect for i64 {
    type Model = int;

    open spec fn model(&self) -> int {
        *self as int
    }

    open spec fn debug_of(m: int) -> Seq<char> {
        decimal(m)
    }

    open spec fn shown(m: int, id: u64) -> Seq<Drawn> {
        seq![Drawn::Label(decimal(m))]
    }

    open spec fn edited(m: int, rs: Seq<Response>, at: int, id: u64) -> (int, Seq<Drawn>) {
        let n = number_after(response_at(rs, at), m, i64::MIN as int, i64::MAX as int);
        (n, seq![Drawn::DragValue(n)])
    }

    open spec fn fresh() -> Option<int> {
        Some(0)
    }

    fn debug_text(&self) -> (r: String) {
        decimal_text(*self as i128)
    }

    fn fresh_value() -> (r: Option<i64>) {
        Some(0)
    }

    fn inspect(&self, ui: &mut Ui, id: u64) {
        ui.label(decimal_text(*self as i128));
        proof {
            assert(final(ui).drawn() =~= old(ui).drawn() + Self::shown(self.model(), id));
        }
    }

    fn inspect_mut(&mut self, ui: &mut Ui, id: u64) {
        let r = ui.drag_value(*self as i128, i64::MIN as i128, i64::MAX as i128);
        *self = r as i64;
        proof {
            let e = Self::edited(old(self).model(), old(ui).responses(), old(ui).pos(), id);
            assert(final(ui).drawn() =~= old(ui).drawn() + e.1);
        }
    }
}

impl Inspect for u64 {
    type Model = int;

    open spec fn model(&self) -> int {
        *self as int
    }

    open spec fn debug_of(m: int) -> Seq<char> {
        decimal(m)
    }

    open spec fn shown(m: int, id: u64) -> Seq<Drawn> {
        seq![Drawn::Label(decimal(m))]
    }

    open spec fn edited(m: int, rs: Seq<Response>, at: int, id: u64) -> (int, Seq<Drawn>) {
        let n = number_after(response_at(rs, at), m, u64::MIN as int, u64::MAX as int);
        (n, seq![Drawn::DragValue(n)])
    }

    open spec fn fresh() -> Option<int> {
        Some(0)
    }

    fn debug_text(&self) -> (r: String) {
        decimal_text(*self as i128)
    }

    fn fresh_value() -> (r: Option<u64>) {
        Some(0)
    }

    fn inspect(&self, ui: &mut Ui, id: u64) {
        ui.label(decimal_text(*self as i128));
        proof {
            assert(final(ui).drawn() =~= old(ui).drawn() + Self::shown(self.model(), id));
        }
    }

    fn inspect_mut(&mut self, ui: &mut Ui, id: u64) {
        let r = ui.drag_value(*self as i128, u64::MIN as i128, u64::MAX as i128);
        *self = r as u64;
        proof {
            let e = Self::edited(old(self).model(), old(ui).responses(), old(ui).pos(), id);
            assert(final(ui).drawn() =~= old(ui).drawn() + e.1);
        }
    }
}

impl Inspect for isize {
    type Model = int;

    open spec fn model(&self) -> int {
        *self as int
    }

    open spec fn debug_of(m: int) -> Seq<char> {
        decimal(m)
    }

    open spec fn shown(m: int, id: u64) -> Seq<Drawn> {
        seq![Drawn::Label(decimal(m))]
    }

    open spec fn edited(m: int, rs: Seq<Response>, at: int, id: u64) -> (int, Seq<Drawn>) {
        let n = number_after(response_at(rs, at), m, isize::MIN as int, isize::MAX as int);
        (n, seq![Drawn::DragValue(n)])
    }

    open spec fn fresh() -> Option<int> {
        Some(0)
    }

    fn debug_text(&self) -> (r: String) {
        decimal_text(*self as i128)
    }

    fn fresh_value() -> (r: Option<isize>) {
        Some(0)
    }

    fn inspect(&self, ui: &mut Ui, id: u64) {
        ui.label(decimal_text(*self as i128));
        proof {
            assert(final(ui).drawn() =~= old(ui).drawn() + Self::shown(self.model(), id));
        }
    }

    fn inspect_mut(&mut self, ui: &mut Ui, id: u64) {
        let r = ui.drag_value(*self as i128, isize::MIN as i128, isize::MAX as i128);
        *self = r as isize;
        proof {
            let e = Self::edited(old(self).model(), old(ui).responses(), old(ui).pos(), id);
            assert(final(ui).drawn() =~= old(ui).drawn() + e.1);
        }
    }
}

impl Inspect for usize {
    type Model = int;

    open spec fn model(&self) -> int {
        *self as int
    }

    open spec fn debug_of(m: int) -> Seq<char> {
        decimal(m)
    }

    open spec fn shown(m: int, id: u64) -> Seq<Drawn> {
        seq![Drawn::Label(decimal(m))]
    }

    open spec fn edited(m: int, rs: Seq<Response>, at: int, id: u64) -> (int, Seq<Drawn>) {
        let n = number_after(response_at(rs, at), m, usize::MIN as int, usize::MAX as int);
        (n, seq![Drawn::DragValue(n)])
    }

    open spec fn fresh() -> Option<int> {
        Some(0)
    }

    fn debug_text(&self) -> (r: String) {
        decimal_text(*self as i128)
    }

    fn fresh_value() -> (r: Option<usize>) {
        Some(0)
    }

    fn inspect(&self, ui: &mut Ui, id: u64) {
        ui.label(decimal_text(*self as i128));
        proof {
            assert(final(ui).drawn() =~= old(ui).drawn() + Self::shown(self.model(), id));
        }
    }

    fn inspect_mut(&mut self, ui: &mut Ui, id: u64) {
        let r = ui.drag_value(*self as i128, usize::MIN as i128, usize::MAX as i128);
        *self = r as usize;
        proof {
            let e = Self::edited(old(self).model(), old(ui).responses(), old(ui).pos(), id);
            assert(final(ui).drawn() =~= old(ui).drawn() + e.1);
        }
    }
}

} // verus!
