//! Deriving the rendering of a user-defined type from its declared shape.
//!
//! [`derive_inspect`] reads the shape of a struct or enum (its fields with their
//! directives and doc comments, or its variants) and produces a [`Derived`]
//! plan, or refuses the shape. A type's rendering then follows the plan with
//! the row functions below, field by field in declaration order.
use vstd::prelude::*;
use crate::inspect::{item_id, Inspect};
use crate::text::decimal;
use crate::ui::{hover_of, Drawn, Ui};

verus! {

/// An attribute on a field: its name, and the identifier given in parentheses
/// when there is one.
#[derive(Debug, Clone, PartialEq)]
pub struct Attr {
    pub name: String,
    pub arg: Option<String>,
}

/// A field as declared: its name (none for a positional field), its
/// attributes, and its doc comment lines.
#[derive(Debug, Clone, PartialEq)]
pub struct FieldShape {
    pub name: Option<String>,
    pub attrs: Vec<Attr>,
    pub docs: Vec<String>,
}

/// A variant of an enum as declared.
#[derive(Debug, Clone, PartialEq)]
pub struct VariantShape {
    pub name: String,
    pub carries_data: bool,
}

/// The body of a declared type.
#[derive(Debug, Clone, PartialEq)]
pub enum ShapeData {
    Struct(Vec<FieldShape>),
    Enum(Vec<VariantShape>),
    Union,
}

/// A declared type: its name and body.
#[derive(Debug, Clone, PartialEq)]
pub struct TypeShape {
    pub name: String,
    pub data: ShapeData,
}

/// How the rendering treats one field.
#[derive(Debug, Clone, PartialEq)]
pub enum FieldInspectKind {
    /// The field renders itself through [`Inspect`].
    Auto,
    /// The named function renders the field instead.
    WithFn(String),
    /// The field is shown by name only and never rendered or edited.
    Opaque,
}

/// Why a shape cannot be derived.
#[derive(Debug, Clone, Copy, PartialEq, Eq)]
pub enum DeriveError {
    /// Unions are not supported.
    Union,
    /// The variant at this position carries data.
    DataVariant(usize),
    /// The field at this position asks for a function without naming one.
    MissingFnName(usize),
    /// The field at this position names a function that is not known.
    UnknownFn(usize),
}

/// The plan of one field: its position in the struct, which is also the
/// identity it is rendered with, its row label, its treatment, and its help text.
#[derive(Debug, Clone, PartialEq)]
pub struct FieldPlan {
    pub position: usize,
    pub label: String,
    pub kind: FieldInspectKind,
    pub doc: String,
}

/// The rendering plan of a type.
#[derive(Debug, Clone, PartialEq)]
pub enum Derived {
    /// A struct: its name and its fields in declaration order.
    Struct { name: String, fields: Vec<FieldPlan> },
    /// An enum of data-less variants: its name and the variant names in order.
    Enum { name: String, variants: Vec<String> },
}

/// Whether an attribute is one of the two field directives.
pub open spec fn is_directive(a: Attr) -> bool {
    a.name@ == "opaque"@ || a.name@ == "inspect_with"@
}

/// The position of the first directive at or after `from`, or the length when
/// there is none: a field's first directive decides its treatment.
pub open spec fn first_directive(attrs: Seq<Attr>, from: int) -> int
    decreases attrs.len() - from,
{
    if from >= attrs.len() {
        attrs.len() as int
    } else if is_directive(attrs[from]) {
        from
    } else {
        first_directive(attrs, from + 1)
    }
}

/// Whether a field is marked opaque.
pub open spec fn marked_opaque(attrs: Seq<Attr>) -> bool {
    let k = first_directive(attrs, 0);
    k < attrs.len() && attrs[k].name@ == "opaque"@
}

/// Whether a field asks for a function to render it.
pub open spec fn marked_with_fn(attrs: Seq<Attr>) -> bool {
    let k = first_directive(attrs, 0);
    k < attrs.len() && attrs[k].name@ == "inspect_with"@
}

/// The identifier that a field's function directive gives.
pub open spec fn fn_arg(attrs: Seq<Attr>) -> Option<String> {
    attrs[first_directive(attrs, 0)].arg
}

/// Whether `kind` is the treatment that the attributes ask for.
pub open spec fn kind_matches(attrs: Seq<Attr>, kind: FieldInspectKind) -> bool {
    if marked_opaque(attrs) {
        kind is Opaque
    } else if marked_with_fn(attrs) {
        match (fn_arg(attrs), kind) {
            (Some(a), FieldInspectKind::WithFn(f)) => f@ == a@,
            _ => false,
        }
    } else {
        kind is Auto
    }
}

proof fn lemma_first_directive_skips(attrs: Seq<Attr>, i: int)
    requires
        0 <= i <= attrs.len(),
        forall|j: int| 0 <= j < i ==> !is_directive(#[trigger] attrs[j]),
    ensures
        first_directive(attrs, 0) == first_directive(attrs, i),
    decreases i,
{
    if i > 0 {
        lemma_first_directive_skips(attrs, i - 1);
    }
}

fn text_is(s: &String, lit: &str) -> (r: bool)
    ensures
        r == (s@ == lit@),
{
    let t = String::from_str(lit);
    *s == t
}

/// The treatment that a field's attributes ask for: the first `opaque` or
/// `inspect_with` attribute decides, and a field with neither renders itself.
/// An `inspect_with` without an identifier is refused.
pub fn inspect_kind(attrs: &Vec<Attr>) -> (r: Option<FieldInspectKind>)
    ensures
        match r {
            Some(kind) => kind_matches(attrs@, kind),
            None => marked_with_fn(attrs@) && fn_arg(attrs@) is None,
        },
{
    let n = attrs.len();
    let mut i: usize = 0;
    while i < n
        invariant
            n == attrs@.len(),
            i <= n,
            forall|j: int| 0 <= j < i ==> !is_directive(#[trigger] attrs@[j]),
        decreases n - i,
    {
        let a = &attrs[i];
        if text_is(&a.name, "opaque") {
            proof {
                lemma_first_directive_skips(attrs@, i as int);
            }
            return Some(FieldInspectKind::Opaque);
        } else if text_is(&a.name, "inspect_with") {
            proof {
                lemma_first_directive_skips(attrs@, i as int);
            }
            return match &a.arg {
                Some(f) => Some(FieldInspectKind::WithFn(f.clone())),
                None => None,
            };
        }
        i = i + 1;
    }
    proof {
        lemma_first_directive_skips(attrs@, n as int);
    }
    Some(FieldInspectKind::Auto)
}


/// Whether a character has the Unicode `White_Space` property, the test that
/// `char::is_whitespace` makes.
pub open spec fn is_space(c: char) -> bool {
    let u = c as u32;
    (0x9 <= u <= 0xd) || u == 0x20 || u == 0x85 || u == 0xa0 || u == 0x1680 || (0x2000 <= u
        <= 0x200a) || u == 0x2028 || u == 0x2029 || u == 0x202f || u == 0x205f || u == 0x3000
}

/// A text without its trailing whitespace.
pub open spec fn trim_end_of(s: Seq<char>) -> Seq<char>
    decreases s.len(),
{
    if s.len() > 0 && is_space(s.last()) {
        trim_end_of(s.drop_last())
    } else {
        s
    }
}

/// Relies on `str::trim_end`: the longest prefix of `s` that leaves out only
/// characters with the `White_Space` property.
#[verifier::external_body]
fn trim_end(s: &str) -> (r: String)
    ensures
        r@.len() <= s@.len(),
        r@ == s@.subrange(0, r@.len() as int),
        forall|i: int| r@.len() <= i < s@.len() ==> is_space(#[trigger] s@[i]),
        r@.len() > 0 ==> !is_space(r@.last()),
{
    s.trim_end().to_string()
}

proof fn lemma_trim_end_unique(s: Seq<char>, r: Seq<char>)
    requires
        r.len() <= s.len(),
        r == s.subrange(0, r.len() as int),
        forall|i: int| r.len() <= i < s.len() ==> is_space(#[trigger] s[i]),
        r.len() > 0 ==> !is_space(r.last()),
    ensures
        r == trim_end_of(s),
    decreases s.len(),
{
    if r.len() < s.len() {
        assert(is_space(s[s.len() - 1]));
        let t = s.drop_last();
        assert(r =~= t.subrange(0, r.len() as int));
        assert forall|i: int| r.len() <= i < t.len() implies is_space(#[trigger] t[i]) by {
            assert(t[i] == s[i]);
        }
        lemma_trim_end_unique(t, r);
    } else {
        assert(r =~= s);
    }
}

/// The doc comment lines of a field, each followed by a line break.
pub open spec fn joined_docs(docs: Seq<String>, n: nat) -> Seq<char>
    decreases n,
{
    if n == 0 {
        Seq::empty()
    } else {
        joined_docs(docs, (n - 1) as nat) + docs[n - 1]@ + "\n"@
    }
}

/// The help text of a field: its doc comment lines joined by line breaks,
/// without trailing whitespace.
pub open spec fn doc_of(docs: Seq<String>) -> Seq<char> {
    trim_end_of(joined_docs(docs, docs.len()))
}

/// The help text of a field from its doc comment lines.
pub fn doc_comment_string(docs: &Vec<String>) -> (r: String)
    ensures
        r@ == doc_of(docs@),
{
    let mut out = String::new();
    let n = docs.len();
    let mut i: usize = 0;
    while i < n
        invariant
            n == docs@.len(),
            i <= n,
            out@ == joined_docs(docs@, i as nat),
        decreases n - i,
    {
        out.append(docs[i].as_str());
        out.append("\n");
        i = i + 1;
        proof {
            assert(out@ =~= joined_docs(docs@, i as nat));
        }
    }
    let r = trim_end(out.as_str());
    proof {
        lemma_trim_end_unique(out@, r@);
    }
    r
}

/// The row label of the field at position `i`: its name, or its position for
/// a positional field.
pub open spec fn field_label(f: FieldShape, i: int) -> Seq<char> {
    match f.name {
        Some(n) => n@,
        None => decimal(i),
    }
}

/// Whether `name` is among the known functions.
pub open spec fn is_known(handlers: Seq<String>, name: Seq<char>) -> bool {
    exists|h: int| 0 <= h < handlers.len() && #[trigger] handlers[h]@ == name
}

/// The refusal that the field at position `i` earns, if any.
pub open spec fn field_error(f: FieldShape, i: int, handlers: Seq<String>) -> Option<DeriveError> {
    if marked_with_fn(f.attrs@) {
        match fn_arg(f.attrs@) {
            None => Some(DeriveError::MissingFnName(i as usize)),
            Some(a) => if is_known(handlers, a@) {
                None
            } else {
                Some(DeriveError::UnknownFn(i as usize))
            },
        }
    } else {
        None
    }
}

/// The refusal of the first field at or after `from` that earns one.
pub open spec fn first_field_error(fs: Seq<FieldShape>, handlers: Seq<String>, from: int) -> Option<
    DeriveError,
>
    decreases fs.len() - from,
{
    if from < 0 || from >= fs.len() {
        None
    } else {
        match field_error(fs[from], from, handlers) {
            Some(e) => Some(e),
            None => first_field_error(fs, handlers, from + 1),
        }
    }
}

/// The position of the first variant at or after `from` that carries data, or
/// the length when there is none.
pub open spec fn first_data_variant(vs: Seq<VariantShape>, from: int) -> int
    decreases vs.len() - from,
{
    if from < 0 || from >= vs.len() {
        vs.len() as int
    } else if vs[from].carries_data {
        from
    } else {
        first_data_variant(vs, from + 1)
    }
}

/// Whether `p` is the plan of the field `f` at position `i`.
pub open spec fn plan_matches(f: FieldShape, i: int, p: FieldPlan) -> bool {
    &&& p.position == i
    &&& p.label@ == field_label(f, i)
    &&& kind_matches(f.attrs@, p.kind)
    &&& p.doc@ == doc_of(f.docs@)
}

/// What deriving a shape gives, with `handlers` the functions that fields may name.
pub open spec fn derived_ok(shape: TypeShape, handlers: Seq<String>, r: Result<Derived, DeriveError>) -> bool {
    match shape.data {
        ShapeData::Union => r == Err::<Derived, DeriveError>(DeriveError::Union),
        ShapeData::Enum(vs) => {
            let k = first_data_variant(vs@, 0);
            if k < vs@.len() {
                r == Err::<Derived, DeriveError>(DeriveError::DataVariant(k as usize))
            } else {
                match r {
                    Ok(Derived::Enum { name, variants }) => {
                        &&& name@ == shape.name@
                        &&& variants@.len() == vs@.len()
                        &&& forall|i: int| 0 <= i < vs@.len() ==> #[trigger] variants@[i]@ == vs@[i].name@
                    },
                    _ => false,
                }
            }
        },
        ShapeData::Struct(fs) => match first_field_error(fs@, handlers, 0) {
            Some(e) => r == Err::<Derived, DeriveError>(e),
            None => match r {
                Ok(Derived::Struct { name, fields }) => {
                    &&& name@ == shape.name@
                    &&& fields@.len() == fs@.len()
                    &&& forall|i: int| 0 <= i < fs@.len() ==> plan_matches(fs@[i], i, #[trigger] fields@[i])
                },
                _ => false,
            },
        },
    }
}

proof fn lemma_first_field_error_skips(fs: Seq<FieldShape>, handlers: Seq<String>, i: int)
    requires
        0 <= i <= fs.len(),
        forall|j: int| 0 <= j < i ==> (#[trigger] field_error(fs[j], j, handlers)) is None,
    ensures
        first_field_error(fs, handlers, 0) == first_field_error(fs, handlers, i),
    decreases i,
{
    if i > 0 {
        lemma_first_field_error_skips(fs, handlers, i - 1);
    }
}

proof fn lemma_first_data_variant_skips(vs: Seq<VariantShape>, i: int)
    requires
        0 <= i <= vs.len(),
        forall|j: int| 0 <= j < i ==> !(#[trigger] vs[j]).carries_data,
    ensures
        first_data_variant(vs, 0) == first_data_variant(vs, i),
    decreases i,
{
    if i > 0 {
        lemma_first_data_variant_skips(vs, i - 1);
    }
}

fn knows(handlers: &Vec<String>, name: &String) -> (r: bool)
    ensures
        r == is_known(handlers@, name@),
{
    let n = handlers.len();
    let mut i: usize = 0;
    while i < n
        invariant
            n == handlers@.len(),
            i <= n,
            forall|j: int| 0 <= j < i ==> #[trigger] handlers@[j]@ != name@,
        decreases n - i,
    {
        if handlers[i] == *name {
            return true;
        }
        i = i + 1;
    }
    false
}

fn plan_field(f: &FieldShape, i: usize, handlers: &Vec<String>) -> (r: Result<FieldPlan, DeriveError>)
    ensures
        match r {
            Ok(p) => field_error(*f, i as int, handlers@) is None && plan_matches(*f, i as int, p),
            Err(e) => field_error(*f, i as int, handlers@) == Some(e),
        },
{
    proof {
        reveal_strlit("opaque");
        reveal_strlit("inspect_with");
        assert("opaque"@.len() != "inspect_with"@.len());
    }
    let kind = match inspect_kind(&f.attrs) {
        Some(k) => k,
        None => {
            return Err(DeriveError::MissingFnName(i));
        },
    };
    match &kind {
        FieldInspectKind::WithFn(g) => {
            if !knows(handlers, g) {
                return Err(DeriveError::UnknownFn(i));
            }
        },
        _ => {},
    }
    let label = match &f.name {
        Some(n) => n.clone(),
        None => crate::text::decimal_text(i as i128),
    };
    let doc = doc_comment_string(&f.docs);
    Ok(FieldPlan { position: i, label, kind, doc })
}

/// Derives the rendering plan of a declared type. `handlers` are the
/// functions that an `inspect_with` directive may name.
///
/// A struct gives one plan per field, in declaration order; an enum whose
/// variants carry no data gives the list of its variant names. A union, a
/// variant with data, an `inspect_with` without an identifier and one that
/// names an unknown function are refused, the first offending item deciding.
pub fn derive_inspect(shape: &TypeShape, handlers: &Vec<String>) -> (r: Result<Derived, DeriveError>)
    ensures
        derived_ok(*shape, handlers@, r),
{
    match &shape.data {
        ShapeData::Union => Err(DeriveError::Union),
        ShapeData::Enum(vs) => {
            let n = vs.len();
            let mut variants: Vec<String> = Vec::new();
            let mut i: usize = 0;
            while i < n
                invariant
                    shape.data == ShapeData::Enum(*vs),
                    n == vs@.len(),
                    i <= n,
                    variants@.len() == i,
                    forall|j: int| 0 <= j < i ==> !(#[trigger] vs@[j]).carries_data,
                    forall|j: int| 0 <= j < i ==> #[trigger] variants@[j]@ == vs@[j].name@,
                decreases n - i,
            {
                if vs[i].carries_data {
                    proof {
                        lemma_first_data_variant_skips(vs@, i as int);
                        assert(first_data_variant(vs@, i as int) == i);
                    }
                    return Err(DeriveError::DataVariant(i));
                }
                variants.push(vs[i].name.clone());
                i = i + 1;
            }
            proof {
                lemma_first_data_variant_skips(vs@, n as int);
            }
            Ok(Derived::Enum { name: shape.name.clone(), variants })
        },
        ShapeData::Struct(fs) => {
            let n = fs.len();
            let mut fields: Vec<FieldPlan> = Vec::new();
            let mut i: usize = 0;
            while i < n
                invariant
                    shape.data == ShapeData::Struct(*fs),
                    n == fs@.len(),
                    i <= n,
                    fields@.len() == i,
                    forall|j: int| 0 <= j < i ==> (#[trigger] field_error(fs@[j], j, handlers@)) is None,
                    forall|j: int| 0 <= j < i ==> plan_matches(fs@[j], j, #[trigger] fields@[j]),
                decreases n - i,
            {
                match plan_field(&fs[i], i, handlers) {
                    Ok(p) => {
                        fields.push(p);
                    },
                    Err(e) => {
                        proof {
                            lemma_first_field_error_skips(fs@, handlers@, i as int);
                            assert(first_field_error(fs@, handlers@, i as int) == Some(e));
                        }
                        return Err(e);
                    },
                }
                i = i + 1;
            }
            proof {
                lemma_first_field_error_skips(fs@, handlers@, n as int);
            }
            Ok(Derived::Struct { name: shape.name.clone(), fields })
        },
    }
}

/// The start of a field's row: its label, with the field's help on hover, which
/// copies the field's debug text when clicked.
pub open spec fn field_head(label: Seq<char>, doc: Seq<char>, copy: Seq<char>) -> Seq<Drawn> {
    seq![Drawn::RowBegin, Drawn::CopyLabel { text: label, hover: hover_of(doc), copy }]
}

/// The row of an opaque field: its label marked opaque, with its help on hover.
pub open spec fn opaque_row(label: Seq<char>, doc: Seq<char>) -> Seq<Drawn> {
    seq![
        Drawn::RowBegin,
        Drawn::HintLabel { text: label + " <opaque>"@, hover: hover_of(doc) },
        Drawn::RowEnd,
    ]
}

/// The start of the row of a field rendered by a named function: its label
/// with its help on hover. The function draws the rest, then the row is closed.
pub open spec fn custom_head(label: Seq<char>, doc: Seq<char>) -> Seq<Drawn> {
    seq![Drawn::RowBegin, Drawn::HintLabel { text: label, hover: hover_of(doc) }]
}

/// The drop-down list of an enum's variants with variant `current` highlighted.
pub open spec fn variant_shown(id: u64, name: Seq<char>, variants: Seq<Seq<char>>, current: nat) -> Seq<Drawn> {
    seq![Drawn::Combo { id, title: name, selected: current, options: variants }]
}

/// Opens the section that holds a struct's rows, titled with its name.
pub fn struct_begin(ui: &mut Ui, name: &String, id: u64)
    ensures
        final(ui).drawn() == old(ui).drawn().push(Drawn::SectionBegin { title: name@, id }),
        final(ui).responses() == old(ui).responses(),
{
    ui.section_begin(name.clone(), id);
}

/// Closes the section of a struct.
pub fn struct_end(ui: &mut Ui)
    ensures
        final(ui).drawn() == old(ui).drawn().push(Drawn::SectionEnd),
        final(ui).responses() == old(ui).responses(),
{
    ui.section_end();
}

fn opaque_field_row(ui: &mut Ui, plan: &FieldPlan)
    ensures
        final(ui).drawn() == old(ui).drawn() + opaque_row(plan.label@, plan.doc@),
        final(ui).responses() == old(ui).responses(),
{
    ui.row_begin();
    let mut text = plan.label.clone();
    text.append(" <opaque>");
    ui.hint_label(text, plan.doc.clone());
    ui.row_end();
    proof {
        assert(final(ui).drawn() =~= old(ui).drawn() + opaque_row(plan.label@, plan.doc@));
    }
}

/// Renders the row of a field read-only, as its plan says. The field renders
/// itself with its position as its identity; an opaque field is named and
/// nothing more.
pub fn field_row<T: Inspect>(ui: &mut Ui, plan: &FieldPlan, value: &T)
    requires
        !(plan.kind is WithFn),
    ensures
        final(ui).drawn() == old(ui).drawn() + (if plan.kind is Opaque {
            opaque_row(plan.label@, plan.doc@)
        } else {
            field_head(plan.label@, plan.doc@, T::debug_of(value.model())) + T::shown(
                value.model(),
                item_id(plan.position as int),
            ) + seq![Drawn::RowEnd]
        }),
        final(ui).responses() == old(ui).responses(),
{
    match &plan.kind {
        FieldInspectKind::Opaque => {
            opaque_field_row(ui, plan);
        },
        _ => {
            ui.row_begin();
            let copy = value.debug_text();
            ui.copy_label(plan.label.clone(), plan.doc.clone(), copy);
            value.inspect(ui, plan.position as u64);
            ui.row_end();
            proof {
                assert(final(ui).drawn() =~= old(ui).drawn() + field_head(
                    plan.label@,
                    plan.doc@,
                    T::debug_of(value.model()),
                ) + T::shown(value.model(), item_id(plan.position as int)) + seq![Drawn::RowEnd]);
            }
        },
    }
}

/// Renders the row of a field for editing, as its plan says. The field edits
/// itself with its position as its identity; an opaque field is named, left
/// as it is, and never rendered, whatever its type.
pub fn field_row_mut<T: Inspect>(ui: &mut Ui, plan: &FieldPlan, value: &mut T)
    requires
        !(plan.kind is WithFn),
    ensures
        plan.kind is Opaque ==> {
            &&& *final(value) == *old(value)
            &&& final(ui).drawn() == old(ui).drawn() + opaque_row(plan.label@, plan.doc@)
        },
        plan.kind is Auto ==> {
            let e = T::edited(old(value).model(), old(ui).responses(), old(ui).pos() + 2, item_id(plan.position as int));
            &&& final(value).model() == e.0
            &&& final(ui).drawn() == old(ui).drawn() + field_head(
                plan.label@,
                plan.doc@,
                T::debug_of(old(value).model()),
            ) + e.1 + seq![Drawn::RowEnd]
        },
        final(ui).responses() == old(ui).responses(),
{
    match &plan.kind {
        FieldInspectKind::Opaque => {
            opaque_field_row(ui, plan);
        },
        _ => {
            ui.row_begin();
            let copy = value.debug_text();
            ui.copy_label(plan.label.clone(), plan.doc.clone(), copy);
            value.inspect_mut(ui, plan.position as u64);
            ui.row_end();
            proof {
                let e = T::edited(old(value).model(), old(ui).responses(), old(ui).pos() + 2, item_id(plan.position as int));
                assert(final(ui).drawn() =~= old(ui).drawn() + field_head(
                    plan.label@,
                    plan.doc@,
                    T::debug_of(old(value).model()),
                ) + e.1 + seq![Drawn::RowEnd]);
            }
        },
    }
}

/// Starts the row of a field that a named function renders: the caller then
/// calls that function with the field, the frame and the identity
/// `plan.position`, and closes the row with [`Ui::row_end`].
pub fn custom_row_head(ui: &mut Ui, plan: &FieldPlan)
    ensures
        final(ui).drawn() == old(ui).drawn() + custom_head(plan.label@, plan.doc@),
        final(ui).responses() == old(ui).responses(),
{
    ui.row_begin();
    ui.hint_label(plan.label.clone(), plan.doc.clone());
    proof {
        assert(final(ui).drawn() =~= old(ui).drawn() + custom_head(plan.label@, plan.doc@));
    }
}

/// Draws the variant selector of an enum read-only, with variant `current`
/// highlighted.
pub fn variant_row(ui: &mut Ui, id: u64, name: &String, variants: &Vec<String>, current: usize)
    ensures
        final(ui).drawn() == old(ui).drawn() + variant_shown(
            id,
            name@,
            crate::ui::texts(variants@),
            current as nat,
        ),
        final(ui).responses() == old(ui).responses(),
{
    let _ = ui.combo(id, name.clone(), current, variants.clone());
    proof {
        assert(final(ui).drawn() =~= old(ui).drawn() + variant_shown(
            id,
            name@,
            crate::ui::texts(variants@),
            current as nat,
        ));
    }
}

/// Draws the variant selector of an enum with variant `current` highlighted
/// and returns the variant that the value holds now: the one chosen in the
/// list, or `current` when none was.
pub fn variant_row_mut(ui: &mut Ui, id: u64, name: &String, variants: &Vec<String>, current: usize) -> (r: usize)
    ensures
        r as nat == crate::ui::pick_after(old(ui).next_response(), current as nat, variants@.len()),
        final(ui).drawn() == old(ui).drawn() + variant_shown(
            id,
            name@,
            crate::ui::texts(variants@),
            current as nat,
        ),
        final(ui).responses() == old(ui).responses(),
{
    let r = ui.combo(id, name.clone(), current, variants.clone());
    proof {
        assert(final(ui).drawn() =~= old(ui).drawn() + variant_shown(
            id,
            name@,
            crate::ui::texts(variants@),
            current as nat,
        ));
    }
    r
}
} // verus!
