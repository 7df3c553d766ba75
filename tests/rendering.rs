use egui_inspect::derive::{
    custom_row_head, derive_inspect, doc_comment_string, field_row, field_row_mut, inspect_kind,
    struct_begin, struct_end, variant_row, variant_row_mut, Attr, DeriveError, Derived,
    FieldInspectKind, FieldPlan, FieldShape, ShapeData, TypeShape, VariantShape,
};
use egui_inspect::inspect::Inspect;
use egui_inspect::ui::{Input, Ui, Widget};
use egui_inspect::ui_ext::{inspect_iter_with, inspect_iter_with_mut, UiExt};
use std::marker::PhantomData;

fn s(t: &str) -> String {
    t.to_string()
}

fn copy_label(text: &str, hover: Option<&str>, copy: &str) -> Widget {
    Widget::CopyLabel { text: s(text), hover: hover.map(s), copy: s(copy) }
}

fn field(name: &str) -> FieldShape {
    FieldShape { name: Some(s(name)), attrs: vec![], docs: vec![] }
}

fn attr(name: &str, arg: Option<&str>) -> Attr {
    Attr { name: s(name), arg: arg.map(s) }
}

fn plan(label: &str) -> FieldPlan {
    FieldPlan { position: 0, label: s(label), kind: FieldInspectKind::Auto, doc: String::new() }
}

#[test]
fn integer_renders_as_decimal_label() {
    let mut ui = Ui::new(vec![]);
    (-42i32).inspect(&mut ui, 0);
    i8::MIN.inspect(&mut ui, 0);
    u64::MAX.inspect(&mut ui, 0);
    0usize.inspect(&mut ui, 0);
    assert_eq!(
        ui.into_widgets(),
        vec![
            Widget::Label(s("-42")),
            Widget::Label(s("-128")),
            Widget::Label(s("18446744073709551615")),
            Widget::Label(s("0")),
        ]
    );
}

#[test]
fn drag_value_is_clamped_to_the_type() {
    let mut ui = Ui::new(vec![Input::Number(300), Input::Number(-5), Input::Idle]);
    let mut a: u8 = 7;
    let mut b: i64 = 3;
    let mut c: u16 = 9;
    a.inspect_mut(&mut ui, 0);
    b.inspect_mut(&mut ui, 0);
    c.inspect_mut(&mut ui, 0);
    assert_eq!(a, 255);
    assert_eq!(b, -5);
    assert_eq!(c, 9);
    assert_eq!(
        ui.into_widgets(),
        vec![Widget::DragValue(255), Widget::DragValue(-5), Widget::DragValue(9)]
    );
}

#[test]
fn text_edit_and_checkbox_take_their_responses() {
    let mut ui = Ui::new(vec![Input::Text(s("new")), Input::Check(true), Input::Click]);
    let mut t = s("old");
    let mut b = false;
    let mut c = true;
    t.inspect_mut(&mut ui, 0);
    b.inspect_mut(&mut ui, 0);
    c.inspect_mut(&mut ui, 0);
    assert_eq!(t, "new");
    assert!(b);
    assert!(c);
    assert_eq!(
        ui.into_widgets(),
        vec![Widget::TextEdit(s("new")), Widget::Checkbox(true), Widget::Checkbox(true)]
    );
}

#[test]
fn read_only_checkbox_ignores_its_response() {
    let mut ui = Ui::new(vec![Input::Check(true)]);
    let b = false;
    b.inspect(&mut ui, 0);
    assert_eq!(ui.into_widgets(), vec![Widget::Checkbox(false)]);
}

#[test]
fn debug_texts() {
    assert_eq!(s("a\"b").debug_text(), "\"a\\\"b\"");
    assert_eq!(vec![1u8, 2, 3].debug_text(), "[1, 2, 3]");
    assert_eq!(Vec::<u8>::new().debug_text(), "[]");
    assert_eq!(Some(true).debug_text(), "Some(true)");
    assert_eq!(None::<u8>.debug_text(), "None");
    assert_eq!((1i32, s("x")).debug_text(), "(1, \"x\")");
    assert_eq!(().debug_text(), "()");
    assert_eq!(vec![s("a"), s("b")].debug_text(), "[\"a\", \"b\"]");
}

#[test]
fn option_delegates_with_the_same_identity() {
    let mut ui = Ui::new(vec![]);
    Inspect::inspect(&Some(vec![5u8]), &mut ui, 7);
    Inspect::inspect(&None::<u8>, &mut ui, 7);
    assert_eq!(
        ui.into_widgets(),
        vec![
            Widget::SectionBegin { title: s("Vec [1]"), id: 7 },
            Widget::RowBegin,
            copy_label("0", None, "5"),
            Widget::Label(s("5")),
            Widget::RowEnd,
            Widget::SectionEnd,
            Widget::Label(s("None")),
        ]
    );
}

#[test]
fn pair_and_box_render_in_order() {
    let mut ui = Ui::new(vec![Input::Idle, Input::Text(s("z"))]);
    let mut p = (Box::new(3u32), s("y"));
    p.inspect_mut(&mut ui, 1);
    assert_eq!(*p.0, 3);
    assert_eq!(p.1, "z");
    assert_eq!(ui.into_widgets(), vec![Widget::DragValue(3), Widget::TextEdit(s("z"))]);
}

#[test]
fn vec_rows_carry_index_and_debug_text() {
    let mut ui = Ui::new(vec![]);
    vec![s("a"), s("b")].inspect(&mut ui, 3);
    assert_eq!(
        ui.into_widgets(),
        vec![
            Widget::SectionBegin { title: s("Vec [2]"), id: 3 },
            Widget::RowBegin,
            copy_label("0", None, "\"a\""),
            Widget::Label(s("a")),
            Widget::RowEnd,
            Widget::RowBegin,
            copy_label("1", None, "\"b\""),
            Widget::Label(s("b")),
            Widget::RowEnd,
            Widget::SectionEnd,
        ]
    );
}

#[test]
fn vec_append_button_pushes_a_default_element() {
    let mut ui = Ui::new(vec![Input::Click]);
    let mut v = vec![4i32];
    v.inspect_mut(&mut ui, 0);
    assert_eq!(v, vec![4, 0]);
    let w = ui.into_widgets();
    assert_eq!(w[0], Widget::Button(s("+")));
    assert_eq!(w[1], Widget::Button(s("Clear")));
    assert_eq!(w[2], Widget::SectionBegin { title: s("Vec [2]"), id: 0 });
    assert_eq!(w.len(), 3 + 4 * 2 + 1);
}

#[test]
fn vec_of_text_slices_appends_empty_ones() {
    let mut ui = Ui::new(vec![Input::Click]);
    let mut v: Vec<&str> = vec!["x"];
    v.inspect_mut(&mut ui, 0);
    assert_eq!(v, vec!["x", ""]);
}

#[test]
fn vec_without_default_has_no_append_button() {
    let mut ui = Ui::new(vec![]);
    let mut v: Vec<[u8; 1]> = vec![[7]];
    v.inspect_mut(&mut ui, 0);
    let w = ui.into_widgets();
    assert_eq!(w[0], Widget::Button(s("Clear")));
    assert_eq!(w[1], Widget::SectionBegin { title: s("Vec [1]"), id: 0 });
}

#[test]
fn vec_clear_empties_the_sequence() {
    for n in 0..4usize {
        let mut v: Vec<u32> = (0..n as u32).collect();
        let mut ui = Ui::new(vec![Input::Idle, Input::Click]);
        v.inspect_mut(&mut ui, 0);
        assert!(v.is_empty());
        assert_eq!(
            ui.into_widgets(),
            vec![
                Widget::Button(s("+")),
                Widget::Button(s("Clear")),
                Widget::SectionBegin { title: s("Vec [0]"), id: 0 },
                Widget::SectionEnd,
            ]
        );
        let mut next = Ui::new(vec![]);
        v.inspect(&mut next, 0);
        assert_eq!(next.widgets()[0], Widget::SectionBegin { title: s("Vec [0]"), id: 0 });
    }
}

#[test]
fn vec_edits_reach_nested_elements() {
    // + , Clear, section, row, index label, then the element's drag value
    let input = vec![Input::Idle, Input::Idle, Input::Idle, Input::Idle, Input::Idle, Input::Number(9)];
    let mut ui = Ui::new(input);
    let mut v = vec![1u8, 2];
    v.inspect_mut(&mut ui, 0);
    assert_eq!(v, vec![9, 2]);
}

#[test]
fn sibling_identities_are_distinct_at_depth_three() {
    let v: Vec<Vec<Vec<u8>>> = vec![vec![vec![1], vec![2]], vec![vec![3], vec![4], vec![5]]];
    let mut ui = Ui::new(vec![]);
    v.inspect(&mut ui, 100);
    // Collect the identities of the sections opened directly under each open section.
    let mut stack: Vec<Vec<u64>> = vec![vec![]];
    let mut groups: Vec<Vec<u64>> = vec![];
    for w in ui.widgets() {
        match w {
            Widget::SectionBegin { id, .. } => {
                stack.last_mut().unwrap().push(*id);
                stack.push(vec![]);
            }
            Widget::SectionEnd => groups.push(stack.pop().unwrap()),
            _ => {}
        }
    }
    groups.push(stack.pop().unwrap());
    assert!(groups.iter().any(|g| g.len() == 3));
    for g in &groups {
        for i in 0..g.len() {
            for j in i + 1..g.len() {
                assert_ne!(g[i], g[j]);
            }
        }
    }
    assert_eq!(groups.last().unwrap(), &vec![100]);
}

#[test]
fn read_only_types_render_alike_under_both_operations() {
    let mut a = Ui::new(vec![Input::Click, Input::Click, Input::Click]);
    let mut b = Ui::new(vec![Input::Click, Input::Click, Input::Click]);
    let mut unit = ();
    let mut marker: PhantomData<String> = PhantomData;
    let mut text: &str = "hi";
    unit.inspect(&mut a, 0);
    marker.inspect(&mut a, 1);
    text.inspect(&mut a, 2);
    unit.inspect_mut(&mut b, 0);
    marker.inspect_mut(&mut b, 1);
    text.inspect_mut(&mut b, 2);
    let wa = a.into_widgets();
    assert_eq!(wa, b.into_widgets());
    assert_eq!(
        wa,
        vec![Widget::Label(s("()")), Widget::Label(s("PhantomData")), copy_label("hi", None, "hi")]
    );
    assert_eq!(text, "hi");
}

#[test]
fn counter_advances_once_per_call() {
    let mut ui = Ui::new(vec![]);
    let mut id: u64 = 0;
    let v = vec![1u8];
    let w = vec![2u8];
    UiExt::inspect(&mut ui, &v, &mut id);
    UiExt::inspect(&mut ui, &w, &mut id);
    assert_eq!(id, 2);
    let ids: Vec<u64> = ui
        .widgets()
        .iter()
        .filter_map(|w| match w {
            Widget::SectionBegin { id, .. } => Some(*id),
            _ => None,
        })
        .collect();
    assert_eq!(ids, vec![0, 1]);
}

#[test]
fn property_rows_share_one_counter() {
    let mut ui = Ui::new(vec![Input::Idle, Input::Idle, Input::Text(s("x"))]);
    let mut id: u64 = 0;
    let mut name = s("n");
    let mut count = 3i32;
    ui.property_mut("name", &mut name, &mut id);
    ui.property_mut("count", &mut count, &mut id);
    assert_eq!(id, 2);
    assert_eq!(name, "x");
    assert_eq!(
        ui.into_widgets(),
        vec![
            Widget::RowBegin,
            copy_label("name", None, "\"n\""),
            Widget::TextEdit(s("x")),
            Widget::RowEnd,
            Widget::RowBegin,
            copy_label("count", None, "3"),
            Widget::DragValue(3),
            Widget::RowEnd,
        ]
    );
}

#[test]
fn inspect_kind_first_directive_decides() {
    assert_eq!(inspect_kind(&vec![]), Some(FieldInspectKind::Auto));
    assert_eq!(inspect_kind(&vec![attr("allow", Some("dead_code"))]), Some(FieldInspectKind::Auto));
    assert_eq!(
        inspect_kind(&vec![attr("doc", None), attr("opaque", None), attr("inspect_with", Some("f"))]),
        Some(FieldInspectKind::Opaque)
    );
    assert_eq!(
        inspect_kind(&vec![attr("inspect_with", Some("f")), attr("opaque", None)]),
        Some(FieldInspectKind::WithFn(s("f")))
    );
    assert_eq!(inspect_kind(&vec![attr("inspect_with", None)]), None);
}

#[test]
fn doc_comment_lines_are_joined_and_trimmed() {
    assert_eq!(doc_comment_string(&vec![]), "");
    assert_eq!(doc_comment_string(&vec![s(" First"), s(" second  ")]), " First\n second");
    assert_eq!(doc_comment_string(&vec![s("   ")]), "");
    assert_eq!(doc_comment_string(&vec![s("wide\u{3000}\u{85}\u{a0}")]), "wide");
    assert_eq!(doc_comment_string(&vec![s("kept\u{200b}")]), "kept\u{200b}");
}

#[test]
fn derive_struct_plans_fields_in_order() {
    let shape = TypeShape {
        name: s("Abc"),
        data: ShapeData::Struct(vec![field("a"), field("b"), field("c")]),
    };
    let derived = derive_inspect(&shape, &vec![]).unwrap();
    let fields = match &derived {
        Derived::Struct { name, fields } => {
            assert_eq!(name, "Abc");
            fields.clone()
        }
        _ => panic!("expected a struct plan"),
    };
    let labels: Vec<&str> = fields.iter().map(|f| f.label.as_str()).collect();
    assert_eq!(labels, vec!["a", "b", "c"]);
    let (a, b, c) = (1u8, 2u8, 3u8);
    let mut ui = Ui::new(vec![]);
    struct_begin(&mut ui, &s("Abc"), 0);
    field_row(&mut ui, &fields[0], &a);
    field_row(&mut ui, &fields[1], &b);
    field_row(&mut ui, &fields[2], &c);
    struct_end(&mut ui);
    let emitted: Vec<String> = ui
        .widgets()
        .iter()
        .filter_map(|w| match w {
            Widget::CopyLabel { text, .. } => Some(text.clone()),
            _ => None,
        })
        .collect();
    assert_eq!(emitted, vec![s("a"), s("b"), s("c")]);
    let positions: Vec<usize> = fields.iter().map(|f| f.position).collect();
    assert_eq!(positions, vec![0, 1, 2]);
}

#[test]
fn derive_positional_fields_are_labelled_by_position() {
    let shape = TypeShape {
        name: s("Tuple"),
        data: ShapeData::Struct(vec![
            FieldShape { name: None, attrs: vec![], docs: vec![s(" the count")] },
            FieldShape { name: None, attrs: vec![attr("opaque", None)], docs: vec![] },
        ]),
    };
    let derived = derive_inspect(&shape, &vec![]).unwrap();
    assert_eq!(
        derived,
        Derived::Struct {
            name: s("Tuple"),
            fields: vec![
                FieldPlan { position: 0, label: s("0"), kind: FieldInspectKind::Auto, doc: s(" the count") },
                FieldPlan { position: 1, label: s("1"), kind: FieldInspectKind::Opaque, doc: s("") },
            ],
        }
    );
}

#[test]
fn derive_refusals() {
    let union = TypeShape { name: s("U"), data: ShapeData::Union };
    assert_eq!(derive_inspect(&union, &vec![]), Err(DeriveError::Union));
    let en = TypeShape {
        name: s("E"),
        data: ShapeData::Enum(vec![
            VariantShape { name: s("A"), carries_data: false },
            VariantShape { name: s("B"), carries_data: true },
            VariantShape { name: s("C"), carries_data: true },
        ]),
    };
    assert_eq!(derive_inspect(&en, &vec![]), Err(DeriveError::DataVariant(1)));
    let missing = TypeShape {
        name: s("M"),
        data: ShapeData::Struct(vec![
            field("a"),
            FieldShape { name: Some(s("b")), attrs: vec![attr("inspect_with", None)], docs: vec![] },
        ]),
    };
    assert_eq!(derive_inspect(&missing, &vec![]), Err(DeriveError::MissingFnName(1)));
    let unknown = TypeShape {
        name: s("M"),
        data: ShapeData::Struct(vec![FieldShape {
            name: Some(s("b")),
            attrs: vec![attr("inspect_with", Some("nowhere"))],
            docs: vec![],
        }]),
    };
    assert_eq!(derive_inspect(&unknown, &vec![s("custom_inspect")]), Err(DeriveError::UnknownFn(0)));
    let known = derive_inspect(&unknown, &vec![s("other"), s("nowhere")]).unwrap();
    match known {
        Derived::Struct { fields, .. } => assert_eq!(fields[0].kind, FieldInspectKind::WithFn(s("nowhere"))),
        _ => panic!("expected a struct plan"),
    }
}

#[test]
fn derive_enum_lists_variants() {
    let en = TypeShape {
        name: s("Dir"),
        data: ShapeData::Enum(vec![
            VariantShape { name: s("North"), carries_data: false },
            VariantShape { name: s("East"), carries_data: false },
        ]),
    };
    assert_eq!(
        derive_inspect(&en, &vec![]),
        Ok(Derived::Enum { name: s("Dir"), variants: vec![s("North"), s("East")] })
    );
}

#[test]
fn opaque_field_is_never_rendered() {
    let p = FieldPlan { position: 4, label: s("secret"), kind: FieldInspectKind::Opaque, doc: s("hidden") };
    let mut value = vec![1u8, 2, 3];
    let mut ui = Ui::new(vec![Input::Click, Input::Click, Input::Click, Input::Number(9)]);
    field_row_mut(&mut ui, &p, &mut value);
    assert_eq!(value, vec![1, 2, 3]);
    assert_eq!(
        ui.into_widgets(),
        vec![
            Widget::RowBegin,
            Widget::HintLabel { text: s("secret <opaque>"), hover: Some(s("hidden")) },
            Widget::RowEnd,
        ]
    );
}

#[test]
fn field_help_is_omitted_when_empty() {
    let mut ui = Ui::new(vec![]);
    field_row(&mut ui, &plan("hp"), &10i32);
    let with_doc = FieldPlan { position: 0, label: s("hp"), kind: FieldInspectKind::Auto, doc: s("health") };
    field_row(&mut ui, &with_doc, &10i32);
    let custom = FieldPlan { position: 2, label: s("c"), kind: FieldInspectKind::WithFn(s("f")), doc: s("") };
    custom_row_head(&mut ui, &custom);
    let w = ui.into_widgets();
    assert_eq!(w[1], copy_label("hp", None, "10"));
    assert_eq!(w[5], copy_label("hp", Some("health"), "10"));
    assert_eq!(w[9], Widget::HintLabel { text: s("c"), hover: None });
}

#[test]
fn variant_selection_replaces_the_value() {
    let variants = vec![s("North"), s("East"), s("South"), s("West")];
    let name = s("Dir");
    let mut ui = Ui::new(vec![Input::Pick(2)]);
    let current = variant_row_mut(&mut ui, 5, &name, &variants, 0);
    assert_eq!(current, 2);
    assert_eq!(
        ui.into_widgets()[0],
        Widget::Combo { id: 5, title: s("Dir"), selected: 0, options: variants.clone() }
    );
    let mut next = Ui::new(vec![]);
    variant_row(&mut next, 5, &name, &variants, current);
    assert_eq!(
        next.into_widgets(),
        vec![Widget::Combo { id: 5, title: s("Dir"), selected: 2, options: variants.clone() }]
    );
    let mut bad = Ui::new(vec![Input::Pick(9)]);
    assert_eq!(variant_row_mut(&mut bad, 5, &name, &variants, 1), 1);
}

#[test]
fn struct_edit_then_read_shows_new_values() {
    let shape = TypeShape {
        name: s("Entity"),
        data: ShapeData::Struct(vec![field("name"), field("hp")]),
    };
    let fields = match derive_inspect(&shape, &vec![]).unwrap() {
        Derived::Struct { fields, .. } => fields,
        _ => panic!("expected a struct plan"),
    };
    let mut name = s("Ann");
    let mut hp: i32 = 10;
    // section, row, label, text edit, row end, row, label, drag value
    let input = vec![
        Input::Idle,
        Input::Idle,
        Input::Idle,
        Input::Text(s("Bob")),
        Input::Idle,
        Input::Idle,
        Input::Idle,
        Input::Number(42),
    ];
    let mut ui = Ui::new(input);
    struct_begin(&mut ui, &s("Entity"), 0);
    field_row_mut(&mut ui, &fields[0], &mut name);
    field_row_mut(&mut ui, &fields[1], &mut hp);
    struct_end(&mut ui);
    assert_eq!(name, "Bob");
    assert_eq!(hp, 42);
    let mut view = Ui::new(vec![]);
    struct_begin(&mut view, &s("Entity"), 0);
    field_row(&mut view, &fields[0], &name);
    field_row(&mut view, &fields[1], &hp);
    struct_end(&mut view);
    let w = view.into_widgets();
    assert!(w.contains(&Widget::Label(s("Bob"))));
    assert!(w.contains(&Widget::Label(s("42"))));
}

#[test]
fn fields_render_with_their_position_as_identity() {
    let shape = TypeShape {
        name: s("Pair"),
        data: ShapeData::Struct(vec![field("left"), field("right")]),
    };
    let fields = match derive_inspect(&shape, &vec![]).unwrap() {
        Derived::Struct { fields, .. } => fields,
        _ => panic!("expected a struct plan"),
    };
    let left = vec![1u8];
    let right = vec![2u8];
    let mut ui = Ui::new(vec![]);
    struct_begin(&mut ui, &s("Pair"), 7);
    field_row(&mut ui, &fields[0], &left);
    field_row(&mut ui, &fields[1], &right);
    struct_end(&mut ui);
    let ids: Vec<u64> = ui
        .widgets()
        .iter()
        .filter_map(|w| match w {
            Widget::SectionBegin { id, .. } => Some(*id),
            _ => None,
        })
        .collect();
    assert_eq!(ids, vec![7, 0, 1]);
}

#[test]
fn iter_with_wraps_the_items_in_one_section() {
    let items = vec![3u8, 4];
    let mut ui = Ui::new(vec![]);
    let mut id: u64 = 5;
    inspect_iter_with(&mut ui, "list", &items, &mut id, |ui: &mut Ui, i: usize, item: &u8, _id: &mut u64| {
        item.inspect(ui, i as u64);
    });
    assert_eq!(
        ui.into_widgets(),
        vec![
            Widget::SectionBegin { title: s("list"), id: 5 },
            Widget::Label(s("3")),
            Widget::Label(s("4")),
            Widget::SectionEnd,
        ]
    );
    let mut values = vec![1i32, 2];
    let mut edit = Ui::new(vec![Input::Idle, Input::Idle, Input::Number(20)]);
    inspect_iter_with_mut(&mut edit, "list", &mut values, &mut id, |ui: &mut Ui, i: usize, item: &mut i32, _id: &mut u64| {
        item.inspect_mut(ui, i as u64);
    });
    assert_eq!(values, vec![1, 20]);
}
