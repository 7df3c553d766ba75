use egui_inspect::collections::{inspect_map, inspect_map_mut, inspect_set};
use egui_inspect::inspect::Inspect;
use egui_inspect::ui::{Input, Ui, Widget};
use std::collections::{HashMap, HashSet};

fn s(t: &str) -> String {
    t.to_string()
}

#[test]
fn array_has_no_buttons_and_edits_elements() {
    let mut a = [1i16, 2, 3];
    // section, then per element: row, index label, drag value, row end
    let mut ui = Ui::new(vec![Input::Idle, Input::Idle, Input::Idle, Input::Idle, Input::Idle, Input::Idle, Input::Idle, Input::Number(-7)]);
    a.inspect_mut(&mut ui, 2);
    assert_eq!(a, [1, -7, 3]);
    let w = ui.into_widgets();
    assert_eq!(w[0], Widget::SectionBegin { title: s("array[3]"), id: 2 });
    assert_eq!(w.len(), 1 + 3 * 4 + 1);
    assert_eq!(a.debug_text(), "[1, -7, 3]");
}

#[test]
fn map_title_counts_entries() {
    let mut m: HashMap<String, u32> = HashMap::new();
    m.insert(s("a"), 1);
    m.insert(s("b"), 2);
    m.insert(s("c"), 3);
    let mut ui = Ui::new(vec![]);
    inspect_map(&mut ui, &m, 9);
    let w = ui.into_widgets();
    assert_eq!(w[0], Widget::SectionBegin { title: s("HashMap [3]"), id: 9 });
    assert_eq!(w.last(), Some(&Widget::SectionEnd));
    let mut rows = 0;
    let mut ids = Vec::new();
    for (i, x) in w.iter().enumerate() {
        if let Widget::CopyLabel { text, copy, .. } = x {
            rows += 1;
            assert_eq!(copy, text);
            let key: String = text.trim_matches('"').to_string();
            assert_eq!(w[i + 1], Widget::Label(m[&key].to_string()));
            ids.push(i);
        }
    }
    assert_eq!(rows, 3);
    let mut empty = Ui::new(vec![]);
    inspect_map(&mut empty, &HashMap::<u8, u8>::new(), 0);
    assert_eq!(
        empty.into_widgets(),
        vec![Widget::SectionBegin { title: s("HashMap [0]"), id: 0 }, Widget::SectionEnd]
    );
}

#[test]
fn set_title_counts_elements() {
    let set: HashSet<u8> = [4u8, 5, 6, 7].into_iter().collect();
    let mut ui = Ui::new(vec![]);
    inspect_set(&mut ui, &set, 1);
    let w = ui.into_widgets();
    assert_eq!(w[0], Widget::SectionBegin { title: s("HashSet [4]"), id: 1 });
    assert_eq!(w.len(), 6);
    let mut seen: Vec<String> = w[1..5]
        .iter()
        .map(|x| match x {
            Widget::Label(t) => t.clone(),
            other => panic!("unexpected widget {:?}", other),
        })
        .collect();
    seen.sort();
    assert_eq!(seen, vec![s("4"), s("5"), s("6"), s("7")]);
}

#[test]
fn map_key_label_copies_the_key() {
    let mut m: HashMap<bool, u8> = HashMap::new();
    m.insert(true, 5);
    let mut ui = Ui::new(vec![]);
    inspect_map(&mut ui, &m, 0);
    assert_eq!(
        ui.into_widgets(),
        vec![
            Widget::SectionBegin { title: s("HashMap [1]"), id: 0 },
            Widget::RowBegin,
            Widget::CopyLabel { text: s("true"), hover: None, copy: s("true") },
            Widget::Label(s("5")),
            Widget::RowEnd,
            Widget::SectionEnd,
        ]
    );
}

#[test]
fn map_values_are_edited_in_place() {
    let mut m: HashMap<u8, String> = HashMap::new();
    m.insert(1, s("one"));
    m.insert(2, s("two"));
    // section, then per entry: row, key label, text edit, row end
    let mut ui = Ui::new(vec![]);
    inspect_map_mut(&mut ui, &mut m, 3);
    let first = ui.into_widgets();
    assert_eq!(first[0], Widget::SectionBegin { title: s("HashMap [2]"), id: 3 });
    assert_eq!(first.len(), 1 + 2 * 4 + 1);
    let first_key = match &first[2] {
        Widget::CopyLabel { text, copy, .. } => {
            assert_eq!(text, copy);
            text.parse::<u8>().unwrap()
        }
        other => panic!("unexpected widget {:?}", other),
    };
    let mut input = vec![Input::Idle; 3];
    input.push(Input::Text(s("edited")));
    let mut again = Ui::new(input);
    inspect_map_mut(&mut again, &mut m, 3);
    assert_eq!(m.len(), 2);
    assert_eq!(m[&first_key], "edited");
    let other = if first_key == 1 { 2 } else { 1 };
    assert_eq!(m[&other], if other == 1 { "one" } else { "two" });
    assert_eq!(again.widgets()[3], Widget::TextEdit(s("edited")));
}
