//! The frame model: the widgets that a rendering draws, in order, and the
//! responses that the toolkit reported for them.
//!
//! A response is matched to a widget by the widget's position in the frame: the
//! toolkit draws the widgets of one frame, gathers what the user did to each
//! (a click, new text, a dragged number), and hands that list to the next frame.
use vstd::prelude::*;

verus! {

/// One widget drawn in a frame.
#[derive(Debug, Clone, PartialEq)]
pub enum Widget {
    /// A line of text.
    Label(String),
    /// A line of text with help shown on hover; the help is never empty.
    HintLabel { text: String, hover: Option<String> },
    /// A label that copies `copy` to the clipboard when clicked; `hover`, when
    /// present, is help text shown on hover and is never empty.
    CopyLabel { text: String, hover: Option<String>, copy: String },
    /// A single-line text edit showing the given text.
    TextEdit(String),
    /// A checkbox showing the given state.
    Checkbox(bool),
    /// A number editable by dragging, showing the given value.
    DragValue(i128),
    /// A button with the given caption.
    Button(String),
    /// Opens a collapsible section with a title and an identity.
    SectionBegin { title: String, id: u64 },
    /// Closes the innermost open section.
    SectionEnd,
    /// Opens a horizontal row.
    RowBegin,
    /// Closes the innermost open row.
    RowEnd,
    /// A drop-down list of `options`, with `selected` highlighted.
    Combo { id: u64, title: String, selected: usize, options: Vec<String> },
}

/// What the user did to one widget in the previous frame.
#[derive(Debug, Clone, PartialEq)]
pub enum Input {
    /// Nothing.
    Idle,
    /// The widget was clicked.
    Click,
    /// A text edit now holds this text.
    Text(String),
    /// A drag value was dragged to this number.
    Number(i128),
    /// A checkbox was set to this state.
    Check(bool),
    /// This option of a drop-down list was chosen.
    Pick(usize),
}

/// The mathematical form of a widget.
pub enum Drawn {
    Label(Seq<char>),
    HintLabel { text: Seq<char>, hover: Option<Seq<char>> },
    CopyLabel { text: Seq<char>, hover: Option<Seq<char>>, copy: Seq<char> },
    TextEdit(Seq<char>),
    Checkbox(bool),
    DragValue(int),
    Button(Seq<char>),
    SectionBegin { title: Seq<char>, id: u64 },
    SectionEnd,
    RowBegin,
    RowEnd,
    Combo { id: u64, title: Seq<char>, selected: nat, options: Seq<Seq<char>> },
}

/// The mathematical form of a response.
pub enum Response {
    Idle,
    Click,
    Text(Seq<char>),
    Number(int),
    Check(bool),
    Pick(nat),
}

pub open spec fn opt_text(o: Option<String>) -> Option<Seq<char>> {
    match o {
        Some(s) => Some(s@),
        None => None,
    }
}

pub open spec fn texts(v: Seq<String>) -> Seq<Seq<char>> {
    v.map_values(|s: String| s@)
}

impl Widget {
    pub open spec fn view(&self) -> Drawn {
        match self {
            Widget::Label(t) => Drawn::Label(t@),
            Widget::HintLabel { text, hover } => Drawn::HintLabel {
                text: text@,
                hover: opt_text(*hover),
            },
            Widget::CopyLabel { text, hover, copy } => Drawn::CopyLabel {
                text: text@,
                hover: opt_text(*hover),
                copy: copy@,
            },
            Widget::TextEdit(t) => Drawn::TextEdit(t@),
            Widget::Checkbox(b) => Drawn::Checkbox(*b),
            Widget::DragValue(n) => Drawn::DragValue(*n as int),
            Widget::Button(t) => Drawn::Button(t@),
            Widget::SectionBegin { title, id } => Drawn::SectionBegin { title: title@, id: *id },
            Widget::SectionEnd => Drawn::SectionEnd,
            Widget::RowBegin => Drawn::RowBegin,
            Widget::RowEnd => Drawn::RowEnd,
            Widget::Combo { id, title, selected, options } => Drawn::Combo {
                id: *id,
                title: title@,
                selected: *selected as nat,
                options: texts(options@),
            },
        }
    }
}

impl Input {
    pub open spec fn view(&self) -> Response {
        match self {
            Input::Idle => Response::Idle,
            Input::Click => Response::Click,
            Input::Text(t) => Response::Text(t@),
            Input::Number(n) => Response::Number(*n as int),
            Input::Check(b) => Response::Check(*b),
            Input::Pick(i) => Response::Pick(*i as nat),
        }
    }

    /// A copy of this response.
    pub fn duplicate(&self) -> (r: Input)
        ensures
            r.view() == self.view(),
    {
        match self {
            Input::Idle => Input::Idle,
            Input::Click => Input::Click,
            Input::Text(t) => Input::Text(t.clone()),
            Input::Number(n) => Input::Number(*n),
            Input::Check(b) => Input::Check(*b),
            Input::Pick(i) => Input::Pick(*i),
        }
    }
}

/// The response given to the widget at position `k`: `Idle` past the end.
pub open spec fn response_at(rs: Seq<Response>, k: int) -> Response {
    if 0 <= k < rs.len() {
        rs[k]
    } else {
        Response::Idle
    }
}

/// Whether the widget at position `k` was clicked.
pub open spec fn clicked_at(rs: Seq<Response>, k: int) -> bool {
    response_at(rs, k) is Click
}

/// The text of a text edit after the response `r`.
pub open spec fn text_after(r: Response, cur: Seq<char>) -> Seq<char> {
    match r {
        Response::Text(t) => t,
        _ => cur,
    }
}

/// The state of a checkbox after the response `r`.
pub open spec fn flag_after(r: Response, cur: bool) -> bool {
    match r {
        Response::Check(b) => b,
        _ => cur,
    }
}

/// `n` brought into `[lo, hi]`.
pub open spec fn clamp(n: int, lo: int, hi: int) -> int {
    if n < lo {
        lo
    } else if n > hi {
        hi
    } else {
        n
    }
}

/// The value of a drag value with bounds `[lo, hi]` after the response `r`.
pub open spec fn number_after(r: Response, cur: int, lo: int, hi: int) -> int {
    match r {
        Response::Number(n) => clamp(n, lo, hi),
        _ => cur,
    }
}

/// The chosen option of a drop-down list of `n` options after the response `r`.
pub open spec fn pick_after(r: Response, cur: nat, n: nat) -> nat {
    match r {
        Response::Pick(j) => if j < n {
            j
        } else {
            cur
        },
        _ => cur,
    }
}

/// Hover help made of a text: none when the text is empty.
pub open spec fn hover_of(t: Seq<char>) -> Option<Seq<char>> {
    if t.len() == 0 {
        None
    } else {
        Some(t)
    }
}

/// One frame: the widgets drawn so far and the responses to draw them against.
pub struct Ui {
    widgets: Vec<Widget>,
    input: Vec<Input>,
}

impl Ui {
    /// The widgets drawn so far, in order.
    pub closed spec fn drawn(&self) -> Seq<Drawn> {
        self.widgets@.map_values(|w: Widget| w.view())
    }

    /// The responses of the previous frame, by position.
    pub closed spec fn responses(&self) -> Seq<Response> {
        self.input@.map_values(|i: Input| i.view())
    }

    /// The position of the next widget.
    pub open spec fn pos(&self) -> int {
        self.drawn().len() as int
    }

    /// The response that the next widget gets.
    pub open spec fn next_response(&self) -> Response {
        response_at(self.responses(), self.pos())
    }

    /// A frame with nothing drawn yet, that answers with `input`.
    pub fn new(input: Vec<Input>) -> (r: Ui)
        ensures
            r.drawn() == Seq::<Drawn>::empty(),
            r.responses() == input@.map_values(|i: Input| i.view()),
    {
        let r = Ui { widgets: Vec::new(), input };
        proof {
            assert(r.drawn() =~= Seq::<Drawn>::empty());
        }
        r
    }

    /// The widgets drawn so far.
    pub fn widgets(&self) -> (r: &Vec<Widget>)
        ensures
            r@.map_values(|w: Widget| w.view()) == self.drawn(),
    {
        &self.widgets
    }

    /// The number of widgets drawn so far.
    pub fn len(&self) -> (r: usize)
        ensures
            r == self.pos(),
    {
        self.widgets.len()
    }

    /// Ends the frame, handing out what was drawn.
    pub fn into_widgets(self) -> (r: Vec<Widget>)
        ensures
            r@.map_values(|w: Widget| w.view()) == self.drawn(),
    {
        self.widgets
    }

    fn response(&self) -> (r: Input)
        ensures
            r.view() == self.next_response(),
    {
        let k = self.widgets.len();
        if k < self.input.len() {
            self.input[k].duplicate()
        } else {
            Input::Idle
        }
    }

    fn draw(&mut self, w: Widget)
        ensures
            final(self).drawn() == old(self).drawn().push(w.view()),
            final(self).responses() == old(self).responses(),
    {
        self.widgets.push(w);
        proof {
            assert(final(self).drawn() =~= old(self).drawn().push(w.view()));
        }
    }

    /// Draws a line of text.
    pub fn label(&mut self, text: String)
        ensures
            final(self).drawn() == old(self).drawn().push(Drawn::Label(text@)),
            final(self).responses() == old(self).responses(),
    {
        self.draw(Widget::Label(text));
    }

    /// Draws a line of text with `hover` as help unless it is empty.
    pub fn hint_label(&mut self, text: String, hover: String)
        ensures
            final(self).drawn() == old(self).drawn().push(
                Drawn::HintLabel { text: text@, hover: hover_of(hover@) },
            ),
            final(self).responses() == old(self).responses(),
    {
        let h = if hover.as_str().is_empty() {
            None
        } else {
            Some(hover)
        };
        self.draw(Widget::HintLabel { text, hover: h });
    }

    /// Draws a label that copies `copy` when clicked, with `hover` as help
    /// unless it is empty.
    pub fn copy_label(&mut self, text: String, hover: String, copy: String)
        ensures
            final(self).drawn() == old(self).drawn().push(
                Drawn::CopyLabel { text: text@, hover: hover_of(hover@), copy: copy@ },
            ),
            final(self).responses() == old(self).responses(),
    {
        let h = if hover.as_str().is_empty() {
            None
        } else {
            Some(hover)
        };
        self.draw(Widget::CopyLabel { text, hover: h, copy });
    }

    /// Draws a button; says whether it was clicked.
    pub fn button(&mut self, text: String) -> (clicked: bool)
        ensures
            clicked == old(self).next_response() is Click,
            final(self).drawn() == old(self).drawn().push(Drawn::Button(text@)),
            final(self).responses() == old(self).responses(),
    {
        let r = self.response();
        self.draw(Widget::Button(text));
        match r {
            Input::Click => true,
            _ => false,
        }
    }

    /// Draws a single-line text edit bound to `s`.
    pub fn text_edit(&mut self, s: &mut String)
        ensures
            final(s)@ == text_after(old(self).next_response(), old(s)@),
            final(self).drawn() == old(self).drawn().push(Drawn::TextEdit(final(s)@)),
            final(self).responses() == old(self).responses(),
    {
        let r = self.response();
        match r {
            Input::Text(t) => {
                *s = t;
            },
            _ => {},
        }
        self.draw(Widget::TextEdit(s.clone()));
    }

    /// Draws a checkbox bound to `b`.
    pub fn checkbox(&mut self, b: &mut bool)
        ensures
            *final(b) == flag_after(old(self).next_response(), *old(b)),
            final(self).drawn() == old(self).drawn().push(Drawn::Checkbox(*final(b))),
            final(self).responses() == old(self).responses(),
    {
        let r = self.response();
        match r {
            Input::Check(v) => {
                *b = v;
            },
            _ => {},
        }
        self.draw(Widget::Checkbox(*b));
    }

    /// Draws a checkbox showing `b`, whose changes are not kept.
    pub fn checkbox_shown(&mut self, b: bool)
        ensures
            final(self).drawn() == old(self).drawn().push(Drawn::Checkbox(b)),
            final(self).responses() == old(self).responses(),
    {
        self.draw(Widget::Checkbox(b));
    }

    /// Draws a drag value holding `cur`, kept within `[lo, hi]`; returns its new value.
    pub fn drag_value(&mut self, cur: i128, lo: i128, hi: i128) -> (r: i128)
        requires
            lo <= cur <= hi,
        ensures
            r == number_after(old(self).next_response(), cur as int, lo as int, hi as int),
            lo <= r <= hi,
            final(self).drawn() == old(self).drawn().push(Drawn::DragValue(r as int)),
            final(self).responses() == old(self).responses(),
    {
        let resp = self.response();
        let r = match resp {
            Input::Number(n) => if n < lo {
                lo
            } else if n > hi {
                hi
            } else {
                n
            },
            _ => cur,
        };
        self.draw(Widget::DragValue(r));
        r
    }

    /// Opens a collapsible section.
    pub fn section_begin(&mut self, title: String, id: u64)
        ensures
            final(self).drawn() == old(self).drawn().push(
                Drawn::SectionBegin { title: title@, id },
            ),
            final(self).responses() == old(self).responses(),
    {
        self.draw(Widget::SectionBegin { title, id });
    }

    /// Closes the innermost section.
    pub fn section_end(&mut self)
        ensures
            final(self).drawn() == old(self).drawn().push(Drawn::SectionEnd),
            final(self).responses() == old(self).responses(),
    {
        self.draw(Widget::SectionEnd);
    }

    /// Opens a horizontal row.
    pub fn row_begin(&mut self)
        ensures
            final(self).drawn() == old(self).drawn().push(Drawn::RowBegin),
            final(self).responses() == old(self).responses(),
    {
        self.draw(Widget::RowBegin);
    }

    /// Closes the innermost row.
    pub fn row_end(&mut self)
        ensures
            final(self).drawn() == old(self).drawn().push(Drawn::RowEnd),
            final(self).responses() == old(self).responses(),
    {
        self.draw(Widget::RowEnd);
    }

    /// Draws a drop-down list with option `selected` highlighted; returns the
    /// option chosen now (the highlighted one when nothing valid was chosen).
    pub fn combo(&mut self, id: u64, title: String, selected: usize, options: Vec<String>) -> (r:
        usize)
        ensures
            r as nat == pick_after(
                old(self).next_response(),
                selected as nat,
                options@.len(),
            ),
            final(self).drawn() == old(self).drawn().push(
                Drawn::Combo {
                    id,
                    title: title@,
                    selected: selected as nat,
                    options: texts(options@),
                },
            ),
            final(self).responses() == old(self).responses(),
    {
        let resp = self.response();
        let n = options.len();
        let r = match resp {
            Input::Pick(j) => if j < n {
                j
            } else {
                selected
            },
            _ => selected,
        };
        self.draw(Widget::Combo { id, title, selected, options });
        r
    }
}

} // verus!
