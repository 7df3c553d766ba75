//! Inspect and edit in-memory values through an immediate-mode user interface.
//!
//! A value is rendered into a [`ui::Ui`], which records the widgets of one frame
//! and hands back the responses that the toolkit gathered for them. Every
//! inspectable type implements [`inspect::Inspect`]; composite types recurse into
//! their parts with identities derived from their own. [`derive`] turns the
//! declared shape of a struct or enum into the plan of its rendering.

pub mod text;
pub mod ui;
pub mod inspect;
mod numbers;
pub mod ui_ext;
pub mod collections;
pub mod derive;
pub mod laws;

pub use derive::derive_inspect;
pub use inspect::Inspect;
pub use ui::{Input, Ui, Widget};
pub use ui_ext::UiExt;
