//! A small screen-and-buttons user-interface toolkit: menus, scrolling text,
//! a directional character-entry widget and a directory browser, composed as
//! an owned tree of views that render to draw commands and consume button
//! snapshots once per frame.

pub mod buttons;
pub mod chars;
pub mod draw;
pub mod dynamic;
pub mod empty;
pub mod file;
pub mod func;
pub mod input_tree;
pub mod menu;
pub mod text;
pub mod text_input;
pub mod view;

pub use buttons::{Button, ButtonSet};
pub use draw::DrawCmd;
pub use dynamic::DynamicView;
pub use empty::EmptyView;
pub use file::{DirItem, FileView};
pub use func::FuncView;
pub use input_tree::{Direction, Group, InputTree};
pub use menu::{MenuEntry, MenuView};
pub use text::TextView;
pub use text_input::{TextInputMode, TextInputView};
pub use view::{AnyView, ReturnState, ReturnStateEnum};
