pub mod text_ops;
pub mod cells;
pub mod measure;
pub mod strings;
pub mod box_chars;
pub mod color;
pub mod style;
pub mod segment;
pub mod terminal;
pub mod console;
pub mod console_print;
pub mod renderables;
pub mod text;
pub mod demo_state;
pub mod interactive;
pub mod theme;
pub mod logging;
pub mod scenes;
