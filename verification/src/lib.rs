//! Core logic of the REM text editor: the cursor and pane model, the
//! document engine, the glyph atlas packer, render batching and the cell
//! layout of a pane, the conversion of glyph bitmaps into texture bytes and
//! the editor's input state machine. Windowing, OpenGL and FreeType calls
//! live in the application around this library.

pub mod config;
pub mod editor;
pub mod editor_core;
pub mod font;
pub mod font_bitmap;
pub mod gl_debug;
pub mod main_window;
pub mod pane;
pub mod render;
pub mod size;
pub mod view;
