# rem

The core of REM, a small OpenGL text editor, written in Verus.

- `src/` is the verified library: the editor's input state machine and the
  cell layout of a pane (`editor`), the document engine (`editor_core`),
  the shelf packer of glyph atlases and render batches (`render`), the
  conversion of glyph bitmaps into texture bytes (`font_bitmap`), the
  labels of OpenGL debug messages (`gl_debug`), and the cursor and pane
  identifiers (`pane`).
- `app/` is the program around it: the window, OpenGL calls, font
  rasterization with font-kit, file reading and logging.
- `tests/` exercises the library on concrete inputs.
