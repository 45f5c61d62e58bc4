use std::sync::atomic::{AtomicU16, AtomicU32};

use rem::font::FontKey;
use rem::gl_debug;
use rem::render::framebuffer;
use rem::pane::{Cursor, CursorMode, PaneID, Position};
use rem::size::Size;

#[test]
fn size_accessors() {
    let s = Size::new(3u32, 9u32);
    assert_eq!(s.width(), 3);
    assert_eq!(s.height(), 9);
    assert_eq!((s.x, s.y), (3, 9));
}

#[test]
fn ids_come_from_the_counter() {
    let c = AtomicU32::new(7);
    assert_eq!(PaneID::next(&c).token(), 7);
    assert_eq!(PaneID::next(&c).token(), 8);
    let wrap = AtomicU32::new(u32::MAX);
    assert_eq!(PaneID::next(&wrap).token(), u32::MAX);
    assert_eq!(PaneID::next(&wrap).token(), 0);
    let k = AtomicU16::new(3);
    assert_eq!(FontKey::next(&k), FontKey { token: 3 });
    assert_eq!(FontKey::next(&k), FontKey { token: 4 });
}

#[test]
fn cursor_moves_and_keeps_owner() {
    let c = AtomicU32::new(0);
    let pane = PaneID::next(&c);
    let cur = Cursor::new(pane, CursorMode::Underline);
    assert_eq!((cur.pos().x, cur.pos().y), (0, 0));
    let moved = cur.at(Position::new(4, 2));
    assert_eq!((moved.pos().x, moved.pos().y), (4, 2));
}

#[test]
fn debug_labels() {
    assert_eq!(
        gl_debug::debug_message_labels(gl_debug::DEBUG_SOURCE_API, gl_debug::DEBUG_TYPE_ERROR, gl_debug::DEBUG_SEVERITY_HIGH),
        Some(("ERROR", "HIGH", "API"))
    );
    assert_eq!(
        gl_debug::debug_message_labels(gl_debug::DEBUG_SOURCE_OTHER, gl_debug::DEBUG_TYPE_UNDEFINED_BEHAVIOR, 1),
        Some(("UDEFINED BEHAVIOR", "UNKNOWN", "UNKNOWN"))
    );
    assert_eq!(
        gl_debug::debug_message_labels(gl_debug::DEBUG_SOURCE_SHADER_COMPILER, gl_debug::DEBUG_TYPE_MARKER, gl_debug::DEBUG_SEVERITY_LOW),
        Some(("MARKER", "LOW", "SHADER COMPILER"))
    );
    assert_eq!(gl_debug::debug_message_labels(gl_debug::DEBUG_SOURCE_API, gl_debug::DEBUG_TYPE_ERROR, gl_debug::DEBUG_SEVERITY_NOTIFICATION), None);
}

#[test]
fn debug_constants_match_opengl() {
    assert_eq!(gl_debug::DEBUG_SOURCE_API, gl::DEBUG_SOURCE_API);
    assert_eq!(gl_debug::DEBUG_SOURCE_WINDOW_SYSTEM, gl::DEBUG_SOURCE_WINDOW_SYSTEM);
    assert_eq!(gl_debug::DEBUG_SOURCE_SHADER_COMPILER, gl::DEBUG_SOURCE_SHADER_COMPILER);
    assert_eq!(gl_debug::DEBUG_SOURCE_THIRD_PARTY, gl::DEBUG_SOURCE_THIRD_PARTY);
    assert_eq!(gl_debug::DEBUG_SOURCE_APPLICATION, gl::DEBUG_SOURCE_APPLICATION);
    assert_eq!(gl_debug::DEBUG_SOURCE_OTHER, gl::DEBUG_SOURCE_OTHER);
    assert_eq!(gl_debug::DEBUG_TYPE_ERROR, gl::DEBUG_TYPE_ERROR);
    assert_eq!(gl_debug::DEBUG_TYPE_DEPRECATED_BEHAVIOR, gl::DEBUG_TYPE_DEPRECATED_BEHAVIOR);
    assert_eq!(gl_debug::DEBUG_TYPE_UNDEFINED_BEHAVIOR, gl::DEBUG_TYPE_UNDEFINED_BEHAVIOR);
    assert_eq!(gl_debug::DEBUG_TYPE_PORTABILITY, gl::DEBUG_TYPE_PORTABILITY);
    assert_eq!(gl_debug::DEBUG_TYPE_PERFORMANCE, gl::DEBUG_TYPE_PERFORMANCE);
    assert_eq!(gl_debug::DEBUG_TYPE_OTHER, gl::DEBUG_TYPE_OTHER);
    assert_eq!(gl_debug::DEBUG_TYPE_MARKER, gl::DEBUG_TYPE_MARKER);
    assert_eq!(gl_debug::DEBUG_SEVERITY_HIGH, gl::DEBUG_SEVERITY_HIGH);
    assert_eq!(gl_debug::DEBUG_SEVERITY_MEDIUM, gl::DEBUG_SEVERITY_MEDIUM);
    assert_eq!(gl_debug::DEBUG_SEVERITY_LOW, gl::DEBUG_SEVERITY_LOW);
    assert_eq!(gl_debug::DEBUG_SEVERITY_NOTIFICATION, gl::DEBUG_SEVERITY_NOTIFICATION);
}

#[test]
fn framebuffer_status() {
    assert_eq!(framebuffer::FRAMEBUFFER_COMPLETE, gl::FRAMEBUFFER_COMPLETE);
    assert_eq!(framebuffer::check_status(gl::FRAMEBUFFER_COMPLETE), Ok(()));
    assert_eq!(framebuffer::check_status(gl::FRAMEBUFFER_UNSUPPORTED), Err(framebuffer::Error::Incomplete));
    assert_eq!(framebuffer::check_status(0), Err(framebuffer::Error::Incomplete));
}
