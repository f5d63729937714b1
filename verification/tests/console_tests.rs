//! Console channel behaviour: initialization protocol, write paths, the
//! serialization of whole calls on the wire.

use luahost::console::console_read_blocking;
use luahost::console::Console;

#[test]
fn console_starts_uninitialized() {
    let c = Console::new();
    assert!(!c.is_ready());
    assert!(c.wire().is_empty());
}

#[test]
fn console_init_reaches_ready() {
    let mut c = Console::new();
    c.console_init();
    assert!(c.is_ready());
    assert!(c.wire().is_empty());
}

#[test]
fn write_blocking_puts_bytes_on_the_wire() {
    let mut c = Console::new();
    c.console_init();
    let r = c.console_write_blocking(b"hello");
    assert!(r.is_ok());
    assert_eq!(c.wire().as_slice(), &b"hello"[..]);
}

#[test]
fn async_writes_never_interleave() {
    // two conceptual async callers; the lock serializes whole calls, so
    // each call's bytes appear contiguously, in call order
    let mut c = Console::new();
    c.console_init();
    c.console_write(b"first caller");
    c.console_write(b"|second caller");
    assert_eq!(c.wire().as_slice(), &b"first caller|second caller"[..]);
}

#[test]
fn async_and_blocking_writes_share_one_total_order() {
    let mut c = Console::new();
    c.console_init();
    c.console_write(b"async:");
    let _ = c.console_write_blocking(b"blocking:");
    c.console_write(b"async again");
    assert_eq!(c.wire().as_slice(), &b"async:blocking:async again"[..]);
}

#[test]
fn empty_write_leaves_wire_unchanged() {
    let mut c = Console::new();
    c.console_init();
    c.console_write(b"");
    assert!(c.wire().is_empty());
}

#[test]
fn read_blocking_returns_placeholder_byte() {
    assert_eq!(console_read_blocking(), Ok(b'a'));
}
