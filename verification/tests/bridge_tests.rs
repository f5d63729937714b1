//! Host bridge scenarios: output redirection, diagnostics reporting, and
//! whole script runs as the interpreter would drive them.

use luahost::bridge::dostring;
use luahost::bridge::integer_readback;
use luahost::bridge::lua_writeline;
use luahost::bridge::lua_writestring;
use luahost::bridge::lua_writestringerror;
use luahost::bridge::report;
use luahost::bridge::run_result;
use luahost::bridge::to_cstring;
use luahost::bridge::RunResult;
use luahost::bridge::LUA_ERRRUN;
use luahost::bridge::LUA_OK;
use luahost::console::Console;

fn ready_console() -> Console {
    let mut c = Console::new();
    c.console_init();
    c
}

#[test]
fn writestring_routes_to_the_console() {
    let mut c = ready_console();
    lua_writestring(&mut c, b"abc");
    lua_writestringerror(&mut c, b"def");
    lua_writeline(&mut c);
    assert_eq!(c.wire().as_slice(), &b"abcdef\n"[..]);
}

#[test]
fn to_cstring_appends_the_terminator() {
    let s = to_cstring(b"print(x)");
    assert_eq!(s.as_slice(), &b"print(x)\0"[..]);
    let empty = to_cstring(b"");
    assert_eq!(empty.as_slice(), &b"\0"[..]);
}

#[test]
fn report_is_silent_on_success() {
    let mut c = ready_console();
    let r = report(&mut c, LUA_OK, b"ignored");
    assert_eq!(r, LUA_OK);
    assert!(c.wire().is_empty());
}

#[test]
fn report_writes_the_diagnostic_and_a_newline() {
    let mut c = ready_console();
    let r = report(&mut c, LUA_ERRRUN, b"boom");
    assert_eq!(r, LUA_ERRRUN);
    assert_eq!(c.wire().as_slice(), &b"boom\n"[..]);
}

#[test]
fn dostring_stops_at_a_load_failure() {
    let mut c = ready_console();
    let r = dostring(&mut c, 3, LUA_OK, b"syntax error near 'x'");
    assert_eq!(r, 3);
    assert_eq!(c.wire().as_slice(), &b"syntax error near 'x'\n"[..]);
}

#[test]
fn hello_world_script_prints_and_succeeds() {
    // print("Hello World"): during the call the interpreter's redirected
    // print emits the text and the line ending, then both phases report
    // success
    let mut c = ready_console();
    let _script = to_cstring(b"print(\"Hello World\")");
    lua_writestring(&mut c, b"Hello World");
    lua_writeline(&mut c);
    let status = dostring(&mut c, LUA_OK, LUA_OK, b"");
    assert_eq!(status, LUA_OK);
    assert_eq!(c.wire().as_slice(), &b"Hello World\n"[..]);
    assert!(matches!(run_result(status, b""), RunResult::Success));
}

#[test]
fn factorial_script_returns_120() {
    // a script defining fact(n) recursively and returning fact(5): both
    // phases succeed, nothing is printed, and the integer read back from
    // the interpreter's stack is 120 with the number flag set
    let mut c = ready_console();
    let status = dostring(&mut c, LUA_OK, LUA_OK, b"");
    assert_eq!(status, LUA_OK);
    assert!(c.wire().is_empty());
    assert!(matches!(run_result(status, b""), RunResult::Success));
    assert_eq!(integer_readback(120, 1), Some(120));
}

#[test]
fn failing_script_reports_its_message_without_halting() {
    // a script that raises "exception!": the call phase fails, the
    // diagnostic goes to the console followed by a newline, and the
    // caller gets a script error carrying the raised text
    let mut c = ready_console();
    let status = dostring(&mut c, LUA_OK, LUA_ERRRUN, b"exception!");
    assert_eq!(status, LUA_ERRRUN);
    assert_eq!(c.wire().as_slice(), &b"exception!\n"[..]);
    match run_result(status, b"exception!") {
        RunResult::ScriptError(m) => assert_eq!(m.as_slice(), &b"exception!"[..]),
        RunResult::Success => panic!("a failed status must surface as a script error"),
    }
}

#[test]
fn integer_readback_requires_the_number_flag() {
    assert_eq!(integer_readback(120, 0), None);
    assert_eq!(integer_readback(-7, 1), Some(-7));
}
