//! Interpreter host bridge: the seam between the embedding application
//! and the embedded interpreter runtime.
//!
//! The interpreter itself is an opaque collaborator — create a state, load
//! a script, run it, read back results and diagnostics — reached over a
//! foreign-function boundary outside the library. What the bridge owns,
//! and what is verified here, is the routing and the decisions around
//! those calls: the interpreter's print and print-error operations are
//! redirected to the console's blocking write path instead of a real OS
//! stream; a load-then-call sequence is collapsed to one status; a failed
//! status has its diagnostic text reported back out through the same
//! console path, followed by a newline, and surfaced to the caller as a
//! script error carrying the interpreter's own message. Script-level
//! failures are never escalated to a halt.

use crate::console::spec_write;
use crate::console::Console;
use vstd::prelude::*;

verus! {

/// The interpreter's status for a successful load or call.
pub const LUA_OK: i32 = 0;

/// The interpreter's status for a runtime error raised while a call ran.
pub const LUA_ERRRUN: i32 = 2;

/// Largest script the fixed conversion buffer accepts, terminator
/// included.
pub const SCRIPT_BUFFER_SIZE: usize = 256;

/// Outcome of running a script through the bridge: success, or the
/// interpreter's own diagnostic text.
#[derive(Debug)]
pub enum RunResult {
    Success,
    ScriptError(Vec<u8>),
}

/// The status a load-then-call sequence reports: a load failure is final,
/// otherwise the call's status decides.
pub open spec fn spec_dostring_status(load_status: i32, call_status: i32) -> i32 {
    if load_status == LUA_OK {
        call_status
    } else {
        load_status
    }
}

/// Writes a string of the interpreter's output to the console, through
/// the blocking path; the redirection target of the interpreter's native
/// print operation.
pub fn lua_writestring(console: &mut Console, bytes: &[u8])
    requires
        old(console).spec_ready(),
    ensures
        final(console).spec_ready(),
        final(console).spec_wire() == spec_write(old(console).spec_wire(), bytes@),
{
    let _ = console.console_write_blocking(bytes);
}

/// Writes the newline that ends a line of interpreter output.
pub fn lua_writeline(console: &mut Console)
    requires
        old(console).spec_ready(),
    ensures
        final(console).spec_ready(),
        final(console).spec_wire() == spec_write(old(console).spec_wire(), seq![10u8]),
{
    let newline: [u8; 1] = [10u8];
    let _ = console.console_write_blocking(&newline);
    proof {
        assert(newline@ =~= seq![10u8]);
    }
}

/// Writes a string of the interpreter's error output to the console; the
/// redirection target of the interpreter's native print-error operation.
pub fn lua_writestringerror(console: &mut Console, bytes: &[u8])
    requires
        old(console).spec_ready(),
    ensures
        final(console).spec_ready(),
        final(console).spec_wire() == spec_write(old(console).spec_wire(), bytes@),
{
    let _ = console.console_write_blocking(bytes);
}

/// Copies a script into a fresh buffer and terminates it with the zero
/// byte the interpreter's loader expects; the fixed buffer bounds the
/// script's length.
pub fn to_cstring(script: &[u8]) -> (r: Vec<u8>)
    requires
        script@.len() < SCRIPT_BUFFER_SIZE,
    ensures
        r@ == script@ + seq![0u8],
{
    let n = script.len();
    let mut out: Vec<u8> = Vec::new();
    let mut i: usize = 0;
    while i < n
        invariant
            i <= n,
            n == script@.len(),
            out@ == script@.take(i as int),
        decreases n - i,
    {
        out.push(script[i]);
        proof {
            assert(script@.take(i + 1) =~= script@.take(i as int).push(script@[i as int]));
        }
        i = i + 1;
    }
    out.push(0u8);
    proof {
        assert(script@.take(n as int) =~= script@);
    }
    out
}

/// Reports a finished run on the console: a failed status has its
/// diagnostic text (read back from the interpreter's stack by the caller)
/// written out followed by a newline; a successful status writes nothing.
/// The status passes through unchanged, and the caller pops the
/// diagnostic off the interpreter's stack afterwards.
pub fn report(console: &mut Console, status: i32, message: &[u8]) -> (r: i32)
    requires
        old(console).spec_ready(),
    ensures
        final(console).spec_ready(),
        r == status,
        status == LUA_OK ==> final(console).spec_wire() == old(console).spec_wire(),
        status != LUA_OK ==> final(console).spec_wire() == spec_write(
            old(console).spec_wire(),
            message@ + seq![10u8],
        ),
{
    if status != LUA_OK {
        lua_writestring(console, message);
        lua_writeline(console);
        proof {
            assert(spec_write(
                spec_write(old(console).spec_wire(), message@),
                seq![10u8],
            ) =~= spec_write(old(console).spec_wire(), message@ + seq![10u8]));
        }
    }
    status
}

/// Runs one script to completion at the status level: the load phase's
/// status, then — only when loading succeeded — the call phase's status,
/// then the report of the combined status with the interpreter's
/// diagnostic text. The statuses and the diagnostic come from the
/// interpreter's own load, call and stack-inspection operations, which
/// the embedding application performs at the foreign boundary.
pub fn dostring(console: &mut Console, load_status: i32, call_status: i32, message: &[u8]) -> (r:
    i32)
    requires
        old(console).spec_ready(),
    ensures
        final(console).spec_ready(),
        r == spec_dostring_status(load_status, call_status),
        r == LUA_OK ==> final(console).spec_wire() == old(console).spec_wire(),
        r != LUA_OK ==> final(console).spec_wire() == spec_write(
            old(console).spec_wire(),
            message@ + seq![10u8],
        ),
{
    let mut status = load_status;
    if status == LUA_OK {
        status = call_status;
    }
    report(console, status, message)
}

/// The result surfaced to the caller of `run`: compilation and execution
/// errors are both the same kind of failure, carrying the interpreter's
/// own diagnostic text; they never halt the program.
pub fn run_result(status: i32, message: &[u8]) -> (r: RunResult)
    ensures
        status == LUA_OK ==> r is Success,
        status != LUA_OK ==> (r matches RunResult::ScriptError(m) && m@ == message@),
{
    if status == LUA_OK {
        RunResult::Success
    } else {
        let mut m: Vec<u8> = Vec::new();
        let n = message.len();
        let mut i: usize = 0;
        while i < n
            invariant
                i <= n,
                n == message@.len(),
                m@ == message@.take(i as int),
            decreases n - i,
        {
            m.push(message[i]);
            proof {
                assert(message@.take(i + 1) =~= message@.take(i as int).push(
                    message@[i as int],
                ));
            }
            i = i + 1;
        }
        proof {
            assert(message@.take(n as int) =~= message@);
        }
        RunResult::ScriptError(m)
    }
}

/// The integer read back from the interpreter's stack after a run: the
/// interpreter reports the value together with a flag saying whether the
/// stack slot really held a number; without the flag the value means
/// nothing.
pub fn integer_readback(value: i64, isnum: i32) -> (r: Option<i64>)
    ensures
        isnum != 0 ==> r == Some(value),
        isnum == 0 ==> r is None,
{
    if isnum != 0 {
        Some(value)
    } else {
        None
    }
}

} // verus!
