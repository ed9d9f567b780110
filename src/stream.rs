//! The decisions of the output stream: what the pipeline does after each
//! write, and what it writes for a kept line.

use vstd::prelude::*;

verus! {

/// How a write to the output stream, or its final shutdown, went.
#[derive(Clone, Copy, Debug, PartialEq, Eq, Structural)]
pub enum IoOutcome {
    Done,
    /// The reader of the output has gone away.
    BrokenPipe,
    Failed,
}

/// What the pipeline does next.
#[derive(Clone, Copy, Debug, PartialEq, Eq, Structural)]
pub enum Next {
    Continue,
    /// Stop, and end the process with success.
    FinishOk,
    /// Stop, and report the error.
    FinishErr,
}

/// After writing a line: go on when it was written, finish successfully when
/// the reader has gone away, and fail on any other error.
pub fn after_write(o: IoOutcome) -> (r: Next)
    ensures
        o == IoOutcome::Done ==> r == Next::Continue,
        o == IoOutcome::BrokenPipe ==> r == Next::FinishOk,
        o == IoOutcome::Failed ==> r == Next::FinishErr,
{
    match o {
        IoOutcome::Done => Next::Continue,
        IoOutcome::BrokenPipe => Next::FinishOk,
        IoOutcome::Failed => Next::FinishErr,
    }
}

/// After shutting the output down at the end of the input: success, also
/// when the reader has gone away; any other error fails.
pub fn after_shutdown(o: IoOutcome) -> (r: Next)
    ensures
        o == IoOutcome::Failed <==> r == Next::FinishErr,
        o != IoOutcome::Failed ==> r == Next::FinishOk,
{
    match o {
        IoOutcome::Failed => Next::FinishErr,
        _ => Next::FinishOk,
    }
}

/// The bytes written for a kept line: the line and one newline.
pub fn output_record(line: &str) -> (r: String)
    ensures
        r@ == line@.push('\n'),
{
    let mut r = line.to_owned();
    r.append("\n");
    proof {
        reveal_strlit("\n");
    }
    assert(r@ =~= line@.push('\n'));
    r
}

} // verus!
