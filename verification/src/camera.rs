//! A camera task that runs until it is told to stop: by Ctrl+C, by a cancel
//! message from a sibling, or because its wait elapsed.

use vstd::prelude::*;

use crate::decimal::{int_decimal, prefixed_i32};

verus! {

/// What ends the wait of a camera task.
#[derive(Clone, Copy, Debug, PartialEq, Eq)]
pub enum CameraSignal {
    /// Ctrl+C was pressed.
    CtrlC,
    /// A sibling task announced that it stopped.
    Cancel,
    /// The task's own wait elapsed.
    Elapsed,
}

/// `Got Ctrl+C signal, break loop... task<id>`.
pub open spec fn ctrl_c_line(id: i32) -> Seq<char> {
    "Got Ctrl+C signal, break loop... task"@ + int_decimal(id as int)
}

/// `Got cancel, break loop... task<id>`.
pub open spec fn cancel_line(id: i32) -> Seq<char> {
    "Got cancel, break loop... task"@ + int_decimal(id as int)
}

/// `Finish, break loop... task<id>`.
pub open spec fn finish_line(id: i32) -> Seq<char> {
    "Finish, break loop... task"@ + int_decimal(id as int)
}

/// The line a camera task prints when `signal` ends its loop.
pub open spec fn stop_line(id: i32, signal: CameraSignal) -> Seq<char> {
    match signal {
        CameraSignal::CtrlC => ctrl_c_line(id),
        CameraSignal::Cancel => cancel_line(id),
        CameraSignal::Elapsed => finish_line(id),
    }
}

/// The seconds camera `id` waits before it finishes by itself: `5 - id`,
/// taken as a `u64` the way `as` converts it.
pub fn camera_wait_secs(id: i32) -> (secs: u64)
    requires
        5 - id <= i32::MAX,
    ensures
        secs == (5 - id) as u64,
{
    (5 - id) as u64
}

/// The line camera `id` prints when `signal` ends its loop. Every signal ends
/// the loop; afterwards the task announces its id to its siblings.
pub fn camera_stop_line(id: i32, signal: CameraSignal) -> (line: String)
    ensures
        line@ == stop_line(id, signal),
        signal == CameraSignal::CtrlC ==> line@ == "Got Ctrl+C signal, break loop... task"@
            + int_decimal(id as int),
        signal == CameraSignal::Cancel ==> line@ == "Got cancel, break loop... task"@ + int_decimal(
            id as int,
        ),
        signal == CameraSignal::Elapsed ==> line@ == "Finish, break loop... task"@ + int_decimal(
            id as int,
        ),
{
    match signal {
        CameraSignal::CtrlC => prefixed_i32("Got Ctrl+C signal, break loop... task", id),
        CameraSignal::Cancel => prefixed_i32("Got cancel, break loop... task", id),
        CameraSignal::Elapsed => prefixed_i32("Finish, break loop... task", id),
    }
}

} // verus!
