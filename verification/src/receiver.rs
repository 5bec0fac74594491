//! What a task that listens on a broadcast channel does with each outcome of
//! a receive: print the value or the number of missed values and listen on,
//! leave the receive loop when the channel closed or stayed silent too long,
//! or end the task on shutdown.

use vstd::prelude::*;

use crate::decimal::{int_decimal, nat_digits, push_decimal_i32, push_decimal_u64};

verus! {

/// The outcome of waiting for the next broadcast value.
#[derive(Clone, Copy, Debug, PartialEq, Eq)]
pub enum Delivery {
    /// A value arrived.
    Value(i32),
    /// The receiver fell behind and this many values were dropped.
    Lagged(u64),
    /// Every sender is gone.
    Closed,
    /// Nothing arrived in time.
    TimedOut,
    /// The shutdown signal arrived.
    Shutdown,
}

/// What the listening task does next.
#[derive(Clone, Copy, Debug, PartialEq, Eq)]
pub enum ReceiverNext {
    /// Pause, then receive again.
    AfterPause,
    /// Receive again at once.
    Immediately,
    /// Leave the receive loop.
    Leave,
    /// End the task.
    Exit,
}

/// The line printed for an outcome, if any. `closed_label` names the closed
/// channel (`tx closed` or `rx closed`); the closed error prints as `Closed`.
pub open spec fn delivery_line(task: Seq<char>, closed_label: Seq<char>, d: Delivery) -> Option<
    Seq<char>,
> {
    match d {
        Delivery::Value(v) => Some(task + " recv => "@ + int_decimal(v as int)),
        Delivery::Lagged(n) => Some(task + " Lagged: "@ + nat_digits(n as nat)),
        Delivery::Closed => Some(task + " "@ + closed_label + ": Closed"@),
        Delivery::TimedOut => Some(task + " recv timeout"@),
        Delivery::Shutdown => None,
    }
}

/// What the task does after an outcome.
pub open spec fn delivery_next(d: Delivery) -> ReceiverNext {
    match d {
        Delivery::Value(_) => ReceiverNext::AfterPause,
        Delivery::Lagged(_) => ReceiverNext::Immediately,
        Delivery::Closed | Delivery::TimedOut => ReceiverNext::Leave,
        Delivery::Shutdown => ReceiverNext::Exit,
    }
}

/// The line to print (if any) and the next move, for one outcome.
pub struct Receipt {
    pub line: Option<String>,
    pub next: ReceiverNext,
}

/// Handles one outcome of a receive for the task named `task`.
pub fn on_delivery(task: &str, closed_label: &str, d: Delivery) -> (r: Receipt)
    ensures
        r.next == delivery_next(d),
        match (r.line, delivery_line(task@, closed_label@, d)) {
            (Some(l), Some(t)) => l@ == t,
            (None, None) => true,
            _ => false,
        },
{
    let mut line = String::new();
    line.append(task);
    match d {
        Delivery::Value(v) => {
            line.append(" recv => ");
            push_decimal_i32(&mut line, v);
            Receipt { line: Some(line), next: ReceiverNext::AfterPause }
        },
        Delivery::Lagged(n) => {
            line.append(" Lagged: ");
            push_decimal_u64(&mut line, n);
            Receipt { line: Some(line), next: ReceiverNext::Immediately }
        },
        Delivery::Closed => {
            line.append(" ");
            line.append(closed_label);
            line.append(": Closed");
            Receipt { line: Some(line), next: ReceiverNext::Leave }
        },
        Delivery::TimedOut => {
            line.append(" recv timeout");
            Receipt { line: Some(line), next: ReceiverNext::Leave }
        },
        Delivery::Shutdown => Receipt { line: None, next: ReceiverNext::Exit },
    }
}

} // verus!
