//! Counting tasks that stop on Ctrl+C, the names of the tasks a counting loop
//! spawns, and the lines of queue and watch receivers.

use vstd::prelude::*;

use crate::decimal::{int_decimal, prefixed_i32, push_decimal_i32};

verus! {

/// The name given to the `i`-th spawned task: `<i> + <i> + <i>`.
pub open spec fn task_label_text(i: i32) -> Seq<char> {
    int_decimal(i as int) + " + "@ + int_decimal(i as int) + " + "@ + int_decimal(i as int)
}

/// The name of the `i`-th task spawned by the counting loop.
pub fn task_label(i: i32) -> (label: String)
    ensures
        label@ == task_label_text(i),
{
    let mut label = String::new();
    push_decimal_i32(&mut label, i);
    label.append(" + ");
    push_decimal_i32(&mut label, i);
    label.append(" + ");
    push_decimal_i32(&mut label, i);
    label
}


/// What ends one round of a counting task's wait.
#[derive(Clone, Copy, Debug, PartialEq, Eq)]
pub enum CounterEvent {
    /// Ctrl+C was pressed.
    CtrlC,
    /// The task's pause ended.
    Tick,
}

/// What a counting task does after a round.
#[derive(Clone, Copy, Debug, PartialEq, Eq)]
pub enum CounterNext {
    /// Count the next round.
    Continue,
    /// Wait this many seconds, print the stop line, and end.
    StopAfter(u64),
}

/// `<label> => <round>`, the line a counting task prints at the start of a
/// round.
pub open spec fn round_line(label: Seq<char>, round: i32) -> Seq<char> {
    label + " => "@ + int_decimal(round as int)
}

/// `<label> | Got Ctrl+C signal, waiting for loop to finish...`.
pub open spec fn counter_stop_line(label: Seq<char>) -> Seq<char> {
    label + " | Got Ctrl+C signal, waiting for loop to finish..."@
}

/// The line a counting task named `label` (`AAA`, `BBB`, `CCC`) prints when
/// it starts round `round`.
pub fn counter_round_line(label: &str, round: i32) -> (line: String)
    ensures
        line@ == round_line(label@, round),
{
    let mut line = String::new();
    line.append(label);
    line.append(" => ");
    push_decimal_i32(&mut line, round);
    line
}

/// What a counting task named `label` does when its wait ends: on Ctrl+C, the
/// stop line and the delay before it (the `CCC` task waits three more
/// seconds); on a tick, go on counting.
pub fn counter_next(label: &str, event: CounterEvent, stop_delay_secs: u64) -> (r: (
    Option<String>,
    CounterNext,
))
    ensures
        match event {
            CounterEvent::CtrlC => r.0 matches Some(l) && l@ == counter_stop_line(label@) && r.1
                == CounterNext::StopAfter(stop_delay_secs),
            CounterEvent::Tick => r.0 is None && r.1 == CounterNext::Continue,
        },
{
    match event {
        CounterEvent::CtrlC => {
            let mut stop = String::new();
            stop.append(label);
            stop.append(" | Got Ctrl+C signal, waiting for loop to finish...");
            (Some(stop), CounterNext::StopAfter(stop_delay_secs))
        },
        CounterEvent::Tick => (None, CounterNext::Continue),
    }
}

/// How the wait for a second Ctrl+C ends.
#[derive(Clone, Copy, Debug, PartialEq, Eq)]
pub enum SecondOutcome {
    /// Ctrl+C was pressed again.
    SecondSignal,
    /// Thirty seconds passed.
    TimedOut,
    /// All counting tasks finished.
    AllDone,
}

/// The closing line for each way the wait for a second Ctrl+C ends.
pub open spec fn second_signal_text(o: SecondOutcome) -> Seq<char> {
    match o {
        SecondOutcome::SecondSignal => "\nGot Ctrl+C signal again. exit!"@,
        SecondOutcome::TimedOut => "timeout 30s"@,
        SecondOutcome::AllDone => "all done"@,
    }
}

/// The closing line once the wait for a second Ctrl+C ends.
pub fn second_signal_line(o: SecondOutcome) -> (s: &'static str)
    ensures
        s@ == second_signal_text(o),
{
    match o {
        SecondOutcome::SecondSignal => "\nGot Ctrl+C signal again. exit!",
        SecondOutcome::TimedOut => "timeout 30s",
        SecondOutcome::AllDone => "all done",
    }
}

/// When the wait of a counting loop that stops on Ctrl+C ends: on Ctrl+C the
/// stop line, after which the loop ends; on a tick, nothing, and the loop goes
/// on.
pub fn ctrl_c_stop(event: CounterEvent) -> (r: Option<&'static str>)
    ensures
        match event {
            CounterEvent::CtrlC => r matches Some(l) && l@
                == "Got Ctrl+C signal, waiting for loop to finish..."@,
            CounterEvent::Tick => r is None,
        },
{
    match event {
        CounterEvent::CtrlC => Some("Got Ctrl+C signal, waiting for loop to finish..."),
        CounterEvent::Tick => None,
    }
}

/// What a queue receiver prints for a receive, and whether it stops: a value
/// prints `recv => <v>`; a closed queue prints `no value (tx closed)` and stops.
pub fn on_queue_receive(v: Option<i32>) -> (r: (String, bool))
    ensures
        r.0@ == (match v {
            Some(x) => "recv => "@ + int_decimal(x as int),
            None => "no value (tx closed)"@,
        }),
        r.1 == (v is None),
{
    match v {
        Some(x) => (prefixed_i32("recv => ", x), false),
        None => (String::from_str("no value (tx closed)"), true),
    }
}

/// What a watch receiver prints when the watched value changed (`changed <v>`)
/// or its sender is gone (`error: <error>`), and whether it stops.
pub fn on_watch_change(v: Option<i32>, error_text: &str) -> (r: (String, bool))
    ensures
        r.0@ == (match v {
            Some(x) => "changed "@ + int_decimal(x as int),
            None => "error: "@ + error_text@,
        }),
        r.1 == (v is None),
{
    match v {
        Some(x) => (prefixed_i32("changed ", x), false),
        None => {
            let mut line = String::new();
            line.append("error: ");
            line.append(error_text);
            (line, true)
        },
    }
}


/// `i = <n>`, the line a shared counter prints after each count.
pub open spec fn count_line(n: i32) -> Seq<char> {
    "i = "@ + int_decimal(n as int)
}

/// Adds one to the shared counter and gives the line `i = <n>` for the new
/// value.
pub fn count_up(counter: &mut i32) -> (line: String)
    requires
        *old(counter) < i32::MAX,
    ensures
        *final(counter) == *old(counter) + 1,
        line@ == count_line(*final(counter)),
{
    *counter = *counter + 1;
    prefixed_i32("i = ", *counter)
}

/// `Loop finished, exiting. final count = <n>`.
pub fn final_count_line(n: i32) -> (line: String)
    ensures
        line@ == "Loop finished, exiting. final count = "@ + int_decimal(n as int),
{
    prefixed_i32("Loop finished, exiting. final count = ", n)
}

} // verus!
