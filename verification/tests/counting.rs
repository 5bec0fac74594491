use playground::tasks::{count_up, final_count_line};
use playground::tasks::{
    counter_next, counter_round_line, on_queue_receive, on_watch_change, second_signal_line, ctrl_c_stop,
    CounterEvent, CounterNext, SecondOutcome,
};

#[test]
fn counting_rounds() {
    assert_eq!(counter_round_line("AAA", 1), "AAA => 1");
    assert_eq!(counter_round_line("CCC", 12), "CCC => 12");
    assert_eq!(counter_next("BBB", CounterEvent::Tick, 0), (None, CounterNext::Continue));
    assert_eq!(
        counter_next("CCC", CounterEvent::CtrlC, 3),
        (Some("CCC | Got Ctrl+C signal, waiting for loop to finish...".to_string()), CounterNext::StopAfter(3))
    );
    assert_eq!(ctrl_c_stop(CounterEvent::Tick), None);
    assert_eq!(ctrl_c_stop(CounterEvent::CtrlC), Some("Got Ctrl+C signal, waiting for loop to finish..."));
}

#[test]
fn second_signal_lines() {
    assert_eq!(second_signal_line(SecondOutcome::SecondSignal), "\nGot Ctrl+C signal again. exit!");
    assert_eq!(second_signal_line(SecondOutcome::TimedOut), "timeout 30s");
    assert_eq!(second_signal_line(SecondOutcome::AllDone), "all done");
}

#[test]
fn queue_and_watch_receivers() {
    assert_eq!(on_queue_receive(Some(567)), ("recv => 567".to_string(), false));
    assert_eq!(on_queue_receive(None), ("no value (tx closed)".to_string(), true));
    assert_eq!(on_watch_change(Some(456), ""), ("changed 456".to_string(), false));
    assert_eq!(on_watch_change(None, "RecvError(())"), ("error: RecvError(())".to_string(), true));
}

#[test]
fn shared_counter_lines() {
    let mut c = 41;
    assert_eq!(count_up(&mut c), "i = 42");
    assert_eq!(c, 42);
    assert_eq!(final_count_line(7), "Loop finished, exiting. final count = 7");
}
