//! Camera tasks that share one frame counter and one table of frames per
//! camera. Every tick of a camera adds one to the shared counter and one to the
//! camera's own count, and records that count under the camera's key
//! `CAM<id>`; the camera whose tick brings the shared counter to 100 stops.

use vstd::prelude::*;
use std::collections::HashMap;

use crate::camera::{cancel_line, ctrl_c_line, finish_line};
use crate::decimal::{int_decimal, prefixed_i32, push_decimal_i32};

verus! {

broadcast use vstd::std_specs::hash::group_hash_axioms;

/// The shared counter at which the camera that reaches it stops.
pub const FRAME_GOAL: i32 = 100;

/// What wakes a camera task up.
#[derive(Clone, Copy, Debug, PartialEq, Eq)]
pub enum FrameEvent {
    /// Ctrl+C was pressed.
    CtrlC,
    /// A sibling task announced that it stopped.
    Cancel,
    /// The short sleep between two frames ended.
    Tick,
}

/// What the shared board holds: the counter and, per camera id, the number of
/// frames that camera counted.
pub struct BoardView {
    pub counter: i32,
    pub frames: Map<i32, i32>,
}

/// The counter and the frame table that all camera tasks share.
pub struct FrameBoard {
    counter: i32,
    frames: HashMap<i32, i32>,
}

impl View for FrameBoard {
    type V = BoardView;

    closed spec fn view(&self) -> BoardView {
        BoardView { counter: self.counter, frames: self.frames@ }
    }
}

/// What one camera task holds: its id and the frames it counted.
pub struct FrameTaskView {
    pub id: i32,
    pub count: i32,
}

/// One camera task.
pub struct FrameTask {
    id: i32,
    count: i32,
}

impl View for FrameTask {
    type V = FrameTaskView;

    closed spec fn view(&self) -> FrameTaskView {
        FrameTaskView { id: self.id, count: self.count }
    }
}

/// What a camera task prints after one event, and whether it keeps running.
pub struct FrameStep {
    pub lines: Vec<String>,
    pub keep_running: bool,
}

/// The sum of the counts in a frame table.
pub open spec fn frames_total(m: Map<i32, i32>) -> int
    decreases m.dom().len(),
    when m.dom().finite()
{
    if m.dom().len() == 0 {
        0
    } else {
        let k = m.dom().choose();
        m[k] + frames_total(m.remove(k))
    }
}

/// The shared counter is the sum of the counts in the table.
pub open spec fn balanced(board: BoardView) -> bool {
    &&& board.frames.dom().finite()
    &&& board.counter == frames_total(board.frames)
}

/// The table holds the task's own count under its id, or the task has counted
/// nothing yet and the table has no entry for it.
pub open spec fn consistent(board: BoardView, task: FrameTaskView) -> bool {
    if board.frames.contains_key(task.id) {
        board.frames[task.id] == task.count
    } else {
        task.count == 0
    }
}

/// `Finish, add 1 and sum = <counter>... task<id> = <count>`.
pub open spec fn tick_line(counter: i32, id: i32, count: i32) -> Seq<char> {
    "Finish, add 1 and sum = "@ + int_decimal(counter as int) + "... task"@ + int_decimal(
        id as int,
    ) + " = "@ + int_decimal(count as int)
}

/// The lines a tick prints, given the counter and count after it.
pub open spec fn tick_lines(counter: i32, id: i32, count: i32) -> Seq<Seq<char>> {
    if counter == FRAME_GOAL {
        seq![tick_line(counter, id, count), finish_line(id)]
    } else {
        seq![tick_line(counter, id, count)]
    }
}

/// The name under which camera `id` is listed: `CAM<id>`.
pub open spec fn frame_key(id: i32) -> Seq<char> {
    "CAM"@ + int_decimal(id as int)
}

/// `CAM<id> => <count>`, one line of the final table.
pub open spec fn frame_entry_line(id: i32, count: i32) -> Seq<char> {
    frame_key(id) + " => "@ + int_decimal(count as int)
}

proof fn lemma_frames_total_remove(m: Map<i32, i32>, k: i32)
    requires
        m.dom().finite(),
        m.contains_key(k),
    ensures
        frames_total(m) == m[k] + frames_total(m.remove(k)),
    decreases m.dom().len(),
{
    let c = m.dom().choose();
    if c != k {
        let mc = m.remove(c);
        let mk = m.remove(k);
        lemma_frames_total_remove(mc, k);
        lemma_frames_total_remove(mk, c);
        assert(mc.remove(k) =~= mk.remove(c));
    }
}

proof fn lemma_frames_total_insert(m: Map<i32, i32>, k: i32, v: i32)
    requires
        m.dom().finite(),
    ensures
        frames_total(m.insert(k, v)) == frames_total(m) - (if m.contains_key(k) {
            m[k] as int
        } else {
            0
        }) + v,
{
    let m2 = m.insert(k, v);
    lemma_frames_total_remove(m2, k);
    if m.contains_key(k) {
        lemma_frames_total_remove(m, k);
        assert(m2.remove(k) =~= m.remove(k));
    } else {
        assert(m2.remove(k) =~= m);
    }
}

/// The board after camera `task` ticks once: the counter goes up by one and
/// the camera's new count is filed under its id.
pub open spec fn tick_board(board: BoardView, task: FrameTaskView) -> BoardView {
    BoardView {
        counter: (board.counter + 1) as i32,
        frames: board.frames.insert(task.id, (task.count + 1) as i32),
    }
}

/// The camera after it ticks once: its count goes up by one.
pub open spec fn tick_task(task: FrameTaskView) -> FrameTaskView {
    FrameTaskView { id: task.id, count: (task.count + 1) as i32 }
}

/// A tick keeps the board balanced and the ticking camera consistent with it:
/// when the shared counter is the sum of the table and the table holds the
/// camera's count, then after the tick the counter is again the sum of the
/// table and the table again holds the camera's count. (A tick that would take
/// the counter or the count past `i32::MAX` panics instead.)
pub proof fn lemma_tick_keeps_balance(board: BoardView, task: FrameTaskView)
    requires
        balanced(board),
        consistent(board, task),
        board.counter < i32::MAX,
        task.count < i32::MAX,
    ensures
        balanced(tick_board(board, task)),
        consistent(tick_board(board, task), tick_task(task)),
{
    lemma_frames_total_insert(board.frames, task.id, (task.count + 1) as i32);
}

/// A tick of one camera leaves every other camera consistent with the board:
/// only the ticking camera's entry changes.
pub proof fn lemma_tick_keeps_others(board: BoardView, task: FrameTaskView, other: FrameTaskView)
    requires
        other.id != task.id,
        consistent(board, other),
    ensures
        consistent(tick_board(board, task), other),
{
}

/// A tick keeps the gap between the shared counter and the sum of the table,
/// whatever the counter started at, as long as the ticking camera is
/// consistent with the board; and the camera stays consistent. (A tick that
/// would take the counter or the count past `i32::MAX` panics instead.)
pub proof fn lemma_tick_keeps_offset(board: BoardView, task: FrameTaskView)
    requires
        board.frames.dom().finite(),
        consistent(board, task),
        board.counter < i32::MAX,
        task.count < i32::MAX,
    ensures
        tick_board(board, task).frames.dom().finite(),
        tick_board(board, task).counter - frames_total(tick_board(board, task).frames)
            == board.counter - frames_total(board.frames),
        consistent(tick_board(board, task), tick_task(task)),
{
    lemma_frames_total_insert(board.frames, task.id, (task.count + 1) as i32);
}

/// A run of events on the shared board: `counters[k]` is the counter before
/// event `k`, and `ticks[k]` says whether event `k` was a tick (which adds one)
/// or a Ctrl+C or cancel (which changes nothing).
pub open spec fn board_run(counters: Seq<int>, ticks: Seq<bool>) -> bool {
    &&& counters.len() == ticks.len() + 1
    &&& forall|k: int|
        0 <= k < ticks.len() ==> #[trigger] counters[k + 1] == counters[k] + (if ticks[k] {
            1int
        } else {
            0int
        })
}

/// Event `k` of the run is the tick after which its camera stops at the goal.
pub open spec fn stops_at_goal(counters: Seq<int>, ticks: Seq<bool>, k: int) -> bool {
    0 <= k < ticks.len() && ticks[k] && counters[k + 1] == FRAME_GOAL
}

proof fn lemma_run_monotone(counters: Seq<int>, ticks: Seq<bool>, a: int, b: int)
    requires
        board_run(counters, ticks),
        0 <= a <= b < counters.len(),
    ensures
        counters[a] <= counters[b],
    decreases b - a,
{
    if a < b {
        lemma_run_monotone(counters, ticks, a, b - 1);
        assert(counters[(b - 1) + 1] == counters[b - 1] + (if ticks[b - 1] { 1int } else { 0int }));
    }
}

proof fn lemma_run_reaches(counters: Seq<int>, ticks: Seq<bool>, n: int)
    requires
        board_run(counters, ticks),
        0 <= n < counters.len(),
        counters[0] < FRAME_GOAL <= counters[n],
    ensures
        exists|k: int| stops_at_goal(counters, ticks, k),
    decreases n,
{
    if counters[n - 1] >= FRAME_GOAL {
        lemma_run_reaches(counters, ticks, n - 1);
    } else {
        assert(counters[(n - 1) + 1] == counters[n - 1] + (if ticks[n - 1] { 1int } else { 0int }));
        assert(stops_at_goal(counters, ticks, n - 1));
    }
}

/// In a run of events on the shared board, at most one tick brings the
/// counter to the goal, so at most one camera stops there; and when the
/// counter starts below the goal and ends at or above it, exactly one does.
pub proof fn lemma_one_camera_stops_at_goal(counters: Seq<int>, ticks: Seq<bool>)
    requires
        board_run(counters, ticks),
    ensures
        forall|a: int, b: int|
            stops_at_goal(counters, ticks, a) && stops_at_goal(counters, ticks, b) ==> a == b,
        counters[0] < FRAME_GOAL <= counters.last() ==> exists|k: int|
            stops_at_goal(counters, ticks, k),
{
    assert forall|a: int, b: int|
        stops_at_goal(counters, ticks, a) && stops_at_goal(counters, ticks, b) implies a == b by {
        if a < b {
            lemma_run_monotone(counters, ticks, a + 1, b);
            assert(counters[b + 1] == counters[b] + 1);
        } else if b < a {
            lemma_run_monotone(counters, ticks, b + 1, a);
            assert(counters[a + 1] == counters[a] + 1);
        }
    }
    if counters[0] < FRAME_GOAL <= counters.last() {
        lemma_run_reaches(counters, ticks, counters.len() - 1);
    }
}

/// Distinct cameras are filed under distinct keys.
pub proof fn lemma_frame_key_injective(a: i32, b: i32)
    requires
        frame_key(a) == frame_key(b),
    ensures
        a == b,
{
    reveal_strlit("CAM");
    assert(int_decimal(a as int) =~= frame_key(a).skip(3));
    assert(int_decimal(b as int) =~= frame_key(b).skip(3));
    crate::decimal::lemma_int_decimal_injective(a, b);
}

impl FrameBoard {
    /// A board with the counter at zero and an empty table.
    pub fn new() -> (board: FrameBoard)
        ensures
            board@.counter == 0,
            board@.frames == Map::<i32, i32>::empty(),
            balanced(board@),
    {
        let board = FrameBoard { counter: 0, frames: HashMap::new() };
        assert(frames_total(board@.frames) == 0);
        board
    }

    /// The shared counter.
    pub fn counter(&self) -> (c: i32)
        ensures
            c == self@.counter,
    {
        self.counter
    }

    /// The frame table, keyed by camera id.
    pub fn frames(&self) -> (m: &HashMap<i32, i32>)
        ensures
            m@ == self@.frames,
    {
        &self.frames
    }
}

impl FrameTask {
    /// Camera `id`, which has counted no frame yet.
    pub fn new(id: i32) -> (task: FrameTask)
        ensures
            task@ == (FrameTaskView { id, count: 0 }),
    {
        FrameTask { id, count: 0 }
    }

    /// The camera id.
    pub fn id(&self) -> (id: i32)
        ensures
            id == self@.id,
    {
        self.id
    }

    /// The frames this camera counted.
    pub fn count(&self) -> (count: i32)
        ensures
            count == self@.count,
    {
        self.count
    }

    /// Handles one event. Ctrl+C and a cancel stop the task and change
    /// nothing. A tick adds one to the shared counter and to the task's count,
    /// files the new count under the task's id, and stops the task exactly when
    /// the counter reaches `FRAME_GOAL`.
    pub fn on_event(&mut self, board: &mut FrameBoard, event: FrameEvent) -> (step: FrameStep)
        requires
            event == FrameEvent::Tick ==> old(board)@.counter < i32::MAX && old(self)@.count
                < i32::MAX,
        ensures
            final(self)@.id == old(self)@.id,
            match event {
                FrameEvent::CtrlC => {
                    &&& final(self)@ == old(self)@
                    &&& final(board)@ == old(board)@
                    &&& step.lines@.map_values(|l: String| l@) == seq![ctrl_c_line(old(self)@.id)]
                    &&& !step.keep_running
                    &&& step.lines@.len() == 1
                    &&& step.lines@[0]@ == "Got Ctrl+C signal, break loop... task"@ + int_decimal(
                        old(self)@.id as int,
                    )
                },
                FrameEvent::Cancel => {
                    &&& final(self)@ == old(self)@
                    &&& final(board)@ == old(board)@
                    &&& step.lines@.map_values(|l: String| l@) == seq![cancel_line(old(self)@.id)]
                    &&& !step.keep_running
                    &&& step.lines@.len() == 1
                    &&& step.lines@[0]@ == "Got cancel, break loop... task"@ + int_decimal(
                        old(self)@.id as int,
                    )
                },
                FrameEvent::Tick => {
                    &&& final(board)@ == tick_board(old(board)@, old(self)@)
                    &&& final(self)@ == tick_task(old(self)@)
                    &&& step.lines@.map_values(|l: String| l@) == tick_lines(
                        final(board)@.counter,
                        old(self)@.id,
                        final(self)@.count,
                    )
                    &&& step.keep_running == (final(board)@.counter != FRAME_GOAL)
                    &&& step.lines@.len() == (if final(board)@.counter == 100 {
                        2int
                    } else {
                        1int
                    })
                    &&& final(board)@.counter == 100 ==> step.lines@[1]@
                        == "Finish, break loop... task"@ + int_decimal(old(self)@.id as int)
                    &&& final(board)@.counter == old(board)@.counter + 1
                    &&& final(self)@.count == old(self)@.count + 1
                    &&& final(board)@.frames == old(board)@.frames.insert(old(self)@.id, final(self)@.count)
                    &&& step.lines@[0]@ == "Finish, add 1 and sum = "@ + int_decimal(
                        final(board)@.counter as int,
                    ) + "... task"@ + int_decimal(old(self)@.id as int) + " = "@ + int_decimal(
                        final(self)@.count as int,
                    )
                },
            },
            balanced(old(board)@) && consistent(old(board)@, old(self)@) ==> balanced(
                final(board)@,
            ) && consistent(final(board)@, final(self)@),
            consistent(old(board)@, old(self)@) ==> final(board)@.counter - frames_total(
                final(board)@.frames,
            ) == old(board)@.counter - frames_total(old(board)@.frames) && consistent(
                final(board)@,
                final(self)@,
            ),
    {
        match event {
            FrameEvent::CtrlC => {
                let mut lines = Vec::new();
                lines.push(prefixed_i32("Got Ctrl+C signal, break loop... task", self.id));
                assert(lines@.map_values(|l: String| l@) =~= seq![ctrl_c_line(self.id)]);
                FrameStep { lines, keep_running: false }
            },
            FrameEvent::Cancel => {
                let mut lines = Vec::new();
                lines.push(prefixed_i32("Got cancel, break loop... task", self.id));
                assert(lines@.map_values(|l: String| l@) =~= seq![cancel_line(self.id)]);
                FrameStep { lines, keep_running: false }
            },
            FrameEvent::Tick => {
                proof {
                    if balanced(board@) && consistent(board@, self@) {
                        lemma_tick_keeps_balance(board@, self@);
                    }
                    if consistent(board@, self@) {
                        lemma_tick_keeps_offset(board@, self@);
                    }
                }
                board.counter = board.counter + 1;
                let num = board.counter;
                self.count = self.count + 1;
                board.frames.insert(self.id, self.count);
                let mut line = prefixed_i32("Finish, add 1 and sum = ", num);
                line.append("... task");
                push_decimal_i32(&mut line, self.id);
                line.append(" = ");
                push_decimal_i32(&mut line, self.count);
                assert(line@ =~= tick_line(num, self.id, self.count));
                let mut lines = Vec::new();
                lines.push(line);
                if num == FRAME_GOAL {
                    lines.push(prefixed_i32("Finish, break loop... task", self.id));
                    assert(lines@.map_values(|l: String| l@) =~= tick_lines(
                        num,
                        self.id,
                        self.count,
                    ));
                    FrameStep { lines, keep_running: false }
                } else {
                    assert(lines@.map_values(|l: String| l@) =~= tick_lines(
                        num,
                        self.id,
                        self.count,
                    ));
                    FrameStep { lines, keep_running: true }
                }
            },
        }
    }
}

/// The tick line prints the shared counter as its sum and the camera's own
/// count last: right after `Finish, add 1 and sum = ` stand the digits of the
/// counter, and the line ends with the digits of the count, and each of them
/// reads back as the number it was written from.
pub proof fn lemma_tick_line_numbers(counter: i32, id: i32, count: i32)
    ensures
        tick_line(counter, id, count).subrange(24, 24int + int_decimal(counter as int).len())
            == int_decimal(counter as int),
        tick_line(counter, id, count).skip(
            tick_line(counter, id, count).len() - int_decimal(count as int).len(),
        ) == int_decimal(count as int),
        crate::decimal::parse_i32_spec(
            crate::decimal::ascii_bytes(
                tick_line(counter, id, count).subrange(24, 24int + int_decimal(counter as int).len()),
            ),
        ) == Some(counter),
        crate::decimal::parse_i32_spec(
            crate::decimal::ascii_bytes(
                tick_line(counter, id, count).skip(
                    tick_line(counter, id, count).len() - int_decimal(count as int).len(),
                ),
            ),
        ) == Some(count),
{
    reveal_strlit("Finish, add 1 and sum = ");
    let line = tick_line(counter, id, count);
    let a = "Finish, add 1 and sum = "@;
    let dc = int_decimal(counter as int);
    let rest = "... task"@ + int_decimal(id as int) + " = "@;
    let dn = int_decimal(count as int);
    assert(line =~= a + dc + rest + dn);
    assert(line.subrange(24, 24int + dc.len()) =~= dc);
    assert(line.skip(line.len() - dn.len()) =~= dn);
    crate::decimal::lemma_parse_decimal_roundtrip(counter);
    crate::decimal::lemma_parse_decimal_roundtrip(count);
}

/// The key `CAM<id>` under which camera `id` is filed.
pub fn frame_key_text(id: i32) -> (key: String)
    ensures
        key@ == frame_key(id),
{
    prefixed_i32("CAM", id)
}

/// The line `CAM<id> => <count>` that lists one entry of the table.
pub fn frame_entry_text(id: i32, count: i32) -> (line: String)
    ensures
        line@ == frame_entry_line(id, count),
{
    let mut line = prefixed_i32("CAM", id);
    line.append(" => ");
    push_decimal_i32(&mut line, count);
    assert(line@ =~= frame_entry_line(id, count));
    line
}

} // verus!
