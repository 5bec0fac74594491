use playground::frames::{frame_entry_text, frame_key_text, FrameBoard, FrameEvent, FrameTask, FRAME_GOAL};

#[test]
fn tick_counts_and_files_the_frame() {
    let mut board = FrameBoard::new();
    let mut cam = FrameTask::new(3);
    let step = cam.on_event(&mut board, FrameEvent::Tick);
    assert!(step.keep_running);
    assert_eq!(step.lines, vec!["Finish, add 1 and sum = 1... task3 = 1".to_string()]);
    assert_eq!(board.counter(), 1);
    assert_eq!(cam.count(), 1);
    assert_eq!(board.frames().get(&3), Some(&1));
}

#[test]
fn ctrl_c_and_cancel_stop_without_counting() {
    let mut board = FrameBoard::new();
    let mut cam = FrameTask::new(2);
    let step = cam.on_event(&mut board, FrameEvent::CtrlC);
    assert!(!step.keep_running);
    assert_eq!(step.lines, vec!["Got Ctrl+C signal, break loop... task2".to_string()]);
    let step = cam.on_event(&mut board, FrameEvent::Cancel);
    assert!(!step.keep_running);
    assert_eq!(step.lines, vec!["Got cancel, break loop... task2".to_string()]);
    assert_eq!(board.counter(), 0);
    assert!(board.frames().is_empty());
}

#[test]
fn the_camera_that_reaches_the_goal_stops() {
    let mut board = FrameBoard::new();
    let mut cams: Vec<FrameTask> = (1..=4).map(FrameTask::new).collect();
    let mut stopped = None;
    'outer: loop {
        for cam in cams.iter_mut() {
            let step = cam.on_event(&mut board, FrameEvent::Tick);
            if !step.keep_running {
                assert_eq!(step.lines.len(), 2);
                assert_eq!(step.lines[1], format!("Finish, break loop... task{}", cam.id()));
                stopped = Some(cam.id());
                break 'outer;
            }
        }
    }
    assert_eq!(board.counter(), FRAME_GOAL);
    assert_eq!(stopped, Some(4));
    let total: i32 = board.frames().values().sum();
    assert_eq!(total, board.counter());
    for cam in &cams {
        assert_eq!(board.frames().get(&cam.id()), Some(&cam.count()));
    }
}

#[test]
fn keys_and_entry_lines() {
    assert_eq!(frame_key_text(1), "CAM1");
    assert_eq!(frame_key_text(-12), "CAM-12");
    assert_eq!(frame_entry_text(4, 25), "CAM4 => 25");
}
