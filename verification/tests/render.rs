use rust_esp_starter::console::SharedConsoleState;
use rust_esp_starter::render::{paint_plan, render_plan, PlacedLine, TICK_MS};
use rust_esp_starter::worker::{
    InputAction, InputState, InputWorker, RenderAction, RenderState, RenderWorker,
};

#[test]
fn lines_are_placed_at_a_fixed_cadence() {
    let lines = vec!["one".to_string(), "two".to_string(), "three".to_string()];
    let plan = paint_plan(&lines);
    assert_eq!(
        plan,
        vec![
            PlacedLine { x: 5, y: 15, text: "one".to_string() },
            PlacedLine { x: 5, y: 30, text: "two".to_string() },
            PlacedLine { x: 5, y: 45, text: "three".to_string() },
        ]
    );
    assert!(paint_plan(&Vec::new()).is_empty());
}

#[test]
fn lines_below_the_visible_area_are_left_out() {
    let lines: Vec<String> = (0..25).map(|i| format!("l{}", i)).collect();
    let plan = paint_plan(&lines);
    assert_eq!(plan.len(), 20);
    assert_eq!(plan[19].y, 300);
    assert_eq!(plan[19].text, "l19");
    for (i, placed) in plan.iter().enumerate() {
        assert_eq!(placed.x, 5);
        assert_eq!(placed.y, 15 + 15 * i as i32);
        assert!(placed.y < 305);
        assert_eq!(placed.text, lines[i]);
    }
    assert_eq!(paint_plan(&lines[..20].to_vec()).len(), 20);
    assert_eq!(paint_plan(&lines[..21].to_vec()).len(), 20);
}

#[test]
fn render_plan_places_the_whole_log() {
    let mut state = SharedConsoleState::new();
    for i in 0..30 {
        state.add_message(format!("m{}", i));
    }
    let plan = render_plan(&state);
    assert_eq!(plan.len(), 18);
    assert_eq!(plan[0].text, "m12");
    assert_eq!(plan[17].text, "m29");
    assert_eq!(plan[17].y, 15 + 17 * 15);
    assert_eq!(TICK_MS, 50);
}

#[test]
fn input_worker_stops_on_a_closed_stream() {
    let mut worker = InputWorker::new();
    assert_eq!(worker.state(), InputState::WaitingForLine);
    assert_eq!(worker.on_read("", 0), InputAction::Stop);
    assert_eq!(worker.state(), InputState::Stopped);
}

#[test]
fn input_worker_discards_blank_lines() {
    let mut worker = InputWorker::new();
    assert_eq!(worker.on_read("\n", 1), InputAction::Discard);
    assert_eq!(worker.state(), InputState::WaitingForLine);
    assert_eq!(worker.on_read("   \r\n", 5), InputAction::Discard);
    assert_eq!(worker.state(), InputState::WaitingForLine);
}

#[test]
fn input_worker_dispatches_trimmed_lines() {
    let mut worker = InputWorker::new();
    assert_eq!(
        worker.on_read("  ls data \n", 11),
        InputAction::Dispatch { line: "ls data".to_string() }
    );
    assert_eq!(worker.state(), InputState::ProcessingLine);
    worker.on_dispatched();
    assert_eq!(worker.state(), InputState::WaitingForLine);
}

#[test]
fn input_worker_stops_on_a_fault() {
    let mut worker = InputWorker::new();
    worker.on_fault();
    assert_eq!(worker.state(), InputState::Stopped);
}

#[test]
fn render_worker_repaints_only_when_asked() {
    let mut state = SharedConsoleState::new();
    let mut worker = RenderWorker::new();
    assert_eq!(worker.state(), RenderState::Idle);
    let first = state.take_redraw();
    assert_eq!(worker.on_poll(first), RenderAction::Repaint);
    assert_eq!(worker.state(), RenderState::Painting);
    assert!(worker.on_painted(true));
    assert_eq!(worker.state(), RenderState::Idle);
    let second = state.take_redraw();
    assert_eq!(worker.on_poll(second), RenderAction::Sleep);
    assert_eq!(worker.state(), RenderState::Idle);
}

#[test]
fn render_worker_gives_up_on_a_display_fault() {
    let mut worker = RenderWorker::new();
    assert_eq!(worker.on_poll(true), RenderAction::Repaint);
    assert!(!worker.on_painted(false));
    assert_eq!(worker.state(), RenderState::Failed);
}
