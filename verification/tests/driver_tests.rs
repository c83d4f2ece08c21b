use maxtui::driver::{
    transition, model_step, App, DriverAction, DriverModel, DriverSignal, DriverState,
};
use maxtui::layout::Constraint;
use maxtui::widget::{Paragraph, Widget};

#[test]
fn start_enters_terminal_then_runs() {
    let (s1, a1) = transition(DriverState::Stopped, DriverSignal::StartRequested);
    assert_eq!(s1, DriverState::Starting);
    assert_eq!(a1, DriverAction::EnterTerminal);
    let (s2, a2) = transition(s1, DriverSignal::InitSucceeded);
    assert_eq!(s2, DriverState::Running);
    assert_eq!(a2, DriverAction::RenderFrame);
}

#[test]
fn init_failure_still_restores_the_terminal() {
    let m = DriverModel { state: DriverState::Starting, raw_mode: true };
    let m1 = model_step(m, DriverSignal::InitFailed);
    assert_eq!(m1.state, DriverState::Stopping);
    assert!(!m1.raw_mode);
    let m2 = model_step(m1, DriverSignal::RestoreDone);
    assert_eq!(m2.state, DriverState::Stopped);
    assert!(!m2.raw_mode);
}

#[test]
fn write_failure_stops_and_leaves_raw_mode_disabled() {
    // Raw mode enabled, then a simulated render-write failure.
    let mut m = DriverModel { state: DriverState::Stopped, raw_mode: false };
    m = model_step(m, DriverSignal::StartRequested);
    assert!(m.raw_mode);
    m = model_step(m, DriverSignal::InitSucceeded);
    assert_eq!(m.state, DriverState::Running);
    m = model_step(m, DriverSignal::WriteFailed);
    assert_eq!(m.state, DriverState::Stopping);
    assert!(!m.raw_mode);
    m = model_step(m, DriverSignal::RestoreDone);
    assert_eq!(m.state, DriverState::Stopped);
    assert!(!m.raw_mode);
}

#[test]
fn stop_request_ends_the_running_phase_within_one_poll() {
    // The loop blocks in its bounded poll; stop() flips the flag from
    // another thread. The first signal the loop observes after the poll
    // returns leaves Running at once.
    let m = DriverModel { state: DriverState::Running, raw_mode: true };
    let (next, action) = transition(m.state, DriverSignal::StopRequested);
    assert_eq!(next, DriverState::Stopping);
    assert_eq!(action, DriverAction::RestoreTerminal);
    let m1 = model_step(m, DriverSignal::StopRequested);
    assert!(!m1.raw_mode);
}

#[test]
fn app_starts_with_the_documented_defaults() {
    let a = App::new();
    assert_eq!(a.state, DriverState::Stopped);
    assert!(a.is_running());
    assert_eq!(a.fps, 30);
    assert_eq!(a.theme, "dark");
}

#[test]
fn control_surface_updates_the_shared_fields() {
    let mut a = App::new();
    a.set_fps(60);
    assert_eq!(a.fps, 60);
    a.set_theme(String::from("light"));
    assert_eq!(a.theme, "light");
    a.stop();
    assert!(!a.is_running());
}

#[test]
fn app_step_follows_the_transition_function() {
    let mut a = App::new();
    let act = a.step(DriverSignal::StartRequested);
    assert_eq!(a.state, DriverState::Starting);
    assert_eq!(act, DriverAction::EnterTerminal);
    let act2 = a.step(DriverSignal::InitSucceeded);
    assert_eq!(a.state, DriverState::Running);
    assert_eq!(act2, DriverAction::RenderFrame);
    let act3 = a.step(DriverSignal::StopRequested);
    assert_eq!(a.state, DriverState::Stopping);
    assert_eq!(act3, DriverAction::RestoreTerminal);
}

#[test]
fn frame_emits_only_the_changed_cells_and_swaps() {
    let mut a = App::new();
    a.resize_frame(4, 1);
    let widgets = vec![Widget::Paragraph(Paragraph::new(String::from("hi")))];
    let cons = vec![Constraint::Fill(1)];

    let writes = a.frame(&widgets, &cons);
    let symbols: Vec<(u16, u16, char)> = writes.iter().map(|w| (w.0, w.1, w.2.symbol)).collect();
    assert_eq!(symbols, vec![(0, 0, 'h'), (1, 0, 'i')]);

    // The same frame again differs in nothing: the diff is empty.
    let writes2 = a.frame(&widgets, &cons);
    assert!(writes2.is_empty());
}

#[test]
fn frame_after_content_change_rewrites_the_changed_cells_only() {
    let mut a = App::new();
    a.resize_frame(4, 1);
    let cons = vec![Constraint::Fill(1)];
    let first = vec![Widget::Paragraph(Paragraph::new(String::from("ha")))];
    a.frame(&first, &cons);
    let second = vec![Widget::Paragraph(Paragraph::new(String::from("ho")))];
    let writes = a.frame(&second, &cons);
    let symbols: Vec<(u16, u16, char)> = writes.iter().map(|w| (w.0, w.1, w.2.symbol)).collect();
    assert_eq!(symbols, vec![(1, 0, 'o')]);
}

#[test]
fn frame_lays_widgets_into_their_chunks_and_leaves_the_rest() {
    let mut a = App::new();
    a.resize_frame(3, 3);
    let widgets = vec![
        Widget::Paragraph(Paragraph::new(String::from("ab"))),
        Widget::Paragraph(Paragraph::new(String::from("cd"))),
    ];
    let cons = vec![Constraint::Fixed(1), Constraint::Fixed(1)];
    let writes = a.frame(&widgets, &cons);
    let symbols: Vec<(u16, u16, char)> = writes.iter().map(|w| (w.0, w.1, w.2.symbol)).collect();
    // Each paragraph lands on its own row; the row below both chunks keeps
    // the back buffer's default cells, so nothing is written there.
    assert_eq!(symbols, vec![(0, 0, 'a'), (1, 0, 'b'), (0, 1, 'c'), (1, 1, 'd')]);
}

#[test]
fn resize_frame_resets_both_buffers() {
    let mut a = App::new();
    a.resize_frame(3, 2);
    let widgets = vec![Widget::Paragraph(Paragraph::new(String::from("xyz")))];
    let cons = vec![Constraint::Fill(1)];
    a.frame(&widgets, &cons);
    a.resize_frame(3, 2);
    // Nothing carried over: rendering the same content writes every cell anew.
    let writes = a.frame(&widgets, &cons);
    let symbols: Vec<char> = writes.iter().map(|w| w.2.symbol).collect();
    assert_eq!(symbols, vec!['x', 'y', 'z']);
}
