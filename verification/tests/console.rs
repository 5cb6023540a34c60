use std::cell::RefCell;
use std::rc::Rc;

use console_logging::console_ui::{
    seconds_string, swimlane_label, swimlane_updates, ConsoleMessage, ConsoleUI, LoopStep,
    StderrRoute, SwimlaneUpdate,
};
use console_logging::logger::PantsLogger;

type Handler = Box<dyn Fn(&str) -> Result<(), ()>>;

fn handler() -> Handler {
    Box::new(|_line: &str| Ok(()))
}

fn task(label: &str, millis: Option<u128>) -> (String, Option<u128>) {
    (label.to_string(), millis)
}

fn running() -> (ConsoleUI, PantsLogger<Handler>) {
    let mut logger: PantsLogger<Handler> = PantsLogger::new(Vec::new());
    let mut ui = ConsoleUI::new();
    assert_eq!(ui.initialize(&mut logger, handler()), Ok(()));
    (ui, logger)
}

#[test]
fn durations_have_two_decimal_places() {
    assert_eq!(seconds_string(1234), "1.23");
    assert_eq!(seconds_string(0), "0.00");
    assert_eq!(seconds_string(4), "0.00");
    assert_eq!(seconds_string(5), "0.01");
    assert_eq!(seconds_string(50), "0.05");
    assert_eq!(seconds_string(999), "1.00");
    assert_eq!(seconds_string(1000), "1.00");
    assert_eq!(seconds_string(1236), "1.24");
    assert_eq!(seconds_string(59_994), "59.99");
    assert_eq!(seconds_string(59_995), "60.00");
    assert_eq!(seconds_string(3_600_000), "3600.00");
    assert_eq!(
        seconds_string(u128::MAX),
        "340282366920938463463374607431768211.46"
    );
}

#[test]
fn labels_show_time_or_waiting() {
    assert_eq!(swimlane_label("Compiling", Some(1234)), "1.23s Compiling");
    assert_eq!(swimlane_label("Compiling", None), "(Waiting) Compiling");
    assert_eq!(swimlane_label("", Some(0)), "0.00s ");
    assert_eq!(swimlane_label("", None), "(Waiting) ");
    assert_eq!(
        ConsoleUI::get_label_from_heavy_hitters(&vec![
            task("A", Some(1000)),
            task("B", None),
            task("C", Some(61_005)),
        ]),
        vec!["1.00s A".to_string(), "(Waiting) B".to_string(), "61.01s C".to_string()]
    );
    assert!(ConsoleUI::get_label_from_heavy_hitters(&Vec::new()).is_empty());
}

#[test]
fn rates() {
    assert_eq!(ConsoleUI::render_rate_hz(), 10);
    assert_eq!(ConsoleUI::render_interval(), 100);
    assert_eq!(ConsoleUI::draw_rate_hz(), 20);
    assert_eq!(ConsoleUI::max_displayed_swimlanes(), 8);
}

#[test]
fn a_session_starts_empty() {
    let mut logger: PantsLogger<Handler> = PantsLogger::new(Vec::new());
    let mut ui = ConsoleUI::new();
    assert!(!ui.is_running());
    assert_eq!(ui.logger_handle(), None);
    assert_eq!(ui.initialize(&mut logger, handler()), Ok(()));
    assert!(ui.is_running());
    assert!(ui.tasks().is_empty());
    assert!(ui.bars().is_empty());
    let handle = ui.logger_handle().unwrap();
    assert_eq!(logger.stderr_handlers().identifiers(), vec![handle]);
}

#[test]
fn a_second_initialize_fails() {
    let (mut ui, mut logger) = running();
    ui.render(&vec![task("A", Some(1000)), task("B", None)]);
    let handle = ui.logger_handle();
    let lines = Rc::new(RefCell::new(Vec::new()));
    let seen = Rc::clone(&lines);
    let second: Handler = Box::new(move |line: &str| {
        seen.borrow_mut().push(line.to_string());
        Ok(())
    });
    assert_eq!(
        ui.initialize(&mut logger, second),
        Err("A ConsoleUI cannot render multiple UIs concurrently.".to_string())
    );
    // The first session is as it was.
    assert!(ui.is_running());
    assert_eq!(ui.logger_handle(), handle);
    assert_eq!(ui.tasks(), vec![task("A", Some(1000)), task("B", None)]);
    assert_eq!(ui.bars(), vec!["1.00s A".to_string(), "(Waiting) B".to_string()]);
    assert_eq!(logger.stderr_handlers().len(), 1);
}

#[test]
fn teardown_ends_the_session() {
    let (mut ui, mut logger) = running();
    ui.render(&vec![task("A", None)]);
    assert!(ui.teardown(&mut logger));
    assert!(!ui.is_running());
    assert!(ui.tasks().is_empty());
    assert!(ui.bars().is_empty());
    assert_eq!(logger.stderr_handlers().len(), 0);
    // A new session can start.
    assert_eq!(ui.initialize(&mut logger, handler()), Ok(()));
    assert!(ui.tasks().is_empty());
    assert_eq!(logger.stderr_handlers().len(), 1);
}

#[test]
fn teardown_without_a_session_changes_nothing() {
    let mut logger: PantsLogger<Handler> = PantsLogger::new(Vec::new());
    let other = logger.register_stderr_handler(handler());
    let mut ui = ConsoleUI::new();
    assert!(!ui.teardown(&mut logger));
    assert!(!ui.teardown(&mut logger));
    assert!(!ui.is_running());
    assert_eq!(logger.stderr_handlers().identifiers(), vec![other]);
    assert_eq!(ConsoleUI::teardown_result(Ok(())), Ok(()));
}

#[test]
fn a_failed_drawing_is_reported() {
    assert_eq!(
        ConsoleUI::teardown_result(Err("Broken pipe (os error 32)".to_string())),
        Err("Failed to render UI: Broken pipe (os error 32)".to_string())
    );
}

#[test]
fn teardown_leaves_other_handlers() {
    let mut logger: PantsLogger<Handler> = PantsLogger::new(Vec::new());
    let other = logger.register_stderr_handler(handler());
    let mut ui = ConsoleUI::new();
    ui.initialize(&mut logger, handler()).unwrap();
    assert_eq!(logger.stderr_handlers().len(), 2);
    assert!(ui.teardown(&mut logger));
    assert_eq!(logger.stderr_handlers().identifiers(), vec![other]);
}

#[test]
fn render_without_a_session_does_nothing() {
    let mut ui = ConsoleUI::new();
    assert!(ui.render(&vec![task("A", None)]).is_empty());
    assert!(!ui.is_running());
    assert!(ui.tasks().is_empty());
}

#[test]
fn render_merges_and_prunes() {
    let (mut ui, _logger) = running();
    ui.render(&vec![task("A", Some(1000)), task("B", None)]);
    assert_eq!(ui.tasks(), vec![task("A", Some(1000)), task("B", None)]);

    // B takes the reported time, C is new and comes last, A is gone from
    // the report and B moves up.
    let updates = ui.render(&vec![task("B", Some(2000)), task("C", None)]);
    assert_eq!(ui.tasks(), vec![task("B", Some(2000)), task("C", None)]);
    assert_eq!(ui.bars(), vec!["2.00s B".to_string(), "(Waiting) C".to_string()]);
    assert_eq!(
        updates,
        vec![
            SwimlaneUpdate::SetMessage { lane: 0, message: "2.00s B".to_string() },
            SwimlaneUpdate::SetMessage { lane: 1, message: "(Waiting) C".to_string() },
        ]
    );
}

#[test]
fn a_task_stays_while_it_is_reported() {
    let (mut ui, _logger) = running();
    ui.render(&vec![task("A", Some(1000)), task("B", None)]);
    ui.render(&vec![task("B", Some(2000)), task("C", None), task("A", Some(1100))]);
    assert_eq!(
        ui.tasks(),
        vec![task("A", Some(1100)), task("B", Some(2000)), task("C", None)]
    );
    // A is pruned by the first report that lacks it; B and C stay in their
    // order, whatever the order of the report.
    ui.render(&vec![task("C", Some(5)), task("B", Some(2100))]);
    assert_eq!(ui.tasks(), vec![task("B", Some(2100)), task("C", Some(5))]);
    ui.render(&Vec::new());
    assert!(ui.tasks().is_empty());
    assert!(ui.bars().is_empty());
}

#[test]
fn tasks_keep_their_lanes() {
    let (mut ui, _logger) = running();
    let first: Vec<_> = ["a", "b", "c", "d", "e"].iter().map(|l| task(l, None)).collect();
    ui.render(&first);
    assert_eq!(ui.tasks(), first);
    // The report's order does not matter for tasks on display.
    let shuffled: Vec<_> = ["e", "c", "a", "d", "b"].iter().map(|l| task(l, Some(10))).collect();
    ui.render(&shuffled);
    let kept: Vec<_> = ["a", "b", "c", "d", "e"].iter().map(|l| task(l, Some(10))).collect();
    assert_eq!(ui.tasks(), kept);
    // b and d leave: the tasks after them move up, in their order.
    ui.render(&vec![task("e", None), task("a", None), task("c", None)]);
    assert_eq!(ui.tasks(), vec![task("a", None), task("c", None), task("e", None)]);
    // New tasks come after those that stay, in the order of the report.
    ui.render(&vec![task("z", None), task("e", None), task("y", None), task("c", None)]);
    assert_eq!(
        ui.tasks(),
        vec![task("c", None), task("e", None), task("z", None), task("y", None)]
    );
}

#[test]
fn a_label_reported_twice_is_shown_once() {
    let (mut ui, _logger) = running();
    ui.render(&vec![task("A", Some(1)), task("B", None), task("A", Some(700))]);
    assert_eq!(ui.tasks(), vec![task("A", Some(700)), task("B", None)]);
}

#[test]
fn lanes_follow_the_tasks() {
    let (mut ui, _logger) = running();
    let updates = ui.render(&vec![task("A", Some(1000)), task("B", None), task("C", None)]);
    assert_eq!(
        updates,
        vec![
            SwimlaneUpdate::Create { message: "1.00s A".to_string() },
            SwimlaneUpdate::Create { message: "(Waiting) B".to_string() },
            SwimlaneUpdate::Create { message: "(Waiting) C".to_string() },
        ]
    );
    let updates = ui.render(&vec![task("A", Some(1100))]);
    assert_eq!(
        updates,
        vec![
            SwimlaneUpdate::SetMessage { lane: 0, message: "1.10s A".to_string() },
            SwimlaneUpdate::Remove { lane: 2 },
            SwimlaneUpdate::Remove { lane: 1 },
        ]
    );
    assert_eq!(ui.bars(), vec!["1.10s A".to_string()]);
    let updates = ui.render(&vec![task("A", Some(1200)), task("D", None)]);
    assert_eq!(
        updates,
        vec![
            SwimlaneUpdate::SetMessage { lane: 0, message: "1.20s A".to_string() },
            SwimlaneUpdate::Create { message: "(Waiting) D".to_string() },
        ]
    );
}

#[test]
fn updates_for_lanes() {
    let labels = vec!["x".to_string(), "y".to_string()];
    assert_eq!(
        swimlane_updates(0, &labels),
        vec![
            SwimlaneUpdate::Create { message: "x".to_string() },
            SwimlaneUpdate::Create { message: "y".to_string() },
        ]
    );
    assert_eq!(
        swimlane_updates(2, &labels),
        vec![
            SwimlaneUpdate::SetMessage { lane: 0, message: "x".to_string() },
            SwimlaneUpdate::SetMessage { lane: 1, message: "y".to_string() },
        ]
    );
    assert_eq!(
        swimlane_updates(4, &labels),
        vec![
            SwimlaneUpdate::SetMessage { lane: 0, message: "x".to_string() },
            SwimlaneUpdate::SetMessage { lane: 1, message: "y".to_string() },
            SwimlaneUpdate::Remove { lane: 3 },
            SwimlaneUpdate::Remove { lane: 2 },
        ]
    );
    assert!(swimlane_updates(0, &Vec::new()).is_empty());
}

#[test]
fn fixed_lanes_show_labels_or_nothing() {
    let labels = vec!["x".to_string(), "y".to_string()];
    assert_eq!(
        ConsoleUI::lane_messages(&labels, 4),
        vec!["x".to_string(), "y".to_string(), String::new(), String::new()]
    );
    assert_eq!(ConsoleUI::lane_messages(&labels, 1), vec!["x".to_string()]);
    assert!(ConsoleUI::lane_messages(&labels, 0).is_empty());
}

#[test]
fn standard_error_goes_above_the_lanes() {
    let mut logger: PantsLogger<Handler> = PantsLogger::new(Vec::new());
    let mut ui = ConsoleUI::new();
    assert_eq!(ui.write_stderr(), StderrRoute::Direct);
    ui.initialize(&mut logger, handler()).unwrap();
    // There is no lane yet to print above.
    assert_eq!(ui.write_stderr(), StderrRoute::Direct);
    ui.render(&vec![task("A", None)]);
    assert_eq!(ui.write_stderr(), StderrRoute::AboveSwimlanes);
    ui.teardown(&mut logger);
    assert_eq!(ui.write_stderr(), StderrRoute::Direct);
}

#[test]
fn standard_output_ends_the_session() {
    let (mut ui, mut logger) = running();
    assert!(ui.write_stdout(&mut logger));
    assert!(!ui.is_running());
    assert_eq!(logger.stderr_handlers().len(), 0);
    assert!(!ui.write_stdout(&mut logger));
}

#[test]
fn work_runs_with_the_display_out_of_the_way() {
    let (mut ui, mut logger) = running();
    let answer = ui.with_console_ui_disabled(&mut logger, || 6 * 7);
    assert_eq!(answer, 42);
    assert!(!ui.is_running());
    assert_eq!(logger.stderr_handlers().len(), 0);
    let again = ui.with_console_ui_disabled(&mut logger, || "idle");
    assert_eq!(again, "idle");
}

#[test]
fn only_results_end_a_render_loop() {
    assert!(matches!(ConsoleUI::render_loop::<u8>(None), LoopStep::Continue));
    match ConsoleUI::render_loop(Some(ConsoleMessage::<u8>::Stdout("out".to_string()))) {
        LoopStep::HideAndPrint(text) => assert_eq!(text, "out"),
        _ => panic!("text for standard output was not printed"),
    }
    match ConsoleUI::render_loop(Some(ConsoleMessage::<u8>::Stderr("err".to_string()))) {
        LoopStep::PrintAbove(text) => assert_eq!(text, "err"),
        _ => panic!("text for standard error was not printed"),
    }
    match ConsoleUI::render_loop(Some(ConsoleMessage::FinalResult(vec![1u8, 2, 3]))) {
        LoopStep::Finish(results) => assert_eq!(results, vec![1, 2, 3]),
        _ => panic!("the results did not end the loop"),
    }
}
