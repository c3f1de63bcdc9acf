//! Paged output: where the pauses fall, what a pause consists of, and how
//! failures end the run.

use ricat::{
    get_terminal_height, page_size, paginate_output, wait_for_user_input, Pager, PagerAction,
    RicatError, StepOutcome, WaitProgress, WaitStep, DEFAULT_TERMINAL_HEIGHT, MORE_PROMPT,
};

/// What a driver saw in one run: the actions in order, and the result.
struct Run {
    actions: Vec<String>,
    result: Result<(), RicatError>,
}

fn name(action: &PagerAction) -> String {
    match action {
        PagerAction::WriteLine(index) => format!("line {}", index + 1),
        PagerAction::Wait(step) => format!("{:?}", step),
        PagerAction::Finish(_) => "finish".to_string(),
    }
}

/// Drives a pager over `line_count` lines. Every step succeeds and every read
/// yields a key, except that the action named `failing` fails with "boom".
fn drive(line_count: usize, height: u16, failing: Option<&str>) -> Run {
    let mut pager = Pager::new(line_count, height);
    let mut actions = Vec::new();
    let mut action = pager.action();
    loop {
        let label = name(&action);
        let outcome = match action {
            PagerAction::Finish(result) => return Run { actions, result },
            _ if failing == Some(label.as_str()) => StepOutcome::Failed("boom".to_string()),
            PagerAction::Wait(WaitStep::ReadEvent) => StepOutcome::KeyEvent,
            _ => StepOutcome::Completed,
        };
        actions.push(label);
        assert!(actions.len() < 10_000, "the pager does not come to an end");
        action = paginate_output(&mut pager, outcome);
    }
}

fn prompts(run: &Run) -> usize {
    run.actions.iter().filter(|action| action.as_str() == "WritePrompt").count()
}

/// The lines after which a prompt was written, counted from 1.
fn prompt_places(run: &Run) -> Vec<usize> {
    let mut places = Vec::new();
    let mut written = 0;
    for action in &run.actions {
        if action.starts_with("line ") {
            written += 1;
        } else if action == "WritePrompt" {
            places.push(written);
        }
    }
    places
}

const PAUSE: [&str; 9] = [
    "HideCursor",
    "WritePrompt",
    "Flush",
    "EnableRawMode",
    "ReadEvent",
    "DisableRawMode",
    "ShowCursor",
    "ClearLine",
    "MoveCursor",
];

#[test]
fn the_prompt_text() {
    assert_eq!(MORE_PROMPT, "--More--(press any key)");
}

#[test]
fn the_height_falls_back_to_twenty_four_rows() {
    assert_eq!(DEFAULT_TERMINAL_HEIGHT, 24);
    assert_eq!(get_terminal_height(None), 24);
    assert_eq!(get_terminal_height(Some(50)), 50);
    assert_eq!(get_terminal_height(Some(0)), 0);
}

#[test]
fn a_page_is_one_line_less_than_the_terminal_and_never_empty() {
    assert_eq!(page_size(24), 23);
    assert_eq!(page_size(9), 8);
    assert_eq!(page_size(3), 2);
    assert_eq!(page_size(2), 1);
    assert_eq!(page_size(1), 1);
    assert_eq!(page_size(0), 1);
    assert_eq!(page_size(u16::MAX), 65_534);
}

#[test]
fn nine_lines_on_pages_of_eight_pause_once_after_line_eight() {
    let run = drive(9, 9, None);
    assert_eq!(run.result, Ok(()));
    assert_eq!(prompts(&run), 1);
    assert_eq!(prompt_places(&run), vec![8]);
    let mut expected: Vec<String> = (1..=8).map(|i| format!("line {}", i)).collect();
    expected.extend(PAUSE.iter().map(|step| step.to_string()));
    expected.push("line 9".to_string());
    assert_eq!(run.actions, expected);
}

#[test]
fn a_full_last_page_is_followed_by_a_pause_too() {
    let run = drive(8, 9, None);
    assert_eq!(run.result, Ok(()));
    assert_eq!(prompt_places(&run), vec![8]);
    assert_eq!(run.actions.last().map(String::as_str), Some("MoveCursor"));
}

#[test]
fn there_is_a_prompt_after_every_full_page() {
    for height in [2u16, 3, 4, 9, 24] {
        let size = page_size(height);
        for line_count in 0..60 {
            let run = drive(line_count, height, None);
            assert_eq!(run.result, Ok(()));
            assert_eq!(prompts(&run), line_count / size);
            let expected: Vec<usize> = (1..=line_count / size).map(|k| k * size).collect();
            assert_eq!(prompt_places(&run), expected);
            if line_count % size != 0 {
                assert_eq!(prompts(&run), (line_count - 1) / size);
            }
        }
    }
}

#[test]
fn every_line_is_written_once_and_in_order() {
    let run = drive(30, 5, None);
    let lines: Vec<&String> = run.actions.iter().filter(|a| a.starts_with("line ")).collect();
    let expected: Vec<String> = (1..=30).map(|i| format!("line {}", i)).collect();
    assert_eq!(lines, expected.iter().collect::<Vec<_>>());
}

#[test]
fn no_lines_nothing_to_do() {
    let run = drive(0, 24, None);
    assert!(run.actions.is_empty());
    assert_eq!(run.result, Ok(()));
}

#[test]
fn a_degenerate_terminal_pauses_after_every_line() {
    let run = drive(3, 0, None);
    assert_eq!(prompt_places(&run), vec![1, 2, 3]);
    assert_eq!(run.result, Ok(()));
}

#[test]
fn the_pause_waits_until_a_key_is_pressed() {
    let mut pager = Pager::new(1, 2);
    let mut action = paginate_output(&mut pager, StepOutcome::Completed);
    while !matches!(action, PagerAction::Wait(WaitStep::ReadEvent)) {
        action = paginate_output(&mut pager, StepOutcome::Completed);
    }
    for _ in 0..5 {
        action = paginate_output(&mut pager, StepOutcome::OtherEvent);
        assert!(matches!(action, PagerAction::Wait(WaitStep::ReadEvent)));
    }
    action = paginate_output(&mut pager, StepOutcome::Completed);
    assert!(matches!(action, PagerAction::Wait(WaitStep::ReadEvent)));
    action = paginate_output(&mut pager, StepOutcome::KeyEvent);
    assert!(matches!(action, PagerAction::Wait(WaitStep::DisableRawMode)));
}

#[test]
fn a_failed_write_ends_the_run() {
    let run = drive(5, 24, Some("line 3"));
    assert_eq!(run.actions, vec!["line 1", "line 2", "line 3"]);
    assert_eq!(
        run.result,
        Err(RicatError::PaginationError("Error writing line: boom".to_string()))
    );
}

#[test]
fn a_failed_step_of_the_pause_ends_the_run_and_is_named() {
    let table = [
        ("HideCursor", "Error hiding cursor: boom"),
        ("WritePrompt", "Error writing line: boom"),
        ("Flush", "Error flushing output: boom"),
        ("EnableRawMode", "Error enabling raw mode: boom"),
        ("DisableRawMode", "Error disabling raw mode: boom"),
        ("ShowCursor", "Error showing cursor: boom"),
        ("ClearLine", "Error clearing current line: boom"),
        ("MoveCursor", "Error moving cursor to the beginning of the line: boom"),
    ];
    for (step, cause) in table {
        let run = drive(4, 3, Some(step));
        let place = PAUSE.iter().position(|s| *s == step).unwrap();
        let mut expected = vec!["line 1".to_string(), "line 2".to_string()];
        expected.extend(PAUSE[..=place].iter().map(|s| s.to_string()));
        assert_eq!(run.actions, expected, "{}", step);
        assert_eq!(
            run.result,
            Err(RicatError::PaginationError(format!("Error waiting for user input: {}", cause))),
            "{}",
            step
        );
    }
}

#[test]
fn a_failed_read_restores_the_input_mode_before_the_run_ends() {
    let run = drive(4, 3, Some("ReadEvent"));
    assert_eq!(
        run.actions,
        vec![
            "line 1",
            "line 2",
            "HideCursor",
            "WritePrompt",
            "Flush",
            "EnableRawMode",
            "ReadEvent",
            "DisableRawMode",
        ]
    );
    assert_eq!(
        run.result,
        Err(RicatError::PaginationError(
            "Error waiting for user input: Error reading input: boom".to_string()
        ))
    );
}

#[test]
fn the_error_of_the_read_stands_even_if_restoring_fails_too() {
    let mut pager = Pager::new(1, 2);
    let mut action = paginate_output(&mut pager, StepOutcome::Completed);
    while !matches!(action, PagerAction::Wait(WaitStep::ReadEvent)) {
        action = paginate_output(&mut pager, StepOutcome::Completed);
    }
    action = paginate_output(&mut pager, StepOutcome::Failed("no input".to_string()));
    assert!(matches!(action, PagerAction::Wait(WaitStep::DisableRawMode)));
    action = paginate_output(&mut pager, StepOutcome::Failed("no terminal".to_string()));
    match action {
        PagerAction::Finish(result) => assert_eq!(
            result,
            Err(RicatError::PaginationError(
                "Error waiting for user input: Error reading input: no input".to_string()
            ))
        ),
        other => panic!("expected the end of the run, found {:?}", other),
    }
}

#[test]
fn a_run_that_has_ended_stays_ended() {
    let mut pager = Pager::new(1, 24);
    let action = paginate_output(&mut pager, StepOutcome::Completed);
    assert!(matches!(action, PagerAction::Finish(Ok(()))));
    for _ in 0..3 {
        let action = paginate_output(&mut pager, StepOutcome::Failed("late".to_string()));
        assert!(matches!(action, PagerAction::Finish(Ok(()))));
    }

    let mut failed = Pager::new(2, 24);
    let first = paginate_output(&mut failed, StepOutcome::Failed("broken pipe".to_string()));
    let again = paginate_output(&mut failed, StepOutcome::Completed);
    for action in [first, again, failed.action()] {
        match action {
            PagerAction::Finish(result) => assert_eq!(
                result,
                Err(RicatError::PaginationError("Error writing line: broken pipe".to_string()))
            ),
            other => panic!("expected the end of the run, found {:?}", other),
        }
    }
    assert_eq!(failed.lines_written(), 0);
}

#[test]
fn the_pager_counts_the_lines_written() {
    let mut pager = Pager::new(3, 24);
    assert_eq!(pager.lines_written(), 0);
    paginate_output(&mut pager, StepOutcome::Completed);
    assert_eq!(pager.lines_written(), 1);
    paginate_output(&mut pager, StepOutcome::Completed);
    paginate_output(&mut pager, StepOutcome::Completed);
    assert_eq!(pager.lines_written(), 3);
    paginate_output(&mut pager, StepOutcome::Completed);
    assert_eq!(pager.lines_written(), 3);
}

#[test]
fn each_step_of_the_pause_leads_to_the_next() {
    for pair in PAUSE.windows(2) {
        for step in all_steps() {
            if format!("{:?}", step) == pair[0] {
                let key = wait_for_user_input(step, StepOutcome::KeyEvent);
                match key {
                    WaitProgress::Next(next) => assert_eq!(format!("{:?}", next), pair[1]),
                    other => panic!("{:?} after {:?}", other, step),
                }
            }
        }
    }
    assert!(matches!(
        wait_for_user_input(WaitStep::MoveCursor, StepOutcome::Completed),
        WaitProgress::Dismissed
    ));
}

fn all_steps() -> [WaitStep; 9] {
    [
        WaitStep::HideCursor,
        WaitStep::WritePrompt,
        WaitStep::Flush,
        WaitStep::EnableRawMode,
        WaitStep::ReadEvent,
        WaitStep::DisableRawMode,
        WaitStep::ShowCursor,
        WaitStep::ClearLine,
        WaitStep::MoveCursor,
    ]
}

#[test]
fn any_key_ends_the_reading_and_nothing_else_does() {
    assert!(matches!(
        wait_for_user_input(WaitStep::ReadEvent, StepOutcome::KeyEvent),
        WaitProgress::Next(WaitStep::DisableRawMode)
    ));
    assert!(matches!(
        wait_for_user_input(WaitStep::ReadEvent, StepOutcome::OtherEvent),
        WaitProgress::Next(WaitStep::ReadEvent)
    ));
    assert!(matches!(
        wait_for_user_input(WaitStep::ReadEvent, StepOutcome::Completed),
        WaitProgress::Next(WaitStep::ReadEvent)
    ));
}

#[test]
fn each_failed_step_gives_its_own_error() {
    let failed = |step| wait_for_user_input(step, StepOutcome::Failed("why".to_string()));
    let why = || "why".to_string();
    assert!(matches!(failed(WaitStep::HideCursor), WaitProgress::Failed(e) if e == RicatError::CursorHideError(why())));
    assert!(matches!(failed(WaitStep::WritePrompt), WaitProgress::Failed(e) if e == RicatError::LineWriteError(why())));
    assert!(matches!(failed(WaitStep::Flush), WaitProgress::Failed(e) if e == RicatError::OutputFlushError(why())));
    assert!(matches!(failed(WaitStep::EnableRawMode), WaitProgress::Failed(e) if e == RicatError::RawModeEnableError(why())));
    assert!(matches!(failed(WaitStep::ReadEvent), WaitProgress::Restore(e) if e == RicatError::InputReadError(why())));
    assert!(matches!(failed(WaitStep::DisableRawMode), WaitProgress::Failed(e) if e == RicatError::RawModeDisableError(why())));
    assert!(matches!(failed(WaitStep::ShowCursor), WaitProgress::Failed(e) if e == RicatError::CursorShowError(why())));
    assert!(matches!(failed(WaitStep::ClearLine), WaitProgress::Failed(e) if e == RicatError::ClearLineError(why())));
    assert!(matches!(failed(WaitStep::MoveCursor), WaitProgress::Failed(e) if e == RicatError::CursorMoveError(why())));
}
