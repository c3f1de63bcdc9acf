//! Paged output. The pager decides, step by step, what the driver does next:
//! write a line, or one of the terminal operations of the pause that follows
//! every full page. The driver carries each step out and reports how it went.

use vstd::prelude::*;
use vstd::string::*;
use crate::errors::{prefixed, RicatError};

verus! {

/// The height to go by when the terminal does not report one.
pub const DEFAULT_TERMINAL_HEIGHT: u16 = 24;

/// The prompt shown while the pager waits.
pub const MORE_PROMPT: &'static str = "--More--(press any key)";

/// The height to page for: the one reported, or the default.
pub fn get_terminal_height(reported: Option<u16>) -> (height: u16)
    ensures
        height == match reported {
            Some(rows) => rows,
            None => DEFAULT_TERMINAL_HEIGHT,
        },
{
    match reported {
        Some(rows) => rows,
        None => DEFAULT_TERMINAL_HEIGHT,
    }
}

/// The number of lines on a page: one less than the terminal is high, and at
/// least one.
pub open spec fn page_size_for(height: u16) -> nat {
    if height >= 2 {
        (height - 1) as nat
    } else {
        1
    }
}

/// The number of lines on a page of a terminal with `height` rows.
pub fn page_size(height: u16) -> (size: usize)
    ensures
        size == page_size_for(height),
        size >= 1,
{
    if height >= 2 {
        (height - 1) as usize
    } else {
        1
    }
}

/// The terminal operations of one pause, in the order in which they are done.
#[derive(Debug, Clone, Copy, PartialEq, Eq)]
pub enum WaitStep {
    /// Hide the cursor.
    HideCursor,
    /// Write the prompt.
    WritePrompt,
    /// Flush the output, so that the prompt is seen.
    Flush,
    /// Have keystrokes delivered at once and unechoed.
    EnableRawMode,
    /// Block until one input event arrives.
    ReadEvent,
    /// Put the terminal back into its normal input mode.
    DisableRawMode,
    /// Show the cursor again.
    ShowCursor,
    /// Erase the prompt line.
    ClearLine,
    /// Move the cursor back to the start of the line.
    MoveCursor,
}

/// How a step went.
#[derive(Debug)]
pub enum StepOutcome {
    /// The step was carried out.
    Completed,
    /// An input event was read, and it was a key.
    KeyEvent,
    /// An input event was read, and it was not a key.
    OtherEvent,
    /// The step failed; the text says why.
    Failed(String),
}

/// Where a pause stands after one of its steps.
#[derive(Debug)]
pub enum WaitProgress {
    /// The pause goes on with this step.
    Next(WaitStep),
    /// A key was pressed and the terminal is as it was: the pause is over.
    Dismissed,
    /// The step failed while keystrokes were delivered unechoed: the terminal
    /// is put back into its normal input mode first, and then the pause fails
    /// with this error.
    Restore(RicatError),
    /// The pause failed with this error.
    Failed(RicatError),
}

/// The step that follows `step` when `step` went well.
pub open spec fn step_after(step: WaitStep) -> Option<WaitStep> {
    match step {
        WaitStep::HideCursor => Some(WaitStep::WritePrompt),
        WaitStep::WritePrompt => Some(WaitStep::Flush),
        WaitStep::Flush => Some(WaitStep::EnableRawMode),
        WaitStep::EnableRawMode => Some(WaitStep::ReadEvent),
        WaitStep::ReadEvent => Some(WaitStep::DisableRawMode),
        WaitStep::DisableRawMode => Some(WaitStep::ShowCursor),
        WaitStep::ShowCursor => Some(WaitStep::ClearLine),
        WaitStep::ClearLine => Some(WaitStep::MoveCursor),
        WaitStep::MoveCursor => None,
    }
}

/// The error that names `step` as the one that failed.
pub open spec fn step_error(step: WaitStep, cause: String) -> RicatError {
    match step {
        WaitStep::HideCursor => RicatError::CursorHideError(cause),
        WaitStep::WritePrompt => RicatError::LineWriteError(cause),
        WaitStep::Flush => RicatError::OutputFlushError(cause),
        WaitStep::EnableRawMode => RicatError::RawModeEnableError(cause),
        WaitStep::ReadEvent => RicatError::InputReadError(cause),
        WaitStep::DisableRawMode => RicatError::RawModeDisableError(cause),
        WaitStep::ShowCursor => RicatError::CursorShowError(cause),
        WaitStep::ClearLine => RicatError::ClearLineError(cause),
        WaitStep::MoveCursor => RicatError::CursorMoveError(cause),
    }
}

/// Where a pause stands after `step` went as `outcome` says. A failed step
/// ends the pause with the error that names the step. Reading goes on until
/// the event is a key, whichever key it is. Every other step is followed by
/// the next one, and the last by the end of the pause.
pub open spec fn wait_progress(step: WaitStep, outcome: StepOutcome) -> WaitProgress {
    match outcome {
        StepOutcome::Failed(cause) => if step == WaitStep::ReadEvent {
            WaitProgress::Restore(step_error(step, cause))
        } else {
            WaitProgress::Failed(step_error(step, cause))
        },
        StepOutcome::KeyEvent => match step_after(step) {
            Some(next) => WaitProgress::Next(next),
            None => WaitProgress::Dismissed,
        },
        _ => if step == WaitStep::ReadEvent {
            WaitProgress::Next(WaitStep::ReadEvent)
        } else {
            match step_after(step) {
                Some(next) => WaitProgress::Next(next),
                None => WaitProgress::Dismissed,
            }
        },
    }
}

/// One decision of the pause: given the step just carried out and how it
/// went, what happens next.
pub fn wait_for_user_input(step: WaitStep, outcome: StepOutcome) -> (progress: WaitProgress)
    ensures
        progress == wait_progress(step, outcome),
{
    match outcome {
        StepOutcome::Failed(cause) => match step {
            WaitStep::HideCursor => WaitProgress::Failed(RicatError::CursorHideError(cause)),
            WaitStep::WritePrompt => WaitProgress::Failed(RicatError::LineWriteError(cause)),
            WaitStep::Flush => WaitProgress::Failed(RicatError::OutputFlushError(cause)),
            WaitStep::EnableRawMode => WaitProgress::Failed(RicatError::RawModeEnableError(cause)),
            WaitStep::ReadEvent => WaitProgress::Restore(RicatError::InputReadError(cause)),
            WaitStep::DisableRawMode => WaitProgress::Failed(
                RicatError::RawModeDisableError(cause),
            ),
            WaitStep::ShowCursor => WaitProgress::Failed(RicatError::CursorShowError(cause)),
            WaitStep::ClearLine => WaitProgress::Failed(RicatError::ClearLineError(cause)),
            WaitStep::MoveCursor => WaitProgress::Failed(RicatError::CursorMoveError(cause)),
        },
        StepOutcome::KeyEvent => following(step),
        _ => match step {
            WaitStep::ReadEvent => WaitProgress::Next(WaitStep::ReadEvent),
            _ => following(step),
        },
    }
}

/// The pause after `step` went well.
fn following(step: WaitStep) -> (progress: WaitProgress)
    ensures
        progress == match step_after(step) {
            Some(next) => WaitProgress::Next(next),
            None => WaitProgress::Dismissed,
        },
{
    match step {
        WaitStep::HideCursor => WaitProgress::Next(WaitStep::WritePrompt),
        WaitStep::WritePrompt => WaitProgress::Next(WaitStep::Flush),
        WaitStep::Flush => WaitProgress::Next(WaitStep::EnableRawMode),
        WaitStep::EnableRawMode => WaitProgress::Next(WaitStep::ReadEvent),
        WaitStep::ReadEvent => WaitProgress::Next(WaitStep::DisableRawMode),
        WaitStep::DisableRawMode => WaitProgress::Next(WaitStep::ShowCursor),
        WaitStep::ShowCursor => WaitProgress::Next(WaitStep::ClearLine),
        WaitStep::ClearLine => WaitProgress::Next(WaitStep::MoveCursor),
        WaitStep::MoveCursor => WaitProgress::Dismissed,
    }
}

/// What the pager is busy with.
#[derive(Debug)]
pub enum Stage {
    /// Writing lines, or done when every line is written.
    Writing,
    /// In the pause after a full page, about to do this step.
    Waiting(WaitStep),
    /// A step failed while keystrokes were delivered unechoed; the normal
    /// input mode is restored before the run ends with this error.
    Restoring(RicatError),
    /// The run has failed with this error.
    Failed(RicatError),
}

/// What the driver is to do next.
#[derive(Debug)]
pub enum PagerAction {
    /// Write the line with this index, followed by a line break.
    WriteLine(usize),
    /// Carry out this step of a pause.
    Wait(WaitStep),
    /// Stop; this is the result of the whole run.
    Finish(Result<(), RicatError>),
}

/// The state of paged output over a fixed number of lines.
pub struct Pager {
    line_count: usize,
    page_size: usize,
    written: usize,
    stage: Stage,
    prompts: Ghost<nat>,
}

/// The text of the failure to write a line.
pub open spec fn write_failure_text(cause: Seq<char>) -> Seq<char> {
    "Error writing line: "@ + cause
}

/// The text of the failure of a pause.
pub open spec fn wait_failure_text(cause: RicatError) -> Seq<char> {
    "Error waiting for user input: "@ + cause.text()
}

/// Whether `error` is the pagination failure with the text `text`.
pub open spec fn is_pagination_failure(error: RicatError, text: Seq<char>) -> bool {
    error matches RicatError::PaginationError(shown) && shown@ == text
}

/// Whether the pause has come far enough for its prompt to be on the screen.
pub open spec fn prompt_is_written(step: WaitStep) -> bool {
    step != WaitStep::HideCursor && step != WaitStep::WritePrompt
}

/// Whether the line that brings the number of written lines to `written` is
/// the last of its page.
pub open spec fn fills_page(written: nat, page_size: nat) -> bool {
    written % page_size == 0
}

/// Whether keystrokes are being delivered at once and unechoed.
pub open spec fn holds_raw_mode(stage: Stage) -> bool {
    match stage {
        Stage::Waiting(step) => step == WaitStep::ReadEvent || step == WaitStep::DisableRawMode,
        Stage::Restoring(_) => true,
        _ => false,
    }
}

impl Pager {
    /// The number of lines to write.
    pub closed spec fn line_count(&self) -> nat {
        self.line_count as nat
    }

    /// The number of lines on a page.
    pub closed spec fn page_size(&self) -> nat {
        self.page_size as nat
    }

    /// The number of lines written so far.
    pub closed spec fn written(&self) -> nat {
        self.written as nat
    }

    /// What the pager is busy with.
    pub closed spec fn stage(&self) -> Stage {
        self.stage
    }

    /// The number of prompts written so far.
    pub closed spec fn prompts(&self) -> nat {
        self.prompts@
    }

    /// The invariant of the pager: a pause is entered only after a full page,
    /// and one prompt has been written for every full page that was written.
    pub open spec fn well_formed(&self) -> bool {
        &&& self.page_size() >= 1
        &&& self.written() <= self.line_count()
        &&& match self.stage() {
            Stage::Writing => self.prompts() == self.written() / self.page_size(),
            Stage::Waiting(step) => {
                &&& self.written() >= 1
                &&& self.written() % self.page_size() == 0
                &&& self.prompts() + (if prompt_is_written(step) {
                    0nat
                } else {
                    1nat
                }) == self.written() / self.page_size()
            },
            Stage::Restoring(error) => error is PaginationError,
            Stage::Failed(error) => error is PaginationError,
        }
    }

    /// What the driver is to do next.
    pub open spec fn pending(&self) -> PagerAction {
        match self.stage() {
            Stage::Writing => if self.written() < self.line_count() {
                PagerAction::WriteLine(self.written() as usize)
            } else {
                PagerAction::Finish(Ok(()))
            },
            Stage::Waiting(step) => PagerAction::Wait(step),
            Stage::Restoring(_) => PagerAction::Wait(WaitStep::DisableRawMode),
            Stage::Failed(error) => PagerAction::Finish(Err(error)),
        }
    }

    /// Whether `after` is the pager that `self` becomes once its pending
    /// action went as `outcome` says.
    ///
    /// A line that was written counts; after every `page_size`-th line a pause
    /// begins. A pause moves as `wait_progress` says and leads back to
    /// writing. The failure of a write or of a pause ends the run with a
    /// pagination failure that quotes the cause; when keystrokes were being
    /// delivered unechoed, the normal input mode is restored first. A run that
    /// has ended stays ended.
    pub open spec fn stepped(&self, outcome: StepOutcome, after: &Pager) -> bool {
        &&& after.line_count() == self.line_count()
        &&& after.page_size() == self.page_size()
        &&& match self.stage() {
            Stage::Writing => if self.written() < self.line_count() {
                match outcome {
                    StepOutcome::Failed(cause) => {
                        &&& after.written() == self.written()
                        &&& after.prompts() == self.prompts()
                        &&& after.stage() matches Stage::Failed(error)
                        &&& is_pagination_failure(error, write_failure_text(cause@))
                    },
                    _ => {
                        &&& after.written() == self.written() + 1
                        &&& after.prompts() == self.prompts()
                        &&& after.stage() == if fills_page(self.written() + 1, self.page_size()) {
                            Stage::Waiting(WaitStep::HideCursor)
                        } else {
                            Stage::Writing
                        }
                    },
                }
            } else {
                &&& after.written() == self.written()
                &&& after.prompts() == self.prompts()
                &&& after.stage() == self.stage()
            },
            Stage::Waiting(step) => {
                &&& after.written() == self.written()
                &&& match wait_progress(step, outcome) {
                    WaitProgress::Next(next) => {
                        &&& after.stage() == Stage::Waiting(next)
                        &&& after.prompts() == self.prompts() + if step == WaitStep::WritePrompt {
                            1nat
                        } else {
                            0nat
                        }
                    },
                    WaitProgress::Dismissed => {
                        &&& after.stage() == Stage::Writing
                        &&& after.prompts() == self.prompts()
                    },
                    WaitProgress::Restore(cause) => {
                        &&& after.stage() matches Stage::Restoring(error)
                        &&& is_pagination_failure(error, wait_failure_text(cause))
                        &&& after.prompts() == self.prompts()
                    },
                    WaitProgress::Failed(cause) => {
                        &&& after.stage() matches Stage::Failed(error)
                        &&& is_pagination_failure(error, wait_failure_text(cause))
                        &&& after.prompts() == self.prompts()
                    },
                }
            },
            Stage::Restoring(error) => {
                &&& after.written() == self.written()
                &&& after.prompts() == self.prompts()
                &&& after.stage() == Stage::Failed(error)
            },
            Stage::Failed(_) => {
                &&& after.written() == self.written()
                &&& after.prompts() == self.prompts()
                &&& after.stage() == self.stage()
            },
        }
    }

    /// A pager for `line_count` lines on a terminal with `terminal_height`
    /// rows. Nothing is written yet.
    pub fn new(line_count: usize, terminal_height: u16) -> (pager: Pager)
        ensures
            pager.well_formed(),
            pager.line_count() == line_count,
            pager.page_size() == page_size_for(terminal_height),
            pager.written() == 0,
            pager.prompts() == 0,
            pager.stage() == Stage::Writing,
    {
        Pager {
            line_count,
            page_size: page_size(terminal_height),
            written: 0,
            stage: Stage::Writing,
            prompts: Ghost(0),
        }
    }

    /// What the driver is to do next.
    pub fn action(&self) -> (action: PagerAction)
        ensures
            action == self.pending(),
    {
        match &self.stage {
            Stage::Writing => if self.written < self.line_count {
                PagerAction::WriteLine(self.written)
            } else {
                PagerAction::Finish(Ok(()))
            },
            Stage::Waiting(step) => PagerAction::Wait(*step),
            Stage::Restoring(_) => PagerAction::Wait(WaitStep::DisableRawMode),
            Stage::Failed(error) => PagerAction::Finish(Err(error.clone())),
        }
    }

    /// The number of lines written so far.
    pub fn lines_written(&self) -> (written: usize)
        ensures
            written == self.written(),
    {
        self.written
    }
}

/// The failure of paged output with the cause `cause`, introduced by `head`.
fn pagination_failure(head: &str, cause: &String) -> (error: RicatError)
    ensures
        is_pagination_failure(error, head@ + cause@),
{
    RicatError::PaginationError(prefixed(head, cause))
}

/// One decision of paged output: takes note of how the pending action went
/// and says what the driver is to do next.
pub fn paginate_output(pager: &mut Pager, outcome: StepOutcome) -> (action: PagerAction)
    requires
        old(pager).well_formed(),
    ensures
        final(pager).well_formed(),
        old(pager).stepped(outcome, final(pager)),
        action == final(pager).pending(),
{
    match &pager.stage {
        Stage::Writing => {
            if pager.written < pager.line_count {
                match outcome {
                    StepOutcome::Failed(cause) => {
                        pager.stage = Stage::Failed(
                            pagination_failure("Error writing line: ", &cause),
                        );
                    },
                    _ => {
                        pager.written = pager.written + 1;
                        if pager.written % pager.page_size == 0 {
                            pager.stage = Stage::Waiting(WaitStep::HideCursor);
                            proof {
                                lemma_prompts_before_pause(
                                    pager.written as int,
                                    pager.page_size as int,
                                );
                            }
                        } else {
                            proof {
                                lemma_prompts_within_page(
                                    pager.written as int,
                                    pager.page_size as int,
                                );
                            }
                        }
                    },
                }
            }
        },
        Stage::Waiting(step) => {
            let step = *step;
            match wait_for_user_input(step, outcome) {
                WaitProgress::Next(next) => {
                    if let WaitStep::WritePrompt = step {
                        pager.prompts = Ghost((pager.prompts@ + 1) as nat);
                    }
                    pager.stage = Stage::Waiting(next);
                },
                WaitProgress::Dismissed => {
                    pager.stage = Stage::Writing;
                },
                WaitProgress::Restore(cause) => {
                    let shown = cause.message();
                    pager.stage = Stage::Restoring(
                        pagination_failure("Error waiting for user input: ", &shown),
                    );
                },
                WaitProgress::Failed(cause) => {
                    let shown = cause.message();
                    pager.stage = Stage::Failed(
                        pagination_failure("Error waiting for user input: ", &shown),
                    );
                },
            }
        },
        Stage::Restoring(error) => {
            let error = error.clone();
            pager.stage = Stage::Failed(error);
        },
        Stage::Failed(_) => {},
    }
    pager.action()
}

/// Within a page, writing one more line completes no further page.
proof fn lemma_prompts_within_page(written: int, page_size: int)
    requires
        page_size >= 1,
        written >= 1,
        written % page_size != 0,
    ensures
        written / page_size == (written - 1) / page_size,
{
    let q = written / page_size;
    let r = written % page_size;
    vstd::arithmetic::div_mod::lemma_fundamental_div_mod(written, page_size);
    vstd::arithmetic::div_mod::lemma_mod_bound(written, page_size);
    vstd::arithmetic::div_mod::lemma_fundamental_div_mod_converse(
        written - 1,
        page_size,
        q,
        r - 1,
    );
}

/// The line that fills a page completes exactly one further page.
proof fn lemma_prompts_before_pause(written: int, page_size: int)
    requires
        page_size >= 1,
        written >= 1,
        written % page_size == 0,
    ensures
        written / page_size == (written - 1) / page_size + 1,
{
    let q = written / page_size;
    vstd::arithmetic::div_mod::lemma_fundamental_div_mod(written, page_size);
    assert(written - 1 == (q - 1) * page_size + (page_size - 1)) by (nonlinear_arith)
        requires
            written == page_size * q,
    ;
    vstd::arithmetic::div_mod::lemma_fundamental_div_mod_converse(
        written - 1,
        page_size,
        q - 1,
        page_size - 1,
    );
}

/// A pager that has nothing left to do has written every line, and one prompt
/// for every full page among them: `line_count / page_size` prompts, the last
/// of them after the last line when the lines fill their pages exactly.
pub proof fn lemma_prompts_when_done(pager: &Pager)
    requires
        pager.well_formed(),
        pager.pending() == PagerAction::Finish(Ok(())),
    ensures
        pager.written() == pager.line_count(),
        pager.prompts() == pager.line_count() / pager.page_size(),
{
}

/// When the last page is not full, the number of prompts is the number of
/// full pages in front of the last line.
pub proof fn lemma_prompts_with_partial_last_page(pager: &Pager)
    requires
        pager.well_formed(),
        pager.pending() == PagerAction::Finish(Ok(())),
        pager.line_count() % pager.page_size() != 0,
    ensures
        pager.prompts() == (pager.line_count() - 1) as nat / pager.page_size(),
{
    lemma_prompts_within_page(pager.line_count() as int, pager.page_size() as int);
}

/// The only step that takes the pager out of the unechoed input mode is the
/// one that restores the normal mode: the pager never ends a run, nor goes
/// back to writing, with the terminal still altered by it.
pub proof fn lemma_raw_mode_is_restored(before: &Pager, outcome: StepOutcome, after: &Pager)
    requires
        before.stepped(outcome, after),
        holds_raw_mode(before.stage()),
        !holds_raw_mode(after.stage()),
    ensures
        before.pending() == PagerAction::Wait(WaitStep::DisableRawMode),
{
}

} // verus!
