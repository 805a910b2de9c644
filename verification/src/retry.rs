use vstd::prelude::*;
use crate::data::{is_present, remove_missing_formats, ClipboardData};

verus! {

/// How many times a clipboard read is tried while the clipboard is held by
/// another program.
pub const CLIPBOARD_GET_MAX_RETRY: usize = 3;

/// The pause between two such tries, in milliseconds.
pub const CLIPBOARD_GET_RETRY_INTERVAL_MS: u64 = 33;

/// How many times opening the clipboard is tried on Linux, where the
/// connection to the display server can fail now and then.
pub const CLIPBOARD_CREATE_MAX_ATTEMPTS: u64 = 5;

/// The result of one try to read the clipboard.
#[derive(Debug)]
pub enum ReadOutcome {
    /// The formats that were asked for, a missing one as `Empty`.
    Data(Vec<ClipboardData>),
    /// Another program holds the clipboard.
    Occupied,
    /// Any other failure.
    Failed,
}

/// What to do after one try to read the clipboard.
#[derive(Debug)]
pub enum ReadStep {
    /// The read succeeded: these are the formats the clipboard held.
    Done(Vec<ClipboardData>),
    /// Sleep this many milliseconds, then try again.
    SleepThenRetry(u64),
    /// Sleep this many milliseconds, then give up: the clipboard stayed occupied.
    SleepThenGiveUp(u64),
    /// Give up with the failure of this try.
    Fail,
}

/// The step after try number `attempt` (from 0) of reading the clipboard.
pub fn read_step(attempt: usize, outcome: ReadOutcome) -> (step: ReadStep)
    requires
        attempt < CLIPBOARD_GET_MAX_RETRY,
    ensures
        match outcome {
            ReadOutcome::Data(data) => step matches ReadStep::Done(kept) && kept@ == data@.filter(
                |d: ClipboardData| is_present(d),
            ),
            ReadOutcome::Occupied => if attempt + 1 < CLIPBOARD_GET_MAX_RETRY {
                step == ReadStep::SleepThenRetry(CLIPBOARD_GET_RETRY_INTERVAL_MS)
            } else {
                step == ReadStep::SleepThenGiveUp(CLIPBOARD_GET_RETRY_INTERVAL_MS)
            },
            ReadOutcome::Failed => step is Fail,
        },
{
    match outcome {
        ReadOutcome::Data(data) => ReadStep::Done(remove_missing_formats(data)),
        ReadOutcome::Occupied => {
            if attempt + 1 < CLIPBOARD_GET_MAX_RETRY {
                ReadStep::SleepThenRetry(CLIPBOARD_GET_RETRY_INTERVAL_MS)
            } else {
                ReadStep::SleepThenGiveUp(CLIPBOARD_GET_RETRY_INTERVAL_MS)
            }
        },
        ReadOutcome::Failed => ReadStep::Fail,
    }
}

/// After failed attempt number `attempt` (from 1) to open the clipboard: the
/// pause before the next attempt in milliseconds, 30 ms times the attempt
/// number, or `None` after the last attempt.
pub fn create_retry_delay_ms(attempt: u64) -> (delay: Option<u64>)
    requires
        1 <= attempt <= CLIPBOARD_CREATE_MAX_ATTEMPTS,
    ensures
        attempt < CLIPBOARD_CREATE_MAX_ATTEMPTS ==> delay == Some((30 * attempt) as u64),
        attempt == CLIPBOARD_CREATE_MAX_ATTEMPTS ==> delay is None,
{
    if attempt == CLIPBOARD_CREATE_MAX_ATTEMPTS {
        None
    } else {
        Some(30 * attempt)
    }
}

/// A `SelectionNotify` event: the window that asked, the selection and the
/// target it was asked for, and the property that holds the answer.
#[derive(Clone, Copy, Debug)]
pub struct SelectionNotify {
    pub requestor: u32,
    pub selection: u32,
    pub target: u32,
    pub property: u32,
}

/// What to do while waiting for the X11 clipboard owner to list its targets.
#[derive(PartialEq, Eq, Structural, Clone, Copy, Debug)]
pub enum TargetsWaitStep {
    /// The deadline passed without an answer.
    TimedOut,
    /// No event yet: sleep a little and poll again.
    PollAgain,
    /// An event that is not the answer: poll again at once.
    Ignore,
    /// The owner answered without targets.
    NoTargets,
    /// The owner answered: read the target atoms from the property.
    ReadTargets,
}

/// One step of waiting for the list of targets of the X11 clipboard:
/// `event` is the next pending event if it is a `SelectionNotify`,
/// `other_event` tells whether some other event was pending instead, and
/// `none_atom` is the atom that stands for no property.
pub fn targets_wait_step(
    now: u64,
    deadline: u64,
    event: Option<SelectionNotify>,
    other_event: bool,
    window: u32,
    clipboard: u32,
    targets: u32,
    none_atom: u32,
) -> (step: TargetsWaitStep)
    ensures
        now >= deadline ==> step == TargetsWaitStep::TimedOut,
        now < deadline ==> step == (match event {
            None => if other_event {
                TargetsWaitStep::Ignore
            } else {
                TargetsWaitStep::PollAgain
            },
            Some(e) => if e.requestor != window || e.selection != clipboard || e.target != targets {
                TargetsWaitStep::Ignore
            } else if e.property == none_atom {
                TargetsWaitStep::NoTargets
            } else {
                TargetsWaitStep::ReadTargets
            },
        }),
{
    if now >= deadline {
        return TargetsWaitStep::TimedOut;
    }
    match event {
        None => {
            if other_event {
                TargetsWaitStep::Ignore
            } else {
                TargetsWaitStep::PollAgain
            }
        },
        Some(e) => {
            if e.requestor != window || e.selection != clipboard || e.target != targets {
                TargetsWaitStep::Ignore
            } else if e.property == none_atom {
                TargetsWaitStep::NoTargets
            } else {
                TargetsWaitStep::ReadTargets
            }
        },
    }
}

} // verus!
