//! The D-Bus interface of the resident daemon.
//!
//! The methods carry no language arguments on purpose. A keybind should say what
//! to do, not restate which languages you are working in - the daemon already
//! knows that, and the window is where you change it.
use crate::command;
use crate::command::Failure;
use crate::pipeline::{Verb, VerbView};
use crate::shot;
use crate::shot::Mode;
use crate::text;
use vstd::prelude::*;

verus! {

/// How often a daemon that was just started is tried.
pub const POLLS: u32 = 40;

/// How long to wait before each try, in milliseconds. Claiming the bus name takes
/// a moment; poll rather than guess a delay.
pub const POLL_PAUSE: u64 = 100;

/// The name the daemon claims on the bus.
pub const SERVICE: &'static str = "org.wl_translate.Daemon";

/// The path the daemon serves its interface at.
pub const PATH: &'static str = "/org/wl_translate/Daemon";

/// A call of one of the daemon's methods.
#[derive(Debug)]
pub enum Call {
    /// Drag a region, read the text in it, translate it.
    Ocr,
    /// Drag a region and extract its text without translating.
    OcrRaw,
    /// Translate whatever is highlighted with the mouse.
    Selection,
    /// Translate the clipboard.
    Clipboard,
    /// Translate text passed directly.
    Text(String),
    /// Take a screenshot and show it for review: region, window or screen.
    Shot(String),
    /// Raise the window without changing what is in it.
    Show,
}

pub enum CallView {
    Ocr,
    OcrRaw,
    Selection,
    Clipboard,
    Text(Seq<char>),
    Shot(Seq<char>),
    Show,
}

impl View for Call {
    type V = CallView;

    open spec fn view(&self) -> CallView {
        match self {
            Call::Ocr => CallView::Ocr,
            Call::OcrRaw => CallView::OcrRaw,
            Call::Selection => CallView::Selection,
            Call::Clipboard => CallView::Clipboard,
            Call::Text(text) => CallView::Text(text@),
            Call::Shot(mode) => CallView::Shot(mode@),
            Call::Show => CallView::Show,
        }
    }
}

/// The verb that a call asks for, or why it asks for none: a mode that is none is
/// ignored rather than crashing a keybind.
pub open spec fn verb_for(call: CallView) -> Result<VerbView, Seq<char>> {
    match call {
        CallView::Ocr => Ok(VerbView::Ocr { geometry: None }),
        CallView::OcrRaw => Ok(VerbView::OcrRaw),
        CallView::Selection => Ok(VerbView::Selection),
        CallView::Clipboard => Ok(VerbView::Clipboard),
        CallView::Text(text) => Ok(VerbView::Text(text)),
        CallView::Shot(mode) => match shot::mode_named(mode) {
            Some(mode) => Ok(VerbView::Shot(mode)),
            None => Err("unknown mode '"@ + mode + "' (expected region, window or screen)"@),
        },
        CallView::Show => Ok(VerbView::Show),
    }
}

/// The verb that a call asks for. Each method hands its verb over and returns at
/// once - the caller is a keybind, so it must never wait for recognition.
pub fn verb_of(call: Call) -> (result: Result<Verb, Failure>)
    ensures
        match verb_for(call@) {
            Ok(view) => result matches Ok(verb) && verb@ == view,
            Err(message) => result matches Err(failure) && failure@ == message,
        },
{
    match call {
        Call::Ocr => Ok(Verb::Ocr { geometry: None }),
        Call::OcrRaw => Ok(Verb::OcrRaw),
        Call::Selection => Ok(Verb::Selection),
        Call::Clipboard => Ok(Verb::Clipboard),
        Call::Text(text) => Ok(Verb::Text(text)),
        Call::Shot(word) => match Mode::named(word.as_str()) {
            Ok(mode) => Ok(Verb::Shot(mode)),
            Err(failure) => Err(failure),
        },
        Call::Show => Ok(Verb::Show),
    }
}

/// The call that hands a verb to the daemon. Only the overlay asks to read an
/// image it has, and it already has the daemon that would be handed to.
pub open spec fn call_for(verb: VerbView) -> Option<CallView> {
    match verb {
        VerbView::Ocr { .. } => Some(CallView::Ocr),
        VerbView::OcrRaw => Some(CallView::OcrRaw),
        VerbView::Selection => Some(CallView::Selection),
        VerbView::Clipboard => Some(CallView::Clipboard),
        VerbView::Text(text) => Some(CallView::Text(text)),
        VerbView::OcrImage { .. } => None,
        VerbView::Shot(mode) => Some(CallView::Shot(mode.word())),
        VerbView::Show => Some(CallView::Show),
    }
}

/// The call that hands a verb to the daemon, where there is one.
pub fn call_of(verb: &Verb) -> (call: Option<Call>)
    ensures
        match call_for(verb@) {
            Some(view) => call matches Some(call) && call@ == view,
            None => call is None,
        },
{
    match verb {
        Verb::Ocr { .. } => Some(Call::Ocr),
        Verb::OcrRaw => Some(Call::OcrRaw),
        Verb::Selection => Some(Call::Selection),
        Verb::Clipboard => Some(Call::Clipboard),
        Verb::Text(text) => Some(Call::Text(text.as_str().to_owned())),
        Verb::OcrImage { .. } => None,
        Verb::Shot(mode) => Some(Call::Shot(mode.as_str().to_owned())),
        Verb::Show => Some(Call::Show),
    }
}

/// Where handing a verb to the daemon stands.
#[derive(Debug)]
pub enum Handoff {
    /// Start a daemon.
    Start,
    /// Wait a moment and try again; so many tries are left.
    Wait { left: u32 },
    /// Done: whether a daemon took the verb.
    Finished(bool),
    Failed(Failure),
}

/// What to do once a running daemon was tried: without one, start one.
///
/// The daemon is meant to be resident, so a missing one is a transient state, not
/// a different mode of operation.
pub fn tried(result: Result<bool, Failure>) -> (next: Handoff)
    ensures
        next == (match result {
            Ok(true) => Handoff::Finished(true),
            Ok(false) => Handoff::Start,
            Err(failure) => Handoff::Failed(failure),
        }),
{
    match result {
        Ok(taken) => if taken {
            Handoff::Finished(true)
        } else {
            Handoff::Start
        },
        Err(failure) => Handoff::Failed(failure),
    }
}

/// Why a daemon was not started.
#[derive(Debug)]
pub enum StartProblem {
    /// This program's own file was not found, and why.
    NoProgram(String),
    /// It could not be run, and why.
    NotRun(String),
}

/// What to report when a daemon was not started.
pub open spec fn start_problem(problem: StartProblem) -> Seq<char> {
    match problem {
        StartProblem::NoProgram(cause) => command::because(
            "could not find our own executable"@,
            cause@,
        ),
        StartProblem::NotRun(cause) => command::because("could not start the daemon"@, cause@),
    }
}

/// What to do once a daemon was started, or why it was not.
pub fn started(result: Result<(), StartProblem>) -> (next: Handoff)
    ensures
        match result {
            Ok(()) => next == (Handoff::Wait { left: POLLS }),
            Err(problem) => next matches Handoff::Failed(failure) && failure@ == start_problem(
                problem,
            ),
        },
{
    match result {
        Ok(()) => Handoff::Wait { left: POLLS },
        Err(StartProblem::NoProgram(cause)) => Handoff::Failed(
            Failure::caused("could not find our own executable", cause.as_str()),
        ),
        Err(StartProblem::NotRun(cause)) => Handoff::Failed(
            Failure::caused("could not start the daemon", cause.as_str()),
        ),
    }
}

/// What to do once a daemon that was just started was tried with `left` tries to
/// go, this one included.
pub fn retried(left: u32, result: Result<bool, Failure>) -> (next: Handoff)
    ensures
        next == (match result {
            Ok(true) => Handoff::Finished(true),
            Ok(false) => if left > 1 {
                Handoff::Wait { left: (left - 1) as u32 }
            } else {
                Handoff::Finished(false)
            },
            Err(failure) => Handoff::Failed(failure),
        }),
        next matches Handoff::Wait { left: fewer } ==> fewer < left,
{
    match result {
        Ok(taken) => if taken {
            Handoff::Finished(true)
        } else if left > 1 {
            Handoff::Wait { left: left - 1 }
        } else {
            Handoff::Finished(false)
        },
        Err(failure) => Handoff::Failed(failure),
    }
}

/// Every verb that the daemon can be handed arrives as it was, but for a region
/// given on the command line, which no method carries.
pub proof fn law_a_verb_survives_the_bus(verb: VerbView)
    requires
        !(verb is OcrImage),
        verb matches VerbView::Ocr { geometry } ==> geometry is None,
    ensures
        call_for(verb) is Some,
        verb_for(call_for(verb)->0) == Ok::<VerbView, Seq<char>>(verb),
{
    if let VerbView::Shot(mode) = verb {
        shot::law_a_mode_survives_its_name(mode);
    }
}

/// Every verb goes over the bus as the call of its own name, with what it carries,
/// and every call asks for the verb of its own name. Only a picture stays here.
pub proof fn law_every_verb_has_its_own_call(verb: VerbView, call: CallView, text: Seq<char>)
    ensures
        call_for(verb) == Some(CallView::Ocr) <==> verb is Ocr,
        call_for(verb) == Some(CallView::OcrRaw) <==> verb is OcrRaw,
        call_for(verb) == Some(CallView::Selection) <==> verb is Selection,
        call_for(verb) == Some(CallView::Clipboard) <==> verb is Clipboard,
        call_for(verb) == Some(CallView::Show) <==> verb is Show,
        call_for(verb) is None <==> verb is OcrImage,
        call_for(verb) == Some(CallView::Text(text)) <==> verb == VerbView::Text(text),
        verb_for(call) == Ok::<VerbView, Seq<char>>(VerbView::Ocr { geometry: None }) <==> call
            is Ocr,
        verb_for(call) == Ok::<VerbView, Seq<char>>(VerbView::OcrRaw) <==> call is OcrRaw,
        verb_for(call) == Ok::<VerbView, Seq<char>>(VerbView::Selection) <==> call is Selection,
        verb_for(call) == Ok::<VerbView, Seq<char>>(VerbView::Clipboard) <==> call is Clipboard,
        verb_for(call) == Ok::<VerbView, Seq<char>>(VerbView::Show) <==> call is Show,
        verb_for(call) == Ok::<VerbView, Seq<char>>(VerbView::Text(text)) <==> call
            == CallView::Text(text),
        verb_for(call) is Err ==> call is Shot,
{
}

/// A screenshot is asked for by the name of its mode; a word that names none is
/// answered with an error that quotes it.
pub proof fn law_a_screenshot_is_asked_for_by_name(mode: Mode, word: Seq<char>)
    ensures
        call_for(VerbView::Shot(mode)) == Some(
            CallView::Shot(
                match mode {
                    Mode::Region => "region"@,
                    Mode::Window => "window"@,
                    Mode::Screen => "screen"@,
                },
            ),
        ),
        shot::mode_named(word) matches Some(named) ==> verb_for(CallView::Shot(word)) == Ok::<
            VerbView,
            Seq<char>,
        >(VerbView::Shot(named)),
        shot::mode_named(word) is None ==> verb_for(CallView::Shot(word)) == Err::<
            VerbView,
            Seq<char>,
        >("unknown mode '"@ + word + "' (expected region, window or screen)"@),
{
}

/// A daemon that was just started is given four seconds, and a start that failed says
/// why at the end.
pub proof fn law_a_start_is_waited_for(cause: String)
    ensures
        POLLS * POLL_PAUSE == 4000,
        text::ends_with(start_problem(StartProblem::NoProgram(cause)), cause@),
        text::ends_with(start_problem(StartProblem::NotRun(cause)), cause@),
        SERVICE@ == "org.wl_translate.Daemon"@,
        PATH@ == "/org/wl_translate/Daemon"@,
{
    text::lemma_ends_with("could not find our own executable"@ + ": "@, cause@);
    text::lemma_ends_with("could not start the daemon"@ + ": "@, cause@);
}

} // verus!
