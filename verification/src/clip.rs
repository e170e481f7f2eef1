//! Clipboard access, through wl-clipboard.
//!
//! wl-copy and wl-paste use the wlr-data-control protocol, which is the only way
//! to touch the clipboard from a process that does not hold keyboard focus.
use crate::command;
use crate::command::{read_printed, Exit, Failure, Invocation, InvocationView};
use crate::text;
use vstd::prelude::*;

verus! {

/// Putting text on the clipboard.
pub open spec fn copying() -> InvocationView {
    InvocationView { program: "wl-copy"@, args: Seq::empty() }
}

/// Putting an image on the clipboard.
pub open spec fn copying_image() -> InvocationView {
    InvocationView { program: "wl-copy"@, args: seq!["--type"@, "image/png"@] }
}

/// Reading the primary selection.
pub open spec fn pasting_primary() -> InvocationView {
    InvocationView { program: "wl-paste"@, args: seq!["--primary"@, "--no-newline"@] }
}

/// Reading the clipboard.
pub open spec fn pasting() -> InvocationView {
    InvocationView { program: "wl-paste"@, args: seq!["--no-newline"@] }
}

/// Put the text handed over on standard input on the clipboard.
pub fn copy() -> (command: Invocation)
    ensures
        command@ == copying(),
{
    Invocation::new("wl-copy")
}

/// Put the PNG handed over on standard input on the clipboard.
pub fn copy_image() -> (command: Invocation)
    ensures
        command@ == copying_image(),
{
    let command = Invocation::new("wl-copy").with("--type").with("image/png");
    proof {
        assert(command@ =~= copying_image());
    }
    command
}

/// Read the primary selection - the text the user has highlighted with the
/// mouse, no Ctrl+C needed.
pub fn primary() -> (command: Invocation)
    ensures
        command@ == pasting_primary(),
{
    let command = Invocation::new("wl-paste").with("--primary").with("--no-newline");
    proof {
        assert(command@ =~= pasting_primary());
    }
    command
}

/// Read the clipboard.
pub fn clipboard() -> (command: Invocation)
    ensures
        command@ == pasting(),
{
    let command = Invocation::new("wl-paste").with("--no-newline");
    proof {
        assert(command@ =~= pasting());
    }
    command
}

/// What became of handing something to wl-copy.
#[derive(Debug)]
pub enum Handover {
    /// It could not be run, and why.
    NotRun(String),
    /// It has no standard input to write to.
    NoInput,
    /// Writing to it failed, and why.
    NotWritten(String),
    /// Waiting for it failed, and why.
    NotWaited(String),
    /// It ended; `status` says how, in words.
    Exited { success: bool, status: String },
}

/// What went wrong when something was handed to wl-copy, if anything did. How it
/// ended counts only if `strict`.
pub open spec fn copy_problem(handover: Handover, strict: bool) -> Option<Seq<char>> {
    match handover {
        Handover::NotRun(cause) => Some(
            command::because("could not run `wl-copy` - is wl-clipboard installed?"@, cause@),
        ),
        Handover::NoInput => Some("wl-copy stdin unavailable"@),
        Handover::NotWritten(cause) => Some(cause@),
        Handover::NotWaited(cause) => Some(cause@),
        Handover::Exited { success, status } => if strict && !success {
            Some("wl-copy exited with "@ + status@)
        } else {
            None
        },
    }
}

fn check_handover(handover: Handover, strict: bool) -> (result: Result<(), Failure>)
    ensures
        match copy_problem(handover, strict) {
            Some(message) => result matches Err(failure) && failure@ == message,
            None => result is Ok,
        },
{
    match handover {
        Handover::NotRun(cause) => Err(
            Failure::caused(
                "could not run `wl-copy` - is wl-clipboard installed?",
                cause.as_str(),
            ),
        ),
        Handover::NoInput => Err(Failure::new("wl-copy stdin unavailable")),
        Handover::NotWritten(cause) => Err(Failure { message: cause }),
        Handover::NotWaited(cause) => Err(Failure { message: cause }),
        Handover::Exited { success, status } => if strict && !success {
            let mut message = "wl-copy exited with ".to_owned();
            message.append(status.as_str());
            Err(Failure { message })
        } else {
            Ok(())
        },
    }
}

/// Whether the text reached the clipboard.
pub fn copied(handover: Handover) -> (result: Result<(), Failure>)
    ensures
        match copy_problem(handover, true) {
            Some(message) => result matches Err(failure) && failure@ == message,
            None => result is Ok,
        },
{
    check_handover(handover, true)
}

/// Whether the image was handed over. How wl-copy ended makes no difference.
pub fn image_copied(handover: Handover) -> (result: Result<(), Failure>)
    ensures
        match copy_problem(handover, false) {
            Some(message) => result matches Err(failure) && failure@ == message,
            None => result is Ok,
        },
{
    check_handover(handover, false)
}

/// The text that was read, or what went wrong. wl-paste exits non-zero when the
/// selection is simply empty.
pub open spec fn paste_outcome(outcome: Result<Exit, String>) -> Result<Seq<char>, Seq<char>> {
    match outcome {
        Err(cause) => Err(
            command::because("could not run `wl-paste` - is wl-clipboard installed?"@, cause@),
        ),
        Ok(exit) => if exit.success {
            Ok(command::printed(exit.stdout@))
        } else {
            Ok(Seq::empty())
        },
    }
}

/// A text or a failure, by content.
pub open spec fn text_view(result: Result<String, Failure>) -> Result<Seq<char>, Seq<char>> {
    match result {
        Ok(text) => Ok(text@),
        Err(failure) => Err(failure@),
    }
}

/// The text that was read.
pub fn pasted(outcome: Result<Exit, String>) -> (result: Result<String, Failure>)
    ensures
        text_view(result) == paste_outcome(outcome),
{
    match outcome {
        Err(cause) => Err(
            Failure::caused(
                "could not run `wl-paste` - is wl-clipboard installed?",
                cause.as_str(),
            ),
        ),
        Ok(exit) => if exit.success {
            Ok(read_printed(&exit.stdout))
        } else {
            let none = String::new();
            proof {
                assert(none@ =~= Seq::empty());
            }
            Ok(none)
        },
    }
}

/// The two selections are read apart: only the command for what is highlighted asks
/// for the primary selection, and neither lets a line break be added.
pub proof fn law_the_two_selections_are_read_apart()
    ensures
        pasting_primary().args.contains("--primary"@),
        !pasting().args.contains("--primary"@),
        pasting_primary().args.contains("--no-newline"@),
        pasting().args.contains("--no-newline"@),
        pasting().program == "wl-paste"@,
        pasting_primary().program == "wl-paste"@,
        pasting() != pasting_primary(),
{
    reveal_strlit("--primary");
    reveal_strlit("--no-newline");
    assert("--primary"@.len() != "--no-newline"@.len());
    assert(pasting_primary().args[0] == "--primary"@);
    assert(pasting_primary().args[1] == "--no-newline"@);
    assert(pasting().args[0] == "--no-newline"@);
    assert(pasting().args.len() == 1);
}

/// An image is copied as a PNG, and a text without saying what it is; both through
/// the program that writes the clipboard and never the one that reads it.
pub proof fn law_an_image_is_copied_as_one()
    ensures
        exists|i: int|
            0 <= i < copying_image().args.len() - 1 && #[trigger] copying_image().args[i]
                == "--type"@ && copying_image().args[i + 1] == "image/png"@,
        copying().args.len() == 0,
        copying().program == copying_image().program,
        copying().program != pasting().program,
{
    reveal_strlit("wl-copy");
    reveal_strlit("wl-paste");
    assert("wl-copy"@.len() != "wl-paste"@.len());
    assert(copying_image().args[0] == "--type"@);
}

/// What was printed is what was read, without the white space around it; a program
/// that ended badly just had nothing to read, and one that did not run says why.
pub proof fn law_an_empty_selection_is_no_failure(exit: Exit, cause: String)
    ensures
        exit.success ==> paste_outcome(Ok(exit)) == Ok::<Seq<char>, Seq<char>>(
            text::trimmed(command::lossy_text(exit.stdout@)),
        ),
        !exit.success ==> paste_outcome(Ok(exit)) == Ok::<Seq<char>, Seq<char>>(Seq::empty()),
        paste_outcome(Err(cause)) matches Err(message) && text::ends_with(message, cause@),
{
    let head = "could not run `wl-paste` - is wl-clipboard installed?"@ + ": "@;
    text::lemma_ends_with(head, cause@);
}

/// Something handed over to a program that ended well arrived. Anything that went
/// wrong before that is a failure either way, and ends with why; ending badly is one
/// only for a text.
pub proof fn law_a_copy_fails_where_the_handover_did(handover: Handover)
    ensures
        handover matches Handover::Exited { success, status } ==> {
            &&& copy_problem(handover, false) is None
            &&& copy_problem(handover, true) is None <==> success
            &&& (copy_problem(handover, true) matches Some(message) ==> text::ends_with(
                message,
                status@,
            ))
        },
        !(handover is Exited) ==> copy_problem(handover, true) is Some && copy_problem(
            handover,
            true,
        ) == copy_problem(handover, false),
        (handover matches Handover::NotRun(cause) ==> (copy_problem(handover, true) matches Some(
            message,
        ) && text::ends_with(message, cause@))),
        (handover matches Handover::NotWritten(cause) ==> (copy_problem(handover, true)
            matches Some(message) && text::ends_with(message, cause@))),
        (handover matches Handover::NotWaited(cause) ==> (copy_problem(handover, true)
            matches Some(message) && text::ends_with(message, cause@))),
{
    match handover {
        Handover::NotRun(cause) => {
            let head = "could not run `wl-copy` - is wl-clipboard installed?"@ + ": "@;
            text::lemma_ends_with(head, cause@);
        },
        Handover::NotWritten(cause) => {
            assert(cause@.skip(0) =~= cause@);
        },
        Handover::NotWaited(cause) => {
            assert(cause@.skip(0) =~= cause@);
        },
        Handover::Exited { status, .. } => {
            text::lemma_ends_with("wl-copy exited with "@, status@);
        },
        Handover::NoInput => {},
    }
}

} // verus!
