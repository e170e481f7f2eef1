//! Screenshots.
//!
//! Same capture primitives as the OCR path, different destination: a real PNG
//! that goes to the clipboard and to disk, rather than straight into
//! recognition.
use crate::capture;
use crate::capture::{
    freeze, grab_output_png, grab_png, grabbed, select_from, select_region, selected,
};
use crate::command;
use crate::command::{read_printed, Exit, Failure, Invocation, InvocationView};
use crate::geom;
use crate::geom::{to_pixels, Rect, UNITS};
use crate::hyprland;
use crate::hyprland::{
    active_workspaces, answered, ask, focused_output, read_clients, read_monitors, visible_windows,
    Client, Monitor,
};
use crate::json;
use crate::paths;
use crate::text;
use crate::text::same;
use vstd::prelude::*;

verus! {

/// What to take a screenshot of.
#[derive(Debug, Clone, Copy, PartialEq, Eq, Structural)]
pub enum Mode {
    Region,
    Window,
    Screen,
}

/// The mode a word names.
pub open spec fn mode_named(word: Seq<char>) -> Option<Mode> {
    if word == "region"@ || word == "area"@ {
        Some(Mode::Region)
    } else if word == "window"@ || word == "active"@ {
        Some(Mode::Window)
    } else if word == "screen"@ || word == "output"@ || word == "full"@ {
        Some(Mode::Screen)
    } else {
        None
    }
}

impl Mode {
    pub open spec fn word(self) -> Seq<char> {
        match self {
            Mode::Region => "region"@,
            Mode::Window => "window"@,
            Mode::Screen => "screen"@,
        }
    }

    /// The word that names the mode.
    pub fn as_str(self) -> (word: &'static str)
        ensures
            word@ == self.word(),
    {
        match self {
            Mode::Region => "region",
            Mode::Window => "window",
            Mode::Screen => "screen",
        }
    }

    /// The mode a word names.
    pub fn named(word: &str) -> (result: Result<Mode, Failure>)
        ensures
            match mode_named(word@) {
                Some(mode) => result == Ok::<Mode, Failure>(mode),
                None => result matches Err(failure) && failure@ == "unknown mode '"@ + word@
                    + "' (expected region, window or screen)"@,
            },
    {
        if same(word, "region") || same(word, "area") {
            Ok(Mode::Region)
        } else if same(word, "window") || same(word, "active") {
            Ok(Mode::Window)
        } else if same(word, "screen") || same(word, "output") || same(word, "full") {
            Ok(Mode::Screen)
        } else {
            Err(
                Failure::quoting(
                    "unknown mode '",
                    word,
                    "' (expected region, window or screen)",
                ),
            )
        }
    }
}

impl std::str::FromStr for Mode {
    type Err = Failure;

    /// The mode a word names.
    fn from_str(value: &str) -> (result: Result<Self, Failure>)
        ensures
            match mode_named(value@) {
                Some(mode) => result == Ok::<Mode, Failure>(mode),
                None => result matches Err(failure) && failure@ == "unknown mode '"@ + value@
                    + "' (expected region, window or screen)"@,
            },
    {
        Mode::named(value)
    }
}

/// The word of a mode names that mode.
pub proof fn law_a_mode_survives_its_name(mode: Mode)
    ensures
        mode_named(mode.word()) == Some(mode),
{
    reveal_strlit("region");
    reveal_strlit("area");
    reveal_strlit("window");
    reveal_strlit("active");
    reveal_strlit("screen");
    assert("window"@ != "region"@ && "window"@ != "area"@) by {
        assert("window"@[0] == 'w');
        assert("region"@[0] == 'r');
    }
    assert("screen"@ != "region"@ && "screen"@ != "area"@ && "screen"@ != "window"@ && "screen"@
        != "active"@) by {
        assert("screen"@[0] == 's');
        assert("region"@[0] == 'r');
        assert("window"@[0] == 'w');
        assert("active"@[0] == 'a');
    }
}

/// Where a capture stands: which program's end it waits for.
#[derive(Debug)]
pub enum Stage {
    /// A region is being dragged.
    Region,
    /// The outputs are being asked for, to learn which workspaces they show.
    Monitors,
    /// The windows are being asked for.
    Clients { shown: Vec<i64> },
    /// One of the windows is being picked.
    Window,
    /// The outputs are being asked for, to learn which one has the focus.
    Output,
    /// The image is being grabbed.
    Grab,
}

pub enum StageView {
    Region,
    Monitors,
    Clients { shown: Seq<i64> },
    Window,
    Output,
    Grab,
}

impl View for Stage {
    type V = StageView;

    open spec fn view(&self) -> StageView {
        match self {
            Stage::Region => StageView::Region,
            Stage::Monitors => StageView::Monitors,
            Stage::Clients { shown } => StageView::Clients { shown: shown@ },
            Stage::Window => StageView::Window,
            Stage::Output => StageView::Output,
            Stage::Grab => StageView::Grab,
        }
    }
}

/// What a capture does next.
#[derive(Debug)]
pub enum Step {
    /// Put up the freeze: start this, leave it running, and say with [`frozen`]
    /// whether it started.
    Freeze { mode: Mode, command: Invocation },
    /// Run a program with this on its standard input, and hand what became of it
    /// to [`advance`]. `held` says whether the freeze is up.
    Run { held: bool, stage: Stage, command: Invocation, input: String },
    /// Take the freeze down, and go on with [`released`].
    Release(Result<Option<Vec<u8>>, Failure>),
    /// The PNG, or nothing when the selection was cancelled, or what went wrong.
    Done(Result<Option<Vec<u8>>, Failure>),
}

pub enum StepView {
    Freeze { mode: Mode, command: InvocationView },
    Run { held: bool, stage: StageView, command: InvocationView, input: Seq<char> },
    Release(Result<Option<Seq<u8>>, Seq<char>>),
    Done(Result<Option<Seq<u8>>, Seq<char>>),
}

impl View for Step {
    type V = StepView;

    open spec fn view(&self) -> StepView {
        match self {
            Step::Freeze { mode, command } => StepView::Freeze { mode: *mode, command: command@ },
            Step::Run { held, stage, command, input } => StepView::Run {
                held: *held,
                stage: stage@,
                command: command@,
                input: input@,
            },
            Step::Release(result) => StepView::Release(capture::capture_view(*result)),
            Step::Done(result) => StepView::Done(capture::capture_view(*result)),
        }
    }
}

/// Run a program with nothing on its standard input.
pub open spec fn running(held: bool, stage: StageView, command: InvocationView) -> StepView {
    StepView::Run { held, stage, command, input: Seq::empty() }
}

/// The end of a capture: the freeze comes down first if it is up.
pub open spec fn ended(held: bool, result: Result<Option<Seq<u8>>, Seq<char>>) -> StepView {
    if held {
        StepView::Release(result)
    } else {
        StepView::Done(result)
    }
}

/// The first program a capture runs, with the freeze up or not.
pub open spec fn first_program(mode: Mode, held: bool) -> StepView {
    match mode {
        Mode::Region => running(held, StageView::Region, capture::selecting()),
        Mode::Window => running(held, StageView::Monitors, hyprland::asking("monitors"@)),
        Mode::Screen => running(held, StageView::Output, hyprland::asking("monitors"@)),
    }
}

/// How a capture starts. Only the interactive modes need the screen held still.
pub open spec fn first_step(mode: Mode, freeze: bool) -> StepView {
    if freeze && mode != Mode::Screen {
        StepView::Freeze { mode, command: capture::freezing() }
    } else {
        first_program(mode, false)
    }
}

/// How a capture goes on from its selection: exactly the region selected is
/// grabbed.
pub open spec fn step_from_choice(
    held: bool,
    choice: Result<Option<Seq<char>>, Seq<char>>,
) -> StepView {
    match choice {
        Err(message) => ended(held, Err(message)),
        Ok(None) => ended(held, Ok(None)),
        Ok(Some(region)) => running(held, StageView::Grab, capture::grabbing_png(region)),
    }
}

/// The outputs an answer describes, or what went wrong.
pub open spec fn outputs(outcome: Result<Exit, String>) -> Result<
    Seq<hyprland::MonitorView>,
    Seq<char>,
> {
    match hyprland::answer("monitors"@, outcome) {
        Err(message) => Err(message),
        Ok(bytes) => match hyprland::listed(bytes, "hyprctl monitors: not a list"@) {
            Err(message) => Err(message),
            Ok(list) => Ok(hyprland::monitors_of(list)),
        },
    }
}

/// The windows an answer describes, or what went wrong.
pub open spec fn windows(outcome: Result<Exit, String>) -> Result<Seq<Client>, Seq<char>> {
    match hyprland::answer("clients"@, outcome) {
        Err(message) => Err(message),
        Ok(bytes) => match hyprland::listed(bytes, "hyprctl clients: not a list"@) {
            Err(message) => Err(message),
            Ok(list) => Ok(hyprland::clients_of(list)),
        },
    }
}

/// How a capture goes on once the program it waited for has ended.
pub open spec fn step_after(
    held: bool,
    stage: StageView,
    outcome: Result<Exit, String>,
) -> StepView {
    match stage {
        StageView::Region | StageView::Window => step_from_choice(held, capture::choice(outcome)),
        StageView::Monitors => match outputs(outcome) {
            Err(message) => ended(held, Err(message)),
            Ok(monitors) => running(
                held,
                StageView::Clients { shown: hyprland::workspaces_of(monitors) },
                hyprland::asking("clients"@),
            ),
        },
        StageView::Clients { shown } => match windows(outcome) {
            Err(message) => ended(held, Err(message)),
            Ok(clients) => StepView::Run {
                held,
                stage: StageView::Window,
                command: capture::picking(),
                input: text::joined(hyprland::boxes_of(clients, shown), "\n"@),
            },
        },
        StageView::Output => match outputs(outcome) {
            Err(message) => ended(held, Err(message)),
            Ok(monitors) => match hyprland::focused_name(monitors) {
                None => ended(held, Err("no focused output reported"@)),
                Some(name) => running(held, StageView::Grab, capture::grabbing_output(name)),
            },
        },
        StageView::Grab => match capture::grab_outcome(outcome) {
            Err(message) => ended(held, Err(message)),
            Ok(png) => ended(held, Ok(Some(png))),
        },
    }
}

fn run(held: bool, stage: Stage, command: Invocation) -> (step: Step)
    ensures
        step@ == running(held, stage@, command@),
{
    let input = String::new();
    proof {
        assert(input@ =~= Seq::empty());
    }
    Step::Run { held, stage, command, input }
}

fn end(held: bool, result: Result<Option<Vec<u8>>, Failure>) -> (step: Step)
    ensures
        step@ == ended(held, capture::capture_view(result)),
{
    if held {
        Step::Release(result)
    } else {
        Step::Done(result)
    }
}

fn read_outputs(outcome: Result<Exit, String>) -> (result: Result<Vec<Monitor>, Failure>)
    ensures
        match outputs(outcome) {
            Ok(monitors) => result matches Ok(list) && hyprland::monitor_list(list@) == monitors,
            Err(message) => result matches Err(failure) && failure@ == message,
        },
{
    match answered("monitors", outcome) {
        Ok(bytes) => read_monitors(&bytes),
        Err(failure) => Err(failure),
    }
}

fn read_windows(outcome: Result<Exit, String>) -> (result: Result<Vec<Client>, Failure>)
    ensures
        match windows(outcome) {
            Ok(clients) => result matches Ok(list) && list@ == clients,
            Err(message) => result matches Err(failure) && failure@ == message,
        },
{
    match answered("clients", outcome) {
        Ok(bytes) => read_clients(&bytes),
        Err(failure) => Err(failure),
    }
}

fn start(mode: Mode, held: bool) -> (step: Step)
    ensures
        step@ == first_program(mode, held),
{
    match mode {
        Mode::Region => run(held, Stage::Region, select_region()),
        Mode::Window => run(held, Stage::Monitors, ask("monitors")),
        Mode::Screen => run(held, Stage::Output, ask("monitors")),
    }
}

/// Capture the screen.
///
/// Only the interactive modes need the screen held still, and as with OCR the
/// grab has to happen before the freeze is released.
pub fn capture(mode: Mode, freeze: bool) -> (step: Step)
    ensures
        step@ == first_step(mode, freeze),
{
    if freeze && mode != Mode::Screen {
        Step::Freeze { mode, command: self::freeze() }
    } else {
        start(mode, false)
    }
}

/// Go on with a capture once the freeze was put up, or could not be: that is no
/// failure, there is just nothing to take down.
pub fn frozen(mode: Mode, started: bool) -> (step: Step)
    ensures
        step@ == first_program(mode, started),
{
    start(mode, started)
}

/// Go on with a capture once the program it waited for has ended.
pub fn advance(held: bool, stage: Stage, outcome: Result<Exit, String>) -> (step: Step)
    ensures
        step@ == step_after(held, stage@, outcome),
{
    match stage {
        Stage::Region | Stage::Window => match selected(outcome) {
            Err(failure) => end(held, Err(failure)),
            Ok(None) => end(held, Ok(None)),
            Ok(Some(region)) => run(held, Stage::Grab, grab_png(&region)),
        },
        Stage::Monitors => match read_outputs(outcome) {
            Err(failure) => end(held, Err(failure)),
            Ok(monitors) => run(
                held,
                Stage::Clients { shown: active_workspaces(&monitors) },
                ask("clients"),
            ),
        },
        Stage::Clients { shown } => match read_windows(outcome) {
            Err(failure) => end(held, Err(failure)),
            Ok(clients) => {
                let boxes = visible_windows(&clients, &shown);
                let (command, input) = select_from(&boxes);
                Step::Run { held, stage: Stage::Window, command, input }
            },
        },
        Stage::Output => match read_outputs(outcome) {
            Err(failure) => end(held, Err(failure)),
            Ok(monitors) => match focused_output(&monitors) {
                Err(failure) => end(held, Err(failure)),
                Ok(name) => run(held, Stage::Grab, grab_output_png(name.as_str())),
            },
        },
        Stage::Grab => match grabbed(outcome) {
            Err(failure) => end(held, Err(failure)),
            Ok(png) => end(held, Ok(Some(png))),
        },
    }
}

/// End a capture once the freeze was taken down.
pub fn released(result: Result<Option<Vec<u8>>, Failure>) -> (step: Step)
    ensures
        step@ == StepView::Done(capture::capture_view(result)),
{
    Step::Done(result)
}

/// How a capture goes on, given whether the freeze started and what became of a
/// program.
pub open spec fn next_step(
    step: StepView,
    started: bool,
    outcome: Result<Exit, String>,
) -> StepView {
    match step {
        StepView::Freeze { mode, .. } => first_program(mode, started),
        StepView::Run { held, stage, .. } => step_after(held, stage, outcome),
        StepView::Release(result) => StepView::Done(result),
        StepView::Done(result) => StepView::Done(result),
    }
}

/// A capture after so many steps.
pub open spec fn after_steps(
    mode: Mode,
    freeze: bool,
    started: bool,
    outcomes: Seq<Result<Exit, String>>,
    n: nat,
) -> StepView
    decreases n,
{
    if n == 0 {
        first_step(mode, freeze)
    } else {
        next_step(
            after_steps(mode, freeze, started, outcomes, (n - 1) as nat),
            started,
            outcomes[n - 1],
        )
    }
}

/// Whether a capture of that mode holds the screen, the freeze having started or
/// not.
pub open spec fn holding(mode: Mode, freeze: bool, started: bool) -> bool {
    freeze && mode != Mode::Screen && started
}

/// The screen is held from before the selection until after the grab. Where a
/// freeze is wanted it is put up before any program runs, and never for a whole
/// screen; where it started, it is up while every program runs, the grab among
/// them; and it comes down before every end: the image, a cancelled selection or
/// a failure. Else nothing is held and nothing is taken down.
pub proof fn law_the_screen_is_held_until_after_the_grab(
    mode: Mode,
    freeze: bool,
    started: bool,
    outcomes: Seq<Result<Exit, String>>,
    n: nat,
)
    ensures
        match after_steps(mode, freeze, started, outcomes, n) {
            StepView::Freeze { mode: frozen, command } => {
                &&& n == 0
                &&& freeze && mode != Mode::Screen
                &&& frozen == mode
                &&& command == capture::freezing()
            },
            StepView::Run { held, .. } => {
                &&& held == holding(mode, freeze, started)
                &&& freeze && mode != Mode::Screen ==> n > 0
            },
            StepView::Release(_) => {
                &&& holding(mode, freeze, started)
                &&& n > 0
                &&& after_steps(mode, freeze, started, outcomes, (n - 1) as nat) is Run
            },
            StepView::Done(result) => holding(mode, freeze, started) ==> exists|k: nat|
                k < n && #[trigger] after_steps(mode, freeze, started, outcomes, k)
                    == StepView::Release(result),
        },
    decreases n,
{
    if n > 0 {
        let m = (n - 1) as nat;
        law_the_screen_is_held_until_after_the_grab(mode, freeze, started, outcomes, m);
        let before = after_steps(mode, freeze, started, outcomes, m);
        if let StepView::Done(result) = before {
            if holding(mode, freeze, started) {
                let k = choose|k: nat|
                    k < m && #[trigger] after_steps(mode, freeze, started, outcomes, k)
                        == StepView::Release(result);
                assert(k < n);
            }
        }
    }
}

/// How many steps may still follow a step.
pub open spec fn steps_left(step: StepView) -> nat {
    match step {
        StepView::Freeze { .. } => 6,
        StepView::Run { stage, .. } => match stage {
            StageView::Monitors => 5,
            StageView::Clients { .. } => 4,
            StageView::Region | StageView::Window | StageView::Output => 3,
            StageView::Grab => 2,
        },
        StepView::Release(_) => 1,
        StepView::Done(_) => 0,
    }
}

/// Every step brings a capture closer to its end, so it ends after at most six.
pub proof fn law_a_capture_ends(step: StepView, started: bool, outcome: Result<Exit, String>)
    ensures
        !(step is Done) ==> steps_left(
            next_step(step, started, outcome),
        ) < steps_left(step),
        steps_left(step) <= 6,
{
}

/// A cancelled selection captures nothing, and is not a failure.
pub proof fn law_a_cancelled_selection_captures_nothing(held: bool, stage: StageView, exit: Exit)
    requires
        stage is Region || stage is Window,
        !exit.success,
    ensures
        step_after(held, stage, Ok(exit)) == ended(held, Ok(None)),
{
}

/// A finished screenshot.
#[derive(Debug)]
pub struct Shot {
    pub png: Vec<u8>,
    /// Where it was saved.
    pub saved: Option<Vec<u8>>,
}

/// What taking a screenshot does next.
#[derive(Debug)]
pub enum Take {
    /// Capture the screen first.
    Capture { step: Step, save: bool },
    /// Put the image on the clipboard.
    Copy { png: Vec<u8>, save: bool },
    /// Save the image.
    Save(Vec<u8>),
    /// The screenshot, or nothing when the selection was cancelled, or what went
    /// wrong.
    Done(Result<Option<Shot>, Failure>),
}

/// Take a screenshot: to the clipboard, and with `save` to disk as well.
pub fn take(mode: Mode, freeze: bool, save: bool) -> (next: Take)
    ensures
        next matches Take::Capture { step, save: saves } && {
            &&& saves == save
            &&& step@ == first_step(mode, freeze)
        },
{
    Take::Capture { step: capture(mode, freeze), save }
}

/// What to do with what was captured: a cancelled selection ends it, an image
/// goes to the clipboard first.
pub fn take_captured(captured: Result<Option<Vec<u8>>, Failure>, save: bool) -> (next: Take)
    ensures
        next == (match captured {
            Err(failure) => Take::Done(Err(failure)),
            Ok(None) => Take::Done(Ok(None)),
            Ok(Some(png)) => Take::Copy { png, save },
        }),
{
    match captured {
        Err(failure) => Take::Done(Err(failure)),
        Ok(None) => Take::Done(Ok(None)),
        Ok(Some(png)) => Take::Copy { png, save },
    }
}

/// What to do once the image was copied: save it if that was asked for.
pub fn take_copied(png: Vec<u8>, save: bool, copied: Result<(), Failure>) -> (next: Take)
    ensures
        next == (match copied {
            Err(failure) => Take::Done(Err(failure)),
            Ok(()) => if save {
                Take::Save(png)
            } else {
                Take::Done(Ok(Some(Shot { png, saved: None })))
            },
        }),
{
    match copied {
        Err(failure) => Take::Done(Err(failure)),
        Ok(()) => if save {
            Take::Save(png)
        } else {
            Take::Done(Ok(Some(Shot { png, saved: None })))
        },
    }
}

/// What to do once the image was saved.
pub fn take_saved(png: Vec<u8>, saved: Result<Vec<u8>, Failure>) -> (next: Take)
    ensures
        next == (match saved {
            Err(failure) => Take::Done(Err(failure)),
            Ok(path) => Take::Done(Ok(Some(Shot { png, saved: Some(path) }))),
        }),
{
    match saved {
        Err(failure) => Take::Done(Err(failure)),
        Ok(path) => Take::Done(Ok(Some(Shot { png, saved: Some(path) }))),
    }
}

/// Asking where pictures are kept.
pub open spec fn asking_for_pictures() -> InvocationView {
    InvocationView { program: "xdg-user-dir"@, args: seq!["PICTURES"@] }
}

/// Ask where pictures are kept. The answer knows about localised directory names;
/// a fixed "Pictures" would be wrong on an Italian desktop.
pub fn ask_for_pictures() -> (command: Invocation)
    ensures
        command@ == asking_for_pictures(),
{
    let command = Invocation::new("xdg-user-dir").with("PICTURES");
    proof {
        assert(command@ =~= asking_for_pictures());
    }
    command
}

/// What a program printed, when it succeeded and printed anything.
pub open spec fn said(outcome: Result<Exit, String>) -> Option<Seq<char>> {
    match outcome {
        Ok(exit) => if exit.success && command::printed(exit.stdout@).len() > 0 {
            Some(command::printed(exit.stdout@))
        } else {
            None
        },
        Err(_) => None,
    }
}

fn read_said(outcome: Result<Exit, String>) -> (text: Option<String>)
    ensures
        match said(outcome) {
            Some(printed) => text matches Some(text) && text@ == printed,
            None => text is None,
        },
{
    match outcome {
        Ok(exit) => {
            if !exit.success {
                return None;
            }
            let printed = read_printed(&exit.stdout);
            if printed.as_str().is_empty() {
                None
            } else {
                Some(printed)
            }
        },
        Err(_) => None,
    }
}

/// The directory the answer names, if it names one.
pub fn named_pictures(outcome: Result<Exit, String>) -> (path: Option<String>)
    ensures
        match said(outcome) {
            Some(printed) => path matches Some(text) && text@ == printed,
            None => path is None,
        },
{
    read_said(outcome)
}

/// The home directory, or the current one where there is none.
pub open spec fn home_or_here(home: Option<Vec<u8>>) -> Seq<u8> {
    match home {
        Some(home) => home@,
        None => vstd::utf8::encode_utf8("."@),
    }
}

/// Where pictures are kept: the directory that was named, if it is one, or
/// `Pictures` in the home directory.
pub open spec fn pictures(named: Option<String>, is_dir: bool, home: Option<Vec<u8>>) -> Seq<u8> {
    match named {
        Some(path) if is_dir => vstd::utf8::encode_utf8(path@),
        _ => paths::below(home_or_here(home), "Pictures"@),
    }
}

/// Where pictures are kept; `is_dir` says whether the directory that was named is
/// one.
pub fn pictures_dir(named: Option<String>, is_dir: bool, home: Option<Vec<u8>>) -> (path: Vec<u8>)
    ensures
        path@ == pictures(named, is_dir, home),
{
    match named {
        Some(path) if is_dir => paths::bytes_of(path.as_str()),
        _ => {
            let base = match home {
                Some(home) => home,
                None => paths::bytes_of("."),
            };
            paths::join(&base, "Pictures")
        },
    }
}

/// Asking for the time.
pub open spec fn asking_for_time() -> InvocationView {
    InvocationView { program: "date"@, args: seq!["+%Y-%m-%d_%H-%M-%S"@] }
}

/// Ask for the time, in the form file names carry it.
pub fn ask_for_time() -> (command: Invocation)
    ensures
        command@ == asking_for_time(),
{
    let command = Invocation::new("date").with("+%Y-%m-%d_%H-%M-%S");
    proof {
        assert(command@ =~= asking_for_time());
    }
    command
}

/// The time a file name carries.
pub open spec fn stamp_of(outcome: Result<Exit, String>) -> Seq<char> {
    match said(outcome) {
        Some(stamp) => stamp,
        None => "unknown"@,
    }
}

/// The time a file name carries.
pub fn timestamp(outcome: Result<Exit, String>) -> (stamp: String)
    ensures
        stamp@ == stamp_of(outcome),
{
    match read_said(outcome) {
        Some(stamp) => stamp,
        None => "unknown".to_owned(),
    }
}

/// Where screenshots are kept.
pub open spec fn folder(pictures: Seq<u8>) -> Seq<u8> {
    paths::below(pictures, "Screenshots"@)
}

/// Where screenshots go: `Screenshots` below the pictures.
pub fn screenshots_dir(pictures: &Vec<u8>) -> (path: Vec<u8>)
    ensures
        path@ == paths::below(pictures@, "Screenshots"@),
        path@ == folder(pictures@),
{
    paths::join(pictures, "Screenshots")
}

/// Where a screenshot goes: `<pictures>/Screenshots/Screenshot_<timestamp>.png`.
pub fn destination(pictures: &Vec<u8>, stamp: &str) -> (path: Vec<u8>)
    ensures
        path@ == paths::below(
            paths::below(pictures@, "Screenshots"@),
            "Screenshot_"@ + stamp@ + ".png"@,
        ),
        path@ == paths::below(folder(pictures@), "Screenshot_"@ + stamp@ + ".png"@),
{
    let mut name = "Screenshot_".to_owned();
    name.append(stamp);
    name.append(".png");
    paths::join(&screenshots_dir(pictures), name.as_str())
}

/// What to report when a directory could not be made.
pub fn not_created(path: &str, cause: &str) -> (failure: Failure)
    ensures
        failure@ == command::because("could not create "@ + path@, cause@),
{
    let mut message = "could not create ".to_owned();
    message.append(path);
    Failure::caused(message.as_str(), cause)
}

/// What to report when a file could not be written.
pub fn not_written(path: &str, cause: &str) -> (failure: Failure)
    ensures
        failure@ == command::because("could not write "@ + path@, cause@),
{
    let mut message = "could not write ".to_owned();
    message.append(path);
    Failure::caused(message.as_str(), cause)
}

/// Whether a position or size in points can be worked with.
pub open spec fn workable(value: int) -> bool {
    -0x8000_0000 <= value <= 0x8000_0000
}

/// The rectangle of a window on the output whose corner is at `corner`.
pub open spec fn window_on(client: Client, corner: (i64, i64)) -> Option<Rect> {
    let x = client.x - corner.0;
    let y = client.y - corner.1;
    if workable(client.x as int) && workable(client.y as int) && workable(corner.0 as int)
        && workable(corner.1 as int) && workable(x) && workable(y) && workable(client.width as int)
        && workable(client.height as int) {
        Some(
            Rect {
                x: (x * UNITS) as i64,
                y: (y * UNITS) as i64,
                width: (client.width * UNITS) as i64,
                height: (client.height * UNITS) as i64,
            },
        )
    } else {
        None
    }
}

/// What the overlay has selected when it opens: nothing for a region, all of the
/// output for a screen, and the focused window, as far as it is on the output,
/// for a window.
pub open spec fn preset_for(
    mode: Mode,
    image: (u32, u32),
    corner: (i64, i64),
    scale: u16,
    window: Option<Client>,
) -> Option<(u32, u32, u32, u32)> {
    match mode {
        Mode::Region => None,
        Mode::Screen => Some((0, 0, image.0, image.1)),
        Mode::Window => match window {
            Some(client) => match window_on(client, corner) {
                Some(rect) => geom::pixels_of(rect, scale, image),
                None => None,
            },
            None => None,
        },
    }
}

fn is_workable(value: i64) -> (result: bool)
    ensures
        result == workable(value as int),
{
    -0x8000_0000 <= value && value <= 0x8000_0000
}

/// What the overlay has selected when it opens, in pixels of the captured output
/// whose corner is at `corner`. All of it stays adjustable.
pub fn preset(
    mode: Mode,
    image: (u32, u32),
    corner: (i64, i64),
    scale: u16,
    window: Option<Client>,
) -> (result: Option<(u32, u32, u32, u32)>)
    ensures
        result == preset_for(mode, image, corner, scale, window),
{
    let client = match mode {
        Mode::Region => {
            return None;
        },
        Mode::Screen => {
            return Some((0, 0, image.0, image.1));
        },
        Mode::Window => match window {
            Some(client) => client,
            None => {
                return None;
            },
        },
    };
    if !is_workable(client.x) || !is_workable(client.y) || !is_workable(corner.0) || !is_workable(
        corner.1,
    ) || !is_workable(client.width) || !is_workable(client.height) {
        return None;
    }
    let x: i64 = client.x - corner.0;
    let y: i64 = client.y - corner.1;
    if !is_workable(x) || !is_workable(y) {
        return None;
    }
    let rect = Rect {
        x: x * UNITS,
        y: y * UNITS,
        width: client.width * UNITS,
        height: client.height * UNITS,
    };
    to_pixels(rect, scale, image)
}

/// Every mode has its own names, and no other word names one.
pub proof fn law_every_name_is_of_one_mode(word: Seq<char>)
    ensures
        mode_named(word) == Some(Mode::Region) <==> word == "region"@ || word == "area"@,
        mode_named(word) == Some(Mode::Window) <==> word == "window"@ || word == "active"@,
        mode_named(word) == Some(Mode::Screen) <==> word == "screen"@ || word == "output"@ || word
            == "full"@,
{
    reveal_strlit("region");
    reveal_strlit("area");
    reveal_strlit("window");
    reveal_strlit("active");
    reveal_strlit("screen");
    reveal_strlit("output");
    reveal_strlit("full");
    assert("region"@[0] == 'r' && "area"@.len() == 4 && "window"@[0] == 'w' && "active"@[0] == 'a');
    assert("screen"@[0] == 's' && "output"@[0] == 'o' && "full"@[0] == 'f' && "area"@[0] == 'a');
    assert("active"@.len() == 6);
}

/// A region is dragged out; for a window and for the screen the compositor is asked
/// first. What is dragged over or picked from is held still when that is wanted,
/// and a whole screen never is.
pub proof fn law_every_mode_begins_its_own_way(mode: Mode, freeze: bool, held: bool)
    ensures
        first_program(mode, held) matches StepView::Run { held: still, stage, command, input } && {
            &&& still == held
            &&& input.len() == 0
            &&& mode == Mode::Region <==> stage == StageView::Region
            &&& mode == Mode::Window <==> stage == StageView::Monitors
            &&& mode == Mode::Screen <==> stage == StageView::Output
            &&& mode == Mode::Region ==> command.program == "slurp"@ && command.args.len() == 0
            &&& mode != Mode::Region ==> command.program == "hyprctl"@ && command.args == seq![
                "monitors"@,
                "-j"@,
            ]
        },
        first_step(mode, freeze) is Freeze <==> freeze && mode != Mode::Screen,
        first_step(mode, freeze) matches StepView::Freeze { mode: held_mode, command } ==> held_mode
            == mode && command.program == "hyprpicker"@,
        !freeze || mode == Mode::Screen ==> first_step(mode, freeze) == first_program(mode, false),
{
}

/// The windows that may be picked are those that show, one to a line: first the
/// outputs say which workspaces they show, then the windows are asked for.
pub proof fn law_a_window_is_picked_from_those_that_show(
    held: bool,
    shown: Seq<i64>,
    outcome: Result<Exit, String>,
)
    ensures
        outputs(outcome) matches Ok(monitors) ==> (step_after(held, StageView::Monitors, outcome)
            matches StepView::Run { held: still, stage, command, .. } && {
            &&& still == held
            &&& stage == (StageView::Clients { shown: hyprland::workspaces_of(monitors) })
            &&& command.program == "hyprctl"@ && command.args == seq!["clients"@, "-j"@]
        }),
        windows(outcome) matches Ok(clients) ==> (step_after(
            held,
            StageView::Clients { shown },
            outcome,
        ) matches StepView::Run { held: still, stage, command, input } && {
            &&& still == held
            &&& stage == StageView::Window
            &&& command.program == "slurp"@ && command.args == seq!["-r"@]
            &&& input == text::joined(hyprland::boxes_of(clients, shown), "\n"@)
        }),
        outputs(outcome) matches Err(message) ==> step_after(held, StageView::Monitors, outcome)
            == if held {
            StepView::Release(Err(message))
        } else {
            StepView::Done(Err(message))
        },
        windows(outcome) matches Err(message) ==> step_after(
            held,
            StageView::Clients { shown },
            outcome,
        ) == if held {
            StepView::Release(Err(message))
        } else {
            StepView::Done(Err(message))
        },
{
}

/// The screen that is grabbed is the output in focus, and the region that is grabbed
/// is the one that was dragged or picked. What was grabbed is the result.
pub proof fn law_what_was_chosen_is_what_is_grabbed(
    held: bool,
    picked: bool,
    outcome: Result<Exit, String>,
)
    ensures
        outputs(outcome) matches Ok(monitors) ==> (hyprland::focused_name(monitors) matches Some(
            name,
        ) ==> (step_after(held, StageView::Output, outcome) matches StepView::Run {
            held: still,
            stage: StageView::Grab,
            command,
            ..
        } && still == held && command.args[2] == "-o"@ && command.args[3] == name
            && command.args[1] == "png"@)),
        capture::choice(outcome) matches Ok(Some(region)) ==> (step_after(
            held,
            if picked {
                StageView::Window
            } else {
                StageView::Region
            },
            outcome,
        ) matches StepView::Run { held: still, stage: StageView::Grab, command, .. } && still
            == held && command.args[2] == "-g"@ && command.args[3] == region && command.args[1]
            == "png"@),
        outcome matches Ok(exit) ==> (exit.success && exit.stdout@.len() > 0 ==> step_after(
            held,
            StageView::Grab,
            outcome,
        ) == if held {
            StepView::Release(Ok(Some(exit.stdout@)))
        } else {
            StepView::Done(Ok(Some(exit.stdout@)))
        }),
{
}

/// The answers are read as what was asked for.
pub proof fn law_the_outputs_and_the_windows_are_those_listed(exit: Exit, list: Seq<json::Json>)
    requires
        exit.success,
        json::document(exit.stdout@) == Ok::<json::Json, Seq<char>>(json::Json::List(list)),
    ensures
        outputs(Ok(exit)) == Ok::<Seq<hyprland::MonitorView>, Seq<char>>(
            hyprland::monitors_of(list),
        ),
        windows(Ok(exit)) == Ok::<Seq<Client>, Seq<char>>(hyprland::clients_of(list)),
{
}

/// Screenshots go to the directory for pictures when one was named that is there, and
/// else to one below the home directory, or below the current one without a home.
pub proof fn law_pictures_go_where_they_were_named(
    named: Option<String>,
    is_dir: bool,
    home: Option<Vec<u8>>,
)
    ensures
        named matches Some(path) ==> (is_dir ==> pictures(named, is_dir, home)
            == vstd::utf8::encode_utf8(path@)),
        named is None || !is_dir ==> {
            &&& home matches Some(home) ==> (home@.len() > 0 && home@.last() != 47 ==> pictures(
                named,
                is_dir,
                Some(home),
            ) == home@ + seq![47u8] + vstd::utf8::encode_utf8("Pictures"@))
            &&& home is None ==> pictures(named, is_dir, home) == seq![46u8, 47u8]
                + vstd::utf8::encode_utf8("Pictures"@)
        },
{
    reveal_strlit(".");
    vstd::utf8::is_ascii_chars_encode_utf8("."@);
    assert(vstd::utf8::encode_utf8("."@) =~= seq![46u8]);
    if home is None && (named is None || !is_dir) {
        assert(pictures(named, is_dir, home) =~= seq![46u8, 47u8] + vstd::utf8::encode_utf8(
            "Pictures"@,
        ));
    }
}

/// A program says what it printed when it succeeded and printed anything but white
/// space. A time that was not said is unknown.
pub proof fn law_only_success_says_anything(exit: Exit, cause: String)
    ensures
        said(Ok(exit)) is Some <==> exit.success && command::printed(exit.stdout@).len() > 0,
        said(Ok(exit)) matches Some(text) ==> text == command::printed(exit.stdout@)
            && stamp_of(Ok(exit)) == text,
        said(Err(cause)) is None,
        said(Ok(exit)) is None ==> stamp_of(Ok(exit)) == "unknown"@,
        stamp_of(Err(cause)) == "unknown"@,
        asking_for_pictures().program == "xdg-user-dir"@,
        asking_for_pictures().args == seq!["PICTURES"@],
        asking_for_time().program == "date"@,
        asking_for_time().args == seq!["+%Y-%m-%d_%H-%M-%S"@],
{
}

/// A screen is selected whole, a region not at all, and a window where it shows on
/// its output: its place as seen from the output's corner, at the output's scale.
/// Moving the window and the output together makes no difference.
pub proof fn law_the_selection_begins_where_the_window_is(
    image: (u32, u32),
    corner: (i64, i64),
    scale: u16,
    client: Client,
    moved: Client,
    away: (i64, i64),
)
    requires
        -0x4000_0000 <= client.x <= 0x4000_0000,
        -0x4000_0000 <= client.y <= 0x4000_0000,
        0 <= client.width <= 0x4000_0000,
        0 <= client.height <= 0x4000_0000,
        -0x4000_0000 <= corner.0 <= 0x4000_0000,
        -0x4000_0000 <= corner.1 <= 0x4000_0000,
        -0x4000_0000 <= away.0 <= 0x4000_0000,
        -0x4000_0000 <= away.1 <= 0x4000_0000,
        -0x4000_0000 <= moved.x <= 0x4000_0000,
        -0x4000_0000 <= moved.y <= 0x4000_0000,
        moved.width == client.width,
        moved.height == client.height,
        moved.x - away.0 == client.x - corner.0,
        moved.y - away.1 == client.y - corner.1,
    ensures
        preset_for(Mode::Region, image, corner, scale, Some(client)) is None,
        preset_for(Mode::Screen, image, corner, scale, Some(client)) == Some(
            (0u32, 0u32, image.0, image.1),
        ),
        preset_for(Mode::Window, image, corner, scale, None) is None,
        preset_for(Mode::Window, image, corner, scale, Some(client)) == geom::pixels_of(
            (Rect {
                x: (256 * (client.x - corner.0)) as i64,
                y: (256 * (client.y - corner.1)) as i64,
                width: (256 * client.width) as i64,
                height: (256 * client.height) as i64,
            }),
            scale,
            image,
        ),
        preset_for(Mode::Window, image, away, scale, Some(moved)) == preset_for(
            Mode::Window,
            image,
            corner,
            scale,
            Some(client),
        ),
{
}

/// An answer that is no list, or none at all, names the question it was to.
pub proof fn law_a_failed_question_is_named(exit: Exit)
    ensures
        !exit.success ==> outputs(Ok(exit)) == Err::<Seq<hyprland::MonitorView>, Seq<char>>(
            "hyprctl "@ + "monitors"@ + " -j failed"@,
        ),
        !exit.success ==> windows(Ok(exit)) == Err::<Seq<Client>, Seq<char>>(
            "hyprctl "@ + "clients"@ + " -j failed"@,
        ),
        exit.success ==> (json::document(exit.stdout@) matches Ok(value) ==> (!(value is List) ==> {
            &&& outputs(Ok(exit)) == Err::<Seq<hyprland::MonitorView>, Seq<char>>(
                "hyprctl monitors: not a list"@,
            )
            &&& windows(Ok(exit)) == Err::<Seq<Client>, Seq<char>>("hyprctl clients: not a list"@)
        })),
{
}

/// A window with a number beyond thirty-two bits is not selected, whichever number it is.
pub proof fn law_a_window_beyond_reach_is_not_selected(
    image: (u32, u32),
    corner: (i64, i64),
    scale: u16,
    client: Client,
)
    ensures
        ({
            let far = |n: int| n < -0x8000_0000 || n > 0x8000_0000;
            far(client.x as int) || far(client.y as int) || far(client.width as int) || far(
                client.height as int,
            ) || far(corner.0 as int) || far(corner.1 as int) || far(client.x - corner.0) || far(
                client.y - corner.1,
            ) <==> window_on(client, corner) is None
        }),
        window_on(client, corner) is None ==> preset_for(
            Mode::Window,
            image,
            corner,
            scale,
            Some(client),
        ) is None,
{
}

/// Screenshots are kept in one directory below that for pictures.
pub proof fn law_screenshots_have_their_own_directory(pictures: Seq<u8>)
    requires
        pictures.len() > 0,
        pictures.last() != 47,
    ensures
        folder(pictures) == pictures + seq![47u8] + vstd::utf8::encode_utf8("Screenshots"@),
{
}

} // verus!
