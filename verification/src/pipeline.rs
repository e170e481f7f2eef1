//! The work itself: get text from somewhere, then translate it.
//!
//! A [`Worker`] decides what to do next; whoever drives it runs the programs,
//! the recogniser and the network requests it names, and hands back what became
//! of them. It remembers whether the recogniser is loaded, so that the language
//! models are loaded once and then kept.
use crate::capture;
use crate::capture::{grab, interactive, Interactive, InteractiveView, Region};
use crate::clip;
use crate::clip::{clipboard, pasted, primary};
use crate::command;
use crate::command::{Exit, Failure, Invocation, InvocationView};
use crate::ocr;
use crate::ocr::{not_started, recognized, Reading};
use crate::overlay::Capture;
use crate::shot::Mode;
use crate::text;
use crate::translate;
use crate::translate::{
    backend, Backend, BackendView, Environment, Reply, ReplyView, Request, RequestView, Translator,
};
use vstd::prelude::*;

verus! {

/// How long the recogniser is kept without being used, in seconds.
pub const ENGINE_IDLE: u64 = 180;

/// Where the text comes from.
#[derive(Debug)]
pub enum Verb {
    /// Read a region of the screen.
    Ocr {
        /// Skip the interactive drag and use this region.
        geometry: Option<String>,
    },
    /// Read a region but do not translate it.
    OcrRaw,
    /// Read an image that was captured already; `raw` skips translation.
    OcrImage { png: Vec<u8>, raw: bool },
    /// Capture the screen for the overlay.
    Shot(Mode),
    Selection,
    Clipboard,
    Text(String),
    /// Raise the window without changing its contents. Handled by the window.
    Show,
}

pub enum VerbView {
    Ocr { geometry: Option<Seq<char>> },
    OcrRaw,
    OcrImage { png: Seq<u8>, raw: bool },
    Shot(Mode),
    Selection,
    Clipboard,
    Text(Seq<char>),
    Show,
}

impl View for Verb {
    type V = VerbView;

    open spec fn view(&self) -> VerbView {
        match self {
            Verb::Ocr { geometry } => VerbView::Ocr { geometry: translate::some_text(*geometry) },
            Verb::OcrRaw => VerbView::OcrRaw,
            Verb::OcrImage { png, raw } => VerbView::OcrImage { png: png@, raw: *raw },
            Verb::Shot(mode) => VerbView::Shot(*mode),
            Verb::Selection => VerbView::Selection,
            Verb::Clipboard => VerbView::Clipboard,
            Verb::Text(text) => VerbView::Text(text@),
            Verb::Show => VerbView::Show,
        }
    }
}

impl VerbView {
    /// Whether the verb itself asks for the text without a translation.
    pub open spec fn raw(self) -> bool {
        match self {
            VerbView::OcrRaw => true,
            VerbView::OcrImage { raw, .. } => raw,
            _ => false,
        }
    }
}

impl Verb {
    pub fn is_raw(&self) -> (result: bool)
        ensures
            result == self@.raw(),
    {
        match self {
            Verb::OcrRaw => true,
            Verb::OcrImage { raw, .. } => *raw,
            _ => false,
        }
    }
}

/// A verb, and how to carry it out.
#[derive(Debug)]
pub struct Job {
    pub verb: Verb,
    pub from: String,
    pub to: String,
    pub engine: String,
    /// Hold the screen still while a region is dragged.
    pub freeze: bool,
    /// Skip translation, whatever the verb says.
    pub raw: bool,
}

pub struct JobView {
    pub verb: VerbView,
    pub from: Seq<char>,
    pub to: Seq<char>,
    pub engine: Seq<char>,
    pub freeze: bool,
    pub raw: bool,
}

impl View for Job {
    type V = JobView;

    open spec fn view(&self) -> JobView {
        JobView {
            verb: self.verb@,
            from: self.from@,
            to: self.to@,
            engine: self.engine@,
            freeze: self.freeze,
            raw: self.raw,
        }
    }
}

impl JobView {
    /// Whether the text is wanted without a translation.
    pub open spec fn is_raw(self) -> bool {
        self.raw || self.verb.raw()
    }
}

impl Job {
    pub fn new(verb: Verb) -> (job: Self)
        ensures
            job@ == (JobView {
                verb: verb@,
                from: "auto"@,
                to: "en"@,
                engine: "google"@,
                freeze: true,
                raw: false,
            }),
    {
        Self {
            verb,
            from: "auto".to_owned(),
            to: "en".to_owned(),
            engine: "google".to_owned(),
            freeze: true,
            raw: false,
        }
    }
}

/// A text and its translation.
#[derive(Debug, Default)]
pub struct Outcome {
    pub source: String,
    pub translation: String,
    /// What the engine decided the source language was.
    pub from: String,
    pub to: String,
}

pub struct OutcomeView {
    pub source: Seq<char>,
    pub translation: Seq<char>,
    pub from: Seq<char>,
    pub to: Seq<char>,
}

impl View for Outcome {
    type V = OutcomeView;

    open spec fn view(&self) -> OutcomeView {
        OutcomeView {
            source: self.source@,
            translation: self.translation@,
            from: self.from@,
            to: self.to@,
        }
    }
}

/// What a job produces.
pub enum Product {
    Text(Outcome),
    /// A capture for the overlay.
    Shot(Capture),
}

pub enum ProductView {
    Text(OutcomeView),
    Shot { png: Seq<u8>, scale: u16, preset: Option<(u32, u32, u32, u32)> },
}

impl View for Product {
    type V = ProductView;

    open spec fn view(&self) -> ProductView {
        match self {
            Product::Text(outcome) => ProductView::Text(outcome@),
            Product::Shot(capture) => shot_view(*capture),
        }
    }
}

/// A capture for the overlay, by content.
pub open spec fn shot_view(capture: Capture) -> ProductView {
    ProductView::Shot { png: capture.png@, scale: capture.scale, preset: capture.preset }
}

/// What a worker needs done next.
pub enum Action {
    /// Run this and hand what became of it to [`Worker::pasted`].
    Paste(Invocation),
    /// Put up the freeze: start this, leave it running, and say with
    /// [`Worker::frozen`] whether it started.
    Freeze(Invocation),
    /// Run this, and hand what became of it to [`Worker::selected`]. `held` says
    /// whether the freeze is up.
    Select { held: bool, command: Invocation },
    /// Run this, and hand what became of it to [`Worker::grabbed`]. `held` says
    /// whether the freeze is up.
    Grab { held: bool, command: Invocation },
    /// Take the freeze down, and go on with [`Worker::released`].
    Release(Result<Option<Vec<u8>>, Failure>),
    /// Load the recogniser, and hand the image and how it went to
    /// [`Worker::loaded`].
    Load { image: Vec<u8> },
    /// Recognise the image, and hand what was read to [`Worker::recognized`].
    Recognise { image: Vec<u8> },
    /// Capture the screen for the overlay, and hand that to
    /// [`Worker::captured`].
    Capture(Mode),
    /// Ask over the network, and hand the reply, with the source and the
    /// backend, to [`Worker::replied`].
    Ask { source: String, backend: Backend, request: Request },
    /// The job is done. `Ok(None)` means there was nothing to do: the drag was
    /// cancelled, or the verb was not the worker's to handle.
    Done(Result<Option<Product>, Failure>),
}

pub enum ActionView {
    Paste(InvocationView),
    Freeze(InvocationView),
    Select { held: bool, command: InvocationView },
    Grab { held: bool, command: InvocationView },
    Release(Result<Option<Seq<u8>>, Seq<char>>),
    Load { image: Seq<u8> },
    Recognise { image: Seq<u8> },
    Capture(Mode),
    Ask { source: Seq<char>, backend: BackendView, request: RequestView },
    Done(Result<Option<ProductView>, Seq<char>>),
}

impl View for Action {
    type V = ActionView;

    open spec fn view(&self) -> ActionView {
        match self {
            Action::Paste(command) => ActionView::Paste(command@),
            Action::Freeze(command) => ActionView::Freeze(command@),
            Action::Select { held, command } => ActionView::Select {
                held: *held,
                command: command@,
            },
            Action::Grab { held, command } => ActionView::Grab { held: *held, command: command@ },
            Action::Release(result) => ActionView::Release(capture::capture_view(*result)),
            Action::Load { image } => ActionView::Load { image: image@ },
            Action::Recognise { image } => ActionView::Recognise { image: image@ },
            Action::Capture(mode) => ActionView::Capture(*mode),
            Action::Ask { source, backend, request } => ActionView::Ask {
                source: source@,
                backend: backend@,
                request: request@,
            },
            Action::Done(Ok(Some(product))) => ActionView::Done(Ok(Some(product@))),
            Action::Done(Ok(None)) => ActionView::Done(Ok(None)),
            Action::Done(Err(failure)) => ActionView::Done(Err(failure@)),
        }
    }
}

/// The end of a job that went wrong.
pub open spec fn failed(message: Seq<char>) -> ActionView {
    ActionView::Done(Err(message))
}

/// The end of a job that gave a text.
pub open spec fn finished(outcome: OutcomeView) -> ActionView {
    ActionView::Done(Ok(Some(ProductView::Text(outcome))))
}

/// What to do with the text of a job: nothing without one, hand it back as it is
/// when no translation is wanted, and have it translated otherwise.
pub open spec fn with_source(
    job: JobView,
    environment: Environment,
    source: Seq<char>,
) -> ActionView {
    if source.len() == 0 {
        failed("no text found"@)
    } else if job.is_raw() {
        finished(OutcomeView { source, translation: source, from: job.from, to: job.to })
    } else {
        match translate::backend_named(job.engine, environment) {
            Err(message) => failed(message),
            Ok(backend) => ActionView::Ask {
                source,
                backend,
                request: backend.asked(source, job.from, job.to),
            },
        }
    }
}

/// What to do with an image to read: the recogniser is loaded first if it is not.
pub open spec fn with_image(loaded: bool, image: Seq<u8>) -> ActionView {
    if loaded {
        ActionView::Recognise { image }
    } else {
        ActionView::Load { image }
    }
}

/// How a job goes on with an interactive capture: its moves are the job's, and
/// what it ends with is read.
pub open spec fn with_move(loaded: bool, step: InteractiveView) -> ActionView {
    match step {
        InteractiveView::Freeze(command) => ActionView::Freeze(command),
        InteractiveView::Select { held, command } => ActionView::Select { held, command },
        InteractiveView::Grab { held, command } => ActionView::Grab { held, command },
        InteractiveView::Release(result) => ActionView::Release(result),
        InteractiveView::Done(Err(message)) => failed(message),
        InteractiveView::Done(Ok(None)) => ActionView::Done(Ok(None)),
        InteractiveView::Done(Ok(Some(image))) => with_image(loaded, image),
    }
}

/// How a job starts.
pub open spec fn first_action(loaded: bool, job: JobView, environment: Environment) -> ActionView {
    match job.verb {
        VerbView::Show => ActionView::Done(Ok(None)),
        VerbView::Text(text) => with_source(job, environment, text),
        VerbView::Selection => ActionView::Paste(clip::pasting_primary()),
        VerbView::Clipboard => ActionView::Paste(clip::pasting()),
        VerbView::OcrRaw => with_move(loaded, capture::first_move(job.freeze)),
        VerbView::Ocr { geometry } => match geometry {
            None => with_move(loaded, capture::first_move(job.freeze)),
            Some(given) => match capture::region_from(given) {
                Err(message) => failed(message),
                Ok(region) => ActionView::Grab { held: false, command: capture::grabbing(region) },
            },
        },
        VerbView::OcrImage { png, .. } => with_image(loaded, png),
        VerbView::Shot(mode) => ActionView::Capture(mode),
    }
}

/// How a job goes on once a selection was read.
pub open spec fn after_paste(
    job: JobView,
    environment: Environment,
    outcome: Result<Exit, String>,
) -> ActionView {
    match clip::paste_outcome(outcome) {
        Err(message) => failed(message),
        Ok(source) => with_source(job, environment, source),
    }
}

/// How a job goes on once the freeze was put up, or could not be.
pub open spec fn after_freeze(started: bool) -> ActionView {
    ActionView::Select { held: started, command: capture::selecting() }
}

/// How a job goes on once a region was dragged.
pub open spec fn after_selection(
    loaded: bool,
    held: bool,
    outcome: Result<Exit, String>,
) -> ActionView {
    with_move(loaded, capture::move_after_drag(held, outcome))
}

/// How a job goes on once a region was grabbed.
pub open spec fn after_grab(loaded: bool, held: bool, outcome: Result<Exit, String>) -> ActionView {
    with_move(loaded, capture::move_after_grab(held, outcome))
}

/// How a job goes on once the freeze was taken down.
pub open spec fn after_release(
    loaded: bool,
    result: Result<Option<Seq<u8>>, Seq<char>>,
) -> ActionView {
    with_move(loaded, InteractiveView::Done(result))
}

/// What to report when the recogniser does not start.
pub open spec fn load_failure(langs: Seq<char>, cause: Seq<char>) -> Seq<char> {
    command::because(
        "tesseract init failed for '"@ + langs
            + "' - missing language data? install with: sudo pacman -S "@ + text::joined(
            ocr::packages(text::split(langs, '+')),
            " "@,
        ),
        cause,
    )
}

/// How a job goes on once the image was read.
pub open spec fn after_reading(
    job: JobView,
    environment: Environment,
    reading: Reading,
) -> ActionView {
    match ocr::reading_of(reading) {
        Err(message) => failed(message),
        Ok(source) => with_source(job, environment, source),
    }
}

/// How a job ends once the backend replied: the source language is what the
/// backend detected, or what the job says where it detected nothing.
pub open spec fn after_reply(
    job: JobView,
    source: Seq<char>,
    backend: BackendView,
    reply: ReplyView,
) -> ActionView {
    match backend.heard(reply) {
        Err(message) => failed(message),
        Ok(translation) => finished(
            OutcomeView {
                source,
                translation: translation.text,
                from: match translation.detected {
                    Some(detected) => detected,
                    None => job.from,
                },
                to: job.to,
            },
        ),
    }
}

/// Carries out jobs, one at a time.
#[derive(Debug)]
pub struct Worker {
    /// The languages to recognise, "+"-joined.
    pub langs: String,
    /// Where the language models come from, when not from the system.
    pub tessdata: Option<String>,
    /// Whether the recogniser is loaded. Loading the language models is the
    /// single most expensive step, so it happens on first use and then never
    /// again while they are kept.
    pub loaded: bool,
}

pub struct WorkerView {
    pub langs: Seq<char>,
    pub tessdata: Option<Seq<char>>,
    pub loaded: bool,
}

impl View for Worker {
    type V = WorkerView;

    open spec fn view(&self) -> WorkerView {
        WorkerView {
            langs: self.langs@,
            tessdata: translate::some_text(self.tessdata),
            loaded: self.loaded,
        }
    }
}

fn handle_source(job: &Job, environment: &Environment, source: String) -> (action: Action)
    ensures
        action@ == with_source(job@, *environment, source@),
{
    if source.as_str().is_empty() {
        return Action::Done(Err(Failure::new("no text found")));
    }
    let from = job.from.as_str().to_owned();
    let to = job.to.as_str().to_owned();
    if job.raw || job.verb.is_raw() {
        let translation = source.as_str().to_owned();
        return Action::Done(Ok(Some(Product::Text(Outcome { source, translation, from, to }))));
    }
    match backend(job.engine.as_str(), environment) {
        Err(failure) => Action::Done(Err(failure)),
        Ok(backend) => {
            let request = backend.request(source.as_str(), from.as_str(), to.as_str());
            Action::Ask { source, backend, request }
        },
    }
}

impl Worker {
    pub fn new(langs: String, tessdata: Option<String>) -> (worker: Self)
        ensures
            worker@ == (WorkerView {
                langs: langs@,
                tessdata: translate::some_text(tessdata),
                loaded: false,
            }),
    {
        Self { langs, tessdata, loaded: false }
    }

    fn handle_image(&self, image: Vec<u8>) -> (action: Action)
        ensures
            action@ == with_image(self@.loaded, image@),
    {
        if self.loaded {
            Action::Recognise { image }
        } else {
            Action::Load { image }
        }
    }

    fn handle_move(&self, step: Interactive) -> (action: Action)
        ensures
            action@ == with_move(self@.loaded, step@),
    {
        match step {
            Interactive::Freeze(command) => Action::Freeze(command),
            Interactive::Select { held, command } => Action::Select { held, command },
            Interactive::Grab { held, command } => Action::Grab { held, command },
            Interactive::Release(result) => Action::Release(result),
            Interactive::Done(Err(failure)) => Action::Done(Err(failure)),
            Interactive::Done(Ok(None)) => Action::Done(Ok(None)),
            Interactive::Done(Ok(Some(image))) => self.handle_image(image),
        }
    }

    /// Start a job.
    pub fn run(&self, job: &Job, environment: &Environment) -> (action: Action)
        ensures
            action@ == first_action(self@.loaded, job@, *environment),
    {
        match &job.verb {
            Verb::Show => Action::Done(Ok(None)),
            Verb::Text(text) => handle_source(job, environment, text.as_str().to_owned()),
            Verb::Selection => Action::Paste(primary()),
            Verb::Clipboard => Action::Paste(clipboard()),
            Verb::OcrRaw => self.handle_move(interactive(job.freeze)),
            Verb::Ocr { geometry } => match geometry {
                None => self.handle_move(interactive(job.freeze)),
                Some(given) => match Region::parse(given.as_str()) {
                    Err(failure) => Action::Done(Err(failure)),
                    Ok(region) => Action::Grab { held: false, command: grab(&region) },
                },
            },
            Verb::OcrImage { png, .. } => {
                let mut image: Vec<u8> = Vec::new();
                image.extend_from_slice(png.as_slice());
                proof {
                    assert(image@ =~= png@);
                }
                self.handle_image(image)
            },
            Verb::Shot(mode) => Action::Capture(*mode),
        }
    }

    /// Go on once a selection was read.
    pub fn pasted(
        &self,
        job: &Job,
        environment: &Environment,
        outcome: Result<Exit, String>,
    ) -> (action: Action)
        ensures
            action@ == after_paste(job@, *environment, outcome),
    {
        match clip::pasted(outcome) {
            Err(failure) => Action::Done(Err(failure)),
            Ok(source) => handle_source(job, environment, source),
        }
    }

    /// Go on once the freeze was put up, or could not be.
    pub fn frozen(&self, started: bool) -> (action: Action)
        ensures
            action@ == after_freeze(started),
    {
        self.handle_move(capture::frozen(started))
    }

    /// Go on once a region was dragged.
    pub fn selected(&self, held: bool, outcome: Result<Exit, String>) -> (action: Action)
        ensures
            action@ == after_selection(self@.loaded, held, outcome),
    {
        self.handle_move(capture::dragged(held, outcome))
    }

    /// Go on once a region was grabbed.
    pub fn grabbed(&self, held: bool, outcome: Result<Exit, String>) -> (action: Action)
        ensures
            action@ == after_grab(self@.loaded, held, outcome),
    {
        self.handle_move(capture::finished(held, outcome))
    }

    /// Go on once the freeze was taken down.
    pub fn released(&self, result: Result<Option<Vec<u8>>, Failure>) -> (action: Action)
        ensures
            action@ == after_release(self@.loaded, capture::capture_view(result)),
    {
        self.handle_move(capture::released(result))
    }

    /// Go on once the recogniser was loaded, or why it was not.
    pub fn loaded(&mut self, image: Vec<u8>, result: Result<(), String>) -> (action: Action)
        ensures
            match result {
                Ok(()) => {
                    &&& final(self)@ == (WorkerView { loaded: true, ..old(self)@ })
                    &&& action@ == (ActionView::Recognise { image: image@ })
                },
                Err(cause) => {
                    &&& final(self)@ == old(self)@
                    &&& action@ == failed(load_failure(old(self)@.langs, cause@))
                },
            },
    {
        match result {
            Ok(()) => {
                self.loaded = true;
                Action::Recognise { image }
            },
            Err(cause) => Action::Done(
                Err(not_started(self.langs.as_str(), cause.as_str())),
            ),
        }
    }

    /// Go on once the image was read.
    pub fn recognized(
        &self,
        job: &Job,
        environment: &Environment,
        reading: Reading,
    ) -> (action: Action)
        ensures
            action@ == after_reading(job@, *environment, reading),
    {
        match recognized(reading) {
            Err(failure) => Action::Done(Err(failure)),
            Ok(source) => handle_source(job, environment, source),
        }
    }

    /// End once the screen was captured for the overlay.
    pub fn captured(&self, result: Result<Option<Capture>, Failure>) -> (action: Action)
        ensures
            action@ == ActionView::Done(
                match result {
                    Ok(Some(capture)) => Ok(Some(shot_view(capture))),
                    Ok(None) => Ok(None),
                    Err(failure) => Err(failure@),
                },
            ),
    {
        match result {
            Ok(Some(capture)) => Action::Done(Ok(Some(Product::Shot(capture)))),
            Ok(None) => Action::Done(Ok(None)),
            Err(failure) => Action::Done(Err(failure)),
        }
    }

    /// End once the backend replied, or why it did not.
    pub fn replied(
        &self,
        job: &Job,
        source: String,
        backend: &Backend,
        reply: Reply,
    ) -> (action: Action)
        ensures
            action@ == after_reply(job@, source@, backend@, reply@),
    {
        match backend.translation(reply) {
            Err(failure) => Action::Done(Err(failure)),
            Ok(translation) => {
                let from = match translation.detected {
                    Some(detected) => detected,
                    None => job.from.as_str().to_owned(),
                };
                let outcome = Outcome {
                    source,
                    translation: translation.text,
                    from,
                    to: job.to.as_str().to_owned(),
                };
                Action::Done(Ok(Some(Product::Text(outcome))))
            },
        }
    }

    /// Whether the recogniser should be dropped, having been unused for so many
    /// seconds. Its models are only held while you are using it.
    pub fn idle(&mut self, seconds: u64) -> (dropped: bool)
        ensures
            dropped == (old(self)@.loaded && seconds >= ENGINE_IDLE),
            final(self)@ == (WorkerView { loaded: old(self)@.loaded && !dropped, ..old(self)@ }),
    {
        if self.loaded && seconds >= ENGINE_IDLE {
            self.loaded = false;
            true
        } else {
            false
        }
    }
}

/// How many more actions may follow an action.
pub open spec fn actions_left(action: ActionView) -> nat {
    match action {
        ActionView::Done(_) => 0,
        ActionView::Ask { .. } | ActionView::Capture(_) => 1,
        ActionView::Recognise { .. } | ActionView::Paste(_) => 2,
        ActionView::Load { .. } => 3,
        ActionView::Release(_) => 4,
        ActionView::Grab { .. } => 5,
        ActionView::Select { .. } => 6,
        ActionView::Freeze(_) => 7,
    }
}

/// Every answer brings a job closer to its end, so a job ends after at most eight
/// actions.
pub proof fn law_a_job_ends(
    loaded: bool,
    held: bool,
    job: JobView,
    environment: Environment,
    outcome: Result<Exit, String>,
    reading: Reading,
    source: Seq<char>,
    backend: BackendView,
    reply: ReplyView,
    image: Seq<u8>,
    langs: Seq<char>,
    cause: Seq<char>,
    captured: Result<Option<Seq<u8>>, Seq<char>>,
)
    ensures
        actions_left(first_action(loaded, job, environment)) <= 7,
        actions_left(after_paste(job, environment, outcome)) < 2,
        actions_left(after_freeze(held)) < 7,
        actions_left(after_selection(loaded, held, outcome)) < 6,
        actions_left(after_grab(loaded, held, outcome)) < 5,
        actions_left(after_release(loaded, captured)) < 4,
        actions_left(ActionView::Recognise { image }) < 3,
        actions_left(failed(load_failure(langs, cause))) < 3,
        actions_left(after_reading(job, environment, reading)) < 2,
        actions_left(after_reply(job, source, backend, reply)) < 1,
{
}

/// Whether the freeze is up at an action.
pub open spec fn holds_the_screen(action: ActionView) -> bool {
    match action {
        ActionView::Select { held, .. } | ActionView::Grab { held, .. } => held,
        ActionView::Release(_) => true,
        _ => false,
    }
}

/// A job holds the screen from before its selection until after its grab: it
/// starts without the freeze; it asks for it where the job wants it and a region
/// is dragged, and nowhere else; it is up for the selection exactly if it started,
/// stays up or down through the selection and the grab, and once it was taken down
/// it stays down. No job ends with it up.
pub proof fn law_a_job_holds_the_screen_until_after_the_grab(
    loaded: bool,
    job: JobView,
    environment: Environment,
    started: bool,
    held: bool,
    outcome: Result<Exit, String>,
    captured: Result<Option<Seq<u8>>, Seq<char>>,
    end: Result<Option<ProductView>, Seq<char>>,
)
    ensures
        !holds_the_screen(first_action(loaded, job, environment)),
        first_action(loaded, job, environment) is Freeze <==> job.freeze && (job.verb is OcrRaw
            || job.verb == (VerbView::Ocr { geometry: None })),
        after_freeze(started) is Select && holds_the_screen(after_freeze(started)) == started,
        holds_the_screen(after_selection(loaded, held, outcome)) == held,
        holds_the_screen(after_grab(loaded, held, outcome)) == held,
        held ==> after_grab(loaded, held, outcome) is Release,
        !holds_the_screen(after_release(loaded, captured)),
        !(after_release(loaded, captured) is Freeze || after_release(loaded, captured) is Grab),
        !holds_the_screen(ActionView::Done(end)),
{
}

/// What is asked for raw is handed back as it was read, and nothing is asked over
/// the network.
pub proof fn law_raw_text_is_never_translated(
    job: JobView,
    environment: Environment,
    source: Seq<char>,
)
    requires
        job.is_raw(),
    ensures
        !(with_source(job, environment, source) is Ask),
        source.len() > 0 ==> with_source(job, environment, source) == finished(
            OutcomeView { source, translation: source, from: job.from, to: job.to },
        ),
{
}

/// Nothing is ever translated out of nothing.
pub proof fn law_no_text_is_a_failure(job: JobView, environment: Environment)
    ensures
        with_source(job, environment, Seq::empty()) == failed("no text found"@),
{
}

/// A loaded recogniser is not loaded again.
pub proof fn law_the_recogniser_is_loaded_once(
    job: JobView,
    environment: Environment,
    held: bool,
    outcome: Result<Exit, String>,
    captured: Result<Option<Seq<u8>>, Seq<char>>,
)
    ensures
        !(first_action(true, job, environment) is Load),
        !(after_grab(true, held, outcome) is Load),
        !(after_release(true, captured) is Load),
{
}

/// What is sent to be translated is the text that was read, and what comes back
/// is reported with it.
pub proof fn law_the_source_is_reported_as_it_was_sent(
    job: JobView,
    environment: Environment,
    source: Seq<char>,
    reply: ReplyView,
)
    ensures
        with_source(job, environment, source) matches ActionView::Ask {
            source: sent,
            backend,
            request,
        } ==> {
            &&& sent == source
            &&& request == backend.asked(source, job.from, job.to)
            &&& (after_reply(job, sent, backend, reply) matches ActionView::Done(
                Ok(Some(ProductView::Text(outcome))),
            ) ==> outcome.source == source && outcome.to == job.to)
        },
{
}

/// Every verb gets its text from its own place: what is highlighted from the primary
/// selection, what was copied from the clipboard and never from the primary
/// selection, a text from itself, an image from itself, a given region from that
/// region, and a region to be dragged from a drag.
pub proof fn law_every_verb_reads_from_its_own_place(
    loaded: bool,
    job: JobView,
    environment: Environment,
)
    ensures
        match job.verb {
            VerbView::Selection => first_action(loaded, job, environment) matches ActionView::Paste(
                command,
            ) && command.program == "wl-paste"@ && command.args.contains("--primary"@),
            VerbView::Clipboard => first_action(loaded, job, environment) matches ActionView::Paste(
                command,
            ) && command.program == "wl-paste"@ && !command.args.contains("--primary"@),
            VerbView::Text(text) => match first_action(loaded, job, environment) {
                ActionView::Ask { source, .. } => source == text,
                ActionView::Done(Ok(Some(ProductView::Text(outcome)))) => outcome.source == text
                    && outcome.translation == text,
                ActionView::Done(Err(_)) => true,
                _ => false,
            },
            VerbView::OcrImage { png, .. } => match first_action(loaded, job, environment) {
                ActionView::Load { image } => image == png && !loaded,
                ActionView::Recognise { image } => image == png && loaded,
                _ => false,
            },
            VerbView::Ocr { geometry: Some(given) } => match first_action(
                loaded,
                job,
                environment,
            ) {
                ActionView::Grab { held, command } => {
                    &&& !held
                    &&& command.program == "grim"@
                    &&& command.args.contains(text::trimmed(given))
                },
                ActionView::Done(Err(_)) => capture::region_from(given) is Err,
                _ => false,
            },
            VerbView::Ocr { geometry: None } | VerbView::OcrRaw => match first_action(
                loaded,
                job,
                environment,
            ) {
                ActionView::Freeze(command) => job.freeze && command.program == "hyprpicker"@,
                ActionView::Select { held, command } => !job.freeze && !held && command.program
                    == "slurp"@,
                _ => false,
            },
            VerbView::Shot(mode) => first_action(loaded, job, environment) == ActionView::Capture(
                mode,
            ),
            VerbView::Show => first_action(loaded, job, environment) == ActionView::Done(Ok(None)),
        },
{
    clip::law_the_two_selections_are_read_apart();
    if let VerbView::Ocr { geometry: Some(given) } = job.verb {
        if let Ok(region) = capture::region_from(given) {
            assert(capture::grabbing(region).args[3] == region);
        }
    }
}

/// Two jobs that start with the same command ask for the same thing: the clipboard
/// and the primary selection are never mistaken for each other.
pub proof fn law_the_clipboard_is_not_the_selection(
    loaded: bool,
    one: JobView,
    other: JobView,
    environment: Environment,
)
    requires
        one.verb is Clipboard,
        other.verb is Selection,
    ensures
        first_action(loaded, one, environment) != first_action(loaded, other, environment),
{
    law_every_verb_reads_from_its_own_place(loaded, one, environment);
    law_every_verb_reads_from_its_own_place(loaded, other, environment);
}

/// What was read is what goes on: the text that was pasted without white space
/// around it, the text that was recognised with its lines rejoined, each to be
/// translated or, where that is wanted, handed back.
pub proof fn law_what_was_read_goes_on(
    job: JobView,
    environment: Environment,
    exit: Exit,
    read: String,
)
    ensures
        exit.success ==> goes_on_with(
            job,
            after_paste(job, environment, Ok(exit)),
            text::trimmed(command::lossy_text(exit.stdout@)),
        ),
        goes_on_with(
            job,
            after_reading(job, environment, Reading::Text(read)),
            ocr::normalized(read@),
        ),
{
}

/// A job goes on with a text: a missing text fails it, a text wanted as it is ends
/// it, and any other is asked about, letter for letter, with the job's languages.
pub open spec fn goes_on_with(job: JobView, action: ActionView, source: Seq<char>) -> bool {
    match action {
        ActionView::Ask { source: asked, backend, request } => {
            &&& asked == source
            &&& source.len() > 0
            &&& !job.raw && !(job.verb is OcrRaw)
            &&& request == backend.asked(source, job.from, job.to)
        },
        ActionView::Done(Ok(Some(ProductView::Text(outcome)))) => {
            &&& outcome.source == source
            &&& outcome.translation == source
            &&& outcome.from == job.from
            &&& outcome.to == job.to
            &&& source.len() > 0
            &&& job.raw || job.verb is OcrRaw || job.verb is OcrImage
        },
        ActionView::Done(Err(_)) => source.len() == 0 || !(job.raw || job.verb is OcrRaw),
        _ => false,
    }
}

/// Only a job that asks for it goes without a translation: one whose flag says so,
/// one that reads a raw region, and one that reads an image raw.
pub proof fn law_only_raw_jobs_skip_the_translation(job: JobView)
    ensures
        job.is_raw() <==> job.raw || job.verb is OcrRaw || (job.verb matches VerbView::OcrImage {
            raw,
            ..
        } && raw),
{
}

/// A job with a text either fails for want of an engine or asks the engine it names,
/// unless it is raw.
pub proof fn law_a_text_is_put_to_the_engine_named(
    job: JobView,
    environment: Environment,
    source: Seq<char>,
)
    requires
        source.len() > 0,
        !job.raw,
        job.verb is Selection || job.verb is Clipboard || job.verb is Text || job.verb is Ocr,
    ensures
        job.engine == "google"@ ==> (with_source(job, environment, source) matches ActionView::Ask {
            backend,
            ..
        } && backend == BackendView::Google),
        job.engine == "ai"@ && environment.key is Ok && environment.model is Ok ==> (with_source(
            job,
            environment,
            source,
        ) matches ActionView::Ask { backend, .. } && backend is Ai),
        job.engine != "google"@ && job.engine != "ai"@ ==> (with_source(job, environment, source)
            matches ActionView::Done(Err(_))),
{
    translate::law_an_engine_is_the_one_named(job.engine, environment);
    reveal_strlit("google");
    reveal_strlit("ai");
    assert("google"@.len() != "ai"@.len());
}

/// What the backend translated is what is reported, with the language it detected,
/// or the job's where it detected none; a reply that is a failure fails the job with
/// what it says.
pub proof fn law_the_translation_is_reported_as_it_came(
    job: JobView,
    source: Seq<char>,
    backend: BackendView,
    reply: ReplyView,
)
    ensures
        match backend.heard(reply) {
            Ok(translation) => after_reply(job, source, backend, reply) matches ActionView::Done(
                Ok(Some(ProductView::Text(outcome))),
            ) && {
                &&& outcome.source == source
                &&& outcome.translation == translation.text
                &&& outcome.to == job.to
                &&& (translation.detected matches Some(detected) ==> outcome.from == detected)
                &&& translation.detected is None ==> outcome.from == job.from
            },
            Err(message) => after_reply(job, source, backend, reply) == ActionView::Done(
                Err(message),
            ),
        },
{
}

/// The image that is read is the one that was grabbed, byte for byte; a cancelled
/// drag ends the job without a failure, and a failed grab fails it.
pub proof fn law_the_grabbed_image_is_the_one_read(
    loaded: bool,
    exit: Exit,
    image: Seq<u8>,
    message: Seq<char>,
)
    ensures
        exit.success && exit.stdout@.len() > 0 ==> match after_grab(loaded, false, Ok(exit)) {
            ActionView::Load { image } => !loaded && image == exit.stdout@,
            ActionView::Recognise { image } => loaded && image == exit.stdout@,
            _ => false,
        },
        !exit.success || exit.stdout@.len() == 0 ==> (after_grab(loaded, false, Ok(exit))
            matches ActionView::Done(Err(_))),
        match after_release(loaded, Ok(Some(image))) {
            ActionView::Load { image: read } => !loaded && read == image,
            ActionView::Recognise { image: read } => loaded && read == image,
            _ => false,
        },
        after_release(loaded, Ok(None)) == ActionView::Done(Ok(None)),
        after_release(loaded, Err(message)) == ActionView::Done(Err(message)),
        !exit.success ==> after_selection(loaded, false, Ok(exit)) == ActionView::Done(Ok(None)),
{
}

/// The models are kept for three minutes after they were last used.
pub proof fn law_the_models_are_kept_three_minutes(minutes: int)
    ensures
        minutes * 60 >= ENGINE_IDLE <==> minutes >= 3,
{
}

/// A recogniser that does not start names the languages it was to load, a package for
/// each, and says why at the end.
pub proof fn law_a_failed_start_names_what_is_missing(lang: Seq<char>, cause: Seq<char>)
    ensures
        text::ends_with(load_failure(lang, cause), cause),
        !lang.contains('+') ==> load_failure(lang, cause) == "tesseract init failed for '"@ + lang
            + "' - missing language data? install with: sudo pacman -S "@ + ("tesseract-data-"@
            + lang) + ": "@ + cause,
{
    let message = "tesseract init failed for '"@ + lang
        + "' - missing language data? install with: sudo pacman -S "@ + text::joined(
        ocr::packages(text::split(lang, '+')),
        " "@,
    );
    text::lemma_ends_with(message + ": "@, cause);
    if !lang.contains('+') {
        assert forall|j: int| 0 <= j < lang.len() implies lang[j] != '+' by {
            assert(lang.contains(lang[j]));
        }
        text::lemma_first_index_is(lang, '+', lang.len() as int);
        assert(text::split(lang, '+') =~= seq![lang]);
        assert(ocr::packages(seq![lang]) =~= seq!["tesseract-data-"@ + lang]);
    }
}

} // verus!
