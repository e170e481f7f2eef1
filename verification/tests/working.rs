use wl_translate::capture::Region;
use wl_translate::cli::{emit, notify, plan, summarize, Cli, Command, Plan};
use wl_translate::command::{Exit, Failure, Invocation};
use wl_translate::ipc::{
    call_of, retried, started, tried, verb_of, Call, Handoff, StartProblem, PATH, POLLS, SERVICE,
};
use wl_translate::ocr::Reading;
use wl_translate::overlay::{Capture, Done};
use wl_translate::pipeline::{Action, Job, Outcome, Product, Verb, Worker, ENGINE_IDLE};
use wl_translate::settings::Settings;
use wl_translate::shot::Mode;
use wl_translate::translate::{
    assemble, backend, take_answer, Backend, Environment, Google, GoogleReply, OpenAiCompatible,
    Reply, Request, Translator,
};
use wl_translate::ui::{
    choose_language, dispatch, edited, event_for, not_claimed, overlay_closed, rebuild_chips,
    status, swap_languages, Aftermath, Dispatch, Event, History, Side,
};

fn line(command: &Invocation) -> String {
    format!("{} {}", command.program, command.args.join(" "))
}

fn exited(success: bool, stdout: &[u8]) -> Result<Exit, String> {
    Ok(Exit { success, stdout: stdout.to_vec(), stderr: Vec::new() })
}

fn unset() -> Result<String, String> {
    Err("environment variable not found".to_owned())
}

fn nothing_set() -> Environment {
    Environment { key: unset(), url: unset(), model: unset() }
}

fn all_set() -> Environment {
    Environment {
        key: Ok("k".to_owned()),
        url: Ok("http://here/v1".to_owned()),
        model: Ok("m".to_owned()),
    }
}

fn outcome() -> Outcome {
    Outcome {
        source: "ciao".to_owned(),
        translation: "hello".to_owned(),
        from: "it".to_owned(),
        to: "en".to_owned(),
    }
}

#[test]
fn collapses_whitespace_and_clips() {
    assert_eq!(summarize("one   two\nthree", 40), "one two three");
    assert_eq!(summarize("abcdefghij", 4), "abcd...");
}

#[test]
fn clips_on_char_boundaries_not_bytes() {
    // Persian is multi-byte; slicing by byte index here would panic.
    assert_eq!(summarize("سلام حال شما چطور است", 4), "سلام...");
}

#[test]
fn a_summary_ends_without_white_space() {
    assert_eq!(summarize("abc def", 4), "abc...");
    assert_eq!(summarize("abcd", 4), "abcd");
    assert_eq!(summarize("a", 0), "...");
    assert_eq!(summarize(" \n ", 0), "");
}

#[test]
fn google_is_asked_with_a_query() {
    match Google.request("ciao", "auto", "en") {
        Request::Get { url, query, timeout } => {
            assert_eq!(url, "https://translate.googleapis.com/translate_a/single");
            assert_eq!(timeout, 15);
            let query: Vec<String> = query.iter().map(|(n, v)| format!("{n}={v}")).collect();
            assert_eq!(query, ["client=gtx", "sl=auto", "tl=en", "dt=t", "q=ciao"]);
        }
        other => panic!("{other:?}"),
    }
}

#[test]
fn googles_segments_are_put_together() {
    let body = br#"[[["Hello. ","Ciao. ",null],[null,"x"],["Bye",""],7],null,"it",0.9]"#;
    let translation = Google.translation(Reply::Body(body.to_vec())).unwrap();
    assert_eq!(translation.text, "Hello. Bye");
    assert_eq!(translation.detected.as_deref(), Some("it"));

    let silent = Google.translation(Reply::Body(b"[[]]".to_vec())).unwrap();
    assert_eq!(silent.text, "");
    assert_eq!(silent.detected, None);
}

#[test]
fn a_reply_google_never_gives_is_refused() {
    let why = |reply: Reply| Google.translation(reply).unwrap_err().message;

    assert_eq!(why(Reply::Body(b"{}".to_vec())), "unexpected response shape from google");
    assert_eq!(why(Reply::Body(b"[7]".to_vec())), "unexpected response shape from google");
    assert_eq!(
        why(Reply::Body(b"<html>".to_vec())),
        "google returned a body we could not parse: Failed to read JSON: expected value at line 1 column 1"
    );
    assert_eq!(
        why(Reply::Failed("timed out".to_owned())),
        "google translate request failed: timed out"
    );
    assert_eq!(
        why(Reply::Cut { cause: "reset".to_owned(), late: false }),
        "google returned a body we could not parse: Failed to read JSON: reset"
    );
    assert_eq!(
        why(Reply::Cut { cause: "timed out".to_owned(), late: true }),
        "google returned a body we could not parse: timed out"
    );
    let shapeless = GoogleReply { segments: None, detected: None };
    assert_eq!(assemble(shapeless).unwrap_err().message, "unexpected response shape from google");
}

#[test]
fn a_language_model_is_told_what_to_do() {
    let ai = OpenAiCompatible::from_env(&all_set()).unwrap();
    match ai.request("ciao", "auto", "fa") {
        Request::Post { url, authorization, chat, timeout } => {
            assert_eq!(url, "http://here/v1/chat/completions");
            assert_eq!(authorization, "Bearer k");
            assert_eq!(timeout, 30);
            assert_eq!(chat.model, "m");
            assert_eq!(chat.temperature, 0);
            assert_eq!(chat.user, "ciao");
            let told: Vec<&str> = chat.system.split(". ").collect();
            assert_eq!(told[0], "You are a translation engine");
            assert!(told[1].ends_with(" the source language to fa"));
            assert_eq!(told[2], "Preserve line breaks and formatting");
            assert!(chat.system.ends_with("with no preamble, notes, or quoting."));
        }
        other => panic!("{other:?}"),
    }
    match ai.request("ciao", "it", "fa") {
        Request::Post { chat, .. } => assert!(chat.system.contains(" it to fa. ")),
        other => panic!("{other:?}"),
    }
}

#[test]
fn a_language_models_answer_is_trimmed() {
    let ai = OpenAiCompatible::from_env(&all_set()).unwrap();
    let body = br#"{"choices":[{"message":{"content":"  hello\n"}}]}"#;
    let translation = ai.translation(Reply::Body(body.to_vec())).unwrap();
    assert_eq!(translation.text, "hello");
    assert_eq!(translation.detected, None);

    let why = |reply: Reply| ai.translation(reply).unwrap_err().message;
    assert_eq!(
        why(Reply::Body(br#"{"choices":[]}"#.to_vec())),
        "ai backend returned no message content"
    );
    assert_eq!(
        why(Reply::Body(b"".to_vec())),
        "ai backend returned a body we could not parse: Failed to read JSON: EOF while parsing a value at line 1 column 0"
    );
    assert_eq!(
        why(Reply::Cut { cause: "reset".to_owned(), late: false }),
        "ai backend returned a body we could not parse: Failed to read JSON: reset"
    );
    assert_eq!(
        why(Reply::Cut { cause: "timed out".to_owned(), late: true }),
        "ai backend returned a body we could not parse: timed out"
    );
    assert_eq!(why(Reply::Failed("refused".to_owned())), "ai translate request failed: refused");
    assert!(take_answer(None).is_err());
}

#[test]
fn a_language_model_is_configured_by_environment() {
    let without_url = Environment { url: unset(), ..all_set() };
    assert_eq!(
        OpenAiCompatible::from_env(&without_url).unwrap().base_url,
        "https://api.groq.com/openai/v1"
    );
    let why = |environment: Environment| {
        OpenAiCompatible::from_env(&environment).unwrap_err().message
    };
    assert_eq!(
        why(nothing_set()),
        "engine 'ai' needs WLT_AI_KEY (and optionally WLT_AI_URL / WLT_AI_MODEL): \
         environment variable not found"
    );
    assert_eq!(
        why(Environment { model: unset(), ..all_set() }),
        "engine 'ai' needs WLT_AI_MODEL, e.g. a Groq model id: environment variable not found"
    );
}

#[test]
fn a_backend_is_chosen_by_name() {
    assert!(matches!(backend("google", &nothing_set()), Ok(Backend::Google(_))));
    assert!(matches!(backend("ai", &all_set()), Ok(Backend::Ai(_))));
    assert!(backend("ai", &nothing_set()).is_err());
    assert_eq!(
        backend("bing", &all_set()).unwrap_err().message,
        "unknown engine 'bing' (expected 'google' or 'ai')"
    );
}

fn worker() -> Worker {
    Worker::new("eng+ita".to_owned(), None)
}

fn failed(action: Action) -> String {
    match action {
        Action::Done(Err(failure)) => failure.message,
        _ => panic!("it did not fail"),
    }
}

fn text(action: Action) -> Outcome {
    match action {
        Action::Done(Ok(Some(Product::Text(outcome)))) => outcome,
        _ => panic!("no text"),
    }
}

#[test]
fn a_new_job_detects_the_source_and_targets_english() {
    let job = Job::new(Verb::Selection);
    assert_eq!((job.from.as_str(), job.to.as_str(), job.engine.as_str()), ("auto", "en", "google"));
    assert!(!job.raw && job.freeze);
}

#[test]
fn only_raw_verbs_are_raw() {
    assert!(Verb::OcrRaw.is_raw());
    assert!(Verb::OcrImage { png: Vec::new(), raw: true }.is_raw());
    assert!(!Verb::OcrImage { png: Vec::new(), raw: false }.is_raw());
    assert!(!Verb::Ocr { geometry: None }.is_raw());
    assert!(!Verb::Text("x".to_owned()).is_raw());
}

#[test]
fn a_text_is_translated() {
    let worker = worker();
    let job = Job::new(Verb::Text("ciao".to_owned()));
    let (source, backend) = match worker.run(&job, &nothing_set()) {
        Action::Ask { source, backend, request } => {
            assert!(matches!(request, Request::Get { .. }));
            (source, backend)
        }
        _ => panic!("nothing was asked"),
    };
    let reply = Reply::Body(br#"[[["hello","ciao"]],null,"it"]"#.to_vec());
    let outcome = text(worker.replied(&job, source, &backend, reply));
    assert_eq!(outcome.source, "ciao");
    assert_eq!(outcome.translation, "hello");
    assert_eq!(outcome.from, "it");
    assert_eq!(outcome.to, "en");

    let silent = Reply::Body(br#"[[["hello","ciao"]]]"#.to_vec());
    let outcome = text(worker.replied(&job, "ciao".to_owned(), &backend, silent));
    assert_eq!(outcome.from, "auto");
    assert_eq!(
        failed(worker.replied(&job, "ciao".to_owned(), &backend, Reply::Failed("down".to_owned()))),
        "google translate request failed: down"
    );
}

#[test]
fn no_text_is_a_failure() {
    let worker = worker();
    let job = Job::new(Verb::Selection);
    match worker.run(&job, &nothing_set()) {
        Action::Paste(command) => assert_eq!(line(&command), "wl-paste --primary --no-newline"),
        _ => panic!("nothing was read"),
    }
    assert_eq!(failed(worker.pasted(&job, &nothing_set(), exited(false, b""))), "no text found");
    assert!(matches!(
        worker.pasted(&job, &nothing_set(), exited(true, b"ciao")),
        Action::Ask { .. }
    ));
}

#[test]
fn an_unknown_engine_is_reported_once_there_is_text() {
    let worker = worker();
    let mut job = Job::new(Verb::Clipboard);
    job.engine = "bing".to_owned();
    assert!(matches!(worker.run(&job, &nothing_set()), Action::Paste(_)));
    assert_eq!(failed(worker.pasted(&job, &nothing_set(), exited(true, b""))), "no text found");
    assert_eq!(
        failed(worker.pasted(&job, &nothing_set(), exited(true, b"x"))),
        "unknown engine 'bing' (expected 'google' or 'ai')"
    );
}

#[test]
fn a_raw_region_is_read_and_handed_back() {
    let mut worker = worker();
    let job = Job::new(Verb::OcrRaw);
    match worker.run(&job, &nothing_set()) {
        Action::Freeze(command) => assert_eq!(line(&command), "hyprpicker -r -z -d -q"),
        _ => panic!("no freeze"),
    }
    match worker.frozen(true) {
        Action::Select { held: true, command } => assert_eq!(line(&command), "slurp "),
        _ => panic!("no selection"),
    }
    match worker.selected(true, exited(true, b"1,2 3x4")) {
        Action::Grab { held: true, command } => {
            assert_eq!(line(&command), "grim -t ppm -g 1,2 3x4 -")
        }
        _ => panic!("no grab"),
    }
    let result = match worker.grabbed(true, exited(true, b"P6")) {
        Action::Release(result) => result,
        _ => panic!("still held"),
    };
    let image = match worker.released(result) {
        Action::Load { image } => image,
        _ => panic!("not loaded first"),
    };
    match worker.loaded(image, Ok(())) {
        Action::Recognise { image } => assert_eq!(image, b"P6"),
        _ => panic!("not recognised"),
    }
    let reading = Reading::Text("Il contratto\ndi".to_owned());
    let outcome = text(worker.recognized(&job, &nothing_set(), reading));
    assert_eq!(outcome.source, "Il contratto di");
    assert_eq!(outcome.translation, "Il contratto di");

    // Loaded once, then kept.
    assert!(matches!(worker.grabbed(false, exited(true, b"P6")), Action::Recognise { .. }));
    assert!(!worker.idle(ENGINE_IDLE - 1));
    assert!(worker.idle(ENGINE_IDLE));
    assert!(!worker.idle(ENGINE_IDLE));
    assert!(matches!(worker.grabbed(false, exited(true, b"P6")), Action::Load { .. }));
}

#[test]
fn a_given_region_skips_the_drag() {
    let worker = worker();
    let job = Job::new(Verb::Ocr { geometry: Some(" 1,2 3x4".to_owned()) });
    match worker.run(&job, &nothing_set()) {
        Action::Grab { held: false, command } => {
            assert_eq!(command.args[3], Region::parse("1,2 3x4").unwrap().as_str())
        }
        _ => panic!("no grab"),
    }
    let job = Job::new(Verb::Ocr { geometry: Some("here".to_owned()) });
    assert_eq!(
        failed(worker.run(&job, &nothing_set())),
        "expected geometry as 'X,Y WxH', got 'here'"
    );
}

#[test]
fn nothing_to_do_is_not_a_failure() {
    let worker = worker();
    assert!(matches!(
        worker.run(&Job::new(Verb::Show), &nothing_set()),
        Action::Done(Ok(None))
    ));
    assert!(matches!(worker.selected(false, exited(false, b"")), Action::Done(Ok(None))));
    assert!(matches!(worker.captured(Ok(None)), Action::Done(Ok(None))));
}

#[test]
fn a_recogniser_that_does_not_start_is_reported() {
    let mut worker = worker();
    let said = failed(worker.loaded(Vec::new(), Err("no data".to_owned())));
    assert!(said.starts_with("tesseract init failed for 'eng+ita'"));
    assert!(said.ends_with("tesseract-data-eng tesseract-data-ita: no data"));
    assert!(!worker.loaded);
    assert_eq!(
        failed(worker.recognized(
            &Job::new(Verb::OcrRaw),
            &nothing_set(),
            Reading::NoText("odd".to_owned())
        )),
        "tesseract returned no text: odd"
    );
}

#[test]
fn a_capture_is_handed_to_the_overlay() {
    let worker = worker();
    assert!(matches!(
        worker.run(&Job::new(Verb::Shot(Mode::Window)), &nothing_set()),
        Action::Capture(Mode::Window)
    ));
    let capture = Capture { png: vec![1], scale: 120, preset: None };
    match worker.captured(Ok(Some(capture))) {
        Action::Done(Ok(Some(Product::Shot(capture)))) => assert_eq!(capture.png, [1]),
        _ => panic!("no capture"),
    }
    assert_eq!(failed(worker.captured(Err(Failure::new("no")))), "no");
}

fn cli(command: Command) -> Cli {
    Cli {
        command,
        to: None,
        from: None,
        engine: None,
        copy: false,
        notify: false,
        no_daemon: false,
    }
}

fn work(cli: &Cli) -> (bool, Job, String) {
    match plan(cli, &Settings::default(), &Vec::new()) {
        Plan::Work { forward, job, langs } => (forward, job, langs),
        other => panic!("{other:?}"),
    }
}

#[test]
fn the_settings_decide_without_flags() {
    let (forward, job, langs) = work(&cli(Command::Selection));
    assert!(forward);
    assert!(matches!(job.verb, Verb::Selection));
    assert_eq!((job.from.as_str(), job.to.as_str()), ("auto", "en"));
    assert_eq!(langs, "eng+ita+fas");
}

#[test]
fn an_override_keeps_the_work_here() {
    let mut overridden = cli(Command::Text { words: vec!["ciao".to_owned(), "a te".to_owned()] });
    assert!(overridden.forwardable());
    overridden.to = Some("fa".to_owned());
    let (forward, job, _) = work(&overridden);
    assert!(!forward);
    assert_eq!(job.to, "fa");
    match job.verb {
        Verb::Text(text) => assert_eq!(text, "ciao a te"),
        other => panic!("{other:?}"),
    }

    let mut here = cli(Command::Clipboard);
    here.no_daemon = true;
    assert!(here.forwardable());
    assert!(!work(&here).0);
}

#[test]
fn a_region_on_the_command_line_keeps_the_work_here() {
    let (forward, job, langs) = work(&cli(Command::Ocr {
        langs: Some("fas".to_owned()),
        raw: true,
        geometry: Some("1,2 3x4".to_owned()),
    }));
    assert!(!forward && job.raw);
    assert_eq!(langs, "fas");
    assert!(matches!(job.verb, Verb::Ocr { geometry: Some(_) }));

    let (forward, job, _) = work(&cli(Command::Ocr { langs: None, raw: true, geometry: None }));
    assert!(forward);
    assert!(matches!(job.verb, Verb::OcrRaw));
}

#[test]
fn the_daemon_is_a_plan_of_its_own() {
    match plan(
        &cli(Command::Daemon { langs: None }),
        &Settings::default(),
        &Vec::new(),
    ) {
        Plan::Daemon { langs } => assert_eq!(langs, "eng+ita+fas"),
        other => panic!("{other:?}"),
    }
    assert!(matches!(work(&cli(Command::Show)).1.verb, Verb::Show));
    assert!(matches!(
        work(&cli(Command::Shot { mode: Mode::Screen })).1.verb,
        Verb::Shot(Mode::Screen)
    ));
}

#[test]
fn only_the_translation_goes_to_standard_output() {
    let mut asked = cli(Command::Selection);
    asked.copy = true;
    asked.notify = true;
    let report = emit(&outcome(), &asked);
    assert_eq!(report.translation, "hello");
    assert_eq!(
        report.source.as_deref(),
        Some("--- source (it) ---\nciao\n--- translation (en) ---")
    );
    assert_eq!(report.copy.as_deref(), Some("hello"));
    assert_eq!(
        line(&report.notify.unwrap()),
        "notify-send --app-name wl-translate --icon accessories-dictionary ciao hello"
    );
    assert_eq!(notify(&outcome()).args.len(), 6);

    let mut quiet = cli(Command::Selection);
    quiet.no_daemon = true;
    let report = emit(&Outcome::default(), &quiet);
    assert!(report.source.is_none() && report.copy.is_none() && report.notify.is_none());
}

#[test]
fn a_verb_survives_the_bus() {
    for verb in [
        Verb::Ocr { geometry: None },
        Verb::OcrRaw,
        Verb::Selection,
        Verb::Clipboard,
        Verb::Text("ciao".to_owned()),
        Verb::Shot(Mode::Window),
        Verb::Show,
    ] {
        let call = call_of(&verb).unwrap();
        assert_eq!(format!("{:?}", verb_of(call).unwrap()), format!("{verb:?}"));
    }
    assert!(call_of(&Verb::OcrImage { png: Vec::new(), raw: true }).is_none());
    assert!(matches!(
        call_of(&Verb::Ocr { geometry: Some("1,2 3x4".to_owned()) }),
        Some(Call::Ocr)
    ));
    assert_eq!(
        verb_of(Call::Shot("all".to_owned())).unwrap_err().message,
        "unknown mode 'all' (expected region, window or screen)"
    );
    assert_eq!(SERVICE, "org.wl_translate.Daemon");
    assert_eq!(PATH, "/org/wl_translate/Daemon");
}

#[test]
fn a_missing_daemon_is_started_and_waited_for() {
    assert!(matches!(tried(Ok(true)), Handoff::Finished(true)));
    assert!(matches!(tried(Ok(false)), Handoff::Start));
    assert!(matches!(tried(Err(Failure::new("x"))), Handoff::Failed(_)));

    let mut next = started(Ok(()));
    let mut tries = 0;
    while let Handoff::Wait { left } = next {
        tries += 1;
        next = retried(left, Ok(false));
    }
    assert_eq!(tries, POLLS);
    assert!(matches!(next, Handoff::Finished(false)));
    assert!(matches!(retried(3, Ok(true)), Handoff::Finished(true)));
    assert!(matches!(retried(3, Err(Failure::new("x"))), Handoff::Failed(_)));

    match started(Err(StartProblem::NoProgram("gone".to_owned()))) {
        Handoff::Failed(failure) => {
            assert_eq!(failure.message, "could not find our own executable: gone")
        }
        other => panic!("{other:?}"),
    }
    match started(Err(StartProblem::NotRun("denied".to_owned()))) {
        Handoff::Failed(failure) => {
            assert_eq!(failure.message, "could not start the daemon: denied")
        }
        other => panic!("{other:?}"),
    }
}

#[test]
fn a_verb_is_carried_out_with_the_languages_that_are_set() {
    let mut settings = Settings::default();
    settings.source = "it".to_owned();
    settings.target = "auto".to_owned();
    settings.freeze = false;
    let locale = vec![None, None, Some("fa_IR.UTF-8".to_owned())];

    assert!(matches!(dispatch(&settings, &locale, Verb::Show), Dispatch::Present));
    match dispatch(&settings, &locale, Verb::Selection) {
        Dispatch::Work(job) => {
            assert_eq!((job.from.as_str(), job.to.as_str()), ("it", "fa"));
            assert!(!job.freeze);
        }
        other => panic!("{other:?}"),
    }
}

#[test]
fn the_window_hears_of_results_and_failures() {
    let product = || Ok(Some(Product::Text(outcome())));
    let image = |raw: bool| Verb::OcrImage { png: Vec::new(), raw };

    assert!(matches!(
        event_for(&image(true), product()),
        Some(Event::Finished { copy: true, .. })
    ));
    assert!(matches!(
        event_for(&image(false), product()),
        Some(Event::Finished { copy: false, .. })
    ));
    assert!(matches!(
        event_for(&Verb::OcrRaw, product()),
        Some(Event::Finished { copy: false, .. })
    ));
    assert!(event_for(&Verb::Show, Ok(None)).is_none());
    match event_for(&Verb::Show, Err(Failure::new("no text found"))) {
        Some(Event::Failed(message)) => assert_eq!(message, "no text found"),
        _ => panic!("no failure"),
    }
    let capture = Capture { png: vec![1], scale: 120, preset: None };
    assert!(matches!(
        event_for(&Verb::Shot(Mode::Region), Ok(Some(Product::Shot(capture)))),
        Some(Event::Captured(_))
    ));
    assert_eq!(not_claimed("taken"), "could not claim org.wl_translate.Daemon: taken");
    assert_eq!(status(&outcome()), "it \u{2192} en");
}

#[test]
fn what_the_overlay_kept_may_still_be_read() {
    assert!(matches!(overlay_closed(Done::Cancelled), Aftermath::Nothing));
    match overlay_closed(Done::Handled("copied".to_owned())) {
        Aftermath::Mention(message) => assert_eq!(message, "copied"),
        _ => panic!("nothing mentioned"),
    }
    assert!(matches!(
        overlay_closed(Done::Recognise { png: vec![1], raw: true }),
        Aftermath::Carry(Verb::OcrImage { raw: true, .. })
    ));
}

#[test]
fn the_chosen_chip_is_marked_and_the_source_translated_again() {
    let mut settings = Settings::default();
    match choose_language(&mut settings, Side::Source, "fa", "ciao ") {
        Some(Verb::Text(text)) => assert_eq!(text, "ciao "),
        other => panic!("{other:?}"),
    }
    let chips: Vec<(String, bool)> = rebuild_chips(&settings, Side::Source)
        .into_iter()
        .map(|chip| (chip.lang, chip.active))
        .collect();
    assert_eq!(
        chips,
        [
            ("auto".to_owned(), false),
            ("fa".to_owned(), true),
            ("it".to_owned(), false),
            ("en".to_owned(), false)
        ]
    );
    assert!(rebuild_chips(&settings, Side::Target)[1].active);
    assert!(choose_language(&mut settings, Side::Target, "auto", " \n").is_none());
    assert!(rebuild_chips(&settings, Side::Target)[0].active);
    assert!(swap_languages(&mut settings, "x").is_some());
    assert_eq!((settings.source.as_str(), settings.target.as_str()), ("auto", "fa"));
    assert!(edited("").is_none());
}

#[test]
fn the_latest_translation_is_recalled_first() {
    let mut history = History::new();
    assert!(history.recall(0).is_none());
    history.record(&outcome());
    history.record(&Outcome { source: "due".to_owned(), ..outcome() });
    assert_eq!(history.recall(0).unwrap().source, "due");
    assert_eq!(history.recall(1).unwrap().source, "ciao");
    assert!(history.recall(2).is_none());
}
