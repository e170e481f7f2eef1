//! The command line: what it asks for, where that is carried out, and what is
//! reported at the end.
//!
//! The compositor owns the keybinding, not this program: every action is a verb
//! you bind. Each verb is handed to the daemon; what only this process can
//! honour runs here instead.
use crate::command::{Invocation, InvocationView};
use crate::pipeline::{Job, JobView, Outcome, OutcomeView, Verb, VerbView};
use crate::settings;
use crate::settings::{Settings, SettingsView};
use crate::shot::Mode;
use crate::text;
use crate::text::{chars_of, join, split_words, text_of, trim_end};
use crate::translate;
use crate::ui;
use vstd::prelude::*;

verus! {

/// A subcommand.
#[derive(Debug)]
pub enum Command {
    /// Select a screen region, read the text in it, translate it.
    Ocr {
        /// Tesseract languages to load, "+"-joined.
        langs: Option<String>,
        /// Extract the text but skip translation.
        raw: bool,
        /// Use this region instead of dragging one, as "X,Y WxH".
        geometry: Option<String>,
    },
    /// Translate the current mouse selection.
    Selection,
    /// Translate the current clipboard contents.
    Clipboard,
    /// Translate text given as arguments.
    Text { words: Vec<String> },
    /// Raise the window as it is.
    Show,
    /// Take a screenshot.
    Shot { mode: Mode },
    /// Run resident: keeps the recogniser loaded and shows results in a window.
    Daemon {
        /// Tesseract languages to keep loaded.
        langs: Option<String>,
    },
}

pub enum CommandView {
    Ocr { langs: Option<Seq<char>>, raw: bool, geometry: Option<Seq<char>> },
    Selection,
    Clipboard,
    Text { words: Seq<Seq<char>> },
    Show,
    Shot { mode: Mode },
    Daemon { langs: Option<Seq<char>> },
}

impl View for Command {
    type V = CommandView;

    open spec fn view(&self) -> CommandView {
        match self {
            Command::Ocr { langs, raw, geometry } => CommandView::Ocr {
                langs: translate::some_text(*langs),
                raw: *raw,
                geometry: translate::some_text(*geometry),
            },
            Command::Selection => CommandView::Selection,
            Command::Clipboard => CommandView::Clipboard,
            Command::Text { words } => CommandView::Text { words: text::texts(words@) },
            Command::Show => CommandView::Show,
            Command::Shot { mode } => CommandView::Shot { mode: *mode },
            Command::Daemon { langs } => CommandView::Daemon {
                langs: translate::some_text(*langs),
            },
        }
    }
}

/// The command line. Without `to`, `from` or `engine` the settings decide.
#[derive(Debug)]
pub struct Cli {
    pub command: Command,
    /// Target language (ISO code, e.g. en, it, fa).
    pub to: Option<String>,
    /// Source language, or "auto" to detect.
    pub from: Option<String>,
    /// Translation backend.
    pub engine: Option<String>,
    /// Put the result on the clipboard as well.
    pub copy: bool,
    /// Show the result as a desktop notification.
    pub notify: bool,
    /// Do the work in this process even if the daemon is running.
    pub no_daemon: bool,
}

pub struct CliView {
    pub command: CommandView,
    pub to: Option<Seq<char>>,
    pub from: Option<Seq<char>>,
    pub engine: Option<Seq<char>>,
    pub copy: bool,
    pub notify: bool,
    pub no_daemon: bool,
}

impl View for Cli {
    type V = CliView;

    open spec fn view(&self) -> CliView {
        CliView {
            command: self.command@,
            to: translate::some_text(self.to),
            from: translate::some_text(self.from),
            engine: translate::some_text(self.engine),
            copy: self.copy,
            notify: self.notify,
            no_daemon: self.no_daemon,
        }
    }
}

/// What is given, or what stands in for it.
pub open spec fn given_or(given: Option<Seq<char>>, missing: Seq<char>) -> Seq<char> {
    match given {
        Some(value) => value,
        None => missing,
    }
}

fn or_else(given: &Option<String>, missing: &str) -> (value: String)
    ensures
        value@ == given_or(translate::some_text(*given), missing@),
{
    match given {
        Some(value) => value.as_str().to_owned(),
        None => missing.to_owned(),
    }
}

impl CliView {
    /// What a subcommand asks the pipeline for.
    pub open spec fn verb(self) -> VerbView {
        match self.command {
            CommandView::Ocr { raw, geometry, .. } => if raw && geometry is None {
                VerbView::OcrRaw
            } else {
                VerbView::Ocr { geometry }
            },
            CommandView::Selection => VerbView::Selection,
            CommandView::Clipboard => VerbView::Clipboard,
            CommandView::Text { words } => VerbView::Text(text::joined(words, " "@)),
            CommandView::Show => VerbView::Show,
            CommandView::Shot { mode } => VerbView::Shot(mode),
            CommandView::Daemon { .. } => VerbView::Selection,
        }
    }

    /// The languages to recognise.
    pub open spec fn langs(self, settings: SettingsView) -> Seq<char> {
        match self.command {
            CommandView::Ocr { langs, .. } => given_or(langs, settings.langs),
            CommandView::Daemon { langs } => given_or(langs, settings.langs),
            _ => settings.langs,
        }
    }

    /// Whether the text is wanted without a translation.
    pub open spec fn raw(self) -> bool {
        match self.command {
            CommandView::Ocr { raw, .. } => raw,
            _ => false,
        }
    }

    /// Whether the daemon can honour this invocation faithfully. Its methods carry
    /// neither languages nor an engine nor a region.
    pub open spec fn can_forward(self) -> bool {
        &&& self.to is None
        &&& self.from is None
        &&& self.engine is None
        &&& !(self.command matches CommandView::Ocr { geometry: Some(_), .. })
    }

    /// The job to carry out in this process.
    pub open spec fn job(self, settings: SettingsView, locale: Seq<Option<Seq<char>>>) -> JobView {
        JobView {
            verb: self.verb(),
            from: given_or(self.from, settings.source),
            to: given_or(self.to, settings.target_sent(locale)),
            engine: given_or(self.engine, settings.engine),
            freeze: settings.freeze,
            raw: self.raw(),
        }
    }
}

impl Cli {
    /// Split the subcommand into the parts the pipeline needs: the verb, the
    /// languages to recognise, and whether translation is skipped.
    pub fn job_parts(&self, settings: &Settings) -> (parts: (Verb, String, bool))
        ensures
            parts.0@ == self@.verb(),
            parts.1@ == self@.langs(settings@),
            parts.2 == self@.raw(),
    {
        let langs = settings.langs.as_str();
        match &self.command {
            Command::Ocr { langs: chosen, raw, geometry } => {
                let verb = match geometry {
                    Some(region) => Verb::Ocr { geometry: Some(region.as_str().to_owned()) },
                    None => if *raw {
                        Verb::OcrRaw
                    } else {
                        Verb::Ocr { geometry: None }
                    },
                };
                (verb, or_else(chosen, langs), *raw)
            },
            Command::Selection => (Verb::Selection, langs.to_owned(), false),
            Command::Clipboard => (Verb::Clipboard, langs.to_owned(), false),
            Command::Text { words } => (Verb::Text(join(words, " ")), langs.to_owned(), false),
            Command::Show => (Verb::Show, langs.to_owned(), false),
            Command::Shot { mode } => (Verb::Shot(*mode), langs.to_owned(), false),
            Command::Daemon { langs: chosen } => (Verb::Selection, or_else(chosen, langs), false),
        }
    }

    /// Whether the daemon can honour this invocation faithfully.
    pub fn forwardable(&self) -> (result: bool)
        ensures
            result == self@.can_forward(),
    {
        let explicit_region = match &self.command {
            Command::Ocr { geometry, .. } => geometry.is_some(),
            _ => false,
        };
        self.to.is_none() && self.from.is_none() && self.engine.is_none() && !explicit_region
    }
}

/// What to do with a command line.
#[derive(Debug)]
pub enum Plan {
    /// Run the daemon, recognising these languages.
    Daemon { langs: String },
    /// Carry out a job. With `forward` it is handed to the daemon first, and only
    /// carried out here when there is none to take it.
    Work { forward: bool, job: Job, langs: String },
}

/// What to do with a command line, given the settings and what `LC_ALL`,
/// `LC_MESSAGES` and `LANG` say.
pub fn plan(cli: &Cli, settings: &Settings, locale: &Vec<Option<String>>) -> (plan: Plan)
    ensures
        match plan {
            Plan::Daemon { langs } => {
                &&& cli@.command is Daemon
                &&& langs@ == cli@.langs(settings@)
            },
            Plan::Work { forward, job, langs } => {
                &&& !(cli@.command is Daemon)
                &&& forward == (!cli@.no_daemon && cli@.can_forward())
                &&& job@ == cli@.job(settings@, settings::values(locale@))
                &&& langs@ == cli@.langs(settings@)
            },
        },
{
    let (verb, langs, raw) = cli.job_parts(settings);
    if let Command::Daemon { .. } = &cli.command {
        return Plan::Daemon { langs };
    }
    let target = settings.effective_target(locale);
    let job = Job {
        verb,
        from: or_else(&cli.from, settings.source.as_str()),
        to: or_else(&cli.to, target.as_str()),
        engine: or_else(&cli.engine, settings.engine.as_str()),
        freeze: settings.freeze,
        raw,
    };
    Plan::Work { forward: !cli.no_daemon && cli.forwardable(), job, langs }
}

/// A text on one line, clipped after `max` characters.
pub open spec fn summary(text: Seq<char>, max: int) -> Seq<char> {
    let line = text::joined(text::words(text), " "@);
    if line.len() > max {
        text::trimmed_end(line.take(max)) + "..."@
    } else {
        line
    }
}

/// Summary line for the notification title: the source text, collapsed to one
/// line and clipped, so a paragraph does not produce a wall of a notification.
pub fn summarize(text: &str, max: usize) -> (result: String)
    ensures
        result@ == summary(text@, max as int),
{
    let words = split_words(text);
    let line = join(&words, " ");
    let chars = chars_of(line.as_str());
    if chars.len() <= max {
        return line;
    }
    let head = text_of(&chars, 0, max);
    proof {
        assert(chars@.subrange(0, max as int) =~= line@.take(max as int));
    }
    let mut result = trim_end(head.as_str());
    result.append("...");
    result
}

/// Showing a result as a notification: the text it came from as the title, and
/// the translation below.
pub open spec fn notifying(outcome: OutcomeView) -> InvocationView {
    InvocationView {
        program: "notify-send"@,
        args: seq![
            "--app-name"@,
            "wl-translate"@,
            "--icon"@,
            "accessories-dictionary"@,
            summary(outcome.source, 60),
            outcome.translation,
        ],
    }
}

/// Show a result as a notification.
pub fn notify(outcome: &Outcome) -> (command: Invocation)
    ensures
        command@ == notifying(outcome@),
{
    let title = summarize(outcome.source.as_str(), 60);
    let command = Invocation::new("notify-send").with("--app-name").with("wl-translate").with(
        "--icon",
    ).with("accessories-dictionary").with(title.as_str()).with(outcome.translation.as_str());
    proof {
        assert(command@ =~= notifying(outcome@));
    }
    command
}

/// What is reported of a result.
#[derive(Debug)]
pub struct Report {
    /// The source, for standard error.
    pub source: Option<String>,
    /// The translation, for standard output.
    pub translation: String,
    /// Put this on the clipboard.
    pub copy: Option<String>,
    /// Run this to show a notification.
    pub notify: Option<Invocation>,
}

/// What goes to standard error: the source text between headings.
pub open spec fn heading(outcome: OutcomeView) -> Seq<char> {
    "--- source ("@ + outcome.from + ") ---\n"@ + outcome.source + "\n--- translation ("@
        + outcome.to + ") ---"@
}

/// Report the result, and copy it or notify of it if that was asked for. The
/// source text goes to standard error so that a pipe gets only the translation.
pub fn emit(outcome: &Outcome, cli: &Cli) -> (report: Report)
    ensures
        report.source is Some <==> !cli@.no_daemon || outcome@.source.len() > 0,
        report.source matches Some(text) ==> text@ == heading(outcome@),
        report.translation@ == outcome@.translation,
        report.copy is Some <==> cli@.copy,
        report.copy matches Some(text) ==> text@ == outcome@.translation,
        report.notify is Some <==> cli@.notify,
        report.notify matches Some(command) ==> command@ == notifying(outcome@),
{
    let source = if !cli.no_daemon || !outcome.source.as_str().is_empty() {
        let mut whole = "--- source (".to_owned();
        whole.append(outcome.from.as_str());
        whole.append(") ---\n");
        whole.append(outcome.source.as_str());
        whole.append("\n--- translation (");
        whole.append(outcome.to.as_str());
        whole.append(") ---");
        Some(whole)
    } else {
        None
    };
    let copy = if cli.copy {
        Some(outcome.translation.as_str().to_owned())
    } else {
        None
    };
    let notify = if cli.notify {
        Some(self::notify(outcome))
    } else {
        None
    };
    Report { source, translation: outcome.translation.as_str().to_owned(), copy, notify }
}

/// A text without any white space in it.
pub open spec fn solid(s: Seq<char>) -> bool {
    forall|j: int| 0 <= j < s.len() ==> !text::space(#[trigger] s[j])
}

proof fn lemma_words_are_solid(s: Seq<char>)
    ensures
        forall|i: int| 0 <= i < text::words(s).len() ==> solid(#[trigger] text::words(s)[i]),
    decreases s.len(),
{
    if s.len() > 0 {
        if text::space(s[0]) {
            lemma_words_are_solid(s.drop_first());
            assert(text::words(s) == text::words(s.drop_first()));
        } else {
            let n = text::word_length(s);
            text::lemma_word_length(s);
            let rest = s.skip(n);
            lemma_words_are_solid(rest);
            let all = text::words(s);
            assert(all == seq![s.take(n)] + text::words(rest));
            assert forall|i: int| 0 <= i < all.len() implies solid(#[trigger] all[i]) by {
                if i == 0 {
                    assert(all[0] == s.take(n));
                    assert forall|j: int| 0 <= j < n implies !text::space(#[trigger] s.take(n)[j]) by {
                        assert(s.take(n)[j] == s[j]);
                    }
                } else {
                    assert(all[i] == text::words(rest)[i - 1]);
                }
            }
        }
    } else {
        assert(text::words(s) == Seq::<Seq<char>>::empty());
    }
}

proof fn lemma_joined_holds_no_break(parts: Seq<Seq<char>>)
    requires
        forall|i: int| 0 <= i < parts.len() ==> solid(#[trigger] parts[i]),
    ensures
        !text::joined(parts, " "@).contains('\n'),
    decreases parts.len(),
{
    reveal_strlit(" ");
    let whole = text::joined(parts, " "@);
    if parts.len() == 1 {
        assert(solid(parts[0]));
    } else if parts.len() > 1 {
        let before = parts.drop_last();
        assert forall|i: int| 0 <= i < before.len() implies solid(#[trigger] before[i]) by {
            assert(before[i] == parts[i]);
        }
        lemma_joined_holds_no_break(before);
        let head = text::joined(before, " "@);
        let last = parts[parts.len() - 1];
        assert(solid(last));
        assert forall|j: int| 0 <= j < whole.len() implies whole[j] != '\n' by {
            if j < head.len() {
                assert(whole[j] == head[j]);
            } else if j > head.len() {
                assert(whole[j] == last[j - head.len() - 1]);
            }
        }
    }
}

/// A summary is on one line and at most three characters, the dots, longer than
/// the limit.
pub proof fn law_a_summary_is_short_and_on_one_line(text: Seq<char>, max: int)
    requires
        max >= 0,
    ensures
        summary(text, max).len() <= max + 3,
        !summary(text, max).contains('\n'),
{
    let parts = text::words(text);
    let line = text::joined(parts, " "@);
    lemma_words_are_solid(text);
    lemma_joined_holds_no_break(parts);
    reveal_strlit("...");
    if line.len() > max {
        let head = line.take(max);
        let cut = text::trimmed_end(head);
        text::lemma_trimmed_end_ends(head);
        let whole = cut + "..."@;
        assert forall|j: int| 0 <= j < whole.len() implies whole[j] != '\n' by {
            if j < cut.len() {
                assert(whole[j] == cut[j]);
                assert(cut[j] == line[j]);
            }
        }
    }
}

/// Without overrides the settings decide, and with a region or an override the
/// work stays here.
pub proof fn law_overrides_are_honoured_here(
    cli: CliView,
    settings: SettingsView,
    locale: Seq<Option<Seq<char>>>,
)
    ensures
        cli.to matches Some(to) ==> !cli.can_forward() && cli.job(settings, locale).to == to,
        cli.from matches Some(from) ==> !cli.can_forward() && cli.job(settings, locale).from == from,
        cli.engine matches Some(engine) ==> !cli.can_forward() && cli.job(settings, locale).engine
            == engine,
        cli.can_forward() ==> {
            &&& cli.job(settings, locale).from == settings.source
            &&& cli.job(settings, locale).to == settings.target_sent(locale)
            &&& cli.job(settings, locale).engine == settings.engine
        },
{
}

/// Every command asks for its own verb, with what it was given: the words of a text
/// with a space between, the region given, the mode of the screenshot.
pub proof fn law_every_command_asks_for_its_own_verb(cli: CliView)
    ensures
        cli.command is Selection ==> cli.verb() == VerbView::Selection,
        cli.command is Clipboard ==> cli.verb() == VerbView::Clipboard,
        cli.command is Show ==> cli.verb() == VerbView::Show,
        cli.command matches CommandView::Shot { mode } ==> cli.verb() == VerbView::Shot(mode),
        cli.command matches CommandView::Text { words } ==> cli.verb() == VerbView::Text(
            text::joined(words, " "@),
        ),
        cli.command matches CommandView::Ocr { raw, geometry, .. } ==> {
            &&& geometry is Some || !raw ==> cli.verb() == (VerbView::Ocr { geometry })
            &&& geometry is None && raw ==> cli.verb() == VerbView::OcrRaw
            &&& cli.raw() == raw
        },
        !(cli.command is Ocr) ==> !cli.raw(),
{
}

/// The languages to recognise are those given with the command that reads a picture
/// or keeps the recogniser, and else those of the settings.
pub proof fn law_the_languages_given_are_those_recognised(cli: CliView, settings: SettingsView)
    ensures
        cli.command matches CommandView::Ocr { langs: Some(langs), .. } ==> cli.langs(settings)
            == langs,
        cli.command matches CommandView::Daemon { langs: Some(langs) } ==> cli.langs(settings)
            == langs,
        !(cli.command matches CommandView::Ocr { langs: Some(_), .. })
            && !(cli.command matches CommandView::Daemon { langs: Some(_) }) ==> cli.langs(settings)
            == settings.langs,
{
}

/// A job is handed on exactly when nothing was given that the daemon could not know:
/// no language, no engine, no region.
pub proof fn law_only_plain_jobs_are_handed_on(cli: CliView)
    ensures
        cli.can_forward() <==> cli.to is None && cli.from is None && cli.engine is None && !(
        cli.command is Ocr && cli.command->geometry is Some),
{
}

/// Without anything given, the job is the one that the window would make of the same
/// verb; each thing that is given changes its own part of it and no other.
pub proof fn law_what_is_given_changes_its_own_part(
    cli: CliView,
    settings: SettingsView,
    locale: Seq<Option<Seq<char>>>,
    given: Seq<char>,
)
    ensures
        ({
            let plain = CliView { to: None, from: None, engine: None, ..cli };
            let job = plain.job(settings, locale);
            &&& job == (JobView { raw: cli.raw(), ..ui::job_for(settings, locale, cli.verb()) })
            &&& CliView { to: Some(given), ..plain }.job(settings, locale) == (JobView {
                to: given,
                ..job
            })
            &&& CliView { from: Some(given), ..plain }.job(settings, locale) == (JobView {
                from: given,
                ..job
            })
            &&& CliView { engine: Some(given), ..plain }.job(settings, locale) == (JobView {
                engine: given,
                ..job
            })
        }),
{
}

/// A summary is the words of the text with a space between, when they fit, and else
/// as much of their beginning as fits, without a space at its end, and three dots.
pub proof fn law_a_summary_is_the_beginning_of_the_text(text: Seq<char>, max: int)
    requires
        max >= 0,
    ensures
        ({
            let line = text::joined(text::words(text), " "@);
            let short = summary(text, max);
            &&& line.len() <= max ==> short == line
            &&& line.len() > max ==> {
                let kept = short.len() - 3;
                &&& 0 <= kept <= max
                &&& short == line.take(kept) + seq!['.', '.', '.']
                &&& kept > 0 ==> !text::space(line[kept - 1])
                &&& forall|j: int| kept <= j < max ==> text::space(#[trigger] line[j])
            }
        }),
{
    let line = text::joined(text::words(text), " "@);
    reveal_strlit("...");
    assert("..."@ =~= seq!['.', '.', '.']);
    if line.len() > max {
        let head = line.take(max);
        let cut = text::trimmed_end(head);
        text::lemma_trimmed_end_ends(head);
        text::lemma_trimmed_end_drops(head);
        let kept = cut.len() as int;
        assert(cut =~= line.take(kept));
        if kept > 0 {
            assert(line[kept - 1] == head[kept - 1]);
        }
        assert forall|j: int| kept <= j < max implies text::space(#[trigger] line[j]) by {
            assert(line[j] == head[j]);
        }
    }
}

/// A notification is headed by the beginning of the source and says the translation,
/// and what is printed names the source's language before the source and the
/// translation's behind it.
pub proof fn law_a_result_is_told_in_both_languages(outcome: OutcomeView)
    ensures
        ({
            let command = notifying(outcome);
            let n = command.args.len();
            &&& command.program == "notify-send"@
            &&& n == 6
            &&& command.args[0] == "--app-name"@ && command.args[1] == "wl-translate"@
            &&& command.args[2] == "--icon"@ && command.args[3] == "accessories-dictionary"@
            &&& command.args[n - 1] == outcome.translation
            &&& command.args[n - 2] == summary(outcome.source, 60)
        }),
        heading(outcome) == "--- source ("@ + outcome.from + ") ---\n"@ + outcome.source
            + "\n--- translation ("@ + outcome.to + ") ---"@,
{
}

} // verus!
