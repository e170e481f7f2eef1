//! The translator window: what its controls and the background threads ask of it,
//! without the widgets.
use crate::command::Failure;
use crate::ipc::SERVICE;
use crate::overlay::{Capture, Done};
use crate::pipeline::{Job, JobView, Outcome, OutcomeView, Product, Verb, VerbView};
use crate::settings;
use crate::settings::{Settings, SettingsView};
use crate::text;
use crate::text::{same, trim};
use vstd::prelude::*;

verus! {

/// How long the source has to rest before it is translated again, in
/// milliseconds.
pub const EDIT_PAUSE: u64 = 350;

/// Anything the background threads need the window to know about.
pub enum Event {
    /// A text and its translation to show. With `copy` the text goes to the
    /// clipboard as well.
    Finished { outcome: Outcome, copy: bool },
    /// A capture to open the overlay with.
    Captured(Capture),
    Failed(String),
}

/// What the window does with a verb.
#[derive(Debug)]
pub enum Dispatch {
    /// Raise the window as it is.
    Present,
    /// Hand this to the worker.
    Work(Job),
}

/// The job that carries out a verb with the languages that are set.
pub open spec fn job_for(
    settings: SettingsView,
    locale: Seq<Option<Seq<char>>>,
    verb: VerbView,
) -> JobView {
    JobView {
        verb,
        from: settings.source,
        to: settings.target_sent(locale),
        engine: settings.engine,
        freeze: settings.freeze,
        raw: false,
    }
}

/// What the window does with a verb, given what `LC_ALL`, `LC_MESSAGES` and
/// `LANG` say.
pub fn dispatch(settings: &Settings, locale: &Vec<Option<String>>, verb: Verb) -> (result: Dispatch)
    ensures
        match result {
            Dispatch::Present => verb@ is Show,
            Dispatch::Work(job) => !(verb@ is Show) && job@ == job_for(
                settings@,
                settings::values(locale@),
                verb@,
            ),
        },
{
    if let Verb::Show = verb {
        return Dispatch::Present;
    }
    let mut job = Job::new(verb);
    job.from = settings.source.as_str().to_owned();
    job.to = settings.effective_target(locale);
    job.engine = settings.engine.as_str().to_owned();
    job.freeze = settings.freeze;
    Dispatch::Work(job)
}

/// Whether a verb's text is wanted on the clipboard: that of an image the overlay
/// had extracted.
pub open spec fn copies(verb: VerbView) -> bool {
    verb matches VerbView::OcrImage { raw: true, .. }
}

/// What the window is told once a job is done. A cancelled one is not mentioned.
pub fn event_for(verb: &Verb, result: Result<Option<Product>, Failure>) -> (event: Option<Event>)
    ensures
        match result {
            Ok(Some(Product::Text(text))) => event matches Some(Event::Finished { outcome, copy })
                && outcome == text && copy == copies(verb@),
            Ok(Some(Product::Shot(shot))) => event matches Some(Event::Captured(capture)) && capture
                == shot,
            Ok(None) => event is None,
            Err(failure) => event matches Some(Event::Failed(message)) && message@ == failure@,
        },
{
    match result {
        Ok(Some(Product::Text(outcome))) => {
            let copy = match verb {
                Verb::OcrImage { raw, .. } => *raw,
                _ => false,
            };
            Some(Event::Finished { outcome, copy })
        },
        Ok(Some(Product::Shot(capture))) => Some(Event::Captured(capture)),
        Ok(None) => None,
        Err(failure) => Some(Event::Failed(failure.message)),
    }
}

/// What to report when the daemon's name could not be claimed on the bus.
pub fn not_claimed(cause: &str) -> (message: String)
    ensures
        message@ == "could not claim "@ + SERVICE@ + ": "@ + cause@,
{
    let mut message = "could not claim ".to_owned();
    message.append(SERVICE);
    message.append(": ");
    message.append(cause);
    message
}

/// The status line below a translation: from which language to which.
pub fn status(outcome: &Outcome) -> (line: String)
    ensures
        line@ == outcome@.from + " \u{2192} "@ + outcome@.to,
{
    let mut line = outcome.from.as_str().to_owned();
    line.append(" \u{2192} ");
    line.append(outcome.to.as_str());
    line
}

/// What follows once the overlay has closed.
pub enum Aftermath {
    /// Nothing.
    Nothing,
    /// Mention this.
    Mention(String),
    /// Carry out this verb.
    Carry(Verb),
}

/// What follows once the overlay has closed: the image it kept may still have to
/// be read.
pub fn overlay_closed(done: Done) -> (next: Aftermath)
    ensures
        match done {
            Done::Handled(message) => next == Aftermath::Mention(message),
            Done::Recognise { png, raw } => next matches Aftermath::Carry(verb) && verb@ == (
            VerbView::OcrImage { png: png@, raw }),
            Done::Cancelled => next is Nothing,
        },
{
    match done {
        Done::Handled(message) => Aftermath::Mention(message),
        Done::Recognise { png, raw } => Aftermath::Carry(Verb::OcrImage { png, raw }),
        Done::Cancelled => Aftermath::Nothing,
    }
}

/// The two sides of a translation.
#[derive(Debug, Clone, Copy, PartialEq, Eq, Structural)]
pub enum Side {
    Source,
    Target,
}

/// A language chip.
#[derive(Debug)]
pub struct Chip {
    pub lang: String,
    /// Whether it is the language in use.
    pub active: bool,
}

pub struct ChipView {
    pub lang: Seq<char>,
    pub active: bool,
}

impl View for Chip {
    type V = ChipView;

    open spec fn view(&self) -> ChipView {
        ChipView { lang: self.lang@, active: self.active }
    }
}

/// The contents of a row of chips.
pub open spec fn chip_list(list: Seq<Chip>) -> Seq<ChipView> {
    list.map_values(|chip: Chip| chip@)
}

/// Chips, with the language in use marked.
pub open spec fn marked(langs: Seq<Seq<char>>, current: Seq<char>) -> Seq<ChipView> {
    langs.map_values(|lang: Seq<char>| ChipView { lang, active: lang == current })
}

/// The chips of one side.
pub open spec fn chips_of(settings: SettingsView, side: Side) -> Seq<ChipView> {
    match side {
        Side::Source => marked(settings::chip_row(settings.recent_source), settings.source),
        Side::Target => marked(settings::chip_row(settings.recent_target), settings.target),
    }
}

/// The chips of one side, in the most-recently-used order the settings keep.
pub fn rebuild_chips(settings: &Settings, side: Side) -> (chips: Vec<Chip>)
    ensures
        chip_list(chips@) == chips_of(settings@, side),
{
    let (langs, current) = match side {
        Side::Source => (Settings::chips(&settings.recent_source), settings.source.as_str()),
        Side::Target => (Settings::chips(&settings.recent_target), settings.target.as_str()),
    };
    let ghost all = marked(text::texts(langs@), current@);
    let mut chips: Vec<Chip> = Vec::new();
    let mut i: usize = 0;
    proof {
        assert(chip_list(chips@) =~= all.take(0));
    }
    while i < langs.len()
        invariant
            i <= langs@.len(),
            all == marked(text::texts(langs@), current@),
            chip_list(chips@) == all.take(i as int),
        decreases langs@.len() - i,
    {
        let lang = langs[i].as_str().to_owned();
        let active = same(lang.as_str(), current);
        let chip = Chip { lang, active };
        let ghost before = chips@;
        proof {
            assert(all[i as int] == chip@);
            assert(all.take(i + 1) =~= all.take(i as int).push(chip@));
        }
        chips.push(chip);
        proof {
            assert(chip_list(chips@) =~= chip_list(before).push(chip@));
        }
        i += 1;
    }
    proof {
        assert(all.take(i as int) =~= all);
    }
    chips
}

/// What to translate again, if there is anything: the source as it stands.
pub open spec fn again(source: Seq<char>) -> Option<VerbView> {
    if text::trimmed(source).len() > 0 {
        Some(VerbView::Text(source))
    } else {
        None
    }
}

/// A verb that may be missing, by content.
pub open spec fn some_verb(verb: Option<Verb>) -> Option<VerbView> {
    match verb {
        Some(verb) => Some(verb@),
        None => None,
    }
}

/// What to do once the source was edited and has rested: translate it again.
/// Editing the translation asks for nothing, so it is a place to adjust wording.
pub fn edited(source: &str) -> (verb: Option<Verb>)
    ensures
        some_verb(verb) == again(source@),
{
    let shown = trim(source);
    if shown.as_str().is_empty() {
        None
    } else {
        Some(Verb::Text(source.to_owned()))
    }
}

/// The settings after a language was chosen on one side.
pub open spec fn chosen(settings: SettingsView, side: Side, lang: Seq<char>) -> SettingsView {
    match side {
        Side::Source => settings.with_source(lang),
        Side::Target => settings.with_target(lang),
    }
}

/// What to do once a language was chosen: it is remembered, and the source is
/// translated again at once.
pub fn choose_language(settings: &mut Settings, side: Side, lang: &str, source: &str) -> (verb:
    Option<Verb>)
    ensures
        final(settings)@ == chosen(old(settings)@, side, lang@),
        some_verb(verb) == again(source@),
{
    match side {
        Side::Source => settings.use_source(lang),
        Side::Target => settings.use_target(lang),
    }
    edited(source)
}

/// What to do once the sides were swapped: the source is translated again.
pub fn swap_languages(settings: &mut Settings, source: &str) -> (verb: Option<Verb>)
    ensures
        final(settings)@ == old(settings)@.swapped(),
        some_verb(verb) == again(source@),
{
    settings.swap();
    edited(source)
}

/// The contents of a list of results.
pub open spec fn outcomes(list: Seq<Outcome>) -> Seq<OutcomeView> {
    list.map_values(|outcome: Outcome| outcome@)
}

/// Recent translations, the latest first.
#[derive(Debug)]
pub struct History {
    pub entries: Vec<Outcome>,
}

impl View for History {
    type V = Seq<OutcomeView>;

    open spec fn view(&self) -> Seq<OutcomeView> {
        outcomes(self.entries@)
    }
}

fn copy_outcome(outcome: &Outcome) -> (copy: Outcome)
    ensures
        copy@ == outcome@,
{
    Outcome {
        source: outcome.source.as_str().to_owned(),
        translation: outcome.translation.as_str().to_owned(),
        from: outcome.from.as_str().to_owned(),
        to: outcome.to.as_str().to_owned(),
    }
}

impl History {
    pub fn new() -> (history: Self)
        ensures
            history@ == Seq::<OutcomeView>::empty(),
    {
        let entries: Vec<Outcome> = Vec::new();
        proof {
            assert(outcomes(entries@) =~= Seq::<OutcomeView>::empty());
        }
        Self { entries }
    }

    /// Remember a translation that was shown.
    pub fn record(&mut self, outcome: &Outcome)
        ensures
            final(self)@ == seq![outcome@] + old(self)@,
    {
        let copy = copy_outcome(outcome);
        self.entries.insert(0, copy);
        proof {
            assert(self@ =~= seq![outcome@] + old(self)@);
        }
    }

    /// Bring a translation back: the one at `index`, counted from the latest.
    pub fn recall(&self, index: usize) -> (outcome: Option<Outcome>)
        ensures
            match outcome {
                Some(outcome) => index < self@.len() && outcome@ == self@[index as int],
                None => index >= self@.len(),
            },
    {
        if index < self.entries.len() {
            Some(copy_outcome(&self.entries[index]))
        } else {
            None
        }
    }
}

/// The language just chosen is the one in use, and its chip is marked.
pub proof fn law_the_chosen_chip_is_marked(settings: SettingsView, side: Side, lang: Seq<char>)
    ensures
        ({
            let row = chips_of(chosen(settings, side, lang), side);
            exists|i: int| 0 <= i < row.len() && (#[trigger] row[i]).lang == lang && row[i].active
        }),
        forall|i: int|
            0 <= i < chips_of(chosen(settings, side, lang), side).len() ==> ((
            #[trigger] chips_of(chosen(settings, side, lang), side)[i]).active <==> chips_of(
                chosen(settings, side, lang),
                side,
            )[i].lang == lang),
{
    let recent = match side {
        Side::Source => settings.recent_source,
        Side::Target => settings.recent_target,
    };
    let row = chips_of(chosen(settings, side, lang), side);
    let names = settings::chip_row(settings::promoted(recent, lang));
    settings::law_auto_leads_the_chips(settings::promoted(recent, lang));
    if lang == "auto"@ {
        assert(names[0] == lang);
        assert(row[0].lang == lang && row[0].active);
    } else {
        settings::law_a_used_language_leads(recent, lang);
        settings::lemma_a_language_keeps_its_place(settings::promoted(recent, lang));
        assert(names[1] == lang);
        assert(row[1].lang == lang && row[1].active);
    }
}

/// A job from the window is in the languages and by the engine of the settings, each
/// from its own place, holds the screen still when they say so, and is translated.
pub proof fn law_a_job_follows_the_settings(
    settings: SettingsView,
    locale: Seq<Option<Seq<char>>>,
    verb: VerbView,
)
    ensures
        ({
            let job = job_for(settings, locale, verb);
            &&& job.verb == verb
            &&& job.from == settings.source
            &&& settings.target != "auto"@ ==> job.to == settings.target
            &&& settings.target == "auto"@ ==> job.to == settings::language_from(locale)
            &&& job.engine == settings.engine
            &&& job.freeze == settings.freeze
            &&& !job.raw
        }),
{
}

/// The chips of a side are that side's languages, in their order, and the one marked
/// is the one in use on that side. What is chosen on a side is in use there, and the
/// other side's chips stay as they were.
pub proof fn law_each_side_has_its_own_chips(settings: SettingsView, lang: Seq<char>, i: int)
    ensures
        chips_of(settings, Side::Source).len() == settings::chip_row(settings.recent_source).len(),
        chips_of(settings, Side::Target).len() == settings::chip_row(settings.recent_target).len(),
        0 <= i < chips_of(settings, Side::Source).len() ==> {
            let chip = chips_of(settings, Side::Source)[i];
            &&& chip.lang == settings::chip_row(settings.recent_source)[i]
            &&& chip.active <==> chip.lang == settings.source
        },
        0 <= i < chips_of(settings, Side::Target).len() ==> {
            let chip = chips_of(settings, Side::Target)[i];
            &&& chip.lang == settings::chip_row(settings.recent_target)[i]
            &&& chip.active <==> chip.lang == settings.target
        },
        chosen(settings, Side::Source, lang).source == lang,
        chosen(settings, Side::Source, lang).target == settings.target,
        chosen(settings, Side::Target, lang).target == lang,
        chosen(settings, Side::Target, lang).source == settings.source,
        chips_of(chosen(settings, Side::Source, lang), Side::Target) == chips_of(
            settings,
            Side::Target,
        ),
        chips_of(chosen(settings, Side::Target, lang), Side::Source) == chips_of(
            settings,
            Side::Source,
        ),
{
}

/// What stands in the window is translated again as it is, unless there is nothing
/// but white space in it.
pub proof fn law_only_text_is_put_again(source: Seq<char>)
    ensures
        (exists|i: int| 0 <= i < source.len() && !text::space(#[trigger] source[i])) <==> again(
            source,
        ) == Some(VerbView::Text(source)),
        (forall|i: int| 0 <= i < source.len() ==> text::space(#[trigger] source[i])) <==> again(
            source,
        ) is None,
{
    text::law_trimming_drops_only_white_space(source);
    let (from, to) = choose|from: int, to: int|
        {
            &&& 0 <= from <= to <= source.len()
            &&& text::trimmed(source) == #[trigger] source.subrange(from, to)
            &&& forall|j: int|
                0 <= j < from || to <= j < source.len() ==> text::space(#[trigger] source[j])
            &&& from < to ==> !text::space(source[from]) && !text::space(source[to - 1])
        };
    assert(text::trimmed(source).len() == to - from);
    if from < to {
        assert(!text::space(source[from]));
    }
}

/// Only what was read off a picture without translating it is copied.
pub proof fn law_only_extracted_text_is_copied(verb: VerbView, png: Seq<u8>, raw: bool)
    ensures
        copies(VerbView::OcrImage { png, raw }) == raw,
        !(verb is OcrImage) ==> !copies(verb),
{
}

} // verus!
