//! Persisted settings.
//!
//! The language pair lives here rather than on the command line. A keybind
//! should say what to do - translate the selection - not restate which languages
//! you happen to be working in today.
use crate::paths;
use crate::text;
use crate::text::{chars_of, same, text_of};
use vstd::prelude::*;

verus! {

/// How many languages to keep on each side's chip row.
pub const RECENT_LIMIT: usize = 5;

#[derive(Debug)]
pub struct Settings {
    /// Source language, or "auto" to let the engine decide.
    pub source: String,
    pub target: String,
    /// Most-recently-used first. Drives the order of the chips.
    pub recent_source: Vec<String>,
    pub recent_target: Vec<String>,
    pub engine: String,
    /// Tesseract languages, "+"-joined.
    pub langs: String,
    /// Whether the screen is held still while a region is dragged.
    pub freeze: bool,
    /// Where the language models come from, when not from the system.
    pub tessdata: Option<String>,
}

pub struct SettingsView {
    pub source: Seq<char>,
    pub target: Seq<char>,
    pub recent_source: Seq<Seq<char>>,
    pub recent_target: Seq<Seq<char>>,
    pub engine: Seq<char>,
    pub langs: Seq<char>,
    pub freeze: bool,
    pub tessdata: Option<Seq<char>>,
}

impl View for Settings {
    type V = SettingsView;

    open spec fn view(&self) -> SettingsView {
        SettingsView {
            source: self.source@,
            target: self.target@,
            recent_source: text::texts(self.recent_source@),
            recent_target: text::texts(self.recent_target@),
            engine: self.engine@,
            langs: self.langs@,
            freeze: self.freeze,
            tessdata: match self.tessdata {
                Some(path) => Some(path@),
                None => None,
            },
        }
    }
}

/// The settings there are before anything was chosen.
pub open spec fn defaults() -> SettingsView {
    SettingsView {
        source: "auto"@,
        target: "en"@,
        recent_source: seq!["it"@, "en"@, "fa"@],
        recent_target: seq!["en"@, "fa"@, "it"@],
        engine: "google"@,
        langs: "eng+ita+fas"@,
        freeze: true,
        tessdata: None,
    }
}

fn three(a: &str, b: &str, c: &str) -> (list: Vec<String>)
    ensures
        text::texts(list@) == seq![a@, b@, c@],
{
    let mut list: Vec<String> = Vec::new();
    list.push(a.to_owned());
    list.push(b.to_owned());
    list.push(c.to_owned());
    proof {
        assert(text::texts(list@) =~= seq![a@, b@, c@]);
    }
    list
}

impl Default for Settings {
    fn default() -> (settings: Self)
        ensures
            settings@ == defaults(),
    {
        Self {
            source: "auto".to_owned(),
            target: "en".to_owned(),
            recent_source: three("it", "en", "fa"),
            recent_target: three("en", "fa", "it"),
            engine: "google".to_owned(),
            langs: "eng+ita+fas".to_owned(),
            freeze: true,
            tessdata: None,
        }
    }
}

/// The languages of a list other than `lang`, in order.
pub open spec fn without(recent: Seq<Seq<char>>, lang: Seq<char>) -> Seq<Seq<char>>
    decreases recent.len(),
{
    if recent.len() == 0 {
        Seq::empty()
    } else {
        let rest = without(recent.drop_last(), lang);
        if recent.last() == lang {
            rest
        } else {
            rest.push(recent.last())
        }
    }
}

/// The first languages of a list, as many as are kept.
pub open spec fn capped(recent: Seq<Seq<char>>) -> Seq<Seq<char>> {
    if recent.len() <= RECENT_LIMIT {
        recent
    } else {
        recent.take(RECENT_LIMIT as int)
    }
}

/// The recent languages after `lang` was used: it leads, and the others follow in
/// the order they had. "auto" is not a language and changes nothing.
pub open spec fn promoted(recent: Seq<Seq<char>>, lang: Seq<char>) -> Seq<Seq<char>> {
    if lang == "auto"@ {
        recent
    } else {
        capped(seq![lang] + without(recent, lang))
    }
}

fn promote(recent: &mut Vec<String>, lang: &str)
    ensures
        text::texts(final(recent)@) == promoted(text::texts(old(recent)@), lang@),
{
    if same(lang, "auto") {
        return;
    }
    let ghost all = text::texts(old(recent)@);
    let mut kept: Vec<String> = Vec::new();
    kept.push(lang.to_owned());
    let mut i: usize = 0;
    proof {
        assert(text::texts(kept@) =~= seq![lang@] + without(all.take(0), lang@));
    }
    while i < recent.len()
        invariant
            i <= recent@.len(),
            all == text::texts(recent@),
            text::texts(kept@) == seq![lang@] + without(all.take(i as int), lang@),
        decreases recent@.len() - i,
    {
        proof {
            assert(all.take(i + 1).drop_last() =~= all.take(i as int));
            assert(all.take(i + 1).last() == recent@[i as int]@);
        }
        if !same(recent[i].as_str(), lang) {
            let other = recent[i].as_str().to_owned();
            proof {
                text::lemma_texts_push(kept@, other);
                assert(text::texts(kept@).push(other@) =~= seq![lang@] + without(
                    all.take(i as int),
                    lang@,
                ).push(other@));
            }
            kept.push(other);
        }
        i += 1;
    }
    let ghost whole = text::texts(kept@);
    proof {
        assert(all.take(i as int) =~= all);
        assert(whole == seq![lang@] + without(all, lang@));
    }
    kept.truncate(RECENT_LIMIT);
    proof {
        assert(text::texts(kept@) =~= capped(whole));
    }
    *recent = kept;
}

/// The chips of one side: "auto", then the languages kept, in order.
pub open spec fn chip_row(recent: Seq<Seq<char>>) -> Seq<Seq<char>> {
    seq!["auto"@] + without(capped(recent), "auto"@)
}

/// A character that ends the language in a locale's name.
pub open spec fn locale_mark(c: char) -> bool {
    c == '.' || c == '@' || c == '_'
}

/// The part of a locale's name before any mark.
pub open spec fn locale_head(s: Seq<char>) -> Seq<char>
    decreases s.len(),
{
    if s.len() == 0 || locale_mark(s[0]) {
        Seq::empty()
    } else {
        seq![s[0]] + locale_head(s.drop_first())
    }
}

/// A letter of the ASCII alphabet in lower case; any other character as it is.
pub open spec fn lower(c: char) -> char {
    if 'A' <= c <= 'Z' {
        (c as u8 + 32) as char
    } else {
        c
    }
}

/// The language in a locale's name: `it_IT.UTF-8` is `it`.
pub open spec fn locale_language(value: Seq<char>) -> Seq<char> {
    locale_head(value).map_values(|c: char| lower(c))
}

/// Whether a locale's name has a language in it: "C" and "POSIX" have none.
pub open spec fn names_a_language(value: Seq<char>) -> bool {
    vstd::utf8::encode_utf8(locale_language(value)).len() == 2
}

/// What the locale variables say, in the order they count.
pub open spec fn values(list: Seq<Option<String>>) -> Seq<Option<Seq<char>>> {
    list.map_values(
        |value: Option<String>|
            match value {
                Some(text) => Some(text@),
                None => None,
            },
    )
}

/// The language of the first variable that names one, or English.
pub open spec fn language_from(list: Seq<Option<Seq<char>>>) -> Seq<char>
    decreases list.len(),
{
    if list.len() == 0 {
        "en"@
    } else {
        match list[0] {
            Some(value) if names_a_language(value) => locale_language(value),
            _ => language_from(list.drop_first()),
        }
    }
}

fn to_lower(c: char) -> (result: char)
    ensures
        result == lower(c),
{
    if 'A' <= c && c <= 'Z' {
        (c as u8 + 32) as char
    } else {
        c
    }
}

proof fn lemma_locale_head_is(s: Seq<char>, n: int)
    requires
        0 <= n <= s.len(),
        n < s.len() ==> locale_mark(s[n]),
        forall|j: int| 0 <= j < n ==> !locale_mark(#[trigger] s[j]),
    ensures
        locale_head(s) == s.take(n),
    decreases s.len(),
{
    if n == 0 {
        assert(locale_head(s) =~= s.take(0));
    } else {
        assert(!locale_mark(s[0]));
        let rest = s.drop_first();
        assert forall|j: int| 0 <= j < n - 1 implies !locale_mark(#[trigger] rest[j]) by {
            assert(rest[j] == s[j + 1]);
        }
        lemma_locale_head_is(rest, n - 1);
        assert(locale_head(s) =~= s.take(n));
    }
}

fn read_language(value: &str) -> (language: String)
    ensures
        language@ == locale_language(value@),
{
    let chars = chars_of(value);
    let mut lowered: Vec<char> = Vec::new();
    let mut i: usize = 0;
    while i < chars.len() && chars[i] != '.' && chars[i] != '@' && chars[i] != '_'
        invariant
            i <= chars@.len(),
            forall|j: int| 0 <= j < i ==> !locale_mark(#[trigger] chars@[j]),
            lowered@ == chars@.take(i as int).map_values(|c: char| lower(c)),
        decreases chars@.len() - i,
    {
        lowered.push(to_lower(chars[i]));
        proof {
            assert(lowered@ =~= chars@.take(i + 1).map_values(|c: char| lower(c)));
        }
        i += 1;
    }
    proof {
        lemma_locale_head_is(chars@, i as int);
        assert(lowered@.subrange(0, lowered@.len() as int) =~= lowered@);
    }
    text_of(&lowered, 0, lowered.len())
}

/// System language from the locale: the first of the given variables that names
/// one. Pass what `LC_ALL`, `LC_MESSAGES` and `LANG` say, in that order.
pub fn system_language(locale: &Vec<Option<String>>) -> (language: String)
    ensures
        language@ == language_from(values(locale@)),
{
    let ghost all = values(locale@);
    let mut i: usize = 0;
    proof {
        assert(all.skip(0) =~= all);
    }
    while i < locale.len()
        invariant
            i <= locale@.len(),
            all == values(locale@),
            language_from(all.skip(i as int)) == language_from(all),
        decreases locale@.len() - i,
    {
        proof {
            assert(all.skip(i as int).drop_first() =~= all.skip(i + 1));
            assert(all.skip(i as int)[0] == all[i as int]);
        }
        if let Some(value) = &locale[i] {
            let language = read_language(value.as_str());
            if language.as_str().as_bytes().len() == 2 {
                return language;
            }
        }
        i += 1;
    }
    "en".to_owned()
}

impl SettingsView {
    /// The target language actually sent to the engine. A target of "auto" means
    /// the system language: there is nothing to detect.
    pub open spec fn target_sent(self, locale: Seq<Option<Seq<char>>>) -> Seq<char> {
        if self.target == "auto"@ {
            language_from(locale)
        } else {
            self.target
        }
    }

    /// The settings after a source language was used.
    pub open spec fn with_source(self, lang: Seq<char>) -> SettingsView {
        SettingsView { source: lang, recent_source: promoted(self.recent_source, lang), ..self }
    }

    /// The settings after a target language was used.
    pub open spec fn with_target(self, lang: Seq<char>) -> SettingsView {
        SettingsView { target: lang, recent_target: promoted(self.recent_target, lang), ..self }
    }

    /// The settings after the two sides were exchanged.
    pub open spec fn swapped(self) -> SettingsView {
        SettingsView {
            source: self.target,
            target: self.source,
            recent_source: promoted(self.recent_source, self.target),
            recent_target: promoted(self.recent_target, self.source),
            ..self
        }
    }
}

/// Where the settings are kept: in the configuration directory, or the one in the
/// home directory, or here.
pub open spec fn config_path(config: Option<Vec<u8>>, home: Option<Vec<u8>>) -> Seq<u8> {
    let base = match config {
        Some(config) => config@,
        None => match home {
            Some(home) => paths::below(home@, ".config"@),
            None => vstd::utf8::encode_utf8("."@),
        },
    };
    paths::below(paths::below(base, "wl-translate"@), "config.json"@)
}

impl Settings {
    /// Where the settings are kept, given what `XDG_CONFIG_HOME` and `HOME` say.
    pub fn path(config: Option<Vec<u8>>, home: Option<Vec<u8>>) -> (path: Vec<u8>)
        ensures
            path@ == config_path(config, home),
    {
        let base = match config {
            Some(config) => config,
            None => match home {
                Some(home) => paths::join(&home, ".config"),
                None => paths::bytes_of("."),
            },
        };
        paths::join(&paths::join(&base, "wl-translate"), "config.json")
    }

    /// Missing or unreadable settings are not an error - they just mean defaults.
    /// Settings should never be the reason a keybind stops working.
    pub fn loaded(parsed: Option<Settings>) -> (settings: Settings)
        ensures
            settings@ == match parsed {
                Some(settings) => settings@,
                None => defaults(),
            },
    {
        match parsed {
            Some(settings) => settings,
            None => Settings::default(),
        }
    }

    /// Record a language as used on the source side and move it to the front,
    /// which is what makes the chip row reorder itself.
    pub fn use_source(&mut self, lang: &str)
        ensures
            final(self)@ == old(self)@.with_source(lang@),
    {
        self.source = lang.to_owned();
        promote(&mut self.recent_source, lang);
    }

    /// Record a language as used on the target side and move it to the front.
    pub fn use_target(&mut self, lang: &str)
        ensures
            final(self)@ == old(self)@.with_target(lang@),
    {
        self.target = lang.to_owned();
        promote(&mut self.recent_target, lang);
    }

    /// Exchange the two sides.
    pub fn swap(&mut self)
        ensures
            final(self)@ == old(self)@.swapped(),
    {
        let source = self.target.as_str().to_owned();
        let target = self.source.as_str().to_owned();
        promote(&mut self.recent_source, source.as_str());
        promote(&mut self.recent_target, target.as_str());
        self.source = source;
        self.target = target;
    }

    /// Chips for one side: "auto" first, then most-recent-first.
    pub fn chips(recent: &Vec<String>) -> (chips: Vec<String>)
        ensures
            text::texts(chips@) == chip_row(text::texts(recent@)),
    {
        let ghost all = capped(text::texts(recent@));
        let limit: usize = if recent.len() <= RECENT_LIMIT {
            recent.len()
        } else {
            RECENT_LIMIT
        };
        let mut chips: Vec<String> = Vec::new();
        chips.push("auto".to_owned());
        let mut i: usize = 0;
        proof {
            assert(text::texts(chips@) =~= seq!["auto"@] + without(all.take(0), "auto"@));
        }
        while i < limit
            invariant
                i <= limit <= recent@.len(),
                limit == all.len(),
                all == capped(text::texts(recent@)),
                text::texts(chips@) == seq!["auto"@] + without(all.take(i as int), "auto"@),
            decreases limit - i,
        {
            proof {
                assert(all.take(i + 1).drop_last() =~= all.take(i as int));
                assert(all.take(i + 1).last() == recent@[i as int]@);
            }
            if !same(recent[i].as_str(), "auto") {
                let lang = recent[i].as_str().to_owned();
                proof {
                    text::lemma_texts_push(chips@, lang);
                    assert(text::texts(chips@).push(lang@) =~= seq!["auto"@] + without(
                        all.take(i as int),
                        "auto"@,
                    ).push(lang@));
                }
                chips.push(lang);
            }
            i += 1;
        }
        proof {
            assert(all.take(i as int) =~= all);
        }
        chips
    }

    /// The target language actually sent to the engine.
    ///
    /// A source of "auto" means "detect it", which engines understand. A target
    /// of "auto" cannot mean that - there is nothing to detect - so it means "my
    /// system language": pass what `LC_ALL`, `LC_MESSAGES` and `LANG` say, in
    /// that order.
    pub fn effective_target(&self, locale: &Vec<Option<String>>) -> (target: String)
        ensures
            target@ == self@.target_sent(values(locale@)),
    {
        if same(self.target.as_str(), "auto") {
            system_language(locale)
        } else {
            self.target.as_str().to_owned()
        }
    }
}

/// No language occurs twice.
pub open spec fn distinct(list: Seq<Seq<char>>) -> bool {
    forall|i: int, j: int| 0 <= i < j < list.len() ==> list[i] != list[j]
}

proof fn lemma_without(recent: Seq<Seq<char>>, lang: Seq<char>)
    ensures
        !without(recent, lang).contains(lang),
        without(recent, lang).len() <= recent.len(),
        forall|x: Seq<char>| #[trigger]
            without(recent, lang).contains(x) ==> recent.contains(x) && x != lang,
        forall|x: Seq<char>| #[trigger]
            recent.contains(x) && x != lang ==> without(recent, lang).contains(x),
        distinct(recent) ==> distinct(without(recent, lang)),
    decreases recent.len(),
{
    if recent.len() > 0 {
        let before = recent.drop_last();
        let last = recent.last();
        lemma_without(before, lang);
        let rest = without(before, lang);
        let all = without(recent, lang);
        assert forall|x: Seq<char>| #[trigger] recent.contains(x) && x != lang implies all.contains(
            x,
        ) by {
            let k = choose|k: int| 0 <= k < recent.len() && recent[k] == x;
            if k < before.len() {
                assert(before[k] == x);
                assert(before.contains(x));
                let m = choose|m: int| 0 <= m < rest.len() && rest[m] == x;
                assert(all[m] == x);
            } else {
                assert(all[rest.len() as int] == x);
            }
        }
        assert forall|x: Seq<char>| #[trigger] all.contains(x) implies recent.contains(x) && x
            != lang by {
            let k = choose|k: int| 0 <= k < all.len() && all[k] == x;
            if k < rest.len() {
                assert(rest[k] == x);
                assert(rest.contains(x));
                let m = choose|m: int| 0 <= m < before.len() && before[m] == x;
                assert(recent[m] == x);
            } else {
                assert(recent[recent.len() - 1] == x);
            }
        }
        if distinct(recent) {
            assert forall|i: int, j: int| 0 <= i < j < before.len() implies before[i] != before[j] by {
                assert(recent[i] != recent[j]);
            }
            assert forall|i: int, j: int| 0 <= i < j < all.len() implies all[i] != all[j] by {
                if j < rest.len() {
                    assert(rest[i] != rest[j]);
                } else {
                    assert(rest.contains(rest[i]));
                    let m = choose|m: int| 0 <= m < before.len() && before[m] == rest[i];
                    assert(recent[m] != recent[recent.len() - 1]);
                }
            }
        }
    } else {
        assert(without(recent, lang) =~= Seq::<Seq<char>>::empty());
    }
}

/// Using a language moves it to the front, keeps it there once, and keeps the
/// list within its limit and free of duplicates.
pub proof fn law_a_used_language_leads(recent: Seq<Seq<char>>, lang: Seq<char>)
    requires
        lang != "auto"@,
    ensures
        promoted(recent, lang).len() > 0,
        promoted(recent, lang)[0] == lang,
        promoted(recent, lang).len() <= RECENT_LIMIT,
        !promoted(recent, lang).drop_first().contains(lang),
        distinct(recent) ==> distinct(promoted(recent, lang)),
{
    lemma_without(recent, lang);
    let rest = without(recent, lang);
    let whole = seq![lang] + rest;
    let list = promoted(recent, lang);
    let tail = list.drop_first();
    assert forall|k: int| 0 <= k < tail.len() implies tail[k] != lang by {
        assert(tail[k] == rest[k]);
        assert(rest.contains(rest[k]));
    }
    if distinct(recent) {
        assert forall|i: int, j: int| 0 <= i < j < list.len() implies list[i] != list[j] by {
            assert(list[j] == rest[j - 1]);
            if i == 0 {
                assert(rest.contains(rest[j - 1]));
            } else {
                assert(list[i] == rest[i - 1]);
            }
        }
    }
}

proof fn lemma_without_absent(recent: Seq<Seq<char>>, lang: Seq<char>)
    requires
        !recent.contains(lang),
    ensures
        without(recent, lang) == recent,
    decreases recent.len(),
{
    if recent.len() > 0 {
        let before = recent.drop_last();
        assert forall|k: int| 0 <= k < before.len() implies before[k] != lang by {
            assert(recent[k] != lang);
        }
        lemma_without_absent(before, lang);
        assert(recent[recent.len() - 1] != lang);
        assert(without(recent, lang) =~= recent);
    } else {
        assert(without(recent, lang) =~= recent);
    }
}

/// Using the language that leads already changes nothing.
pub proof fn law_using_a_language_twice_is_using_it_once(recent: Seq<Seq<char>>, lang: Seq<char>)
    ensures
        promoted(promoted(recent, lang), lang) == promoted(recent, lang),
{
    if lang != "auto"@ {
        law_a_used_language_leads(recent, lang);
        let list = promoted(recent, lang);
        let tail = list.drop_first();
        assert(list =~= seq![lang] + tail);
        lemma_without_front(lang, tail);
        lemma_without_absent(tail, lang);
        assert(seq![lang] + without(list, lang) =~= list);
    }
}

proof fn lemma_without_front(lang: Seq<char>, tail: Seq<Seq<char>>)
    ensures
        without(seq![lang] + tail, lang) == without(tail, lang),
    decreases tail.len(),
{
    let whole = seq![lang] + tail;
    if tail.len() > 0 {
        lemma_without_front(lang, tail.drop_last());
        assert(whole.drop_last() =~= seq![lang] + tail.drop_last());
        assert(whole.last() == tail.last());
    } else {
        assert(whole.drop_last() =~= Seq::<Seq<char>>::empty());
        assert(tail =~= Seq::<Seq<char>>::empty());
        reveal_with_fuel(without, 2);
    }
}

/// Swapping exchanges both sides, and swapping twice brings the pair back.
pub proof fn law_swapping_exchanges_the_sides(settings: SettingsView)
    ensures
        settings.swapped().source == settings.target,
        settings.swapped().target == settings.source,
        settings.swapped().swapped().source == settings.source,
        settings.swapped().swapped().target == settings.target,
{
}

/// The language that leads a list stands right behind "auto" in its chip row.
pub proof fn lemma_a_language_keeps_its_place(recent: Seq<Seq<char>>)
    requires
        recent.len() > 0,
        recent[0] != "auto"@,
    ensures
        chip_row(recent).len() > 1,
        chip_row(recent)[1] == recent[0],
{
    let list = capped(recent);
    lemma_without_keeps_first(list, "auto"@);
}

proof fn lemma_without_keeps_first(list: Seq<Seq<char>>, lang: Seq<char>)
    requires
        list.len() > 0,
        list[0] != lang,
    ensures
        without(list, lang).len() > 0,
        without(list, lang)[0] == list[0],
    decreases list.len(),
{
    if list.len() > 1 {
        lemma_without_keeps_first(list.drop_last(), lang);
    } else {
        reveal_with_fuel(without, 2);
        assert(list.drop_last() =~= Seq::<Seq<char>>::empty());
    }
}

/// "auto" leads every chip row and stands in it once; a row holds at most the
/// limit of languages besides.
pub proof fn law_auto_leads_the_chips(recent: Seq<Seq<char>>)
    ensures
        chip_row(recent)[0] == "auto"@,
        !chip_row(recent).drop_first().contains("auto"@),
        chip_row(recent).len() <= RECENT_LIMIT + 1,
{
    lemma_without(capped(recent), "auto"@);
    let rest = without(capped(recent), "auto"@);
    assert(chip_row(recent).drop_first() =~= rest);
}

proof fn lemma_language_has_two_bytes(list: Seq<Option<Seq<char>>>)
    ensures
        vstd::utf8::encode_utf8(language_from(list)).len() == 2,
    decreases list.len(),
{
    if list.len() == 0 {
        reveal_strlit("en");
        vstd::utf8::is_ascii_chars_encode_utf8("en"@);
    } else {
        lemma_language_has_two_bytes(list.drop_first());
    }
}

/// A target of "auto" resolves to a real language: a code of two bytes, never
/// "auto" itself. Any other target is sent as it is.
pub proof fn law_an_auto_target_is_a_real_language(
    settings: SettingsView,
    locale: Seq<Option<Seq<char>>>,
)
    ensures
        settings.target_sent(locale) != "auto"@,
        settings.target == "auto"@ ==> vstd::utf8::encode_utf8(settings.target_sent(locale)).len()
            == 2,
        settings.target != "auto"@ ==> settings.target_sent(locale) == settings.target,
{
    lemma_language_has_two_bytes(locale);
    reveal_strlit("auto");
    vstd::utf8::is_ascii_chars_encode_utf8("auto"@);
}

/// Taking a language out of a list takes out that language wherever it stands, and
/// keeps the others, in their order.
pub proof fn law_the_others_keep_their_order(
    first: Seq<Seq<char>>,
    second: Seq<Seq<char>>,
    one: Seq<char>,
    lang: Seq<char>,
)
    ensures
        without(first + second, lang) == without(first, lang) + without(second, lang),
        without(seq![one], lang) == if one == lang {
            Seq::<Seq<char>>::empty()
        } else {
            seq![one]
        },
        without(Seq::<Seq<char>>::empty(), lang) == Seq::<Seq<char>>::empty(),
    decreases second.len(),
{
    reveal_with_fuel(without, 2);
    assert(seq![one].drop_last() =~= Seq::<Seq<char>>::empty());
    let whole = first + second;
    if second.len() == 0 {
        assert(whole =~= first);
        assert(without(first, lang) + without(second, lang) =~= without(first, lang));
    } else {
        law_the_others_keep_their_order(first, second.drop_last(), one, lang);
        assert(whole.drop_last() =~= first + second.drop_last());
        assert(whole.last() == second.last());
        assert(without(whole, lang) =~= without(first, lang) + without(second, lang));
    }
}

/// Behind the language just used stand the others, as they were, as many as make five
/// in all. Using "auto" changes no list.
pub proof fn law_the_other_languages_move_back(recent: Seq<Seq<char>>, lang: Seq<char>, i: int)
    ensures
        promoted(recent, "auto"@) == recent,
        lang != "auto"@ ==> {
            let list = promoted(recent, lang);
            let others = without(recent, lang);
            &&& list[0] == lang
            &&& others.len() < 5 ==> list.len() == others.len() + 1
            &&& others.len() >= 5 ==> list.len() == 5
            &&& 1 <= i < list.len() ==> list[i] == others[i - 1]
        },
        chip_row(recent)[0] == "auto"@,
        recent.len() <= 5 && 1 <= i < chip_row(recent).len() ==> chip_row(recent)[i] == without(
            recent,
            "auto"@,
        )[i - 1],
        recent.len() <= 5 ==> chip_row(recent).len() == 1 + without(recent, "auto"@).len(),
        recent.len() > 5 ==> chip_row(recent) == chip_row(recent.take(5)),
{
}

/// Choosing a language on one side leaves the other side and all the rest alone, and
/// swapping is choosing, on each side, what was in use on the other.
pub proof fn law_each_side_is_chosen_by_itself(settings: SettingsView, lang: Seq<char>)
    ensures
        ({
            let after = settings.with_source(lang);
            &&& after.source == lang
            &&& after.recent_source == promoted(settings.recent_source, lang)
            &&& after.target == settings.target
            &&& after.recent_target == settings.recent_target
            &&& after.engine == settings.engine && after.langs == settings.langs && after.freeze
                == settings.freeze && after.tessdata == settings.tessdata
        }),
        ({
            let after = settings.with_target(lang);
            &&& after.target == lang
            &&& after.recent_target == promoted(settings.recent_target, lang)
            &&& after.source == settings.source
            &&& after.recent_source == settings.recent_source
            &&& after.engine == settings.engine && after.langs == settings.langs && after.freeze
                == settings.freeze && after.tessdata == settings.tessdata
        }),
        settings.swapped() == settings.with_source(settings.target).with_target(settings.source),
{
}

/// The language of a locale is what stands before its first mark, in small letters.
pub proof fn law_a_locale_names_its_language(name: Seq<char>, rest: Seq<char>, i: int)
    requires
        forall|j: int|
            0 <= j < name.len() ==> #[trigger] name[j] != '.' && name[j] != '@' && name[j] != '_',
        rest.len() == 0 || rest[0] == '.' || rest[0] == '@' || rest[0] == '_',
    ensures
        locale_language(name + rest).len() == name.len(),
        0 <= i < name.len() ==> {
            let c = locale_language(name + rest)[i];
            &&& 'A' <= name[i] <= 'Z' ==> c as int == name[i] as int + 32
            &&& !('A' <= name[i] <= 'Z') ==> c == name[i]
        },
{
    let whole = name + rest;
    assert forall|j: int| 0 <= j < name.len() implies !locale_mark(#[trigger] whole[j]) by {
        assert(whole[j] == name[j]);
    }
    if rest.len() > 0 {
        assert(whole[name.len() as int] == rest[0]);
    }
    lemma_locale_head_is(whole, name.len() as int);
    assert(whole.take(name.len() as int) =~= name);
}

/// The first of the locales that names a language of two letters decides, and without
/// any the language is English.
pub proof fn law_the_first_locale_with_a_language_decides(
    before: Seq<Option<Seq<char>>>,
    value: Seq<char>,
    behind: Seq<Option<Seq<char>>>,
)
    requires
        forall|i: int|
            0 <= i < before.len() ==> (#[trigger] before[i] matches Some(other)
                ==> vstd::utf8::encode_utf8(locale_language(other)).len() != 2),
    ensures
        vstd::utf8::encode_utf8(locale_language(value)).len() == 2 ==> language_from(
            before + seq![Some(value)] + behind,
        ) == locale_language(value),
        language_from(before) == "en"@,
    decreases before.len(),
{
    let whole = before + seq![Some(value)] + behind;
    if before.len() == 0 {
        assert(whole[0] == Some(value));
    } else {
        let rest = before.drop_first();
        assert forall|i: int| 0 <= i < rest.len() implies (#[trigger] rest[i] matches Some(other)
            ==> vstd::utf8::encode_utf8(locale_language(other)).len() != 2) by {
            assert(rest[i] == before[i + 1]);
        }
        law_the_first_locale_with_a_language_decides(rest, value, behind);
        assert(whole[0] == before[0]);
        assert(whole.drop_first() =~= rest + seq![Some(value)] + behind);
    }
}

/// The settings are kept below the directory for settings when there is one, and else
/// below the one in the home directory. The same directory is used either way.
pub proof fn law_the_settings_have_one_place(
    config: Vec<u8>,
    home: Vec<u8>,
    other: Option<Vec<u8>>,
)
    ensures
        config_path(Some(config), other) == config_path(Some(config), None),
        config@ == paths::below(home@, ".config"@) ==> config_path(None, Some(home)) == config_path(
            Some(config),
            other,
        ),
        config@.len() > 0 && config@.last() != 47 ==> config_path(Some(config), other) == config@
            + seq![47u8] + vstd::utf8::encode_utf8("wl-translate"@) + seq![47u8]
            + vstd::utf8::encode_utf8("config.json"@),
        config_path(None, None) == seq![46u8, 47u8] + vstd::utf8::encode_utf8("wl-translate"@)
            + seq![47u8] + vstd::utf8::encode_utf8("config.json"@),
{
    reveal_strlit(".");
    reveal_strlit("wl-translate");
    vstd::utf8::is_ascii_chars_encode_utf8("."@);
    vstd::utf8::is_ascii_chars_encode_utf8("wl-translate"@);
    let name = vstd::utf8::encode_utf8("wl-translate"@);
    let file = vstd::utf8::encode_utf8("config.json"@);
    assert(vstd::utf8::encode_utf8("."@) =~= seq![46u8]);
    assert(name.last() == 101);
    assert(config_path(None, None) =~= seq![46u8, 47u8] + name + seq![47u8] + file);
}

/// Before anything was chosen, the source is detected, the target is English, both
/// sides offer the same three languages, and these are the ones recognised.
pub proof fn law_the_defaults_fit_together()
    ensures
        defaults().source == "auto"@,
        defaults().target == "en"@,
        defaults().recent_source == seq!["it"@, "en"@, "fa"@],
        defaults().recent_target == seq!["en"@, "fa"@, "it"@],
        defaults().recent_target[0] == defaults().target,
        defaults().engine == "google"@,
        defaults().langs == "eng+ita+fas"@,
        defaults().freeze,
        defaults().tessdata is None,
{
}

} // verus!
