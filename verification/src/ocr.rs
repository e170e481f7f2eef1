//! Text recognition: what to make of what the recogniser says.
use crate::command;
use crate::command::Failure;
use crate::text;
use crate::text::{chars_of, join, split_all, text_of, trim};
use vstd::prelude::*;

verus! {

/// Where the first blank line starts: two line breaks in a row. The length of the
/// text when there is none.
pub open spec fn first_break(s: Seq<char>) -> int
    decreases s.len(),
{
    if s.len() < 2 {
        s.len() as int
    } else if s[0] == '\n' && s[1] == '\n' {
        0
    } else {
        1 + first_break(s.drop_first())
    }
}

/// The pieces between blank lines, in order. There is always at least one.
pub open spec fn paragraphs(s: Seq<char>) -> Seq<Seq<char>>
    decreases s.len(),
{
    let i = first_break(s);
    if 0 <= i && i + 1 < s.len() {
        seq![s.take(i)] + paragraphs(s.skip(i + 2))
    } else {
        seq![s]
    }
}

/// The texts that are not empty, in order, each without white space around it.
pub open spec fn tidy(list: Seq<Seq<char>>) -> Seq<Seq<char>>
    decreases list.len(),
{
    if list.len() == 0 {
        Seq::empty()
    } else {
        let rest = tidy(list.drop_last());
        let last = text::trimmed(list.last());
        if last.len() > 0 {
            rest.push(last)
        } else {
            rest
        }
    }
}

/// A paragraph's lines on one line.
pub open spec fn rejoined(paragraph: Seq<char>) -> Seq<char> {
    text::joined(tidy(text::split(paragraph, '\n')), " "@)
}

/// Paragraphs, each on one line, without the empty ones.
pub open spec fn flowed(list: Seq<Seq<char>>) -> Seq<Seq<char>>
    decreases list.len(),
{
    if list.len() == 0 {
        Seq::empty()
    } else {
        let rest = flowed(list.drop_last());
        let last = rejoined(list.last());
        if last.len() > 0 {
            rest.push(last)
        } else {
            rest
        }
    }
}

/// A text whose wrapped lines are rejoined, with blank lines between paragraphs.
pub open spec fn normalized(raw: Seq<char>) -> Seq<char> {
    text::joined(flowed(paragraphs(raw)), "\n\n"@)
}

proof fn lemma_first_break(s: Seq<char>)
    ensures
        0 <= first_break(s) <= s.len(),
        first_break(s) < s.len() ==> first_break(s) + 1 < s.len() && s[first_break(s)] == '\n'
            && s[first_break(s) + 1] == '\n',
        forall|j: int| 0 <= j < first_break(s) && j + 1 < s.len() ==> !(#[trigger] s[j] == '\n' && s[j
            + 1] == '\n'),
    decreases s.len(),
{
    if s.len() >= 2 && !(s[0] == '\n' && s[1] == '\n') {
        let rest = s.drop_first();
        lemma_first_break(rest);
        assert forall|j: int| 0 <= j < first_break(s) && j + 1 < s.len() implies !(#[trigger] s[j]
            == '\n' && s[j + 1] == '\n') by {
            if j > 0 {
                assert(s[j] == rest[j - 1]);
                assert(s[j + 1] == rest[j]);
            }
        }
    }
}

/// The first blank line is the only one with none before it.
proof fn lemma_first_break_is(s: Seq<char>, i: int)
    requires
        0 <= i <= s.len(),
        i < s.len() ==> i + 1 < s.len() && s[i] == '\n' && s[i + 1] == '\n',
        forall|j: int| 0 <= j < i && j + 1 < s.len() ==> !(#[trigger] s[j] == '\n' && s[j + 1]
            == '\n'),
    ensures
        first_break(s) == i,
{
    lemma_first_break(s);
    let f = first_break(s);
    if f < i {
        assert(s[f] == '\n' && s[f + 1] == '\n');
    }
    if i < f {
        assert(s[i] == '\n' && s[i + 1] == '\n');
    }
}

fn split_paragraphs(raw: &str) -> (pieces: Vec<String>)
    ensures
        text::texts(pieces@) == paragraphs(raw@),
{
    let chars = chars_of(raw);
    let n: usize = chars.len();
    let mut pieces: Vec<String> = Vec::new();
    let mut start: usize = 0;
    proof {
        assert(chars@.skip(0) =~= chars@);
        assert(text::texts(pieces@) + paragraphs(chars@) =~= paragraphs(chars@));
    }
    loop
        invariant_except_break
            text::texts(pieces@) + paragraphs(chars@.skip(start as int)) == paragraphs(chars@),
        invariant
            start <= n == chars@.len(),
        ensures
            text::texts(pieces@) == paragraphs(chars@),
        decreases n - start,
    {
        let mut end: usize = start;
        while end < n && !(end + 1 < n && chars[end] == '\n' && chars[end + 1] == '\n')
            invariant
                start <= end <= n == chars@.len(),
                forall|j: int|
                    start <= j < end && j + 1 < n ==> !(#[trigger] chars@[j] == '\n' && chars@[j + 1]
                        == '\n'),
            decreases n - end,
        {
            end += 1;
        }
        let ghost rest = chars@.skip(start as int);
        proof {
            assert forall|j: int| 0 <= j < end - start && j + 1 < rest.len() implies !(
            #[trigger] rest[j] == '\n' && rest[j + 1] == '\n') by {
                assert(rest[j] == chars@[start + j]);
                assert(rest[j + 1] == chars@[start + j + 1]);
            }
            lemma_first_break_is(rest, end - start);
            assert(rest.take(end - start) =~= chars@.subrange(start as int, end as int));
        }
        let piece = text_of(&chars, start, end);
        let ghost before = pieces@;
        pieces.push(piece);
        proof {
            text::lemma_texts_push(before, piece);
        }
        if end == n {
            proof {
                assert(rest =~= chars@.subrange(start as int, end as int));
                assert(text::texts(pieces@) =~= text::texts(before) + seq![rest]);
            }
            break;
        }
        proof {
            assert(rest.skip(end - start + 2) =~= chars@.skip(end + 2));
            assert(text::texts(pieces@) + paragraphs(chars@.skip(end + 2)) =~= text::texts(before)
                + (seq![piece@] + paragraphs(chars@.skip(end + 2))));
        }
        start = end + 2;
    }
    pieces
}

fn rejoin(paragraph: &str) -> (line: String)
    ensures
        line@ == rejoined(paragraph@),
{
    let lines = split_all(paragraph, '\n');
    let ghost all = text::texts(lines@);
    let mut kept: Vec<String> = Vec::new();
    let mut i: usize = 0;
    proof {
        assert(text::texts(kept@) =~= tidy(all.take(0)));
    }
    while i < lines.len()
        invariant
            i <= lines@.len(),
            all == text::texts(lines@),
            text::texts(kept@) == tidy(all.take(i as int)),
        decreases lines@.len() - i,
    {
        proof {
            assert(all.take(i + 1).drop_last() =~= all.take(i as int));
            assert(all.take(i + 1).last() == lines@[i as int]@);
        }
        let line = trim(lines[i].as_str());
        if !line.as_str().is_empty() {
            proof {
                text::lemma_texts_push(kept@, line);
            }
            kept.push(line);
        }
        i += 1;
    }
    proof {
        assert(all.take(i as int) =~= all);
    }
    join(&kept, " ")
}

/// Recognition emits hard line breaks at the captured image's edges, which turn a
/// single wrapped sentence into several. Rejoin those, but keep blank-line
/// paragraph breaks, so the translator sees whole sentences.
pub fn normalize(raw: &str) -> (result: String)
    ensures
        result@ == normalized(raw@),
{
    let pieces = split_paragraphs(raw);
    let ghost all = text::texts(pieces@);
    let mut kept: Vec<String> = Vec::new();
    let mut i: usize = 0;
    proof {
        assert(text::texts(kept@) =~= flowed(all.take(0)));
    }
    while i < pieces.len()
        invariant
            i <= pieces@.len(),
            all == text::texts(pieces@),
            text::texts(kept@) == flowed(all.take(i as int)),
        decreases pieces@.len() - i,
    {
        proof {
            assert(all.take(i + 1).drop_last() =~= all.take(i as int));
            assert(all.take(i + 1).last() == pieces@[i as int]@);
        }
        let line = rejoin(pieces[i].as_str());
        if !line.as_str().is_empty() {
            proof {
                text::lemma_texts_push(kept@, line);
            }
            kept.push(line);
        }
        i += 1;
    }
    proof {
        assert(all.take(i as int) =~= all);
    }
    join(&kept, "\n\n")
}

/// The packages that hold the data of languages.
pub open spec fn packages(langs: Seq<Seq<char>>) -> Seq<Seq<char>> {
    langs.map_values(|lang: Seq<char>| "tesseract-data-"@ + lang)
}

/// What to report when the recogniser does not start for the languages: what is
/// missing and how to get it.
pub fn not_started(langs: &str, cause: &str) -> (failure: Failure)
    ensures
        failure@ == command::because(
            "tesseract init failed for '"@ + langs@
                + "' - missing language data? install with: sudo pacman -S "@ + text::joined(
                packages(text::split(langs@, '+')),
                " "@,
            ),
            cause@,
        ),
{
    let pieces = split_all(langs, '+');
    let ghost all = packages(text::texts(pieces@));
    let mut names: Vec<String> = Vec::new();
    let mut i: usize = 0;
    proof {
        assert(text::texts(names@) =~= all.take(0));
    }
    while i < pieces.len()
        invariant
            i <= pieces@.len(),
            all == packages(text::texts(pieces@)),
            text::texts(names@) == all.take(i as int),
        decreases pieces@.len() - i,
    {
        let mut name = "tesseract-data-".to_owned();
        name.append(pieces[i].as_str());
        proof {
            assert(all[i as int] == name@);
            text::lemma_texts_push(names@, name);
            assert(all.take(i + 1) =~= all.take(i as int).push(name@));
        }
        names.push(name);
        i += 1;
    }
    proof {
        assert(all.take(i as int) =~= all);
    }
    let listed = join(&names, " ");
    let mut message = "tesseract init failed for '".to_owned();
    message.append(langs);
    message.append("' - missing language data? install with: sudo pacman -S ");
    message.append(listed.as_str());
    Failure::caused(message.as_str(), cause)
}

/// What the recogniser made of an image.
#[derive(Debug)]
pub enum Reading {
    /// The image could not be decoded, and why.
    NotDecoded(String),
    /// It gave no text, and why.
    NoText(String),
    Text(String),
}

/// The text to go on with, or what went wrong.
pub open spec fn reading_of(reading: Reading) -> Result<Seq<char>, Seq<char>> {
    match reading {
        Reading::NotDecoded(cause) => Err(
            command::because("leptonica could not decode the capture"@, cause@),
        ),
        Reading::NoText(cause) => Err(command::because("tesseract returned no text"@, cause@)),
        Reading::Text(text) => Ok(normalized(text@)),
    }
}

/// The text to go on with.
pub fn recognized(reading: Reading) -> (result: Result<String, Failure>)
    ensures
        match reading_of(reading) {
            Ok(text) => result matches Ok(line) && line@ == text,
            Err(message) => result matches Err(failure) && failure@ == message,
        },
{
    match reading {
        Reading::NotDecoded(cause) => Err(
            Failure::caused("leptonica could not decode the capture", cause.as_str()),
        ),
        Reading::NoText(cause) => Err(
            Failure::caused("tesseract returned no text", cause.as_str()),
        ),
        Reading::Text(text) => Ok(normalize(text.as_str())),
    }
}

/// A paragraph on one line: not empty, without white space around it and without
/// a line break.
pub open spec fn one_line(s: Seq<char>) -> bool {
    s.len() > 0 && text::bare(s) && !s.contains('\n')
}

pub open spec fn all_one_line(list: Seq<Seq<char>>) -> bool {
    forall|i: int| 0 <= i < list.len() ==> one_line(#[trigger] list[i])
}

proof fn lemma_split_has_no_separator(s: Seq<char>, c: char)
    ensures
        forall|i: int| 0 <= i < text::split(s, c).len() ==> !(#[trigger] text::split(s, c)[i]).contains(c),
    decreases s.len(),
{
    let f = text::first_index(s, c);
    text::lemma_first_index(s, c);
    let pieces = text::split(s, c);
    if f < s.len() {
        let rest = s.skip(f + 1);
        lemma_split_has_no_separator(rest, c);
        assert forall|i: int| 0 <= i < pieces.len() implies !(#[trigger] pieces[i]).contains(c) by {
            if i == 0 {
                assert(pieces[0] == s.take(f));
                assert forall|j: int| 0 <= j < f implies s.take(f)[j] != c by {}
            } else {
                assert(pieces[i] == text::split(rest, c)[i - 1]);
            }
        }
    } else {
        assert(pieces =~= seq![s]);
    }
}

proof fn lemma_tidy(list: Seq<Seq<char>>)
    requires
        forall|i: int| 0 <= i < list.len() ==> !(#[trigger] list[i]).contains('\n'),
    ensures
        all_one_line(tidy(list)),
    decreases list.len(),
{
    if list.len() > 0 {
        let before = list.drop_last();
        assert forall|i: int| 0 <= i < before.len() implies !(#[trigger] before[i]).contains('\n') by {
            assert(before[i] == list[i]);
        }
        lemma_tidy(before);
        let last = list.last();
        assert(!list[list.len() - 1].contains('\n'));
        text::lemma_trimmed_is_bare(last);
        let cut = text::trimmed(last);
        if cut.contains('\n') {
            let j = choose|j: int| 0 <= j < cut.len() && cut[j] == '\n';
            assert(last.contains(cut[j]));
        }
    }
}

/// Lines joined by a space make one line.
proof fn lemma_joined_is_one_line(list: Seq<Seq<char>>)
    requires
        all_one_line(list),
        list.len() > 0,
    ensures
        one_line(text::joined(list, " "@)),
        text::joined(list, " "@)[0] == list[0][0],
        text::joined(list, " "@).last() == list.last().last(),
    decreases list.len(),
{
    reveal_strlit(" ");
    if list.len() > 1 {
        let before = list.drop_last();
        assert forall|i: int| 0 <= i < before.len() implies one_line(#[trigger] before[i]) by {
            assert(before[i] == list[i]);
        }
        lemma_joined_is_one_line(before);
        let head = text::joined(before, " "@);
        let last = list.last();
        assert(one_line(list[list.len() - 1]));
        let whole = head + " "@ + last;
        assert forall|j: int| 0 <= j < whole.len() implies whole[j] != '\n' by {
            if j < head.len() {
                assert(whole[j] == head[j]);
            } else if j > head.len() {
                assert(whole[j] == last[j - head.len() - 1]);
            }
        }
        assert(one_line(list[0]));
        assert(whole.last() == last.last());
        assert(whole[0] == head[0]);
    } else {
        assert(one_line(list[0]));
    }
}

proof fn lemma_flowed(list: Seq<Seq<char>>)
    ensures
        all_one_line(flowed(list)),
    decreases list.len(),
{
    if list.len() > 0 {
        lemma_flowed(list.drop_last());
        let pieces = text::split(list.last(), '\n');
        lemma_split_has_no_separator(list.last(), '\n');
        lemma_tidy(pieces);
        if tidy(pieces).len() > 0 {
            lemma_joined_is_one_line(tidy(pieces));
        }
    }
}

/// Joining from the front: the first part, the separator, and the rest.
proof fn lemma_joined_front(parts: Seq<Seq<char>>, separator: Seq<char>)
    requires
        parts.len() > 1,
    ensures
        text::joined(parts, separator) == parts[0] + separator + text::joined(
            parts.drop_first(),
            separator,
        ),
    decreases parts.len(),
{
    if parts.len() == 2 {
        reveal_with_fuel(text::joined, 2);
        assert(parts.drop_last() =~= seq![parts[0]]);
        assert(parts.drop_first() =~= seq![parts[1]]);
    } else {
        let before = parts.drop_last();
        lemma_joined_front(before, separator);
        assert(before.drop_first() =~= parts.drop_first().drop_last());
        assert(parts.drop_first().last() == parts.last());
        assert(text::joined(parts, separator) =~= parts[0] + separator + text::joined(
            parts.drop_first(),
            separator,
        ));
    }
}

/// Splitting undoes joining: paragraphs without line breaks come back.
proof fn lemma_paragraphs_of_joined(list: Seq<Seq<char>>)
    requires
        all_one_line(list),
        list.len() > 0,
    ensures
        paragraphs(text::joined(list, "\n\n"@)) == list,
    decreases list.len(),
{
    reveal_strlit("\n\n");
    let whole = text::joined(list, "\n\n"@);
    let first = list[0];
    assert(one_line(first));
    assert forall|j: int| 0 <= j < first.len() implies first[j] != '\n' by {}
    if list.len() == 1 {
        lemma_first_break_is(whole, whole.len() as int);
        assert(paragraphs(whole) =~= list);
    } else {
        let rest = list.drop_first();
        assert forall|i: int| 0 <= i < rest.len() implies one_line(#[trigger] rest[i]) by {
            assert(rest[i] == list[i + 1]);
        }
        lemma_joined_front(list, "\n\n"@);
        lemma_paragraphs_of_joined(rest);
        let n = first.len() as int;
        assert forall|j: int| 0 <= j < n && j + 1 < whole.len() implies !(#[trigger] whole[j] == '\n'
            && whole[j + 1] == '\n') by {
            assert(whole[j] == first[j]);
        }
        assert(whole[n] == "\n\n"@[0] && whole[n + 1] == "\n\n"@[1]);
        lemma_first_break_is(whole, n);
        assert(whole.take(n) =~= first);
        assert(whole.skip(n + 2) =~= text::joined(rest, "\n\n"@));
        assert(paragraphs(whole) =~= list);
    }
}

/// A paragraph on one line stays as it is.
proof fn lemma_rejoined_keeps_one_line(s: Seq<char>)
    requires
        one_line(s),
    ensures
        rejoined(s) == s,
{
    assert forall|j: int| 0 <= j < s.len() implies s[j] != '\n' by {}
    text::lemma_first_index_is(s, '\n', s.len() as int);
    assert(text::split(s, '\n') =~= seq![s]);
    let pieces = seq![s];
    assert(pieces.drop_last() =~= Seq::<Seq<char>>::empty());
    assert(text::trimmed(s) == s);
    reveal_with_fuel(tidy, 2);
    assert(tidy(pieces) =~= seq![s]);
}

proof fn lemma_flowed_keeps_one_lines(list: Seq<Seq<char>>)
    requires
        all_one_line(list),
    ensures
        flowed(list) == list,
    decreases list.len(),
{
    if list.len() > 0 {
        let before = list.drop_last();
        assert forall|i: int| 0 <= i < before.len() implies one_line(#[trigger] before[i]) by {
            assert(before[i] == list[i]);
        }
        lemma_flowed_keeps_one_lines(before);
        assert(one_line(list[list.len() - 1]));
        lemma_rejoined_keeps_one_line(list.last());
        assert(flowed(list) =~= list);
    } else {
        assert(flowed(list) =~= list);
    }
}

/// Every paragraph of a normalised text is on one line, without white space
/// around it, and blank lines separate the paragraphs: what was wrapped is whole
/// again.
pub proof fn law_every_paragraph_is_on_one_line(raw: Seq<char>)
    ensures
        exists|list: Seq<Seq<char>>|
            all_one_line(list) && normalized(raw) == #[trigger] text::joined(list, "\n\n"@),
{
    let list = flowed(paragraphs(raw));
    lemma_flowed(paragraphs(raw));
    assert(normalized(raw) == text::joined(list, "\n\n"@));
}

/// Normalising twice is normalising once.
pub proof fn law_normalizing_twice_is_normalizing_once(raw: Seq<char>)
    ensures
        normalized(normalized(raw)) == normalized(raw),
{
    let list = flowed(paragraphs(raw));
    lemma_flowed(paragraphs(raw));
    if list.len() > 0 {
        lemma_paragraphs_of_joined(list);
        lemma_flowed_keeps_one_lines(list);
    } else {
        let none = Seq::<char>::empty();
        assert(text::joined(list, "\n\n"@) =~= none);
        assert(paragraphs(none) =~= seq![none]);
        let one = seq![none];
        assert(one.drop_last() =~= Seq::<Seq<char>>::empty());
        text::lemma_first_index_is(none, '\n', 0);
        assert(text::split(none, '\n') =~= one);
        reveal_with_fuel(tidy, 2);
        reveal_with_fuel(flowed, 2);
        assert(text::trimmed(none) =~= none);
        assert(tidy(one) =~= Seq::<Seq<char>>::empty());
        assert(flowed(one) =~= Seq::<Seq<char>>::empty());
        assert(normalized(none) =~= none);
    }
}

proof fn lemma_words_of_tidy(list: Seq<Seq<char>>)
    ensures
        text::all_words(tidy(list)) == text::all_words(list),
    decreases list.len(),
{
    if list.len() > 0 {
        let rest = tidy(list.drop_last());
        let last = text::trimmed(list.last());
        lemma_words_of_tidy(list.drop_last());
        text::lemma_words_of_trimmed(list.last());
        if last.len() > 0 {
            assert(rest.push(last).drop_last() =~= rest);
        } else {
            assert(text::all_words(list) =~= text::all_words(rest));
        }
    }
}

proof fn lemma_words_of_rejoined(paragraph: Seq<char>)
    ensures
        text::words(rejoined(paragraph)) == text::words(paragraph),
{
    reveal_strlit(" ");
    let lines = text::split(paragraph, '\n');
    text::lemma_words_of_joined(tidy(lines), " "@);
    lemma_words_of_tidy(lines);
    text::lemma_words_of_split(paragraph, '\n');
}

proof fn lemma_words_of_flowed(list: Seq<Seq<char>>)
    ensures
        text::all_words(flowed(list)) == text::all_words(list),
    decreases list.len(),
{
    if list.len() > 0 {
        let rest = flowed(list.drop_last());
        let last = rejoined(list.last());
        lemma_words_of_flowed(list.drop_last());
        lemma_words_of_rejoined(list.last());
        if last.len() > 0 {
            assert(rest.push(last).drop_last() =~= rest);
        } else {
            assert(text::all_words(list) =~= text::all_words(rest));
        }
    }
}

proof fn lemma_words_of_paragraphs(s: Seq<char>)
    ensures
        text::all_words(paragraphs(s)) == text::words(s),
    decreases s.len(),
{
    let i = first_break(s);
    lemma_first_break(s);
    if i + 1 < s.len() {
        let first = s.take(i);
        let rest = s.skip(i + 2);
        lemma_words_of_paragraphs(rest);
        text::lemma_all_words_front(first, paragraphs(rest));
        let none = Seq::<char>::empty();
        text::lemma_words_apart(first, '\n', s.skip(i + 1));
        text::lemma_words_apart(none, '\n', rest);
        assert(first + seq!['\n'] + s.skip(i + 1) =~= s);
        assert(none + seq!['\n'] + rest =~= s.skip(i + 1));
        assert(text::words(none) + text::words(rest) =~= text::words(rest));
    } else {
        let none = Seq::<Seq<char>>::empty();
        text::lemma_all_words_front(s, none);
        assert(seq![s] + none =~= seq![s]);
        assert(text::words(s) + text::all_words(none) =~= text::words(s));
    }
}

/// Normalising loses, adds and reorders no text: the words are the same, in the
/// same order. Only white space comes to nothing.
pub proof fn law_normalizing_keeps_every_word(raw: Seq<char>)
    ensures
        text::words(normalized(raw)) == text::words(raw),
        normalized(raw).len() == 0 <==> forall|i: int|
            0 <= i < raw.len() ==> text::space(#[trigger] raw[i]),
{
    reveal_strlit("\n\n");
    let list = flowed(paragraphs(raw));
    text::lemma_words_of_joined(list, "\n\n"@);
    lemma_words_of_flowed(paragraphs(raw));
    lemma_words_of_paragraphs(raw);
    text::lemma_no_words(raw);
    text::lemma_no_words(normalized(raw));
    lemma_flowed(paragraphs(raw));
    if list.len() > 0 && text::words(raw).len() == 0 {
        text::lemma_all_words_front(list[0], list.drop_first());
        assert(seq![list[0]] + list.drop_first() =~= list);
        assert(one_line(list[0]));
        text::lemma_no_words(list[0]);
        assert(text::space(list[0][0]));
    }
}

/// Splitting at a character splits what stands before and behind any one of them.
proof fn lemma_split_apart(a: Seq<char>, c: char, b: Seq<char>)
    ensures
        text::split(a + seq![c] + b, c) == text::split(a, c) + text::split(b, c),
    decreases a.len(),
{
    let whole = a + seq![c] + b;
    let f = text::first_index(a, c);
    text::lemma_first_index(a, c);
    assert forall|j: int| 0 <= j < f implies whole[j] != c by {
        assert(whole[j] == a[j]);
    }
    if f < a.len() {
        assert(whole[f] == a[f]);
        text::lemma_first_index_is(whole, c, f);
        let rest = a.skip(f + 1);
        lemma_split_apart(rest, c, b);
        assert(whole.take(f) =~= a.take(f));
        assert(whole.skip(f + 1) =~= rest + seq![c] + b);
        assert(text::split(whole, c) =~= text::split(a, c) + text::split(b, c));
    } else {
        assert(whole[f] == c);
        text::lemma_first_index_is(whole, c, f);
        assert(whole.take(f) =~= a);
        assert(whole.skip(f + 1) =~= b);
        assert(text::split(whole, c) =~= text::split(a, c) + text::split(b, c));
    }
}

proof fn lemma_tidy_apart(a: Seq<Seq<char>>, b: Seq<Seq<char>>)
    ensures
        tidy(a + b) == tidy(a) + tidy(b),
    decreases b.len(),
{
    let whole = a + b;
    if b.len() == 0 {
        assert(whole =~= a);
        assert(tidy(a) + tidy(b) =~= tidy(a));
    } else {
        lemma_tidy_apart(a, b.drop_last());
        assert(whole.drop_last() =~= a + b.drop_last());
        assert(whole.last() == b.last());
        assert(tidy(whole) =~= tidy(a) + tidy(b));
    }
}

proof fn lemma_flowed_apart(a: Seq<Seq<char>>, b: Seq<Seq<char>>)
    ensures
        flowed(a + b) == flowed(a) + flowed(b),
    decreases b.len(),
{
    let whole = a + b;
    if b.len() == 0 {
        assert(whole =~= a);
        assert(flowed(a) + flowed(b) =~= flowed(a));
    } else {
        lemma_flowed_apart(a, b.drop_last());
        assert(whole.drop_last() =~= a + b.drop_last());
        assert(whole.last() == b.last());
        assert(flowed(whole) =~= flowed(a) + flowed(b));
    }
}

/// Joining lists of which either may be empty.
proof fn lemma_joined_apart(a: Seq<Seq<char>>, b: Seq<Seq<char>>, separator: Seq<char>)
    ensures
        text::joined(a + b, separator) == if a.len() == 0 {
            text::joined(b, separator)
        } else if b.len() == 0 {
            text::joined(a, separator)
        } else {
            text::joined(a, separator) + separator + text::joined(b, separator)
        },
{
    if a.len() == 0 {
        assert(a + b =~= b);
    } else if b.len() == 0 {
        assert(a + b =~= a);
    } else {
        text::law_joining_puts_separators_between(a, b, a[0], separator);
    }
}

/// A blank line parts paragraphs: what stands before it and behind it is split by
/// itself. Before it there is no line break at the end.
proof fn lemma_paragraphs_apart(a: Seq<char>, b: Seq<char>)
    requires
        a.len() == 0 || a.last() != '\n',
    ensures
        paragraphs(a + seq!['\n', '\n'] + b) == paragraphs(a) + paragraphs(b),
    decreases a.len(),
{
    let whole = a + seq!['\n', '\n'] + b;
    let i = first_break(a);
    lemma_first_break(a);
    if i + 1 < a.len() {
        assert forall|j: int| 0 <= j < i && j + 1 < whole.len() implies !(#[trigger] whole[j]
            == '\n' && whole[j + 1] == '\n') by {
            assert(whole[j] == a[j] && whole[j + 1] == a[j + 1]);
        }
        assert(whole[i] == a[i] && whole[i + 1] == a[i + 1]);
        lemma_first_break_is(whole, i);
        let rest = a.skip(i + 2);
        if rest.len() > 0 {
            assert(rest.last() == a.last());
        }
        lemma_paragraphs_apart(rest, b);
        assert(whole.take(i) =~= a.take(i));
        assert(whole.skip(i + 2) =~= rest + seq!['\n', '\n'] + b);
        assert(paragraphs(whole) =~= paragraphs(a) + paragraphs(b));
    } else {
        let n = a.len() as int;
        assert forall|j: int| 0 <= j < n && j + 1 < whole.len() implies !(#[trigger] whole[j]
            == '\n' && whole[j + 1] == '\n') by {
            assert(whole[j] == a[j]);
            if j + 1 < n {
                assert(whole[j + 1] == a[j + 1]);
                assert(!(a[j] == '\n' && a[j + 1] == '\n'));
            }
        }
        assert(whole[n] == '\n' && whole[n + 1] == '\n');
        lemma_first_break_is(whole, n);
        assert(whole.take(n) =~= a);
        assert(whole.skip(n + 2) =~= b);
        assert(paragraphs(whole) =~= paragraphs(a) + paragraphs(b));
    }
}

/// A blank line keeps paragraphs apart: what stands before and behind it is
/// normalised by itself, with one blank line between when neither comes to nothing.
pub proof fn law_a_blank_line_keeps_paragraphs_apart(a: Seq<char>, b: Seq<char>)
    requires
        a.len() == 0 || a.last() != '\n',
    ensures
        normalized(a).len() > 0 && normalized(b).len() > 0 ==> normalized(
            a + seq!['\n', '\n'] + b,
        ) == normalized(a) + seq!['\n', '\n'] + normalized(b),
        normalized(a).len() == 0 ==> normalized(a + seq!['\n', '\n'] + b) == normalized(b),
        normalized(b).len() == 0 ==> normalized(a + seq!['\n', '\n'] + b) == normalized(a),
{
    reveal_strlit("\n\n");
    assert("\n\n"@ =~= seq!['\n', '\n']);
    lemma_paragraphs_apart(a, b);
    let first = flowed(paragraphs(a));
    let second = flowed(paragraphs(b));
    lemma_flowed_apart(paragraphs(a), paragraphs(b));
    lemma_joined_apart(first, second, "\n\n"@);
    lemma_empty_when_joined_is(paragraphs(a));
    lemma_empty_when_joined_is(paragraphs(b));
}

/// Only no paragraphs at all make no text.
proof fn lemma_empty_when_joined_is(list: Seq<Seq<char>>)
    ensures
        text::joined(flowed(list), "\n\n"@).len() == 0 <==> flowed(list).len() == 0,
{
    let parts = flowed(list);
    lemma_flowed(list);
    reveal_strlit("\n\n");
    if parts.len() == 1 {
        assert(one_line(parts[0]));
    }
}

/// A single line break only wraps: the lines are joined with one space, without the
/// white space around each, and blank ones are left out.
pub proof fn law_a_wrapped_line_is_made_whole(a: Seq<char>, b: Seq<char>)
    ensures
        rejoined(a).len() > 0 && rejoined(b).len() > 0 ==> rejoined(a + seq!['\n'] + b) == rejoined(
            a,
        ) + seq![' '] + rejoined(b),
        rejoined(a).len() == 0 ==> rejoined(a + seq!['\n'] + b) == rejoined(b),
        rejoined(b).len() == 0 ==> rejoined(a + seq!['\n'] + b) == rejoined(a),
        !a.contains('\n') ==> rejoined(a) == text::trimmed(a),
        (forall|j: int|
            0 <= j && j + 1 < a.len() ==> !(#[trigger] a[j] == '\n' && a[j + 1] == '\n'))
            ==> normalized(a) == rejoined(a),
{
    reveal_strlit(" ");
    assert(" "@ =~= seq![' ']);
    let first = text::split(a, '\n');
    let second = text::split(b, '\n');
    lemma_split_apart(a, '\n', b);
    lemma_tidy_apart(first, second);
    lemma_joined_apart(tidy(first), tidy(second), " "@);
    lemma_empty_when_rejoined_is(a);
    lemma_empty_when_rejoined_is(b);
    if !a.contains('\n') {
        assert forall|j: int| 0 <= j < a.len() implies a[j] != '\n' by {
            assert(a.contains(a[j]));
        }
        text::lemma_first_index_is(a, '\n', a.len() as int);
        let one = seq![a];
        assert(first =~= one);
        assert(one.drop_last() =~= Seq::<Seq<char>>::empty());
        reveal_with_fuel(tidy, 2);
        assert(tidy(one) =~= if text::trimmed(a).len() > 0 {
            seq![text::trimmed(a)]
        } else {
            Seq::<Seq<char>>::empty()
        });
        if text::trimmed(a).len() == 0 {
            assert(rejoined(a) =~= text::trimmed(a));
        }
    }
    if forall|j: int|
        0 <= j && j + 1 < a.len() ==> !(#[trigger] a[j] == '\n' && a[j + 1] == '\n') {
        lemma_first_break_is(a, a.len() as int);
        let one = seq![a];
        assert(paragraphs(a) =~= one);
        assert(one.drop_last() =~= Seq::<Seq<char>>::empty());
        reveal_with_fuel(flowed, 2);
        if rejoined(a).len() > 0 {
            assert(flowed(one) =~= seq![rejoined(a)]);
        } else {
            assert(flowed(one) =~= Seq::<Seq<char>>::empty());
            assert(normalized(a) =~= rejoined(a));
        }
    }
}

/// Only no lines at all make no line.
proof fn lemma_empty_when_rejoined_is(paragraph: Seq<char>)
    ensures
        rejoined(paragraph).len() == 0 <==> tidy(text::split(paragraph, '\n')).len() == 0,
{
    let lines = text::split(paragraph, '\n');
    lemma_split_has_no_separator(paragraph, '\n');
    lemma_tidy(lines);
    if tidy(lines).len() > 0 {
        lemma_joined_is_one_line(tidy(lines));
    }
}

/// The text is what was recognised, normalised; what went wrong is said at the end.
/// Every language is a package of its own.
pub proof fn law_a_reading_is_normalised(text: String, cause: String, langs: Seq<Seq<char>>, i: int)
    ensures
        reading_of(Reading::Text(text)) == Ok::<Seq<char>, Seq<char>>(normalized(text@)),
        reading_of(Reading::NotDecoded(cause)) matches Err(message) && text::ends_with(
            message,
            cause@,
        ),
        reading_of(Reading::NoText(cause)) matches Err(message) && text::ends_with(message, cause@),
        packages(langs).len() == langs.len(),
        0 <= i < langs.len() ==> packages(langs)[i] == "tesseract-data-"@ + langs[i],
{
    text::lemma_ends_with("leptonica could not decode the capture"@ + ": "@, cause@);
    text::lemma_ends_with("tesseract returned no text"@ + ": "@, cause@);
}

} // verus!
