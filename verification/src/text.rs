//! Text handling shared by every module: trimming, splitting, joining and
//! decimal numbers, each stated over the characters of the text.
use vstd::prelude::*;

verus! {

/// `String::push` appends one character.
pub assume_specification[ String::push ](buffer: &mut String, c: char)
    ensures
        final(buffer)@ == old(buffer)@.push(c),
;

/// `String::pop` removes the last character and returns it; an empty text is
/// left alone and gives `None`.
pub assume_specification[ String::pop ](buffer: &mut String) -> (last: Option<char>)
    ensures
        old(buffer)@.len() == 0 ==> last is None && final(buffer)@ == old(buffer)@,
        old(buffer)@.len() > 0 ==> last == Some(old(buffer)@.last()) && final(buffer)@
            == old(buffer)@.drop_last(),
;

/// The characters with Unicode's `White_Space` property.
pub open spec fn space(c: char) -> bool {
    let u = c as u32;
    ||| 0x09 <= u <= 0x0d
    ||| u == 0x20
    ||| u == 0x85
    ||| u == 0xa0
    ||| u == 0x1680
    ||| 0x2000 <= u <= 0x200a
    ||| u == 0x2028
    ||| u == 0x2029
    ||| u == 0x202f
    ||| u == 0x205f
    ||| u == 0x3000
}

/// Whether a character is white space.
pub fn is_space(c: char) -> (result: bool)
    ensures
        result == space(c),
{
    let u: u32 = c as u32;
    (0x09 <= u && u <= 0x0d) || u == 0x20 || u == 0x85 || u == 0xa0 || u == 0x1680 || (0x2000 <= u
        && u <= 0x200a) || u == 0x2028 || u == 0x2029 || u == 0x202f || u == 0x205f || u == 0x3000
}

/// The characters of a list of texts.
pub open spec fn texts(list: Seq<String>) -> Seq<Seq<char>> {
    list.map_values(|text: String| text@)
}

/// The text without its leading white space.
pub open spec fn trimmed_start(s: Seq<char>) -> Seq<char>
    decreases s.len(),
{
    if s.len() > 0 && space(s[0]) {
        trimmed_start(s.drop_first())
    } else {
        s
    }
}

/// The text without its trailing white space.
pub open spec fn trimmed_end(s: Seq<char>) -> Seq<char>
    decreases s.len(),
{
    if s.len() > 0 && space(s.last()) {
        trimmed_end(s.drop_last())
    } else {
        s
    }
}

/// The text without white space at either end.
pub open spec fn trimmed(s: Seq<char>) -> Seq<char> {
    trimmed_end(trimmed_start(s))
}

/// Where `c` first occurs; the length of the text when it does not.
pub open spec fn first_index(s: Seq<char>, c: char) -> int
    decreases s.len(),
{
    if s.len() == 0 || s[0] == c {
        0
    } else {
        1 + first_index(s.drop_first(), c)
    }
}

/// The pieces between the occurrences of `c`, in order. There is always at
/// least one.
pub open spec fn split(s: Seq<char>, c: char) -> Seq<Seq<char>>
    decreases s.len(),
{
    let i = first_index(s, c);
    if 0 <= i < s.len() {
        seq![s.take(i)] + split(s.skip(i + 1), c)
    } else {
        seq![s]
    }
}

/// The length of the leading run without white space.
pub open spec fn word_length(s: Seq<char>) -> int
    decreases s.len(),
{
    if s.len() == 0 || space(s[0]) {
        0
    } else {
        1 + word_length(s.drop_first())
    }
}

/// The runs of characters between white space, in order; none is empty.
pub open spec fn words(s: Seq<char>) -> Seq<Seq<char>>
    decreases s.len(),
{
    if s.len() == 0 {
        Seq::empty()
    } else if space(s[0]) {
        words(s.drop_first())
    } else {
        let n = word_length(s);
        if 0 < n <= s.len() {
            seq![s.take(n)] + words(s.skip(n))
        } else {
            Seq::empty()
        }
    }
}

/// The parts, in order, with `separator` between neighbours.
pub open spec fn joined(parts: Seq<Seq<char>>, separator: Seq<char>) -> Seq<char>
    decreases parts.len(),
{
    if parts.len() == 0 {
        Seq::empty()
    } else if parts.len() == 1 {
        parts[0]
    } else {
        joined(parts.drop_last(), separator) + separator + parts.last()
    }
}

pub open spec fn ascii_digit(c: char) -> bool {
    '0' <= c <= '9'
}

/// The number a run of decimal digits stands for.
pub open spec fn digits_value(s: Seq<char>) -> int
    decreases s.len(),
{
    if s.len() == 0 {
        0
    } else {
        digits_value(s.drop_last()) * 10 + (s.last() as int - '0' as int)
    }
}

pub open spec fn all_digits(s: Seq<char>) -> bool {
    forall|i: int| 0 <= i < s.len() ==> ascii_digit(#[trigger] s[i])
}

/// What `s` says as a decimal number: digits behind at most one sign.
pub open spec fn decimal_value(s: Seq<char>) -> Option<int> {
    if s.len() == 0 {
        None
    } else if s[0] == '-' || s[0] == '+' {
        let rest = s.skip(1);
        if rest.len() == 0 || !all_digits(rest) {
            None
        } else if s[0] == '-' {
            Some(-digits_value(rest))
        } else {
            Some(digits_value(rest))
        }
    } else if all_digits(s) {
        Some(digits_value(s))
    } else {
        None
    }
}

/// Whether `s` is a decimal number that a 32-bit signed integer can hold.
pub open spec fn is_i32(s: Seq<char>) -> bool {
    decimal_value(s) matches Some(v) && i32::MIN <= v <= i32::MAX
}

/// Why a text is not a 32-bit decimal number, in words.
pub uninterp spec fn i32_complaint(s: Seq<char>) -> Seq<char>;

/// Calls `str::parse::<i32>` on a text that is no such number, and `to_string` on
/// the error. What the error says depends on the text alone; it is not stated
/// what that is.
#[verifier::external_body]
pub(crate) fn complain_of_i32(text: &str) -> (complaint: String)
    requires
        !is_i32(text@),
    ensures
        complaint@ == i32_complaint(text@),
{
    text.parse::<i32>().err().map(|error| error.to_string()).unwrap_or_default()
}

/// The decimal digits of a natural number, without leading zeros.
pub open spec fn natural_digits(n: nat) -> Seq<char>
    decreases n,
{
    if n < 10 {
        seq![('0' as u8 + n) as char]
    } else {
        natural_digits(n / 10).push(('0' as u8 + n % 10) as char)
    }
}

/// A whole number in decimal, with a minus sign when it is negative.
pub open spec fn decimal(n: int) -> Seq<char> {
    if n < 0 {
        seq!['-'] + natural_digits((-n) as nat)
    } else {
        natural_digits(n as nat)
    }
}

/// The characters of a text.
pub fn chars_of(text: &str) -> (chars: Vec<char>)
    ensures
        chars@ == text@,
{
    let mut chars: Vec<char> = Vec::new();
    for c in it: text.chars()
        invariant
            chars@ == it.seq().take(it.index() as int),
            it.seq() == text@,
    {
        chars.push(c);
    }
    chars
}

/// The text made of `chars[from..to]`.
pub fn text_of(chars: &Vec<char>, from: usize, to: usize) -> (text: String)
    requires
        from <= to <= chars@.len(),
    ensures
        text@ == chars@.subrange(from as int, to as int),
{
    let mut text = String::new();
    let mut i: usize = from;
    while i < to
        invariant
            from <= i <= to <= chars@.len(),
            text@ == chars@.subrange(from as int, i as int),
        decreases to - i,
    {
        text.push(chars[i]);
        i += 1;
    }
    text
}

/// `==` on string slices holds when the characters are the same.
pub assume_specification[ <str as PartialEq>::eq ](a: &str, b: &str) -> (result: bool)
    ensures
        result == (a@ == b@),
;

/// Whether two texts are the same.
pub fn same(a: &str, b: &str) -> (result: bool)
    ensures
        result == (a@ == b@),
{
    a.eq(b)
}

pub proof fn lemma_first_index(s: Seq<char>, c: char)
    ensures
        0 <= first_index(s, c) <= s.len(),
        first_index(s, c) < s.len() ==> s[first_index(s, c)] == c,
        forall|j: int| 0 <= j < first_index(s, c) ==> s[j] != c,
    decreases s.len(),
{
    if s.len() > 0 && s[0] != c {
        lemma_first_index(s.drop_first(), c);
        assert forall|j: int| 0 <= j < first_index(s, c) implies s[j] != c by {
            if j > 0 {
                assert(s[j] == s.drop_first()[j - 1]);
            }
        }
    }
}

/// The first index is the only one with `c` at it and no `c` before it.
pub proof fn lemma_first_index_is(s: Seq<char>, c: char, i: int)
    requires
        0 <= i <= s.len(),
        i < s.len() ==> s[i] == c,
        forall|j: int| 0 <= j < i ==> s[j] != c,
    ensures
        first_index(s, c) == i,
{
    lemma_first_index(s, c);
    let f = first_index(s, c);
    if f < i {
        assert(s[f] != c);
    }
    if i < f {
        assert(s[i] != c);
    }
}

proof fn lemma_word_length_is(s: Seq<char>, n: int)
    requires
        0 <= n <= s.len(),
        n < s.len() ==> space(s[n]),
        forall|j: int| 0 <= j < n ==> !space(#[trigger] s[j]),
    ensures
        word_length(s) == n,
    decreases s.len(),
{
    if s.len() > 0 && !space(s[0]) {
        assert(n > 0);
        let rest = s.drop_first();
        assert forall|j: int| 0 <= j < n - 1 implies !space(#[trigger] rest[j]) by {
            assert(rest[j] == s[j + 1]);
        }
        lemma_word_length_is(rest, n - 1);
    } else if s.len() > 0 {
        assert(n == 0);
    }
}

/// Trimming the start drops exactly a leading run of white space.
pub proof fn lemma_trimmed_start_is(s: Seq<char>, i: int)
    requires
        0 <= i <= s.len(),
        i < s.len() ==> !space(s[i]),
        forall|j: int| 0 <= j < i ==> space(#[trigger] s[j]),
    ensures
        trimmed_start(s) == s.skip(i),
    decreases s.len(),
{
    if i == 0 {
        assert(s.skip(0) =~= s);
    } else {
        let rest = s.drop_first();
        assert(space(s[0]));
        assert forall|j: int| 0 <= j < i - 1 implies space(#[trigger] rest[j]) by {
            assert(rest[j] == s[j + 1]);
        }
        lemma_trimmed_start_is(rest, i - 1);
        assert(rest.skip(i - 1) =~= s.skip(i));
    }
}

/// Trimming the end drops exactly a trailing run of white space.
pub proof fn lemma_trimmed_end_is(s: Seq<char>, n: int)
    requires
        0 <= n <= s.len(),
        n > 0 ==> !space(s[n - 1]),
        forall|j: int| n <= j < s.len() ==> space(#[trigger] s[j]),
    ensures
        trimmed_end(s) == s.take(n),
    decreases s.len(),
{
    if n == s.len() {
        assert(s.take(n) =~= s);
    } else {
        let rest = s.drop_last();
        assert(space(s[s.len() - 1]));
        assert forall|j: int| n <= j < rest.len() implies space(#[trigger] rest[j]) by {
            assert(rest[j] == s[j]);
        }
        lemma_trimmed_end_is(rest, n);
        assert(rest.take(n) =~= s.take(n));
    }
}

/// Nothing to trim at either end.
pub open spec fn bare(s: Seq<char>) -> bool {
    s.len() > 0 ==> !space(s[0]) && !space(s.last())
}

proof fn lemma_trimmed_start_begins(s: Seq<char>)
    ensures
        trimmed_start(s).len() > 0 ==> !space(trimmed_start(s)[0]),
        trimmed_start(s).len() <= s.len(),
        forall|j: int|
            0 <= j < trimmed_start(s).len() ==> #[trigger] trimmed_start(s)[j] == s[s.len()
                - trimmed_start(s).len() + j],
    decreases s.len(),
{
    if s.len() > 0 && space(s[0]) {
        lemma_trimmed_start_begins(s.drop_first());
    }
}

pub proof fn lemma_trimmed_end_ends(s: Seq<char>)
    ensures
        trimmed_end(s).len() > 0 ==> !space(trimmed_end(s).last()),
        trimmed_end(s).len() <= s.len(),
        forall|j: int| 0 <= j < trimmed_end(s).len() ==> #[trigger] trimmed_end(s)[j] == s[j],
    decreases s.len(),
{
    if s.len() > 0 && space(s.last()) {
        lemma_trimmed_end_ends(s.drop_last());
    }
}

/// What trimming leaves has nothing to trim, and every character of it comes
/// from the text.
pub proof fn lemma_trimmed_is_bare(s: Seq<char>)
    ensures
        bare(trimmed(s)),
        trimmed(s).len() <= s.len(),
        forall|j: int| 0 <= j < trimmed(s).len() ==> s.contains(#[trigger] trimmed(s)[j]),
{
    let t = trimmed_start(s);
    lemma_trimmed_start_begins(s);
    lemma_trimmed_end_ends(t);
    assert forall|j: int| 0 <= j < trimmed(s).len() implies s.contains(#[trigger] trimmed(s)[j]) by {
        assert(trimmed(s)[j] == t[j]);
        assert(t[j] == s[s.len() - t.len() + j]);
    }
}

/// Trimming twice is trimming once.
pub proof fn law_trimming_twice_is_trimming_once(s: Seq<char>)
    ensures
        trimmed(trimmed(s)) == trimmed(s),
{
    lemma_trimmed_is_bare(s);
}

/// The bounds of the part of `chars[from..to]` without white space at its ends.
fn trim_bounds(chars: &Vec<char>, from: usize, to: usize) -> (bounds: (usize, usize))
    requires
        from <= to <= chars@.len(),
    ensures
        from <= bounds.0 <= bounds.1 <= to,
        trimmed(chars@.subrange(from as int, to as int)) == chars@.subrange(
            bounds.0 as int,
            bounds.1 as int,
        ),
{
    let ghost s = chars@.subrange(from as int, to as int);
    let mut lo: usize = from;
    while lo < to && is_space(chars[lo])
        invariant
            from <= lo <= to <= chars@.len(),
            forall|j: int| from <= j < lo ==> space(#[trigger] chars@[j]),
        decreases to - lo,
    {
        lo += 1;
    }
    let mut hi: usize = to;
    while hi > lo && is_space(chars[hi - 1])
        invariant
            lo <= hi <= to <= chars@.len(),
            forall|j: int| hi <= j < to ==> space(#[trigger] chars@[j]),
        decreases hi - lo,
    {
        hi -= 1;
    }
    proof {
        lemma_trimmed_start_is(s, lo - from);
        let t = s.skip(lo - from);
        assert(t =~= chars@.subrange(lo as int, to as int));
        lemma_trimmed_end_is(t, hi - lo);
        assert(t.take(hi - lo) =~= chars@.subrange(lo as int, hi as int));
    }
    (lo, hi)
}

/// The text without white space at either end.
pub fn trim(text: &str) -> (result: String)
    ensures
        result@ == trimmed(text@),
{
    let chars = chars_of(text);
    let (lo, hi) = trim_bounds(&chars, 0, chars.len());
    proof {
        assert(chars@.subrange(0, chars@.len() as int) =~= text@);
    }
    text_of(&chars, lo, hi)
}

/// The text without its trailing white space.
pub fn trim_end(text: &str) -> (result: String)
    ensures
        result@ == trimmed_end(text@),
{
    let chars = chars_of(text);
    let mut hi: usize = chars.len();
    while hi > 0 && is_space(chars[hi - 1])
        invariant
            hi <= chars@.len(),
            forall|j: int| hi <= j < chars@.len() ==> space(#[trigger] chars@[j]),
        decreases hi,
    {
        hi -= 1;
    }
    proof {
        lemma_trimmed_end_is(chars@, hi as int);
        assert(chars@.take(hi as int) =~= chars@.subrange(0, hi as int));
    }
    text_of(&chars, 0, hi)
}

/// What stands before and behind the first `c`; `None` when there is none.
pub open spec fn once_split(s: Seq<char>, c: char) -> Option<(Seq<char>, Seq<char>)> {
    let i = first_index(s, c);
    if 0 <= i < s.len() {
        Some((s.take(i), s.skip(i + 1)))
    } else {
        None
    }
}

/// Split a text at the first `c`.
pub fn split_once(text: &str, c: char) -> (result: Option<(String, String)>)
    ensures
        match result {
            Some((a, b)) => once_split(text@, c) == Some((a@, b@)),
            None => once_split(text@, c) is None,
        },
{
    let chars = chars_of(text);
    let n: usize = chars.len();
    let mut i: usize = 0;
    while i < n && chars[i] != c
        invariant
            i <= n == chars@.len(),
            forall|j: int| 0 <= j < i ==> chars@[j] != c,
        decreases n - i,
    {
        i += 1;
    }
    proof {
        lemma_first_index_is(chars@, c, i as int);
    }
    if i < n {
        proof {
            assert(chars@.take(i as int) =~= chars@.subrange(0, i as int));
            assert(chars@.skip(i + 1) =~= chars@.subrange(i + 1, n as int));
        }
        Some((text_of(&chars, 0, i), text_of(&chars, i + 1, n)))
    } else {
        None
    }
}

/// Appending a text to a list appends its characters to the list's texts.
pub proof fn lemma_texts_push(list: Seq<String>, text: String)
    ensures
        texts(list.push(text)) == texts(list).push(text@),
{
    assert(texts(list.push(text)) =~= texts(list).push(text@));
}

/// Split a text at every `c`.
pub fn split_all(text: &str, c: char) -> (pieces: Vec<String>)
    ensures
        texts(pieces@) == split(text@, c),
{
    let chars = chars_of(text);
    let n: usize = chars.len();
    let mut pieces: Vec<String> = Vec::new();
    let mut start: usize = 0;
    proof {
        assert(chars@.skip(0) =~= chars@);
        assert(texts(pieces@) + split(chars@, c) =~= split(chars@, c));
    }
    loop
        invariant_except_break
            texts(pieces@) + split(chars@.skip(start as int), c) == split(chars@, c),
        invariant
            start <= n == chars@.len(),
        ensures
            texts(pieces@) == split(chars@, c),
        decreases n - start,
    {
        let mut end: usize = start;
        while end < n && chars[end] != c
            invariant
                start <= end <= n == chars@.len(),
                forall|j: int| start <= j < end ==> chars@[j] != c,
            decreases n - end,
        {
            end += 1;
        }
        let ghost rest = chars@.skip(start as int);
        proof {
            assert forall|j: int| 0 <= j < end - start implies rest[j] != c by {
                assert(rest[j] == chars@[start + j]);
            }
            lemma_first_index_is(rest, c, end - start);
            assert(rest.take(end - start) =~= chars@.subrange(start as int, end as int));
        }
        let piece = text_of(&chars, start, end);
        let ghost before = pieces@;
        pieces.push(piece);
        proof {
            lemma_texts_push(before, piece);
        }
        if end == n {
            proof {
                assert(rest =~= chars@.subrange(start as int, end as int));
                assert(texts(pieces@) =~= texts(before) + seq![rest]);
            }
            break;
        }
        proof {
            assert(rest.skip(end - start + 1) =~= chars@.skip(end + 1));
            assert(texts(pieces@) + split(chars@.skip(end + 1), c) =~= texts(before) + (
            seq![piece@] + split(chars@.skip(end + 1), c)));
        }
        start = end + 1;
    }
    pieces
}

/// The words of a text: what white space separates.
pub fn split_words(text: &str) -> (result: Vec<String>)
    ensures
        texts(result@) == words(text@),
{
    let chars = chars_of(text);
    let n: usize = chars.len();
    let mut result: Vec<String> = Vec::new();
    let mut i: usize = 0;
    proof {
        assert(chars@.skip(0) =~= chars@);
        assert(texts(result@) + words(chars@) =~= words(chars@));
    }
    while i < n
        invariant
            i <= n == chars@.len(),
            texts(result@) + words(chars@.skip(i as int)) == words(chars@),
        decreases n - i,
    {
        let ghost rest = chars@.skip(i as int);
        proof {
            assert(rest[0] == chars@[i as int]);
        }
        if is_space(chars[i]) {
            proof {
                assert(rest.drop_first() =~= chars@.skip(i + 1));
            }
            i += 1;
        } else {
            let mut end: usize = i + 1;
            while end < n && !is_space(chars[end])
                invariant
                    i < end <= n == chars@.len(),
                    forall|j: int| i <= j < end ==> !space(#[trigger] chars@[j]),
                decreases n - end,
            {
                end += 1;
            }
            let word = text_of(&chars, i, end);
            let ghost before = result@;
            result.push(word);
            proof {
                assert forall|j: int| 0 <= j < end - i implies !space(#[trigger] rest[j]) by {
                    assert(rest[j] == chars@[i + j]);
                }
                if end < n {
                    assert(rest[end - i] == chars@[end as int]);
                }
                lemma_word_length_is(rest, end - i);
                assert(rest.take(end - i) =~= word@);
                assert(rest.skip(end - i) =~= chars@.skip(end as int));
                lemma_texts_push(before, word);
                assert(texts(result@) + words(chars@.skip(end as int)) =~= texts(before) + (
                seq![word@] + words(chars@.skip(end as int))));
            }
            i = end;
        }
    }
    proof {
        assert(texts(result@) + words(chars@.skip(n as int)) =~= texts(result@));
    }
    result
}

/// Put texts together with `separator` between neighbours.
pub fn join(parts: &Vec<String>, separator: &str) -> (result: String)
    ensures
        result@ == joined(texts(parts@), separator@),
{
    let mut result = String::new();
    let mut i: usize = 0;
    let ghost all = texts(parts@);
    while i < parts.len()
        invariant
            i <= parts@.len() == all.len(),
            all == texts(parts@),
            result@ == joined(all.take(i as int), separator@),
        decreases parts@.len() - i,
    {
        proof {
            assert(all.take(i + 1).drop_last() =~= all.take(i as int));
            assert(all[i as int] == parts@[i as int]@);
        }
        if i > 0 {
            result.append(separator);
        }
        result.append(parts[i].as_str());
        i += 1;
    }
    proof {
        assert(all.take(i as int) =~= all);
    }
    result
}

proof fn lemma_digits_bound(s: Seq<char>)
    requires
        all_digits(s),
    ensures
        digits_value(s) >= 0,
    decreases s.len(),
{
    if s.len() > 0 {
        let rest = s.drop_last();
        assert forall|i: int| 0 <= i < rest.len() implies ascii_digit(#[trigger] rest[i]) by {
            assert(rest[i] == s[i]);
        }
        lemma_digits_bound(rest);
        assert(ascii_digit(s[s.len() - 1]));
    }
}

/// Whether a text is a decimal number that a 32-bit signed integer can hold.
pub fn parses_as_i32(text: &str) -> (result: bool)
    ensures
        result == is_i32(text@),
{
    let chars = chars_of(text);
    let n: usize = chars.len();
    if n == 0 {
        return false;
    }
    let negative: bool = chars[0] == '-';
    let start: usize = if negative || chars[0] == '+' {
        1
    } else {
        0
    };
    if start == n {
        return false;
    }
    let ghost digits = chars@.skip(start as int);
    proof {
        if start == 0 {
            assert(digits =~= chars@);
        }
    }
    let limit: u64 = if negative {
        0x8000_0000
    } else {
        0x7fff_ffff
    };
    let mut value: u64 = 0;
    let mut fits: bool = true;
    let mut i: usize = start;
    while i < n
        invariant
            start <= i <= n == chars@.len(),
            digits == chars@.skip(start as int),
            chars@ == text@,
            0 <= start < n,
            start == (if text@[0] == '-' || text@[0] == '+' { 1int } else { 0int }),
            start == 0 ==> digits == text@,
            limit <= 0x8000_0000,
            all_digits(digits.take(i - start)),
            fits ==> value == digits_value(digits.take(i - start)) && value <= limit,
            !fits ==> digits_value(digits.take(i - start)) > limit,
        decreases n - i,
    {
        let c: char = chars[i];
        proof {
            assert(digits[i - start] == c);
            assert(digits.take(i - start + 1).drop_last() =~= digits.take(i - start));
            assert(digits.take(i - start + 1).last() == c);
        }
        if !('0' <= c && c <= '9') {
            proof {
                assert(!ascii_digit(digits[i - start]));
            }
            return false;
        }
        proof {
            assert forall|j: int| 0 <= j < i - start + 1 implies ascii_digit(
                #[trigger] digits.take(i - start + 1)[j],
            ) by {
                if j < i - start {
                    assert(digits.take(i - start + 1)[j] == digits.take(i - start)[j]);
                }
            }
        }
        if fits {
            value = value * 10 + (c as u64 - '0' as u64);
            fits = value <= limit;
        }
        i += 1;
    }
    proof {
        assert(digits.take(n - start) =~= digits);
        lemma_digits_bound(digits);
    }
    fits
}

/// The character of one decimal digit.
fn digit_char(d: u64) -> (c: char)
    requires
        d < 10,
    ensures
        c == ('0' as u8 + d) as char,
{
    (48u8 + d as u8) as char
}

/// Append a natural number in decimal.
pub fn push_natural(text: &mut String, n: u64)
    ensures
        final(text)@ == old(text)@ + natural_digits(n as nat),
    decreases n,
{
    if n >= 10 {
        push_natural(text, n / 10);
    }
    text.push(digit_char(n % 10));
    proof {
        assert(text@ =~= old(text)@ + natural_digits(n as nat));
    }
}

/// Append a whole number in decimal.
pub fn push_decimal(text: &mut String, n: i64)
    ensures
        final(text)@ == old(text)@ + decimal(n as int),
{
    if n < 0 {
        text.push('-');
        let magnitude: u64 = (-(n as i128)) as u64;
        push_natural(text, magnitude);
        proof {
            assert(text@ =~= old(text)@ + decimal(n as int));
        }
    } else {
        push_natural(text, n as u64);
    }
}

/// A character that decimal numbers are written with.
pub open spec fn numeral(c: char) -> bool {
    ascii_digit(c) || c == '-'
}

proof fn lemma_natural_digits(n: nat)
    ensures
        natural_digits(n).len() > 0,
        all_digits(natural_digits(n)),
        digits_value(natural_digits(n)) == n,
    decreases n,
{
    let digits = natural_digits(n);
    reveal_with_fuel(digits_value, 2);
    if n < 10 {
        assert(digits.drop_last() =~= Seq::<char>::empty());
    } else {
        lemma_natural_digits(n / 10);
        assert(digits.drop_last() =~= natural_digits(n / 10));
        assert forall|i: int| 0 <= i < digits.len() implies ascii_digit(#[trigger] digits[i]) by {
            if i < digits.len() - 1 {
                assert(digits[i] == natural_digits(n / 10)[i]);
            }
        }
    }
}

/// A number written in decimal reads back as that number, and holds nothing but
/// digits and a sign.
pub proof fn lemma_decimal(n: int)
    ensures
        decimal_value(decimal(n)) == Some(n),
        decimal(n).len() > 0,
        numeral(decimal(n)[0]),
        ascii_digit(decimal(n).last()),
        forall|i: int| 0 <= i < decimal(n).len() ==> numeral(#[trigger] decimal(n)[i]),
{
    let written = decimal(n);
    if n < 0 {
        let digits = natural_digits((-n) as nat);
        lemma_natural_digits((-n) as nat);
        assert(written.skip(1) =~= digits);
        assert(written.last() == digits[digits.len() - 1]);
        assert forall|i: int| 0 <= i < written.len() implies numeral(#[trigger] written[i]) by {
            if i > 0 {
                assert(written[i] == digits[i - 1]);
            }
        }
    } else {
        lemma_natural_digits(n as nat);
        assert(ascii_digit(written[0]));
        assert(ascii_digit(written[written.len() - 1]));
    }
}

pub proof fn lemma_word_length(s: Seq<char>)
    ensures
        0 <= word_length(s) <= s.len(),
        word_length(s) < s.len() ==> space(s[word_length(s)]),
        forall|j: int| 0 <= j < word_length(s) ==> !space(#[trigger] s[j]),
    decreases s.len(),
{
    if s.len() > 0 && !space(s[0]) {
        let rest = s.drop_first();
        lemma_word_length(rest);
        assert forall|j: int| 0 <= j < word_length(s) implies !space(#[trigger] s[j]) by {
            if j > 0 {
                assert(s[j] == rest[j - 1]);
            }
        }
    }
}

/// White space parts words: those before it, then those after it.
pub proof fn lemma_words_apart(a: Seq<char>, c: char, b: Seq<char>)
    requires
        space(c),
    ensures
        words(a + seq![c] + b) == words(a) + words(b),
    decreases a.len(),
{
    let whole = a + seq![c] + b;
    if a.len() == 0 {
        assert(whole[0] == c);
        assert(whole.drop_first() =~= b);
        assert(words(a) + words(b) =~= words(b));
    } else if space(a[0]) {
        assert(whole[0] == a[0]);
        assert(whole.drop_first() =~= a.drop_first() + seq![c] + b);
        lemma_words_apart(a.drop_first(), c, b);
    } else {
        assert(whole[0] == a[0]);
        let n = word_length(a);
        lemma_word_length(a);
        assert(n > 0);
        assert forall|j: int| 0 <= j < n implies !space(#[trigger] whole[j]) by {
            assert(whole[j] == a[j]);
        }
        if n < a.len() {
            assert(whole[n] == a[n]);
        } else {
            assert(whole[n] == c);
        }
        lemma_word_length_is(whole, n);
        assert(whole.take(n) =~= a.take(n));
        assert(whole.skip(n) =~= a.skip(n) + seq![c] + b);
        lemma_words_apart(a.skip(n), c, b);
        assert(words(whole) =~= words(a) + words(b));
    }
}

proof fn lemma_words_of_trimmed_start(s: Seq<char>)
    ensures
        words(trimmed_start(s)) == words(s),
    decreases s.len(),
{
    if s.len() > 0 && space(s[0]) {
        lemma_words_of_trimmed_start(s.drop_first());
    }
}

proof fn lemma_words_of_trimmed_end(s: Seq<char>)
    ensures
        words(trimmed_end(s)) == words(s),
    decreases s.len(),
{
    if s.len() > 0 && space(s.last()) {
        let front = s.drop_last();
        let none = Seq::<char>::empty();
        lemma_words_of_trimmed_end(front);
        lemma_words_apart(front, s.last(), none);
        assert(front + seq![s.last()] + none =~= s);
        assert(words(front) + words(none) =~= words(front));
    }
}

/// Trimming loses no word.
pub proof fn lemma_words_of_trimmed(s: Seq<char>)
    ensures
        words(trimmed(s)) == words(s),
{
    lemma_words_of_trimmed_start(s);
    lemma_words_of_trimmed_end(trimmed_start(s));
}

/// A text without words is white space and nothing else.
pub proof fn lemma_no_words(s: Seq<char>)
    ensures
        words(s).len() == 0 <==> forall|i: int| 0 <= i < s.len() ==> space(#[trigger] s[i]),
    decreases s.len(),
{
    if s.len() > 0 && space(s[0]) {
        let rest = s.drop_first();
        lemma_no_words(rest);
        if words(rest).len() == 0 {
            assert forall|i: int| 0 <= i < s.len() implies space(#[trigger] s[i]) by {
                if i > 0 {
                    assert(s[i] == rest[i - 1]);
                }
            }
        } else {
            let i = choose|i: int| 0 <= i < rest.len() && !space(#[trigger] rest[i]);
            assert(s[i + 1] == rest[i]);
        }
    } else if s.len() > 0 {
        lemma_word_length(s);
        assert(words(s)[0] == s.take(word_length(s)));
    }
}

/// The words of texts, one text after the other.
pub open spec fn all_words(list: Seq<Seq<char>>) -> Seq<Seq<char>>
    decreases list.len(),
{
    if list.len() == 0 {
        Seq::empty()
    } else {
        all_words(list.drop_last()) + words(list.last())
    }
}

pub proof fn lemma_all_words_front(first: Seq<char>, rest: Seq<Seq<char>>)
    ensures
        all_words(seq![first] + rest) == words(first) + all_words(rest),
    decreases rest.len(),
{
    let list = seq![first] + rest;
    if rest.len() == 0 {
        assert(list.drop_last() =~= rest);
        assert(list.last() == first);
        assert(all_words(list) =~= words(first) + all_words(rest));
    } else {
        lemma_all_words_front(first, rest.drop_last());
        assert(list.drop_last() =~= seq![first] + rest.drop_last());
        assert(list.last() == rest.last());
        assert(all_words(list) =~= words(first) + all_words(rest));
    }
}

/// Splitting at white space loses no word.
pub proof fn lemma_words_of_split(s: Seq<char>, c: char)
    requires
        space(c),
    ensures
        all_words(split(s, c)) == words(s),
    decreases s.len(),
{
    let i = first_index(s, c);
    lemma_first_index(s, c);
    if i < s.len() {
        let rest = s.skip(i + 1);
        lemma_words_of_split(rest, c);
        lemma_all_words_front(s.take(i), split(rest, c));
        lemma_words_apart(s.take(i), c, rest);
        assert(s.take(i) + seq![c] + rest =~= s);
    } else {
        let none = Seq::<Seq<char>>::empty();
        lemma_all_words_front(s, none);
        assert(seq![s] + none =~= seq![s]);
        assert(words(s) + all_words(none) =~= words(s));
    }
}

/// Joining with white space between loses no word.
pub proof fn lemma_words_of_joined(parts: Seq<Seq<char>>, separator: Seq<char>)
    requires
        separator.len() > 0,
        forall|i: int| 0 <= i < separator.len() ==> space(#[trigger] separator[i]),
    ensures
        words(joined(parts, separator)) == all_words(parts),
    decreases parts.len(),
{
    if parts.len() == 1 {
        lemma_all_words_front(parts[0], parts.drop_first());
        assert(seq![parts[0]] + parts.drop_first() =~= parts);
        assert(all_words(parts) =~= words(parts[0]));
    } else if parts.len() > 1 {
        let head = joined(parts.drop_last(), separator);
        lemma_words_of_joined(parts.drop_last(), separator);
        let n = separator.len() - 1;
        let c = separator[n];
        lemma_words_before_space(head, separator.take(n));
        lemma_words_apart(head + separator.take(n), c, parts.last());
        assert(head + separator.take(n) + seq![c] + parts.last() =~= joined(parts, separator));
    }
}

proof fn lemma_words_before_space(s: Seq<char>, spaces: Seq<char>)
    requires
        forall|i: int| 0 <= i < spaces.len() ==> space(#[trigger] spaces[i]),
    ensures
        words(s + spaces) == words(s),
    decreases spaces.len(),
{
    if spaces.len() == 0 {
        assert(s + spaces =~= s);
    } else {
        let none = Seq::<char>::empty();
        let front = spaces.drop_last();
        assert forall|i: int| 0 <= i < front.len() implies space(#[trigger] front[i]) by {
            assert(front[i] == spaces[i]);
        }
        lemma_words_before_space(s, front);
        assert(space(spaces[spaces.len() - 1]));
        lemma_words_apart(s + front, spaces.last(), none);
        assert(s + front + seq![spaces.last()] + none =~= s + spaces);
        assert(words(s) + words(none) =~= words(s));
    }
}

/// A text ends with another.
pub open spec fn ends_with(whole: Seq<char>, end: Seq<char>) -> bool {
    whole.len() >= end.len() && whole.skip(whole.len() - end.len()) == end
}

pub proof fn lemma_ends_with(head: Seq<char>, end: Seq<char>)
    ensures
        ends_with(head + end, end),
{
    assert((head + end).skip(head.len() as int) =~= end);
}

/// Blanks, tabs and line breaks are white space, and nothing that is printed in
/// ASCII is.
pub proof fn law_white_space_is_what_does_not_print(c: char)
    ensures
        c == ' ' || c == '\t' || c == '\n' || c == '\r' ==> space(c),
        '!' <= c <= '~' ==> !space(c),
{
}

/// Trimming drops white space and nothing else: what is left is a run of the text,
/// with white space all before and all behind it, and none at its own ends.
pub proof fn law_trimming_drops_only_white_space(s: Seq<char>)
    ensures
        exists|from: int, to: int|
            {
                &&& 0 <= from <= to <= s.len()
                &&& trimmed(s) == #[trigger] s.subrange(from, to)
                &&& forall|j: int| 0 <= j < from || to <= j < s.len() ==> space(#[trigger] s[j])
                &&& from < to ==> !space(s[from]) && !space(s[to - 1])
            },
{
    let t = trimmed_start(s);
    let from = s.len() - t.len();
    lemma_trimmed_start_begins(s);
    lemma_trimmed_start_drops(s);
    lemma_trimmed_end_ends(t);
    lemma_trimmed_end_drops(t);
    let to = from + trimmed(s).len();
    assert(trimmed(s) =~= s.subrange(from, to)) by {
        assert forall|j: int| 0 <= j < trimmed(s).len() implies trimmed(s)[j] == s.subrange(
            from,
            to,
        )[j] by {
            assert(trimmed(s)[j] == t[j]);
            assert(t[j] == s[s.len() - t.len() + j]);
        }
    }
    assert forall|j: int| 0 <= j < from || to <= j < s.len() implies space(#[trigger] s[j]) by {
        if to <= j {
            assert(t[j - from] == s[s.len() - t.len() + (j - from)]);
        }
    }
    if from < to {
        lemma_trimmed_is_bare(s);
        assert(trimmed(s)[0] == s[from]);
        assert(trimmed(s).last() == s[to - 1]);
    }
}

proof fn lemma_trimmed_start_drops(s: Seq<char>)
    ensures
        trimmed_start(s).len() <= s.len(),
        forall|j: int| 0 <= j < s.len() - trimmed_start(s).len() ==> space(#[trigger] s[j]),
    decreases s.len(),
{
    if s.len() > 0 && space(s[0]) {
        let rest = s.drop_first();
        lemma_trimmed_start_drops(rest);
        assert forall|j: int| 0 <= j < s.len() - trimmed_start(s).len() implies space(
            #[trigger] s[j],
        ) by {
            if j > 0 {
                assert(s[j] == rest[j - 1]);
            }
        }
    }
}

pub proof fn lemma_trimmed_end_drops(s: Seq<char>)
    ensures
        trimmed_end(s).len() <= s.len(),
        forall|j: int| trimmed_end(s).len() <= j < s.len() ==> space(#[trigger] s[j]),
    decreases s.len(),
{
    if s.len() > 0 && space(s.last()) {
        let rest = s.drop_last();
        lemma_trimmed_end_drops(rest);
        assert forall|j: int| trimmed_end(s).len() <= j < s.len() implies space(#[trigger] s[j]) by {
            if j < rest.len() {
                assert(s[j] == rest[j]);
            }
        }
    }
}

/// Splitting takes a text apart at every separator and nowhere else: put together
/// again with separators between, the pieces are the text.
pub proof fn law_splitting_is_undone_by_joining(s: Seq<char>, c: char)
    ensures
        joined(split(s, c), seq![c]) == s,
        forall|i: int| 0 <= i < split(s, c).len() ==> !(#[trigger] split(s, c)[i]).contains(c),
    decreases s.len(),
{
    let f = first_index(s, c);
    lemma_first_index(s, c);
    let pieces = split(s, c);
    if f < s.len() {
        let rest = s.skip(f + 1);
        law_splitting_is_undone_by_joining(rest, c);
        lemma_joined_first(s.take(f), split(rest, c), seq![c]);
        assert(s.take(f) + seq![c] + rest =~= s);
        assert forall|i: int| 0 <= i < pieces.len() implies !(#[trigger] pieces[i]).contains(c) by {
            if i == 0 {
                assert(pieces[0] == s.take(f));
            } else {
                assert(pieces[i] == split(rest, c)[i - 1]);
            }
        }
    } else {
        assert(pieces =~= seq![s]);
        assert forall|j: int| 0 <= j < s.len() implies s[j] != c by {}
    }
}


proof fn lemma_joined_first(first: Seq<char>, rest: Seq<Seq<char>>, separator: Seq<char>)
    requires
        rest.len() > 0,
    ensures
        joined(seq![first] + rest, separator) == first + separator + joined(rest, separator),
    decreases rest.len(),
{
    let all = seq![first] + rest;
    if rest.len() == 1 {
        reveal_with_fuel(joined, 2);
        assert(all.drop_last() =~= seq![first]);
    } else {
        lemma_joined_first(first, rest.drop_last(), separator);
        assert(all.drop_last() =~= seq![first] + rest.drop_last());
        assert(all.last() == rest.last());
        assert(joined(all, separator) =~= first + separator + joined(rest, separator));
    }
}

/// Joining puts a separator between neighbours, and none at the ends: joining two
/// lists is joining each, with one separator between.
pub proof fn law_joining_puts_separators_between(
    first: Seq<Seq<char>>,
    second: Seq<Seq<char>>,
    one: Seq<char>,
    separator: Seq<char>,
)
    requires
        first.len() > 0,
        second.len() > 0,
    ensures
        joined(first + second, separator) == joined(first, separator) + separator + joined(
            second,
            separator,
        ),
        joined(seq![one], separator) == one,
        joined(Seq::<Seq<char>>::empty(), separator) == Seq::<char>::empty(),
    decreases first.len(),
{
    let rest = first.drop_first();
    assert(first =~= seq![first[0]] + rest);
    if first.len() == 1 {
        lemma_joined_first(first[0], second, separator);
        assert(first + second =~= seq![first[0]] + second);
    } else {
        law_joining_puts_separators_between(rest, second, one, separator);
        lemma_joined_first(first[0], rest + second, separator);
        lemma_joined_first(first[0], rest, separator);
        assert(first + second =~= seq![first[0]] + (rest + second));
        assert(joined(first + second, separator) =~= joined(first, separator) + separator + joined(
            second,
            separator,
        ));
    }
}

/// The first separator parts a text in two: nothing before it is one, and both
/// parts with it between are the text.
pub proof fn law_the_first_separator_parts_a_text(s: Seq<char>, c: char)
    ensures
        match once_split(s, c) {
            Some((before, behind)) => before + seq![c] + behind == s && !before.contains(c),
            None => !s.contains(c),
        },
{
    lemma_first_index(s, c);
    let f = first_index(s, c);
    if f < s.len() {
        assert(s.take(f) + seq![c] + s.skip(f + 1) =~= s);
    }
}

/// A decimal number reads as the number its digits stand for, ten times as much for
/// every digit that follows; a minus makes it negative, and a number is written so
/// that it reads as itself.
pub proof fn law_decimal_numbers_count_in_tens(s: Seq<char>, digit: char, n: int)
    requires
        '0' <= digit <= '9',
    ensures
        digits_value(s.push(digit)) == 10 * digits_value(s) + (digit as int - '0' as int),
        digits_value(Seq::<char>::empty()) == 0,
        decimal_value(decimal(n)) == Some(n),
        n < 0 ==> decimal(n)[0] == '-' && decimal(n).skip(1) == decimal(-n),
        n >= 0 ==> all_digits(decimal(n)),
        all_digits(s) && s.len() > 0 ==> decimal_value(s) == Some(digits_value(s))
            && decimal_value(seq!['-'] + s) == Some(-digits_value(s)),
        s.len() > 0 && !all_digits(s) && s[0] != '-' && s[0] != '+' ==> decimal_value(s) is None,
        decimal_value(Seq::<char>::empty()) is None,
{
    assert(s.push(digit).drop_last() =~= s);
    lemma_decimal(n);
    if n < 0 {
        assert(decimal(n).skip(1) =~= natural_digits((-n) as nat));
    } else {
        lemma_natural_digits(n as nat);
    }
    assert((seq!['-'] + s).skip(1) =~= s);
    if all_digits(s) && s.len() > 0 {
        assert(ascii_digit(s[0]));
    }
}

/// Words are runs of characters without white space, none empty, and they are all
/// that there is besides white space.
pub proof fn law_words_are_what_stands_between_white_space(a: Seq<char>, c: char, b: Seq<char>)
    requires
        space(c),
    ensures
        words(a + seq![c] + b) == words(a) + words(b),
        a.len() > 0 && (forall|j: int| 0 <= j < a.len() ==> !space(#[trigger] a[j])) ==> words(a)
            == seq![a],
        words(Seq::<char>::empty()) == Seq::<Seq<char>>::empty(),
{
    lemma_words_apart(a, c, b);
    if a.len() > 0 && (forall|j: int| 0 <= j < a.len() ==> !space(#[trigger] a[j])) {
        lemma_word_length_is(a, a.len() as int);
        assert(a.take(a.len() as int) =~= a);
        assert(a.skip(a.len() as int) =~= Seq::<char>::empty());
        reveal_with_fuel(words, 2);
        assert(words(a) =~= seq![a]);
    }
}

/// Exactly the numbers from minus two to the thirty-first up to one less than two to
/// the thirty-first fit, the ends among them.
pub proof fn law_the_numbers_that_fit_are_those_of_32_bits(n: int)
    ensures
        is_i32(decimal(n)) <==> -0x8000_0000 <= n <= 0x7fff_ffff,
        is_i32(seq!['+'] + decimal(n)) <==> 0 <= n <= 0x7fff_ffff,
{
    lemma_decimal(n);
    let signed = seq!['+'] + decimal(n);
    assert(signed.skip(1) =~= decimal(n));
    if n < 0 {
        assert(decimal(n)[0] == '-');
        assert(!ascii_digit(decimal(n)[0]));
    } else {
        lemma_natural_digits(n as nat);
    }
}

} // verus!
