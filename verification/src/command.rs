//! The other programs this one runs, what comes back from them, and how a
//! failure is reported.
use crate::text;
use vstd::prelude::*;

verus! {

/// What went wrong, in words: the most general cause first, then what caused it.
#[derive(Debug)]
pub struct Failure {
    pub message: String,
}

impl View for Failure {
    type V = Seq<char>;

    open spec fn view(&self) -> Seq<char> {
        self.message@
    }
}

/// A message, and the cause below it.
pub open spec fn because(message: Seq<char>, cause: Seq<char>) -> Seq<char> {
    message + ": "@ + cause
}

impl Failure {
    pub fn new(message: &str) -> (failure: Self)
        ensures
            failure@ == message@,
    {
        Self { message: message.to_owned() }
    }

    /// A failure with the cause below it.
    pub fn caused(message: &str, cause: &str) -> (failure: Self)
        ensures
            failure@ == because(message@, cause@),
    {
        let mut whole = message.to_owned();
        whole.append(": ");
        whole.append(cause);
        Self { message: whole }
    }

    /// A failure that names something in quotes.
    pub fn quoting(before: &str, what: &str, after: &str) -> (failure: Self)
        ensures
            failure@ == before@ + what@ + after@,
    {
        let mut whole = before.to_owned();
        whole.append(what);
        whole.append(after);
        Self { message: whole }
    }
}

/// A program to run.
#[derive(Debug)]
pub struct Invocation {
    pub program: String,
    pub args: Vec<String>,
}

#[verifier::ext_equal]
pub struct InvocationView {
    pub program: Seq<char>,
    pub args: Seq<Seq<char>>,
}

impl View for Invocation {
    type V = InvocationView;

    open spec fn view(&self) -> InvocationView {
        InvocationView { program: self.program@, args: text::texts(self.args@) }
    }
}

impl Invocation {
    pub fn new(program: &str) -> (invocation: Self)
        ensures
            invocation@ == (InvocationView { program: program@, args: Seq::empty() }),
    {
        let args: Vec<String> = Vec::new();
        proof {
            assert(text::texts(args@) =~= Seq::empty());
        }
        Self { program: program.to_owned(), args }
    }

    /// The same with one more argument.
    pub fn with(self, arg: &str) -> (invocation: Self)
        ensures
            invocation@ == (InvocationView {
                program: self@.program,
                args: self@.args.push(arg@),
            }),
    {
        let mut args = self.args;
        let last = arg.to_owned();
        proof {
            text::lemma_texts_push(args@, last);
        }
        args.push(last);
        Self { program: self.program, args }
    }
}

/// What a program left behind.
#[derive(Debug)]
pub struct Exit {
    pub success: bool,
    pub stdout: Vec<u8>,
    pub stderr: Vec<u8>,
}

/// The text that bytes hold, with each piece that is not UTF-8 replaced by
/// U+FFFD.
pub uninterp spec fn lossy_text(bytes: Seq<u8>) -> Seq<char>;

/// Calls `String::from_utf8_lossy`. The result depends on the bytes alone, and
/// bytes that are valid UTF-8 come back as the text they encode.
#[verifier::external_body]
pub(crate) fn decode_lossily(bytes: &Vec<u8>) -> (text: String)
    ensures
        text@ == lossy_text(bytes@),
        vstd::utf8::valid_utf8(bytes@) ==> text@ == vstd::utf8::decode_utf8(bytes@),
{
    String::from_utf8_lossy(bytes).into_owned()
}

/// Why bytes are not UTF-8, in words.
pub uninterp spec fn utf8_complaint(bytes: Seq<u8>) -> Seq<char>;

/// Calls `String::from_utf8`. It succeeds exactly on valid UTF-8 and then gives
/// the text that the bytes encode; what the error says depends on the bytes
/// alone.
#[verifier::external_body]
pub(crate) fn decode_strictly(bytes: Vec<u8>) -> (result: Result<String, String>)
    ensures
        match result {
            Ok(text) => vstd::utf8::valid_utf8(bytes@) && text@ == vstd::utf8::decode_utf8(bytes@),
            Err(complaint) => !vstd::utf8::valid_utf8(bytes@) && complaint@ == utf8_complaint(
                bytes@,
            ),
        },
{
    String::from_utf8(bytes).map_err(|error| error.to_string())
}

/// What a program printed: its bytes as text, without the white space around it.
pub open spec fn printed(bytes: Seq<u8>) -> Seq<char> {
    text::trimmed(lossy_text(bytes))
}

/// What a program printed, as text, without the white space around it.
pub fn read_printed(bytes: &Vec<u8>) -> (text: String)
    ensures
        text@ == printed(bytes@),
        vstd::utf8::valid_utf8(bytes@) ==> text@ == text::trimmed(
            vstd::utf8::decode_utf8(bytes@),
        ),
{
    let whole = decode_lossily(bytes);
    text::trim(whole.as_str())
}

/// A failure says what went wrong first and why last.
pub proof fn law_a_failure_ends_with_its_cause(message: Seq<char>, cause: Seq<char>)
    ensures
        text::ends_with(because(message, cause), cause),
        because(message, cause).take(message.len() as int) == message,
        because(message, cause).len() > message.len() + cause.len(),
{
    reveal_strlit(": ");
    text::lemma_ends_with(message + ": "@, cause);
    assert(because(message, cause).take(message.len() as int) =~= message);
}

/// What a program printed is its text without the white space around it, and
/// nothing is lost of it but that.
pub proof fn law_what_was_printed_keeps_its_words(bytes: Seq<u8>)
    ensures
        text::words(printed(bytes)) == text::words(lossy_text(bytes)),
        text::bare(printed(bytes)),
{
    text::lemma_words_of_trimmed(lossy_text(bytes));
    text::lemma_trimmed_is_bare(lossy_text(bytes));
}

} // verus!
