//! Translation backends.
//!
//! Kept behind a trait because the two useful backends have opposite trade-offs:
//! Google is keyless and quick but scraped and rate-limited by IP; a language
//! model is far better on Persian and idiom but needs a key and a round trip.
//!
//! A backend says what to ask over the network and what to make of the reply;
//! the asking itself is left to the caller.
use crate::command;
use crate::command::Failure;
use crate::json;
use crate::json::{follow, get_element, read_stream, Json};
use crate::text;
use crate::text::{same, trim};
use vstd::prelude::*;

verus! {

/// A translated text.
#[derive(Debug)]
pub struct Translation {
    pub text: String,
    /// What the backend thought the source language was, when it says.
    pub detected: Option<String>,
}

pub struct TranslationView {
    pub text: Seq<char>,
    pub detected: Option<Seq<char>>,
}

/// A text that may be missing, by content.
pub open spec fn some_text(text: Option<String>) -> Option<Seq<char>> {
    match text {
        Some(text) => Some(text@),
        None => None,
    }
}

impl View for Translation {
    type V = TranslationView;

    open spec fn view(&self) -> TranslationView {
        TranslationView { text: self.text@, detected: some_text(self.detected) }
    }
}

/// A translation or a failure, by content.
pub open spec fn translation_view(result: Result<Translation, Failure>) -> Result<
    TranslationView,
    Seq<char>,
> {
    match result {
        Ok(translation) => Ok(translation@),
        Err(failure) => Err(failure@),
    }
}

/// What to say to a chat endpoint.
#[derive(Debug)]
pub struct Chat {
    pub model: String,
    /// How much the answer may vary.
    pub temperature: u32,
    /// What the system message says.
    pub system: String,
    /// What the user message says.
    pub user: String,
}

pub struct ChatView {
    pub model: Seq<char>,
    pub temperature: u32,
    pub system: Seq<char>,
    pub user: Seq<char>,
}

impl View for Chat {
    type V = ChatView;

    open spec fn view(&self) -> ChatView {
        ChatView {
            model: self.model@,
            temperature: self.temperature,
            system: self.system@,
            user: self.user@,
        }
    }
}

/// What to ask over the network.
#[derive(Debug)]
pub enum Request {
    /// A GET with a query, given up after `timeout` seconds.
    Get { url: String, query: Vec<(String, String)>, timeout: u64 },
    /// A POST of a chat as JSON, given up after `timeout` seconds.
    Post { url: String, authorization: String, chat: Chat, timeout: u64 },
}

pub enum RequestView {
    Get { url: Seq<char>, query: Seq<(Seq<char>, Seq<char>)>, timeout: u64 },
    Post { url: Seq<char>, authorization: Seq<char>, chat: ChatView, timeout: u64 },
}

/// The names and values of a query, by content.
pub open spec fn pairs(query: Seq<(String, String)>) -> Seq<(Seq<char>, Seq<char>)> {
    query.map_values(|pair: (String, String)| (pair.0@, pair.1@))
}

impl View for Request {
    type V = RequestView;

    open spec fn view(&self) -> RequestView {
        match self {
            Request::Get { url, query, timeout } => RequestView::Get {
                url: url@,
                query: pairs(query@),
                timeout: *timeout,
            },
            Request::Post { url, authorization, chat, timeout } => RequestView::Post {
                url: url@,
                authorization: authorization@,
                chat: chat@,
                timeout: *timeout,
            },
        }
    }
}

/// Something that translates: it says what to ask, and what a reply means.
pub trait Translator {
    /// What is asked to have `text` translated.
    spec fn asks(&self, text: Seq<char>, from: Seq<char>, to: Seq<char>) -> RequestView;

    /// What a reply means.
    spec fn hears(&self, reply: ReplyView) -> Result<TranslationView, Seq<char>>;

    /// What to ask to have `text` translated.
    fn request(&self, text: &str, from: &str, to: &str) -> (request: Request)
        ensures
            request@ == self.asks(text@, from@, to@),
    ;

    /// The translation in a reply.
    fn translation(&self, reply: Reply) -> (result: Result<Translation, Failure>)
        ensures
            translation_view(result) == self.hears(reply@),
    ;
}

/// What came back over the network.
#[derive(Debug)]
pub enum Reply {
    /// The request failed, and why.
    Failed(String),
    /// The body broke off before it could be told what it holds, and why; `late`
    /// when reading it took too long.
    Cut { cause: String, late: bool },
    /// The body.
    Body(Vec<u8>),
}

pub enum ReplyView {
    Failed(Seq<char>),
    Cut { cause: Seq<char>, late: bool },
    Body(Seq<u8>),
}

impl View for Reply {
    type V = ReplyView;

    open spec fn view(&self) -> ReplyView {
        match self {
            Reply::Failed(cause) => ReplyView::Failed(cause@),
            Reply::Cut { cause, late } => ReplyView::Cut { cause: cause@, late: *late },
            Reply::Body(bytes) => ReplyView::Body(bytes@),
        }
    }
}

/// What is said of a body that cannot be read as JSON.
pub open spec fn not_json(cause: Seq<char>) -> Seq<char> {
    "Failed to read JSON: "@ + cause
}

/// What is said of a body that broke off.
pub open spec fn cut_off(cause: Seq<char>, late: bool) -> Seq<char> {
    if late {
        cause
    } else {
        not_json(cause)
    }
}

fn say_not_json(cause: &str) -> (complaint: String)
    ensures
        complaint@ == not_json(cause@),
{
    let mut complaint = "Failed to read JSON: ".to_owned();
    complaint.append(cause);
    complaint
}

fn say_cut_off(cause: String, late: bool) -> (complaint: String)
    ensures
        complaint@ == cut_off(cause@, late),
{
    if late {
        cause
    } else {
        say_not_json(cause.as_str())
    }
}

/// The undocumented endpoint the Google Translate web widget calls. No key, no
/// account. Rate-limited per IP; fine for personal use.
#[derive(Debug)]
pub struct Google;

/// The query of Google's endpoint.
pub open spec fn google_query(text: Seq<char>, from: Seq<char>, to: Seq<char>) -> Seq<
    (Seq<char>, Seq<char>),
> {
    seq![("client"@, "gtx"@), ("sl"@, from), ("tl"@, to), ("dt"@, "t"@), ("q"@, text)]
}

/// What is read out of Google's reply, `[[[translated, original, ...], ...],
/// null, "detected", ...]`.
#[derive(Debug)]
pub struct GoogleReply {
    /// The translated part of each segment, where it has one; nothing when the
    /// reply does not start with a list of segments.
    pub segments: Option<Vec<Option<String>>>,
    pub detected: Option<String>,
}

/// The translated parts of segments, by content.
pub open spec fn chunks(segments: Seq<Option<String>>) -> Seq<Option<Seq<char>>> {
    segments.map_values(|segment: Option<String>| some_text(segment))
}

/// The translated part of each segment.
pub open spec fn chunks_of(segments: Seq<Json>) -> Seq<Option<Seq<char>>> {
    segments.map_values(|segment: Json| json::as_text(segment.element(0)))
}

/// The parts that there are, put together in order.
pub open spec fn put_together(list: Seq<Option<Seq<char>>>) -> Seq<char>
    decreases list.len(),
{
    if list.len() == 0 {
        Seq::empty()
    } else {
        put_together(list.drop_last()) + match list.last() {
            Some(chunk) => chunk,
            None => Seq::empty(),
        }
    }
}

/// The translation that segments and a detected language make.
pub open spec fn google_translation(
    segments: Option<Seq<Option<Seq<char>>>>,
    detected: Option<Seq<char>>,
) -> Result<TranslationView, Seq<char>> {
    match segments {
        None => Err("unexpected response shape from google"@),
        Some(list) => Ok(TranslationView { text: put_together(list), detected }),
    }
}

/// The segments of Google's reply.
pub open spec fn google_segments(body: Json) -> Option<Seq<Option<Seq<char>>>> {
    match body.element(0) {
        Some(Json::List(segments)) => Some(chunks_of(segments)),
        _ => None,
    }
}

/// What Google's reply means.
pub open spec fn google_hears(reply: ReplyView) -> Result<TranslationView, Seq<char>> {
    match reply {
        ReplyView::Failed(cause) => Err(
            command::because("google translate request failed"@, cause),
        ),
        ReplyView::Cut { cause, late } => Err(
            command::because("google returned a body we could not parse"@, cut_off(cause, late)),
        ),
        ReplyView::Body(bytes) => match json::stream(bytes) {
            Err(complaint) => Err(
                command::because("google returned a body we could not parse"@, not_json(complaint)),
            ),
            Ok(value) => google_translation(
                google_segments(value),
                json::as_text(value.element(2)),
            ),
        },
    }
}

fn owned_text(value: Option<&serde_json::Value>) -> (text: Option<String>)
    ensures
        some_text(text) == json::as_text(json::some_json(value)),
{
    match value {
        Some(found) => match found.as_str() {
            Some(text) => Some(text.to_owned()),
            None => None,
        },
        None => None,
    }
}

/// What is read out of Google's reply.
pub fn read_google(body: &serde_json::Value) -> (reply: GoogleReply)
    ensures
        match reply.segments {
            Some(list) => google_segments(json::json_of(*body)) == Some(chunks(list@)),
            None => google_segments(json::json_of(*body)) is None,
        },
        some_text(reply.detected) == json::as_text(json::json_of(*body).element(2)),
{
    let detected = owned_text(get_element(body, 2));
    let first = match get_element(body, 0) {
        Some(first) => first,
        None => {
            return GoogleReply { segments: None, detected };
        },
    };
    let list = match first.as_array() {
        Some(list) => list,
        None => {
            return GoogleReply { segments: None, detected };
        },
    };
    let ghost all = chunks_of(json::list_of(list@));
    let mut segments: Vec<Option<String>> = Vec::new();
    let mut i: usize = 0;
    proof {
        assert(chunks(segments@) =~= all.take(0));
    }
    while i < list.len()
        invariant
            i <= list@.len(),
            all == chunks_of(json::list_of(list@)),
            chunks(segments@) == all.take(i as int),
        decreases list@.len() - i,
    {
        let chunk = owned_text(get_element(&list[i], 0));
        let ghost before = segments@;
        segments.push(chunk);
        proof {
            assert(all[i as int] == some_text(chunk));
            assert(chunks(segments@) =~= chunks(before).push(some_text(chunk)));
            assert(all.take(i + 1) =~= all.take(i as int).push(all[i as int]));
        }
        i += 1;
    }
    proof {
        assert(all.take(i as int) =~= all);
    }
    GoogleReply { segments: Some(segments), detected }
}

/// The translation that Google's reply makes: its segments put together.
pub fn assemble(reply: GoogleReply) -> (result: Result<Translation, Failure>)
    ensures
        translation_view(result) == google_translation(
            match reply.segments {
                Some(list) => Some(chunks(list@)),
                None => None,
            },
            some_text(reply.detected),
        ),
{
    let segments = match reply.segments {
        Some(segments) => segments,
        None => {
            return Err(Failure::new("unexpected response shape from google"));
        },
    };
    let ghost all = chunks(segments@);
    let mut whole = String::new();
    let mut i: usize = 0;
    proof {
        assert(whole@ =~= put_together(all.take(0)));
    }
    while i < segments.len()
        invariant
            i <= segments@.len(),
            all == chunks(segments@),
            whole@ == put_together(all.take(i as int)),
        decreases segments@.len() - i,
    {
        proof {
            assert(all.take(i + 1).drop_last() =~= all.take(i as int));
            assert(all.take(i + 1).last() == some_text(segments@[i as int]));
            assert(whole@ + Seq::<char>::empty() =~= whole@);
        }
        if let Some(chunk) = &segments[i] {
            whole.append(chunk.as_str());
        }
        i += 1;
    }
    proof {
        assert(all.take(i as int) =~= all);
    }
    Ok(Translation { text: whole, detected: reply.detected })
}

fn push_pair(query: &mut Vec<(String, String)>, name: &str, value: &str)
    ensures
        pairs(final(query)@) == pairs(old(query)@).push((name@, value@)),
{
    query.push((name.to_owned(), value.to_owned()));
    proof {
        assert(pairs(query@) =~= pairs(old(query)@).push((name@, value@)));
    }
}

/// What Google is asked.
pub open spec fn google_asks(text: Seq<char>, from: Seq<char>, to: Seq<char>) -> RequestView {
    RequestView::Get {
        url: "https://translate.googleapis.com/translate_a/single"@,
        query: google_query(text, from, to),
        timeout: 15,
    }
}

impl Translator for Google {
    open spec fn asks(&self, text: Seq<char>, from: Seq<char>, to: Seq<char>) -> RequestView {
        google_asks(text, from, to)
    }

    open spec fn hears(&self, reply: ReplyView) -> Result<TranslationView, Seq<char>> {
        google_hears(reply)
    }

    fn request(&self, text: &str, from: &str, to: &str) -> (request: Request) {
        let mut query: Vec<(String, String)> = Vec::new();
        push_pair(&mut query, "client", "gtx");
        push_pair(&mut query, "sl", from);
        push_pair(&mut query, "tl", to);
        push_pair(&mut query, "dt", "t");
        push_pair(&mut query, "q", text);
        proof {
            assert(pairs(query@) =~= google_query(text@, from@, to@));
        }
        Request::Get {
            url: "https://translate.googleapis.com/translate_a/single".to_owned(),
            query,
            timeout: 15,
        }
    }

    fn translation(&self, reply: Reply) -> (result: Result<Translation, Failure>) {
        match reply {
            Reply::Failed(cause) => Err(
                Failure::caused("google translate request failed", cause.as_str()),
            ),
            Reply::Cut { cause, late } => Err(
                Failure::caused(
                    "google returned a body we could not parse",
                    say_cut_off(cause, late).as_str(),
                ),
            ),
            Reply::Body(bytes) => match read_stream(&bytes) {
                Err(complaint) => Err(
                    Failure::caused(
                        "google returned a body we could not parse",
                        say_not_json(complaint.as_str()).as_str(),
                    ),
                ),
                Ok(value) => assemble(read_google(&value)),
            },
        }
    }
}

/// Any OpenAI-compatible chat endpoint - Groq, OpenRouter, a local llama.cpp.
/// Configured entirely by environment so no provider is baked in.
#[derive(Debug)]
pub struct OpenAiCompatible {
    pub base_url: String,
    pub model: String,
    pub api_key: String,
}

pub struct EndpointView {
    pub base_url: Seq<char>,
    pub model: Seq<char>,
    pub api_key: Seq<char>,
}

impl View for OpenAiCompatible {
    type V = EndpointView;

    open spec fn view(&self) -> EndpointView {
        EndpointView { base_url: self.base_url@, model: self.model@, api_key: self.api_key@ }
    }
}

/// What the environment says: the value of each variable, or why it has none.
#[derive(Debug)]
pub struct Environment {
    /// `WLT_AI_KEY`
    pub key: Result<String, String>,
    /// `WLT_AI_URL`
    pub url: Result<String, String>,
    /// `WLT_AI_MODEL`
    pub model: Result<String, String>,
}

/// The endpoint that the environment configures, or what is missing.
pub open spec fn endpoint(environment: Environment) -> Result<EndpointView, Seq<char>> {
    match environment.key {
        Err(cause) => Err(
            command::because(
                "engine 'ai' needs WLT_AI_KEY (and optionally WLT_AI_URL / WLT_AI_MODEL)"@,
                cause@,
            ),
        ),
        Ok(key) => match environment.model {
            Err(cause) => Err(
                command::because(
                    "engine 'ai' needs WLT_AI_MODEL, e.g. a Groq model id"@,
                    cause@,
                ),
            ),
            Ok(model) => Ok(
                EndpointView {
                    base_url: match environment.url {
                        Ok(url) => url@,
                        Err(_) => "https://api.groq.com/openai/v1"@,
                    },
                    model: model@,
                    api_key: key@,
                },
            ),
        },
    }
}

impl OpenAiCompatible {
    /// The endpoint that the environment configures.
    pub fn from_env(environment: &Environment) -> (result: Result<Self, Failure>)
        ensures
            match endpoint(*environment) {
                Ok(view) => result matches Ok(configured) && configured@ == view,
                Err(message) => result matches Err(failure) && failure@ == message,
            },
    {
        let api_key = match &environment.key {
            Ok(key) => key.as_str().to_owned(),
            Err(cause) => {
                return Err(
                    Failure::caused(
                        "engine 'ai' needs WLT_AI_KEY (and optionally WLT_AI_URL / WLT_AI_MODEL)",
                        cause.as_str(),
                    ),
                );
            },
        };
        let base_url = match &environment.url {
            Ok(url) => url.as_str().to_owned(),
            Err(_) => "https://api.groq.com/openai/v1".to_owned(),
        };
        match &environment.model {
            Ok(model) => Ok(Self { base_url, model: model.as_str().to_owned(), api_key }),
            Err(cause) => Err(
                Failure::caused(
                    "engine 'ai' needs WLT_AI_MODEL, e.g. a Groq model id",
                    cause.as_str(),
                ),
            ),
        }
    }
}

/// How the source language is put to a language model.
pub open spec fn source_named(from: Seq<char>) -> Seq<char> {
    if from == "auto"@ {
        "the source language"@
    } else {
        from
    }
}

/// What a language model is told to do.
pub open spec fn instruction(from: Seq<char>, to: Seq<char>) -> Seq<char> {
    "You are a translation engine. Translate"@ + " from "@ + source_named(from) + " to "@ + to
        + ". Preserve line breaks and formatting. The input may contain OCR errors - silently correct obvious ones. Reply with the translation only, with no preamble, notes, or quoting."@
}

/// The steps to the answer in a chat reply.
pub open spec fn answer_path() -> Seq<Seq<char>> {
    seq!["choices"@, "0"@, "message"@, "content"@]
}

/// The translation that a language model's answer makes.
pub open spec fn ai_translation(content: Option<Seq<char>>) -> Result<TranslationView, Seq<char>> {
    match content {
        None => Err("ai backend returned no message content"@),
        Some(content) => Ok(TranslationView { text: text::trimmed(content), detected: None }),
    }
}

/// What a language model's reply means.
pub open spec fn ai_hears(reply: ReplyView) -> Result<TranslationView, Seq<char>> {
    match reply {
        ReplyView::Failed(cause) => Err(command::because("ai translate request failed"@, cause)),
        ReplyView::Cut { cause, late } => Err(
            command::because("ai backend returned a body we could not parse"@, cut_off(cause, late)),
        ),
        ReplyView::Body(bytes) => match json::stream(bytes) {
            Err(complaint) => Err(
                command::because("ai backend returned a body we could not parse"@, not_json(complaint)),
            ),
            Ok(value) => ai_translation(json::as_text(value.walk(answer_path()))),
        },
    }
}

/// The answer in a chat reply.
pub fn read_answer(body: &serde_json::Value) -> (content: Option<String>)
    ensures
        some_text(content) == json::as_text(json::json_of(*body).walk(answer_path())),
{
    let ghost steps = answer_path();
    proof {
        reveal_strlit("/choices/0/message/content");
        reveal_strlit("choices");
        reveal_strlit("0");
        reveal_strlit("message");
        reveal_strlit("content");
        assert(steps.skip(1) =~= seq!["0"@, "message"@, "content"@]);
        assert(steps.skip(1).skip(1) =~= seq!["message"@, "content"@]);
        assert(steps.skip(1).skip(1).skip(1) =~= seq!["content"@]);
        assert(steps.skip(1).skip(1).skip(1).skip(1) =~= Seq::<Seq<char>>::empty());
        reveal_with_fuel(json::pointer_to, 5);
        assert(json::pointer_to(steps) =~= "/choices/0/message/content"@);
    }
    owned_text(follow(body, "/choices/0/message/content", Ghost(steps)))
}

/// The translation that a language model's answer makes.
pub fn take_answer(content: Option<String>) -> (result: Result<Translation, Failure>)
    ensures
        translation_view(result) == ai_translation(some_text(content)),
{
    match content {
        None => Err(Failure::new("ai backend returned no message content")),
        Some(content) => Ok(Translation { text: trim(content.as_str()), detected: None }),
    }
}

/// What a language model is asked.
pub open spec fn ai_asks(
    endpoint: EndpointView,
    text: Seq<char>,
    from: Seq<char>,
    to: Seq<char>,
) -> RequestView {
    RequestView::Post {
        url: endpoint.base_url + "/chat/completions"@,
        authorization: "Bearer "@ + endpoint.api_key,
        chat: ChatView {
            model: endpoint.model,
            temperature: 0,
            system: instruction(from, to),
            user: text,
        },
        timeout: 30,
    }
}

impl Translator for OpenAiCompatible {
    open spec fn asks(&self, text: Seq<char>, from: Seq<char>, to: Seq<char>) -> RequestView {
        ai_asks(self@, text, from, to)
    }

    open spec fn hears(&self, reply: ReplyView) -> Result<TranslationView, Seq<char>> {
        ai_hears(reply)
    }

    fn request(&self, text: &str, from: &str, to: &str) -> (request: Request) {
        let mut url = self.base_url.as_str().to_owned();
        url.append("/chat/completions");
        let mut authorization = "Bearer ".to_owned();
        authorization.append(self.api_key.as_str());
        let mut system = "You are a translation engine. Translate".to_owned();
        system.append(" from ");
        if same(from, "auto") {
            system.append("the source language");
        } else {
            system.append(from);
        }
        system.append(" to ");
        system.append(to);
        system.append(
            ". Preserve line breaks and formatting. The input may contain OCR errors - silently correct obvious ones. Reply with the translation only, with no preamble, notes, or quoting.",
        );
        let chat = Chat {
            model: self.model.as_str().to_owned(),
            temperature: 0,
            system,
            user: text.to_owned(),
        };
        Request::Post { url, authorization, chat, timeout: 30 }
    }

    fn translation(&self, reply: Reply) -> (result: Result<Translation, Failure>) {
        match reply {
            Reply::Failed(cause) => Err(
                Failure::caused("ai translate request failed", cause.as_str()),
            ),
            Reply::Cut { cause, late } => Err(
                Failure::caused(
                    "ai backend returned a body we could not parse",
                    say_cut_off(cause, late).as_str(),
                ),
            ),
            Reply::Body(bytes) => match read_stream(&bytes) {
                Err(complaint) => Err(
                    Failure::caused(
                        "ai backend returned a body we could not parse",
                        say_not_json(complaint.as_str()).as_str(),
                    ),
                ),
                Ok(value) => take_answer(read_answer(&value)),
            },
        }
    }
}

/// The backends there are.
#[derive(Debug)]
pub enum Backend {
    Google(Google),
    Ai(OpenAiCompatible),
}

pub enum BackendView {
    Google,
    Ai(EndpointView),
}

impl View for Backend {
    type V = BackendView;

    open spec fn view(&self) -> BackendView {
        match self {
            Backend::Google(_) => BackendView::Google,
            Backend::Ai(ai) => BackendView::Ai(ai@),
        }
    }
}

impl BackendView {
    /// What the backend is asked to have `text` translated.
    pub open spec fn asked(self, text: Seq<char>, from: Seq<char>, to: Seq<char>) -> RequestView {
        match self {
            BackendView::Google => google_asks(text, from, to),
            BackendView::Ai(endpoint) => ai_asks(endpoint, text, from, to),
        }
    }

    /// What a reply of the backend means.
    pub open spec fn heard(self, reply: ReplyView) -> Result<TranslationView, Seq<char>> {
        match self {
            BackendView::Google => google_hears(reply),
            BackendView::Ai(_) => ai_hears(reply),
        }
    }
}

impl Translator for Backend {
    open spec fn asks(&self, text: Seq<char>, from: Seq<char>, to: Seq<char>) -> RequestView {
        self@.asked(text, from, to)
    }

    open spec fn hears(&self, reply: ReplyView) -> Result<TranslationView, Seq<char>> {
        self@.heard(reply)
    }

    fn request(&self, text: &str, from: &str, to: &str) -> (request: Request) {
        match self {
            Backend::Google(google) => google.request(text, from, to),
            Backend::Ai(ai) => ai.request(text, from, to),
        }
    }

    fn translation(&self, reply: Reply) -> (result: Result<Translation, Failure>) {
        match self {
            Backend::Google(google) => google.translation(reply),
            Backend::Ai(ai) => ai.translation(reply),
        }
    }
}

/// The backend a name stands for, or why there is none.
pub open spec fn backend_named(name: Seq<char>, environment: Environment) -> Result<
    BackendView,
    Seq<char>,
> {
    if name == "google"@ {
        Ok(BackendView::Google)
    } else if name == "ai"@ {
        match endpoint(environment) {
            Ok(view) => Ok(BackendView::Ai(view)),
            Err(message) => Err(message),
        }
    } else {
        Err("unknown engine '"@ + name + "' (expected 'google' or 'ai')"@)
    }
}

/// The backend a name stands for.
pub fn backend(name: &str, environment: &Environment) -> (result: Result<Backend, Failure>)
    ensures
        match backend_named(name@, *environment) {
            Ok(view) => result matches Ok(backend) && backend@ == view,
            Err(message) => result matches Err(failure) && failure@ == message,
        },
{
    if same(name, "google") {
        Ok(Backend::Google(Google))
    } else if same(name, "ai") {
        match OpenAiCompatible::from_env(environment) {
            Ok(ai) => Ok(Backend::Ai(ai)),
            Err(failure) => Err(failure),
        }
    } else {
        Err(Failure::quoting("unknown engine '", name, "' (expected 'google' or 'ai')"))
    }
}

/// Google needs nothing from the environment.
pub proof fn law_google_needs_no_configuration(environment: Environment)
    ensures
        backend_named("google"@, environment) == Ok::<BackendView, Seq<char>>(BackendView::Google),
{
}

/// The text to translate reaches either backend letter for letter.
pub proof fn law_the_text_is_sent_as_it_is(
    backend: BackendView,
    text: Seq<char>,
    from: Seq<char>,
    to: Seq<char>,
)
    ensures
        match backend.asked(text, from, to) {
            RequestView::Get { query, .. } => query.last() == ("q"@, text),
            RequestView::Post { chat, .. } => chat.user == text,
        },
{
}

/// Google is asked for the text and the languages chosen: the query holds exactly
/// one source language, the one asked for, exactly one target language, the one
/// asked for, and exactly one text, the one to translate.
pub proof fn law_google_is_asked_for_the_languages_chosen(
    text: Seq<char>,
    from: Seq<char>,
    to: Seq<char>,
)
    ensures
        google_asks(text, from, to) matches RequestView::Get { query, timeout, .. } && {
            &&& timeout > 0
            &&& only_value(query, "sl"@, from)
            &&& only_value(query, "tl"@, to)
            &&& only_value(query, "q"@, text)
            &&& only_value(query, "client"@, "gtx"@)
            &&& only_value(query, "dt"@, "t"@)
        },
{
    reveal_strlit("client");
    reveal_strlit("sl");
    reveal_strlit("tl");
    reveal_strlit("dt");
    reveal_strlit("q");
    let query = google_query(text, from, to);
    assert("client"@.len() == 6 && "q"@.len() == 1);
    assert("sl"@[0] == 's' && "tl"@[0] == 't' && "dt"@[0] == 'd');
    assert(query[0].0 == "client"@ && query[0].1 == "gtx"@);
    assert(query[1].0 == "sl"@ && query[1].1 == from);
    assert(query[2].0 == "tl"@ && query[2].1 == to);
    assert(query[3].0 == "dt"@ && query[3].1 == "t"@);
    assert(query[4].0 == "q"@ && query[4].1 == text);
    assert(query.len() == 5);
}

/// A query holds a name once, with this value.
pub open spec fn only_value(
    query: Seq<(Seq<char>, Seq<char>)>,
    name: Seq<char>,
    value: Seq<char>,
) -> bool {
    &&& exists|i: int| 0 <= i < query.len() && (#[trigger] query[i]).0 == name
    &&& forall|i: int|
        0 <= i < query.len() && (#[trigger] query[i]).0 == name ==> query[i].1 == value
    &&& forall|i: int, j: int|
        0 <= i < query.len() && 0 <= j < query.len() && (#[trigger] query[i]).0 == name && (
        #[trigger] query[j]).0 == name ==> i == j
}

/// A language model is asked at the endpoint configured, with its key and its
/// model, for the text as it is; and it is told the source language, unless that is
/// to be detected, and the target language.
pub proof fn law_a_language_model_is_asked_for_the_languages_chosen(
    endpoint: EndpointView,
    text: Seq<char>,
    from: Seq<char>,
    to: Seq<char>,
)
    ensures
        ai_asks(endpoint, text, from, to) matches RequestView::Post {
            url,
            authorization,
            chat,
            timeout,
        } && {
            &&& timeout > 0
            &&& url.take(endpoint.base_url.len() as int) == endpoint.base_url
            &&& url.skip(endpoint.base_url.len() as int) == "/chat/completions"@
            &&& authorization.skip(7) == endpoint.api_key
            &&& authorization.take(7) == "Bearer "@
            &&& chat.model == endpoint.model
            &&& chat.user == text
            &&& chat.temperature == 0
            &&& from != "auto"@ ==> names(chat.system, " from "@ + from + " to "@ + to + ". "@)
            &&& from == "auto"@ ==> names(
                chat.system,
                " from the source language to "@ + to + ". "@,
            )
        },
{
    reveal_strlit("Bearer ");
    let request = ai_asks(endpoint, text, from, to);
    let url = endpoint.base_url + "/chat/completions"@;
    assert(url.take(endpoint.base_url.len() as int) =~= endpoint.base_url);
    assert(url.skip(endpoint.base_url.len() as int) =~= "/chat/completions"@);
    let authorization = "Bearer "@ + endpoint.api_key;
    assert(authorization.skip(7) =~= endpoint.api_key);
    assert(authorization.take(7) =~= "Bearer "@);
    reveal_strlit(" from ");
    reveal_strlit(" to ");
    reveal_strlit(". ");
    reveal_strlit("the source language");
    reveal_strlit(" from the source language to ");
    reveal_strlit(
        ". Preserve line breaks and formatting. The input may contain OCR errors - silently correct obvious ones. Reply with the translation only, with no preamble, notes, or quoting.",
    );
    let ending =
        ". Preserve line breaks and formatting. The input may contain OCR errors - silently correct obvious ones. Reply with the translation only, with no preamble, notes, or quoting."@;
    let head = "You are a translation engine. Translate"@;
    let tail = ending.skip(2);
    let said = instruction(from, to);
    assert(ending =~= ". "@ + tail);
    let part = " from "@ + source_named(from) + " to "@ + to + ". "@;
    assert(said =~= head + part + tail);
    assert(names(said, part));
    assert(" from "@ + "the source language"@ + " to "@ =~= " from the source language to "@);
    if from == "auto"@ {
        assert(part =~= " from the source language to "@ + to + ". "@);
    }
}

/// A text has another text in it.
pub open spec fn names(whole: Seq<char>, part: Seq<char>) -> bool {
    exists|head: Seq<char>, tail: Seq<char>| whole == #[trigger] (head + part + tail)
}

/// Google's segments are put together in order, and nothing else: what two runs of
/// segments make is what the first makes, followed by what the second makes.
pub proof fn law_segments_are_put_together_in_order(
    first: Seq<Option<Seq<char>>>,
    second: Seq<Option<Seq<char>>>,
    chunk: Seq<char>,
)
    ensures
        put_together(first + second) == put_together(first) + put_together(second),
        put_together(seq![Some(chunk)]) == chunk,
        put_together(seq![None]) == Seq::<char>::empty(),
    decreases second.len(),
{
    let one = seq![Some(chunk)];
    let gap = seq![None::<Seq<char>>];
    assert(one.drop_last() =~= Seq::<Option<Seq<char>>>::empty());
    assert(gap.drop_last() =~= Seq::<Option<Seq<char>>>::empty());
    reveal_with_fuel(put_together, 2);
    assert(put_together(one) =~= chunk);
    assert(put_together(gap) =~= Seq::<char>::empty());
    if second.len() == 0 {
        assert(first + second =~= first);
        assert(put_together(first) + put_together(second) =~= put_together(first));
    } else {
        law_segments_are_put_together_in_order(first, second.drop_last(), chunk);
        assert((first + second).drop_last() =~= first + second.drop_last());
        assert(put_together(first + second) =~= put_together(first) + put_together(second));
    }
}

/// A body that starts with a list of segments is translated by the first text of
/// each segment, and says what language was detected in its third place; any other
/// body is refused.
pub proof fn law_googles_reply_is_read_where_it_says_so(bytes: Seq<u8>)
    ensures
        json::stream(bytes) matches Ok(Json::List(body)) ==> (body.len() > 0 && body[0] is List ==> {
            let segments = body[0]->List_0;
            &&& google_hears(ReplyView::Body(bytes)) matches Ok(translation) && {
                &&& exists|chunks: Seq<Option<Seq<char>>>|
                    {
                        &&& translation.text == #[trigger] put_together(chunks)
                        &&& chunks.len() == segments.len()
                        &&& forall|i: int|
                            0 <= i < chunks.len() ==> match (#[trigger] segments[i]) {
                                Json::List(segment) => if segment.len() > 0 {
                                    match segment[0] {
                                        Json::Text(chunk) => chunks[i] == Some(chunk),
                                        _ => chunks[i] is None,
                                    }
                                } else {
                                    chunks[i] is None
                                },
                                _ => chunks[i] is None,
                            }
                    }
                &&& body.len() > 2 && body[2] is Text ==> translation.detected == Some(
                    body[2]->Text_0,
                )
                &&& body.len() <= 2 || !(body[2] is Text) ==> translation.detected is None
            }
        }),
        json::stream(bytes) matches Ok(body) && !(body is List) ==> google_hears(
            ReplyView::Body(bytes),
        ) is Err,
        json::stream(bytes) is Err ==> google_hears(ReplyView::Body(bytes)) is Err,
{
    if let Ok(Json::List(body)) = json::stream(bytes) {
        if body.len() > 0 && body[0] is List {
            let chunks = chunks_of(body[0]->List_0);
            assert(google_segments(Json::List(body)) == Some(chunks));
        }
    }
}

/// A language model's answer is the content of the message of its first choice,
/// without the white space around it.
pub proof fn law_the_answer_is_the_first_choices_content(
    bytes: Seq<u8>,
    body: Map<Seq<char>, Json>,
    choices: Seq<Json>,
    choice: Map<Seq<char>, Json>,
    message: Map<Seq<char>, Json>,
    content: Seq<char>,
)
    requires
        json::stream(bytes) == Ok::<Json, Seq<char>>(Json::Fields(body)),
        body.contains_key("choices"@),
        body["choices"@] == Json::List(choices),
        choices.len() > 0,
        choices[0] == Json::Fields(choice),
        choice.contains_key("message"@),
        choice["message"@] == Json::Fields(message),
        message.contains_key("content"@),
        message["content"@] == Json::Text(content),
    ensures
        ai_hears(ReplyView::Body(bytes)) == Ok::<TranslationView, Seq<char>>(
            TranslationView { text: text::trimmed(content), detected: None },
        ),
{
    let steps = answer_path();
    reveal_strlit("0");
    assert("0"@ =~= seq!['0']);
    assert("0"@.drop_last() =~= Seq::<char>::empty());
    reveal_with_fuel(text::digits_value, 2);
    assert(text::digits_value("0"@) == 0);
    assert(steps.skip(1) =~= seq!["0"@, "message"@, "content"@]);
    assert(steps.skip(1).skip(1) =~= seq!["message"@, "content"@]);
    assert(steps.skip(1).skip(1).skip(1) =~= seq!["content"@]);
    assert(steps.skip(1).skip(1).skip(1).skip(1) =~= Seq::<Seq<char>>::empty());
    reveal_with_fuel(Json::walk, 5);
    assert(Json::Fields(body).step("choices"@) == Some(Json::List(choices)));
    assert(Json::List(choices).step("0"@) == Some(Json::Fields(choice)));
    assert(Json::Fields(choice).step("message"@) == Some(Json::Fields(message)));
    assert(Json::Fields(message).step("content"@) == Some(Json::Text(content)));
}

/// A request that failed is a failure, and so is a body that broke off or does not
/// parse; what is reported ends with why.
pub proof fn law_a_failed_request_says_why(
    backend: BackendView,
    cause: Seq<char>,
    late: bool,
    bytes: Seq<u8>,
)
    ensures
        backend.heard(ReplyView::Failed(cause)) matches Err(message) && text::ends_with(message, cause),
        backend.heard(ReplyView::Cut { cause, late }) matches Err(message) && text::ends_with(
            message,
            cause,
        ),
        json::stream(bytes) matches Err(complaint) ==> (backend.heard(ReplyView::Body(bytes))
            matches Err(message) && text::ends_with(message, complaint)),
{
    let google = "google translate request failed"@ + ": "@;
    let ai = "ai translate request failed"@ + ": "@;
    let google_body = "google returned a body we could not parse"@ + ": "@;
    let ai_body = "ai backend returned a body we could not parse"@ + ": "@;
    let not = "Failed to read JSON: "@;
    text::lemma_ends_with(google, cause);
    text::lemma_ends_with(ai, cause);
    text::lemma_ends_with(google_body, cause);
    text::lemma_ends_with(ai_body, cause);
    assert(google_body + (not + cause) =~= google_body + not + cause);
    assert(ai_body + (not + cause) =~= ai_body + not + cause);
    text::lemma_ends_with(google_body + not, cause);
    text::lemma_ends_with(ai_body + not, cause);
    if let Err(complaint) = json::stream(bytes) {
        assert(google_body + (not + complaint) =~= google_body + not + complaint);
        assert(ai_body + (not + complaint) =~= ai_body + not + complaint);
        text::lemma_ends_with(google_body + not, complaint);
        text::lemma_ends_with(ai_body + not, complaint);
    }
}

/// The endpoint takes each of its parts from its own variable: the key and the
/// model have to be there, and only the address has a stand-in.
pub proof fn law_every_variable_configures_its_own_part(environment: Environment)
    ensures
        endpoint(environment) is Ok <==> environment.key is Ok && environment.model is Ok,
        endpoint(environment) matches Ok(configured) ==> {
            &&& environment.key matches Ok(key) && configured.api_key == key@
            &&& environment.model matches Ok(model) && configured.model == model@
            &&& environment.url matches Ok(url) ==> configured.base_url == url@
            &&& environment.url is Err ==> configured.base_url == "https://api.groq.com/openai/v1"@
        },
{
}

/// An engine is the one it is named as, and no other name names one.
pub proof fn law_an_engine_is_the_one_named(name: Seq<char>, environment: Environment)
    ensures
        backend_named(name, environment) matches Ok(BackendView::Google) ==> name == "google"@,
        backend_named(name, environment) matches Ok(BackendView::Ai(configured)) ==> name == "ai"@
            && endpoint(environment) == Ok::<EndpointView, Seq<char>>(configured),
        name == "google"@ ==> backend_named(name, environment) is Ok,
        name == "ai"@ ==> (backend_named(name, environment) is Ok <==> environment.key is Ok
            && environment.model is Ok),
        name != "google"@ && name != "ai"@ ==> backend_named(name, environment) is Err,
{
    reveal_strlit("google");
    reveal_strlit("ai");
    assert("google"@.len() != "ai"@.len());
}

/// Each backend is asked its own way and its replies are read its own way: Google
/// with a query, a language model with a chat.
pub proof fn law_each_backend_is_asked_its_own_way(
    endpoint: EndpointView,
    text: Seq<char>,
    from: Seq<char>,
    to: Seq<char>,
    reply: ReplyView,
)
    ensures
        BackendView::Google.asked(text, from, to) is Get,
        BackendView::Ai(endpoint).asked(text, from, to) is Post,
        BackendView::Google.asked(text, from, to) == google_asks(text, from, to),
        BackendView::Ai(endpoint).asked(text, from, to) == ai_asks(endpoint, text, from, to),
        BackendView::Google.heard(reply) == google_hears(reply),
        BackendView::Ai(endpoint).heard(reply) == ai_hears(reply),
{
}

/// Google is given fifteen seconds to answer and a language model thirty.
pub proof fn law_a_language_model_is_given_more_time(
    endpoint: EndpointView,
    text: Seq<char>,
    from: Seq<char>,
    to: Seq<char>,
)
    ensures
        google_asks(text, from, to) matches RequestView::Get { timeout, .. } && timeout == 15,
        ai_asks(endpoint, text, from, to) matches RequestView::Post { timeout, .. } && timeout == 30,
{
}

/// A reply without the part that holds the translation is a failure, not an empty
/// translation.
pub proof fn law_a_reply_without_a_translation_is_a_failure(bytes: Seq<u8>)
    ensures
        json::stream(bytes) matches Ok(Json::List(body)) ==> (body.len() == 0 || !(body[0] is List)
            ==> google_hears(ReplyView::Body(bytes)) == Err::<TranslationView, Seq<char>>(
            "unexpected response shape from google"@,
        )),
        json::stream(bytes) matches Ok(Json::Fields(body)) ==> (!body.contains_key("choices"@)
            ==> ai_hears(ReplyView::Body(bytes)) == Err::<TranslationView, Seq<char>>(
            "ai backend returned no message content"@,
        )),
{
    if let Ok(Json::Fields(body)) = json::stream(bytes) {
        if !body.contains_key("choices"@) {
            assert(answer_path()[0] == "choices"@);
            assert(Json::Fields(body).step("choices"@) is None);
            assert(Json::Fields(body).walk(answer_path()) is None);
        }
    }
}

/// Every translator asks and hears as its kind does, with the text and the languages
/// it was given, each in its place; one behind a backend is no different from one used
/// by itself.
pub proof fn law_a_translator_asks_as_its_kind_does(
    google: Google,
    ai: OpenAiCompatible,
    text: Seq<char>,
    from: Seq<char>,
    to: Seq<char>,
    reply: ReplyView,
)
    ensures
        google.asks(text, from, to) == google_asks(text, from, to),
        google.hears(reply) == google_hears(reply),
        ai.asks(text, from, to) == ai_asks(ai@, text, from, to),
        ai.hears(reply) == ai_hears(reply),
        Backend::Google(google).asks(text, from, to) == google.asks(text, from, to),
        Backend::Google(google).hears(reply) == google.hears(reply),
        Backend::Ai(ai).asks(text, from, to) == ai.asks(text, from, to),
        Backend::Ai(ai).hears(reply) == ai.hears(reply),
{
}

} // verus!
