//! The completion client: what is sent to the completion service for a prompt,
//! and how whatever comes back is turned into an answer or a typed failure.
//!
//! The client never touches the network itself. Its caller posts the request
//! that [`CompletionRequest::new`] describes and reports back in two steps:
//! first how the post went ([`on_delivery`]), then, if asked to, what the
//! payload held ([`on_payload`]).

use crate::headers::{
    empty_headers, header_lines, insert_header, is_header_char, is_header_text, is_header_value,
    law_header_text_in_bytes, no_lines,
};
use crate::json::{member_views, views, Json, JsonView, Member, MemberView};
use crate::text::{decimal, to_decimal, trim, trimmed};
use reqwest::header::HeaderMap;
use vstd::prelude::*;
use vstd::utf8::{encode_utf8, is_ascii_chars, is_ascii_chars_encode_utf8};

verus! {

/// The HTTP method of every completion request.
pub const METHOD: &'static str = "POST";

/// Where every completion request is sent.
pub const ENDPOINT: &'static str = "https://api.openai.com/v1/chat/completions";

/// The model every request names.
pub const MODEL: &'static str = "gpt-3.5-turbo";

/// The role under which the prompt is sent.
pub const USER_ROLE: &'static str = "user";

/// The name of the header that declares the kind of the body.
pub const CONTENT_TYPE: &'static str = "content-type";

/// The kind of the body: JSON.
pub const APPLICATION_JSON: &'static str = "application/json";

/// The name of the header that carries the credential.
pub const AUTHORIZATION: &'static str = "authorization";

/// What stands before the credential in the authorization header.
pub const BEARER: &'static str = "Bearer ";

/// The answer given when the service returned no candidate at all.
pub const NO_RESPONSE: &'static str = "No response from the GPT-4 API.";

/// Everything the transport needs for one completion call: the method, the
/// address, the header lines, and the JSON body.
#[derive(Debug, PartialEq, Eq)]
pub struct CompletionRequest {
    pub method: String,
    pub url: String,
    pub headers: HeaderMap,
    pub body: Json,
}

/// The mathematical value of a [`CompletionRequest`].
pub ghost struct CompletionRequestView {
    pub method: Seq<char>,
    pub url: Seq<char>,
    pub headers: Map<Seq<char>, Seq<Seq<u8>>>,
    pub body: JsonView,
}

impl View for CompletionRequest {
    type V = CompletionRequestView;

    open spec fn view(&self) -> CompletionRequestView {
        CompletionRequestView {
            method: self.method@,
            url: self.url@,
            headers: header_lines(self.headers),
            body: self.body@,
        }
    }
}

/// The body that carries `prompt`: the fixed model, and the prompt as the
/// content of a single message from the user.
pub open spec fn chat_body(prompt: Seq<char>) -> JsonView {
    JsonView::Object(
        seq![
            MemberView { name: "model"@, value: JsonView::Text(MODEL@) },
            MemberView {
                name: "messages"@,
                value: JsonView::Array(
                    seq![
                        JsonView::Object(
                            seq![
                                MemberView { name: "role"@, value: JsonView::Text(USER_ROLE@) },
                                MemberView { name: "content"@, value: JsonView::Text(prompt) },
                            ],
                        ),
                    ],
                ),
            },
        ],
    )
}

/// The value of the authorization header for `credential`.
pub open spec fn authorization(credential: Seq<char>) -> Seq<char> {
    BEARER@ + credential
}

/// Whether `credential` can be sent: it holds no control character of ASCII
/// but the tab.
pub open spec fn is_usable(credential: Seq<char>) -> bool {
    is_header_text(credential)
}

/// A credential can be sent exactly when the transport takes its
/// authorization header.
pub proof fn lemma_usable_is_sendable(credential: Seq<char>)
    ensures
        is_usable(credential) <==> is_header_value(encode_utf8(authorization(credential))),
{
    let line = authorization(credential);
    reveal_strlit("Bearer ");
    law_header_text_in_bytes(line);
    if is_header_text(line) {
        assert forall|i: int| 0 <= i < credential.len() implies is_header_char(
            #[trigger] credential[i],
        ) by {
            assert(credential[i] == line[i + 7]);
        }
    }
    if is_header_text(credential) {
        assert forall|i: int| 0 <= i < line.len() implies is_header_char(#[trigger] line[i]) by {
            if i >= 7 {
                assert(line[i] == credential[i - 7]);
            }
        }
    }
}

/// The header lines of the request for `credential`: a JSON content type and
/// a bearer authorization, one value each.
pub open spec fn request_headers(credential: Seq<char>) -> Map<Seq<char>, Seq<Seq<u8>>> {
    no_lines().insert(CONTENT_TYPE@, seq![encode_utf8(APPLICATION_JSON@)]).insert(
        AUTHORIZATION@,
        seq![encode_utf8(authorization(credential))],
    )
}

/// The request that carries `prompt` under `credential`: a post to the fixed
/// endpoint, with the two header lines and the chat body.
pub open spec fn request_for(prompt: Seq<char>, credential: Seq<char>) -> CompletionRequestView {
    CompletionRequestView {
        method: METHOD@,
        url: ENDPOINT@,
        headers: request_headers(credential),
        body: chat_body(prompt),
    }
}

/// The credential cannot be sent in a header.
#[derive(Debug, Clone, Copy, PartialEq, Eq)]
pub struct InvalidCredential {}

impl CompletionRequest {
    /// Builds the request for `prompt`. An empty prompt is legal. Nothing but
    /// the prompt and the credential varies from call to call. The request is
    /// built exactly when the credential can be sent.
    pub fn new(prompt: &str, credential: &str) -> (result: Result<
        CompletionRequest,
        InvalidCredential,
    >)
        ensures
            (match result {
                Ok(request) => is_usable(credential@) && request@ == request_for(
                    prompt@,
                    credential@,
                ),
                Err(_) => !is_usable(credential@),
            }),
    {
        proof {
            reveal_strlit("content-type");
            reveal_strlit("application/json");
            reveal_strlit("authorization");
            assert(is_ascii_chars(APPLICATION_JSON@));
            is_ascii_chars_encode_utf8(APPLICATION_JSON@);
            lemma_usable_is_sendable(credential@);
        }
        let mut bearer = BEARER.to_owned();
        bearer.append(credential);
        let mut headers = empty_headers();
        let kind = insert_header(&mut headers, CONTENT_TYPE, APPLICATION_JSON);
        let key = insert_header(&mut headers, AUTHORIZATION, bearer.as_str());
        if kind.is_err() || key.is_err() {
            return Err(InvalidCredential {  });
        }

        let mut message: Vec<Member> = Vec::new();
        message.push(Member::new("role", Json::text(USER_ROLE)));
        message.push(Member::new("content", Json::text(prompt)));
        let ghost message_view = member_views(message@);
        let mut messages: Vec<Json> = Vec::new();
        messages.push(Json::object(message));
        let ghost messages_view = views(messages@);
        let mut body: Vec<Member> = Vec::new();
        body.push(Member::new("model", Json::text(MODEL)));
        body.push(Member::new("messages", Json::array(messages)));
        let ghost body_view = member_views(body@);

        let request = CompletionRequest {
            method: METHOD.to_owned(),
            url: ENDPOINT.to_owned(),
            headers,
            body: Json::object(body),
        };
        proof {
            assert(message_view =~= seq![
                MemberView { name: "role"@, value: JsonView::Text(USER_ROLE@) },
                MemberView { name: "content"@, value: JsonView::Text(prompt@) },
            ]);
            assert(messages_view =~= seq![JsonView::Object(message_view)]);
            assert(body_view =~= seq![
                MemberView { name: "model"@, value: JsonView::Text(MODEL@) },
                MemberView { name: "messages"@, value: JsonView::Array(messages_view) },
            ]);
        }
        Ok(request)
    }
}

/// Why a completion call produced no answer.
#[derive(Debug, Clone, Copy, PartialEq, Eq)]
pub enum CompletionError {
    /// The exchange broke down on the way: connection, TLS or timeout.
    Transport,
    /// A successful response whose payload is not of the expected shape.
    Payload,
}

/// A decoded payload: the texts of the candidates, in the order the service
/// listed them.
#[derive(Debug, Clone, PartialEq, Eq)]
pub struct Completion {
    pub candidates: Vec<String>,
}

impl View for Completion {
    type V = Seq<Seq<char>>;

    open spec fn view(&self) -> Seq<Seq<char>> {
        self.candidates@.map_values(|text: String| text@)
    }
}

/// The text that one element of `choices` proposes. The chat shape is tried
/// first: a member `message` that has a member `content` that is a string.
/// The plain shape comes second: a member `text` that is a string. An element
/// of neither shape proposes nothing.
pub open spec fn candidate(choice: JsonView) -> Option<Seq<char>> {
    let chat = match choice.member("message"@) {
        Some(message) => match message.member("content"@) {
            Some(content) => content.text(),
            None => None,
        },
        None => None,
    };
    if chat is Some {
        chat
    } else {
        match choice.member("text"@) {
            Some(text) => text.text(),
            None => None,
        }
    }
}

/// The candidate texts that a payload holds, where it has the expected shape:
/// an object with a member `choices` that is an array, every element of which
/// proposes a text. What else the object or an element holds does not matter.
pub open spec fn candidates(document: JsonView) -> Option<Seq<Seq<char>>> {
    match document.member("choices"@) {
        Some(JsonView::Array(choices)) => {
            if forall|i: int| 0 <= i < choices.len() ==> candidate(#[trigger] choices[i]) is Some {
                Some(Seq::new(choices.len(), |i: int| candidate(choices[i])->0))
            } else {
                None
            }
        },
        _ => None,
    }
}

/// The text that one element of `choices` proposes.
fn candidate_of(choice: &Json) -> (r: Option<&str>)
    ensures
        (match r {
            Some(text) => candidate(choice@) == Some(text@),
            None => candidate(choice@) is None,
        }),
{
    let chat = match choice.get("message") {
        Some(message) => match message.get("content") {
            Some(content) => content.as_str(),
            None => None,
        },
        None => None,
    };
    match chat {
        Some(text) => Some(text),
        None => match choice.get("text") {
            Some(text) => text.as_str(),
            None => None,
        },
    }
}

/// Decodes a payload. It succeeds exactly on the documents of the expected
/// shape, and then lists the candidate texts in order.
pub fn decode(document: &Json) -> (r: Option<Completion>)
    ensures
        (match r {
            Some(completion) => candidates(document@) == Some(completion@),
            None => candidates(document@) is None,
        }),
{
    let choices = match document.get("choices") {
        Some(choices) => match choices.as_array() {
            Some(choices) => choices,
            None => {
                return None;
            },
        },
        None => {
            return None;
        },
    };
    let mut texts: Vec<String> = Vec::new();
    let mut i: usize = 0;
    while i < choices.len()
        invariant
            i <= choices.len(),
            texts@.len() == i,
            document@.member("choices"@) == Some(JsonView::Array(views(choices@))),
            forall|j: int|
                0 <= j < i ==> candidate(#[trigger] views(choices@)[j]) == Some(texts@[j]@),
        decreases choices.len() - i,
    {
        match candidate_of(&choices[i]) {
            Some(text) => {
                texts.push(text.to_owned());
            },
            None => {
                assert(candidate(views(choices@)[i as int]) is None);
                return None;
            },
        }
        i = i + 1;
    }
    let completion = Completion { candidates: texts };
    assert(candidates(document@)->0 =~= completion@);
    Some(completion)
}

/// How the post went, as far as the transport can tell.
#[derive(Debug, Clone, Copy, PartialEq, Eq)]
pub enum Delivery {
    /// No response arrived.
    Failed,
    /// A response arrived with this HTTP status.
    Responded { status: u16 },
}

/// What reading the payload of a successful response gave.
#[derive(Debug, PartialEq, Eq)]
pub enum Payload {
    /// The transport failed before the payload had arrived in full.
    Lost,
    /// The payload arrived and is not JSON.
    Unparsed,
    /// The payload arrived and is this document.
    Document(Json),
}

/// What the client wants next after hearing how the post went.
#[derive(Debug, PartialEq, Eq)]
pub enum Progress {
    /// The response is a success: decode its payload and report it.
    AwaitPayload,
    /// The call is over with this result.
    Settled(Result<String, CompletionError>),
}

/// A whole exchange at once: how the post went and, for a response, what
/// reading its payload gave.
#[derive(Debug, PartialEq, Eq)]
pub enum Exchange {
    /// No response arrived.
    Failed,
    /// A response arrived.
    Responded { status: u16, payload: Payload },
}

/// Whether `status` lies in the range 200 to 299.
pub open spec fn is_success(status: u16) -> bool {
    200 <= status < 300
}

/// The answer drawn from the candidate texts: the first one, trimmed, or the
/// fixed notice when there is none.
pub open spec fn answer(candidates: Seq<Seq<char>>) -> Seq<char> {
    if candidates.len() > 0 {
        trimmed(candidates[0])
    } else {
        NO_RESPONSE@
    }
}

/// The mathematical value of a call's result.
pub open spec fn result_view(result: Result<String, CompletionError>) -> Result<
    Seq<char>,
    CompletionError,
> {
    match result {
        Ok(text) => Ok(text@),
        Err(e) => Err(e),
    }
}

/// What the payload of a successful response settles the call with.
pub open spec fn payload_result(payload: Payload) -> Result<Seq<char>, CompletionError> {
    match payload {
        Payload::Lost => Err(CompletionError::Transport),
        Payload::Unparsed => Err(CompletionError::Payload),
        Payload::Document(document) => match candidates(document@) {
            Some(texts) => Ok(answer(texts)),
            None => Err(CompletionError::Payload),
        },
    }
}

/// The classification of an exchange, in order of precedence: a transport
/// failure; a status outside 200 to 299, answered with the status in decimal;
/// a payload that was lost on the way, which is a transport failure too; a
/// payload that is not of the expected shape; a first candidate, trimmed; no
/// candidate at all.
pub open spec fn classified(exchange: Exchange) -> Result<Seq<char>, CompletionError> {
    match exchange {
        Exchange::Failed => Err(CompletionError::Transport),
        Exchange::Responded { status, payload } => if is_success(status) {
            payload_result(payload)
        } else {
            Ok(decimal(status as nat))
        },
    }
}

/// Decides [`is_success`].
pub fn status_is_success(status: u16) -> (r: bool)
    ensures
        r == is_success(status),
{
    200 <= status && status < 300
}

/// First step of a call: the post has been attempted. A transport failure
/// settles the call with an error, a status outside 200 to 299 settles it with
/// that status as the answer, and a success asks for the payload.
pub fn on_delivery(delivery: Delivery) -> (progress: Progress)
    ensures
        (match delivery {
            Delivery::Failed => progress == Progress::Settled(Err(CompletionError::Transport)),
            Delivery::Responded { status } => if is_success(status) {
                progress == Progress::AwaitPayload
            } else {
                progress matches Progress::Settled(Ok(text)) && text@ == decimal(status as nat)
            },
        }),
{
    match delivery {
        Delivery::Failed => Progress::Settled(Err(CompletionError::Transport)),
        Delivery::Responded { status } => {
            if status_is_success(status) {
                Progress::AwaitPayload
            } else {
                Progress::Settled(Ok(to_decimal(status)))
            }
        },
    }
}

/// Second step of a call: the payload of a successful response has been
/// read, or could not be. A payload that is not JSON, or not of the expected
/// shape, is a payload error.
pub fn on_payload(payload: Payload) -> (result: Result<String, CompletionError>)
    ensures
        result_view(result) == payload_result(payload),
{
    match payload {
        Payload::Lost => Err(CompletionError::Transport),
        Payload::Unparsed => Err(CompletionError::Payload),
        Payload::Document(document) => match decode(&document) {
            Some(completion) => {
                if completion.candidates.len() > 0 {
                    Ok(trim(completion.candidates[0].as_str()))
                } else {
                    Ok(NO_RESPONSE.to_owned())
                }
            },
            None => Err(CompletionError::Payload),
        },
    }
}

/// Classifies a whole exchange by taking both steps in turn.
pub fn conclude(exchange: Exchange) -> (result: Result<String, CompletionError>)
    ensures
        result_view(result) == classified(exchange),
{
    let delivery = match &exchange {
        Exchange::Failed => Delivery::Failed,
        Exchange::Responded { status, .. } => Delivery::Responded { status: *status },
    };
    match on_delivery(delivery) {
        Progress::Settled(result) => result,
        Progress::AwaitPayload => match exchange {
            Exchange::Responded { payload, .. } => on_payload(payload),
            Exchange::Failed => Err(CompletionError::Transport),
        },
    }
}

} // verus!
