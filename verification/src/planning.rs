//! The timetable client: the two requests of the exchange with the school's
//! API, and what to make of each answer.
//!
//! The exchange runs outside the library. It sends the request that
//! [`login_request`] builds, hands the answer to [`agenda_request`], sends the
//! request that comes back, hands that answer to [`agenda_card`], and posts
//! what [`planning_message`] makes of the result.

use crate::agenda::{render_agenda, rendered_view, rendering};
use crate::calendar::{instant_utc, utc_instant};
use crate::json::{json_document, FormatError};
use crate::message::{Card, CardView, MessageView, OutgoingMessage};
use crate::text::{
    chars_of, find, first_occurrence, is_first_occurrence, lemma_first_occurrence_exists,
    lemma_prefix_before, occurs_at, prefix_before, push_signed_decimal, signed_decimal,
    take_until, text_of,
};
use vstd::prelude::*;
use vstd::string::StringSliceAdditionalSpecFns;
use vstd::utf8::encode_utf8;

verus! {

/// Where the login is asked for.
pub const AUTHORIZE_URL: &'static str =
    "https://authentication.kordis.fr/oauth/authorize?response_type=token&client_id=skolae-app";

/// The agenda's address up to the start of the range.
pub const AGENDA_URL_START: &'static str = "https://api.kordis.fr/me/agenda?start=";

/// What stands between the start and the end of the range in the agenda's
/// address.
pub const AGENDA_URL_END: &'static str = "&end=";

/// What precedes the token in the address that the login redirects to.
pub const TOKEN_MARKER: &'static str = "access_token=";

/// What ends the token, where anything follows it.
pub const TOKEN_END: char = '&';

/// A user of the school's API.
#[derive(Clone, Debug, PartialEq, Eq)]
pub struct Credentials {
    pub username: String,
    pub password: String,
}

/// An HTTP `GET` with an `Authorization` header and no body.
#[derive(Clone, Debug, PartialEq, Eq)]
pub struct Request {
    pub url: String,
    pub authorization: String,
}

/// The model of a [`Request`].
pub struct RequestView {
    pub url: Seq<char>,
    pub authorization: Seq<char>,
}

impl View for Request {
    type V = RequestView;

    open spec fn view(&self) -> RequestView {
        RequestView { url: self.url@, authorization: self.authorization@ }
    }
}

/// How the login request ended.
#[derive(Clone, Debug, PartialEq, Eq)]
pub enum LoginAnswer {
    /// The request failed in transport.
    Unreachable,
    /// A response came; `location` is its `Location` header, where it has one
    /// that reads as text.
    Answered { location: Option<String> },
}

/// How the agenda request ended.
#[derive(Clone, Debug, PartialEq, Eq)]
pub enum AgendaAnswer {
    /// The request failed in transport.
    Unreachable,
    /// A response came, with this body.
    Answered { body: String },
}

/// Why no timetable can be shown.
#[derive(Clone, Copy, Debug, PartialEq, Eq, Structural)]
pub enum TimetableError {
    /// The login request failed in transport.
    Connection,
    /// The login gave no token, or the credentials are too long to be sent.
    Auth,
    /// The agenda request failed in transport.
    Fetch,
    /// The agenda came and could not be rendered.
    Format(FormatError),
}

/// The standard base64 encoding of `bytes`, with padding, as the `base64`
/// crate computes it.
pub uninterp spec fn base64(bytes: Seq<u8>) -> Seq<char>;

/// Whether the encoding of `length` bytes has a length that fits in a
/// `usize`: four characters for every three bytes begun.
pub open spec fn encodable(length: nat) -> bool {
    (length / 3) * 4 + 4 <= usize::MAX
}

/// `base64::encode`, the encoding with the standard alphabet and padding. The
/// result depends on the bytes alone and `base64` names it. The call panics
/// where the length of the encoding overflows `usize`, which `requires` rules
/// out.
#[verifier::external_body]
#[allow(deprecated)]
fn base64_text(bytes: &[u8]) -> (encoded: String)
    requires
        encodable(bytes@.len()),
    ensures
        encoded@ == base64(bytes@),
{
    base64::encode(bytes)
}

/// What the login encodes: the user's name, a colon, the password.
pub open spec fn user_pass(username: Seq<char>, password: Seq<char>) -> Seq<char> {
    username + ":"@ + password
}

/// The `Authorization` header of the login request.
pub open spec fn basic_authorization(username: Seq<char>, password: Seq<char>) -> Seq<char> {
    "Basic "@ + base64(encode_utf8(user_pass(username, password)))
}

/// What [`login_request`] gives: the request, or `Auth` where the credentials
/// are too long to encode.
pub open spec fn login_of(username: Seq<char>, password: Seq<char>) -> Result<
    RequestView,
    TimetableError,
> {
    if encodable(encode_utf8(user_pass(username, password)).len()) {
        Ok(
            RequestView {
                url: AUTHORIZE_URL@,
                authorization: basic_authorization(username, password),
            },
        )
    } else {
        Err(TimetableError::Auth)
    }
}

/// The first request: the login, with the credentials in a `Basic`
/// authorization.
pub fn login_request(credentials: &Credentials) -> (request: Result<Request, TimetableError>)
    ensures
        request_view(request) == login_of(credentials.username@, credentials.password@),
{
    let mut pair = credentials.username.clone();
    pair.append(":");
    pair.append(credentials.password.as_str());
    let bytes = pair.as_str().as_bytes();
    if bytes.len() / 3 > (usize::MAX - 4) / 4 {
        return Err(TimetableError::Auth);
    }
    let encoded = base64_text(bytes);
    let mut authorization = "Basic ".to_owned();
    authorization.append(encoded.as_str());
    Ok(Request { url: AUTHORIZE_URL.to_owned(), authorization })
}

/// What a login gave: the token that authorizes the agenda request. It
/// serves one exchange and is kept nowhere.
#[derive(Clone, Debug, PartialEq, Eq)]
pub struct AuthSession {
    pub token: String,
}

impl AuthSession {
    /// The agenda request that this login authorizes, for the range from
    /// `start` to `end`.
    pub fn agenda_request(&self, start: i64, end: i64) -> (request: Request)
        ensures
            request@ == bearer_request(self.token@, start, end),
    {
        let mut url = AGENDA_URL_START.to_owned();
        push_signed_decimal(&mut url, start);
        url.append(AGENDA_URL_END);
        push_signed_decimal(&mut url, end);
        let mut authorization = "Bearer ".to_owned();
        authorization.append(self.token.as_str());
        Request { url, authorization }
    }
}

/// The model of a request or the error in its place.
pub open spec fn request_view(request: Result<Request, TimetableError>) -> Result<
    RequestView,
    TimetableError,
> {
    match request {
        Ok(r) => Ok(r@),
        Err(error) => Err(error),
    }
}

/// The token in a redirect address: what follows the first `access_token=`,
/// up to the next `&` or to the end. `None` where the address holds no
/// `access_token=`.
pub open spec fn token_in(location: Seq<char>) -> Option<Seq<char>> {
    match first_occurrence(location, TOKEN_MARKER@) {
        Some(at) => Some(prefix_before(location.skip(at + TOKEN_MARKER@.len()), TOKEN_END)),
        None => None,
    }
}

/// Extracts the token from the `Location` header of the login's response.
pub fn extract_token(location: &str) -> (token: Result<String, TimetableError>)
    ensures
        match token {
            Ok(found) => token_in(location@) == Some(found@),
            Err(error) => error == TimetableError::Auth && token_in(location@) is None,
        },
{
    let address = chars_of(location);
    let marker = chars_of(TOKEN_MARKER);
    match find(&address, &marker) {
        Some(at) => {
            assert(is_first_occurrence(address@, marker@, at as int));
            assert(at + marker.len() <= address.len());
            let token = take_until(&address, at + marker.len(), TOKEN_END);
            Ok(text_of(&token))
        },
        None => Err(TimetableError::Auth),
    }
}

/// An address holds a token exactly where `access_token=` stands in it
/// somewhere.
pub proof fn lemma_token_iff_marker(location: Seq<char>)
    ensures
        token_in(location) is Some <==> exists|at: int| occurs_at(location, TOKEN_MARKER@, at),
{
    if exists|at: int| occurs_at(location, TOKEN_MARKER@, at) {
        let at = choose|at: int| occurs_at(location, TOKEN_MARKER@, at);
        lemma_first_occurrence_exists(location, TOKEN_MARKER@, at);
    }
    if token_in(location) is Some {
        let first = first_occurrence(location, TOKEN_MARKER@)->0;
        assert(is_first_occurrence(location, TOKEN_MARKER@, first));
        assert(occurs_at(location, TOKEN_MARKER@, first));
    }
}

/// The token holds no `&`, and it is followed by one unless it runs to the
/// end of the address.
pub proof fn lemma_token_ends(location: Seq<char>)
    requires
        token_in(location) is Some,
    ensures
        !token_in(location)->0.contains(TOKEN_END),
        ({
            let start = first_occurrence(location, TOKEN_MARKER@)->0 + TOKEN_MARKER@.len();
            let end = start + token_in(location)->0.len();
            &&& 0 <= start <= end <= location.len()
            &&& token_in(location)->0 == location.subrange(start, end)
            &&& end < location.len() ==> location[end] == TOKEN_END
        }),
{
    let first = first_occurrence(location, TOKEN_MARKER@)->0;
    assert(is_first_occurrence(location, TOKEN_MARKER@, first));
    assert(occurs_at(location, TOKEN_MARKER@, first));
    let start = first + TOKEN_MARKER@.len();
    let rest = location.skip(start);
    lemma_prefix_before(rest, TOKEN_END);
    let token = prefix_before(rest, TOKEN_END);
    assert(token =~= location.subrange(start, start + token.len()));
    if start + token.len() < location.len() {
        assert(rest[token.len() as int] == location[start + token.len()]);
    }
}

/// The address of the agenda between two instants, in milliseconds since the
/// Unix epoch.
pub open spec fn agenda_url(start: i64, end: i64) -> Seq<char> {
    AGENDA_URL_START@ + signed_decimal(start as int) + AGENDA_URL_END@ + signed_decimal(end as int)
}

/// The agenda request for a token.
pub open spec fn bearer_request(token: Seq<char>, start: i64, end: i64) -> RequestView {
    RequestView { url: agenda_url(start, end), authorization: "Bearer "@ + token }
}

/// What follows the login: the agenda request with the token of the
/// redirect, `Connection` where the login failed in transport, `Auth` where
/// its response has no `Location` header or the header no token.
pub open spec fn after_login(answer: LoginAnswer, start: i64, end: i64) -> Result<
    RequestView,
    TimetableError,
> {
    match answer {
        LoginAnswer::Unreachable => Err(TimetableError::Connection),
        LoginAnswer::Answered { location: None } => Err(TimetableError::Auth),
        LoginAnswer::Answered { location: Some(address) } => match token_in(address@) {
            Some(token) => Ok(bearer_request(token, start, end)),
            None => Err(TimetableError::Auth),
        },
    }
}

/// The second request: the agenda between `start` and `end`, with the token
/// that the login gave in a `Bearer` authorization.
pub fn agenda_request(answer: &LoginAnswer, start: i64, end: i64) -> (request: Result<
    Request,
    TimetableError,
>)
    ensures
        request_view(request) == after_login(*answer, start, end),
{
    match answer {
        LoginAnswer::Unreachable => Err(TimetableError::Connection),
        LoginAnswer::Answered { location: None } => Err(TimetableError::Auth),
        LoginAnswer::Answered { location: Some(address) } => {
            match extract_token(address.as_str()) {
                Ok(token) => Ok(AuthSession { token }.agenda_request(start, end)),
                Err(error) => Err(error),
            }
        },
    }
}

/// What the agenda's answer gives: `Fetch` where the request failed in
/// transport, `Format` where the body is no JSON document or cannot be
/// rendered, no card where the document has no array under `result`, else
/// the card.
pub open spec fn after_agenda(answer: AgendaAnswer, rendered_at: Seq<char>) -> Result<
    Option<CardView>,
    TimetableError,
> {
    match answer {
        AgendaAnswer::Unreachable => Err(TimetableError::Fetch),
        AgendaAnswer::Answered { body } => match json_document(body@) {
            None => Err(TimetableError::Format(FormatError::Malformed)),
            Some(document) => match rendering(document, rendered_at) {
                Ok(card) => Ok(card),
                Err(error) => Err(TimetableError::Format(error)),
            },
        },
    }
}

/// The model of a card, of its absence, or of the error in their place.
pub open spec fn outcome_view(outcome: Result<Option<Card>, TimetableError>) -> Result<
    Option<CardView>,
    TimetableError,
> {
    match outcome {
        Ok(Some(card)) => Ok(Some(card@)),
        Ok(None) => Ok(None),
        Err(error) => Err(error),
    }
}

/// Renders the agenda's answer as a card that carries `rendered_at` as its
/// timestamp.
pub fn agenda_card(answer: &AgendaAnswer, rendered_at: &str) -> (outcome: Result<
    Option<Card>,
    TimetableError,
>)
    ensures
        outcome_view(outcome) == after_agenda(*answer, rendered_at@),
{
    match answer {
        AgendaAnswer::Unreachable => Err(TimetableError::Fetch),
        AgendaAnswer::Answered { body } => {
            let rendered = render_agenda(body.as_str(), rendered_at);
            assert(rendered_view(rendered) == match json_document(body@) {
                Some(document) => rendering(document, rendered_at@),
                None => Err(FormatError::Malformed),
            });
            match rendered {
                Ok(card) => Ok(card),
                Err(error) => Err(TimetableError::Format(error)),
            }
        },
    }
}

/// The text that tells the channel of an error.
pub open spec fn error_text(error: TimetableError) -> Seq<char> {
    match error {
        TimetableError::Connection => "Erreur lors de la connexion à l'API Kordis."@,
        TimetableError::Auth => "Erreur lors de l'authentification."@,
        TimetableError::Fetch => "Erreur lors de la récupération de l'agenda."@,
        TimetableError::Format(_) => "Erreur lors de la lecture de l'agenda."@,
    }
}

impl TimetableError {
    /// The text that tells the channel of this error.
    pub fn message(&self) -> (text: String)
        ensures
            text@ == error_text(*self),
    {
        match self {
            TimetableError::Connection => "Erreur lors de la connexion à l'API Kordis.".to_owned(),
            TimetableError::Auth => "Erreur lors de l'authentification.".to_owned(),
            TimetableError::Fetch => "Erreur lors de la récupération de l'agenda.".to_owned(),
            TimetableError::Format(_) => "Erreur lors de la lecture de l'agenda.".to_owned(),
        }
    }
}

/// What the channel is sent at the end of the exchange: the card, the text
/// of the error, or nothing where there is no card to show.
pub open spec fn message_of(outcome: Result<Option<CardView>, TimetableError>) -> Option<
    MessageView,
> {
    match outcome {
        Ok(Some(card)) => Some(MessageView::Card(card)),
        Ok(None) => None,
        Err(error) => Some(MessageView::Text(error_text(error))),
    }
}

/// The model of an optional message.
pub open spec fn optional_message(message: Option<OutgoingMessage>) -> Option<MessageView> {
    match message {
        Some(m) => Some(m@),
        None => None,
    }
}

/// The message that ends the exchange.
pub fn planning_message(outcome: Result<Option<Card>, TimetableError>) -> (message: Option<
    OutgoingMessage,
>)
    ensures
        optional_message(message) == message_of(outcome_view(outcome)),
{
    match outcome {
        Ok(Some(card)) => Some(OutgoingMessage::Card(card)),
        Ok(None) => None,
        Err(error) => Some(OutgoingMessage::Text(error.message())),
    }
}

/// The range of the agenda that is asked for: from the start of October 2023
/// to the start of November 2023, each as the instant that the calendar
/// gives for it. `None` where the calendar gives none for either.
pub open spec fn window() -> Option<(i64, i64)> {
    match (utc_instant(2023, 10, 1, 0, 0, 0), utc_instant(2023, 11, 1, 0, 0, 0)) {
        (Some(start), Some(end)) => Some((start, end)),
        _ => None,
    }
}

/// The range of the agenda that is asked for.
pub fn agenda_window() -> (range: Option<(i64, i64)>)
    ensures
        range == window(),
{
    let start = match instant_utc(2023, 10, 1, 0, 0, 0) {
        Some(at) => at,
        None => { return None; },
    };
    let end = match instant_utc(2023, 11, 1, 0, 0, 0) {
        Some(at) => at,
        None => { return None; },
    };
    Some((start, end))
}

} // verus!
