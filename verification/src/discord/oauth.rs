//! How a client gets in: tokens, the order in which they are tried, and the token endpoint.
use crate::discord::session::FrameError;
use crate::json;
use crate::text;
use vstd::prelude::*;
use vstd::string::*;

verus! {

broadcast use vstd::string::group_string_axioms;

// ---- tokens ----

/// What the token endpoint hands out.
pub struct TokenData {
    /// What a client authenticates with.
    pub access_token: String,
    /// What a new token can be had for when this one has run out.
    pub refresh_token: Option<String>,
}

/// A token, by its characters.
pub struct TokenView {
    pub access_token: Seq<char>,
    pub refresh_token: Option<Seq<char>>,
}

impl View for TokenData {
    type V = TokenView;

    open spec fn view(&self) -> TokenView {
        TokenView {
            access_token: self.access_token@,
            refresh_token: text::option_text(self.refresh_token),
        }
    }
}

/// A token that may be missing, by its characters.
pub open spec fn option_token(t: Option<TokenData>) -> Option<TokenView> {
    match t {
        Some(t) => Some(t@),
        None => None,
    }
}

// ---- the order of the attempts ----

/// How far the client has come.
pub enum AuthState {
    /// The saved token has been presented.
    TryingSaved { refresh: Option<String> },
    /// A new token has been asked for in place of the saved one.
    Refreshing,
    /// The new token has been presented.
    TryingRefreshed { token: TokenData },
    /// The user has been asked.
    Authorizing,
    /// The user's code has been sent in for a token.
    Exchanging,
    /// The token for the user's code has been presented.
    TryingFresh { token: TokenData },
    /// The client is in.
    Finished,
    /// The client is not let in.
    Failed,
}

/// A state, by its views.
pub enum AuthStateView {
    TryingSaved { refresh: Option<Seq<char>> },
    Refreshing,
    TryingRefreshed { token: TokenView },
    Authorizing,
    Exchanging,
    TryingFresh { token: TokenView },
    Finished,
    Failed,
}

impl View for AuthState {
    type V = AuthStateView;

    open spec fn view(&self) -> AuthStateView {
        match *self {
            AuthState::TryingSaved { refresh } => AuthStateView::TryingSaved {
                refresh: text::option_text(refresh),
            },
            AuthState::Refreshing => AuthStateView::Refreshing,
            AuthState::TryingRefreshed { token } => AuthStateView::TryingRefreshed {
                token: token@,
            },
            AuthState::Authorizing => AuthStateView::Authorizing,
            AuthState::Exchanging => AuthStateView::Exchanging,
            AuthState::TryingFresh { token } => AuthStateView::TryingFresh { token: token@ },
            AuthState::Finished => AuthStateView::Finished,
            AuthState::Failed => AuthStateView::Failed,
        }
    }
}

/// What came of the last step.
pub enum AuthEvent {
    /// The presented token was accepted, or not.
    Reply { accepted: bool },
    /// The new token, if one was to be had.
    Refreshed(Option<TokenData>),
    /// The user agreed.
    Code(String),
    /// The token for the user's code.
    Token(TokenData),
}

/// An event, by its views.
pub enum AuthEventView {
    Reply { accepted: bool },
    Refreshed(Option<TokenView>),
    Code(Seq<char>),
    Token(TokenView),
}

impl View for AuthEvent {
    type V = AuthEventView;

    open spec fn view(&self) -> AuthEventView {
        match *self {
            AuthEvent::Reply { accepted } => AuthEventView::Reply { accepted },
            AuthEvent::Refreshed(t) => AuthEventView::Refreshed(option_token(t)),
            AuthEvent::Code(c) => AuthEventView::Code(c@),
            AuthEvent::Token(t) => AuthEventView::Token(t@),
        }
    }
}

/// What to do next.
pub enum AuthStep {
    /// Present a token.
    Authenticate { access_token: String },
    /// Ask the endpoint for a new token.
    Refresh { refresh_token: String },
    /// Ask the user.
    Authorize,
    /// Send the user's code to the endpoint.
    Exchange { code: String },
    /// Go on; where there is a token, save it first.
    Finish { save: Option<TokenData> },
    /// Give up: a token that was just handed out is not accepted.
    Fail,
}

/// A step, by its views.
pub enum AuthStepView {
    Authenticate { access_token: Seq<char> },
    Refresh { refresh_token: Seq<char> },
    Authorize,
    Exchange { code: Seq<char> },
    Finish { save: Option<TokenView> },
    Fail,
}

impl View for AuthStep {
    type V = AuthStepView;

    open spec fn view(&self) -> AuthStepView {
        match *self {
            AuthStep::Authenticate { access_token } => AuthStepView::Authenticate {
                access_token: access_token@,
            },
            AuthStep::Refresh { refresh_token } => AuthStepView::Refresh {
                refresh_token: refresh_token@,
            },
            AuthStep::Authorize => AuthStepView::Authorize,
            AuthStep::Exchange { code } => AuthStepView::Exchange { code: code@ },
            AuthStep::Finish { save } => AuthStepView::Finish { save: option_token(save) },
            AuthStep::Fail => AuthStepView::Fail,
        }
    }
}

/// The first step: the saved token, or the user.
pub open spec fn first_step(saved: Option<TokenView>) -> (AuthStateView, AuthStepView) {
    match saved {
        Some(token) => (
            AuthStateView::TryingSaved { refresh: token.refresh_token },
            AuthStepView::Authenticate { access_token: token.access_token },
        ),
        None => (AuthStateView::Authorizing, AuthStepView::Authorize),
    }
}

/// Whether an event answers the step that a state waits for.
pub open spec fn answers(state: AuthStateView, event: AuthEventView) -> bool {
    match state {
        AuthStateView::TryingSaved { .. } => event is Reply,
        AuthStateView::Refreshing => event is Refreshed,
        AuthStateView::TryingRefreshed { .. } => event is Reply,
        AuthStateView::Authorizing => event is Code,
        AuthStateView::Exchanging => event is Token,
        AuthStateView::TryingFresh { .. } => event is Reply,
        AuthStateView::Finished => false,
        AuthStateView::Failed => false,
    }
}

/// The state and the step after an event: a saved token that is refused is renewed where that
/// is possible, and in the end the user is asked. A renewed or new token is saved once it has
/// been accepted. After the end nothing more happens, and an event that does not answer the last
/// step leads to the user.
pub open spec fn next_step(state: AuthStateView, event: AuthEventView) -> (
    AuthStateView,
    AuthStepView,
) {
    match (state, event) {
        (AuthStateView::TryingSaved { refresh }, AuthEventView::Reply { accepted }) => {
            if accepted {
                (AuthStateView::Finished, AuthStepView::Finish { save: None })
            } else {
                match refresh {
                    Some(r) => (
                        AuthStateView::Refreshing,
                        AuthStepView::Refresh { refresh_token: r },
                    ),
                    None => (AuthStateView::Authorizing, AuthStepView::Authorize),
                }
            }
        },
        (AuthStateView::Refreshing, AuthEventView::Refreshed(Some(token))) => (
            AuthStateView::TryingRefreshed { token },
            AuthStepView::Authenticate { access_token: token.access_token },
        ),
        (AuthStateView::TryingRefreshed { token }, AuthEventView::Reply { accepted: true }) => (
            AuthStateView::Finished,
            AuthStepView::Finish { save: Some(token) },
        ),
        (AuthStateView::Authorizing, AuthEventView::Code(code)) => (
            AuthStateView::Exchanging,
            AuthStepView::Exchange { code },
        ),
        (AuthStateView::Exchanging, AuthEventView::Token(token)) => (
            AuthStateView::TryingFresh { token },
            AuthStepView::Authenticate { access_token: token.access_token },
        ),
        (AuthStateView::TryingFresh { token }, AuthEventView::Reply { accepted }) => {
            if accepted {
                (AuthStateView::Finished, AuthStepView::Finish { save: Some(token) })
            } else {
                (AuthStateView::Failed, AuthStepView::Fail)
            }
        },
        (AuthStateView::Finished, _) => (
            AuthStateView::Finished,
            AuthStepView::Finish { save: None },
        ),
        (AuthStateView::Failed, _) => (AuthStateView::Failed, AuthStepView::Fail),
        _ => (AuthStateView::Authorizing, AuthStepView::Authorize),
    }
}

/// The first step of getting in.
pub fn authenticate(saved: Option<TokenData>) -> (r: (AuthState, AuthStep))
    ensures
        (r.0@, r.1@) == first_step(option_token(saved)),
{
    match saved {
        Some(token) => (
            AuthState::TryingSaved { refresh: token.refresh_token },
            AuthStep::Authenticate { access_token: token.access_token },
        ),
        None => (AuthState::Authorizing, AuthStep::Authorize),
    }
}

/// The next step of getting in.
pub fn advance(state: AuthState, event: AuthEvent) -> (r: (AuthState, AuthStep))
    ensures
        (r.0@, r.1@) == next_step(state@, event@),
{
    match (state, event) {
        (AuthState::TryingSaved { refresh }, AuthEvent::Reply { accepted }) => {
            if accepted {
                (AuthState::Finished, AuthStep::Finish { save: None })
            } else {
                match refresh {
                    Some(r) => (AuthState::Refreshing, AuthStep::Refresh { refresh_token: r }),
                    None => (AuthState::Authorizing, AuthStep::Authorize),
                }
            }
        },
        (AuthState::Refreshing, AuthEvent::Refreshed(Some(token))) => {
            let access_token = token.access_token.clone();
            (AuthState::TryingRefreshed { token }, AuthStep::Authenticate { access_token })
        },
        (AuthState::TryingRefreshed { token }, AuthEvent::Reply { accepted: true }) => (
            AuthState::Finished,
            AuthStep::Finish { save: Some(token) },
        ),
        (AuthState::Authorizing, AuthEvent::Code(code)) => (
            AuthState::Exchanging,
            AuthStep::Exchange { code },
        ),
        (AuthState::Exchanging, AuthEvent::Token(token)) => {
            let access_token = token.access_token.clone();
            (AuthState::TryingFresh { token }, AuthStep::Authenticate { access_token })
        },
        (AuthState::TryingFresh { token }, AuthEvent::Reply { accepted }) => {
            if accepted {
                (AuthState::Finished, AuthStep::Finish { save: Some(token) })
            } else {
                (AuthState::Failed, AuthStep::Fail)
            }
        },
        (AuthState::Finished, _) => (AuthState::Finished, AuthStep::Finish { save: None }),
        (AuthState::Failed, _) => (AuthState::Failed, AuthStep::Fail),
        _ => (AuthState::Authorizing, AuthStep::Authorize),
    }
}

/// How many steps are left at most.
pub open spec fn steps_left(state: AuthStateView) -> nat {
    match state {
        AuthStateView::TryingSaved { .. } => 6,
        AuthStateView::Refreshing => 5,
        AuthStateView::TryingRefreshed { .. } => 4,
        AuthStateView::Authorizing => 3,
        AuthStateView::Exchanging => 2,
        AuthStateView::TryingFresh { .. } => 1,
        AuthStateView::Finished => 0,
        AuthStateView::Failed => 0,
    }
}

/// Every event brings the client closer to an end, so it comes to one after six events at most.
pub proof fn attempts_end(state: AuthStateView, event: AuthEventView)
    requires
        answers(state, event),
    ensures
        steps_left(next_step(state, event).0) < steps_left(state),
        steps_left(state) == 0 <==> state is Finished || state is Failed,
{
}

/// The client gets in only on an accepted token, a token is saved only when it has just been
/// accepted, and the client fails only on a refused token.
pub proof fn only_accepted_tokens_count(state: AuthStateView, event: AuthEventView)
    requires
        answers(state, event),
    ensures
        next_step(state, event).0 is Finished ==> event == (AuthEventView::Reply { accepted: true }),
        next_step(state, event).0 is Finished <==> next_step(state, event).1 is Finish,
        next_step(state, event).1 matches AuthStepView::Finish { save: Some(t) } ==> (state
            == AuthStateView::TryingRefreshed { token: t } || state == AuthStateView::TryingFresh {
            token: t,
        }),
        next_step(state, event).0 is Failed ==> state is TryingFresh && event == (
        AuthEventView::Reply { accepted: false }),
{
}

/// Where the client stands after a number of events, and what it does then.
pub open spec fn after_events(saved: Option<TokenView>, events: Seq<AuthEventView>) -> (
    AuthStateView,
    AuthStepView,
)
    decreases events.len(),
{
    if events.len() == 0 {
        first_step(saved)
    } else {
        next_step(after_events(saved, events.drop_last()).0, events.last())
    }
}

proof fn lemma_one_more(saved: Option<TokenView>, events: Seq<AuthEventView>, event: AuthEventView)
    ensures
        after_events(saved, events.push(event)) == next_step(after_events(saved, events).0, event),
{
    assert(events.push(event).drop_last() =~= events);
}

/// A saved token is presented first. Where it is accepted the client is in, and nothing is saved.
pub proof fn saved_tokens_are_tried_first(token: TokenView)
    ensures
        after_events(Some(token), Seq::empty()).1 == (AuthStepView::Authenticate {
            access_token: token.access_token,
        }),
        after_events(Some(token), seq![AuthEventView::Reply { accepted: true }]) == (
            AuthStateView::Finished,
            AuthStepView::Finish { save: None },
        ),
{
    let none = Seq::<AuthEventView>::empty();
    lemma_one_more(Some(token), none, AuthEventView::Reply { accepted: true });
    assert(none.push(AuthEventView::Reply { accepted: true }) =~= seq![
        AuthEventView::Reply { accepted: true },
    ]);
}

/// A saved token that is refused is renewed with what it came with for that; the new token is
/// presented, and once it is accepted it is saved and the client is in.
pub proof fn refused_tokens_are_renewed(token: TokenView, refresh: Seq<char>, new: TokenView)
    requires
        token.refresh_token == Some(refresh),
    ensures
        ({
            let refused = AuthEventView::Reply { accepted: false };
            let accepted = AuthEventView::Reply { accepted: true };
            let renewed = AuthEventView::Refreshed(Some(new));
            let none = Seq::<AuthEventView>::empty();
            &&& after_events(Some(token), none.push(refused)).1 == (AuthStepView::Refresh {
                refresh_token: refresh,
            })
            &&& after_events(Some(token), none.push(refused).push(renewed)).1 == (
            AuthStepView::Authenticate { access_token: new.access_token })
            &&& after_events(Some(token), none.push(refused).push(renewed).push(accepted)) == (
                AuthStateView::Finished,
                AuthStepView::Finish { save: Some(new) },
            )
        }),
{
    let refused = AuthEventView::Reply { accepted: false };
    let renewed = AuthEventView::Refreshed(Some(new));
    let none = Seq::<AuthEventView>::empty();
    lemma_one_more(Some(token), none, refused);
    lemma_one_more(Some(token), none.push(refused), renewed);
    lemma_one_more(
        Some(token),
        none.push(refused).push(renewed),
        AuthEventView::Reply { accepted: true },
    );
}

/// The user is asked where there is no saved token, where the saved one is refused and cannot be
/// renewed, where renewing fails, and where the renewed token is refused too.
pub proof fn the_user_is_asked_in_the_end(token: TokenView, new: TokenView)
    ensures
        ({
            let refused = AuthEventView::Reply { accepted: false };
            let failed = AuthEventView::Refreshed(None);
            let renewed = AuthEventView::Refreshed(Some(new));
            let none = Seq::<AuthEventView>::empty();
            let ask = (AuthStateView::Authorizing, AuthStepView::Authorize);
            &&& after_events(None, none) == ask
            &&& token.refresh_token is None ==> after_events(Some(token), none.push(refused)) == ask
            &&& token.refresh_token is Some ==> after_events(
                Some(token),
                none.push(refused).push(failed),
            ) == ask
            &&& token.refresh_token is Some ==> after_events(
                Some(token),
                none.push(refused).push(renewed).push(refused),
            ) == ask
        }),
{
    let refused = AuthEventView::Reply { accepted: false };
    let failed = AuthEventView::Refreshed(None);
    let renewed = AuthEventView::Refreshed(Some(new));
    let none = Seq::<AuthEventView>::empty();
    lemma_one_more(Some(token), none, refused);
    lemma_one_more(Some(token), none.push(refused), failed);
    lemma_one_more(Some(token), none.push(refused), renewed);
    lemma_one_more(Some(token), none.push(refused).push(renewed), refused);
}

/// The code that the user agrees with is sent in for a token, and that token is presented. Once it is
/// accepted it is saved and the client is in; refused, the client gives up.
pub proof fn the_users_code_leads_in(code: Seq<char>, new: TokenView, accepted: bool)
    ensures
        ({
            let asked = AuthStateView::Authorizing;
            let sent = next_step(asked, AuthEventView::Code(code));
            let presented = next_step(sent.0, AuthEventView::Token(new));
            let done = next_step(presented.0, AuthEventView::Reply { accepted });
            &&& sent.1 == (AuthStepView::Exchange { code })
            &&& presented.1 == (AuthStepView::Authenticate { access_token: new.access_token })
            &&& accepted ==> done == (
                AuthStateView::Finished,
                AuthStepView::Finish { save: Some(new) },
            )
            &&& !accepted ==> done == (AuthStateView::Failed, AuthStepView::Fail)
        }),
{
}

// ---- replies ----

/// Whether a reply reports an error.
pub open spec fn is_error(doc: Map<Seq<char>, json::JsonNode>) -> bool {
    json::text_at(doc, "/evt"@) == Some("ERROR"@)
}

/// Whether a reply reports an error.
pub fn reports_error(message: &serde_json::Value) -> (r: bool)
    ensures
        r == is_error(json::json_nodes(*message)),
{
    match json::get_text(message, "/evt") {
        Some(evt) => text::same_text(evt.as_str(), "ERROR"),
        None => false,
    }
}

/// Whether the reply to a presented token says that it was accepted.
pub fn try_authenticate(payload: &[u8]) -> (r: Result<bool, FrameError>)
    ensures
        match r {
            Ok(accepted) => json::json_document(payload@) is Some && accepted == !is_error(
                json::json_document(payload@)->Some_0,
            ),
            Err(_) => json::json_document(payload@) is None,
        },
{
    match json::parse(payload) {
        Ok(message) => Ok(!reports_error(&message)),
        Err(_) => Err(FrameError::Malformed),
    }
}

/// Why asking the user led nowhere.
#[derive(Debug, Clone, Copy, PartialEq, Eq, Structural)]
pub enum AuthorizeError {
    /// The payload is no JSON text.
    Malformed,
    /// The reply reports an error.
    Denied,
    /// The reply holds no code.
    NoCode,
}

/// What the reply to the question for authorization comes to.
pub open spec fn authorization(doc: Map<Seq<char>, json::JsonNode>) -> Result<
    Seq<char>,
    AuthorizeError,
> {
    if is_error(doc) {
        Err(AuthorizeError::Denied)
    } else {
        match json::text_at(doc, "/data/code"@) {
            Some(code) => Ok(code),
            None => Err(AuthorizeError::NoCode),
        }
    }
}

/// Whether a result is the one that a reply comes to.
pub open spec fn is_authorization(
    r: Result<String, AuthorizeError>,
    doc: Map<Seq<char>, json::JsonNode>,
) -> bool {
    match r {
        Ok(code) => authorization(doc) == Ok::<_, AuthorizeError>(code@),
        Err(e) => authorization(doc) == Err::<Seq<char>, _>(e),
    }
}

/// The code in the reply to the question for authorization.
pub fn code_in(message: &serde_json::Value) -> (r: Result<String, AuthorizeError>)
    ensures
        is_authorization(r, json::json_nodes(*message)),
{
    if reports_error(message) {
        Err(AuthorizeError::Denied)
    } else {
        match json::get_text(message, "/data/code") {
            Some(code) => Ok(code),
            None => Err(AuthorizeError::NoCode),
        }
    }
}

/// The code that the user's consent is answered with.
pub fn authorize(payload: &[u8]) -> (r: Result<String, AuthorizeError>)
    ensures
        match json::json_document(payload@) {
            Some(doc) => is_authorization(r, doc),
            None => r == Err::<String, _>(AuthorizeError::Malformed),
        },
{
    match json::parse(payload) {
        Ok(message) => code_in(&message),
        Err(_) => Err(AuthorizeError::Malformed),
    }
}

// ---- the token endpoint ----

/// The form that a user's code is sent in with.
pub open spec fn exchange_form(client_id: Seq<char>, client_secret: Seq<char>, code: Seq<char>) -> Seq<char> {
    "client_id="@ + client_id + "&client_secret="@ + client_secret
        + "&grant_type=authorization_code&code="@ + code + "&redirect_uri=http://127.0.0.1"@
}

/// The form that a new token is asked for with.
pub open spec fn refresh_form(client_id: Seq<char>, client_secret: Seq<char>, refresh: Seq<char>) -> Seq<char> {
    "client_id="@ + client_id + "&client_secret="@ + client_secret
        + "&grant_type=refresh_token&refresh_token="@ + refresh
}

/// The form that a user's code is sent in with.
pub fn exchange_code(client_id: &str, client_secret: &str, code: &str) -> (r: String)
    ensures
        r@ == exchange_form(client_id@, client_secret@, code@),
{
    let mut r = "client_id=".to_string();
    r.append(client_id);
    r.append("&client_secret=");
    r.append(client_secret);
    r.append("&grant_type=authorization_code&code=");
    r.append(code);
    r.append("&redirect_uri=http://127.0.0.1");
    r
}

/// The form that a new token is asked for with.
pub fn refresh_token(client_id: &str, client_secret: &str, refresh: &str) -> (r: String)
    ensures
        r@ == refresh_form(client_id@, client_secret@, refresh@),
{
    let mut r = "client_id=".to_string();
    r.append(client_id);
    r.append("&client_secret=");
    r.append(client_secret);
    r.append("&grant_type=refresh_token&refresh_token=");
    r.append(refresh);
    r
}

/// The arguments with which `curl` posts a form to the endpoint.
pub open spec fn curl_args(form: Seq<char>) -> Seq<Seq<char>> {
    seq![
        "-s"@,
        "-X"@,
        "POST"@,
        "https://discord.com/api/oauth2/token"@,
        "-H"@,
        "Content-Type: application/x-www-form-urlencoded"@,
        "-d"@,
        form,
    ]
}

/// The arguments with which `curl` posts a form to the endpoint.
pub fn token_request(form: String) -> (r: Vec<String>)
    ensures
        text::texts(r@) == curl_args(form@),
{
    let mut r: Vec<String> = Vec::new();
    r.push("-s".to_string());
    r.push("-X".to_string());
    r.push("POST".to_string());
    r.push("https://discord.com/api/oauth2/token".to_string());
    r.push("-H".to_string());
    r.push("Content-Type: application/x-www-form-urlencoded".to_string());
    r.push("-d".to_string());
    r.push(form);
    assert(text::texts(r@) == curl_args(form@));
    r
}

/// Why the endpoint's answer holds no token.
#[derive(Debug)]
pub enum TokenError {
    /// The answer is no JSON text.
    Malformed,
    /// The endpoint names an error.
    Refused(String),
    /// There is no access token in the answer.
    NoAccessToken,
}

/// What the endpoint's answer comes to, where it is JSON: an error that it names, a token, or
/// neither.
pub open spec fn token_answer(doc: Map<Seq<char>, json::JsonNode>) -> Result<TokenView, Option<Seq<char>>> {
    match json::text_at(doc, "/error"@) {
        Some(e) => Err(Some(e)),
        None => match json::text_at(doc, "/access_token"@) {
            Some(access_token) => Ok(
                TokenView {
                    access_token,
                    refresh_token: json::text_at(doc, "/refresh_token"@),
                },
            ),
            None => Err(None),
        },
    }
}

/// Whether a result is the one that the endpoint's answer comes to.
pub open spec fn is_token_answer(
    r: Result<TokenData, TokenError>,
    doc: Map<Seq<char>, json::JsonNode>,
) -> bool {
    match r {
        Ok(t) => token_answer(doc) == Ok::<_, Option<Seq<char>>>(t@),
        Err(TokenError::Refused(e)) => token_answer(doc) == Err::<TokenView, _>(Some(e@)),
        Err(TokenError::NoAccessToken) => token_answer(doc) == Err::<TokenView, Option<Seq<char>>>(
            None,
        ),
        Err(TokenError::Malformed) => false,
    }
}

/// The token in the endpoint's answer, once it is known to be JSON.
pub fn token_in(answer: &serde_json::Value) -> (r: Result<TokenData, TokenError>)
    ensures
        is_token_answer(r, json::json_nodes(*answer)),
{
    if let Some(e) = json::get_text(answer, "/error") {
        return Err(TokenError::Refused(e));
    }
    match json::get_text(answer, "/access_token") {
        Some(access_token) => Ok(
            TokenData {
                access_token,
                refresh_token: json::get_text(answer, "/refresh_token"),
            },
        ),
        None => Err(TokenError::NoAccessToken),
    }
}

/// The token in the endpoint's answer.
pub fn token_response(body: &[u8]) -> (r: Result<TokenData, TokenError>)
    ensures
        match json::json_document(body@) {
            Some(doc) => is_token_answer(r, doc),
            None => r == Err::<TokenData, _>(TokenError::Malformed),
        },
{
    match json::parse(body) {
        Ok(answer) => token_in(&answer),
        Err(_) => Err(TokenError::Malformed),
    }
}

// ---- what the other side is told and says ----

/// The reply to the question for authorization is a refusal where it reports an error, whatever else
/// it holds; else it is the code in it.
pub proof fn errors_are_refusals(doc: Map<Seq<char>, json::JsonNode>)
    ensures
        ({
            let error = json::text_at(doc, "/evt"@) == Some("ERROR"@);
            let code = json::text_at(doc, "/data/code"@);
            &&& is_error(doc) <==> error
            &&& error ==> authorization(doc) == Err::<Seq<char>, _>(AuthorizeError::Denied)
            &&& !error && code is Some ==> authorization(doc) == Ok::<_, AuthorizeError>(
                code.unwrap(),
            )
            &&& !error && code is None ==> authorization(doc) == Err::<Seq<char>, _>(
                AuthorizeError::NoCode,
            )
        }),
{
}

/// The endpoint's answer is refused with the error that it names, whatever else it holds; else it is
/// the access token in it, with what that can be renewed with, where there is such a thing.
pub proof fn answers_hold_tokens(doc: Map<Seq<char>, json::JsonNode>)
    ensures
        ({
            let error = json::text_at(doc, "/error"@);
            let access = json::text_at(doc, "/access_token"@);
            let refresh = json::text_at(doc, "/refresh_token"@);
            &&& error is Some ==> token_answer(doc) == Err::<TokenView, _>(error)
            &&& error is None && access is None ==> token_answer(doc) == Err::<
                TokenView,
                Option<Seq<char>>,
            >(None)
            &&& error is None && access is Some ==> token_answer(doc) == Ok::<_, Option<Seq<char>>>(
                TokenView { access_token: access.unwrap(), refresh_token: refresh },
            )
        }),
{
}

proof fn lemma_part(a: Seq<char>, part: Seq<char>, b: Seq<char>, all: Seq<char>)
    requires
        all == a + part + b,
    ensures
        text::contains_text(all, part),
{
    text::contained_texts_can_be_cut_out(all, a, part, b);
}

/// The form for a user's code holds the client's id and secret, the code, and where the user is led
/// back to, each under its name.
pub proof fn exchange_forms_hold_the_code(
    client_id: Seq<char>,
    client_secret: Seq<char>,
    code: Seq<char>,
)
    ensures
        ({
            let form = exchange_form(client_id, client_secret, code);
            &&& text::begins_with(form, "client_id="@ + client_id)
            &&& text::contains_text(form, "&client_secret="@ + client_secret)
            &&& text::contains_text(form, "&grant_type=authorization_code"@)
            &&& text::contains_text(form, "&code="@ + code)
            &&& text::contains_text(form, "&redirect_uri=http://127.0.0.1"@)
        }),
{
    let form = exchange_form(client_id, client_secret, code);
    let none = Seq::<char>::empty();
    reveal_strlit("&grant_type=authorization_code&code=");
    reveal_strlit("&grant_type=authorization_code");
    reveal_strlit("&code=");
    assert("&grant_type=authorization_code&code="@ =~= "&grant_type=authorization_code"@
        + "&code="@);
    let head = "client_id="@ + client_id;
    let secret = "&client_secret="@ + client_secret;
    let grant = "&grant_type=authorization_code"@;
    let sent = "&code="@ + code;
    let back = "&redirect_uri=http://127.0.0.1"@;
    assert(form =~= head + secret + grant + sent + back);
    assert(form =~= head + (secret + grant + sent + back));
    text::beginnings_can_be_cut_off(form, head, secret + grant + sent + back);
    assert(form =~= head + secret + (grant + sent + back));
    lemma_part(head, secret, grant + sent + back, form);
    assert(form =~= (head + secret) + grant + (sent + back));
    lemma_part(head + secret, grant, sent + back, form);
    assert(form =~= (head + secret + grant) + sent + back);
    lemma_part(head + secret + grant, sent, back, form);
    assert(form =~= (head + secret + grant + sent) + back + none);
    lemma_part(head + secret + grant + sent, back, none, form);
}

/// The form for a new token holds the client's id and secret and what the token is renewed with,
/// each under its name.
pub proof fn refresh_forms_hold_the_token(
    client_id: Seq<char>,
    client_secret: Seq<char>,
    refresh: Seq<char>,
)
    ensures
        ({
            let form = refresh_form(client_id, client_secret, refresh);
            &&& text::begins_with(form, "client_id="@ + client_id)
            &&& text::contains_text(form, "&client_secret="@ + client_secret)
            &&& text::contains_text(form, "&grant_type=refresh_token"@)
            &&& text::contains_text(form, "&refresh_token="@ + refresh)
        }),
{
    let form = refresh_form(client_id, client_secret, refresh);
    let none = Seq::<char>::empty();
    reveal_strlit("&grant_type=refresh_token&refresh_token=");
    reveal_strlit("&grant_type=refresh_token");
    reveal_strlit("&refresh_token=");
    assert("&grant_type=refresh_token&refresh_token="@ =~= "&grant_type=refresh_token"@
        + "&refresh_token="@);
    let head = "client_id="@ + client_id;
    let secret = "&client_secret="@ + client_secret;
    let grant = "&grant_type=refresh_token"@;
    let sent = "&refresh_token="@ + refresh;
    assert(form =~= head + (secret + grant + sent));
    text::beginnings_can_be_cut_off(form, head, secret + grant + sent);
    assert(form =~= head + secret + (grant + sent));
    lemma_part(head, secret, grant + sent, form);
    assert(form =~= (head + secret) + grant + sent);
    lemma_part(head + secret, grant, sent, form);
    assert(form =~= (head + secret + grant) + sent + none);
    lemma_part(head + secret + grant, sent, none, form);
}

/// Forms are posted to Discord's token endpoint, and the form is the last argument.
pub proof fn forms_are_posted_to_the_endpoint(form: Seq<char>)
    ensures
        curl_args(form).last() == form,
        curl_args(form)[curl_args(form).len() - 2] == "-d"@,
        curl_args(form).contains("POST"@),
        curl_args(form).contains("https://discord.com/api/oauth2/token"@),
{
    assert(curl_args(form)[2] == "POST"@);
    assert(curl_args(form)[3] == "https://discord.com/api/oauth2/token"@);
}

} // verus!
