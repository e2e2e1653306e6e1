//! What goes to the remote authentication endpoint and what comes back.

use crate::extractor::{extract, extracted, ExtractionError};
use crate::json::{parse, parsed_text, Json, JsonModel};
use crate::text::{clone_texts, texts};
use vstd::prelude::*;
use vstd::string::StringExecFns;

verus! {

/// The validity, in hours, that is asked of the endpoint and assumed of
/// every token it issues.
pub const DEFAULT_TTL_HOURS: u32 = 24;

/// The mathematical value of an [`AuthError`].
pub enum AuthErrorModel {
    UpstreamAuthFailed { message: Seq<char> },
    ResponseUnparseable { fields: Seq<Seq<char>> },
    Timeout,
}

/// Why no token could be obtained.
#[derive(Debug, PartialEq, Eq)]
pub enum AuthError {
    /// The endpoint, or the exchange with it, rejected the attempt.
    UpstreamAuthFailed { message: String },
    /// The exchange went through, but the token was in none of the known
    /// places. `fields` are the names of the members the response did have.
    ResponseUnparseable { fields: Vec<String> },
    /// The exchange did not finish in time.
    Timeout,
}

impl View for AuthError {
    type V = AuthErrorModel;

    open spec fn view(&self) -> AuthErrorModel {
        match self {
            AuthError::UpstreamAuthFailed { message } => AuthErrorModel::UpstreamAuthFailed {
                message: message@,
            },
            AuthError::ResponseUnparseable { fields } => AuthErrorModel::ResponseUnparseable {
                fields: texts(fields@),
            },
            AuthError::Timeout => AuthErrorModel::Timeout,
        }
    }
}

impl Clone for AuthError {
    fn clone(&self) -> (r: AuthError)
        ensures
            r@ == self@,
    {
        match self {
            AuthError::UpstreamAuthFailed { message } => AuthError::UpstreamAuthFailed {
                message: message.clone(),
            },
            AuthError::ResponseUnparseable { fields } => AuthError::ResponseUnparseable {
                fields: clone_texts(fields),
            },
            AuthError::Timeout => AuthError::Timeout,
        }
    }
}

/// How a failure is shown to the caller of the service.
#[derive(Debug, Clone, Copy, PartialEq, Eq, Structural)]
pub enum FailureClass {
    /// The caller is not authorized.
    Unauthorized,
    /// The service itself could not do its work.
    ServerError,
}

impl AuthErrorModel {
    /// A rejected or timed-out exchange is a matter of authorization; a
    /// response in which the token cannot be found is a fault on the
    /// service's side.
    pub open spec fn class(self) -> FailureClass {
        match self {
            AuthErrorModel::UpstreamAuthFailed { .. } => FailureClass::Unauthorized,
            AuthErrorModel::ResponseUnparseable { .. } => FailureClass::ServerError,
            AuthErrorModel::Timeout => FailureClass::Unauthorized,
        }
    }

    /// The words that say what went wrong.
    pub open spec fn message(self) -> Seq<char> {
        match self {
            AuthErrorModel::UpstreamAuthFailed { message } => message,
            AuthErrorModel::ResponseUnparseable { .. } => "Token no encontrado en la respuesta"@,
            AuthErrorModel::Timeout => "Tiempo de espera agotado"@,
        }
    }
}

impl FailureClass {
    /// The HTTP status that shows a failure of this class.
    pub fn status_code(self) -> (r: u16)
        ensures
            r == (match self {
                FailureClass::Unauthorized => 401u16,
                FailureClass::ServerError => 500u16,
            }),
    {
        match self {
            FailureClass::Unauthorized => 401,
            FailureClass::ServerError => 500,
        }
    }
}

impl AuthError {
    /// How the failure is shown to the caller of the service.
    pub fn class(&self) -> (r: FailureClass)
        ensures
            r == self@.class(),
    {
        match self {
            AuthError::UpstreamAuthFailed { .. } => FailureClass::Unauthorized,
            AuthError::ResponseUnparseable { .. } => FailureClass::ServerError,
            AuthError::Timeout => FailureClass::Unauthorized,
        }
    }

    /// The words that say what went wrong. They name no member of the
    /// response and none of its values.
    pub fn message(&self) -> (r: String)
        ensures
            r@ == self@.message(),
    {
        match self {
            AuthError::UpstreamAuthFailed { message } => message.clone(),
            AuthError::ResponseUnparseable { .. } => "Token no encontrado en la respuesta"
                .to_owned(),
            AuthError::Timeout => "Tiempo de espera agotado".to_owned(),
        }
    }
}

/// The mathematical value of a [`BackendOutcome`].
pub enum BackendOutcomeModel {
    Response { body: Seq<char> },
    Failed { message: Seq<char> },
    TimedOut,
}

/// How one exchange with the endpoint ended.
#[derive(Debug, PartialEq, Eq)]
pub enum BackendOutcome {
    /// The endpoint answered with this body.
    Response { body: String },
    /// The exchange failed; the message says how.
    Failed { message: String },
    /// The exchange did not finish in time.
    TimedOut,
}

impl View for BackendOutcome {
    type V = BackendOutcomeModel;

    open spec fn view(&self) -> BackendOutcomeModel {
        match self {
            BackendOutcome::Response { body } => BackendOutcomeModel::Response { body: body@ },
            BackendOutcome::Failed { message } => BackendOutcomeModel::Failed {
                message: message@,
            },
            BackendOutcome::TimedOut => BackendOutcomeModel::TimedOut,
        }
    }
}

/// The token that a response body gives, once read as a document:
/// a body that is no document gives no token and no member names.
pub open spec fn token_of_document(document: Option<JsonModel>) -> Result<
    Seq<char>,
    AuthErrorModel,
> {
    match document {
        Some(tree) => match extracted(tree) {
            Ok(token) => Ok(token),
            Err(fields) => Err(AuthErrorModel::ResponseUnparseable { fields }),
        },
        None => Err(AuthErrorModel::ResponseUnparseable { fields: Seq::empty() }),
    }
}

/// The token, or the error, that an exchange's outcome amounts to.
pub open spec fn interpreted(outcome: BackendOutcomeModel) -> Result<Seq<char>, AuthErrorModel> {
    match outcome {
        BackendOutcomeModel::Response { body } => token_of_document(parsed_text(body)),
        BackendOutcomeModel::Failed { message } => Err(
            AuthErrorModel::UpstreamAuthFailed { message },
        ),
        BackendOutcomeModel::TimedOut => Err(AuthErrorModel::Timeout),
    }
}

/// Whether a result stands for the given token or error.
pub open spec fn result_is(r: Result<String, AuthError>, model: Result<Seq<char>, AuthErrorModel>)
    -> bool {
    match r {
        Ok(token) => model == Ok::<Seq<char>, AuthErrorModel>(token@),
        Err(e) => model == Err::<Seq<char>, AuthErrorModel>(e@),
    }
}

/// Finds the token in a response body that has been read as a document,
/// or says why there is none.
pub fn token_from_document(document: Option<&Json>) -> (r: Result<String, AuthError>)
    ensures
        result_is(
            r,
            token_of_document(
                match document {
                    Some(tree) => Some(tree@),
                    None => None,
                },
            ),
        ),
{
    match document {
        Some(tree) => match extract(tree) {
            Ok(token) => Ok(token),
            Err(ExtractionError::TokenNotFound { fields }) => Err(
                AuthError::ResponseUnparseable { fields },
            ),
        },
        None => {
            let fields: Vec<String> = Vec::new();
            assert(texts(fields@) =~= Seq::<Seq<char>>::empty());
            Err(AuthError::ResponseUnparseable { fields })
        },
    }
}

/// Turns the outcome of an exchange into the token or the error it
/// amounts to. A failure and a timeout stay what they are; a body is read
/// as a document and searched for the token.
pub fn interpret(outcome: BackendOutcome) -> (r: Result<String, AuthError>)
    ensures
        result_is(r, interpreted(outcome@)),
{
    match outcome {
        BackendOutcome::Response { body } => {
            let document = parse(body.as_str());
            token_from_document(document.as_ref())
        },
        BackendOutcome::Failed { message } => Err(AuthError::UpstreamAuthFailed { message }),
        BackendOutcome::TimedOut => Err(AuthError::Timeout),
    }
}

/// What is sent to the endpoint to obtain a token.
#[derive(Debug, PartialEq, Eq)]
pub struct AuthRequest {
    /// The carrier account, an underscore, the operator.
    pub login: String,
    pub password: String,
    pub societe: String,
    /// The validity, in hours, that is asked for.
    pub token_hours: u32,
}

/// The login under which an operator of a carrier account is known: the
/// account, an underscore, the operator.
pub open spec fn login_of(societe: Seq<char>, username: Seq<char>) -> Seq<char> {
    societe + "_"@ + username
}

/// The login under which an operator of a carrier account is known.
pub fn login_name(societe: &str, username: &str) -> (r: String)
    ensures
        r@ == login_of(societe@, username@),
{
    let mut out = societe.to_owned();
    out.append("_");
    out.append(username);
    out
}

/// The address of the login service below a base address.
pub fn auth_url(base: &str) -> (r: String)
    ensures
        r@ == base@ + "/api/auth/login/Membership"@,
{
    let mut out = base.to_owned();
    out.append("/api/auth/login/Membership");
    out
}

/// Whether all three credentials are given.
pub open spec fn credentials_complete(
    username: Seq<char>,
    password: Seq<char>,
    societe: Seq<char>,
) -> bool {
    username.len() > 0 && password.len() > 0 && societe.len() > 0
}

/// Builds the request for a token. Credentials of which one is empty are
/// refused as a failed authentication, before anything is sent.
pub fn auth_request(username: &str, password: &str, societe: &str, token_hours: u32) -> (r: Result<
    AuthRequest,
    AuthError,
>)
    ensures
        match r {
            Ok(request) => {
                &&& credentials_complete(username@, password@, societe@)
                &&& request.login@ == login_of(societe@, username@)
                &&& request.password@ == password@
                &&& request.societe@ == societe@
                &&& request.token_hours == token_hours
            },
            Err(e) => {
                &&& !credentials_complete(username@, password@, societe@)
                &&& e@ == AuthErrorModel::UpstreamAuthFailed {
                    message: "Credenciales incompletas"@,
                }
            },
        },
{
    if username.unicode_len() == 0 || password.unicode_len() == 0 || societe.unicode_len() == 0 {
        Err(AuthError::UpstreamAuthFailed { message: "Credenciales incompletas".to_owned() })
    } else {
        Ok(
            AuthRequest {
                login: login_name(societe, username),
                password: password.to_owned(),
                societe: societe.to_owned(),
                token_hours,
            },
        )
    }
}

} // verus!
