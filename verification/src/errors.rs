//! Error taxonomy of the service.
//!
//! Two layers: the token core reports `InternalFault` (environment trouble,
//! never the client's fault) and `CredentialError` (the client's credential
//! was missing, malformed, invalid or of the wrong kind).  The HTTP-facing
//! layer wraps those in `ServerErrorCode` / `GeneralErrorCode`, the stable
//! machine-readable codes of the API, with their descriptions and status
//! codes.

use vstd::prelude::*;

verus! {

/// Environment faults during token work.  These never stem from client
/// input; the caller maps them to a generic server error and logs detail.
#[derive(Clone, Copy, Debug, PartialEq, Eq, Structural)]
pub enum InternalFault {
    ClockFault,
    RandomSourceFault,
    EncryptionFault,
    SigningFault,
}

/// Client-credential failures, in the order verification detects them.
#[derive(Clone, Copy, Debug, PartialEq, Eq, Structural)]
pub enum CredentialError {
    MissingCredential,
    MalformedCredential,
    SignatureOrExpiryInvalid,
    WrongSubjectKind,
    UnknownPlayerIdentity,
}

/// A failure of an API operation: the client's credential was at fault,
/// or the environment was.
#[derive(Clone, Copy, Debug, PartialEq, Eq, Structural)]
pub enum ApiError {
    Credential(CredentialError),
    Internal(InternalFault),
}

/// Which side of the system caused an internal error.
#[derive(Clone, Copy, Debug, PartialEq, Eq, Structural)]
pub enum ErrorCause {
    Database,
    Internal,
}

/// Stable machine-readable error codes surfaced to clients.
#[derive(Clone, Copy, Debug, PartialEq, Eq, Structural)]
pub enum GeneralErrorCode {
    FetchLatestRelease,
    NotFoundPlatform,
    NicknameEmpty,
    NicknameToolong,
    NicknameForbiddenCharacters,
    AuthenticationInvalidToken,
    InvalidToken,
    InvalidId,
    Internal,
}

impl GeneralErrorCode {
    /// The wire form of the code.
    pub open spec fn spec_str(self) -> Seq<char> {
        match self {
            GeneralErrorCode::FetchLatestRelease => "fetch_latest_release"@,
            GeneralErrorCode::NotFoundPlatform => "not_found_platform"@,
            GeneralErrorCode::NicknameEmpty => "nickname_empty"@,
            GeneralErrorCode::NicknameToolong => "nickname_toolong"@,
            GeneralErrorCode::NicknameForbiddenCharacters => "nickname_forbidden_characters"@,
            GeneralErrorCode::AuthenticationInvalidToken => "authentication_invalid_token"@,
            GeneralErrorCode::InvalidToken => "invalid_token"@,
            GeneralErrorCode::InvalidId => "invalid_id"@,
            GeneralErrorCode::Internal => "api_internal"@,
        }
    }

    pub fn as_str(&self) -> (r: &'static str)
        ensures
            r@ == self.spec_str(),
    {
        match self {
            GeneralErrorCode::FetchLatestRelease => "fetch_latest_release",
            GeneralErrorCode::NotFoundPlatform => "not_found_platform",
            GeneralErrorCode::NicknameEmpty => "nickname_empty",
            GeneralErrorCode::NicknameToolong => "nickname_toolong",
            GeneralErrorCode::NicknameForbiddenCharacters => "nickname_forbidden_characters",
            GeneralErrorCode::AuthenticationInvalidToken => "authentication_invalid_token",
            GeneralErrorCode::InvalidToken => "invalid_token",
            GeneralErrorCode::InvalidId => "invalid_id",
            GeneralErrorCode::Internal => "api_internal",
        }
    }

    /// The safe human-readable description of the code.
    pub open spec fn spec_description(self) -> Seq<char> {
        match self {
            GeneralErrorCode::FetchLatestRelease => "An internal error occured during the fetching of the latest release, please retry later"@,
            GeneralErrorCode::NotFoundPlatform => "The given platform has no associated release"@,
            GeneralErrorCode::NicknameEmpty => "The given nickname is empty"@,
            GeneralErrorCode::NicknameToolong => "The given nickname is too long (shorten it)"@,
            GeneralErrorCode::NicknameForbiddenCharacters => "The given nickname has an invalid character inside, please change it"@,
            GeneralErrorCode::AuthenticationInvalidToken => "The given authentication token is invalid"@,
            GeneralErrorCode::InvalidToken => "The given token is invalid"@,
            GeneralErrorCode::InvalidId => "The given id has never been attributed to anyone"@,
            GeneralErrorCode::Internal => "An internal error occured on the server, please retry later"@,
        }
    }

    pub fn description(&self) -> (r: &'static str)
        ensures
            r@ == self.spec_description(),
    {
        match self {
            GeneralErrorCode::FetchLatestRelease => "An internal error occured during the fetching of the latest release, please retry later",
            GeneralErrorCode::NotFoundPlatform => "The given platform has no associated release",
            GeneralErrorCode::NicknameEmpty => "The given nickname is empty",
            GeneralErrorCode::NicknameToolong => "The given nickname is too long (shorten it)",
            GeneralErrorCode::NicknameForbiddenCharacters => "The given nickname has an invalid character inside, please change it",
            GeneralErrorCode::AuthenticationInvalidToken => "The given authentication token is invalid",
            GeneralErrorCode::InvalidToken => "The given token is invalid",
            GeneralErrorCode::InvalidId => "The given id has never been attributed to anyone",
            GeneralErrorCode::Internal => "An internal error occured on the server, please retry later",
        }
    }

    /// The HTTP status that carries the code.
    pub fn status_code(&self) -> (r: u16)
        ensures
            (self is FetchLatestRelease || self is NotFoundPlatform) ==> r == 404,
            self is Internal ==> r == 500,
            !(self is FetchLatestRelease || self is NotFoundPlatform || self is Internal)
                ==> r == 400,
    {
        match self {
            GeneralErrorCode::FetchLatestRelease | GeneralErrorCode::NotFoundPlatform => 404,
            GeneralErrorCode::Internal => 500,
            _ => 400,
        }
    }
}

/// Fine-grained error codes raised inside the server; each maps to the
/// `GeneralErrorCode` that the client sees.
#[derive(Clone, Debug, PartialEq, Eq)]
pub enum ServerErrorCode {
    InvalidSha256(usize, String),
    WrongChecksum(String),
    NoReleaseFound,
    InvalidVersion,
    NotFoundPlatform(String),
    NicknameEmpty,
    NicknameToolong,
    NicknameForbiddenCharacters,
    AuthenticationInvalidToken(String),
    EmptyToken,
    InvalidToken(Option<String>),
    InvalidId,
    TokenGenerationFailed,
    JWTAccident(String),
    External(String),
    Internal,
}

impl ServerErrorCode {
    /// The client-facing code of this server-side code.
    pub open spec fn spec_response_code(self) -> GeneralErrorCode {
        match self {
            ServerErrorCode::InvalidSha256(_, _)
            | ServerErrorCode::WrongChecksum(_)
            | ServerErrorCode::NoReleaseFound
            | ServerErrorCode::InvalidVersion => GeneralErrorCode::FetchLatestRelease,
            ServerErrorCode::NotFoundPlatform(_) => GeneralErrorCode::NotFoundPlatform,
            ServerErrorCode::NicknameEmpty => GeneralErrorCode::NicknameEmpty,
            ServerErrorCode::NicknameToolong => GeneralErrorCode::NicknameToolong,
            ServerErrorCode::NicknameForbiddenCharacters => GeneralErrorCode::NicknameForbiddenCharacters,
            ServerErrorCode::AuthenticationInvalidToken(_) => GeneralErrorCode::AuthenticationInvalidToken,
            ServerErrorCode::EmptyToken | ServerErrorCode::InvalidToken(_) => GeneralErrorCode::InvalidToken,
            ServerErrorCode::InvalidId => GeneralErrorCode::InvalidId,
            ServerErrorCode::TokenGenerationFailed
            | ServerErrorCode::JWTAccident(_)
            | ServerErrorCode::External(_)
            | ServerErrorCode::Internal => GeneralErrorCode::Internal,
        }
    }

    pub fn response_code(&self) -> (r: GeneralErrorCode)
        ensures
            r == self.spec_response_code(),
    {
        match self {
            ServerErrorCode::InvalidSha256(_, _)
            | ServerErrorCode::WrongChecksum(_)
            | ServerErrorCode::NoReleaseFound
            | ServerErrorCode::InvalidVersion => GeneralErrorCode::FetchLatestRelease,
            ServerErrorCode::NotFoundPlatform(_) => GeneralErrorCode::NotFoundPlatform,
            ServerErrorCode::NicknameEmpty => GeneralErrorCode::NicknameEmpty,
            ServerErrorCode::NicknameToolong => GeneralErrorCode::NicknameToolong,
            ServerErrorCode::NicknameForbiddenCharacters => GeneralErrorCode::NicknameForbiddenCharacters,
            ServerErrorCode::AuthenticationInvalidToken(_) => GeneralErrorCode::AuthenticationInvalidToken,
            ServerErrorCode::EmptyToken | ServerErrorCode::InvalidToken(_) => GeneralErrorCode::InvalidToken,
            ServerErrorCode::InvalidId => GeneralErrorCode::InvalidId,
            ServerErrorCode::TokenGenerationFailed
            | ServerErrorCode::JWTAccident(_)
            | ServerErrorCode::External(_)
            | ServerErrorCode::Internal => GeneralErrorCode::Internal,
        }
    }
}

/// The body of an error response: a stable code and a safe description.
#[derive(Clone, Debug)]
pub struct RequestError {
    pub err_code: GeneralErrorCode,
    pub err_desc: String,
}

impl RequestError {
    pub fn new(code: GeneralErrorCode, description: String) -> (r: RequestError)
        ensures
            r.err_code == code,
            r.err_desc == description,
    {
        RequestError { err_code: code, err_desc: description }
    }
}

/// What a route hands back when it fails: an internal fault with its cause,
/// or a rejected request with its code and description.
#[derive(Clone, Debug)]
pub enum RouteError {
    ServerError(ErrorCause, ServerErrorCode),
    InvalidRequest(ServerErrorCode, String),
}

impl RouteError {
    /// The HTTP status of the response that reports this error.
    pub fn status_code(&self) -> (r: u16)
        ensures
            self is ServerError ==> r == 500,
            forall|code: ServerErrorCode, desc: String|
                self == RouteError::InvalidRequest(code, desc) ==> {
                    let g = code.spec_response_code();
                    &&& (g is FetchLatestRelease || g is NotFoundPlatform) ==> r == 404
                    &&& g is Internal ==> r == 500
                    &&& !(g is FetchLatestRelease || g is NotFoundPlatform || g is Internal)
                        ==> r == 400
                },
    {
        match self {
            RouteError::ServerError(_, _) => 500,
            RouteError::InvalidRequest(code, _) => code.response_code().status_code(),
        }
    }
}

/// Failures of the connection pool, reported without detail.
#[derive(Clone, Copy, Debug, PartialEq, Eq, Structural)]
pub enum PoolError {
    Creation,
    Connection,
}

} // verus!
