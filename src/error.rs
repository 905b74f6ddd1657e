//! The failures that the library and its surroundings report.
use vstd::prelude::*;

verus! {

/// Every kind of failure, by where it arises.
#[derive(Debug)]
pub enum Error {
    AccessTokenNotFound,
    AccessTokenSecretNotFound,
    BearerTokenNotFound,
    ApiKeyNotFound,
    ApiSecretKeyNotFound,
    RedisURLNotFound,
    RedisConnection,
    RedisGetConnection,
    RedisGetKeys,
    RedisGetValue,
    RedisSetValue,
    RedisExpire,
    CannotGetStream,
    BadResponse,
    InvalidHttpMethod,
    CannotBuildRequest,
    StreamEOF,
    StreamUnexpected,
    WebsocketClientError,
    WebsocketClientClose,
    ImageCannotGet,
    BytesParseImage,
    ImageParseBytes,
    ImageToImageData,
    CannotParseTweet { tweet_id: u64 },
    JSONParse,
    RecordDecode,
    RecordEncode,
    U32ToUSize,
    CannotCreateLogger,
    CannotTranslate { name: String },
    ActorTaskBeenKilled,
    StringParseFromBytes,
    FutureAlreadyCompleted,
}

/// Failures of the REST endpoints.
#[derive(Debug, Clone, Copy, PartialEq, Eq, Structural)]
pub enum HttpError {
    CannotGetRedisKeysError,
    CannotMGetRedisError,
}

/// The message and status code that a REST failure is answered with.
#[derive(Debug)]
pub struct HttpRejection {
    pub message: String,
    pub code: u16,
}

impl HttpRejection {
    pub fn new(message: &str, code: u16) -> (r: HttpRejection)
        ensures
            r.message@ == message@,
            r.code == code,
    {
        HttpRejection { message: crate::text::owned(message), code }
    }
}

impl HttpError {
    /// The rejection a REST failure is answered with: a short message and 404.
    pub fn reject(&self) -> (r: HttpRejection)
        ensures
            r.code == 404,
            r.message@ == match self {
                HttpError::CannotGetRedisKeysError => "Cannot get redis keys."@,
                HttpError::CannotMGetRedisError => "Cannot mget redis values."@,
            },
    {
        match self {
            HttpError::CannotGetRedisKeysError => HttpRejection::new("Cannot get redis keys.", 404),
            HttpError::CannotMGetRedisError => HttpRejection::new("Cannot mget redis values.", 404),
        }
    }
}

} // verus!
