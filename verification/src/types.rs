//! The values the service answers with, and the envelope it wraps them in.

use crate::error::{Error, ErrorView};
use crate::node::Node;
use vstd::prelude::*;

verus! {

/// A Telegraph account. The service fills the fields that were asked for;
/// `access_token` comes only with a newly created account or a revoked token.
#[derive(Debug, Clone, PartialEq, Eq)]
pub struct Account {
    pub short_name: Option<String>,
    pub author_name: Option<String>,
    pub author_url: Option<String>,
    pub access_token: Option<String>,
    pub auth_url: Option<String>,
    pub page_count: Option<i32>,
}

/// A page on Telegraph.
#[derive(Debug, PartialEq, Eq)]
pub struct Page {
    pub path: String,
    pub url: String,
    pub title: String,
    pub description: String,
    pub author_name: Option<String>,
    pub author_url: Option<String>,
    pub image_url: Option<String>,
    pub content: Option<Vec<Node>>,
    pub views: Option<i32>,
}

/// The pages of an account, most recent first, and how many it has in all.
#[derive(Debug, PartialEq, Eq)]
pub struct PageList {
    pub total_count: i32,
    pub pages: Vec<Page>,
}

/// The number of views of a page.
#[derive(Debug, Clone, Copy, PartialEq, Eq)]
pub struct PageViews {
    pub views: i32,
}

/// Where an uploaded file can be found.
#[derive(Debug, Clone, PartialEq, Eq)]
pub struct ImageInfo {
    pub src: String,
}

/// The envelope of every answer of the service: `ok: true` with a result, or
/// `ok: false` with the service's description of the error.
#[derive(Debug, PartialEq, Eq)]
pub enum ApiResult<T> {
    Success { result: T },
    Failure { error: String },
}

/// The answer of the upload endpoint: the uploaded files, or one error for
/// the whole batch.
#[derive(Debug, PartialEq, Eq)]
pub enum UploadResult {
    Source(Vec<ImageInfo>),
    Error { error: String },
}

impl<T> ApiResult<T> {
    /// What an envelope stands for: its result, or the service's error text
    /// as an API error.
    pub open spec fn result(self) -> Result<T, Error> {
        match self {
            ApiResult::Success { result } => Ok(result),
            ApiResult::Failure { error } => Err(Error::ApiError(error)),
        }
    }

    /// The result an envelope carries, or the service's error as
    /// [`Error::ApiError`] with its text unchanged.
    pub fn into_result(self) -> (r: Result<T, Error>)
        ensures
            r == self.result(),
            self matches ApiResult::Failure { error } ==> r matches Err(e) && e@
                == ErrorView::ApiError(error@),
    {
        match self {
            ApiResult::Success { result } => Ok(result),
            ApiResult::Failure { error } => Err(Error::ApiError(error)),
        }
    }
}

/// What a call ends in, given what came back.
pub open spec fn decoded<T>(response: Result<ApiResult<T>, Error>) -> Result<T, Error> {
    match response {
        Ok(envelope) => envelope.result(),
        Err(e) => Err(e),
    }
}

/// What a call ends in, given what came back: the failure of the transport or
/// of the decoding where there was one, else what the envelope carries.
pub fn decode<T>(response: Result<ApiResult<T>, Error>) -> (r: Result<T, Error>)
    ensures
        r == decoded(response),
        response matches Ok(ApiResult::Failure { error }) ==> r matches Err(e) && e@
            == ErrorView::ApiError(error@),
{
    match response {
        Ok(envelope) => envelope.into_result(),
        Err(e) => Err(e),
    }
}

impl UploadResult {
    /// What an answer of the upload endpoint stands for.
    pub open spec fn result(self) -> Result<Vec<ImageInfo>, Error> {
        match self {
            UploadResult::Source(images) => Ok(images),
            UploadResult::Error { error } => Err(Error::ApiError(error)),
        }
    }

    /// The uploaded files, or the endpoint's error as [`Error::ApiError`] with
    /// its text unchanged.
    pub fn into_result(self) -> (r: Result<Vec<ImageInfo>, Error>)
        ensures
            r == self.result(),
            self matches UploadResult::Error { error } ==> r matches Err(e) && e@
                == ErrorView::ApiError(error@),
    {
        match self {
            UploadResult::Source(images) => Ok(images),
            UploadResult::Error { error } => Err(Error::ApiError(error)),
        }
    }
}

} // verus!
