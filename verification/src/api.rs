//! What each of the four endpoints answers.
//!
//! An endpoint gets a request as bytes, has the store handle it, and answers
//! with a status and a body. A request that cannot be read is answered with
//! status 400, one that the store failed with status 500, each with a line of
//! text for a body; one that the store handled with status 200 and the
//! store's response.

use vstd::prelude::*;
use crate::types::{
    StoreError, GetObjectResponse, PutObjectResponse, DeleteObjectResponse,
    ListKeyVersionsResponse,
};

verus! {

/// Status of an answer that carries the store's response.
pub const OK: u16 = 200;

/// Status of the answer to a request that could not be read.
pub const BAD_REQUEST: u16 = 400;

/// Status of the answer to a request that the store failed.
pub const INTERNAL_SERVER_ERROR: u16 = 500;

/// Where a request stands when its endpoint answers.
#[derive(Clone, Debug, PartialEq, Eq)]
pub enum Handled<R> {
    /// The bytes were no request of the endpoint's kind.
    Undecodable,
    /// The store failed the request.
    Failed(StoreError),
    /// The store handled the request.
    Done(R),
}

/// The body of an answer.
#[derive(Clone, Debug, PartialEq, Eq)]
pub enum Body<R> {
    /// A response of the store, to be sent in its binary form.
    Message(R),
    /// A line of text.
    Text(String),
}

/// An answer: its status and its body.
#[derive(Clone, Debug, PartialEq, Eq)]
pub struct Reply<R> {
    pub status: u16,
    pub body: Body<R>,
}

/// The answer to a request that stands at `handled`, where the endpoint
/// says `unreadable` of a request that it cannot read and `failed` of one
/// that the store failed.
pub open spec fn answer_of<R>(handled: Handled<R>, unreadable: Seq<char>, failed: Seq<char>, reply: Reply<R>) -> bool {
    match handled {
        Handled::Undecodable => reply.status == BAD_REQUEST && (reply.body matches Body::Text(t)
            && t@ == unreadable),
        Handled::Failed(_) => reply.status == INTERNAL_SERVER_ERROR && (
        reply.body matches Body::Text(t) && t@ == failed),
        Handled::Done(response) => reply.status == OK && reply.body == Body::Message(response),
    }
}

fn answer<R>(handled: Handled<R>, unreadable: &str, failed: &str) -> (reply: Reply<R>)
    ensures
        answer_of(handled, unreadable@, failed@, reply),
{
    match handled {
        Handled::Undecodable => Reply {
            status: BAD_REQUEST,
            body: Body::Text(unreadable.to_owned()),
        },
        Handled::Failed(_) => Reply {
            status: INTERNAL_SERVER_ERROR,
            body: Body::Text(failed.to_owned()),
        },
        Handled::Done(response) => Reply { status: OK, body: Body::Message(response) },
    }
}

/// The answer of the endpoint that gets a record.
pub fn get_object(handled: Handled<GetObjectResponse>) -> (reply: Reply<GetObjectResponse>)
    ensures
        answer_of(
            handled,
            "Unable to decode GetObjectRequest"@,
            "Failed to get object"@,
            reply,
        ),
{
    answer(handled, "Unable to decode GetObjectRequest", "Failed to get object")
}

/// The answer of the endpoint that puts a batch.
pub fn put_object(handled: Handled<PutObjectResponse>) -> (reply: Reply<PutObjectResponse>)
    ensures
        answer_of(
            handled,
            "Unable to decode PutObjectRequest"@,
            "Failed to put object"@,
            reply,
        ),
{
    answer(handled, "Unable to decode PutObjectRequest", "Failed to put object")
}

/// The answer of the endpoint that deletes a record.
pub fn delete_object(handled: Handled<DeleteObjectResponse>) -> (reply: Reply<
    DeleteObjectResponse,
>)
    ensures
        answer_of(
            handled,
            "Unable to decode DeleteObjectRequest"@,
            "Failed to delete object"@,
            reply,
        ),
{
    answer(handled, "Unable to decode DeleteObjectRequest", "Failed to delete object")
}

/// The answer of the endpoint that lists keys and versions.
pub fn list_key_versions(handled: Handled<ListKeyVersionsResponse>) -> (reply: Reply<
    ListKeyVersionsResponse,
>)
    ensures
        answer_of(
            handled,
            "Unable to decode ListKeyVersionsRequest"@,
            "Failed to list key versions"@,
            reply,
        ),
{
    answer(handled, "Unable to decode ListKeyVersionsRequest", "Failed to list key versions")
}

} // verus!
