//! The greeting, the retrieval and the deletion handler. The latter two
//! work in two halves round the one file operation that the caller performs:
//! the first checks the token and names the file, the second turns the
//! outcome into the reply.

use crate::directory::{Directory, Removal};
use crate::error::{message_text, ServiceError};
use crate::response::{
    blob_reply, deleted_reply, error_reply, error_status, greeting_reply, Body, BodyView, Config,
    Missing, Response, ResponseView,
};
use crate::store::{
    delete_blob, delete_outcome, delete_result, file_name, lemma_write_blob, locate, located,
    read_blob, read_outcome, read_result, write_blob,
};
use crate::token::{lemma_text_round_trip, Token};
use vstd::prelude::*;
use vstd::string::StringExecFns;

verus! {

/// Greets `name`. Never fails.
pub fn hello(name: &str) -> (r: Response)
    ensures
        r@ == greeting_reply(name@),
{
    let mut text = String::from_str("Hello, ");
    text.append(name);
    text.append("!");
    Response { status: 200, location: None, body: Body::Text(text) }
}

/// The reply to a retrieval that ended in `result`.
pub open spec fn retrieval_reply(
    result: Result<Seq<u8>, ServiceError>,
    missing: Missing,
) -> ResponseView {
    match result {
        Ok(bytes) => blob_reply(bytes),
        Err(e) => error_reply(e, missing),
    }
}

/// The reply to a deletion that ended in `result`.
pub open spec fn deletion_reply(
    result: Result<(), ServiceError>,
    missing: Missing,
) -> ResponseView {
    match result {
        Ok(_) => deleted_reply(),
        Err(e) => error_reply(e, missing),
    }
}

/// The name of the file to act on, or the reply that turns the request away.
pub open spec fn file_or_reply(r: Result<String, Response>) -> Result<Seq<char>, ResponseView> {
    match r {
        Ok(name) => Ok(name@),
        Err(response) => Err(response@),
    }
}

/// What the first half of either handler returns for `id`.
pub open spec fn checked(id: Seq<char>, missing: Missing) -> Result<Seq<char>, ResponseView> {
    match located(id) {
        Ok(name) => Ok(name),
        Err(e) => Err(error_reply(e, missing)),
    }
}

fn check_request(id: &str, config: &Config) -> (r: Result<String, Response>)
    ensures
        file_or_reply(r) == checked(id@, config@.missing),
{
    match locate(id) {
        Ok(name) => Ok(name),
        Err(e) => Err(Response::failure(e, config.missing)),
    }
}

/// Retrieval, first half: the file to read for the path segment `id`, or
/// the reply if `id` is no token.
pub fn upload_get(id: &str, config: &Config) -> (r: Result<String, Response>)
    ensures
        file_or_reply(r) == checked(id@, config@.missing),
{
    check_request(id, config)
}

/// Retrieval, second half: the reply, given what the file held (`None` if it
/// is absent or could not be read).
pub fn upload_get_reply(content: Option<Vec<u8>>, config: &Config) -> (r: Response)
    ensures
        r@ == retrieval_reply(
            read_outcome(
                match content {
                    Some(bytes) => Some(bytes@),
                    None => None,
                },
            ),
            config@.missing,
        ),
{
    match read_result(content) {
        Ok(bytes) => Response::blob(bytes),
        Err(e) => Response::failure(e, config.missing),
    }
}

/// Deletion, first half: the file to remove for the path segment `id`, or
/// the reply if `id` is no token.
pub fn upload_delete(id: &str, config: &Config) -> (r: Result<String, Response>)
    ensures
        file_or_reply(r) == checked(id@, config@.missing),
{
    check_request(id, config)
}

/// Deletion, second half: the reply, given how the removal ended.
pub fn upload_delete_reply(removal: Removal, config: &Config) -> (r: Response)
    ensures
        r@ == deletion_reply(delete_outcome(removal), config@.missing),
{
    match delete_result(removal) {
        Ok(_) => Response::deleted(),
        Err(e) => Response::failure(e, config.missing),
    }
}

/// The reply to `GET` for `id` when the directory is `dir`.
pub open spec fn retrieve(dir: Directory, id: Seq<char>, missing: Missing) -> ResponseView {
    match checked(id, missing) {
        Ok(name) => retrieval_reply(read_outcome(dir.read(name)), missing),
        Err(response) => response,
    }
}

/// The reply to `DELETE` for `id` when the directory is `dir`, and the
/// directory afterwards.
pub open spec fn delete(dir: Directory, id: Seq<char>, missing: Missing) -> (
    Directory,
    ResponseView,
) {
    match checked(id, missing) {
        Ok(name) => {
            let (after, removal) = dir.remove(name);
            (after, deletion_reply(delete_outcome(removal), missing))
        },
        Err(response) => (dir, response),
    }
}

/// The handlers answer with what the blob store returns.
pub proof fn lemma_handlers_follow_store(dir: Directory, id: Seq<char>, missing: Missing)
    ensures
        retrieve(dir, id, missing) == retrieval_reply(read_blob(dir, id), missing),
        delete(dir, id, missing) == (
            delete_blob(dir, id).0,
            deletion_reply(delete_blob(dir, id).1, missing),
        ),
{
}

/// The life of a blob. Once written it is retrieved with the bytes that
/// were written; its deletion is answered with 204 and leaves the directory
/// as it was before the write; from then on both retrieval and deletion
/// report that nothing is there.
pub proof fn lemma_blob_lifecycle(
    dir: Directory,
    token: Token,
    chunks: Seq<Seq<u8>>,
    missing: Missing,
)
    ensures
        write_blob(dir, token, chunks).1 is Ok ==> ({
            let id = file_name(token);
            let written = write_blob(dir, token, chunks).0;
            let (deleted, reply) = delete(written, id, missing);
            &&& retrieve(written, id, missing) == blob_reply(chunks.flatten())
            &&& reply == deleted_reply()
            &&& deleted.files == dir.files
            &&& retrieve(deleted, id, missing) == error_reply(ServiceError::NotFound, missing)
            &&& delete(deleted, id, missing) == (
                deleted,
                error_reply(ServiceError::NotFound, missing),
            )
        }),
{
    lemma_write_blob(dir, token, chunks);
    lemma_text_round_trip(token.value);
    if write_blob(dir, token, chunks).1 is Ok {
        let id = file_name(token);
        let written = write_blob(dir, token, chunks).0;
        assert(written.files.remove(id) =~= dir.files);
    }
}

/// Every failure reaches the client as a client error that carries the
/// failure's text. It is 400, but for a missing blob where the operator
/// chose 404.
pub proof fn lemma_failures_are_client_errors(e: ServiceError, missing: Missing)
    ensures
        400 <= error_status(e, missing) < 500,
        error_status(e, missing) == 404 <==> (e == ServiceError::NotFound && missing
            == Missing::AsNotFound),
        error_status(e, missing) != 404 ==> error_status(e, missing) == 400,
        error_reply(e, missing).body == BodyView::Text(message_text(e)),
{
}

} // verus!
