//! The blob store: one file per token in the upload directory, written once,
//! then only read or removed.
//!
//! The store touches no file itself. For each operation it tells the caller
//! which file to act on and what to make of the outcome:
//!
//! - to write, the caller drives a `BlobWriter`: it creates the file that
//!   the writer names, exclusively, and appends the chunks in the order in
//!   which they arrive; where the input fails before its end the write
//!   fails, and what was written stays;
//! - to read or delete, the caller asks `locate` for the file's name, acts,
//!   and hands the outcome to `read_result` or `delete_result`.
//!
//! `write_blob`, `write_broken`, `read_blob` and `delete_blob` say what these
//! exchanges come to when the directory behaves as `Directory` describes.

use crate::directory::{Directory, Removal};
use crate::error::ServiceError;
use crate::token::{
    hyphenated, is_random_form, lemma_names_distinct, lemma_text_round_trip, new_token,
    text_value, Token,
};
use vstd::prelude::*;

verus! {

/// How far a write has come.
#[derive(Clone, Copy, PartialEq, Eq, Structural, Debug)]
pub enum WriterPhase {
    /// The file is being created.
    Creating,
    /// The next chunk of input is awaited.
    Receiving,
    /// A chunk is being appended.
    Writing,
    /// All input was written.
    Finished,
    /// The file could not be created or extended, or the input failed.
    Failed,
}

/// One write of one blob.
#[derive(Debug)]
pub struct BlobWriter {
    token: Token,
    phase: WriterPhase,
}

pub struct WriterView {
    /// The token under which the blob is written.
    pub token: Token,
    pub phase: WriterPhase,
}

impl View for BlobWriter {
    type V = WriterView;

    closed spec fn view(&self) -> WriterView {
        WriterView { token: self.token, phase: self.phase }
    }
}

/// What the caller reports to a writer.
#[derive(Debug)]
pub enum WriteEvent {
    /// Whether the file was created.
    Created(bool),
    /// The next chunk of input.
    Chunk(Vec<u8>),
    /// The input has ended.
    EndOfInput,
    /// The input could not be read to its end.
    InputFailed,
    /// Whether the chunk was appended.
    Written(bool),
}

pub enum WriteEventView {
    Created(bool),
    Chunk(Seq<u8>),
    EndOfInput,
    InputFailed,
    Written(bool),
}

impl View for WriteEvent {
    type V = WriteEventView;

    open spec fn view(&self) -> WriteEventView {
        match self {
            WriteEvent::Created(ok) => WriteEventView::Created(*ok),
            WriteEvent::Chunk(bytes) => WriteEventView::Chunk(bytes@),
            WriteEvent::EndOfInput => WriteEventView::EndOfInput,
            WriteEvent::InputFailed => WriteEventView::InputFailed,
            WriteEvent::Written(ok) => WriteEventView::Written(*ok),
        }
    }
}

/// What the caller is to do next for a writer.
#[derive(Debug, PartialEq, Eq)]
pub enum WriteAction {
    /// Create the file of this name; fail if it exists.
    Create(String),
    /// Fetch the next chunk of input.
    NextChunk,
    /// Append these bytes to the file.
    Append(Vec<u8>),
    /// Nothing more: the write has ended with this result.
    Done(Result<Token, ServiceError>),
}

pub enum WriteActionView {
    Create(Seq<char>),
    NextChunk,
    Append(Seq<u8>),
    Done(Result<Token, ServiceError>),
}

impl View for WriteAction {
    type V = WriteActionView;

    open spec fn view(&self) -> WriteActionView {
        match self {
            WriteAction::Create(name) => WriteActionView::Create(name@),
            WriteAction::NextChunk => WriteActionView::NextChunk,
            WriteAction::Append(bytes) => WriteActionView::Append(bytes@),
            WriteAction::Done(result) => WriteActionView::Done(*result),
        }
    }
}

/// The name of the file that holds the blob `token`.
pub open spec fn file_name(token: Token) -> Seq<char> {
    hyphenated(token.value)
}

/// A write under `token` begins: the file is to be created.
pub open spec fn writer_start(token: Token) -> (WriterView, WriteActionView) {
    (
        WriterView { token, phase: WriterPhase::Creating },
        WriteActionView::Create(file_name(token)),
    )
}

/// The writer's answer to `event`, and its state afterwards. A refusal by
/// the file system, input that fails, and an event that the phase does not
/// expect end the write as a storage failure; the writer asks for nothing to
/// be undone.
pub open spec fn writer_step(w: WriterView, event: WriteEventView) -> (
    WriterView,
    WriteActionView,
) {
    match (w.phase, event) {
        (WriterPhase::Creating, WriteEventView::Created(true)) => (
            WriterView { phase: WriterPhase::Receiving, ..w },
            WriteActionView::NextChunk,
        ),
        (WriterPhase::Receiving, WriteEventView::Chunk(bytes)) => (
            WriterView { phase: WriterPhase::Writing, ..w },
            WriteActionView::Append(bytes),
        ),
        (WriterPhase::Receiving, WriteEventView::EndOfInput) => (
            WriterView { phase: WriterPhase::Finished, ..w },
            WriteActionView::Done(Ok(w.token)),
        ),
        (WriterPhase::Writing, WriteEventView::Written(true)) => (
            WriterView { phase: WriterPhase::Receiving, ..w },
            WriteActionView::NextChunk,
        ),
        (_, WriteEventView::InputFailed) => (
            WriterView { phase: WriterPhase::Failed, ..w },
            WriteActionView::Done(Err(ServiceError::StorageIo)),
        ),
        _ => (
            WriterView { phase: WriterPhase::Failed, ..w },
            WriteActionView::Done(Err(ServiceError::StorageIo)),
        ),
    }
}

impl BlobWriter {
    /// Begins a write under `token`.
    pub fn start(token: Token) -> (r: (BlobWriter, WriteAction))
        ensures
            (r.0@, r.1@) == writer_start(token),
    {
        (BlobWriter { token, phase: WriterPhase::Creating }, WriteAction::Create(token.text()))
    }

    /// Begins a write under a token drawn for it.
    pub fn begin() -> (r: (BlobWriter, WriteAction))
        ensures
            is_random_form(r.0@.token.value),
            (r.0@, r.1@) == writer_start(r.0@.token),
    {
        BlobWriter::start(new_token())
    }

    /// The token under which this writer writes.
    pub fn token(&self) -> (token: Token)
        ensures
            token == self@.token,
    {
        self.token
    }

    /// How far the write has come.
    pub fn phase(&self) -> (phase: WriterPhase)
        ensures
            phase == self@.phase,
    {
        self.phase
    }

    fn fail(&mut self) -> (action: WriteAction)
        ensures
            final(self)@ == (WriterView { phase: WriterPhase::Failed, ..old(self)@ }),
            action@ == WriteActionView::Done(Err(ServiceError::StorageIo)),
    {
        self.phase = WriterPhase::Failed;
        WriteAction::Done(Err(ServiceError::StorageIo))
    }

    /// Takes `event` in and says what the caller is to do next.
    pub fn step(&mut self, event: WriteEvent) -> (action: WriteAction)
        ensures
            (final(self)@, action@) == writer_step(old(self)@, event@),
    {
        match self.phase {
            WriterPhase::Creating => match event {
                WriteEvent::Created(true) => {
                    self.phase = WriterPhase::Receiving;
                    WriteAction::NextChunk
                },
                _ => self.fail(),
            },
            WriterPhase::Receiving => match event {
                WriteEvent::Chunk(bytes) => {
                    self.phase = WriterPhase::Writing;
                    WriteAction::Append(bytes)
                },
                WriteEvent::EndOfInput => {
                    self.phase = WriterPhase::Finished;
                    WriteAction::Done(Ok(self.token))
                },
                _ => self.fail(),
            },
            WriterPhase::Writing => match event {
                WriteEvent::Written(true) => {
                    self.phase = WriterPhase::Receiving;
                    WriteAction::NextChunk
                },
                _ => self.fail(),
            },
            _ => self.fail(),
        }
    }
}

/// The file in which the blob that `id` names is kept: the canonical
/// notation of the token that `id` denotes.
pub open spec fn located(id: Seq<char>) -> Result<Seq<char>, ServiceError> {
    match text_value(id) {
        Some(v) => Ok(hyphenated(v)),
        None => Err(ServiceError::InvalidToken),
    }
}

/// What a read comes to, given what was found in the file.
pub open spec fn read_outcome(content: Option<Seq<u8>>) -> Result<Seq<u8>, ServiceError> {
    match content {
        Some(bytes) => Ok(bytes),
        None => Err(ServiceError::NotFound),
    }
}

/// What a deletion comes to, given how the removal ended.
pub open spec fn delete_outcome(removal: Removal) -> Result<(), ServiceError> {
    match removal {
        Removal::Removed => Ok(()),
        Removal::Missing => Err(ServiceError::NotFound),
        Removal::Failed => Err(ServiceError::StorageIo),
    }
}

/// The characters of a text or the failure in its place.
pub open spec fn name_view(r: Result<String, ServiceError>) -> Result<Seq<char>, ServiceError> {
    match r {
        Ok(name) => Ok(name@),
        Err(e) => Err(e),
    }
}

/// The bytes of a blob or the failure in its place.
pub open spec fn bytes_view(r: Result<Vec<u8>, ServiceError>) -> Result<Seq<u8>, ServiceError> {
    match r {
        Ok(bytes) => Ok(bytes@),
        Err(e) => Err(e),
    }
}

/// Checks the notation of `id` and names the file of the blob that it
/// denotes. Where `id` denotes no token there is no file to act on.
pub fn locate(id: &str) -> (r: Result<String, ServiceError>)
    ensures
        name_view(r) == located(id@),
{
    match Token::parse(id) {
        Ok(token) => Ok(token.text()),
        Err(e) => Err(e),
    }
}

/// Concludes a read: `content` is what the file held, or `None` if it is
/// absent or could not be read.
pub fn read_result(content: Option<Vec<u8>>) -> (r: Result<Vec<u8>, ServiceError>)
    ensures
        bytes_view(r) == read_outcome(
            match content {
                Some(bytes) => Some(bytes@),
                None => None,
            },
        ),
{
    match content {
        Some(bytes) => Ok(bytes),
        None => Err(ServiceError::NotFound),
    }
}

/// Concludes a deletion.
pub fn delete_result(removal: Removal) -> (r: Result<(), ServiceError>)
    ensures
        r == delete_outcome(removal),
{
    match removal {
        Removal::Removed => Ok(()),
        Removal::Missing => Err(ServiceError::NotFound),
        Removal::Failed => Err(ServiceError::StorageIo),
    }
}

/// A writer that awaits input is fed `chunks`, each chunk being appended to
/// its file in `dir`. Then the input ends, or, if it is `broken`, fails.
pub open spec fn write_chunks(
    w: WriterView,
    dir: Directory,
    chunks: Seq<Seq<u8>>,
    broken: bool,
) -> (Directory, Result<Token, ServiceError>)
    decreases chunks.len(),
{
    if chunks.len() == 0 {
        let last = if broken {
            WriteEventView::InputFailed
        } else {
            WriteEventView::EndOfInput
        };
        match writer_step(w, last).1 {
            WriteActionView::Done(result) => (dir, result),
            _ => (dir, Err(ServiceError::StorageIo)),
        }
    } else {
        let (writing, action) = writer_step(w, WriteEventView::Chunk(chunks.first()));
        match action {
            WriteActionView::Append(bytes) => {
                let (extended, ok) = dir.append(file_name(w.token), bytes);
                let (next, action) = writer_step(writing, WriteEventView::Written(ok));
                match action {
                    WriteActionView::NextChunk => write_chunks(
                        next,
                        extended,
                        chunks.drop_first(),
                        broken,
                    ),
                    WriteActionView::Done(result) => (extended, result),
                    _ => (extended, Err(ServiceError::StorageIo)),
                }
            },
            WriteActionView::Done(result) => (dir, result),
            _ => (dir, Err(ServiceError::StorageIo)),
        }
    }
}

/// Writing a blob under `token` into `dir`, the input arriving as `chunks`
/// and then ending or, if it is `broken`, failing: the directory afterwards
/// and the result.
pub open spec fn write_input(
    dir: Directory,
    token: Token,
    chunks: Seq<Seq<u8>>,
    broken: bool,
) -> (Directory, Result<Token, ServiceError>) {
    let (creating, action) = writer_start(token);
    match action {
        WriteActionView::Create(name) => {
            let (created, ok) = dir.create_new(name);
            let (receiving, action) = writer_step(creating, WriteEventView::Created(ok));
            match action {
                WriteActionView::NextChunk => write_chunks(receiving, created, chunks, broken),
                WriteActionView::Done(result) => (created, result),
                _ => (created, Err(ServiceError::StorageIo)),
            }
        },
        _ => (dir, Err(ServiceError::StorageIo)),
    }
}

/// Writing a blob under `token` into `dir`, the input arriving whole as
/// `chunks`: the directory afterwards and the result.
pub open spec fn write_blob(dir: Directory, token: Token, chunks: Seq<Seq<u8>>) -> (
    Directory,
    Result<Token, ServiceError>,
) {
    write_input(dir, token, chunks, false)
}

/// Writing a blob under `token` into `dir` from input that fails after
/// `chunks` have arrived: the directory afterwards and the result.
pub open spec fn write_broken(dir: Directory, token: Token, chunks: Seq<Seq<u8>>) -> (
    Directory,
    Result<Token, ServiceError>,
) {
    write_input(dir, token, chunks, true)
}

/// Reading the blob that `id` names from `dir`.
pub open spec fn read_blob(dir: Directory, id: Seq<char>) -> Result<Seq<u8>, ServiceError> {
    match located(id) {
        Ok(name) => read_outcome(dir.read(name)),
        Err(e) => Err(e),
    }
}

/// Deleting the blob that `id` names from `dir`: the directory afterwards
/// and the result.
pub open spec fn delete_blob(dir: Directory, id: Seq<char>) -> (
    Directory,
    Result<(), ServiceError>,
) {
    match located(id) {
        Ok(name) => {
            let (after, removal) = dir.remove(name);
            (after, delete_outcome(removal))
        },
        Err(e) => (dir, Err(e)),
    }
}

proof fn lemma_write_chunks(w: WriterView, dir: Directory, chunks: Seq<Seq<u8>>, broken: bool)
    requires
        w.phase == WriterPhase::Receiving,
        dir.holds(file_name(w.token)),
    ensures
        write_chunks(w, dir, chunks, broken) == (
            Directory {
                files: dir.files.insert(
                    file_name(w.token),
                    dir.files[file_name(w.token)] + chunks.flatten(),
                ),
            },
            if broken {
                Err::<Token, ServiceError>(ServiceError::StorageIo)
            } else {
                Ok(w.token)
            },
        ),
    decreases chunks.len(),
{
    let name = file_name(w.token);
    if chunks.len() == 0 {
        assert(dir.files[name] + chunks.flatten() =~= dir.files[name]);
        assert(dir.files.insert(name, dir.files[name]) =~= dir.files);
    } else {
        let extended = dir.append(name, chunks.first()).0;
        lemma_write_chunks(w, extended, chunks.drop_first(), broken);
        assert(extended.files[name] + chunks.drop_first().flatten() =~= dir.files[name]
            + chunks.flatten());
        assert(extended.files.insert(name, dir.files[name] + chunks.flatten())
            =~= dir.files.insert(name, dir.files[name] + chunks.flatten()));
    }
}

/// What a write comes to. Where the token's name is taken, it fails and
/// changes nothing. Where the name is free, the file is created and holds
/// the chunks that arrived, one after the other; the write succeeds unless
/// the input failed.
pub proof fn lemma_write_input(dir: Directory, token: Token, chunks: Seq<Seq<u8>>, broken: bool)
    ensures
        write_input(dir, token, chunks, broken) == if dir.holds(file_name(token)) {
            (dir, Err::<Token, ServiceError>(ServiceError::StorageIo))
        } else {
            (
                Directory { files: dir.files.insert(file_name(token), chunks.flatten()) },
                if broken {
                    Err::<Token, ServiceError>(ServiceError::StorageIo)
                } else {
                    Ok(token)
                },
            )
        },
{
    let name = file_name(token);
    if !dir.holds(name) {
        let created = dir.create_new(name).0;
        let receiving = WriterView { token, phase: WriterPhase::Receiving };
        lemma_write_chunks(receiving, created, chunks, broken);
        assert(Seq::<u8>::empty() + chunks.flatten() =~= chunks.flatten());
        assert(created.files.insert(name, chunks.flatten()) =~= dir.files.insert(
            name,
            chunks.flatten(),
        ));
    }
}

/// A write succeeds exactly if no file has the token's name yet. The one
/// thing it then changes is that this file holds the chunks, one after the
/// other; a write that fails changes nothing.
pub proof fn lemma_write_blob(dir: Directory, token: Token, chunks: Seq<Seq<u8>>)
    ensures
        write_blob(dir, token, chunks) == if dir.holds(file_name(token)) {
            (dir, Err::<Token, ServiceError>(ServiceError::StorageIo))
        } else {
            (Directory { files: dir.files.insert(file_name(token), chunks.flatten()) }, Ok(token))
        },
{
    lemma_write_input(dir, token, chunks, false);
}

/// A write whose input fails after `chunks` have arrived fails, and never
/// returns the token. Every other file stays as it is. If the token's name
/// was free, the file is left behind with the chunks that did arrive, one
/// after the other; if it was taken, nothing changes.
pub proof fn lemma_write_broken(dir: Directory, token: Token, chunks: Seq<Seq<u8>>)
    ensures
        write_broken(dir, token, chunks).1 == Err::<Token, ServiceError>(ServiceError::StorageIo),
        write_broken(dir, token, chunks).0 == if dir.holds(file_name(token)) {
            dir
        } else {
            Directory { files: dir.files.insert(file_name(token), chunks.flatten()) }
        },
        forall|name: Seq<char>|
            name != file_name(token) ==> #[trigger] write_broken(dir, token, chunks).0.read(name)
                == dir.read(name),
{
    lemma_write_input(dir, token, chunks, true);
}

/// What was written is what is read: if writing `chunks` returns a token,
/// reading by that token's name returns the bytes of the chunks, in order.
pub proof fn lemma_read_after_write(dir: Directory, token: Token, chunks: Seq<Seq<u8>>)
    ensures
        write_blob(dir, token, chunks).1 matches Ok(written) ==> read_blob(
            write_blob(dir, token, chunks).0,
            file_name(written),
        ) == Ok::<Seq<u8>, ServiceError>(chunks.flatten()),
{
    lemma_write_blob(dir, token, chunks);
    lemma_text_round_trip(token.value);
}

/// The same for input that arrives in one piece.
pub proof fn lemma_read_after_write_whole(dir: Directory, token: Token, bytes: Seq<u8>)
    ensures
        write_blob(dir, token, seq![bytes]).1 matches Ok(written) ==> read_blob(
            write_blob(dir, token, seq![bytes]).0,
            file_name(written),
        ) == Ok::<Seq<u8>, ServiceError>(bytes),
{
    lemma_read_after_write(dir, token, seq![bytes]);
    seq![bytes].lemma_flatten_one_element();
}

/// A blob, once written, is never changed: a later write leaves every file
/// that is there as it is, whatever its token, and a deletion leaves every
/// file but the one that it names.
pub proof fn lemma_stored_blob_unchanged(
    dir: Directory,
    name: Seq<char>,
    token: Token,
    chunks: Seq<Seq<u8>>,
    id: Seq<char>,
)
    requires
        dir.holds(name),
    ensures
        write_blob(dir, token, chunks).0.read(name) == dir.read(name),
        located(id) != Ok::<Seq<char>, ServiceError>(name) ==> delete_blob(dir, id).0.read(name)
            == dir.read(name),
{
    lemma_write_blob(dir, token, chunks);
}

/// Two writes under different tokens leave the same directory behind in
/// whichever order they are made.
pub proof fn lemma_writes_commute(
    dir: Directory,
    first: Token,
    first_chunks: Seq<Seq<u8>>,
    second: Token,
    second_chunks: Seq<Seq<u8>>,
)
    requires
        first != second,
    ensures
        write_blob(write_blob(dir, first, first_chunks).0, second, second_chunks).0.files
            == write_blob(write_blob(dir, second, second_chunks).0, first, first_chunks).0.files,
{
    let one = write_blob(dir, first, first_chunks).0;
    let other = write_blob(dir, second, second_chunks).0;
    lemma_names_distinct(first.value, second.value);
    lemma_write_blob(dir, first, first_chunks);
    lemma_write_blob(dir, second, second_chunks);
    lemma_write_blob(one, second, second_chunks);
    lemma_write_blob(other, first, first_chunks);
    assert(write_blob(one, second, second_chunks).0.files =~= write_blob(
        other,
        first,
        first_chunks,
    ).0.files);
}

/// One write: the token drawn for it and the input in its chunks.
pub struct WriteJob {
    pub token: Token,
    pub chunks: Seq<Seq<u8>>,
}

/// Several writes, one after the other: the directory afterwards and the
/// result of each.
pub open spec fn write_each(dir: Directory, writes: Seq<WriteJob>) -> (
    Directory,
    Seq<Result<Token, ServiceError>>,
)
    decreases writes.len(),
{
    if writes.len() == 0 {
        (dir, Seq::empty())
    } else {
        let (written, result) = write_blob(dir, writes.first().token, writes.first().chunks);
        let (after, results) = write_each(written, writes.drop_first());
        (after, seq![result] + results)
    }
}

/// Writes leave every file that is there as it is, and none of them
/// succeeds under a name that was taken before the first.
proof fn lemma_write_each_keeps(dir: Directory, writes: Seq<WriteJob>)
    ensures
        write_each(dir, writes).1.len() == writes.len(),
        forall|name: Seq<char>| #[trigger]
            dir.holds(name) ==> write_each(dir, writes).0.holds(name) && write_each(
                dir,
                writes,
            ).0.files[name] == dir.files[name],
        forall|i: int|
            0 <= i < writes.len() && (#[trigger] write_each(dir, writes).1[i]) is Ok ==> !dir.holds(
                file_name(writes[i].token),
            ),
    decreases writes.len(),
{
    if writes.len() > 0 {
        let first = writes.first();
        let rest = writes.drop_first();
        let written = write_blob(dir, first.token, first.chunks).0;
        lemma_write_blob(dir, first.token, first.chunks);
        lemma_write_each_keeps(written, rest);
        let results = write_each(dir, writes).1;
        let after = write_each(dir, writes).0;
        assert forall|name: Seq<char>| #[trigger] dir.holds(name) implies after.holds(name)
            && after.files[name] == dir.files[name] by {
            assert(written.holds(name));
        }
        assert forall|i: int|
            0 <= i < writes.len() && (#[trigger] results[i]) is Ok implies !dir.holds(
            file_name(writes[i].token),
        ) by {
            if i > 0 {
                assert(results[i] == write_each(written, rest).1[i - 1]);
                assert(rest[i - 1] == writes[i]);
                assert(!written.holds(file_name(writes[i].token)));
            }
        }
    }
}

/// Writes that succeed do so under tokens that differ from one another,
/// and each blob is afterwards read as it was written: no later write
/// changes it.
pub proof fn lemma_writes_do_not_collide(dir: Directory, writes: Seq<WriteJob>)
    ensures
        write_each(dir, writes).1.len() == writes.len(),
        forall|i: int, j: int|
            0 <= i < j < writes.len() && (#[trigger] write_each(dir, writes).1[i]) is Ok && (
            #[trigger] write_each(dir, writes).1[j]) is Ok ==> writes[i].token != writes[j].token,
        forall|i: int|
            0 <= i < writes.len() ==> ((#[trigger] write_each(dir, writes).1[i]) matches Ok(token)
                ==> token == writes[i].token && read_blob(
                write_each(dir, writes).0,
                file_name(token),
            ) == Ok::<Seq<u8>, ServiceError>(writes[i].chunks.flatten())),
    decreases writes.len(),
{
    if writes.len() > 0 {
        let first = writes.first();
        let rest = writes.drop_first();
        let (written, result) = write_blob(dir, first.token, first.chunks);
        let (after, later) = write_each(written, rest);
        let results = write_each(dir, writes).1;
        lemma_write_blob(dir, first.token, first.chunks);
        lemma_write_each_keeps(written, rest);
        lemma_writes_do_not_collide(written, rest);
        lemma_text_round_trip(first.token.value);
        assert forall|i: int, j: int|
            0 <= i < j < writes.len() && (#[trigger] results[i]) is Ok && (
            #[trigger] results[j]) is Ok implies writes[i].token != writes[j].token by {
            assert(results[j] == later[j - 1]);
            assert(rest[j - 1] == writes[j]);
            if i > 0 {
                assert(results[i] == later[i - 1]);
                assert(rest[i - 1] == writes[i]);
            } else {
                assert(written.holds(file_name(first.token)));
                assert(!written.holds(file_name(writes[j].token)));
            }
        }
        assert forall|i: int| 0 <= i < writes.len() implies ((#[trigger] results[i]) matches Ok(
            token,
        ) ==> token == writes[i].token && read_blob(after, file_name(token)) == Ok::<
            Seq<u8>,
            ServiceError,
        >(writes[i].chunks.flatten())) by {
            if i > 0 {
                assert(results[i] == later[i - 1]);
                assert(rest[i - 1] == writes[i]);
            } else if results[0] is Ok {
                assert(written.holds(file_name(first.token)));
                assert(after.files[file_name(first.token)] == first.chunks.flatten());
            }
        }
    }
}

/// Deleting is not idempotent: where a deletion succeeds, the same deletion
/// made again reports that nothing is there, and leaves the directory as it
/// is.
pub proof fn lemma_delete_twice(dir: Directory, id: Seq<char>)
    ensures
        delete_blob(dir, id).1 is Ok ==> delete_blob(delete_blob(dir, id).0, id) == (
            delete_blob(dir, id).0,
            Err::<(), ServiceError>(ServiceError::NotFound),
        ),
{
}

/// A deletion succeeds exactly where a read does, and after it the blob can
/// no longer be read.
pub proof fn lemma_read_after_delete(dir: Directory, id: Seq<char>)
    ensures
        delete_blob(dir, id).1 is Ok <==> read_blob(dir, id) is Ok,
        delete_blob(dir, id).1 is Ok ==> read_blob(delete_blob(dir, id).0, id) == Err::<
            Seq<u8>,
            ServiceError,
        >(ServiceError::NotFound),
{
}

/// An identifier that denotes no token is turned away whatever the
/// directory holds, and the directory stays as it is.
pub proof fn lemma_malformed_rejected(dir: Directory, id: Seq<char>)
    requires
        text_value(id) is None,
    ensures
        located(id) == Err::<Seq<char>, ServiceError>(ServiceError::InvalidToken),
        read_blob(dir, id) == Err::<Seq<u8>, ServiceError>(ServiceError::InvalidToken),
        delete_blob(dir, id) == (dir, Err::<(), ServiceError>(ServiceError::InvalidToken)),
{
}

/// A token in good notation under which nothing was written is not found.
pub proof fn lemma_unwritten_not_found(dir: Directory, id: Seq<char>)
    requires
        text_value(id) matches Some(v) && !dir.holds(hyphenated(v)),
    ensures
        read_blob(dir, id) == Err::<Seq<u8>, ServiceError>(ServiceError::NotFound),
        delete_blob(dir, id) == (dir, Err::<(), ServiceError>(ServiceError::NotFound)),
{
}

} // verus!
