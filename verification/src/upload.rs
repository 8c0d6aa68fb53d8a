//! The upload handler: what to do with each part of a multipart form, and
//! how to answer once the form has been read.
//!
//! The handler is a state machine. The caller reads the request: it reports
//! each thing that happens as an `UploadEvent` to `UploadForm::step` and
//! carries out the `UploadAction` that comes back, until that action is a
//! reply. The form must bring a text part named `identifier`, whose content
//! is valid UTF-8 and not empty, and a file part named `f` that has a file
//! name; parts of any other name are passed over. `upload` says what a whole
//! request comes to.

use crate::directory::Directory;
use crate::error::{MultipartDefect, ServiceError};
use crate::response::{
    error_reply, stored_reply, text_view, Config, ConfigView, Response, ResponseView,
};
use crate::store::{file_name, lemma_write_broken, lemma_write_input, write_broken, write_input};
use crate::token::{hyphenated, Token};
use vstd::prelude::*;
use vstd::string::StringExecFns;
use vstd::utf8::{decode_utf8, valid_utf8};

verus! {

/// The content disposition of a part, as far as the handler reads it.
#[derive(Debug)]
pub struct Disposition {
    /// The name of the form field.
    pub name: Option<String>,
    /// The file name that the client gave.
    pub filename: Option<String>,
}

pub struct DispositionView {
    pub name: Option<Seq<char>>,
    pub filename: Option<Seq<char>>,
}

impl View for Disposition {
    type V = DispositionView;

    open spec fn view(&self) -> DispositionView {
        DispositionView { name: text_view(self.name), filename: text_view(self.filename) }
    }
}

/// What the caller reports.
#[derive(Debug)]
pub enum UploadEvent {
    /// The next part has arrived, with its content disposition if it has one.
    Part(Option<Disposition>),
    /// The request holds no further part, or reading it has failed.
    End,
    /// The content of the current part was handed to the blob store, with
    /// this result.
    Stored(Result<Token, ServiceError>),
    /// The whole content of the current part, its chunks one after the other,
    /// or `None` if it could not be read to its end.
    Text(Option<Vec<u8>>),
}

pub enum UploadEventView {
    Part(Option<DispositionView>),
    End,
    Stored(Result<Token, ServiceError>),
    Text(Option<Seq<u8>>),
}

impl View for UploadEvent {
    type V = UploadEventView;

    open spec fn view(&self) -> UploadEventView {
        match self {
            UploadEvent::Part(Some(d)) => UploadEventView::Part(Some(d@)),
            UploadEvent::Part(None) => UploadEventView::Part(None),
            UploadEvent::End => UploadEventView::End,
            UploadEvent::Stored(result) => UploadEventView::Stored(*result),
            UploadEvent::Text(Some(bytes)) => UploadEventView::Text(Some(bytes@)),
            UploadEvent::Text(None) => UploadEventView::Text(None),
        }
    }
}

/// What the caller is to do next.
#[derive(Debug, PartialEq, Eq)]
pub enum UploadAction {
    /// Read the next part of the request and report it.
    NextPart,
    /// Hand the content of the current part to the blob store and report
    /// the result.
    StoreFile,
    /// Read the content of the current part to its end and report it.
    ReadText,
    /// Send `response`; if `log` is there, write it to the log as a piece of
    /// information. The request is done.
    Respond { response: Response, log: Option<String> },
}

pub enum UploadActionView {
    NextPart,
    StoreFile,
    ReadText,
    Respond { response: ResponseView, log: Option<Seq<char>> },
}

impl View for UploadAction {
    type V = UploadActionView;

    open spec fn view(&self) -> UploadActionView {
        match self {
            UploadAction::NextPart => UploadActionView::NextPart,
            UploadAction::StoreFile => UploadActionView::StoreFile,
            UploadAction::ReadText => UploadActionView::ReadText,
            UploadAction::Respond { response, log } => UploadActionView::Respond {
                response: response@,
                log: text_view(*log),
            },
        }
    }
}

/// What the handler is waiting for.
#[derive(Clone, Copy, PartialEq, Eq, Structural, Debug)]
pub enum UploadPhase {
    /// The next part, or the end of the request.
    AwaitPart,
    /// The result of storing the current file part.
    AwaitStored,
    /// The content of the current identifier part.
    AwaitText,
    /// Nothing: the reply has been given.
    Done,
}

/// What has been gathered from the form so far.
#[derive(Debug)]
pub struct UploadForm {
    identifier: Option<String>,
    filename: Option<String>,
    stored: Option<Token>,
    phase: UploadPhase,
}

pub struct UploadFormView {
    /// The text of the latest identifier part, if it had content and that
    /// was valid UTF-8.
    pub identifier: Option<Seq<char>>,
    /// The file name of the latest file part.
    pub filename: Option<Seq<char>>,
    /// The token under which the latest file part was stored.
    pub stored: Option<Token>,
    pub phase: UploadPhase,
}

impl View for UploadForm {
    type V = UploadFormView;

    closed spec fn view(&self) -> UploadFormView {
        UploadFormView {
            identifier: text_view(self.identifier),
            filename: text_view(self.filename),
            stored: self.stored,
            phase: self.phase,
        }
    }
}

/// The role of a part, by the name of its field.
#[derive(Clone, Copy, PartialEq, Eq, Structural, Debug)]
pub enum PartKind {
    File,
    Identifier,
    Other,
}

pub open spec fn kind_of(name: Seq<char>) -> PartKind {
    if name == "f"@ {
        PartKind::File
    } else if name == "identifier"@ {
        PartKind::Identifier
    } else {
        PartKind::Other
    }
}

/// The text that `bytes` encode, if they are valid UTF-8.
pub open spec fn decoded_text(bytes: Seq<u8>) -> Option<Seq<char>> {
    if valid_utf8(bytes) {
        Some(decode_utf8(bytes))
    } else {
        None
    }
}

/// The identifier that a part of the content `bytes` gives: their text, if
/// they are valid UTF-8. A part without content gives none.
pub open spec fn identifier_text(bytes: Seq<u8>) -> Option<Seq<char>> {
    if bytes.len() == 0 {
        None
    } else {
        decoded_text(bytes)
    }
}

/// The line that records an accepted upload.
pub open spec fn upload_log(identifier: Seq<char>, token: Token, filename: Seq<char>) -> Seq<
    char,
> {
    "Someone uploaded '"@ + identifier + "' to '"@ + hyphenated(token.value)
        + "'; original filename was '"@ + filename + "'"@
}

/// A form of which nothing has been read.
pub open spec fn empty_form() -> UploadFormView {
    UploadFormView { identifier: None, filename: None, stored: None, phase: UploadPhase::AwaitPart }
}

/// The request ends with the report of the failure `e`.
pub open spec fn reject(form: UploadFormView, e: ServiceError, config: ConfigView) -> (
    UploadFormView,
    UploadActionView,
) {
    (
        UploadFormView { phase: UploadPhase::Done, ..form },
        UploadActionView::Respond { response: error_reply(e, config.missing), log: None },
    )
}

/// The request has been read to its end: it is accepted if the identifier,
/// the file name and the stored file are all there.
pub open spec fn conclude(form: UploadFormView, config: ConfigView) -> (
    UploadFormView,
    UploadActionView,
) {
    if form.identifier is Some && form.filename is Some && form.stored is Some {
        (
            UploadFormView { phase: UploadPhase::Done, ..form },
            UploadActionView::Respond {
                response: stored_reply(form.stored.unwrap(), config.style),
                log: Some(
                    upload_log(
                        form.identifier.unwrap(),
                        form.stored.unwrap(),
                        form.filename.unwrap(),
                    ),
                ),
            },
        )
    } else {
        reject(form, ServiceError::IncompleteForm, config)
    }
}

/// A part has arrived.
pub open spec fn enter_part(
    form: UploadFormView,
    disposition: Option<DispositionView>,
    config: ConfigView,
) -> (UploadFormView, UploadActionView) {
    match disposition {
        None => reject(
            form,
            ServiceError::MalformedMultipart(MultipartDefect::MissingDisposition),
            config,
        ),
        Some(d) => match d.name {
            None => reject(
                form,
                ServiceError::MalformedMultipart(MultipartDefect::MissingName),
                config,
            ),
            Some(name) => match kind_of(name) {
                PartKind::File => (
                    UploadFormView {
                        filename: d.filename,
                        phase: UploadPhase::AwaitStored,
                        ..form
                    },
                    UploadActionView::StoreFile,
                ),
                PartKind::Identifier => (
                    UploadFormView { phase: UploadPhase::AwaitText, ..form },
                    UploadActionView::ReadText,
                ),
                PartKind::Other => (form, UploadActionView::NextPart),
            },
        },
    }
}

/// The handler's answer to `event`, and what it then holds. An event that
/// the phase does not expect ends the request as an incomplete form.
pub open spec fn upload_step(form: UploadFormView, event: UploadEventView, config: ConfigView) -> (
    UploadFormView,
    UploadActionView,
) {
    match (form.phase, event) {
        (UploadPhase::AwaitPart, UploadEventView::Part(disposition)) => enter_part(
            form,
            disposition,
            config,
        ),
        (UploadPhase::AwaitPart, UploadEventView::End) => conclude(form, config),
        (UploadPhase::AwaitStored, UploadEventView::Stored(Ok(token))) => (
            UploadFormView { stored: Some(token), phase: UploadPhase::AwaitPart, ..form },
            UploadActionView::NextPart,
        ),
        (UploadPhase::AwaitStored, UploadEventView::Stored(Err(e))) => reject(form, e, config),
        (UploadPhase::AwaitText, UploadEventView::Text(content)) => (
            UploadFormView {
                identifier: match content {
                    Some(bytes) => identifier_text(bytes),
                    None => None,
                },
                phase: UploadPhase::AwaitPart,
                ..form
            },
            UploadActionView::NextPart,
        ),
        _ => reject(form, ServiceError::IncompleteForm, config),
    }
}

/// `String::from_utf8`.
///
/// Trusted: the bytes are accepted exactly if they are valid UTF-8, and the
/// text is then the characters that they encode.
#[verifier::external_body]
fn text_from_utf8(bytes: Vec<u8>) -> (r: Option<String>)
    ensures
        text_view(r) == decoded_text(bytes@),
{
    match String::from_utf8(bytes) {
        Ok(text) => Some(text),
        Err(_) => None,
    }
}

/// The role of the part whose field is called `name`.
pub fn classify(name: &str) -> (kind: PartKind)
    ensures
        kind == kind_of(name@),
{
    let name = String::from_str(name);
    if name == String::from_str("f") {
        PartKind::File
    } else if name == String::from_str("identifier") {
        PartKind::Identifier
    } else {
        PartKind::Other
    }
}

impl UploadForm {
    /// A form of which nothing has been read.
    pub fn new() -> (form: UploadForm)
        ensures
            form@ == empty_form(),
    {
        UploadForm { identifier: None, filename: None, stored: None, phase: UploadPhase::AwaitPart }
    }

    /// What the handler is waiting for.
    pub fn phase(&self) -> (phase: UploadPhase)
        ensures
            phase == self@.phase,
    {
        self.phase
    }

    fn reject(&mut self, e: ServiceError, config: &Config) -> (action: UploadAction)
        ensures
            (final(self)@, action@) == reject(old(self)@, e, config@),
    {
        self.phase = UploadPhase::Done;
        UploadAction::Respond { response: Response::failure(e, config.missing), log: None }
    }

    fn conclude(&mut self, config: &Config) -> (action: UploadAction)
        ensures
            (final(self)@, action@) == conclude(old(self)@, config@),
    {
        match (&self.identifier, &self.filename, self.stored) {
            (Some(identifier), Some(filename), Some(token)) => {
                let mut line = String::from_str("Someone uploaded '");
                line.append(identifier.as_str());
                line.append("' to '");
                line.append(token.text().as_str());
                line.append("'; original filename was '");
                line.append(filename.as_str());
                line.append("'");
                self.phase = UploadPhase::Done;
                UploadAction::Respond {
                    response: Response::stored(token, &config.style),
                    log: Some(line),
                }
            },
            _ => self.reject(ServiceError::IncompleteForm, config),
        }
    }

    fn enter_part(&mut self, disposition: Option<Disposition>, config: &Config) -> (action:
        UploadAction)
        ensures
            (final(self)@, action@) == enter_part(
                old(self)@,
                match disposition {
                    Some(d) => Some(d@),
                    None => None,
                },
                config@,
            ),
    {
        let d = match disposition {
            Some(d) => d,
            None => {
                return self.reject(
                    ServiceError::MalformedMultipart(MultipartDefect::MissingDisposition),
                    config,
                );
            },
        };
        let name = match d.name {
            Some(name) => name,
            None => {
                return self.reject(
                    ServiceError::MalformedMultipart(MultipartDefect::MissingName),
                    config,
                );
            },
        };
        match classify(name.as_str()) {
            PartKind::File => {
                self.filename = d.filename;
                self.phase = UploadPhase::AwaitStored;
                UploadAction::StoreFile
            },
            PartKind::Identifier => {
                self.phase = UploadPhase::AwaitText;
                UploadAction::ReadText
            },
            PartKind::Other => UploadAction::NextPart,
        }
    }

    /// Takes `event` in and says what the caller is to do next.
    pub fn step(&mut self, event: UploadEvent, config: &Config) -> (action: UploadAction)
        ensures
            (final(self)@, action@) == upload_step(old(self)@, event@, config@),
    {
        match self.phase {
            UploadPhase::AwaitPart => match event {
                UploadEvent::Part(disposition) => self.enter_part(disposition, config),
                UploadEvent::End => self.conclude(config),
                _ => self.reject(ServiceError::IncompleteForm, config),
            },
            UploadPhase::AwaitStored => match event {
                UploadEvent::Stored(Ok(token)) => {
                    self.stored = Some(token);
                    self.phase = UploadPhase::AwaitPart;
                    UploadAction::NextPart
                },
                UploadEvent::Stored(Err(e)) => self.reject(e, config),
                _ => self.reject(ServiceError::IncompleteForm, config),
            },
            UploadPhase::AwaitText => match event {
                UploadEvent::Text(content) => {
                    self.identifier = match content {
                        Some(bytes) => if bytes.len() == 0 {
                            None
                        } else {
                            text_from_utf8(bytes)
                        },
                        None => None,
                    };
                    self.phase = UploadPhase::AwaitPart;
                    UploadAction::NextPart
                },
                _ => self.reject(ServiceError::IncompleteForm, config),
            },
            UploadPhase::Done => self.reject(ServiceError::IncompleteForm, config),
        }
    }
}

/// A part of a request as the caller meets it: its content disposition, if
/// it has one, and its content in the chunks in which it arrives. Where the
/// part is `broken`, reading fails once these chunks have arrived.
pub struct Part {
    pub disposition: Option<DispositionView>,
    pub chunks: Seq<Seq<u8>>,
    pub broken: bool,
}

impl Part {
    /// Is this part's field called `name`?
    pub open spec fn is_named(self, name: Seq<char>) -> bool {
        self.disposition matches Some(d) && d.name == Some(name)
    }

    /// The content of the part: its chunks, one after the other.
    pub open spec fn content(self) -> Seq<u8> {
        self.chunks.flatten()
    }

    /// What the caller reports of the content once it has read the part to
    /// its end.
    pub open spec fn read_whole(self) -> Option<Seq<u8>> {
        if self.broken {
            None
        } else {
            Some(self.content())
        }
    }

    /// The identifier that this part gives if it is read as one.
    pub open spec fn identifier(self) -> Option<Seq<char>> {
        match self.read_whole() {
            Some(bytes) => identifier_text(bytes),
            None => None,
        }
    }

    /// The file name that came with this part.
    pub open spec fn filename(self) -> Option<Seq<char>> {
        match self.disposition {
            Some(d) => d.filename,
            None => None,
        }
    }

    /// The part has a content disposition with a name, and its content can
    /// be read to its end.
    pub open spec fn is_sound(self) -> bool {
        self.disposition matches Some(d) && d.name is Some && !self.broken
    }
}

/// The reply that `action` carries.
pub open spec fn reply_of(action: UploadActionView, config: ConfigView) -> ResponseView {
    match action {
        UploadActionView::Respond { response, log } => response,
        _ => error_reply(ServiceError::IncompleteForm, config.missing),
    }
}

/// A handler that awaits a part is led through `parts` and then the end of
/// the request. File parts are written into `dir`, the first of them under
/// the first of `tokens`, and so on. Gives the directory afterwards and the
/// reply.
pub open spec fn read_parts(
    form: UploadFormView,
    dir: Directory,
    parts: Seq<Part>,
    tokens: Seq<Token>,
    config: ConfigView,
) -> (Directory, ResponseView)
    decreases parts.len(),
{
    if parts.len() == 0 {
        (dir, reply_of(upload_step(form, UploadEventView::End, config).1, config))
    } else {
        let part = parts.first();
        let (entered, action) = upload_step(form, UploadEventView::Part(part.disposition), config);
        match action {
            UploadActionView::NextPart => read_parts(
                entered,
                dir,
                parts.drop_first(),
                tokens,
                config,
            ),
            UploadActionView::StoreFile => {
                let (written, result) = write_input(
                    dir,
                    tokens.first(),
                    part.chunks,
                    part.broken,
                );
                let (next, action) = upload_step(entered, UploadEventView::Stored(result), config);
                match action {
                    UploadActionView::NextPart => read_parts(
                        next,
                        written,
                        parts.drop_first(),
                        tokens.drop_first(),
                        config,
                    ),
                    _ => (written, reply_of(action, config)),
                }
            },
            UploadActionView::ReadText => {
                let (next, action) = upload_step(
                    entered,
                    UploadEventView::Text(part.read_whole()),
                    config,
                );
                match action {
                    UploadActionView::NextPart => read_parts(
                        next,
                        dir,
                        parts.drop_first(),
                        tokens,
                        config,
                    ),
                    _ => (dir, reply_of(action, config)),
                }
            },
            UploadActionView::Respond { response, log } => (dir, response),
        }
    }
}

/// An upload of the form `parts` while the directory is `dir`: the
/// directory afterwards and the reply.
pub open spec fn upload(
    dir: Directory,
    parts: Seq<Part>,
    tokens: Seq<Token>,
    config: ConfigView,
) -> (Directory, ResponseView) {
    read_parts(empty_form(), dir, parts, tokens, config)
}

proof fn lemma_no_identifier(
    form: UploadFormView,
    dir: Directory,
    parts: Seq<Part>,
    tokens: Seq<Token>,
    config: ConfigView,
)
    requires
        form.phase == UploadPhase::AwaitPart,
        form.identifier is None,
        forall|i: int|
            0 <= i < parts.len() && (#[trigger] parts[i]).is_named("identifier"@)
                ==> parts[i].identifier() is None,
    ensures
        read_parts(form, dir, parts, tokens, config).1.status == 400,
    decreases parts.len(),
{
    if parts.len() > 0 {
        let part = parts.first();
        assert(parts[0].is_named("identifier"@) ==> parts[0].identifier() is None);
        let rest = parts.drop_first();
        assert forall|i: int|
            0 <= i < rest.len() && (#[trigger] rest[i]).is_named(
                "identifier"@,
            ) implies rest[i].identifier() is None by {
            assert(rest[i] == parts[i + 1]);
        }
        let (entered, action) = upload_step(form, UploadEventView::Part(part.disposition), config);
        match action {
            UploadActionView::NextPart => {
                lemma_no_identifier(entered, dir, rest, tokens, config);
            },
            UploadActionView::StoreFile => {
                lemma_write_input(dir, tokens.first(), part.chunks, part.broken);
                let (written, result) = write_input(
                    dir,
                    tokens.first(),
                    part.chunks,
                    part.broken,
                );
                let next = upload_step(entered, UploadEventView::Stored(result), config).0;
                if result is Ok {
                    lemma_no_identifier(next, written, rest, tokens.drop_first(), config);
                }
            },
            UploadActionView::ReadText => {
                let next = upload_step(
                    entered,
                    UploadEventView::Text(part.read_whole()),
                    config,
                ).0;
                lemma_no_identifier(next, dir, rest, tokens, config);
            },
            _ => {},
        }
    }
}

/// A form in which no part named `identifier` gives an identifier is
/// answered with 400, whatever else it holds. A part gives none if it has no
/// content, if its content is not valid UTF-8, or if it cannot be read to
/// its end.
pub proof fn lemma_unusable_identifier_rejected(
    dir: Directory,
    parts: Seq<Part>,
    tokens: Seq<Token>,
    config: ConfigView,
)
    requires
        forall|i: int|
            0 <= i < parts.len() && (#[trigger] parts[i]).is_named("identifier"@)
                ==> parts[i].identifier() is None,
    ensures
        upload(dir, parts, tokens, config).1.status == 400,
{
    lemma_no_identifier(empty_form(), dir, parts, tokens, config);
}

/// A form without a part named `identifier` is answered with 400, whatever
/// else it holds.
pub proof fn lemma_missing_identifier_rejected(
    dir: Directory,
    parts: Seq<Part>,
    tokens: Seq<Token>,
    config: ConfigView,
)
    requires
        forall|i: int| 0 <= i < parts.len() ==> !(#[trigger] parts[i]).is_named("identifier"@),
    ensures
        upload(dir, parts, tokens, config).1.status == 400,
{
    lemma_no_identifier(empty_form(), dir, parts, tokens, config);
}

proof fn lemma_no_file(
    form: UploadFormView,
    dir: Directory,
    parts: Seq<Part>,
    tokens: Seq<Token>,
    config: ConfigView,
)
    requires
        form.phase == UploadPhase::AwaitPart,
        form.stored is None,
        forall|i: int| 0 <= i < parts.len() ==> !(#[trigger] parts[i]).is_named("f"@),
    ensures
        read_parts(form, dir, parts, tokens, config).0 == dir,
        read_parts(form, dir, parts, tokens, config).1.status == 400,
    decreases parts.len(),
{
    if parts.len() > 0 {
        let part = parts.first();
        assert(!parts[0].is_named("f"@));
        let rest = parts.drop_first();
        assert forall|i: int| 0 <= i < rest.len() implies !(#[trigger] rest[i]).is_named("f"@) by {
            assert(rest[i] == parts[i + 1]);
        }
        let (entered, action) = upload_step(form, UploadEventView::Part(part.disposition), config);
        match action {
            UploadActionView::NextPart => {
                lemma_no_file(entered, dir, rest, tokens, config);
            },
            UploadActionView::ReadText => {
                let next = upload_step(
                    entered,
                    UploadEventView::Text(part.read_whole()),
                    config,
                ).0;
                lemma_no_file(next, dir, rest, tokens, config);
            },
            _ => {},
        }
    }
}

/// A form without a part named `f` is answered with 400, and nothing is
/// written for it.
pub proof fn lemma_missing_file_rejected(
    dir: Directory,
    parts: Seq<Part>,
    tokens: Seq<Token>,
    config: ConfigView,
)
    requires
        forall|i: int| 0 <= i < parts.len() ==> !(#[trigger] parts[i]).is_named("f"@),
    ensures
        upload(dir, parts, tokens, config).0 == dir,
        upload(dir, parts, tokens, config).1.status == 400,
{
    lemma_no_file(empty_form(), dir, parts, tokens, config);
}

/// A form that is turned away may leave its file behind: one that holds
/// only the file part is answered as incomplete after the blob was written.
pub proof fn lemma_rejected_upload_keeps_blob(
    dir: Directory,
    filename: Option<Seq<char>>,
    chunks: Seq<Seq<u8>>,
    token: Token,
    config: ConfigView,
)
    requires
        !dir.holds(file_name(token)),
    ensures
        upload(
            dir,
            seq![
                Part {
                    disposition: Some(DispositionView { name: Some("f"@), filename }),
                    chunks,
                    broken: false,
                },
            ],
            seq![token],
            config,
        ) == (
            Directory { files: dir.files.insert(file_name(token), chunks.flatten()) },
            error_reply(ServiceError::IncompleteForm, config.missing),
        ),
{
    let part = Part {
        disposition: Some(DispositionView { name: Some("f"@), filename }),
        chunks,
        broken: false,
    };
    let parts = seq![part];
    let tokens = seq![token];
    lemma_write_input(dir, token, chunks, false);
    assert(parts.first() == part);
    assert(tokens.first() == token);
    assert(parts.drop_first().len() == 0);
    let written = Directory { files: dir.files.insert(file_name(token), chunks.flatten()) };
    let stored = UploadFormView {
        filename,
        stored: Some(token),
        phase: UploadPhase::AwaitPart,
        ..empty_form()
    };
    assert(read_parts(stored, written, parts.drop_first(), tokens.drop_first(), config) == (
        written,
        error_reply(ServiceError::IncompleteForm, config.missing),
    ));
}

proof fn lemma_no_filename(
    form: UploadFormView,
    dir: Directory,
    parts: Seq<Part>,
    tokens: Seq<Token>,
    config: ConfigView,
)
    requires
        form.phase == UploadPhase::AwaitPart,
        form.filename is None,
        forall|i: int|
            0 <= i < parts.len() && (#[trigger] parts[i]).is_named("f"@) ==> parts[i].filename()
                is None,
    ensures
        read_parts(form, dir, parts, tokens, config).1.status == 400,
    decreases parts.len(),
{
    if parts.len() > 0 {
        let part = parts.first();
        assert(parts[0].is_named("f"@) ==> parts[0].filename() is None);
        let rest = parts.drop_first();
        assert forall|i: int|
            0 <= i < rest.len() && (#[trigger] rest[i]).is_named(
                "f"@,
            ) implies rest[i].filename() is None by {
            assert(rest[i] == parts[i + 1]);
        }
        let (entered, action) = upload_step(form, UploadEventView::Part(part.disposition), config);
        match action {
            UploadActionView::NextPart => {
                lemma_no_filename(entered, dir, rest, tokens, config);
            },
            UploadActionView::StoreFile => {
                lemma_write_input(dir, tokens.first(), part.chunks, part.broken);
                let (written, result) = write_input(
                    dir,
                    tokens.first(),
                    part.chunks,
                    part.broken,
                );
                let next = upload_step(entered, UploadEventView::Stored(result), config).0;
                if result is Ok {
                    lemma_no_filename(next, written, rest, tokens.drop_first(), config);
                }
            },
            UploadActionView::ReadText => {
                let next = upload_step(
                    entered,
                    UploadEventView::Text(part.read_whole()),
                    config,
                ).0;
                lemma_no_filename(next, dir, rest, tokens, config);
            },
            _ => {},
        }
    }
}

/// A form in which no part named `f` brings a file name is answered with
/// 400, whatever else it holds.
pub proof fn lemma_unnamed_file_rejected(
    dir: Directory,
    parts: Seq<Part>,
    tokens: Seq<Token>,
    config: ConfigView,
)
    requires
        forall|i: int|
            0 <= i < parts.len() && (#[trigger] parts[i]).is_named("f"@) ==> parts[i].filename()
                is None,
    ensures
        upload(dir, parts, tokens, config).1.status == 400,
{
    lemma_no_filename(empty_form(), dir, parts, tokens, config);
}

/// The rest of a complete form. `identifier` and `file` are the places of
/// the one part of each name among `parts`; where one is `None`, that part
/// has been read before and `form` holds what it gave.
proof fn lemma_gathering(
    form: UploadFormView,
    dir: Directory,
    parts: Seq<Part>,
    tokens: Seq<Token>,
    identifier: Option<int>,
    file: Option<int>,
    config: ConfigView,
)
    requires
        form.phase == UploadPhase::AwaitPart,
        forall|k: int| 0 <= k < parts.len() ==> (#[trigger] parts[k]).is_sound(),
        forall|k: int|
            0 <= k < parts.len() && (#[trigger] parts[k]).is_named("identifier"@) ==> identifier
                == Some(k),
        forall|k: int|
            0 <= k < parts.len() && (#[trigger] parts[k]).is_named("f"@) ==> file == Some(k),
        match identifier {
            Some(i) => 0 <= i < parts.len() && parts[i].is_named("identifier"@)
                && parts[i].identifier() is Some,
            None => form.identifier is Some,
        },
        match file {
            Some(j) => 0 <= j < parts.len() && parts[j].is_named("f"@) && parts[j].filename()
                is Some && !dir.holds(file_name(tokens.first())),
            None => form.filename is Some && form.stored is Some,
        },
    ensures
        read_parts(form, dir, parts, tokens, config) == match file {
            Some(j) => (
                Directory {
                    files: dir.files.insert(file_name(tokens.first()), parts[j].content()),
                },
                stored_reply(tokens.first(), config.style),
            ),
            None => (dir, stored_reply(form.stored.unwrap(), config.style)),
        },
    decreases parts.len(),
{
    reveal_strlit("f");
    reveal_strlit("identifier");
    assert("identifier"@.len() != "f"@.len());
    if parts.len() > 0 {
        let part = parts.first();
        let rest = parts.drop_first();
        assert(parts[0].is_sound());
        assert forall|k: int| 0 <= k < rest.len() implies (#[trigger] rest[k]).is_sound() by {
            assert(rest[k] == parts[k + 1]);
        }
        let name = part.disposition.unwrap().name.unwrap();
        let entered = upload_step(form, UploadEventView::Part(part.disposition), config).0;
        if identifier == Some(0int) {
            assert(file != Some(0int));
            let next = upload_step(entered, UploadEventView::Text(part.read_whole()), config).0;
            let later = match file {
                Some(j) => Some(j - 1),
                None => None,
            };
            assert forall|k: int|
                0 <= k < rest.len() && (#[trigger] rest[k]).is_named(
                    "identifier"@,
                ) implies None::<int> == Some(k) by {
                assert(rest[k] == parts[k + 1]);
            }
            assert forall|k: int|
                0 <= k < rest.len() && (#[trigger] rest[k]).is_named(
                    "f"@,
                ) implies later == Some(k) by {
                assert(rest[k] == parts[k + 1]);
            }
            if file is Some {
                assert(rest[file.unwrap() - 1] == parts[file.unwrap()]);
            }
            lemma_gathering(next, dir, rest, tokens, None, later, config);
        } else if file == Some(0int) {
            lemma_write_input(dir, tokens.first(), part.chunks, part.broken);
            let (written, result) = write_input(dir, tokens.first(), part.chunks, part.broken);
            let next = upload_step(entered, UploadEventView::Stored(result), config).0;
            let later = match identifier {
                Some(i) => Some(i - 1),
                None => None,
            };
            assert forall|k: int|
                0 <= k < rest.len() && (#[trigger] rest[k]).is_named(
                    "identifier"@,
                ) implies later == Some(k) by {
                assert(rest[k] == parts[k + 1]);
            }
            assert forall|k: int|
                0 <= k < rest.len() && (#[trigger] rest[k]).is_named(
                    "f"@,
                ) implies None::<int> == Some(k) by {
                assert(rest[k] == parts[k + 1]);
            }
            if identifier is Some {
                assert(rest[identifier.unwrap() - 1] == parts[identifier.unwrap()]);
            }
            lemma_gathering(next, written, rest, tokens.drop_first(), later, None, config);
        } else {
            assert(kind_of(name) == PartKind::Other);
            let later_identifier = match identifier {
                Some(i) => Some(i - 1),
                None => None,
            };
            let later_file = match file {
                Some(j) => Some(j - 1),
                None => None,
            };
            assert forall|k: int|
                0 <= k < rest.len() && (#[trigger] rest[k]).is_named(
                    "identifier"@,
                ) implies later_identifier == Some(k) by {
                assert(rest[k] == parts[k + 1]);
            }
            assert forall|k: int|
                0 <= k < rest.len() && (#[trigger] rest[k]).is_named(
                    "f"@,
                ) implies later_file == Some(k) by {
                assert(rest[k] == parts[k + 1]);
            }
            if identifier is Some {
                assert(rest[identifier.unwrap() - 1] == parts[identifier.unwrap()]);
            }
            if file is Some {
                assert(rest[file.unwrap() - 1] == parts[file.unwrap()]);
            }
            lemma_gathering(entered, dir, rest, tokens, later_identifier, later_file, config);
        }
    }
}

/// A complete form is accepted, in whatever order its parts come. Let each
/// part have a content disposition with a name and be readable to its end;
/// let one part, and no other, be named `identifier` and give an identifier;
/// let one part, and no other, be named `f` and bring a file name; let no
/// file have the name of the token drawn. Then the content of the file part
/// is stored under that token, nothing else is written, and the reply is
/// the one for that token.
pub proof fn lemma_complete_upload_stored(
    dir: Directory,
    parts: Seq<Part>,
    identifier: int,
    file: int,
    token: Token,
    config: ConfigView,
)
    requires
        forall|k: int| 0 <= k < parts.len() ==> (#[trigger] parts[k]).is_sound(),
        0 <= identifier < parts.len(),
        parts[identifier].is_named("identifier"@),
        parts[identifier].identifier() is Some,
        0 <= file < parts.len(),
        parts[file].is_named("f"@),
        parts[file].filename() is Some,
        forall|k: int|
            0 <= k < parts.len() && (#[trigger] parts[k]).is_named("identifier"@) ==> k
                == identifier,
        forall|k: int| 0 <= k < parts.len() && (#[trigger] parts[k]).is_named("f"@) ==> k == file,
        !dir.holds(file_name(token)),
    ensures
        upload(dir, parts, seq![token], config) == (
            Directory { files: dir.files.insert(file_name(token), parts[file].content()) },
            stored_reply(token, config.style),
        ),
{
    assert(seq![token].first() == token);
    lemma_gathering(empty_form(), dir, parts, seq![token], Some(identifier), Some(file), config);
}

/// The form brings what is asked of it: a part named `identifier` that
/// gives an identifier, and a part named `f` that brings a file name.
pub open spec fn is_complete(parts: Seq<Part>) -> bool {
    &&& exists|i: int|
        0 <= i < parts.len() && (#[trigger] parts[i]).is_named("identifier"@)
            && parts[i].identifier() is Some
    &&& exists|j: int|
        0 <= j < parts.len() && (#[trigger] parts[j]).is_named("f"@) && parts[j].filename()
            is Some
}

/// A form is accepted exactly if it is complete. Let each part have a
/// content disposition with a name and be readable to its end; let at most
/// one part be named `identifier` and at most one `f`; let no file have the
/// name of the token drawn. Then a complete form gets the reply for that
/// token, which is 201 unless the operator chose the redirect, and every
/// other form gets 400.
pub proof fn lemma_accepted_iff_complete(
    dir: Directory,
    parts: Seq<Part>,
    token: Token,
    config: ConfigView,
)
    requires
        forall|k: int| 0 <= k < parts.len() ==> (#[trigger] parts[k]).is_sound(),
        forall|a: int, b: int|
            0 <= a < parts.len() && 0 <= b < parts.len() && (#[trigger] parts[a]).is_named(
                "identifier"@,
            ) && (#[trigger] parts[b]).is_named("identifier"@) ==> a == b,
        forall|a: int, b: int|
            0 <= a < parts.len() && 0 <= b < parts.len() && (#[trigger] parts[a]).is_named("f"@)
                && (#[trigger] parts[b]).is_named("f"@) ==> a == b,
        !dir.holds(file_name(token)),
    ensures
        is_complete(parts) ==> upload(dir, parts, seq![token], config).1 == stored_reply(
            token,
            config.style,
        ),
        !is_complete(parts) ==> upload(dir, parts, seq![token], config).1.status == 400,
        config.style is Rest ==> (upload(dir, parts, seq![token], config).1.status == 201
            <==> is_complete(parts)),
{
    if is_complete(parts) {
        let i = choose|i: int|
            0 <= i < parts.len() && (#[trigger] parts[i]).is_named("identifier"@)
                && parts[i].identifier() is Some;
        let j = choose|j: int|
            0 <= j < parts.len() && (#[trigger] parts[j]).is_named("f"@) && parts[j].filename()
                is Some;
        lemma_complete_upload_stored(dir, parts, i, j, token, config);
    } else if exists|i: int|
        0 <= i < parts.len() && (#[trigger] parts[i]).is_named("identifier"@)
            && parts[i].identifier() is Some {
        lemma_unnamed_file_rejected(dir, parts, seq![token], config);
    } else {
        lemma_unusable_identifier_rejected(dir, parts, seq![token], config);
    }
}

/// The same for the form of two parts, in either order, with the content
/// of each part cut into chunks in any way.
pub proof fn lemma_two_part_upload_stored(
    dir: Directory,
    identifier: Seq<Seq<u8>>,
    filename: Seq<char>,
    chunks: Seq<Seq<u8>>,
    token: Token,
    config: ConfigView,
)
    requires
        identifier.flatten().len() > 0,
        valid_utf8(identifier.flatten()),
        !dir.holds(file_name(token)),
    ensures
        ({
            let named = Part {
                disposition: Some(DispositionView { name: Some("identifier"@), filename: None }),
                chunks: identifier,
                broken: false,
            };
            let file = Part {
                disposition: Some(DispositionView { name: Some("f"@), filename: Some(filename) }),
                chunks,
                broken: false,
            };
            let stored = (
                Directory { files: dir.files.insert(file_name(token), chunks.flatten()) },
                stored_reply(token, config.style),
            );
            &&& upload(dir, seq![named, file], seq![token], config) == stored
            &&& upload(dir, seq![file, named], seq![token], config) == stored
        }),
{
    reveal_strlit("f");
    reveal_strlit("identifier");
    assert("identifier"@.len() != "f"@.len());
    let named = Part {
        disposition: Some(DispositionView { name: Some("identifier"@), filename: None }),
        chunks: identifier,
        broken: false,
    };
    let file = Part {
        disposition: Some(DispositionView { name: Some("f"@), filename: Some(filename) }),
        chunks,
        broken: false,
    };
    assert(named.is_named("identifier"@) && !named.is_named("f"@));
    assert(file.is_named("f"@) && !file.is_named("identifier"@));
    let one = seq![named, file];
    assert(one[0] == named && one[1] == file);
    lemma_complete_upload_stored(dir, one, 0, 1, token, config);
    let other = seq![file, named];
    assert(other[0] == file && other[1] == named);
    lemma_complete_upload_stored(dir, other, 1, 0, token, config);
}

/// A file part that cannot be read to its end ends the request: the reply
/// reports the storage failure, no later part is read, and what the write
/// has left behind stays.
pub proof fn lemma_broken_file_part_rejected(
    dir: Directory,
    parts: Seq<Part>,
    tokens: Seq<Token>,
    config: ConfigView,
)
    requires
        parts.len() > 0,
        parts.first().is_named("f"@),
        parts.first().broken,
    ensures
        upload(dir, parts, tokens, config) == (
            write_broken(dir, tokens.first(), parts.first().chunks).0,
            error_reply(ServiceError::StorageIo, config.missing),
        ),
{
    lemma_write_broken(dir, tokens.first(), parts.first().chunks);
}

} // verus!
