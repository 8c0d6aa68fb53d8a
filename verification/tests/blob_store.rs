use std::collections::HashMap;
use upload_service::directory::Removal;
use upload_service::error::ServiceError;
use upload_service::store::{
    delete_result, locate, read_result, BlobWriter, WriteAction, WriteEvent, WriterPhase,
};
use upload_service::token::Token;

/// A directory in memory, with the four operations that the store asks for.
struct Files(HashMap<String, Vec<u8>>);

impl Files {
    fn create_new(&mut self, name: &str) -> bool {
        if self.0.contains_key(name) {
            false
        } else {
            self.0.insert(name.to_string(), Vec::new());
            true
        }
    }

    fn append(&mut self, name: &str, bytes: &[u8]) -> bool {
        match self.0.get_mut(name) {
            Some(content) => {
                content.extend_from_slice(bytes);
                true
            },
            None => false,
        }
    }

    fn remove(&mut self, name: &str) -> Removal {
        match self.0.remove(name) {
            Some(_) => Removal::Removed,
            None => Removal::Missing,
        }
    }
}

fn drive(
    files: &mut Files,
    start: (BlobWriter, WriteAction),
    chunks: &[&[u8]],
) -> Result<Token, ServiceError> {
    drive_input(files, start, chunks, false)
}

/// Drives a write whose input ends after `chunks`, or fails there if it is
/// `broken`.
fn drive_input(
    files: &mut Files,
    start: (BlobWriter, WriteAction),
    chunks: &[&[u8]],
    broken: bool,
) -> Result<Token, ServiceError> {
    let (mut writer, mut action) = start;
    let mut name = String::new();
    let mut input = chunks.iter();
    loop {
        let event = match action {
            WriteAction::Create(file) => {
                name = file;
                WriteEvent::Created(files.create_new(&name))
            },
            WriteAction::NextChunk => match input.next() {
                Some(chunk) => WriteEvent::Chunk(chunk.to_vec()),
                None if broken => WriteEvent::InputFailed,
                None => WriteEvent::EndOfInput,
            },
            WriteAction::Append(bytes) => WriteEvent::Written(files.append(&name, &bytes)),
            WriteAction::Done(result) => return result,
        };
        action = writer.step(event);
    }
}

fn write(files: &mut Files, chunks: &[&[u8]]) -> Result<Token, ServiceError> {
    drive(files, BlobWriter::begin(), chunks)
}

fn read(files: &Files, id: &str) -> Result<Vec<u8>, ServiceError> {
    let name = locate(id)?;
    read_result(files.0.get(&name).cloned())
}

fn delete(files: &mut Files, id: &str) -> Result<(), ServiceError> {
    let name = locate(id)?;
    delete_result(files.remove(&name))
}

#[test]
fn a_writer_names_the_file_after_its_token() {
    let token = Token { value: 0x936DA01F9ABD4D9D80C702AF85C822A8 };
    let (writer, action) = BlobWriter::start(token);
    assert_eq!(action, WriteAction::Create("936da01f-9abd-4d9d-80c7-02af85c822a8".to_string()));
    assert_eq!(writer.token(), token);
    assert_eq!(writer.phase(), WriterPhase::Creating);
}

#[test]
fn a_writer_draws_its_own_token() {
    let (writer, action) = BlobWriter::begin();
    assert_eq!(action, WriteAction::Create(writer.token().text()));
    assert_eq!((writer.token().value >> 76) & 0xf, 4);
    assert_eq!(writer.phase(), WriterPhase::Creating);
}

#[test]
fn a_writer_passes_the_chunks_on_in_order() {
    let token = Token { value: 9 };
    let (mut writer, _) = BlobWriter::start(token);
    assert_eq!(writer.step(WriteEvent::Created(true)), WriteAction::NextChunk);
    assert_eq!(writer.phase(), WriterPhase::Receiving);
    assert_eq!(writer.step(WriteEvent::Chunk(vec![1, 2])), WriteAction::Append(vec![1, 2]));
    assert_eq!(writer.phase(), WriterPhase::Writing);
    assert_eq!(writer.step(WriteEvent::Written(true)), WriteAction::NextChunk);
    assert_eq!(writer.step(WriteEvent::Chunk(Vec::new())), WriteAction::Append(Vec::new()));
    assert_eq!(writer.step(WriteEvent::Written(true)), WriteAction::NextChunk);
    assert_eq!(writer.step(WriteEvent::Chunk(vec![3])), WriteAction::Append(vec![3]));
    assert_eq!(writer.step(WriteEvent::Written(true)), WriteAction::NextChunk);
    assert_eq!(writer.step(WriteEvent::EndOfInput), WriteAction::Done(Ok(token)));
    assert_eq!(writer.phase(), WriterPhase::Finished);
}

#[test]
fn a_file_that_cannot_be_created_fails_the_write() {
    let (mut writer, _) = BlobWriter::start(Token { value: 9 });
    assert_eq!(
        writer.step(WriteEvent::Created(false)),
        WriteAction::Done(Err(ServiceError::StorageIo))
    );
    assert_eq!(writer.phase(), WriterPhase::Failed);
}

#[test]
fn a_chunk_that_cannot_be_written_fails_the_write() {
    let (mut writer, _) = BlobWriter::start(Token { value: 9 });
    writer.step(WriteEvent::Created(true));
    writer.step(WriteEvent::Chunk(vec![1]));
    assert_eq!(
        writer.step(WriteEvent::Written(false)),
        WriteAction::Done(Err(ServiceError::StorageIo))
    );
    assert_eq!(writer.phase(), WriterPhase::Failed);
}

#[test]
fn a_writer_fails_on_events_out_of_turn() {
    let failed = WriteAction::Done(Err(ServiceError::StorageIo));
    let (mut writer, _) = BlobWriter::start(Token { value: 9 });
    assert_eq!(writer.step(WriteEvent::EndOfInput), failed);
    let (mut writer, _) = BlobWriter::start(Token { value: 9 });
    assert_eq!(writer.step(WriteEvent::Chunk(vec![1])), failed);
    let (mut writer, _) = BlobWriter::start(Token { value: 9 });
    writer.step(WriteEvent::Created(true));
    assert_eq!(writer.step(WriteEvent::Written(true)), failed);
    let (mut writer, _) = BlobWriter::start(Token { value: 9 });
    writer.step(WriteEvent::Created(true));
    writer.step(WriteEvent::Chunk(vec![1]));
    assert_eq!(writer.step(WriteEvent::Chunk(vec![2])), failed);
    let (mut writer, _) = BlobWriter::start(Token { value: 9 });
    writer.step(WriteEvent::Created(true));
    writer.step(WriteEvent::EndOfInput);
    assert_eq!(writer.step(WriteEvent::EndOfInput), failed);
    assert_eq!(writer.step(WriteEvent::Created(true)), failed);
}

#[test]
fn locate_names_the_file_in_canonical_notation() {
    assert_eq!(
        locate("936DA01F9ABD4D9D80C702AF85C822A8"),
        Ok("936da01f-9abd-4d9d-80c7-02af85c822a8".to_string())
    );
    assert_eq!(
        locate("urn:uuid:936DA01F-9ABD-4D9D-80C7-02AF85C822A8"),
        Ok("936da01f-9abd-4d9d-80c7-02af85c822a8".to_string())
    );
    assert_eq!(
        locate("936da01f-9abd-4d9d-80c7-02af85c822a8"),
        Ok("936da01f-9abd-4d9d-80c7-02af85c822a8".to_string())
    );
}

#[test]
fn locate_turns_away_what_is_no_token() {
    assert_eq!(locate("not-a-uuid"), Err(ServiceError::InvalidToken));
    assert_eq!(locate(""), Err(ServiceError::InvalidToken));
    assert_eq!(locate("../etc/passwd"), Err(ServiceError::InvalidToken));
    assert_eq!(locate("936da01f-9abd-4d9d-80c7-02af85c822a8/.."), Err(ServiceError::InvalidToken));
}

#[test]
fn read_result_hands_the_content_on() {
    assert_eq!(read_result(Some(vec![104, 105])), Ok(vec![104, 105]));
    assert_eq!(read_result(Some(Vec::new())), Ok(Vec::new()));
    assert_eq!(read_result(None), Err(ServiceError::NotFound));
}

#[test]
fn delete_result_tells_absence_from_failure() {
    assert_eq!(delete_result(Removal::Removed), Ok(()));
    assert_eq!(delete_result(Removal::Missing), Err(ServiceError::NotFound));
    assert_eq!(delete_result(Removal::Failed), Err(ServiceError::StorageIo));
}

#[test]
fn what_is_written_is_read_back() {
    let mut files = Files(HashMap::new());
    let payloads: [&[&[u8]]; 5] = [
        &[b"hi"],
        &[],
        &[b""],
        &[b"he", b"", b"llo", b" world"],
        &[&[0, 255, 10, 13], &[0]],
    ];
    for chunks in payloads {
        let token = write(&mut files, chunks).unwrap();
        assert_eq!(read(&files, &token.text()), Ok(chunks.concat()));
    }
    assert_eq!(files.0.len(), 5);
}

#[test]
fn a_blob_is_read_by_any_notation_of_its_token() {
    let mut files = Files(HashMap::new());
    let token = write(&mut files, &[b"hi"]).unwrap();
    assert_eq!(read(&files, &token.text().to_uppercase()), Ok(b"hi".to_vec()));
    assert_eq!(read(&files, &token.text().replace('-', "")), Ok(b"hi".to_vec()));
    assert_eq!(read(&files, &format!("urn:uuid:{}", token.text())), Ok(b"hi".to_vec()));
}

#[test]
fn a_second_write_under_the_same_token_fails_and_changes_nothing() {
    let mut files = Files(HashMap::new());
    let token = Token { value: 77 };
    assert_eq!(drive(&mut files, BlobWriter::start(token), &[b"first"]), Ok(token));
    assert_eq!(
        drive(&mut files, BlobWriter::start(token), &[b"second"]),
        Err(ServiceError::StorageIo)
    );
    assert_eq!(read(&files, &token.text()), Ok(b"first".to_vec()));
}

#[test]
fn deleting_twice_succeeds_once() {
    let mut files = Files(HashMap::new());
    let token = write(&mut files, &[b"hi"]).unwrap();
    assert_eq!(delete(&mut files, &token.text()), Ok(()));
    assert_eq!(delete(&mut files, &token.text()), Err(ServiceError::NotFound));
    assert_eq!(read(&files, &token.text()), Err(ServiceError::NotFound));
}

#[test]
fn deleting_leaves_the_other_blobs() {
    let mut files = Files(HashMap::new());
    let kept = write(&mut files, &[b"kept"]).unwrap();
    let gone = write(&mut files, &[b"gone"]).unwrap();
    assert_eq!(delete(&mut files, &gone.text()), Ok(()));
    assert_eq!(read(&files, &kept.text()), Ok(b"kept".to_vec()));
}

#[test]
fn a_malformed_token_reaches_no_file() {
    let mut files = Files(HashMap::new());
    files.0.insert("not-a-uuid".to_string(), b"secret".to_vec());
    assert_eq!(read(&files, "not-a-uuid"), Err(ServiceError::InvalidToken));
    assert_eq!(delete(&mut files, "not-a-uuid"), Err(ServiceError::InvalidToken));
    assert_eq!(files.0.get("not-a-uuid"), Some(&b"secret".to_vec()));
}

#[test]
fn a_token_never_written_is_not_found() {
    let mut files = Files(HashMap::new());
    write(&mut files, &[b"hi"]).unwrap();
    assert_eq!(
        read(&files, "00000000-0000-0000-0000-000000000000"),
        Err(ServiceError::NotFound)
    );
    assert_eq!(
        delete(&mut files, "00000000-0000-0000-0000-000000000000"),
        Err(ServiceError::NotFound)
    );
    assert_eq!(files.0.len(), 1);
}

#[test]
fn a_thousand_writes_give_a_thousand_tokens() {
    let mut files = Files(HashMap::new());
    let mut tokens = std::collections::HashSet::new();
    for n in 0u32..1000 {
        let payload = n.to_be_bytes();
        let token = write(&mut files, &[&payload]).unwrap();
        assert!(tokens.insert(token));
    }
    assert_eq!(files.0.len(), 1000);
    for (n, token) in tokens.iter().enumerate() {
        let content = read(&files, &token.text()).unwrap();
        assert_eq!(content.len(), 4, "blob {}", n);
    }
}

#[test]
fn writes_in_either_order_leave_the_same_files() {
    let a = Token { value: 1 };
    let b = Token { value: 2 };
    let mut one = Files(HashMap::new());
    assert_eq!(drive(&mut one, BlobWriter::start(a), &[b"first"]), Ok(a));
    assert_eq!(drive(&mut one, BlobWriter::start(b), &[b"sec", b"ond"]), Ok(b));
    let mut other = Files(HashMap::new());
    assert_eq!(drive(&mut other, BlobWriter::start(b), &[b"second"]), Ok(b));
    assert_eq!(drive(&mut other, BlobWriter::start(a), &[b"fi", b"rst"]), Ok(a));
    assert_eq!(one.0, other.0);
}

#[test]
fn a_stored_blob_is_not_changed_by_what_follows() {
    let mut files = Files(HashMap::new());
    let kept = Token { value: 1 };
    assert_eq!(drive(&mut files, BlobWriter::start(kept), &[b"kept"]), Ok(kept));
    let new = Token { value: 2 };
    assert_eq!(drive(&mut files, BlobWriter::start(new), &[b"new"]), Ok(new));
    assert_eq!(
        drive(&mut files, BlobWriter::start(kept), &[b"again"]),
        Err(ServiceError::StorageIo)
    );
    assert_eq!(delete(&mut files, "00000000-0000-0000-0000-000000000002"), Ok(()));
    assert_eq!(
        delete(&mut files, "00000000-0000-0000-0000-000000000003"),
        Err(ServiceError::NotFound)
    );
    assert_eq!(read(&files, &kept.text()), Ok(b"kept".to_vec()));
}

#[test]
fn input_that_fails_fails_the_write_in_every_phase() {
    let failed = WriteAction::Done(Err(ServiceError::StorageIo));
    let (mut writer, _) = BlobWriter::start(Token { value: 9 });
    assert_eq!(writer.step(WriteEvent::InputFailed), failed);
    assert_eq!(writer.phase(), WriterPhase::Failed);
    let (mut writer, _) = BlobWriter::start(Token { value: 9 });
    writer.step(WriteEvent::Created(true));
    assert_eq!(writer.step(WriteEvent::InputFailed), failed);
    assert_eq!(writer.phase(), WriterPhase::Failed);
    let (mut writer, _) = BlobWriter::start(Token { value: 9 });
    writer.step(WriteEvent::Created(true));
    writer.step(WriteEvent::Chunk(vec![1]));
    assert_eq!(writer.step(WriteEvent::InputFailed), failed);
    let (mut writer, _) = BlobWriter::start(Token { value: 9 });
    writer.step(WriteEvent::Created(true));
    writer.step(WriteEvent::EndOfInput);
    assert_eq!(writer.step(WriteEvent::InputFailed), failed);
}

#[test]
fn a_write_whose_input_fails_leaves_what_arrived() {
    let mut files = Files(HashMap::new());
    files.0.insert("other".to_string(), b"kept".to_vec());
    let token = Token { value: 5 };
    assert_eq!(
        drive_input(&mut files, BlobWriter::start(token), &[b"he", b"", b"ll"], true),
        Err(ServiceError::StorageIo)
    );
    assert_eq!(files.0.len(), 2);
    assert_eq!(files.0.get(&token.text()), Some(&b"hell".to_vec()));
    assert_eq!(files.0.get("other"), Some(&b"kept".to_vec()));
}

#[test]
fn a_write_whose_input_fails_at_once_leaves_an_empty_file() {
    let mut files = Files(HashMap::new());
    let token = Token { value: 5 };
    assert_eq!(
        drive_input(&mut files, BlobWriter::start(token), &[], true),
        Err(ServiceError::StorageIo)
    );
    assert_eq!(files.0.get(&token.text()), Some(&Vec::new()));
}

#[test]
fn a_write_whose_input_fails_under_a_taken_name_changes_nothing() {
    let mut files = Files(HashMap::new());
    let token = Token { value: 5 };
    assert_eq!(drive(&mut files, BlobWriter::start(token), &[b"first"]), Ok(token));
    assert_eq!(
        drive_input(&mut files, BlobWriter::start(token), &[b"second"], true),
        Err(ServiceError::StorageIo)
    );
    assert_eq!(files.0.len(), 1);
    assert_eq!(read(&files, &token.text()), Ok(b"first".to_vec()));
}
