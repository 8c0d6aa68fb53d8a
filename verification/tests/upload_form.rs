use upload_service::error::ServiceError;
use upload_service::response::{Body, Config, Missing, Response, UploadStyle};
use upload_service::token::Token;
use upload_service::upload::{
    classify, Disposition, PartKind, UploadAction, UploadEvent, UploadForm, UploadPhase,
};

fn rest() -> Config {
    Config { missing: Missing::AsBadRequest, style: UploadStyle::Rest }
}

fn field(name: &str) -> UploadEvent {
    UploadEvent::Part(Some(Disposition { name: Some(name.to_string()), filename: None }))
}

fn file(name: &str, filename: &str) -> UploadEvent {
    UploadEvent::Part(Some(Disposition {
        name: Some(name.to_string()),
        filename: Some(filename.to_string()),
    }))
}

fn refusal(text: &str) -> UploadAction {
    UploadAction::Respond {
        response: Response { status: 400, location: None, body: Body::Text(text.to_string()) },
        log: None,
    }
}

const TOKEN: Token = Token { value: 0x936DA01F9ABD4D9D80C702AF85C822A8 };

#[test]
fn classify_knows_the_two_fields() {
    assert_eq!(classify("f"), PartKind::File);
    assert_eq!(classify("identifier"), PartKind::Identifier);
    assert_eq!(classify(""), PartKind::Other);
    assert_eq!(classify("F"), PartKind::Other);
    assert_eq!(classify("ff"), PartKind::Other);
    assert_eq!(classify("Identifier"), PartKind::Other);
    assert_eq!(classify("identifier "), PartKind::Other);
    assert_eq!(classify("file"), PartKind::Other);
}

#[test]
fn a_new_form_awaits_a_part() {
    assert_eq!(UploadForm::new().phase(), UploadPhase::AwaitPart);
}

#[test]
fn a_complete_form_is_accepted() {
    let config = rest();
    let mut form = UploadForm::new();
    assert_eq!(form.step(field("identifier"), &config), UploadAction::ReadText);
    assert_eq!(form.phase(), UploadPhase::AwaitText);
    assert_eq!(
        form.step(UploadEvent::Text(Some(b"alice".to_vec())), &config),
        UploadAction::NextPart
    );
    assert_eq!(form.phase(), UploadPhase::AwaitPart);
    assert_eq!(form.step(file("f", "hello.txt"), &config), UploadAction::StoreFile);
    assert_eq!(form.phase(), UploadPhase::AwaitStored);
    assert_eq!(form.step(UploadEvent::Stored(Ok(TOKEN)), &config), UploadAction::NextPart);
    assert_eq!(
        form.step(UploadEvent::End, &config),
        UploadAction::Respond {
            response: Response {
                status: 201,
                location: Some("/api/upload/936da01f-9abd-4d9d-80c7-02af85c822a8".to_string()),
                body: Body::Text(
                    "Uploaded to /api/upload/936da01f-9abd-4d9d-80c7-02af85c822a8".to_string()
                ),
            },
            log: Some(
                "Someone uploaded 'alice' to '936da01f-9abd-4d9d-80c7-02af85c822a8'; \
                 original filename was 'hello.txt'"
                    .to_string()
            ),
        }
    );
    assert_eq!(form.phase(), UploadPhase::Done);
}

#[test]
fn the_parts_may_come_in_either_order() {
    let config = rest();
    let mut form = UploadForm::new();
    assert_eq!(form.step(file("f", "a.bin"), &config), UploadAction::StoreFile);
    assert_eq!(form.step(UploadEvent::Stored(Ok(Token { value: 1 })), &config), UploadAction::NextPart);
    assert_eq!(form.step(field("identifier"), &config), UploadAction::ReadText);
    assert_eq!(form.step(UploadEvent::Text(Some(b"bob".to_vec())), &config), UploadAction::NextPart);
    match form.step(UploadEvent::End, &config) {
        UploadAction::Respond { response, log } => {
            assert_eq!(response.status, 201);
            assert_eq!(
                response.location,
                Some("/api/upload/00000000-0000-0000-0000-000000000001".to_string())
            );
            assert_eq!(
                log,
                Some(
                    "Someone uploaded 'bob' to '00000000-0000-0000-0000-000000000001'; \
                     original filename was 'a.bin'"
                        .to_string()
                )
            );
        },
        other => panic!("{:?}", other),
    }
}

#[test]
fn a_browser_form_is_redirected() {
    let config = Config {
        missing: Missing::AsBadRequest,
        style: UploadStyle::BrowserForm("/static/uploaded.html".to_string()),
    };
    let mut form = UploadForm::new();
    form.step(field("identifier"), &config);
    form.step(UploadEvent::Text(Some(b"alice".to_vec())), &config);
    form.step(file("f", "hello.txt"), &config);
    form.step(UploadEvent::Stored(Ok(TOKEN)), &config);
    match form.step(UploadEvent::End, &config) {
        UploadAction::Respond { response, log } => {
            assert_eq!(
                response,
                Response {
                    status: 303,
                    location: Some("/static/uploaded.html".to_string()),
                    body: Body::Empty,
                }
            );
            assert!(log.is_some());
        },
        other => panic!("{:?}", other),
    }
}

#[test]
fn an_empty_form_is_incomplete() {
    let mut form = UploadForm::new();
    assert_eq!(form.step(UploadEvent::End, &rest()), refusal("Incomplete form."));
    assert_eq!(form.phase(), UploadPhase::Done);
}

#[test]
fn a_form_without_identifier_is_incomplete() {
    let config = rest();
    let mut form = UploadForm::new();
    assert_eq!(form.step(file("f", "hello.txt"), &config), UploadAction::StoreFile);
    assert_eq!(form.step(UploadEvent::Stored(Ok(TOKEN)), &config), UploadAction::NextPart);
    assert_eq!(form.step(UploadEvent::End, &config), refusal("Incomplete form."));
}

#[test]
fn a_form_without_file_is_incomplete() {
    let config = rest();
    let mut form = UploadForm::new();
    form.step(field("identifier"), &config);
    form.step(UploadEvent::Text(Some(b"alice".to_vec())), &config);
    assert_eq!(form.step(UploadEvent::End, &config), refusal("Incomplete form."));
}

#[test]
fn a_file_without_a_file_name_makes_the_form_incomplete() {
    let config = rest();
    let mut form = UploadForm::new();
    form.step(field("identifier"), &config);
    form.step(UploadEvent::Text(Some(b"alice".to_vec())), &config);
    assert_eq!(form.step(field("f"), &config), UploadAction::StoreFile);
    assert_eq!(form.step(UploadEvent::Stored(Ok(TOKEN)), &config), UploadAction::NextPart);
    assert_eq!(form.step(UploadEvent::End, &config), refusal("Incomplete form."));
}

#[test]
fn an_identifier_that_is_not_utf8_makes_the_form_incomplete() {
    let config = rest();
    let mut form = UploadForm::new();
    form.step(field("identifier"), &config);
    assert_eq!(
        form.step(UploadEvent::Text(Some(vec![b'a', 0xff, b'b'])), &config),
        UploadAction::NextPart
    );
    form.step(file("f", "hello.txt"), &config);
    form.step(UploadEvent::Stored(Ok(TOKEN)), &config);
    assert_eq!(form.step(UploadEvent::End, &config), refusal("Incomplete form."));
}

#[test]
fn an_identifier_cut_short_makes_the_form_incomplete() {
    let config = rest();
    let mut form = UploadForm::new();
    form.step(field("identifier"), &config);
    form.step(UploadEvent::Text(Some(vec![0xe2, 0x82])), &config);
    form.step(file("f", "hello.txt"), &config);
    form.step(UploadEvent::Stored(Ok(TOKEN)), &config);
    assert_eq!(form.step(UploadEvent::End, &config), refusal("Incomplete form."));
}

#[test]
fn an_identifier_that_could_not_be_read_makes_the_form_incomplete() {
    let config = rest();
    let mut form = UploadForm::new();
    form.step(field("identifier"), &config);
    assert_eq!(form.step(UploadEvent::Text(None), &config), UploadAction::NextPart);
    form.step(file("f", "hello.txt"), &config);
    form.step(UploadEvent::Stored(Ok(TOKEN)), &config);
    assert_eq!(form.step(UploadEvent::End, &config), refusal("Incomplete form."));
}

#[test]
fn an_identifier_is_decoded_as_utf8() {
    let config = rest();
    let mut form = UploadForm::new();
    form.step(field("identifier"), &config);
    form.step(UploadEvent::Text(Some("z\u{fc}rich \u{20ac}".as_bytes().to_vec())), &config);
    form.step(file("f", "\u{e9}t\u{e9}.txt"), &config);
    form.step(UploadEvent::Stored(Ok(Token { value: 0 })), &config);
    match form.step(UploadEvent::End, &config) {
        UploadAction::Respond { response, log } => {
            assert_eq!(response.status, 201);
            assert_eq!(
                log,
                Some(
                    "Someone uploaded 'z\u{fc}rich \u{20ac}' to \
                     '00000000-0000-0000-0000-000000000000'; original filename was \
                     '\u{e9}t\u{e9}.txt'"
                        .to_string()
                )
            );
        },
        other => panic!("{:?}", other),
    }
}

#[test]
fn an_identifier_without_content_makes_the_form_incomplete() {
    let config = rest();
    let mut form = UploadForm::new();
    form.step(field("identifier"), &config);
    assert_eq!(form.step(UploadEvent::Text(Some(Vec::new())), &config), UploadAction::NextPart);
    form.step(file("f", ""), &config);
    form.step(UploadEvent::Stored(Ok(Token { value: 0 })), &config);
    assert_eq!(form.step(UploadEvent::End, &config), refusal("Incomplete form."));
}

#[test]
fn an_empty_file_name_counts() {
    let config = rest();
    let mut form = UploadForm::new();
    form.step(field("identifier"), &config);
    form.step(UploadEvent::Text(Some(b"a".to_vec())), &config);
    form.step(file("f", ""), &config);
    form.step(UploadEvent::Stored(Ok(Token { value: 0 })), &config);
    match form.step(UploadEvent::End, &config) {
        UploadAction::Respond { response, log } => {
            assert_eq!(response.status, 201);
            assert_eq!(
                log,
                Some(
                    "Someone uploaded 'a' to '00000000-0000-0000-0000-000000000000'; \
                     original filename was ''"
                        .to_string()
                )
            );
        },
        other => panic!("{:?}", other),
    }
}

#[test]
fn the_latest_identifier_counts() {
    let config = rest();
    let mut form = UploadForm::new();
    form.step(field("identifier"), &config);
    form.step(UploadEvent::Text(Some(b"alice".to_vec())), &config);
    form.step(file("f", "hello.txt"), &config);
    form.step(UploadEvent::Stored(Ok(TOKEN)), &config);
    form.step(field("identifier"), &config);
    form.step(UploadEvent::Text(None), &config);
    assert_eq!(form.step(UploadEvent::End, &config), refusal("Incomplete form."));
}

#[test]
fn the_latest_file_counts() {
    let config = rest();
    let mut form = UploadForm::new();
    form.step(field("identifier"), &config);
    form.step(UploadEvent::Text(Some(b"alice".to_vec())), &config);
    form.step(file("f", "one.txt"), &config);
    form.step(UploadEvent::Stored(Ok(Token { value: 1 })), &config);
    form.step(file("f", "two.txt"), &config);
    form.step(UploadEvent::Stored(Ok(Token { value: 2 })), &config);
    match form.step(UploadEvent::End, &config) {
        UploadAction::Respond { response, log } => {
            assert_eq!(
                response.location,
                Some("/api/upload/00000000-0000-0000-0000-000000000002".to_string())
            );
            assert_eq!(
                log,
                Some(
                    "Someone uploaded 'alice' to '00000000-0000-0000-0000-000000000002'; \
                     original filename was 'two.txt'"
                        .to_string()
                )
            );
        },
        other => panic!("{:?}", other),
    }
}

#[test]
fn parts_of_other_names_are_passed_over() {
    let config = rest();
    let mut form = UploadForm::new();
    assert_eq!(form.step(field("comment"), &config), UploadAction::NextPart);
    assert_eq!(form.phase(), UploadPhase::AwaitPart);
    assert_eq!(form.step(file("g", "other.txt"), &config), UploadAction::NextPart);
    assert_eq!(form.step(UploadEvent::End, &config), refusal("Incomplete form."));
}

#[test]
fn a_part_without_disposition_is_malformed() {
    let mut form = UploadForm::new();
    assert_eq!(
        form.step(UploadEvent::Part(None), &rest()),
        refusal("Malformed multipart/form-data header.")
    );
    assert_eq!(form.phase(), UploadPhase::Done);
}

#[test]
fn a_part_without_name_is_malformed() {
    let mut form = UploadForm::new();
    let nameless = UploadEvent::Part(Some(Disposition {
        name: None,
        filename: Some("hello.txt".to_string()),
    }));
    assert_eq!(form.step(nameless, &rest()), refusal("Missing multipart name."));
    assert_eq!(form.phase(), UploadPhase::Done);
}

#[test]
fn a_malformed_part_ends_a_form_that_was_complete() {
    let config = rest();
    let mut form = UploadForm::new();
    form.step(field("identifier"), &config);
    form.step(UploadEvent::Text(Some(b"alice".to_vec())), &config);
    form.step(file("f", "hello.txt"), &config);
    form.step(UploadEvent::Stored(Ok(TOKEN)), &config);
    assert_eq!(
        form.step(UploadEvent::Part(None), &config),
        refusal("Malformed multipart/form-data header.")
    );
}

#[test]
fn a_storage_failure_ends_the_request() {
    let config = rest();
    let mut form = UploadForm::new();
    form.step(file("f", "hello.txt"), &config);
    assert_eq!(
        form.step(UploadEvent::Stored(Err(ServiceError::StorageIo)), &config),
        refusal("Storage failure.")
    );
    assert_eq!(form.phase(), UploadPhase::Done);
}

#[test]
fn events_out_of_turn_end_the_request_as_incomplete() {
    let config = rest();
    let mut form = UploadForm::new();
    assert_eq!(form.step(UploadEvent::Stored(Ok(TOKEN)), &config), refusal("Incomplete form."));
    let mut form = UploadForm::new();
    assert_eq!(form.step(UploadEvent::Text(None), &config), refusal("Incomplete form."));
    let mut form = UploadForm::new();
    form.step(file("f", "hello.txt"), &config);
    assert_eq!(form.step(UploadEvent::End, &config), refusal("Incomplete form."));
    let mut form = UploadForm::new();
    form.step(field("identifier"), &config);
    assert_eq!(form.step(field("identifier"), &config), refusal("Incomplete form."));
    let mut form = UploadForm::new();
    form.step(UploadEvent::End, &config);
    assert_eq!(form.step(UploadEvent::End, &config), refusal("Incomplete form."));
}
