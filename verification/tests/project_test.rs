use typst_collab::document::Document;
use typst_collab::project::{
    edit_document, get_project_path, listing_response, open_document, Session, SessionAction,
};
use typst_collab::structs::{ActionType, ClientRequest, Entry, PayloadType, RawOperation, Revision};

fn request(client_id: &str, revision: Revision, action: ActionType) -> ClientRequest {
    ClientRequest { revision, client_id: client_id.to_string(), parent_revision: 0, timestamp: 0, action }
}

#[test]
fn project_path_layout() {
    assert_eq!(
        get_project_path(&"u1".to_string(), &"p9".to_string()),
        "users/u1/projects/p9/files"
    );
}

#[test]
fn init_lists_the_clients_project_folder() {
    let mut session = Session::new("p9".to_string());
    let action = session.on_request(request("u1", Revision::Absent, ActionType::Init { project_id: "other".to_string() }));
    match action {
        SessionAction::ListProject { path } => assert_eq!(path, "users/u1/projects/p9/files"),
        other => panic!("unexpected {:?}", other),
    }
    assert_eq!(session.project_path, Some("users/u1/projects/p9/files".to_string()));
}

#[test]
fn open_and_edit_requests() {
    let mut session = Session::new("p".to_string());
    match session.on_request(request("u", Revision::Absent, ActionType::OpenFile { path: "a.typ".to_string() })) {
        SessionAction::OpenFile { path } => assert_eq!(path, "a.typ"),
        other => panic!("unexpected {:?}", other),
    }
    let changes = RawOperation { text: "!".to_string(), range_offset: 2, range_length: 0 };
    match session.on_request(request("u", Revision::Known(4), ActionType::EditFile { path: "a.typ".to_string(), changes })) {
        SessionAction::EditFile { path, operation } => {
            assert_eq!(path, "a.typ");
            assert_eq!(operation.client_id, "u");
            assert_eq!(operation.revision, Revision::Known(4));
            assert_eq!(operation.operation.apply("ab").unwrap(), "ab!");
        }
        other => panic!("unexpected {:?}", other),
    }
    match session.on_request(request("u", Revision::Absent, ActionType::DeleteFile { path: "a.typ".to_string() })) {
        SessionAction::Unsupported => {}
        other => panic!("unexpected {:?}", other),
    }
    assert_eq!(session.project_path, None);
}

#[test]
fn listing_responses() {
    let missing = PayloadType::Error { message: "This project does not exist!".to_string() };
    assert_eq!(listing_response(None).payload, missing);
    assert_eq!(listing_response(Some(vec![])).payload, missing);
    let files = vec![
        Entry::new("a.typ".to_string(), "A".to_string()),
        Entry::new("b.typ".to_string(), "B".to_string()),
    ];
    let response = listing_response(Some(files));
    assert_eq!(response.revision, Revision::Absent);
    assert_eq!(
        response.payload,
        PayloadType::InitOk { first_file: Entry::new("a.typ".to_string(), "A".to_string()) }
    );
}

#[test]
fn open_and_edit_documents() {
    let mut doc = Document::new("ab".to_string());
    let opened = open_document(&doc, "a.typ".to_string());
    assert_eq!(opened.revision, Revision::Known(0));
    assert_eq!(
        opened.payload,
        PayloadType::OpenFileOk { file: Entry::new("a.typ".to_string(), "ab".to_string()) }
    );
    let op = RawOperation { text: "c".to_string(), range_offset: 2, range_length: 0 }
        .into_user_op("u".to_string(), Revision::Known(0));
    let response = edit_document(&mut doc, "a.typ".to_string(), op);
    assert_eq!(response.revision, Revision::Known(1));
    assert_eq!(response.payload, PayloadType::EditFileOk { path: "a.typ".to_string() });
    assert_eq!(doc.state.text, "abc");
    let stale = RawOperation { text: "d".to_string(), range_offset: 2, range_length: 0 }
        .into_user_op("u".to_string(), Revision::Known(5));
    let response = edit_document(&mut doc, "a.typ".to_string(), stale);
    assert_eq!(response.revision, Revision::Absent);
    assert_eq!(response.payload, PayloadType::Error { message: "Invalid revision".to_string() });
    assert_eq!(doc.state.text, "abc");
}
