//! What a connection of an editing client decides: which project folder a
//! request concerns, which document it reads or changes, and what the client
//! is answered. Reading storage and sending the answers is done around it.
use vstd::prelude::*;
use crate::document::{Document, edit_outcome, history_ops, committed};
use crate::ot::op_seq_ops;
use crate::structs::{
    ActionType, ClientRequest, Entry, PayloadType, RawOperation, Revision, ServerResponse,
    UserOperation,
};

verus! {

/// The storage folder of a user's project.
pub open spec fn project_path(user_id: Seq<char>, project_id: Seq<char>) -> Seq<char> {
    "users/"@ + user_id + "/projects/"@ + project_id + "/files"@
}

/// The storage folder of a user's project:
/// `users/{user_id}/projects/{project_id}/files`.
pub fn get_project_path(user_id: &String, project_id: &String) -> (r: String)
    ensures
        r@ == project_path(user_id@, project_id@),
{
    let mut path = "users/".to_string();
    path.append(user_id.as_str());
    path.append("/projects/");
    path.append(project_id.as_str());
    path.append("/files");
    path
}

/// The message of a project that has no files or cannot be listed.
pub open spec fn project_missing_message() -> Seq<char> {
    "This project does not exist!"@
}

/// What a connection does next for a request.
#[derive(Debug)]
pub enum SessionAction {
    /// List the files under `path` and answer with `listing_response`.
    ListProject { path: String },
    /// Load the document `path` and answer with `open_document`.
    OpenFile { path: String },
    /// Load the document `path` and apply `operation` with `edit_document`.
    EditFile { path: String, operation: UserOperation },
    /// A request that is not handled.
    Unsupported,
}

/// The state of one client's connection to a project.
#[derive(Debug, Clone, PartialEq, Eq)]
pub struct Session {
    pub project_id: String,
    pub project_path: Option<String>,
}

impl Session {
    pub fn new(project_id: String) -> (r: Self)
        ensures
            r.project_id == project_id,
            r.project_path is None,
    {
        Session { project_id, project_path: None }
    }

    /// The next step for a request. `Init` lists the folder of the
    /// requesting client's copy of this connection's project (and remembers
    /// it); opening and editing concern the named document, an edit being
    /// the client's change against the revision it names; the other requests
    /// are not handled.
    pub fn on_request(&mut self, request: ClientRequest) -> (r: SessionAction)
        requires
            request.action matches ActionType::EditFile { changes, .. } ==> changes.within_limits(),
        ensures
            final(self).project_id == old(self).project_id,
            match request.action {
                ActionType::Init { .. } => {
                    &&& r matches SessionAction::ListProject { path } && path@ == project_path(
                        request.client_id@,
                        old(self).project_id@,
                    ) && final(self).project_path == Some(path)
                },
                ActionType::OpenFile { path } => {
                    &&& r == (SessionAction::OpenFile { path })
                    &&& final(self).project_path == old(self).project_path
                },
                ActionType::EditFile { path, changes } => {
                    &&& r matches SessionAction::EditFile { path: p, operation } && p == path
                        && operation.client_id == request.client_id && operation.revision
                        == request.revision && op_seq_ops(operation.operation) == changes.ops()
                        && operation.within_limits()
                    &&& final(self).project_path == old(self).project_path
                },
                _ => {
                    &&& r is Unsupported
                    &&& final(self).project_path == old(self).project_path
                },
            },
    {
        let ClientRequest { revision, client_id, parent_revision: _, timestamp: _, action } = request;
        match action {
            ActionType::Init { .. } => {
                let path = get_project_path(&client_id, &self.project_id);
                self.project_path = Some(path.clone());
                SessionAction::ListProject { path }
            },
            ActionType::OpenFile { path } => SessionAction::OpenFile { path },
            ActionType::EditFile { path, changes } => {
                let operation = changes.into_user_op(client_id, revision);
                proof {
                    changes.lemma_within_limits();
                }
                SessionAction::EditFile { path, operation }
            },
            _ => SessionAction::Unsupported,
        }
    }
}

/// The answer to an `Init` request, from the files of the project as they
/// were loaded (`None` where the folder could not be listed): an error where
/// there is no file, otherwise the first file. The answer's payload,
/// `InitOk { first_file }`, holds one file, so of a project with several
/// files only the first one listed is sent; the others are loaded all the
/// same and reach the client when it opens them.
pub fn listing_response(files: Option<Vec<Entry>>) -> (r: ServerResponse)
    ensures
        r.revision == Revision::Absent,
        match files {
            Some(v) if v@.len() > 0 => r.payload == (PayloadType::InitOk { first_file: v@[0] }),
            _ => r.payload matches PayloadType::Error { message } && message@
                == project_missing_message(),
        },
{
    match files {
        Some(mut v) => {
            if v.len() > 0 {
                let first = v.remove(0);
                ServerResponse::new(Revision::Absent, PayloadType::init_ok(first))
            } else {
                ServerResponse::new(
                    Revision::Absent,
                    PayloadType::error("This project does not exist!".to_string()),
                )
            }
        },
        None => ServerResponse::new(
            Revision::Absent,
            PayloadType::error("This project does not exist!".to_string()),
        ),
    }
}

/// Opens a document: the answer carries its path and text, and its revision
/// (the number of operations applied to it).
pub fn open_document(doc: &Document, path: String) -> (r: ServerResponse)
    ensures
        r.revision == Revision::Known(doc.state.operations@.len() as u64),
        r.payload matches PayloadType::OpenFileOk { file } && file.path == path && file.content@
            == doc.state.text@,
{
    let revision = doc.state.operations.len() as u64;
    ServerResponse::new(
        Revision::Known(revision),
        PayloadType::open_file_ok(Entry::new(path, doc.state.text.clone())),
    )
}

/// Applies a client's edit to a document: where it is applied, the answer
/// carries the new revision and the path; otherwise the error's message, and
/// the document is unchanged.
pub fn edit_document(doc: &mut Document, path: String, operation: UserOperation) -> (r:
    ServerResponse)
    requires
        old(doc).wf(),
        operation.within_limits(),
    ensures
        final(doc).wf(),
        match edit_outcome(
            old(doc).state.text@,
            history_ops(old(doc).state.operations@),
            op_seq_ops(operation.operation),
            operation.revision.spec_inner(),
        ) {
            Ok(p) => {
                &&& committed(*old(doc), *final(doc), operation, p)
                &&& r.revision == Revision::Known(final(doc).state.operations@.len() as u64)
                &&& r.payload == (PayloadType::EditFileOk { path })
            },
            Err(m) => {
                &&& *final(doc) == *old(doc)
                &&& r.revision == Revision::Absent
                &&& r.payload matches PayloadType::Error { message } && message@ == m
            },
        },
{
    match doc.apply_operation(operation) {
        Ok(()) => {
            let revision = doc.state.operations.len() as u64;
            ServerResponse::new(Revision::Known(revision), PayloadType::edit_file_ok(path))
        },
        Err(message) => ServerResponse::new(Revision::Absent, PayloadType::error(message)),
    }
}

} // verus!
