//! The decisions of the agent's file-transfer endpoint.
//!
//! A request to the endpoint is an exchange between this module and the
//! server that owns the file system: `begin` turns the method, the root
//! directory and the request path into a first action, and `step` turns the
//! outcome of each action into the next one, until the action is a reply.
use vstd::prelude::*;
use vstd::utf8::{decode_utf8, encode_utf8, valid_utf8};

use crate::path_key::{law_path_key_double_separator, spec_path_key};
use crate::paths::{
    join_path, joined_path, last_index_of, lemma_last_index_of, lemma_last_index_of_bounds,
    separate_path_and_file_name,
    spec_separate,
};

verus! {

/// Status of a stored upload.
pub const STATUS_CREATED: u16 = 201;

/// Status of a removed file.
pub const STATUS_ACCEPTED: u16 = 202;

/// Status of an upload that could not be stored.
pub const STATUS_FORBIDDEN: u16 = 403;

/// Status of a read of a missing file or of a directory.
pub const STATUS_NOT_FOUND: u16 = 404;

/// Status of a removal that failed.
pub const STATUS_INTERNAL_SERVER_ERROR: u16 = 500;

/// The request methods that the endpoint serves.
#[derive(Clone, Copy, Debug, PartialEq, Eq, Structural)]
pub enum Method {
    Get,
    Put,
    Delete,
}

/// Why a read could not be answered with the file's contents.
#[derive(Clone, Copy, Debug, PartialEq, Eq, Structural)]
pub enum FailureKind {
    /// Opening or reading the file failed.
    Io,
    /// The file's contents are not UTF-8 text.
    NotUtf8,
}

/// What the endpoint answers.
#[derive(Debug)]
pub enum Reply {
    /// An empty body with this status.
    Status(u16),
    /// The file's text with status 200.
    Content(String),
    /// The handler failed; the server reports the error.
    Failure(FailureKind),
}

/// The server's next piece of work on the file system, or the final reply.
#[derive(Debug)]
pub enum Action {
    /// Find out whether this path exists and whether it is a directory.
    Inspect(String),
    /// Create this directory and the directories above it.
    CreateDirectories(String),
    /// Write the request body to the file at this path.
    WriteBody(String),
    /// Read the whole file at this path.
    ReadFile(String),
    /// Remove the file at this path.
    RemoveFile(String),
    /// Answer the request.
    Respond(Reply),
}

/// What came of the last action.
#[derive(Debug)]
pub enum Outcome {
    /// Answer to `Inspect`.
    Inspected { found: bool, is_dir: bool },
    /// Answer to `CreateDirectories`, `WriteBody` and `RemoveFile`: whether it succeeded.
    Completed(bool),
    /// Answer to `ReadFile`: the bytes, or `None` when reading failed.
    Read(Option<Vec<u8>>),
}

/// Where an exchange stands.
#[derive(Debug)]
pub enum Stage {
    /// A read waits for the inspection of its path.
    GetInspecting(String),
    /// A read waits for the file's bytes.
    GetReading,
    /// An upload waits for its directories; the string is the file to write.
    PutCreating(String),
    /// An upload waits for the body to be written.
    PutWriting,
    /// A removal waits for the inspection of its path.
    DeleteInspecting(String),
    /// A removal waits for the file to be removed.
    DeleteRemoving,
    /// The reply has been given.
    Finished,
}

/// Model of `Reply`.
pub enum ReplyModel {
    Status(u16),
    Content(Seq<char>),
    Failure(FailureKind),
}

/// Model of `Action`.
pub enum ActionModel {
    Inspect(Seq<char>),
    CreateDirectories(Seq<char>),
    WriteBody(Seq<char>),
    ReadFile(Seq<char>),
    RemoveFile(Seq<char>),
    Respond(ReplyModel),
}

/// Model of `Outcome`.
pub enum OutcomeModel {
    Inspected { found: bool, is_dir: bool },
    Completed(bool),
    Read(Option<Seq<u8>>),
}

/// Model of `Stage`.
pub enum StageModel {
    GetInspecting(Seq<char>),
    GetReading,
    PutCreating(Seq<char>),
    PutWriting,
    DeleteInspecting(Seq<char>),
    DeleteRemoving,
    Finished,
}

impl View for Reply {
    type V = ReplyModel;

    open spec fn view(&self) -> ReplyModel {
        match self {
            Reply::Status(code) => ReplyModel::Status(*code),
            Reply::Content(text) => ReplyModel::Content(text@),
            Reply::Failure(kind) => ReplyModel::Failure(*kind),
        }
    }
}

impl View for Action {
    type V = ActionModel;

    open spec fn view(&self) -> ActionModel {
        match self {
            Action::Inspect(p) => ActionModel::Inspect(p@),
            Action::CreateDirectories(p) => ActionModel::CreateDirectories(p@),
            Action::WriteBody(p) => ActionModel::WriteBody(p@),
            Action::ReadFile(p) => ActionModel::ReadFile(p@),
            Action::RemoveFile(p) => ActionModel::RemoveFile(p@),
            Action::Respond(r) => ActionModel::Respond(r@),
        }
    }
}

impl View for Outcome {
    type V = OutcomeModel;

    open spec fn view(&self) -> OutcomeModel {
        match self {
            Outcome::Inspected { found, is_dir } => OutcomeModel::Inspected {
                found: *found,
                is_dir: *is_dir,
            },
            Outcome::Completed(ok) => OutcomeModel::Completed(*ok),
            Outcome::Read(None) => OutcomeModel::Read(None),
            Outcome::Read(Some(bytes)) => OutcomeModel::Read(Some(bytes@)),
        }
    }
}

impl View for Stage {
    type V = StageModel;

    open spec fn view(&self) -> StageModel {
        match self {
            Stage::GetInspecting(p) => StageModel::GetInspecting(p@),
            Stage::GetReading => StageModel::GetReading,
            Stage::PutCreating(p) => StageModel::PutCreating(p@),
            Stage::PutWriting => StageModel::PutWriting,
            Stage::DeleteInspecting(p) => StageModel::DeleteInspecting(p@),
            Stage::DeleteRemoving => StageModel::DeleteRemoving,
            Stage::Finished => StageModel::Finished,
        }
    }
}

/// Calls `String::from_utf8`, which returns the text when the bytes are
/// valid UTF-8 and an error otherwise.
#[verifier::external_body]
fn text_from_utf8(bytes: Vec<u8>) -> (res: Option<String>)
    ensures
        res is Some <==> valid_utf8(bytes@),
        res matches Some(text) ==> text@ == decode_utf8(bytes@),
{
    String::from_utf8(bytes).ok()
}

/// The path that a read or a removal works on: the root followed by the
/// request path, as they are written.
pub open spec fn target_path(root: Seq<char>, uri: Seq<char>) -> Seq<char> {
    root + uri
}

/// For an upload: the directory to create and the file to write, when the
/// request path can be split into a directory and a file name.
pub open spec fn put_targets(root: Seq<char>, uri: Seq<char>) -> Option<(Seq<char>, Seq<char>)> {
    match spec_separate(uri) {
        None => None,
        Some((rel, name)) => {
            let dirs = joined_path(root, rel);
            Some((dirs, joined_path(dirs, name)))
        },
    }
}

/// The reply to a read once the file's bytes, or the failure to read them,
/// are known.
pub open spec fn read_reply(contents: Option<Seq<u8>>) -> ReplyModel {
    match contents {
        None => ReplyModel::Failure(FailureKind::Io),
        Some(bytes) => if valid_utf8(bytes) {
            ReplyModel::Content(decode_utf8(bytes))
        } else {
            ReplyModel::Failure(FailureKind::NotUtf8)
        },
    }
}

/// The first stage and action of an exchange.
pub open spec fn spec_begin(method: Method, root: Seq<char>, uri: Seq<char>) -> (StageModel, ActionModel) {
    match method {
        Method::Get => (
            StageModel::GetInspecting(target_path(root, uri)),
            ActionModel::Inspect(target_path(root, uri)),
        ),
        Method::Delete => (
            StageModel::DeleteInspecting(target_path(root, uri)),
            ActionModel::Inspect(target_path(root, uri)),
        ),
        Method::Put => match put_targets(root, uri) {
            None => (StageModel::Finished, ActionModel::Respond(ReplyModel::Status(STATUS_FORBIDDEN))),
            Some((dirs, file)) => (StageModel::PutCreating(file), ActionModel::CreateDirectories(dirs)),
        },
    }
}

/// The outcomes that a stage waits for.
pub open spec fn accepts(stage: StageModel, outcome: OutcomeModel) -> bool {
    match stage {
        StageModel::GetInspecting(_) => outcome is Inspected,
        StageModel::DeleteInspecting(_) => outcome is Inspected,
        StageModel::GetReading => outcome is Read,
        StageModel::PutCreating(_) => outcome is Completed,
        StageModel::PutWriting => outcome is Completed,
        StageModel::DeleteRemoving => outcome is Completed,
        StageModel::Finished => false,
    }
}

/// The next stage and action, given the outcome that the stage waits for.
/// A failure to create the directories of an upload does not stop it: the
/// body is written all the same, and the write decides the reply.
pub open spec fn spec_next(stage: StageModel, outcome: OutcomeModel) -> (StageModel, ActionModel) {
    match (stage, outcome) {
        (StageModel::GetInspecting(path), OutcomeModel::Inspected { found, is_dir }) => {
            if !found || is_dir {
                (StageModel::Finished, ActionModel::Respond(ReplyModel::Status(STATUS_NOT_FOUND)))
            } else {
                (StageModel::GetReading, ActionModel::ReadFile(path))
            }
        },
        (StageModel::GetReading, OutcomeModel::Read(contents)) => (
            StageModel::Finished,
            ActionModel::Respond(read_reply(contents)),
        ),
        (StageModel::PutCreating(file), OutcomeModel::Completed(_)) => (
            StageModel::PutWriting,
            ActionModel::WriteBody(file),
        ),
        (StageModel::PutWriting, OutcomeModel::Completed(written)) => (
            StageModel::Finished,
            ActionModel::Respond(
                ReplyModel::Status(if written { STATUS_CREATED } else { STATUS_FORBIDDEN }),
            ),
        ),
        (StageModel::DeleteInspecting(path), OutcomeModel::Inspected { found, is_dir: _ }) => {
            if found {
                (StageModel::DeleteRemoving, ActionModel::RemoveFile(path))
            } else {
                (
                    StageModel::Finished,
                    ActionModel::Respond(ReplyModel::Status(STATUS_INTERNAL_SERVER_ERROR)),
                )
            }
        },
        (StageModel::DeleteRemoving, OutcomeModel::Completed(removed)) => (
            StageModel::Finished,
            ActionModel::Respond(
                ReplyModel::Status(
                    if removed { STATUS_ACCEPTED } else { STATUS_INTERNAL_SERVER_ERROR },
                ),
            ),
        ),
        _ => (StageModel::Finished, ActionModel::Respond(ReplyModel::Failure(FailureKind::Io))),
    }
}

/// How many outcomes a stage still waits for at most.
pub open spec fn remaining_steps(stage: StageModel) -> nat {
    match stage {
        StageModel::GetInspecting(_) => 2,
        StageModel::GetReading => 1,
        StageModel::PutCreating(_) => 2,
        StageModel::PutWriting => 1,
        StageModel::DeleteInspecting(_) => 2,
        StageModel::DeleteRemoving => 1,
        StageModel::Finished => 0,
    }
}

/// Every exchange ends: each step brings it closer to the end, an action is a
/// reply exactly when the exchange has finished, and no exchange starts more
/// than two steps from its end.
pub proof fn law_exchange_ends(method: Method, root: Seq<char>, uri: Seq<char>, stage: StageModel, outcome: OutcomeModel)
    ensures
        remaining_steps(spec_begin(method, root, uri).0) <= 2,
        (spec_begin(method, root, uri).1 is Respond) <==> (spec_begin(method, root, uri).0 is Finished),
        accepts(stage, outcome) ==> remaining_steps(spec_next(stage, outcome).0) < remaining_steps(stage),
        accepts(stage, outcome) ==> ((spec_next(stage, outcome).1 is Respond) <==> (spec_next(stage, outcome).0 is Finished)),
{
}

/// A read inspects the root followed by the request path; a missing path or a
/// directory is answered with 404; otherwise the file is read, and its text
/// is the answer when it is UTF-8.
pub proof fn law_get_exchange(root: Seq<char>, uri: Seq<char>, found: bool, is_dir: bool, contents: Option<Seq<u8>>)
    ensures
        ({
            let (s1, a1) = spec_begin(Method::Get, root, uri);
            let (s2, a2) = spec_next(s1, OutcomeModel::Inspected { found, is_dir });
            &&& a1 == ActionModel::Inspect(root + uri)
            &&& (!found || is_dir) ==> s2 == StageModel::Finished
                && a2 == ActionModel::Respond(ReplyModel::Status(STATUS_NOT_FOUND))
            &&& (found && !is_dir) ==> a2 == ActionModel::ReadFile(root + uri)
                && spec_next(s2, OutcomeModel::Read(contents))
                == (StageModel::Finished, ActionModel::Respond(read_reply(contents)))
        }),
{
}

/// An upload of a request path without `/` is refused with 403 at once.
/// Otherwise the directory is created and the body written to the joined
/// path, whether or not the directory could be created, and the upload is
/// answered with 201 exactly when the body was written, else 403.
pub proof fn law_put_exchange(root: Seq<char>, uri: Seq<char>, created: bool, written: bool)
    ensures
        !uri.contains('/') ==> spec_begin(Method::Put, root, uri)
            == (StageModel::Finished, ActionModel::Respond(ReplyModel::Status(STATUS_FORBIDDEN))),
        uri.contains('/') ==> ({
            let (dirs, file) = put_targets(root, uri).unwrap();
            let (s1, a1) = spec_begin(Method::Put, root, uri);
            let (s2, a2) = spec_next(s1, OutcomeModel::Completed(created));
            let (s3, a3) = spec_next(s2, OutcomeModel::Completed(written));
            &&& put_targets(root, uri) is Some
            &&& a1 == ActionModel::CreateDirectories(dirs)
            &&& a2 == ActionModel::WriteBody(file)
            &&& s3 == StageModel::Finished
            &&& a3 == ActionModel::Respond(
                ReplyModel::Status(if written { STATUS_CREATED } else { STATUS_FORBIDDEN }),
            )
        }),
{
    crate::paths::law_separate_rejoins(uri);
}

/// A removal of a missing path is answered with 500; otherwise the file is
/// removed, and the answer is 202 when that succeeded, else 500.
pub proof fn law_delete_exchange(root: Seq<char>, uri: Seq<char>, found: bool, is_dir: bool, removed: bool)
    ensures
        ({
            let (s1, a1) = spec_begin(Method::Delete, root, uri);
            let (s2, a2) = spec_next(s1, OutcomeModel::Inspected { found, is_dir });
            &&& a1 == ActionModel::Inspect(root + uri)
            &&& !found ==> s2 == StageModel::Finished
                && a2 == ActionModel::Respond(ReplyModel::Status(STATUS_INTERNAL_SERVER_ERROR))
            &&& found ==> a2 == ActionModel::RemoveFile(root + uri)
                && spec_next(s2, OutcomeModel::Completed(removed)) == (
                    StageModel::Finished,
                    ActionModel::Respond(
                        ReplyModel::Status(
                            if removed { STATUS_ACCEPTED } else { STATUS_INTERNAL_SERVER_ERROR },
                        ),
                    ),
                )
        }),
{
}

/// An upload and a read of the same request path reach the same file: the
/// path that the upload writes and the path that the read inspects have the
/// same key, when the root is not empty and the request path starts with a
/// single `/`.
#[verifier::rlimit(50)]
pub proof fn law_upload_and_read_reach_same_file(root: Seq<char>, uri: Seq<char>)
    requires
        root.len() > 0,
        uri.len() > 0,
        uri[0] == '/',
        uri.len() > 1 ==> uri[1] != '/',
    ensures
        put_targets(root, uri) matches Some((_, file)) && spec_path_key(file) == spec_path_key(
            target_path(root, uri),
        ),
{
    lemma_last_index_of_bounds(uri, '/');
    let k = last_index_of(uri, '/');
    assert(k >= 0) by {
        if k < 0 {
            assert(uri[0] != '/');
        }
    }
    let dir = uri.take(k);
    let name = uri.skip(k + 1);
    assert(name.len() > 0 ==> name[0] != '/') by {
        if name.len() > 0 {
            assert(name[0] == uri[k + 1]);
        }
    }
    let get = root + uri;
    let r = if root.last() == '/' { root.drop_last() } else { root };
    if root.last() == '/' {
        assert(root =~= r + seq!['/']);
    }
    if k == 0 {
        assert(dir =~= Seq::<char>::empty());
        assert(uri =~= seq!['/'] + name);
        let dirs = joined_path(root, dir);
        assert(dirs =~= r + seq!['/']);
        let file = joined_path(dirs, name);
        assert(file =~= r + seq!['/'] + name);
        if root.last() == '/' {
            assert(get =~= r + seq!['/', '/'] + name);
            law_path_key_double_separator(r, name);
        } else {
            assert(get =~= file);
        }
    } else {
        assert(k >= 2) by {
            if k == 1 {
                assert(uri[1] == '/');
            }
        }
        assert(dir[0] == '/');
        let rel = dir.skip(1);
        assert(rel.len() > 0 && rel[0] == uri[1]);
        assert(uri =~= seq!['/'] + rel + seq!['/'] + name);
        let q = if rel.last() == '/' { rel.drop_last() } else { rel };
        if rel.last() == '/' {
            assert(rel =~= q + seq!['/']);
        }
        let dirs = joined_path(root, rel);
        assert(dirs =~= r + seq!['/'] + rel);
        assert(dirs.last() == rel.last());
        let file = joined_path(dirs, name);
        assert(file =~= r + seq!['/'] + q + seq!['/'] + name);
        let g1 = r + seq!['/'] + rel + seq!['/'] + name;
        if root.last() == '/' {
            assert(get =~= r + seq!['/', '/'] + (rel + seq!['/'] + name));
            assert(g1 =~= r + seq!['/'] + (rel + seq!['/'] + name));
            law_path_key_double_separator(r, rel + seq!['/'] + name);
        } else {
            assert(get =~= g1);
        }
        if rel.last() == '/' {
            assert(g1 =~= (r + seq!['/'] + q) + seq!['/', '/'] + name);
            assert(file =~= (r + seq!['/'] + q) + seq!['/'] + name);
            law_path_key_double_separator(r + seq!['/'] + q, name);
        } else {
            assert(g1 =~= file);
        }
    }
}

/// An upload of `p/name`, where the file name holds no `/`, creates the
/// directory `p` (less one leading `/`) joined to the root, and writes the
/// file `name` joined to that directory.
pub proof fn law_put_creates_parent_directory(root: Seq<char>, p: Seq<char>, name: Seq<char>)
    requires
        !name.contains('/'),
    ensures
        ({
            let rel = if p.len() > 0 && p[0] == '/' { p.skip(1) } else { p };
            let dirs = joined_path(root, rel);
            spec_begin(Method::Put, root, p + seq!['/'] + name) == (
                StageModel::PutCreating(joined_path(dirs, name)),
                ActionModel::CreateDirectories(dirs),
            )
        }),
{
    let uri = p + seq!['/'] + name;
    let k = p.len() as int;
    assert forall|j: int| k < j < uri.len() implies uri[j] != '/' by {
        assert(uri[j] == name[j - k - 1]);
    }
    lemma_last_index_of(uri, '/', k);
    assert(uri.take(k) =~= p);
    assert(uri.skip(k + 1) =~= name);
}

/// A read of an existing file answers the file's text when its bytes are
/// UTF-8, and that text encodes back to exactly those bytes; it answers a
/// UTF-8 failure exactly when they are not, and an I/O failure when they
/// could not be read.
pub proof fn law_get_answers_file_text(root: Seq<char>, uri: Seq<char>, bytes: Seq<u8>)
    ensures
        ({
            let (s1, a1) = spec_begin(Method::Get, root, uri);
            let (s2, a2) = spec_next(s1, OutcomeModel::Inspected { found: true, is_dir: false });
            let a3 = spec_next(s2, OutcomeModel::Read(Some(bytes))).1;
            &&& a2 == ActionModel::ReadFile(root + uri)
            &&& valid_utf8(bytes) ==> (a3 matches ActionModel::Respond(ReplyModel::Content(text))
                && encode_utf8(text) == bytes && text == decode_utf8(bytes))
            &&& !valid_utf8(bytes) ==> a3 == ActionModel::Respond(ReplyModel::Failure(FailureKind::NotUtf8))
            &&& spec_next(s2, OutcomeModel::Read(None)).1 == ActionModel::Respond(
                ReplyModel::Failure(FailureKind::Io),
            )
        }),
{
    if valid_utf8(bytes) {
        vstd::utf8::decode_utf8_encode_utf8(bytes);
    }
}

impl Stage {
    /// Starts the exchange for a request with this method on `uri`, the
    /// request path, under the directory `root`.
    pub fn begin(method: Method, root: &str, uri: &str) -> (res: (Stage, Action))
        ensures
            (res.0@, res.1@) == spec_begin(method, root@, uri@),
    {
        match method {
            Method::Get => {
                let mut path = String::from_str(root);
                path.append(uri);
                let target = path.clone();
                (Stage::GetInspecting(path), Action::Inspect(target))
            },
            Method::Delete => {
                let mut path = String::from_str(root);
                path.append(uri);
                let target = path.clone();
                (Stage::DeleteInspecting(path), Action::Inspect(target))
            },
            Method::Put => match separate_path_and_file_name(uri) {
                None => (Stage::Finished, Action::Respond(Reply::Status(STATUS_FORBIDDEN))),
                Some((rel, name)) => {
                    let dirs = join_path(root, rel.as_str());
                    let file = join_path(dirs.as_str(), name);
                    (Stage::PutCreating(file), Action::CreateDirectories(dirs))
                },
            },
        }
    }

    /// Whether the reply has been given.
    pub fn is_finished(&self) -> (res: bool)
        ensures
            res == (self@ is Finished),
    {
        match self {
            Stage::Finished => true,
            _ => false,
        }
    }

    /// Moves the exchange on by the outcome of the last action.
    pub fn step(self, outcome: Outcome) -> (res: (Stage, Action))
        requires
            accepts(self@, outcome@),
        ensures
            (res.0@, res.1@) == spec_next(self@, outcome@),
    {
        match (self, outcome) {
            (Stage::GetInspecting(path), Outcome::Inspected { found, is_dir }) => {
                if !found || is_dir {
                    (Stage::Finished, Action::Respond(Reply::Status(STATUS_NOT_FOUND)))
                } else {
                    (Stage::GetReading, Action::ReadFile(path))
                }
            },
            (Stage::GetReading, Outcome::Read(contents)) => {
                let reply = match contents {
                    None => Reply::Failure(FailureKind::Io),
                    Some(bytes) => match text_from_utf8(bytes) {
                        Some(text) => Reply::Content(text),
                        None => Reply::Failure(FailureKind::NotUtf8),
                    },
                };
                (Stage::Finished, Action::Respond(reply))
            },
            (Stage::PutCreating(file), Outcome::Completed(_)) => {
                (Stage::PutWriting, Action::WriteBody(file))
            },
            (Stage::PutWriting, Outcome::Completed(written)) => {
                let code = if written { STATUS_CREATED } else { STATUS_FORBIDDEN };
                (Stage::Finished, Action::Respond(Reply::Status(code)))
            },
            (Stage::DeleteInspecting(path), Outcome::Inspected { found, is_dir: _ }) => {
                if found {
                    (Stage::DeleteRemoving, Action::RemoveFile(path))
                } else {
                    (Stage::Finished, Action::Respond(Reply::Status(STATUS_INTERNAL_SERVER_ERROR)))
                }
            },
            (Stage::DeleteRemoving, Outcome::Completed(removed)) => {
                let code = if removed { STATUS_ACCEPTED } else { STATUS_INTERNAL_SERVER_ERROR };
                (Stage::Finished, Action::Respond(Reply::Status(code)))
            },
            (_, _) => {
                proof {
                    assert(false);
                }
                (Stage::Finished, Action::Respond(Reply::Failure(FailureKind::Io)))
            },
        }
    }
}

} // verus!
