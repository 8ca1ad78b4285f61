use tedge_core::{
    Action, FailureKind, Method, Outcome, Reply, Stage, STATUS_ACCEPTED, STATUS_CREATED,
    STATUS_FORBIDDEN, STATUS_INTERNAL_SERVER_ERROR, STATUS_NOT_FOUND,
};

const ROOT: &str = "/tmp/ttd";
const VALID_PATH: &str = "/tedge/another/dir/test-file";

fn expect_path(action: &Action) -> String {
    match action {
        Action::Inspect(p)
        | Action::CreateDirectories(p)
        | Action::WriteBody(p)
        | Action::ReadFile(p)
        | Action::RemoveFile(p) => p.clone(),
        Action::Respond(r) => panic!("unexpected reply {:?}", r),
    }
}

fn expect_status(action: &Action) -> u16 {
    match action {
        Action::Respond(Reply::Status(code)) => *code,
        other => panic!("expected a status, got {:?}", other),
    }
}

fn run_get(found: bool, is_dir: bool, contents: Option<Vec<u8>>) -> Action {
    let (stage, action) = Stage::begin(Method::Get, ROOT, VALID_PATH);
    assert!(matches!(action, Action::Inspect(_)));
    let (stage, action) = stage.step(Outcome::Inspected { found, is_dir });
    if stage.is_finished() {
        return action;
    }
    assert!(matches!(action, Action::ReadFile(_)));
    let (stage, action) = stage.step(Outcome::Read(contents));
    assert!(stage.is_finished());
    action
}

#[test]
fn test_file_transfer_get() {
    let (_, action) = Stage::begin(Method::Get, ROOT, VALID_PATH);
    assert_eq!(expect_path(&action), "/tmp/ttd/tedge/another/dir/test-file");
    match run_get(true, false, Some(b"raw content".to_vec())) {
        Action::Respond(Reply::Content(text)) => assert_eq!(text, "raw content"),
        other => panic!("unexpected {:?}", other),
    }
}

#[test]
fn get_of_missing_file_is_not_found() {
    assert_eq!(expect_status(&run_get(false, false, None)), STATUS_NOT_FOUND);
    assert_eq!(STATUS_NOT_FOUND, 404);
}

#[test]
fn get_of_directory_is_not_found() {
    assert_eq!(expect_status(&run_get(true, true, None)), STATUS_NOT_FOUND);
}

#[test]
fn get_read_failure_is_io_failure() {
    assert!(matches!(run_get(true, false, None), Action::Respond(Reply::Failure(FailureKind::Io))));
}

#[test]
fn get_of_binary_file_is_utf8_failure() {
    let action = run_get(true, false, Some(vec![0xff, 0xfe, 0x00]));
    assert!(matches!(action, Action::Respond(Reply::Failure(FailureKind::NotUtf8))));
}

#[test]
fn get_reads_path_after_root() {
    let (stage, _) = Stage::begin(Method::Get, "/srv", "/tedge/a.txt");
    let (_, action) = stage.step(Outcome::Inspected { found: true, is_dir: false });
    assert_eq!(expect_path(&action), "/srv/tedge/a.txt");
}

#[test]
fn test_file_transfer_put() {
    let mut body = String::new();
    for val in 0..100 {
        body.push_str(&format!("{}\n", val));
    }
    assert!(!body.is_empty());
    let (stage, action) = Stage::begin(Method::Put, ROOT, VALID_PATH);
    assert_eq!(expect_path(&action), "/tmp/ttd/tedge/another/dir");
    let (stage, action) = stage.step(Outcome::Completed(true));
    assert_eq!(expect_path(&action), "/tmp/ttd/tedge/another/dir/test-file");
    let (stage, action) = stage.step(Outcome::Completed(true));
    assert!(stage.is_finished());
    assert_eq!(expect_status(&action), STATUS_CREATED);
    assert_eq!(STATUS_CREATED, 201);
}

#[test]
fn put_writes_even_when_directories_fail() {
    let (stage, _) = Stage::begin(Method::Put, ROOT, VALID_PATH);
    let (stage, action) = stage.step(Outcome::Completed(false));
    assert!(matches!(action, Action::WriteBody(_)));
    let (_, action) = stage.step(Outcome::Completed(true));
    assert_eq!(expect_status(&action), STATUS_CREATED);
}

#[test]
fn put_write_failure_is_forbidden() {
    let (stage, _) = Stage::begin(Method::Put, ROOT, VALID_PATH);
    let (stage, _) = stage.step(Outcome::Completed(true));
    let (_, action) = stage.step(Outcome::Completed(false));
    assert_eq!(expect_status(&action), STATUS_FORBIDDEN);
    assert_eq!(STATUS_FORBIDDEN, 403);
}

#[test]
fn put_without_slash_is_forbidden_at_once() {
    let (stage, action) = Stage::begin(Method::Put, ROOT, "test-file");
    assert!(stage.is_finished());
    assert_eq!(expect_status(&action), STATUS_FORBIDDEN);
}

#[test]
fn put_of_top_level_file_writes_under_root() {
    let (stage, action) = Stage::begin(Method::Put, "/srv", "/file.txt");
    assert_eq!(expect_path(&action), "/srv/");
    let (_, action) = stage.step(Outcome::Completed(true));
    assert_eq!(expect_path(&action), "/srv/file.txt");
}

#[test]
fn test_file_transfer_delete() {
    let (stage, action) = Stage::begin(Method::Delete, ROOT, VALID_PATH);
    assert_eq!(expect_path(&action), "/tmp/ttd/tedge/another/dir/test-file");
    let (stage, action) = stage.step(Outcome::Inspected { found: true, is_dir: false });
    assert!(matches!(action, Action::RemoveFile(_)));
    let (stage, action) = stage.step(Outcome::Completed(true));
    assert!(stage.is_finished());
    assert_eq!(expect_status(&action), STATUS_ACCEPTED);
    assert_eq!(STATUS_ACCEPTED, 202);
}

#[test]
fn delete_of_missing_file_is_server_error() {
    let (stage, _) = Stage::begin(Method::Delete, ROOT, VALID_PATH);
    let (stage, action) = stage.step(Outcome::Inspected { found: false, is_dir: false });
    assert!(stage.is_finished());
    assert_eq!(expect_status(&action), STATUS_INTERNAL_SERVER_ERROR);
    assert_eq!(STATUS_INTERNAL_SERVER_ERROR, 500);
}

#[test]
fn delete_failure_is_server_error() {
    let (stage, _) = Stage::begin(Method::Delete, ROOT, VALID_PATH);
    let (stage, _) = stage.step(Outcome::Inspected { found: true, is_dir: true });
    let (_, action) = stage.step(Outcome::Completed(false));
    assert_eq!(expect_status(&action), STATUS_INTERNAL_SERVER_ERROR);
}

#[test]
fn every_exchange_ends_within_three_actions() {
    for method in [Method::Get, Method::Put, Method::Delete] {
        let (mut stage, _) = Stage::begin(method, ROOT, VALID_PATH);
        let mut steps = 0;
        while !stage.is_finished() {
            let outcome = match &stage {
                Stage::GetInspecting(_) | Stage::DeleteInspecting(_) => {
                    Outcome::Inspected { found: true, is_dir: false }
                }
                Stage::GetReading => Outcome::Read(Some(b"x".to_vec())),
                _ => Outcome::Completed(true),
            };
            let (next, _) = stage.step(outcome);
            stage = next;
            steps += 1;
        }
        assert!(steps <= 2);
    }
}

#[test]
fn upload_and_read_reach_the_same_file() {
    for (root, uri) in [
        (ROOT, VALID_PATH),
        ("/srv/", "/a/b"),
        ("/srv", "/a//b"),
        ("/srv/", "/top"),
        ("rel", "/x/y/z"),
    ] {
        let (put, _) = Stage::begin(Method::Put, root, uri);
        let (_, action) = put.step(Outcome::Completed(true));
        let written = expect_path(&action);
        let (_, action) = Stage::begin(Method::Get, root, uri);
        let read = expect_path(&action);
        assert_eq!(std::path::Path::new(&written), std::path::Path::new(&read));
        assert_eq!(tedge_core::path_key(&written), tedge_core::path_key(&read));
    }
}
