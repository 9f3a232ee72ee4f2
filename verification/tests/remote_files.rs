//! Remote files: paths, the session that is browsed, listings, and the dialogs.

use rusterm_panels::model::{SessionTab, SessionType};
use rusterm_panels::posix_path::{
    normalize_posix_path, posix_join, posix_parent, validate_entry_name, NOT_ABSOLUTE,
};
use rusterm_panels::remote_files_panel::{
    available_ssh_sessions, delete_operation, directory_listing, file_size_scale, file_type_icon, file_type_label,
    finish_operation, list_entries, listing_failure, opening_failure, operation_failure, preferred_ssh_session, sftp_opened,
    sftp_source, Activity, EntryDialog, Listing, Location, RemoteDirEntry, RemoteFileType,
    RemoteOperation, SftpSource, SizeLabel, SshSessionOption, Submission,
};

#[test]
fn joins_posix_paths_without_platform_separators() {
    assert_eq!(posix_join("/", "etc"), "/etc");
    assert_eq!(
        posix_join("/home/user/", "notes.txt"),
        "/home/user/notes.txt"
    );
    assert_eq!(posix_join("/home/user", ""), "/home/user");
}

#[test]
fn finds_posix_parent_and_stops_at_root() {
    assert_eq!(posix_parent("/home/user/"), Some("/home".to_string()));
    assert_eq!(posix_parent("/home"), Some("/".to_string()));
    assert_eq!(posix_parent("/"), None);
    assert_eq!(posix_parent(""), None);
}

#[test]
fn normalizing_resolves_dots_and_needs_an_absolute_path() {
    assert_eq!(normalize_posix_path(" /a//b/./../c/ "), Ok("/a/c".to_string()));
    assert_eq!(normalize_posix_path("/../.."), Ok("/".to_string()));
    assert_eq!(normalize_posix_path("a/b"), Err(NOT_ABSOLUTE));
    let once = normalize_posix_path("/x/../y/./z").unwrap();
    assert_eq!(normalize_posix_path(&once), Ok(once.clone()));
    assert_eq!(posix_parent(&posix_join("/srv", "www")), Some("/srv".to_string()));
}

#[test]
fn entry_names_are_single_components() {
    assert_eq!(validate_entry_name(" notes "), Ok("notes".to_string()));
    let empty = validate_entry_name("  ").unwrap_err();
    let dots = validate_entry_name("..").unwrap_err();
    let slash = validate_entry_name("a/b").unwrap_err();
    assert_ne!(empty, dots);
    assert_ne!(dots, slash);
    assert_eq!(validate_entry_name("."), Err(dots));
}

fn tab(id: &str, name: &str, kind: SessionType, hostname: Option<&str>) -> SessionTab {
    SessionTab {
        id: id.to_string(),
        name: name.to_string(),
        kind,
        hostname: hostname.map(str::to_string),
    }
}

fn options() -> Vec<SshSessionOption> {
    let tabs = vec![
        tab("a", "web", SessionType::Ssh, Some("web-01")),
        tab("b", "local", SessionType::Other, None),
        tab("c", "db", SessionType::Ssh, Some("db")),
        tab("d", "off", SessionType::Ssh, None),
    ];
    available_ssh_sessions(&tabs, &vec!["a".to_string(), "b".to_string(), "c".to_string()])
}

#[test]
fn connected_ssh_sessions_are_offered() {
    let options = options();
    let shown: Vec<(&str, &str)> =
        options.iter().map(|o| (o.id.as_str(), o.label.as_str())).collect();
    assert_eq!(shown, vec![("a", "web · web-01"), ("c", "db")]);
    let some = |id: &str| Some(id.to_string());
    assert_eq!(preferred_ssh_session(&options, &some("c"), &some("a")), some("c"));
    assert_eq!(preferred_ssh_session(&options, &some("d"), &some("c")), some("c"));
    assert_eq!(preferred_ssh_session(&options, &None, &some("x")), some("a"));
    assert_eq!(preferred_ssh_session(&Vec::new(), &some("a"), &None), None);
}

#[test]
fn sftp_needs_a_client_or_a_connection() {
    assert_eq!(sftp_source(true, false), Ok(SftpSource::Existing));
    assert_eq!(sftp_source(false, true), Ok(SftpSource::New));
    assert_eq!(sftp_source(false, false), Err("SSH session is no longer connected"));
    assert_eq!(
        sftp_opened(false, false),
        Err("SSH session disconnected while SFTP was opening")
    );
}

fn entry(name: &str, file_type: RemoteFileType) -> RemoteDirEntry {
    RemoteDirEntry {
        name: name.to_string(),
        path: format!("/d/{name}"),
        file_type,
        size: None,
    }
}

#[test]
fn listings_put_directories_first_and_ignore_case() {
    let listed = list_entries(vec![
        entry("b.txt", RemoteFileType::File),
        entry(".", RemoteFileType::Directory),
        entry("Zoo", RemoteFileType::Directory),
        entry("A.txt", RemoteFileType::File),
        entry("a.txt", RemoteFileType::File),
        entry("..", RemoteFileType::Directory),
        entry("élan", RemoteFileType::Symlink),
        entry("ÉCOLE", RemoteFileType::File),
    ]);
    let names: Vec<&str> = listed.iter().map(|e| e.name.as_str()).collect();
    assert_eq!(names, vec!["Zoo", "A.txt", "a.txt", "b.txt", "ÉCOLE", "élan"]);
}

#[test]
fn types_and_sizes_have_labels() {
    assert_eq!(file_type_label(RemoteFileType::Symlink), "symlink");
    assert_eq!(file_type_icon(RemoteFileType::Directory), "▸");
    assert!(matches!(file_size_scale(None), SizeLabel::Text(text) if text == "—"));
    assert!(matches!(file_size_scale(Some(1023)), SizeLabel::Text(text) if text == "1023 B"));
    assert!(matches!(
        file_size_scale(Some(1024)),
        SizeLabel::Scaled { divisor: 1024, unit: "KB" }
    ));
    assert!(matches!(
        file_size_scale(Some(5 << 20)),
        SizeLabel::Scaled { divisor: 1048576, unit: "MB" }
    ));
    assert!(matches!(
        file_size_scale(Some(u64::MAX)),
        SizeLabel::Scaled { divisor: 1073741824, unit: "GB" }
    ));
}

fn quiet() -> Activity {
    Activity { busy: false, status: None, error: None, refresh: 0 }
}

fn empty_listing() -> Listing {
    Listing { entries: Vec::new(), selected: None, sequence: 0, loading: false, error: None }
}

#[test]
fn location_moves_between_sessions_and_directories() {
    let mut at =
        Location { session: None, path: "/x".to_string(), draft: "/y".to_string() };
    let mut activity = quiet();
    at.sync(&options(), Some("a".to_string()));
    assert_eq!((at.session.as_deref(), at.path.as_str()), (Some("a"), "/"));
    at.draft = "/srv/../etc".to_string();
    at.go(&mut activity);
    assert_eq!((at.path.as_str(), at.draft.as_str()), ("/etc", "/etc"));
    at.sync(&options(), Some("c".to_string()));
    assert_eq!(at.path, "/etc");
    at.draft = "etc".to_string();
    at.go(&mut activity);
    assert_eq!(activity.error.as_deref(), Some(NOT_ABSOLUTE));
    assert_eq!(at.path, "/etc");
    at.go_parent(&mut activity);
    assert_eq!(at.path, "/");
    assert!(activity.error.is_none());
    let mut listing = empty_listing();
    at.open(&entry("sub", RemoteFileType::Directory), &mut listing, &mut activity);
    assert_eq!(at.path, "/d/sub");
    at.open(&entry("f", RemoteFileType::File), &mut listing, &mut activity);
    assert_eq!(at.path, "/d/sub");
    assert_eq!(listing.selected.as_ref().unwrap().name, "f");
    at.choose_session(String::new(), &mut activity);
    assert!(at.session.is_none());
}

#[test]
fn only_the_last_listing_counts() {
    let mut listing = empty_listing();
    let session = Some("a".to_string());
    let first = listing.begin_load(&session).unwrap();
    let second = listing.begin_load(&session).unwrap();
    listing.finish_load(first, Err("late".to_string()));
    assert!(listing.loading && listing.error.is_none());
    listing.finish_load(second, Ok(vec![entry("f", RemoteFileType::File)]));
    assert!(!listing.loading);
    assert_eq!(listing.entries.len(), 1);
    listing.selected = Some(entry("f", RemoteFileType::File));
    assert!(listing.can_download(false) && listing.can_delete(false) && listing.can_rename(false));
    assert!(!listing.can_download(true));
    listing.selected = Some(entry("o", RemoteFileType::Other));
    assert!(!listing.can_delete(false));
    let third = listing.begin_load(&session).unwrap();
    listing.finish_load(third, Err("denied".to_string()));
    assert_eq!(listing.error.as_deref(), Some("denied"));
    assert_eq!(listing.begin_load(&None), None);
}

#[test]
fn dialogs_lead_to_operations() {
    let mut dialog = EntryDialog { pending: None, input: String::new() };
    let mut activity = quiet();
    let session = Some("a".to_string());
    assert!(matches!(dialog.submit(&session, "/d", &mut activity), Submission::Ignored));
    dialog.ask_create(&mut activity);
    assert_eq!(dialog.title(), "Create remote directory");
    dialog.input = "a/b".to_string();
    assert!(matches!(dialog.submit(&session, "/d", &mut activity), Submission::Refused));
    assert!(activity.error.is_some());
    dialog.input = " new ".to_string();
    match dialog.submit(&session, "/d", &mut activity) {
        Submission::Run { operation: RemoteOperation::CreateDirectory { path }, success } => {
            assert_eq!((path.as_str(), success.as_str()), ("/d/new", "Created directory: new"));
        }
        _ => panic!("a directory is to be created"),
    }
    assert!(activity.busy && dialog.pending.is_none());

    let selected = Some(entry("f", RemoteFileType::File));
    dialog.ask_rename(&selected, &mut activity);
    assert!(matches!(dialog.submit(&session, "/d", &mut activity), Submission::Unchanged));
    dialog.ask_rename(&selected, &mut activity);
    dialog.input = "g".to_string();
    match dialog.submit(&session, "/d", &mut activity) {
        Submission::Run { operation: RemoteOperation::Rename { from, to }, .. } => {
            assert_eq!((from.as_str(), to.as_str()), ("/d/f", "/d/g"));
        }
        _ => panic!("the file is to be renamed"),
    }
    dialog.ask_delete(&Some(entry("l", RemoteFileType::Symlink)));
    assert_eq!(
        dialog.delete_message(),
        "Delete symbolic link ‘l’? Its target will not be followed or deleted."
    );
    assert!(matches!(
        dialog.submit(&session, "/d", &mut activity),
        Submission::Run { operation: RemoteOperation::RemoveFile { .. }, .. }
    ));
}

#[test]
fn deletion_never_recurses() {
    let directory = delete_operation(entry("d", RemoteFileType::Directory));
    assert!(matches!(&directory, RemoteOperation::RemoveEmptyDirectory { path } if path == "/d/d"));
    assert_eq!(operation_failure(&directory), "Unable to delete empty directory: ");
    let other = delete_operation(entry("o", RemoteFileType::Other));
    assert!(matches!(other, RemoteOperation::Unsupported));
}

#[test]
fn operations_end_in_a_status_or_an_error() {
    let mut listing = empty_listing();
    listing.selected = Some(entry("f", RemoteFileType::File));
    let mut activity = quiet();
    activity.begin("Working");
    finish_operation(Err("denied".to_string()), "done".to_string(), &mut listing, &mut activity);
    assert_eq!(activity.error.as_deref(), Some("denied"));
    assert!(!activity.busy && listing.selected.is_some() && activity.refresh == 0);
    finish_operation(Ok(()), "done".to_string(), &mut listing, &mut activity);
    assert_eq!(activity.status.as_deref(), Some("done"));
    assert!(listing.selected.is_none() && activity.refresh == 1);
    activity.queued("Upload", "f");
    assert_eq!(activity.status.as_deref(), Some("Upload queued: f"));
    activity.cancelled("Cancelled");
    assert_eq!(activity.status.as_deref(), Some("Cancelled"));
    activity.failed("broken".to_string());
    assert_eq!(activity.error.as_deref(), Some("broken"));
    activity.refresh = u64::MAX;
    activity.request_refresh();
    assert_eq!(activity.refresh, 0);
    activity.quiet();
    assert!(activity.error.is_none());
}

#[test]
fn listings_are_ordered_or_tell_why_they_failed() {
    let answer = Ok(vec![
        entry("b", RemoteFileType::File),
        entry("..", RemoteFileType::Directory),
        entry("A", RemoteFileType::File),
        entry("z", RemoteFileType::Directory),
    ]);
    let shown = directory_listing(answer).unwrap();
    let names: Vec<&str> = shown.iter().map(|entry| entry.name.as_str()).collect();
    assert_eq!(names, vec!["z", "A", "b"]);
    let failed = directory_listing(Err("denied".to_string()));
    assert_eq!(failed, Err("Unable to list remote directory: denied".to_string()));
    assert_eq!(listing_failure("x"), "Unable to list remote directory: x");
    assert_eq!(opening_failure("no channel"), "Unable to open SFTP: no channel");
}
