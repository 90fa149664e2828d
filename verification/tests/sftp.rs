use yshell::sftp::client::{FakeSftpBackend, SftpBackend, SftpClient};
use yshell::sftp::error::{SftpError, SftpErrorKind};
use yshell::sftp::fs_entry::{FsEntry, FsEntryKind};
use yshell::sftp::remote_edit::RemoteEditSession;
use yshell::sftp::transfer_queue::TransferQueue;
use yshell::sftp::transfer_task::{TransferDirection, TransferStatus, TransferTask};

#[test]
fn retries_cancel_and_progresses_tasks() {
    let mut queue = TransferQueue::default();
    queue.enqueue(TransferTask::new("t1", TransferDirection::Download, "/remote/a", "a", Some(10)));
    queue.start_next();
    queue.update_progress("t1", 5).unwrap();
    assert_eq!(queue.tasks[0].progress_percent(), Some(50));
    queue.fail("t1", "network").unwrap();
    assert!(queue.retry("t1").unwrap());
    queue.cancel("t1").unwrap();
    assert_eq!(queue.tasks[0].status, TransferStatus::Cancelled);
}

#[test]
fn fake_backend_lists_and_mutates_files() {
    let mut backend = FakeSftpBackend::default();
    backend.mkdir("/tmp").unwrap();
    backend.insert(FsEntry::file("/tmp/a.txt", 42));
    let listing = backend.list_dir("/tmp").unwrap();
    assert_eq!(listing.entries.len(), 1);
    backend.chmod("/tmp/a.txt", 0o600).unwrap();
    backend.rename("/tmp/a.txt", "/tmp/b.txt").unwrap();
    backend.delete("/tmp/b.txt").unwrap();
    assert!(backend.list_dir("/tmp").unwrap().entries.is_empty());
}

#[test]
fn queue_starts_in_order_and_completes_at_full_progress() {
    let mut queue = TransferQueue::new();
    queue.enqueue(TransferTask::new("a", TransferDirection::Upload, "a", "/r/a", Some(4)));
    queue.enqueue(TransferTask::new("b", TransferDirection::Upload, "b", "/r/b", None));
    assert_eq!(queue.start_next().map(|t| t.id.clone()), Some("a".to_owned()));
    assert_eq!(queue.start_next().map(|t| t.id.clone()), Some("b".to_owned()));
    assert!(queue.start_next().is_none());
    queue.update_progress("a", 9).unwrap();
    assert_eq!(queue.tasks[0].bytes_done, 4);
    assert_eq!(queue.tasks[0].status, TransferStatus::Completed);
    assert_eq!(queue.tasks[0].progress_percent(), Some(100));
    queue.update_progress("b", 7).unwrap();
    assert_eq!(queue.tasks[1].status, TransferStatus::Running);
    assert_eq!(queue.tasks[1].progress_percent(), None);
}

#[test]
fn retries_run_out_and_unknown_tasks_are_refused() {
    let mut queue = TransferQueue::new();
    queue.enqueue(TransferTask::new("t", TransferDirection::Download, "/r", "l", Some(0)));
    assert_eq!(queue.tasks[0].progress_percent(), Some(100));
    for _ in 0..3 {
        queue.fail("t", "boom").unwrap();
        assert!(queue.retry("t").unwrap());
    }
    queue.fail("t", "boom").unwrap();
    assert!(!queue.retry("t").unwrap());
    assert_eq!(queue.tasks[0].status, TransferStatus::Failed);
    assert_eq!(queue.tasks[0].last_error.as_deref(), Some("boom"));
    let error = queue.cancel("missing").unwrap_err();
    assert_eq!(error.kind, SftpErrorKind::NotFound);
    assert_eq!(error.message, "unknown transfer missing");
    assert_eq!(error.describe(), "NotFound: unknown transfer missing");
}

#[test]
fn backend_errors_for_each_refusal() {
    let mut backend = FakeSftpBackend::default();
    assert_eq!(backend.list_dir("/nope").unwrap_err().kind, SftpErrorKind::NotFound);
    backend.insert(FsEntry::file("/f", 1));
    assert_eq!(backend.list_dir("/f").unwrap_err().kind, SftpErrorKind::InvalidPath);
    assert_eq!(backend.delete("/").unwrap_err().kind, SftpErrorKind::InvalidPath);
    assert_eq!(backend.mkdir("/f").unwrap_err().kind, SftpErrorKind::AlreadyExists);
    assert_eq!(backend.rename("/x", "/f").unwrap_err().kind, SftpErrorKind::AlreadyExists);
    assert_eq!(backend.rename("/x", "/y").unwrap_err().kind, SftpErrorKind::NotFound);
    assert_eq!(backend.chmod("/x", 0o600).unwrap_err().kind, SftpErrorKind::NotFound);
    assert_eq!(backend.delete("/x").unwrap_err().message, "/x not found");
}

#[test]
fn listing_shows_direct_children_in_path_order() {
    let mut client = SftpClient::new();
    client.mkdir("/srv").unwrap();
    client.mkdir("/srv/app").unwrap();

    let mut backend = FakeSftpBackend::default();
    backend.mkdir("/srv").unwrap();
    backend.insert(FsEntry::file("/srv/b.log", 2));
    backend.insert(FsEntry::file("/srv/a.log", 1));
    backend.mkdir("/srv/app").unwrap();
    backend.insert(FsEntry::file("/srv/app/deep.txt", 3));
    let listing = backend.list_dir("/srv").unwrap();
    let names: Vec<String> = listing.entries.iter().map(|e| e.name.clone()).collect();
    assert_eq!(names, vec!["a.log", "app", "b.log"]);
    assert_eq!(listing.path, "/srv");
    let root = backend.list_dir("/").unwrap();
    assert_eq!(root.entries.len(), 1);
    assert_eq!(root.entries[0].kind, FsEntryKind::Directory);
    let listed = client.list_dir("/srv").unwrap();
    assert_eq!(listed.entries.len(), 1);
}

#[test]
fn rename_moves_and_renames_the_entry() {
    let mut backend = FakeSftpBackend::default();
    backend.insert(FsEntry::file("/a.txt", 5));
    backend.rename("/a.txt", "/docs/b.txt").unwrap();
    backend.mkdir("/docs").unwrap();
    let listing = backend.list_dir("/docs").unwrap();
    assert_eq!(listing.entries[0].name, "b.txt");
    assert_eq!(listing.entries[0].size_bytes, 5);
}

#[test]
fn entries_have_default_permissions_and_base_names() {
    let file = FsEntry::file("/srv/log.txt", 9);
    assert_eq!(file.name, "log.txt");
    assert_eq!(file.permissions, 0o644);
    assert_eq!(file.kind, FsEntryKind::File);
    let dir = FsEntry::directory("/srv/app");
    assert_eq!(dir.name, "app");
    assert_eq!(dir.permissions, 0o755);
    let root = FsEntry::directory("/");
    assert_eq!(root.name, "");
    let edit = RemoteEditSession { remote_path: "/r".to_owned(), local_temp_path: "/l".to_owned() };
    assert_eq!(edit.clone(), edit);
    let e = SftpError::new(SftpErrorKind::Backend, "x");
    assert_eq!(e.describe(), "Backend: x");
}
