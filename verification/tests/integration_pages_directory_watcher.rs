use chasqui::batch::{Batch, BatchAction, BatchEvent, FileContent};
use chasqui::config::ChasquiConfig;
use chasqui::io::ContentMetadata;
use chasqui::sync::SyncService;
use chasqui::notifier::{authorization_header, build_accepted};
use chasqui::watcher::{
    accepts_path, command_for_event, raises_full_sync, FileEventKind, SendOutcome, SyncCommand,
    WatcherWorker, WorkerAction, WorkerEvent, CHANNEL_CAPACITY, DEBOUNCE_MS,
};
use std::collections::{BTreeMap, VecDeque};

// The worker's surroundings, in memory: files, a command queue, the
// full-sync flag and a notifier that counts its calls.
struct Harness {
    service: SyncService,
    files: BTreeMap<String, String>,
    queue: VecDeque<SyncCommand>,
    needs_full_sync: bool,
    notifications: usize,
    batches: usize,
    full_syncs: usize,
}

fn setup() -> Harness {
    let config = ChasquiConfig {
        database_url: "".into(),
        max_connections: 1,
        frontend_path: "".into(),
        content_dir: "/content".into(),
        strip_extensions: false,
        serve_home: true,
        home_identifier: "index".into(),
        webhook_url: "".into(),
        webhook_secret: "".into(),
    };
    Harness {
        service: SyncService::new(config, vec![]),
        files: BTreeMap::new(),
        queue: VecDeque::new(),
        needs_full_sync: false,
        notifications: 0,
        batches: 0,
        full_syncs: 0,
    }
}

impl Harness {
    fn add_file(&mut self, path: &str, content: &str) {
        self.files.insert(path.to_string(), content.to_string());
    }

    fn send(&mut self, command: SyncCommand) {
        let outcome = if self.queue.len() >= CHANNEL_CAPACITY {
            SendOutcome::Full
        } else {
            self.queue.push_back(command);
            SendOutcome::Sent
        };
        if raises_full_sync(outcome) {
            self.needs_full_sync = true;
        }
    }

    fn run_batch(&mut self, mut batch: Batch) -> bool {
        let mut event = BatchEvent::Begin;
        loop {
            match self.service.process_batch(&mut batch, event) {
                BatchAction::DeletePage { .. } => event = BatchEvent::Deleted { ok: true },
                BatchAction::ReadFile { path } => {
                    let content = self.files.get(&path).map(|raw| FileContent {
                        raw_markdown: raw.clone(),
                        metadata: ContentMetadata { modified: None, created: None },
                    });
                    event = BatchEvent::FileRead { content };
                }
                BatchAction::SavePage { .. } => event = BatchEvent::Saved { ok: true },
                BatchAction::Finished { report } => return report.is_success(),
            }
        }
    }

    // Runs the worker until the queue is empty and the channel is closed.
    fn run_worker(&mut self) {
        let mut worker = WatcherWorker::new();
        let mut action = WorkerAction::Receive;
        loop {
            let event = match action {
                WorkerAction::Receive => match self.queue.pop_front() {
                    Some(command) => WorkerEvent::Received(command),
                    None => WorkerEvent::Closed,
                },
                WorkerAction::ReceiveWithin { millis } => {
                    assert_eq!(millis, DEBOUNCE_MS);
                    match self.queue.pop_front() {
                        Some(command) => WorkerEvent::Received(command),
                        None => {
                            let flag = self.needs_full_sync;
                            self.needs_full_sync = false;
                            WorkerEvent::Quiet { needs_full_sync: flag }
                        }
                    }
                }
                WorkerAction::FullSync => {
                    self.full_syncs += 1;
                    let batch = self.service.full_sync(self.files.keys().cloned().collect());
                    let ok = self.run_batch(batch);
                    WorkerEvent::Synced { ok }
                }
                WorkerAction::ProcessBatch { changes, deletions } => {
                    self.batches += 1;
                    let batch = self.service.start_batch(changes, deletions);
                    let ok = self.run_batch(batch);
                    WorkerEvent::Synced { ok }
                }
                WorkerAction::Notify => {
                    self.notifications += 1;
                    WorkerEvent::Notified
                }
                WorkerAction::Stop => return,
            };
            action = worker.step(event);
        }
    }
}

#[test]
fn test_watcher_worker_batching() {
    let mut h = setup();
    for i in 0..50 {
        let path = format!("/content/file_{}.md", i);
        h.add_file(&path, "# Content");
        h.send(SyncCommand::SingleFile(path));
    }
    h.run_worker();

    assert_eq!(h.service.get_all_pages().len(), 50);
    assert_eq!(h.notifications, 1);
    assert_eq!(h.batches, 1);
}

#[test]
fn test_watcher_worker_full_sync_trigger() {
    let mut h = setup();
    h.needs_full_sync = true;

    h.add_file("/content/trigger.md", "# Trigger");
    h.send(SyncCommand::SingleFile("/content/trigger.md".to_string()));
    h.add_file("/content/background.md", "# Existed already");

    h.run_worker();

    assert_eq!(h.service.get_all_pages().len(), 2);
    assert_eq!(h.full_syncs, 1);
    assert_eq!(h.batches, 0);
    assert!(!h.needs_full_sync);
}

#[test]
fn test_watcher_worker_redundant_commands() {
    let mut h = setup();
    h.add_file("/content/redundant.md", "# Content");
    for _ in 0..20 {
        h.send(SyncCommand::SingleFile("/content/redundant.md".to_string()));
    }
    h.run_worker();

    assert_eq!(h.service.get_all_pages().len(), 1);
    assert_eq!(h.notifications, 1);
}

#[test]
fn test_watcher_worker_add_delete_recreate_cancellation() {
    let mut h = setup();
    let path = "/content/flicker.md".to_string();

    h.add_file("/content/flicker.md", "# Version 1");
    h.send(SyncCommand::SingleFile(path.clone()));
    h.send(SyncCommand::DeleteFile(path.clone()));
    h.add_file("/content/flicker.md", "# Version 2");
    h.send(SyncCommand::SingleFile(path.clone()));

    h.run_worker();

    let page = h.service.get_page_by_identifier("flicker").unwrap();
    assert_eq!(page.html_content.trim(), "<h1>Version 2</h1>");
}

#[test]
fn channel_overflow_leads_to_one_full_sync() {
    let mut h = setup();
    for i in 0..130 {
        let path = format!("/content/many_{}.md", i);
        h.add_file(&path, "text");
        h.send(SyncCommand::SingleFile(path));
    }
    assert_eq!(h.queue.len(), CHANNEL_CAPACITY);
    assert!(h.needs_full_sync);
    h.run_worker();
    // the queued events were set aside; the full sync found every file
    assert_eq!(h.full_syncs, 1);
    assert_eq!(h.batches, 0);
    assert_eq!(h.service.get_all_pages().len(), 130);
    assert_eq!(h.notifications, 1);
}

#[test]
fn last_command_for_a_path_wins() {
    let mut worker = WatcherWorker::new();
    let a = "/content/a.md".to_string();
    let b = "/content/b.md".to_string();
    worker.step(WorkerEvent::Received(SyncCommand::SingleFile(a.clone())));
    worker.step(WorkerEvent::Received(SyncCommand::SingleFile(b.clone())));
    worker.step(WorkerEvent::Received(SyncCommand::DeleteFile(a.clone())));
    match worker.step(WorkerEvent::Quiet { needs_full_sync: false }) {
        WorkerAction::ProcessBatch { changes, deletions } => {
            assert_eq!(changes, vec![b]);
            assert_eq!(deletions, vec![a]);
        }
        other => panic!("expected a batch, got {:?}", other),
    }
}

#[test]
fn worker_notifies_only_after_a_run_that_succeeded() {
    let mut worker = WatcherWorker::new();
    assert!(matches!(
        worker.step(WorkerEvent::Received(SyncCommand::SingleFile("/content/a.md".into()))),
        WorkerAction::ReceiveWithin { millis: 1500 }
    ));
    assert!(matches!(
        worker.step(WorkerEvent::Quiet { needs_full_sync: false }),
        WorkerAction::ProcessBatch { .. }
    ));
    assert!(matches!(worker.step(WorkerEvent::Synced { ok: false }), WorkerAction::Receive));

    worker.step(WorkerEvent::Received(SyncCommand::DeleteFile("/content/a.md".into())));
    assert!(matches!(
        worker.step(WorkerEvent::Quiet { needs_full_sync: true }),
        WorkerAction::FullSync
    ));
    assert!(matches!(worker.step(WorkerEvent::Synced { ok: true }), WorkerAction::Notify));
    assert!(matches!(worker.step(WorkerEvent::Notified), WorkerAction::Receive));
    assert!(matches!(worker.step(WorkerEvent::Closed), WorkerAction::Stop));
    assert!(matches!(
        worker.step(WorkerEvent::Received(SyncCommand::SingleFile("/content/late.md".into()))),
        WorkerAction::Stop
    ));
}

#[test]
fn idle_worker_stops_when_the_channel_closes() {
    let mut worker = WatcherWorker::new();
    assert!(matches!(worker.step(WorkerEvent::Notified), WorkerAction::Receive));
    assert!(matches!(worker.step(WorkerEvent::Closed), WorkerAction::Stop));
}

#[test]
fn only_markdown_sources_are_watched() {
    assert!(accepts_path("/content/post.md"));
    assert!(accepts_path("relative/dir/a.b.md"));
    assert!(!accepts_path("/content/.hidden.md"));
    assert!(!accepts_path("/content/post.md~"));
    assert!(!accepts_path("/content/post.markdown"));
    assert!(!accepts_path("/content/post.MD"));
    assert!(!accepts_path("/content/post"));
    assert!(!accepts_path("/content/.md"));
    assert!(!accepts_path("/content/dir.md/.."));
    assert!(!accepts_path(""));
    assert!(accepts_path("/content/~draft.md"));
}

#[test]
fn file_events_become_commands() {
    let path = "/content/a.md";
    assert!(matches!(
        command_for_event(FileEventKind::Create, path),
        Some(SyncCommand::SingleFile(p)) if p == path
    ));
    assert!(matches!(
        command_for_event(FileEventKind::Modify, path),
        Some(SyncCommand::SingleFile(p)) if p == path
    ));
    assert!(matches!(
        command_for_event(FileEventKind::Remove, path),
        Some(SyncCommand::DeleteFile(p)) if p == path
    ));
    assert!(command_for_event(FileEventKind::Other, path).is_none());
    assert!(command_for_event(FileEventKind::Create, "/content/a.txt").is_none());
    assert!(command_for_event(FileEventKind::Remove, "/content/.a.md").is_none());
}

#[test]
fn only_a_full_channel_raises_the_flag() {
    assert!(raises_full_sync(SendOutcome::Full));
    assert!(!raises_full_sync(SendOutcome::Sent));
    assert!(!raises_full_sync(SendOutcome::Closed));
}

#[test]
fn build_request_carries_the_bearer_secret_and_succeeds_on_2xx() {
    assert_eq!(authorization_header("secret"), "Bearer secret");
    assert_eq!(authorization_header(""), "Bearer ");
    for status in [200u16, 201, 204, 299] {
        assert!(build_accepted(status));
    }
    for status in [0u16, 100, 199, 300, 301, 404, 500, u16::MAX] {
        assert!(!build_accepted(status));
    }
}

#[test]
fn a_close_ends_the_gathering() {
    let mut worker = WatcherWorker::new();
    worker.step(WorkerEvent::Received(SyncCommand::SingleFile("/content/a.md".into())));
    match worker.step(WorkerEvent::Closed) {
        WorkerAction::ProcessBatch { changes, deletions } => {
            assert_eq!(changes, vec!["/content/a.md".to_string()]);
            assert!(deletions.is_empty());
        }
        other => panic!("expected a batch, got {:?}", other),
    }
    assert!(matches!(worker.step(WorkerEvent::Synced { ok: true }), WorkerAction::Notify));
    assert!(matches!(worker.step(WorkerEvent::Notified), WorkerAction::Receive));
    assert!(matches!(worker.step(WorkerEvent::Closed), WorkerAction::Stop));
}
