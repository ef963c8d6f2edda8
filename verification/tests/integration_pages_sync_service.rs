use chasqui::batch::{Batch, BatchAction, BatchEvent, BatchReport, FileContent};
use chasqui::config::ChasquiConfig;
use chasqui::domain::{Page, Timestamp};
use chasqui::io::ContentMetadata;
use chasqui::markdown::PageFrontMatter;
use chasqui::sync::{
    assemble_draft, discover_page_draft, page_from_draft, SyncError, SyncService,
};
use std::collections::{BTreeMap, BTreeSet};

// An in-memory stand-in for the file system and the repository.
struct World {
    files: BTreeMap<String, (String, ContentMetadata)>,
    repo: BTreeMap<String, Page>,
    refuse_delete: BTreeSet<String>,
    refuse_save: BTreeSet<String>,
}

impl World {
    fn new() -> World {
        World {
            files: BTreeMap::new(),
            repo: BTreeMap::new(),
            refuse_delete: BTreeSet::new(),
            refuse_save: BTreeSet::new(),
        }
    }

    fn add_file(&mut self, path: &str, content: &str) {
        let metadata = ContentMetadata { modified: None, created: None };
        self.files.insert(path.to_string(), (content.to_string(), metadata));
    }

    fn listed(&self) -> Vec<String> {
        self.files.keys().cloned().collect()
    }
}

fn mock_config(content_dir: &str) -> ChasquiConfig {
    ChasquiConfig {
        database_url: "".into(),
        max_connections: 1,
        frontend_path: "".into(),
        content_dir: content_dir.into(),
        strip_extensions: false,
        serve_home: true,
        home_identifier: "index".into(),
        webhook_url: "http://localhost/build".into(),
        webhook_secret: "secret".into(),
    }
}

fn run(service: &mut SyncService, world: &mut World, mut batch: Batch) -> BatchReport {
    let mut event = BatchEvent::Begin;
    loop {
        match service.process_batch(&mut batch, event) {
            BatchAction::DeletePage { filename } => {
                let ok = !world.refuse_delete.contains(&filename);
                if ok {
                    world.repo.remove(&filename);
                }
                event = BatchEvent::Deleted { ok };
            }
            BatchAction::ReadFile { path } => {
                let content = world.files.get(&path).map(|(raw, metadata)| FileContent {
                    raw_markdown: raw.clone(),
                    metadata: *metadata,
                });
                event = BatchEvent::FileRead { content };
            }
            BatchAction::SavePage { page } => {
                let ok = !world.refuse_save.contains(&page.filename);
                if ok {
                    world.repo.insert(page.filename.clone(), page);
                }
                event = BatchEvent::Saved { ok };
            }
            BatchAction::Finished { report } => return report,
        }
    }
}

fn full_sync(service: &mut SyncService, world: &mut World) -> BatchReport {
    let batch = service.full_sync(world.listed());
    run(service, world, batch)
}

fn process_batch(
    service: &mut SyncService,
    world: &mut World,
    changes: Vec<&str>,
    deletions: Vec<&str>,
) -> BatchReport {
    let batch = service.start_batch(
        changes.into_iter().map(String::from).collect(),
        deletions.into_iter().map(String::from).collect(),
    );
    run(service, world, batch)
}

#[test]
fn test_sync_service_discovery_and_ingestion() {
    let mut world = World::new();
    world.add_file("/content/post1.md", "---\nidentifier: hello\n---\n# World");
    world.add_file("/content/post2.md", "# Post 2 with [link](post1.md)");

    let mut service = SyncService::new(mock_config("/content"), vec![]);
    let report = full_sync(&mut service, &mut world);
    assert!(report.is_success());

    let pages = service.get_all_pages();
    assert_eq!(pages.len(), 2);

    let post2 = service.get_page_by_identifier("post2").unwrap();
    assert!(post2.html_content.contains(r#"href="/hello""#));
    assert_eq!(world.repo.len(), 2);
}

#[test]
fn test_sync_service_chaos_and_resilience() {
    let mut world = World::new();
    let mut service = SyncService::new(mock_config("/content"), vec![]);

    // circular links
    world.add_file("/content/a.md", "[Go to B](b.md)");
    world.add_file("/content/b.md", "[Go to A](a.md)");
    full_sync(&mut service, &mut world);

    let page_a = service.get_page_by_identifier("a").unwrap();
    let page_b = service.get_page_by_identifier("b").unwrap();
    assert!(page_a.html_content.contains(r#"href="/b""#));
    assert!(page_b.html_content.contains(r#"href="/a""#));

    // rename with the same identifier
    world.add_file("/content/c.md", "---\nidentifier: a\n---\nNew location");
    let report =
        process_batch(&mut service, &mut world, vec!["/content/c.md"], vec!["/content/a.md"]);
    assert!(report.is_success());

    let updated_a = service.get_page_by_identifier("a").unwrap();
    assert_eq!(updated_a.filename, "c.md");
    assert!(service.get_all_pages().iter().all(|p| p.filename != "a.md"));
    assert!(!world.repo.contains_key("a.md"));

    // a broken link stays as it was written
    world.add_file("/content/broken.md", "[Nowhere](void.md)");
    process_batch(&mut service, &mut world, vec!["/content/broken.md"], vec![]);

    let broken_page = service.get_page_by_identifier("broken").unwrap();
    assert!(broken_page.html_content.contains(r#"href="void.md""#));
}

#[test]
fn test_sync_service_identifier_collision_reject_both() {
    let mut world = World::new();
    let mut service = SyncService::new(mock_config("/content"), vec![]);

    world.add_file("/content/a.md", "---\nidentifier: collision\n---\n# A");
    world.add_file("/content/b.md", "---\nidentifier: collision\n---\n# B");

    full_sync(&mut service, &mut world);

    let pages = service.get_all_pages();
    assert_eq!(pages.len(), 0);
    assert!(service.get_page_by_identifier("collision").is_none());
    assert!(world.repo.is_empty());
}

#[test]
fn collision_with_a_known_page_rejects_the_newcomer() {
    let mut world = World::new();
    let mut service = SyncService::new(mock_config("/content"), vec![]);
    world.add_file("/content/first.md", "---\nidentifier: taken\n---\nfirst");
    full_sync(&mut service, &mut world);

    world.add_file("/content/second.md", "---\nidentifier: taken\n---\nsecond");
    world.add_file("/content/third.md", "third");
    let report = process_batch(
        &mut service,
        &mut world,
        vec!["/content/second.md", "/content/third.md"],
        vec![],
    );
    assert!(report.is_success());
    assert_eq!(service.get_page_by_identifier("taken").unwrap().filename, "first.md");
    assert_eq!(service.get_all_pages().len(), 2);
    assert!(service.get_page_by_identifier("third").is_some());

    // the owner itself may come again
    world.add_file("/content/first.md", "---\nidentifier: taken\n---\nfirst, edited");
    process_batch(&mut service, &mut world, vec!["/content/first.md"], vec![]);
    assert!(service.get_page_by_identifier("taken").unwrap().md_content.contains("edited"));
}

#[test]
fn empty_batch_changes_nothing() {
    let mut world = World::new();
    let mut service = SyncService::new(mock_config("/content"), vec![]);
    world.add_file("/content/a.md", "text");
    full_sync(&mut service, &mut world);
    let before = service.get_all_pages();

    let batch = service.start_batch(vec![], vec![]);
    // the very first step already says that the batch is over
    let mut batch = batch;
    match service.process_batch(&mut batch, BatchEvent::Begin) {
        BatchAction::Finished { report } => {
            assert!(report.is_success());
            assert_eq!(report.skipped, 0);
        }
        other => panic!("an empty batch asked for {:?}", other),
    }
    assert_eq!(service.get_all_pages(), before);
    assert_eq!(world.repo.len(), 1);
}

#[test]
fn failed_deletion_aborts_the_batch() {
    let mut world = World::new();
    let mut service = SyncService::new(mock_config("/content"), vec![]);
    world.add_file("/content/a.md", "a");
    world.add_file("/content/b.md", "b");
    full_sync(&mut service, &mut world);

    world.refuse_delete.insert("a.md".to_string());
    world.add_file("/content/c.md", "c");
    let report = process_batch(
        &mut service,
        &mut world,
        vec!["/content/c.md"],
        vec!["/content/b.md", "/content/a.md", "/content/never-reached.md"],
    );
    assert!(report.aborted);
    assert!(!report.is_success());
    // b was deleted before the failure, a stays, c was never read
    assert!(service.get_page_by_identifier("b").is_none());
    assert!(service.get_page_by_identifier("a").is_some());
    assert!(service.get_page_by_identifier("c").is_none());
}

#[test]
fn unreadable_and_foreign_files_are_skipped() {
    let mut world = World::new();
    let mut service = SyncService::new(mock_config("/content"), vec![]);
    world.add_file("/content/good.md", "good");
    world.add_file("/elsewhere/alien.md", "alien");
    let report = process_batch(
        &mut service,
        &mut world,
        vec!["/content/missing.md", "/elsewhere/alien.md", "/content/good.md"],
        vec![],
    );
    assert!(report.is_success());
    assert_eq!(report.skipped, 2);
    assert_eq!(service.get_all_pages().len(), 1);
    assert!(service.get_page_by_identifier("good").is_some());
}

#[test]
fn failed_save_keeps_the_page_out_of_the_cache_and_the_rest_goes_on() {
    let mut world = World::new();
    let mut service = SyncService::new(mock_config("/content"), vec![]);
    world.add_file("/content/a.md", "a");
    world.add_file("/content/b.md", "b");
    world.add_file("/content/c.md", "c");
    world.refuse_save.insert("b.md".to_string());
    let report = full_sync(&mut service, &mut world);
    assert!(!report.aborted);
    assert_eq!(report.failed_saves, 1);
    assert!(!report.is_success());
    assert!(service.get_page_by_identifier("a").is_some());
    assert!(service.get_page_by_identifier("b").is_none());
    assert!(service.get_page_by_identifier("c").is_some());
    assert_eq!(world.repo.len(), 2);
}

#[test]
fn two_single_batches_end_where_the_joint_batch_ends() {
    let mut world = World::new();
    world.add_file("/content/a.md", "---\nidentifier: first\n---\n[home](index.md)");
    world.add_file("/content/b.md", "---\nidentifier: second\n---\n[a](a.md)");

    let mut one = SyncService::new(mock_config("/content"), vec![]);
    process_batch(&mut one, &mut world, vec!["/content/a.md"], vec![]);
    process_batch(&mut one, &mut world, vec!["/content/b.md"], vec![]);

    let mut joint = SyncService::new(mock_config("/content"), vec![]);
    process_batch(&mut joint, &mut world, vec!["/content/a.md", "/content/b.md"], vec![]);

    let mut left = one.get_all_pages();
    let mut right = joint.get_all_pages();
    left.sort_by(|x, y| x.filename.cmp(&y.filename));
    right.sort_by(|x, y| x.filename.cmp(&y.filename));
    assert_eq!(left, right);
    assert_eq!(left.len(), 2);
}

#[test]
fn cache_and_manifest_agree_after_a_batch() {
    let mut world = World::new();
    let mut service = SyncService::new(mock_config("/content"), vec![]);
    world.add_file("/content/a.md", "a");
    world.add_file("/content/b.md", "---\nidentifier: bee\n---\nb");
    world.add_file("/content/dir/c.md", "c");
    full_sync(&mut service, &mut world);
    world.add_file("/content/a.md", "---\nidentifier: ay\n---\na again");
    process_batch(&mut service, &mut world, vec!["/content/a.md"], vec!["/content/b.md"]);

    let pages = service.get_all_pages();
    assert_eq!(pages.len(), 2);
    for page in pages {
        let served = service.get_page_by_identifier(&page.identifier).unwrap();
        assert_eq!(served, page);
    }
    assert!(service.get_page_by_identifier("a").is_none());
    assert!(service.get_page_by_identifier("bee").is_none());
    assert_eq!(service.get_page_by_identifier("ay").unwrap().filename, "a.md");
    assert_eq!(service.get_page_by_identifier("dir/c").unwrap().filename, "dir/c.md");
}

#[test]
fn service_starts_from_the_pages_of_the_repository() {
    let page = Page {
        identifier: "index".to_string(),
        filename: "home.md".to_string(),
        name: Some("Home".to_string()),
        html_content: "<p>home</p>".to_string(),
        md_content: "home".to_string(),
        md_content_hash: "0000000000000000".to_string(),
        tags: vec!["t".to_string()],
        modified_datetime: None,
        created_datetime: Timestamp::new(1, 2),
    };
    let service = SyncService::new(mock_config("/content"), vec![page.clone()]);
    assert_eq!(service.get_all_pages(), vec![page.clone()]);
    // the home page answers to the empty slug, to the slash and to its identifier
    assert_eq!(service.get_page_by_identifier(""), Some(page.clone()));
    assert_eq!(service.get_page_by_identifier("/"), Some(page.clone()));
    assert_eq!(service.get_page_by_identifier("index"), Some(page.clone()));
    assert_eq!(service.get_page_by_identifier("home.md"), None);

    let mut plain = mock_config("/content");
    plain.serve_home = false;
    let service = SyncService::new(plain, vec![page.clone()]);
    assert_eq!(service.get_page_by_identifier(""), None);
    assert_eq!(service.get_page_by_identifier("index"), Some(page));
}

#[test]
fn draft_takes_identifier_hash_and_dates_from_the_file() {
    let config = mock_config("/content");
    let metadata = ContentMetadata {
        modified: Timestamp::new(10, 0),
        created: Timestamp::new(20, 0),
    };
    let raw = "---\nname: Title\ncreated_datetime: 2023-01-01\ntags: [x]\n---\nbody";
    let draft = discover_page_draft(&config, "/content/blog/post.md", raw, &metadata).unwrap();
    assert_eq!(draft.filename, "blog/post.md");
    assert_eq!(draft.identifier, "blog/post");
    assert_eq!(draft.name, Some("Title".to_string()));
    assert_eq!(draft.content_body, "body");
    assert_eq!(draft.md_content_hash, format!("{:016x}", xxhash_rust::xxh3::xxh3_64(raw.as_bytes())));
    assert_eq!(draft.tags, vec!["x".to_string()]);
    assert_eq!(draft.modified_datetime, Timestamp::new(10, 0));
    assert_eq!(draft.created_datetime, Timestamp::new(1672531200, 0));

    let plain = discover_page_draft(&config, "/content/plain.md", "just text", &metadata).unwrap();
    assert_eq!(plain.identifier, "plain");
    assert!(plain.tags.is_empty());
    assert_eq!(plain.content_body, "just text");

    assert_eq!(
        discover_page_draft(&config, "/other/plain.md", "just text", &metadata).err(),
        Some(SyncError::ContentOutsideRoot)
    );
}

#[test]
fn deleted_file_outside_the_root_is_named_by_its_path() {
    let mut service = SyncService::new(mock_config("/content"), vec![]);
    assert_eq!(service.deleted_filename("/content/blog/a.md"), "blog/a.md");
    assert_eq!(service.deleted_filename("loose\\a.md"), "loose/a.md");
    assert_eq!(service.handle_file_deleted("/content/x.md"), "x.md");
}

#[test]
fn drafts_and_pages_are_put_together_from_their_parts() {
    let front_matter = PageFrontMatter {
        identifier: None,
        name: Some("N".to_string()),
        tags: None,
        modified_datetime: None,
        created_datetime: None,
    };
    let draft = assemble_draft(
        "dir\\file.md",
        front_matter,
        "body".to_string(),
        "00000000000000ff".to_string(),
        None,
        Timestamp::new(3, 4),
    );
    assert_eq!(draft.filename, "dir/file.md");
    assert_eq!(draft.identifier, "dir/file");
    assert_eq!(draft.name, Some("N".to_string()));
    assert!(draft.tags.is_empty());
    assert_eq!(draft.created_datetime, Timestamp::new(3, 4));

    let page = page_from_draft(draft, "<p>body</p>".to_string());
    assert_eq!(page.identifier, "dir/file");
    assert_eq!(page.filename, "dir/file.md");
    assert_eq!(page.html_content, "<p>body</p>");
    assert_eq!(page.md_content, "body");
    assert_eq!(page.md_content_hash, "00000000000000ff");
}

#[test]
fn validation_keeps_the_order_of_the_drafts() {
    let config = mock_config("/content");
    let metadata = ContentMetadata { modified: None, created: None };
    let draft = |path: &str, raw: &str| discover_page_draft(&config, path, raw, &metadata).unwrap();
    let service = SyncService::new(mock_config("/content"), vec![]);
    let valid = service.validate_batch_collisions(vec![
        draft("/content/z.md", "z"),
        draft("/content/dup1.md", "---\nidentifier: dup\n---\n"),
        draft("/content/a.md", "a"),
        draft("/content/dup2.md", "---\nidentifier: dup\n---\n"),
        draft("/content/m.md", "m"),
    ]);
    let names: Vec<&str> = valid.iter().map(|d| d.filename.as_str()).collect();
    assert_eq!(names, vec!["z.md", "a.md", "m.md"]);
}
