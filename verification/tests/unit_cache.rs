use chasqui::cache::SyncCache;
use chasqui::domain::Page;

fn page(filename: &str, identifier: &str, html: &str) -> Page {
    Page {
        identifier: identifier.to_string(),
        filename: filename.to_string(),
        name: None,
        html_content: html.to_string(),
        md_content: String::new(),
        md_content_hash: String::new(),
        tags: vec![],
        modified_datetime: None,
        created_datetime: None,
    }
}

#[test]
fn cache_holds_one_page_per_filename() {
    let mut cache = SyncCache::new();
    assert_eq!(cache.len(), 0);
    cache.insert(page("a.md", "a", "one"));
    cache.insert(page("b.md", "b", "two"));
    cache.insert(page("a.md", "a2", "three"));
    assert_eq!(cache.len(), 2);
    assert_eq!(cache.get_by_filename("a.md"), Some(page("a.md", "a2", "three")));
    assert_eq!(cache.get_by_filename("b.md"), Some(page("b.md", "b", "two")));
    assert_eq!(cache.get_by_filename("c.md"), None);
}

#[test]
fn cache_remove_and_snapshot() {
    let mut cache = SyncCache::new();
    cache.insert(page("a.md", "a", "one"));
    cache.insert(page("b.md", "b", "two"));
    cache.insert(page("c.md", "c", "three"));
    cache.remove("b.md");
    cache.remove("missing.md");
    let mut all = cache.snapshot_all();
    all.sort_by(|x, y| x.filename.cmp(&y.filename));
    assert_eq!(all, vec![page("a.md", "a", "one"), page("c.md", "c", "three")]);

    // a snapshot is independent of what happens to the cache afterwards
    cache.remove("a.md");
    cache.insert(page("c.md", "c", "changed"));
    assert_eq!(all.len(), 2);
    assert_eq!(all[1].html_content, "three");
    assert_eq!(cache.len(), 1);
}

#[test]
fn cache_with_many_pages_keeps_each_under_its_name() {
    let mut cache = SyncCache::new();
    for i in 0..500 {
        cache.insert(page(&format!("dir/file_{}.md", i), &format!("id-{}", i), "first"));
    }
    for i in (0..500).step_by(2) {
        cache.insert(page(&format!("dir/file_{}.md", i), &format!("id-{}", i), "second"));
    }
    for i in (0..500).step_by(5) {
        cache.remove(&format!("dir/file_{}.md", i));
    }
    assert_eq!(cache.len(), 400);
    let all = cache.snapshot_all();
    assert_eq!(all.len(), 400);
    for i in 0..500 {
        let name = format!("dir/file_{}.md", i);
        let got = cache.get_by_filename(&name);
        if i % 5 == 0 {
            assert_eq!(got, None);
            assert!(all.iter().all(|p| p.filename != name));
        } else {
            let expected = page(&name, &format!("id-{}", i), if i % 2 == 0 { "second" } else { "first" });
            assert_eq!(got, Some(expected.clone()));
            assert_eq!(all.iter().filter(|p| **p == expected).count(), 1);
        }
    }
}
