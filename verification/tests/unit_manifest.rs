use chasqui::config::ChasquiConfig;
use chasqui::manifest::{normalize_path_string, Manifest};

fn config(serve_home: bool) -> ChasquiConfig {
    ChasquiConfig {
        database_url: String::new(),
        max_connections: 1,
        frontend_path: String::new(),
        content_dir: "/content".to_string(),
        strip_extensions: false,
        serve_home,
        home_identifier: "index".to_string(),
        webhook_url: String::new(),
        webhook_secret: String::new(),
    }
}

fn sample() -> Manifest {
    let mut m = Manifest::new();
    m.insert("post1.md".to_string(), "hello".to_string());
    m.insert("blog/deep/post.md".to_string(), "deep".to_string());
    m.insert("blog/about.md".to_string(), "about".to_string());
    m.insert("index.md".to_string(), "index".to_string());
    m
}

#[test]
fn manifest_maps_both_ways() {
    let m = sample();
    assert_eq!(m.get_identifier_for_filename("post1.md"), Some("hello".to_string()));
    assert_eq!(m.get_filename_for_identifier("hello"), Some("post1.md".to_string()));
    assert!(m.has_identifier("deep"));
    assert!(!m.has_identifier("post1.md"));
    assert_eq!(m.get_identifier_for_filename("hello"), None);
    assert_eq!(m.get_filename_for_identifier("nobody"), None);
}

#[test]
fn insert_removes_stale_pairs_in_both_directions() {
    let mut m = sample();
    // the file gets a new identifier: the old one is free again
    m.insert("post1.md".to_string(), "renamed".to_string());
    assert_eq!(m.get_identifier_for_filename("post1.md"), Some("renamed".to_string()));
    assert!(!m.has_identifier("hello"));
    assert_eq!(m.get_filename_for_identifier("renamed"), Some("post1.md".to_string()));

    // the identifier moves to another file: the old file is forgotten
    m.insert("moved.md".to_string(), "renamed".to_string());
    assert_eq!(m.get_filename_for_identifier("renamed"), Some("moved.md".to_string()));
    assert_eq!(m.get_identifier_for_filename("post1.md"), None);

    // binding the same pair again changes nothing
    m.insert("moved.md".to_string(), "renamed".to_string());
    assert_eq!(m.get_filename_for_identifier("renamed"), Some("moved.md".to_string()));
    assert_eq!(m.get_identifier_for_filename("moved.md"), Some("renamed".to_string()));
}

#[test]
fn remove_by_filename_removes_the_reverse_entry() {
    let mut m = sample();
    m.remove_by_filename("post1.md");
    assert_eq!(m.get_identifier_for_filename("post1.md"), None);
    assert!(!m.has_identifier("hello"));
    assert!(m.has_identifier("deep"));
    // removing what is not there is harmless
    m.remove_by_filename("post1.md");
    m.remove_by_filename("never.md");
    assert!(m.has_identifier("about"));
}

#[test]
fn external_links_come_back_unchanged() {
    let m = sample();
    let c = config(true);
    for link in [
        "http://example.org/post1.md",
        "https://example.org",
        "mailto:someone@example.org",
        "#section",
        "#",
    ] {
        let once = m.resolve_link(link, "blog/about.md", &c);
        assert_eq!(once, link);
        assert_eq!(m.resolve_link(&once, "blog/about.md", &c), once);
    }
}

#[test]
fn links_resolve_by_filename_then_by_identifier() {
    let m = sample();
    let c = config(false);
    assert_eq!(m.resolve_link("post1.md", "post2.md", &c), "/hello");
    assert_eq!(m.resolve_link("/post1.md", "post2.md", &c), "/hello");
    assert_eq!(m.resolve_link("hello", "post2.md", &c), "/hello");
    assert_eq!(m.resolve_link("/hello", "post2.md", &c), "/hello");
    assert_eq!(m.resolve_link("post1.md#top", "post2.md", &c), "/hello#top");
    assert_eq!(m.resolve_link("post1.md#a#b", "post2.md", &c), "/hello#a#b");
    assert_eq!(m.resolve_link("post1.md#", "post2.md", &c), "/hello#");
    assert_eq!(m.resolve_link("index.md", "post2.md", &c), "/index");
}

#[test]
fn broken_links_come_back_verbatim() {
    let m = sample();
    let c = config(true);
    assert_eq!(m.resolve_link("void.md", "broken.md", &c), "void.md");
    assert_eq!(m.resolve_link("void.md#part", "broken.md", &c), "void.md#part");
    assert_eq!(m.resolve_link("/void", "broken.md", &c), "/void");
    assert_eq!(m.resolve_link("../void.md", "blog/about.md", &c), "../void.md");
    assert_eq!(m.resolve_link("", "broken.md", &c), "");
    // only one leading slash is taken off
    assert_eq!(m.resolve_link("//post1.md", "broken.md", &c), "//post1.md");
}

#[test]
fn relative_links_resolve_against_the_directory_of_the_file() {
    let m = sample();
    let c = config(false);
    assert_eq!(m.resolve_link("./about.md", "blog/other.md", &c), "/about");
    assert_eq!(m.resolve_link("../post1.md", "blog/other.md", &c), "/hello");
    assert_eq!(m.resolve_link("../../post1.md", "blog/deep/post.md", &c), "/hello");
    assert_eq!(m.resolve_link("./deep/post.md#x", "blog/about.md", &c), "/deep#x");
    assert_eq!(m.resolve_link("../blog/./deep/../about.md", "blog/other.md", &c), "/about");
    // a link that climbs above the content root is left as it was written
    assert_eq!(m.resolve_link("../../../post1.md", "blog/other.md", &c), "../../../post1.md");
    assert_eq!(m.resolve_link("../post1.md", "other.md", &c), "../post1.md");
    assert_eq!(m.resolve_link("../post1.md#top", "other.md", &c), "../post1.md#top");
    // so is one that dips above the root and comes back down
    assert_eq!(m.resolve_link("../../blog/about.md", "blog/other.md", &c), "../../blog/about.md");
    // going down first and then up as far stays inside
    assert_eq!(m.resolve_link("./deep/../../post1.md", "blog/other.md", &c), "/hello");
    // without the dot the link is looked up as it is written
    assert_eq!(m.resolve_link("about.md", "blog/other.md", &c), "about.md");
}

#[test]
fn home_page_is_served_at_the_root() {
    let m = sample();
    assert_eq!(m.resolve_link("index.md", "post1.md", &config(true)), "/");
    assert_eq!(m.resolve_link("index.md#news", "post1.md", &config(true)), "/#news");
    assert_eq!(m.resolve_link("index", "post1.md", &config(true)), "/");
    assert_eq!(m.resolve_link("index.md", "post1.md", &config(false)), "/index");
    assert_eq!(m.resolve_link("post1.md", "index.md", &config(true)), "/hello");
}

#[test]
fn resolved_identifier_urls_resolve_to_themselves() {
    let m = sample();
    let c = config(false);
    for id in ["hello", "deep", "about", "index"] {
        let url = format!("/{}", id);
        assert_eq!(m.resolve_link(&url, "post1.md", &c), url);
    }
}

#[test]
fn paths_are_normalized_lexically() {
    assert_eq!(normalize_path_string("a/b/../c"), "a/c");
    assert_eq!(normalize_path_string("./a/./b"), "a/b");
    assert_eq!(normalize_path_string("a//b/"), "a/b");
    assert_eq!(normalize_path_string("../a"), "a");
    assert_eq!(normalize_path_string("a/../.."), "");
    assert_eq!(normalize_path_string("/a/b"), "a/b");
    assert_eq!(normalize_path_string(""), "");
    assert_eq!(normalize_path_string("a/..b/c"), "a/..b/c");
}

#[test]
fn link_above_the_root_is_not_resolved() {
    let mut m = Manifest::new();
    m.insert("x.md".to_string(), "x".to_string());
    let c = config(false);
    assert_eq!(m.resolve_link("../x.md", "a.md", &c), "../x.md");
    assert_eq!(m.resolve_link("./x.md", "a.md", &c), "/x");
    assert_eq!(m.resolve_link("../x.md", "dir/a.md", &c), "/x");
    assert_eq!(m.resolve_link("../../x.md", "dir/a.md", &c), "../../x.md");
}
