use chasqui::identity::{generate_default_identifier, generate_default_identifier_with, strip_root};
use chasqui::io::{verify_absolute_path, verify_relative_path};
use chasqui::manifest::normalize_path_string;
use chasqui::watcher::accepts_path;
use std::path::{Component, Path, PathBuf};

const SAMPLES: [&str; 30] = [
    "",
    ".",
    "..",
    "/",
    "a",
    "a.md",
    ".md",
    ".hidden.md",
    "a.md~",
    "a.b.md",
    "a.",
    "a..md",
    "dir/a.md",
    "dir/sub/a.md",
    "/content/a.md",
    "/content/dir/a.md",
    "/content",
    "/contents/a.md",
    "dir/..",
    "dir/.",
    "../a.md",
    "./a.md",
    "dir/../a.md",
    "dir/a.txt",
    "dir/a.MD",
    "dir.md/file",
    "noext",
    "dir/.md",
    "~a.md",
    "a b.md",
];

fn std_normalized(path: &str) -> String {
    let mut names: Vec<String> = Vec::new();
    for component in Path::new(path).components() {
        match component {
            Component::ParentDir => {
                names.pop();
            }
            Component::Normal(name) => names.push(name.to_string_lossy().to_string()),
            _ => {}
        }
    }
    names.join("/")
}

#[test]
fn default_identifier_agrees_with_the_standard_library() {
    for path in SAMPLES {
        let expected = Path::new(path).with_extension("").to_string_lossy().replace('\\', "/");
        assert_eq!(generate_default_identifier(path), expected, "{:?}", path);
        assert_eq!(generate_default_identifier_with(path, true), expected, "{:?}", path);
        assert_eq!(generate_default_identifier_with(path, false), path.replace('\\', "/"));
    }
}

#[test]
fn markdown_filter_agrees_with_the_standard_library() {
    for path in SAMPLES {
        let p = Path::new(path);
        let ext = p.extension().and_then(|s| s.to_str());
        let name = p.file_name().and_then(|s| s.to_str()).unwrap_or("");
        let expected = ext == Some("md") && !name.starts_with('.') && !name.ends_with('~');
        assert_eq!(accepts_path(path), expected, "{:?}", path);
    }
}

#[test]
fn containment_agrees_with_the_standard_library() {
    for root in ["/content", "/content/", "/", "", "content", "/content/dir"] {
        for path in SAMPLES {
            let expected = Path::new(path).starts_with(root);
            assert_eq!(verify_absolute_path(root, path).is_ok(), expected, "{:?}", (root, path));
            let stripped = Path::new(path).strip_prefix(root).ok();
            assert_eq!(
                strip_root(root, path),
                stripped.map(|p| p.to_string_lossy().to_string()),
                "{:?}",
                (root, path)
            );
        }
    }
}

#[test]
fn normal_form_agrees_with_the_standard_library() {
    for path in SAMPLES {
        assert_eq!(normalize_path_string(path), std_normalized(path), "{:?}", path);
        for link in ["./x.md", "../x.md", "../../x/./y.md", "./a/../b"] {
            let mut base = PathBuf::from(path);
            base.pop();
            // the walk of the link, from the depth of the directory of the file
            let mut depth: isize =
                base.components().filter(|c| matches!(c, Component::Normal(_))).count() as isize;
            let mut inside = true;
            for component in Path::new(link).components() {
                match component {
                    Component::Normal(_) => depth += 1,
                    Component::ParentDir => {
                        depth -= 1;
                        if depth < 0 {
                            inside = false;
                            break;
                        }
                    }
                    _ => {}
                }
            }
            // resolving a relative link is normalizing the directory and the link together
            let joined = base.join(link);
            let mut m = chasqui::manifest::Manifest::new();
            let key = std_normalized(&joined.to_string_lossy());
            m.insert(key.clone(), "target".to_string());
            let config = chasqui::config::ChasquiConfig {
                database_url: String::new(),
                max_connections: 1,
                frontend_path: String::new(),
                content_dir: "/content".to_string(),
                strip_extensions: false,
                serve_home: false,
                home_identifier: "index".to_string(),
                webhook_url: String::new(),
                webhook_secret: String::new(),
            };
            let expected = if inside { "/target" } else { link };
            assert_eq!(m.resolve_link(link, path, &config), expected, "{:?}", (path, link, key));
        }
    }
}

#[test]
fn relative_verification_agrees_with_the_standard_library() {
    for base in SAMPLES {
        for link in ["x.md", "../x.md", "../../x.md", "a/../../x", "./x", "", "/abs/x", "a/b/../../../x"] {
            let mut depth: isize = Path::new(base)
                .parent()
                .map(|p| p.components().filter(|c| matches!(c, Component::Normal(_))).count() as isize)
                .unwrap_or(0);
            let mut ok = true;
            for component in Path::new(link).components() {
                match component {
                    Component::Normal(_) => depth += 1,
                    Component::ParentDir => {
                        depth -= 1;
                        if depth < 0 {
                            ok = false;
                            break;
                        }
                    }
                    _ => {}
                }
            }
            let got = verify_relative_path("/content", base, link);
            assert_eq!(got.is_ok(), ok, "{:?}", (base, link));
            if let Ok(path) = got {
                let mut expected = PathBuf::from("/content");
                if let Some(parent) = Path::new(base).parent() {
                    expected.push(parent);
                }
                expected.push(link);
                assert_eq!(path.as_path(), expected.to_string_lossy(), "{:?}", (base, link));
            }
        }
    }
}
