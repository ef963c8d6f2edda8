use chasqui::config::{
    connections_or_default, content_dir_setting, or_default, parse_u32, switch_on, ChasquiConfig,
    Settings,
};

fn bare() -> Settings {
    Settings {
        database_url: "sqlite://db/dev.db".to_string(),
        max_connections: None,
        frontend_dist_path: "/srv/dist".to_string(),
        content_dir: "/srv/content".to_string(),
        default_identifier_strip_extension: None,
        serve_home: None,
        home_identifier: None,
        frontend_webhook_url: None,
        webhook_secret: None,
    }
}

#[test]
fn unset_variables_take_their_defaults() {
    let config = ChasquiConfig::from_settings(bare());
    assert_eq!(config.database_url, "sqlite://db/dev.db");
    assert_eq!(config.max_connections, 15);
    assert_eq!(config.frontend_path, "/srv/dist");
    assert_eq!(config.content_dir, "/srv/content");
    assert!(!config.strip_extensions);
    assert!(!config.serve_home);
    assert_eq!(config.home_identifier, "index");
    assert_eq!(config.webhook_url, "http://127.0.0.1:4000/build");
    assert_eq!(config.webhook_secret, "");
}

#[test]
fn set_variables_are_taken_over() {
    let mut settings = bare();
    settings.max_connections = Some("42".to_string());
    settings.default_identifier_strip_extension = Some("true".to_string());
    settings.serve_home = Some("true".to_string());
    settings.home_identifier = Some("start".to_string());
    settings.frontend_webhook_url = Some("http://front/build".to_string());
    settings.webhook_secret = Some("s3".to_string());
    let config = ChasquiConfig::from_settings(settings);
    assert_eq!(config.max_connections, 42);
    assert!(config.strip_extensions);
    assert!(config.serve_home);
    assert_eq!(config.home_identifier, "start");
    assert_eq!(config.webhook_url, "http://front/build");
    assert_eq!(config.webhook_secret, "s3");

    let copy = config.clone();
    assert_eq!(copy.max_connections, 42);
    assert_eq!(copy.home_identifier, "start");
    assert_eq!(copy.content_dir, config.content_dir);
}

#[test]
fn connections_that_are_no_number_fall_back_to_fifteen() {
    for (text, expected) in [
        ("1", 1u32),
        ("+7", 7),
        ("0", 0),
        ("4294967295", u32::MAX),
        ("4294967296", 15),
        ("-1", 15),
        (" 7", 15),
        ("7 ", 15),
        ("seven", 15),
        ("", 15),
        ("1_000", 15),
    ] {
        let mut settings = bare();
        settings.max_connections = Some(text.to_string());
        assert_eq!(ChasquiConfig::from_settings(settings).max_connections, expected, "{:?}", text);
    }
    assert_eq!(connections_or_default(None), 15);
    assert_eq!(connections_or_default(Some(3)), 3);
}

#[test]
fn a_switch_is_on_only_for_the_word_true() {
    assert!(switch_on(&Some("true".to_string())));
    for other in ["True", "TRUE", "1", "yes", "", " true", "false"] {
        assert!(!switch_on(&Some(other.to_string())), "{:?}", other);
    }
    assert!(!switch_on(&None));
}

#[test]
fn content_directory_defaults_to_content_md() {
    assert_eq!(content_dir_setting(None), "./content/md");
    assert_eq!(content_dir_setting(Some("/data/md".to_string())), "/data/md");
    assert_eq!(or_default(None, "x"), "x");
    assert_eq!(or_default(Some(String::new()), "x"), "");
}

#[test]
fn numbers_are_read_as_the_standard_library_reads_them() {
    for text in [
        "", "+", "-", "0", "00", "007", "+0", "+42", "++1", "+-1", "-0", "1", "9", "10", "99",
        "4294967295", "4294967296", "04294967295", "42949672950", "99999999999999999999999",
        "1a", "a1", "1 ", " 1", "1.0", "1e3", "0x10", "१२", "1\u{660}", "+ 1",
    ] {
        assert_eq!(parse_u32(text), text.parse::<u32>().ok(), "{:?}", text);
    }
    assert_eq!(parse_u32("4294967295"), Some(u32::MAX));
    assert_eq!(parse_u32("+15"), Some(15));
    assert_eq!(parse_u32("4294967296"), None);
}
