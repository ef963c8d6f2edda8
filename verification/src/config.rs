//! The settings that the rest of the crate reads, and how they follow from
//! what the environment holds. Reading the environment is the caller's.

use vstd::prelude::*;
use crate::domain::option_view;
use crate::text::{chars_of, same_text};

verus! {

/// Whether the character is a decimal digit.
pub open spec fn is_digit(c: char) -> bool {
    '0' <= c <= '9'
}

/// The number that a text of decimal digits writes.
pub open spec fn decimal_value(digits: Seq<char>) -> nat
    decreases digits.len(),
{
    if digits.len() == 0 {
        0
    } else {
        decimal_value(digits.drop_last()) * 10 + (digits.last() as u32 - '0' as u32) as nat
    }
}

/// The digits of a number: the text without one leading `+`.
pub open spec fn digits_of(text: Seq<char>) -> Seq<char> {
    if text.len() > 0 && text[0] == '+' {
        text.skip(1)
    } else {
        text
    }
}

/// The number that a text holds as a `u32`: an optional `+` and then one or
/// more decimal digits that write a number of at most `u32::MAX`. Any other
/// text holds none.
pub open spec fn parsed_u32(text: Seq<char>) -> Option<u32> {
    let digits = digits_of(text);
    if digits.len() > 0 && (forall|i: int| 0 <= i < digits.len() ==> is_digit(#[trigger] digits[i]))
        && decimal_value(digits) <= u32::MAX {
        Some(decimal_value(digits) as u32)
    } else {
        None
    }
}

/// A longer stretch of digits writes at least as large a number.
pub proof fn lemma_decimal_value_grows(digits: Seq<char>, upto: int)
    requires
        0 <= upto <= digits.len(),
        forall|i: int| 0 <= i < digits.len() ==> is_digit(#[trigger] digits[i]),
    ensures
        decimal_value(digits.take(upto)) <= decimal_value(digits),
    decreases digits.len() - upto,
{
    if upto == digits.len() {
        assert(digits.take(upto) =~= digits);
    } else {
        lemma_decimal_value_grows(digits, upto + 1);
        assert(digits.take(upto + 1).drop_last() =~= digits.take(upto));
        assert(is_digit(digits[upto]));
        assert(digits.take(upto + 1).last() == digits[upto]);
    }
}

/// Reads a text as a `u32`.
pub fn parse_u32(text: &str) -> (r: Option<u32>)
    ensures
        r == parsed_u32(text@),
{
    let chars = chars_of(text);
    let start: usize = if chars.len() > 0 && chars[0] == '+' {
        1
    } else {
        0
    };
    let ghost digits = digits_of(text@);
    assert(digits =~= chars@.skip(start as int));
    if start == chars.len() {
        return None;
    }
    let mut value: u64 = 0;
    let mut i: usize = start;
    assert(digits.take(0) =~= Seq::<char>::empty());
    while i < chars.len()
        invariant
            start <= i <= chars.len(),
            digits == digits_of(text@),
            digits == chars@.skip(start as int),
            forall|j: int| 0 <= j < i - start ==> is_digit(#[trigger] digits[j]),
            value == decimal_value(digits.take(i - start)),
            value <= u32::MAX,
        decreases chars.len() - i,
    {
        let c = chars[i];
        assert(digits[i - start] == c);
        if c < '0' || c > '9' {
            assert(!is_digit(digits[i - start]));
            return None;
        }
        let digit: u64 = (c as u32 - '0' as u32) as u64;
        proof {
            assert(digits.take(i - start + 1).drop_last() =~= digits.take(i - start));
            assert(digits.take(i - start + 1).last() == c);
        }
        value = value * 10 + digit;
        assert(value == decimal_value(digits.take(i - start + 1)));
        if value > 0xffff_ffff {
            proof {
                if forall|j: int| 0 <= j < digits.len() ==> is_digit(#[trigger] digits[j]) {
                    lemma_decimal_value_grows(digits, i - start + 1);
                }
            }
            return None;
        }
        i += 1;
    }
    assert(digits.take(digits.len() as int) =~= digits);
    Some(value as u32)
}

/// What the environment holds of the settings, each variable as it was
/// found. The content directory is the one exception: it is the path that
/// `content_dir_setting` names, made absolute by the caller.
#[derive(Debug)]
pub struct Settings {
    /// `DATABASE_URL`.
    pub database_url: String,
    /// `MAX_CONNECTIONS`.
    pub max_connections: Option<String>,
    /// `FRONTEND_DIST_PATH`.
    pub frontend_dist_path: String,
    /// The content directory, absolute.
    pub content_dir: String,
    /// `DEFAULT_IDENTIFIER_STRIP_EXTENSION`.
    pub default_identifier_strip_extension: Option<String>,
    /// `SERVE_HOME`.
    pub serve_home: Option<String>,
    /// `HOME_IDENTIFIER`.
    pub home_identifier: Option<String>,
    /// `FRONTEND_WEBHOOK_URL`.
    pub frontend_webhook_url: Option<String>,
    /// `WEBHOOK_SECRET`.
    pub webhook_secret: Option<String>,
}

/// A switch is on exactly when its variable holds the word `true`.
pub open spec fn switch_is_on(value: Option<Seq<char>>) -> bool {
    value == Some("true"@)
}

/// The text of a variable, or the default where it is not set.
pub open spec fn text_or(value: Option<Seq<char>>, default: Seq<char>) -> Seq<char> {
    match value {
        Some(text) => text,
        None => default,
    }
}

/// The number of connections: what `MAX_CONNECTIONS` holds where that is a
/// number, and 15 otherwise.
pub open spec fn connections_setting(value: Option<Seq<char>>) -> u32 {
    match value {
        Some(text) => match parsed_u32(text) {
            Some(n) => n,
            None => 15,
        },
        None => 15,
    }
}

/// The number of connections, from what was read of `MAX_CONNECTIONS` as a
/// number.
pub fn connections_or_default(parsed: Option<u32>) -> (r: u32)
    ensures
        r == match parsed {
            Some(n) => n,
            None => 15,
        },
{
    match parsed {
        Some(n) => n,
        None => 15,
    }
}

/// Whether a switch is on.
pub fn switch_on(value: &Option<String>) -> (r: bool)
    ensures
        r == switch_is_on(option_view(*value)),
{
    match value {
        Some(text) => same_text(text.as_str(), "true"),
        None => false,
    }
}

/// The text of a variable, or the default where it is not set.
pub fn or_default(value: Option<String>, default: &str) -> (r: String)
    ensures
        r@ == text_or(option_view(value), default@),
{
    match value {
        Some(text) => text,
        None => default.to_owned(),
    }
}

/// The content directory as the environment names it: what `CONTENT_DIR`
/// holds, or `./content/md`.
pub fn content_dir_setting(value: Option<String>) -> (r: String)
    ensures
        r@ == text_or(option_view(value), "./content/md"@),
{
    or_default(value, "./content/md")
}

/// The configuration of one deployment. The values come from the caller; the
/// library only reads them.
#[derive(Debug)]
pub struct ChasquiConfig {
    /// Connection string of the page repository.
    pub database_url: String,
    /// Upper bound on repository connections.
    pub max_connections: u32,
    /// Directory of the static front-end assets.
    pub frontend_path: String,
    /// The content root: absolute path of the directory of Markdown files.
    pub content_dir: String,
    /// The deployment's wish on extensions in default identifiers. Discovery
    /// does not read it: a default identifier never carries the extension.
    pub strip_extensions: bool,
    /// Whether the page `home_identifier` is served at the root URL.
    pub serve_home: bool,
    /// The identifier of the home page.
    pub home_identifier: String,
    /// Address of the build webhook.
    pub webhook_url: String,
    /// Bearer secret of the build webhook.
    pub webhook_secret: String,
}

impl ChasquiConfig {
    /// The configuration that follows from the settings of the environment,
    /// with the default of every variable that is not set.
    pub fn from_settings(settings: Settings) -> (r: ChasquiConfig)
        ensures
            r.database_url@ == settings.database_url@,
            r.max_connections == connections_setting(option_view(settings.max_connections)),
            r.frontend_path@ == settings.frontend_dist_path@,
            r.content_dir@ == settings.content_dir@,
            r.strip_extensions == switch_is_on(
                option_view(settings.default_identifier_strip_extension),
            ),
            r.serve_home == switch_is_on(option_view(settings.serve_home)),
            r.home_identifier@ == text_or(option_view(settings.home_identifier), "index"@),
            r.webhook_url@ == text_or(
                option_view(settings.frontend_webhook_url),
                "http://127.0.0.1:4000/build"@,
            ),
            r.webhook_secret@ == text_or(option_view(settings.webhook_secret), ""@),
    {
        let parsed = match &settings.max_connections {
            Some(text) => parse_u32(text.as_str()),
            None => None,
        };
        let strip_extensions = switch_on(&settings.default_identifier_strip_extension);
        let serve_home = switch_on(&settings.serve_home);
        ChasquiConfig {
            database_url: settings.database_url,
            max_connections: connections_or_default(parsed),
            frontend_path: settings.frontend_dist_path,
            content_dir: settings.content_dir,
            strip_extensions,
            serve_home,
            home_identifier: or_default(settings.home_identifier, "index"),
            webhook_url: or_default(settings.frontend_webhook_url, "http://127.0.0.1:4000/build"),
            webhook_secret: or_default(settings.webhook_secret, ""),
        }
    }
}

impl Clone for ChasquiConfig {
    fn clone(&self) -> (r: ChasquiConfig)
        ensures
            r.database_url@ == self.database_url@,
            r.max_connections == self.max_connections,
            r.frontend_path@ == self.frontend_path@,
            r.content_dir@ == self.content_dir@,
            r.strip_extensions == self.strip_extensions,
            r.serve_home == self.serve_home,
            r.home_identifier@ == self.home_identifier@,
            r.webhook_url@ == self.webhook_url@,
            r.webhook_secret@ == self.webhook_secret@,
    {
        ChasquiConfig {
            database_url: self.database_url.clone(),
            max_connections: self.max_connections,
            frontend_path: self.frontend_path.clone(),
            content_dir: self.content_dir.clone(),
            strip_extensions: self.strip_extensions,
            serve_home: self.serve_home,
            home_identifier: self.home_identifier.clone(),
            webhook_url: self.webhook_url.clone(),
            webhook_secret: self.webhook_secret.clone(),
        }
    }
}

} // verus!
