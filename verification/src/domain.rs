//! The page: the one record that the catalog is made of.

use vstd::prelude::*;

verus! {

/// Whether chrono's calendar holds the moment at `secs` seconds since
/// 1970-01-01 00:00:00 and `nanos` nanoseconds.
pub uninterp spec fn in_calendar(secs: i64, nanos: u32) -> bool;

/// `chrono::DateTime::from_timestamp`: whether it gives a date for the
/// moment is a function of the seconds and the nanoseconds alone.
#[verifier::external_body]
fn calendar_holds(secs: i64, nanos: u32) -> (r: bool)
    ensures
        r == in_calendar(secs, nanos),
{
    chrono::DateTime::from_timestamp(secs, nanos).is_some()
}

/// A moment of naive UTC time: the whole seconds since 1970-01-01 00:00:00
/// and the nanoseconds within that second. Every timestamp is a moment that
/// the calendar holds.
#[derive(Clone, Copy, Debug, PartialEq, Eq, Structural)]
pub struct Timestamp {
    pub(crate) secs: i64,
    pub(crate) nanos: u32,
}

impl Timestamp {
    /// The calendar holds the moment.
    #[verifier::type_invariant]
    pub open spec fn in_range(self) -> bool {
        in_calendar(self.seconds(), self.nanoseconds())
    }

    /// The seconds since 1970-01-01 00:00:00.
    pub closed spec fn seconds(self) -> i64 {
        self.secs
    }

    /// The nanoseconds within the second.
    pub closed spec fn nanoseconds(self) -> u32 {
        self.nanos
    }

    /// The moment at `secs` seconds and `nanos` nanoseconds.
    pub closed spec fn at(secs: i64, nanos: u32) -> Timestamp {
        Timestamp { secs, nanos }
    }

    /// A timestamp is the moment at its seconds and nanoseconds, and the
    /// moment at given seconds and nanoseconds has these.
    pub proof fn lemma_at(secs: i64, nanos: u32)
        ensures
            Timestamp::at(secs, nanos).seconds() == secs,
            Timestamp::at(secs, nanos).nanoseconds() == nanos,
    {
    }

    /// The timestamp of the moment, where the calendar holds it.
    pub fn new(secs: i64, nanos: u32) -> (r: Option<Timestamp>)
        ensures
            match r {
                Some(at) => in_calendar(secs, nanos) && at == Timestamp::at(secs, nanos),
                None => !in_calendar(secs, nanos),
            },
    {
        if calendar_holds(secs, nanos) {
            Some(Timestamp { secs, nanos })
        } else {
            None
        }
    }

    /// The seconds since 1970-01-01 00:00:00.
    pub fn secs(&self) -> (r: i64)
        ensures
            r == self.seconds(),
    {
        self.secs
    }

    /// The nanoseconds within the second.
    pub fn nanos(&self) -> (r: u32)
        ensures
            r == self.nanoseconds(),
    {
        self.nanos
    }
}

/// The views of the strings of a vector.
pub open spec fn strings_view(v: Seq<String>) -> Seq<Seq<char>> {
    Seq::new(v.len(), |i: int| v[i]@)
}

/// The view of an optional string.
pub open spec fn option_view(s: Option<String>) -> Option<Seq<char>> {
    match s {
        Some(text) => Some(text@),
        None => None,
    }
}

/// A copy of `v`.
pub fn clone_strings(v: &Vec<String>) -> (r: Vec<String>)
    ensures
        strings_view(r@) == strings_view(v@),
{
    let mut out: Vec<String> = Vec::new();
    let mut i: usize = 0;
    while i < v.len()
        invariant
            i <= v.len(),
            out.len() == i,
            forall|j: int| 0 <= j < i ==> out@[j]@ == v@[j]@,
        decreases v.len() - i,
    {
        out.push(v[i].clone());
        i += 1;
    }
    assert(strings_view(out@) =~= strings_view(v@));
    out
}

/// A copy of `s`.
pub fn clone_option(s: &Option<String>) -> (r: Option<String>)
    ensures
        option_view(r) == option_view(*s),
{
    match s {
        Some(text) => Some(text.clone()),
        None => None,
    }
}

/// A page of the catalog.
#[derive(Debug, PartialEq, Eq)]
pub struct Page {
    /// The stable public slug, unique across all pages.
    pub identifier: String,
    /// Path of the source file, relative to the content root.
    pub filename: String,
    /// Display title.
    pub name: Option<String>,
    /// Rendered HTML, links rewritten.
    pub html_content: String,
    /// Markdown body, front matter stripped.
    pub md_content: String,
    /// Hash of the raw file, 16 lowercase hexadecimal digits.
    pub md_content_hash: String,
    /// Tags, in the order the author gave them.
    pub tags: Vec<String>,
    pub modified_datetime: Option<Timestamp>,
    pub created_datetime: Option<Timestamp>,
}

/// What a page holds.
pub struct PageView {
    pub identifier: Seq<char>,
    pub filename: Seq<char>,
    pub name: Option<Seq<char>>,
    pub html_content: Seq<char>,
    pub md_content: Seq<char>,
    pub md_content_hash: Seq<char>,
    pub tags: Seq<Seq<char>>,
    pub modified_datetime: Option<Timestamp>,
    pub created_datetime: Option<Timestamp>,
}

impl View for Page {
    type V = PageView;

    open spec fn view(&self) -> PageView {
        PageView {
            identifier: self.identifier@,
            filename: self.filename@,
            name: option_view(self.name),
            html_content: self.html_content@,
            md_content: self.md_content@,
            md_content_hash: self.md_content_hash@,
            tags: strings_view(self.tags@),
            modified_datetime: self.modified_datetime,
            created_datetime: self.created_datetime,
        }
    }
}

impl Clone for Page {
    fn clone(&self) -> (r: Page)
        ensures
            r@ == self@,
    {
        Page {
            identifier: self.identifier.clone(),
            filename: self.filename.clone(),
            name: clone_option(&self.name),
            html_content: self.html_content.clone(),
            md_content: self.md_content.clone(),
            md_content_hash: self.md_content_hash.clone(),
            tags: clone_strings(&self.tags),
            modified_datetime: self.modified_datetime,
            created_datetime: self.created_datetime,
        }
    }
}

} // verus!
