//! The shapes a page takes on its way: the stored row, the wire row and the
//! draft, with the conversions between them.

use vstd::prelude::*;
use crate::datetime::{format_wire_datetime, wire_datetime};
use crate::domain::{
    clone_option, clone_strings, option_view, strings_view, Page, PageView, Timestamp,
};

verus! {

/// `serde_json::Error`, carried from the call to the place that maps it to
/// an error of this crate.
#[verifier::external_type_specification]
#[verifier::external_body]
pub struct ExJsonError(serde_json::Error);

/// The JSON text that serde_json writes for a list of strings.
pub uninterp spec fn tags_json(tags: Seq<Seq<char>>) -> Seq<char>;

/// The list of strings that serde_json reads from a JSON text; `None` where
/// the text is not a JSON array of strings.
pub uninterp spec fn json_tags(text: Seq<char>) -> Option<Seq<Seq<char>>>;

/// `serde_json::to_string` on a list of strings. Writing such a list cannot
/// fail, the text is a function of the list alone, and serde_json reads the
/// same list back from it.
#[verifier::external_body]
fn tags_to_json(tags: &Vec<String>) -> (r: Result<String, serde_json::Error>)
    ensures
        r is Ok,
        r->Ok_0@ == tags_json(strings_view(tags@)),
        json_tags(r->Ok_0@) == Some(strings_view(tags@)),
{
    serde_json::to_string(tags)
}

/// `serde_json::from_str` for a list of strings: whether it succeeds, and
/// with which list, is a function of the text alone.
#[verifier::external_body]
fn tags_from_json(text: &str) -> (r: Result<Vec<String>, serde_json::Error>)
    ensures
        match r {
            Ok(tags) => json_tags(text@) == Some(strings_view(tags@)),
            Err(_) => json_tags(text@) is None,
        },
{
    serde_json::from_str::<Vec<String>>(text)
}

/// Why a stored row is not a page.
#[derive(Debug, PartialEq, Eq, Structural, Clone, Copy)]
pub enum ModelError {
    /// The `tags` column is not a JSON array of strings.
    MalformedTags,
}

impl ModelError {
    /// The message that goes with the error.
    pub fn message(&self) -> (r: String)
        ensures
            r@ == "Failed to parse JSON tags"@,
    {
        "Failed to parse JSON tags".to_owned()
    }
}

/// A page as the repository stores it: the tags are one JSON text, absent
/// where the page has none.
#[derive(Debug, PartialEq, Eq)]
pub struct DbPage {
    pub identifier: String,
    pub filename: String,
    pub name: Option<String>,
    pub html_content: String,
    pub md_content: String,
    pub md_content_hash: String,
    pub tags: Option<String>,
    pub modified_datetime: Option<Timestamp>,
    pub created_datetime: Option<Timestamp>,
}

/// What a stored row holds.
pub struct DbPageView {
    pub identifier: Seq<char>,
    pub filename: Seq<char>,
    pub name: Option<Seq<char>>,
    pub html_content: Seq<char>,
    pub md_content: Seq<char>,
    pub md_content_hash: Seq<char>,
    pub tags: Option<Seq<char>>,
    pub modified_datetime: Option<Timestamp>,
    pub created_datetime: Option<Timestamp>,
}

impl View for DbPage {
    type V = DbPageView;

    open spec fn view(&self) -> DbPageView {
        DbPageView {
            identifier: self.identifier@,
            filename: self.filename@,
            name: option_view(self.name),
            html_content: self.html_content@,
            md_content: self.md_content@,
            md_content_hash: self.md_content_hash@,
            tags: option_view(self.tags),
            modified_datetime: self.modified_datetime,
            created_datetime: self.created_datetime,
        }
    }
}

impl Clone for DbPage {
    fn clone(&self) -> (r: DbPage)
        ensures
            r@ == self@,
    {
        DbPage {
            identifier: self.identifier.clone(),
            filename: self.filename.clone(),
            name: clone_option(&self.name),
            html_content: self.html_content.clone(),
            md_content: self.md_content.clone(),
            md_content_hash: self.md_content_hash.clone(),
            tags: clone_option(&self.tags),
            modified_datetime: self.modified_datetime,
            created_datetime: self.created_datetime,
        }
    }
}

/// A page as the read API sends it: dates as text, tags as a list.
#[derive(Debug, PartialEq, Eq)]
pub struct JsonPage {
    pub identifier: String,
    pub filename: String,
    pub name: Option<String>,
    pub html_content: String,
    pub md_content: String,
    pub md_content_hash: String,
    pub tags: Vec<String>,
    pub modified_datetime: Option<String>,
    pub created_datetime: Option<String>,
}

/// What a wire row holds.
pub struct JsonPageView {
    pub identifier: Seq<char>,
    pub filename: Seq<char>,
    pub name: Option<Seq<char>>,
    pub html_content: Seq<char>,
    pub md_content: Seq<char>,
    pub md_content_hash: Seq<char>,
    pub tags: Seq<Seq<char>>,
    pub modified_datetime: Option<Seq<char>>,
    pub created_datetime: Option<Seq<char>>,
}

impl View for JsonPage {
    type V = JsonPageView;

    open spec fn view(&self) -> JsonPageView {
        JsonPageView {
            identifier: self.identifier@,
            filename: self.filename@,
            name: option_view(self.name),
            html_content: self.html_content@,
            md_content: self.md_content@,
            md_content_hash: self.md_content_hash@,
            tags: strings_view(self.tags@),
            modified_datetime: option_view(self.modified_datetime),
            created_datetime: option_view(self.created_datetime),
        }
    }
}

/// What discovery learns of one file, before any HTML is rendered.
#[derive(Debug, PartialEq, Eq)]
pub struct PageDraft {
    pub filename: String,
    pub identifier: String,
    pub name: Option<String>,
    pub content_body: String,
    pub md_content_hash: String,
    pub tags: Vec<String>,
    pub modified_datetime: Option<Timestamp>,
    pub created_datetime: Option<Timestamp>,
}

/// What a draft holds.
pub struct PageDraftView {
    pub filename: Seq<char>,
    pub identifier: Seq<char>,
    pub name: Option<Seq<char>>,
    pub content_body: Seq<char>,
    pub md_content_hash: Seq<char>,
    pub tags: Seq<Seq<char>>,
    pub modified_datetime: Option<Timestamp>,
    pub created_datetime: Option<Timestamp>,
}

impl View for PageDraft {
    type V = PageDraftView;

    open spec fn view(&self) -> PageDraftView {
        PageDraftView {
            filename: self.filename@,
            identifier: self.identifier@,
            name: option_view(self.name),
            content_body: self.content_body@,
            md_content_hash: self.md_content_hash@,
            tags: strings_view(self.tags@),
            modified_datetime: self.modified_datetime,
            created_datetime: self.created_datetime,
        }
    }
}

impl Clone for PageDraft {
    fn clone(&self) -> (r: PageDraft)
        ensures
            r@ == self@,
    {
        PageDraft {
            filename: self.filename.clone(),
            identifier: self.identifier.clone(),
            name: clone_option(&self.name),
            content_body: self.content_body.clone(),
            md_content_hash: self.md_content_hash.clone(),
            tags: clone_strings(&self.tags),
            modified_datetime: self.modified_datetime,
            created_datetime: self.created_datetime,
        }
    }
}

/// A stored row with the fields of a page and the given text for its tags.
pub open spec fn row_with_tags(page: PageView, tags: Option<Seq<char>>) -> DbPageView {
    DbPageView {
        identifier: page.identifier,
        filename: page.filename,
        name: page.name,
        html_content: page.html_content,
        md_content: page.md_content,
        md_content_hash: page.md_content_hash,
        tags,
        modified_datetime: page.modified_datetime,
        created_datetime: page.created_datetime,
    }
}

/// The stored row of a page: the tags as JSON, or absent where there are
/// none.
pub open spec fn stored_row(page: PageView) -> DbPageView {
    row_with_tags(
        page,
        if page.tags.len() == 0 {
            None
        } else {
            Some(tags_json(page.tags))
        },
    )
}

/// A page with the fields of a stored row and the given tags.
pub open spec fn page_with_tags(row: DbPageView, tags: Seq<Seq<char>>) -> PageView {
    PageView {
        identifier: row.identifier,
        filename: row.filename,
        name: row.name,
        html_content: row.html_content,
        md_content: row.md_content,
        md_content_hash: row.md_content_hash,
        tags,
        modified_datetime: row.modified_datetime,
        created_datetime: row.created_datetime,
    }
}

/// The page that a stored row holds; `None` where its tags are present and
/// are not a JSON array of strings.
pub open spec fn page_of_row(row: DbPageView) -> Option<PageView> {
    match row.tags {
        Some(text) => match json_tags(text) {
            Some(list) => Some(page_with_tags(row, list)),
            None => None,
        },
        None => Some(page_with_tags(row, Seq::empty())),
    }
}

/// A wire row with the fields of a page and the given texts for its dates.
pub open spec fn wire_row_with(
    page: PageView,
    modified_datetime: Option<Seq<char>>,
    created_datetime: Option<Seq<char>>,
) -> JsonPageView {
    JsonPageView {
        identifier: page.identifier,
        filename: page.filename,
        name: page.name,
        html_content: page.html_content,
        md_content: page.md_content,
        md_content_hash: page.md_content_hash,
        tags: page.tags,
        modified_datetime,
        created_datetime,
    }
}

/// The wire row of a page.
pub open spec fn wire_row(page: PageView) -> JsonPageView {
    wire_row_with(
        page,
        wire_datetime(page.modified_datetime),
        wire_datetime(page.created_datetime),
    )
}

impl DbPage {
    /// The row with the fields of `page` and the given text for its tags.
    pub fn with_tags(page: &Page, tags: Option<String>) -> (r: DbPage)
        ensures
            r@ == row_with_tags(page@, option_view(tags)),
    {
        DbPage {
            identifier: page.identifier.clone(),
            filename: page.filename.clone(),
            name: clone_option(&page.name),
            html_content: page.html_content.clone(),
            md_content: page.md_content.clone(),
            md_content_hash: page.md_content_hash.clone(),
            tags,
            modified_datetime: page.modified_datetime,
            created_datetime: page.created_datetime,
        }
    }

    /// The row under which `page` is stored. Converting the row back gives
    /// the page again, field by field.
    pub fn from(page: &Page) -> (r: DbPage)
        ensures
            r@ == stored_row(page@),
            page_of_row(r@) == Some(page@),
    {
        let tags = if page.tags.len() == 0 {
            assert(page@.tags =~= Seq::<Seq<char>>::empty());
            None
        } else {
            match tags_to_json(&page.tags) {
                Ok(text) => Some(text),
                Err(_) => Some(String::new()),
            }
        };
        DbPage::with_tags(page, tags)
    }
}

impl Page {
    /// The page with the fields of a stored row and the given tags.
    pub fn with_tags(db_page: DbPage, tags: Vec<String>) -> (r: Page)
        ensures
            r@ == page_with_tags(db_page@, strings_view(tags@)),
    {
        Page {
            identifier: db_page.identifier,
            filename: db_page.filename,
            name: db_page.name,
            html_content: db_page.html_content,
            md_content: db_page.md_content,
            md_content_hash: db_page.md_content_hash,
            tags,
            modified_datetime: db_page.modified_datetime,
            created_datetime: db_page.created_datetime,
        }
    }

    /// The page that a stored row holds. It fails exactly when the tags of
    /// the row are present and are not a JSON array of strings.
    pub fn try_from(db_page: DbPage) -> (r: Result<Page, ModelError>)
        ensures
            match r {
                Ok(page) => page_of_row(db_page@) == Some(page@),
                Err(e) => page_of_row(db_page@) is None && e == ModelError::MalformedTags,
            },
    {
        let tags: Vec<String> = match &db_page.tags {
            Some(text) => match tags_from_json(text.as_str()) {
                Ok(list) => list,
                Err(_) => {
                    return Err(ModelError::MalformedTags);
                },
            },
            None => {
                let empty: Vec<String> = Vec::new();
                assert(strings_view(empty@) =~= Seq::<Seq<char>>::empty());
                empty
            },
        };
        Ok(Page::with_tags(db_page, tags))
    }
}

impl JsonPage {
    /// The wire row with the fields of `page` and the given texts for its
    /// dates.
    pub fn with_dates(
        page: &Page,
        modified_datetime: Option<String>,
        created_datetime: Option<String>,
    ) -> (r: JsonPage)
        ensures
            r@ == wire_row_with(page@, option_view(modified_datetime), option_view(created_datetime)),
    {
        JsonPage {
            identifier: page.identifier.clone(),
            filename: page.filename.clone(),
            name: clone_option(&page.name),
            html_content: page.html_content.clone(),
            md_content: page.md_content.clone(),
            md_content_hash: page.md_content_hash.clone(),
            tags: clone_strings(&page.tags),
            modified_datetime,
            created_datetime,
        }
    }

    /// The row under which `page` goes over the wire. A date that the page
    /// has is written; one that it lacks stays absent.
    pub fn from(page: &Page) -> (r: JsonPage)
        ensures
            r@ == wire_row(page@),
            r.modified_datetime is Some == page.modified_datetime is Some,
            r.created_datetime is Some == page.created_datetime is Some,
    {
        JsonPage::with_dates(
            page,
            format_wire_datetime(page.modified_datetime),
            format_wire_datetime(page.created_datetime),
        )
    }
}

} // verus!
