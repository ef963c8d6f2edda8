//! The Markdown pipeline: front matter off the top of a file, and the body
//! to HTML with every link passed through a resolver.
//!
//! The YAML reader is gray_matter's and the Markdown engine is
//! pulldown-cmark's. What this module owns is the fence rule, the schema of
//! the front matter and the order in which links are resolved.

use vstd::prelude::*;
use gray_matter::engine::{Engine, YAML};
use gray_matter::Pod;
use pulldown_cmark::{html, Event, Options, Parser, Tag};
use crate::domain::{clone_option, clone_strings, option_view, strings_view};
use crate::text::{
    chars_of, find, find_from, lemma_find_from, lemma_leading_whitespace, matches_at,
    skip_whitespace, starts_with, string_of_range, trim_start,
};

verus! {

/// The metadata that an author may put on top of a file. Every field may be
/// absent.
#[derive(Debug, PartialEq, Eq)]
pub struct PageFrontMatter {
    pub identifier: Option<String>,
    pub name: Option<String>,
    pub tags: Option<Vec<String>>,
    pub modified_datetime: Option<String>,
    pub created_datetime: Option<String>,
}

/// What a front matter holds.
pub struct PageFrontMatterView {
    pub identifier: Option<Seq<char>>,
    pub name: Option<Seq<char>>,
    pub tags: Option<Seq<Seq<char>>>,
    pub modified_datetime: Option<Seq<char>>,
    pub created_datetime: Option<Seq<char>>,
}

impl View for PageFrontMatter {
    type V = PageFrontMatterView;

    open spec fn view(&self) -> PageFrontMatterView {
        PageFrontMatterView {
            identifier: option_view(self.identifier),
            name: option_view(self.name),
            tags: match self.tags {
                Some(list) => Some(strings_view(list@)),
                None => None,
            },
            modified_datetime: option_view(self.modified_datetime),
            created_datetime: option_view(self.created_datetime),
        }
    }
}

/// The front matter with every field absent.
pub open spec fn no_front_matter() -> PageFrontMatterView {
    PageFrontMatterView {
        identifier: None,
        name: None,
        tags: None,
        modified_datetime: None,
        created_datetime: None,
    }
}

impl Default for PageFrontMatter {
    fn default() -> (r: PageFrontMatter)
        ensures
            r@ == no_front_matter(),
    {
        PageFrontMatter {
            identifier: None,
            name: None,
            tags: None,
            modified_datetime: None,
            created_datetime: None,
        }
    }
}

impl Clone for PageFrontMatter {
    fn clone(&self) -> (r: PageFrontMatter)
        ensures
            r@ == self@,
    {
        PageFrontMatter {
            identifier: clone_option(&self.identifier),
            name: clone_option(&self.name),
            tags: match &self.tags {
                Some(list) => Some(clone_strings(list)),
                None => None,
            },
            modified_datetime: clone_option(&self.modified_datetime),
            created_datetime: clone_option(&self.created_datetime),
        }
    }
}

/// The value under one key of a YAML table, as far as the schema reads it:
/// nothing, a text, a list whose items are texts or something else, or
/// anything else.
#[derive(Debug)]
pub enum YamlValue {
    Null,
    Text(String),
    List(Vec<Option<String>>),
    Other,
}

/// What a YAML value holds.
pub enum YamlValueView {
    Null,
    Text(Seq<char>),
    List(Seq<Option<Seq<char>>>),
    Other,
}

/// The views of a vector of optional strings.
pub open spec fn options_view(v: Seq<Option<String>>) -> Seq<Option<Seq<char>>> {
    Seq::new(v.len(), |i: int| option_view(v[i]))
}

impl View for YamlValue {
    type V = YamlValueView;

    open spec fn view(&self) -> YamlValueView {
        match self {
            YamlValue::Null => YamlValueView::Null,
            YamlValue::Text(text) => YamlValueView::Text(text@),
            YamlValue::List(items) => YamlValueView::List(options_view(items@)),
            YamlValue::Other => YamlValueView::Other,
        }
    }
}

/// `gray_matter::Pod`, the value that gray_matter reads a document into. It
/// is carried from the parse to the lookups and never looked into here.
#[verifier::external_type_specification]
#[verifier::external_body]
pub struct ExPod(gray_matter::Pod);

/// The entries of a YAML table that gray_matter has read: each key with what
/// stands under it. A value that is no table has no entries.
pub uninterp spec fn pod_entries(doc: Pod) -> Map<Seq<char>, YamlValueView>;

/// The entries of the document that gray_matter's YAML engine reads from a
/// text; `None` where the YAML is broken. A document that is no table has
/// no entries.
pub uninterp spec fn yaml_document(text: Seq<char>) -> Option<Map<Seq<char>, YamlValueView>>;

/// `gray_matter::engine::YAML::parse`: the document is handed on as it was
/// read, and what it holds is a function of the text alone.
#[verifier::external_body]
fn parse_yaml(text: &str) -> (r: Option<Pod>)
    ensures
        match r {
            Some(doc) => yaml_document(text@) == Some(pod_entries(doc)),
            None => yaml_document(text@) is None,
        },
{
    YAML::parse(text).ok()
}

/// The lookup of one key in the `HashMap` of a `gray_matter::Pod::Hash`, the
/// value converted variant by variant and the items of a list through
/// `Pod::as_string`: what comes back is the entry of the table under the key,
/// and `None` where the table has no such key.
#[verifier::external_body]
fn front_matter_entry(doc: &Pod, key: &str) -> (r: Option<YamlValue>)
    ensures
        match r {
            Some(value) => pod_entries(*doc).contains_key(key@) && pod_entries(*doc)[key@]
                == value@,
            None => !pod_entries(*doc).contains_key(key@),
        },
{
    match doc {
        Pod::Hash(table) => table.get(key).map(|value| match value {
            Pod::Null => YamlValue::Null,
            Pod::String(text) => YamlValue::Text(text.clone()),
            Pod::Array(items) => YamlValue::List(items.iter().map(|i| i.as_string().ok()).collect()),
            Pod::Integer(_) | Pod::Float(_) | Pod::Boolean(_) | Pod::Hash(_) => YamlValue::Other,
        }),
        _ => None,
    }
}

/// How a field of the schema reads what stands under its key.
#[derive(Debug)]
pub enum Reading<T> {
    /// Nothing stands there, or the null value.
    Absent,
    /// A value of the right type.
    Present(T),
    /// A value of another type: the front matter is malformed.
    Mistyped,
}

/// The view of what may stand under a key.
pub open spec fn entry_view(entry: Option<YamlValue>) -> Option<YamlValueView> {
    match entry {
        Some(value) => Some(value@),
        None => None,
    }
}

/// What stands under a key of a table.
pub open spec fn table_entry(table: Map<Seq<char>, YamlValueView>, key: Seq<char>) -> Option<
    YamlValueView,
> {
    if table.contains_key(key) {
        Some(table[key])
    } else {
        None
    }
}

/// A text field: absent, a text, or mistyped.
pub open spec fn text_reading(entry: Option<YamlValueView>) -> Reading<Seq<char>> {
    match entry {
        None => Reading::Absent,
        Some(YamlValueView::Null) => Reading::Absent,
        Some(YamlValueView::Text(text)) => Reading::Present(text),
        Some(_) => Reading::Mistyped,
    }
}

/// Every item of the list is a text.
pub open spec fn all_texts(items: Seq<Option<Seq<char>>>) -> bool {
    forall|i: int| 0 <= i < items.len() ==> (#[trigger] items[i]) is Some
}

/// The texts of a list of texts.
pub open spec fn texts_of(items: Seq<Option<Seq<char>>>) -> Seq<Seq<char>> {
    Seq::new(items.len(), |i: int| items[i]->0)
}

/// A field that is a list of texts: absent, such a list, or mistyped.
pub open spec fn list_reading(entry: Option<YamlValueView>) -> Reading<Seq<Seq<char>>> {
    match entry {
        None => Reading::Absent,
        Some(YamlValueView::Null) => Reading::Absent,
        Some(YamlValueView::List(items)) => if all_texts(items) {
            Reading::Present(texts_of(items))
        } else {
            Reading::Mistyped
        },
        Some(_) => Reading::Mistyped,
    }
}

/// The value of a reading that is not mistyped.
pub open spec fn reading_value<T>(reading: Reading<T>) -> Option<T> {
    match reading {
        Reading::Present(value) => Some(value),
        _ => None,
    }
}

/// The front matter that the entries under the five names of the schema
/// give. One mistyped field makes the whole front matter malformed (`None`).
pub open spec fn entries_front_matter(
    identifier: Option<YamlValueView>,
    name: Option<YamlValueView>,
    tags: Option<YamlValueView>,
    modified_datetime: Option<YamlValueView>,
    created_datetime: Option<YamlValueView>,
) -> Option<PageFrontMatterView> {
    if text_reading(identifier) is Mistyped || text_reading(name) is Mistyped || list_reading(tags)
        is Mistyped || text_reading(modified_datetime) is Mistyped || text_reading(
        created_datetime,
    ) is Mistyped {
        None
    } else {
        Some(
            PageFrontMatterView {
                identifier: reading_value(text_reading(identifier)),
                name: reading_value(text_reading(name)),
                tags: reading_value(list_reading(tags)),
                modified_datetime: reading_value(text_reading(modified_datetime)),
                created_datetime: reading_value(text_reading(created_datetime)),
            },
        )
    }
}

/// The front matter that a table holds: each field of the schema read under
/// its own name, other keys ignored.
pub open spec fn table_front_matter(table: Map<Seq<char>, YamlValueView>) -> Option<
    PageFrontMatterView,
> {
    entries_front_matter(
        table_entry(table, "identifier"@),
        table_entry(table, "name"@),
        table_entry(table, "tags"@),
        table_entry(table, "modified_datetime"@),
        table_entry(table, "created_datetime"@),
    )
}

/// The front matter that the span between the fences holds: what its YAML
/// table holds, and every field absent where the YAML is broken or the
/// table is malformed. A document that is no table holds nothing.
pub open spec fn span_front_matter(span: Seq<char>) -> PageFrontMatterView {
    match yaml_document(span) {
        Some(table) => match table_front_matter(table) {
            Some(front_matter) => front_matter,
            None => no_front_matter(),
        },
        None => no_front_matter(),
    }
}

/// The view of a reading of a text.
pub open spec fn text_reading_view(reading: Reading<String>) -> Reading<Seq<char>> {
    match reading {
        Reading::Absent => Reading::Absent,
        Reading::Present(text) => Reading::Present(text@),
        Reading::Mistyped => Reading::Mistyped,
    }
}

/// The view of a reading of a list of texts.
pub open spec fn list_reading_view(reading: Reading<Vec<String>>) -> Reading<Seq<Seq<char>>> {
    match reading {
        Reading::Absent => Reading::Absent,
        Reading::Present(list) => Reading::Present(strings_view(list@)),
        Reading::Mistyped => Reading::Mistyped,
    }
}

/// Reads a text field from what stands under its key.
pub fn read_text(entry: Option<YamlValue>) -> (r: Reading<String>)
    ensures
        text_reading_view(r) == text_reading(entry_view(entry)),
{
    match entry {
        None => Reading::Absent,
        Some(YamlValue::Null) => Reading::Absent,
        Some(YamlValue::Text(text)) => Reading::Present(text),
        Some(_) => Reading::Mistyped,
    }
}

/// The texts of a list, where every item is one.
pub fn collect_texts(items: &Vec<Option<String>>) -> (r: Option<Vec<String>>)
    ensures
        match r {
            Some(texts) => all_texts(options_view(items@)) && strings_view(texts@) == texts_of(
                options_view(items@),
            ),
            None => !all_texts(options_view(items@)),
        },
{
    let mut texts: Vec<String> = Vec::new();
    let mut i: usize = 0;
    while i < items.len()
        invariant
            i <= items.len(),
            texts.len() == i,
            forall|j: int| 0 <= j < i ==> (#[trigger] items@[j]) is Some,
            forall|j: int| 0 <= j < i ==> texts@[j]@ == (#[trigger] items@[j])->0@,
        decreases items.len() - i,
    {
        match &items[i] {
            Some(text) => {
                texts.push(text.clone());
            },
            None => {
                assert(options_view(items@)[i as int] is None);
                return None;
            },
        }
        i += 1;
    }
    assert(all_texts(options_view(items@))) by {
        assert forall|j: int| 0 <= j < items@.len() implies (#[trigger] options_view(
            items@,
        )[j]) is Some by {
            assert(items@[j] is Some);
        }
    }
    assert(strings_view(texts@) =~= texts_of(options_view(items@))) by {
        assert forall|j: int| 0 <= j < texts@.len() implies strings_view(texts@)[j] == texts_of(
            options_view(items@),
        )[j] by {
            assert(items@[j] is Some);
        }
    }
    Some(texts)
}

/// Reads a field that is a list of texts from what stands under its key.
pub fn read_list(entry: Option<YamlValue>) -> (r: Reading<Vec<String>>)
    ensures
        list_reading_view(r) == list_reading(entry_view(entry)),
{
    match entry {
        None => Reading::Absent,
        Some(YamlValue::Null) => Reading::Absent,
        Some(YamlValue::List(items)) => match collect_texts(&items) {
            Some(texts) => Reading::Present(texts),
            None => Reading::Mistyped,
        },
        Some(_) => Reading::Mistyped,
    }
}

/// The value of a reading that is not mistyped.
fn value_of<T>(reading: Reading<T>) -> (r: Option<T>)
    ensures
        r == reading_value(reading),
{
    match reading {
        Reading::Present(value) => Some(value),
        _ => None,
    }
}

/// Whether the reading is mistyped.
fn is_mistyped<T>(reading: &Reading<T>) -> (r: bool)
    ensures
        r == (*reading is Mistyped),
{
    match reading {
        Reading::Mistyped => true,
        _ => false,
    }
}

/// Puts a front matter together from what stands under the five names of
/// the schema; `None` where one of them is mistyped.
pub fn frontmatter_from_entries(
    identifier: Option<YamlValue>,
    name: Option<YamlValue>,
    tags: Option<YamlValue>,
    modified_datetime: Option<YamlValue>,
    created_datetime: Option<YamlValue>,
) -> (r: Option<PageFrontMatter>)
    ensures
        match r {
            Some(front_matter) => entries_front_matter(
                entry_view(identifier),
                entry_view(name),
                entry_view(tags),
                entry_view(modified_datetime),
                entry_view(created_datetime),
            ) == Some(front_matter@),
            None => entries_front_matter(
                entry_view(identifier),
                entry_view(name),
                entry_view(tags),
                entry_view(modified_datetime),
                entry_view(created_datetime),
            ) is None,
        },
{
    let identifier = read_text(identifier);
    let name = read_text(name);
    let tags = read_list(tags);
    let modified_datetime = read_text(modified_datetime);
    let created_datetime = read_text(created_datetime);
    if is_mistyped(&identifier) || is_mistyped(&name) || is_mistyped(&tags) || is_mistyped(
        &modified_datetime,
    ) || is_mistyped(&created_datetime) {
        return None;
    }
    Some(
        PageFrontMatter {
            identifier: value_of(identifier),
            name: value_of(name),
            tags: value_of(tags),
            modified_datetime: value_of(modified_datetime),
            created_datetime: value_of(created_datetime),
        },
    )
}

/// The front matter that the span between the fences holds.
fn read_front_matter_span(span: &str) -> (r: PageFrontMatter)
    ensures
        r@ == span_front_matter(span@),
{
    let doc = match parse_yaml(span) {
        Some(doc) => doc,
        None => {
            return PageFrontMatter::default();
        },
    };
    let read = frontmatter_from_entries(
        front_matter_entry(&doc, "identifier"),
        front_matter_entry(&doc, "name"),
        front_matter_entry(&doc, "tags"),
        front_matter_entry(&doc, "modified_datetime"),
        front_matter_entry(&doc, "created_datetime"),
    );
    match read {
        Some(front_matter) => front_matter,
        None => PageFrontMatter::default(),
    }
}

/// Where the closing fence of the front matter starts: the first `---` at or
/// after position 3 of a text that begins with `---`.
pub open spec fn closing_fence(text: Seq<char>) -> Option<int> {
    if starts_with(text, "---"@) {
        find_from(text, "---"@, 3)
    } else {
        None
    }
}

/// The span between the fences of a file: the text after the opening fence
/// and before the closing one, where there are two fences.
pub open spec fn fenced_span(text: Seq<char>) -> Option<Seq<char>> {
    match closing_fence(text) {
        Some(at) => Some(text.subrange(3, at)),
        None => None,
    }
}

/// The front matter of a file.
pub open spec fn front_matter_of(text: Seq<char>) -> PageFrontMatterView {
    match fenced_span(text) {
        Some(span) => span_front_matter(span),
        None => no_front_matter(),
    }
}

/// The body of a file: what follows the closing fence, without the white
/// space at its start; the whole text where there are no two fences.
pub open spec fn body_of(text: Seq<char>) -> Seq<char> {
    match closing_fence(text) {
        Some(at) => trim_start(text.skip(at + 3)),
        None => text,
    }
}

/// Splits a file at its fences: the span between them, if the file has two,
/// and the body.
pub fn split_frontmatter(md_content: &str) -> (r: (Option<String>, String))
    ensures
        option_view(r.0) == fenced_span(md_content@),
        r.1@ == body_of(md_content@),
{
    let chars = chars_of(md_content);
    let fence = chars_of("---");
    proof {
        reveal_strlit("---");
    }
    if !matches_at(&chars, &fence, 0) {
        return (None, md_content.to_owned());
    }
    match find(&chars, &fence, 3) {
        Some(at) => {
            proof {
                lemma_find_from(chars@, fence@, 3);
            }
            let span = string_of_range(&chars, 3, at);
            let body_start = skip_whitespace(&chars, at + 3);
            let body = string_of_range(&chars, body_start, chars.len());
            proof {
                let rest = md_content@.skip(at + 3);
                lemma_leading_whitespace(rest);
                assert(body@ =~= trim_start(rest));
            }
            (Some(span), body)
        },
        None => (None, md_content.to_owned()),
    }
}

/// Splits a file into its front matter and its body.
///
/// A text that does not begin with `---`, or that has no second `---`, is
/// all body and has no front matter. Otherwise the span between the two
/// fences is read as YAML; if that fails in any way every field is absent,
/// and the body is what follows the second fence either way. `filename`
/// plays no part in the result.
pub fn extract_frontmatter(md_content: &str, filename: &str) -> (r: (PageFrontMatter, String))
    ensures
        r.0@ == front_matter_of(md_content@),
        r.1@ == body_of(md_content@),
{
    let (span, body) = split_frontmatter(md_content);
    match span {
        Some(span) => (read_front_matter_span(span.as_str()), body),
        None => (PageFrontMatter::default(), body),
    }
}

/// What pulldown-cmark reads in a Markdown body, event by event: the
/// destination where the event opens a link, `None` for any other event.
/// Strikethrough and tables are switched on.
pub uninterp spec fn markdown_events(body: Seq<char>) -> Seq<Option<Seq<char>>>;

/// The HTML that pulldown-cmark writes for a Markdown body when the link
/// opened by event `i` gets the destination `destinations[i]`, wherever that
/// is not `None`. Strikethrough and tables are switched on.
pub uninterp spec fn markdown_html(body: Seq<char>, destinations: Seq<Option<Seq<char>>>) -> Seq<
    char,
>;

/// `pulldown_cmark::Parser::new_ext` with strikethrough and tables: one
/// entry for each event that the parser gives, in order.
#[verifier::external_body]
fn read_markdown_events(body: &str) -> (r: Vec<Option<String>>)
    ensures
        options_view(r@) == markdown_events(body@),
{
    let mut options = Options::empty();
    options.insert(Options::ENABLE_STRIKETHROUGH);
    options.insert(Options::ENABLE_TABLES);
    Parser::new_ext(body, options).map(|event| match event {
        Event::Start(Tag::Link { dest_url, .. }) => Some(dest_url.to_string()),
        _ => None,
    }).collect()
}

/// `pulldown_cmark::html::push_html` over the events of the same parser,
/// each link given the destination that stands for its event.
#[verifier::external_body]
fn write_markdown_html(body: &str, destinations: &Vec<Option<String>>) -> (r: String)
    ensures
        r@ == markdown_html(body@, options_view(destinations@)),
{
    let mut options = Options::empty();
    options.insert(Options::ENABLE_STRIKETHROUGH);
    options.insert(Options::ENABLE_TABLES);
    let events = Parser::new_ext(body, options).zip(destinations.iter()).map(|pair| match pair {
        (Event::Start(Tag::Link { link_type, title, id, .. }), Some(url)) => {
            Event::Start(Tag::Link { link_type, dest_url: url.clone().into(), title, id })
        },
        (event, _) => event,
    });
    let mut out = String::new();
    html::push_html(&mut out, events);
    out
}

/// The resolver may answer `out` when asked for `destination`.
pub open spec fn resolves_to<F: Fn(&str) -> String>(
    resolver: F,
    destination: Seq<char>,
    out: Seq<char>,
) -> bool {
    exists|asked: &str, answer: String|
        asked@ == destination && answer@ == out && #[trigger] resolver.ensures((asked,), answer)
}

/// `destinations` holds, for each event that opens a link, an answer of the
/// resolver to the destination of that link, and `None` for every other
/// event.
pub open spec fn rewritten_by<F: Fn(&str) -> String>(
    resolver: F,
    events: Seq<Option<Seq<char>>>,
    destinations: Seq<Option<Seq<char>>>,
) -> bool {
    &&& destinations.len() == events.len()
    &&& forall|i: int|
        0 <= i < events.len() ==> match #[trigger] events[i] {
            Some(destination) => destinations[i] is Some && resolves_to(
                resolver,
                destination,
                destinations[i]->0,
            ),
            None => destinations[i] is None,
        }
}

/// Asks the resolver for every link among the events, in order: what comes
/// back has, for each event that opens a link, the answer of the resolver to
/// its destination, and `None` for every other event.
pub fn resolve_destinations<F: Fn(&str) -> String>(events: &Vec<Option<String>>, resolver: &F) -> (r:
    Vec<Option<String>>)
    requires
        forall|destination: &str| #[trigger] resolver.requires((destination,)),
    ensures
        rewritten_by(*resolver, options_view(events@), options_view(r@)),
{
    let mut destinations: Vec<Option<String>> = Vec::new();
    let mut i: usize = 0;
    while i < events.len()
        invariant
            i <= events.len(),
            destinations.len() == i,
            forall|destination: &str| #[trigger] resolver.requires((destination,)),
            forall|j: int|
                0 <= j < i ==> match #[trigger] events@[j] {
                    Some(destination) => destinations@[j] is Some && resolves_to(
                        *resolver,
                        destination@,
                        destinations@[j]->0@,
                    ),
                    None => destinations@[j] is None,
                },
        decreases events.len() - i,
    {
        match &events[i] {
            Some(destination) => {
                let answer = resolver(destination.as_str());
                assert(resolves_to(*resolver, destination@, answer@));
                destinations.push(Some(answer));
            },
            None => {
                destinations.push(None);
            },
        }
        i += 1;
    }
    proof {
        let asked = options_view(events@);
        let answered = options_view(destinations@);
        assert forall|j: int| 0 <= j < asked.len() implies match #[trigger] asked[j] {
            Some(destination) => answered[j] is Some && resolves_to(
                *resolver,
                destination,
                answered[j]->0,
            ),
            None => answered[j] is None,
        } by {
            assert(asked[j] == option_view(events@[j]));
        }
    }
    destinations
}

/// Renders a Markdown body to HTML, the destination of every link replaced
/// by what `resolver` answers for it. The resolver is asked once for each
/// link, in the order of the links; everything else passes through.
pub fn compile_markdown_to_html<F: Fn(&str) -> String>(markdown_content: &str, resolver: F) -> (r:
    String)
    requires
        forall|destination: &str| #[trigger] resolver.requires((destination,)),
    ensures
        exists|destinations: Seq<Option<Seq<char>>>|
            rewritten_by(resolver, markdown_events(markdown_content@), destinations) && r@
                == #[trigger] markdown_html(markdown_content@, destinations),
{
    let events = read_markdown_events(markdown_content);
    let destinations = resolve_destinations(&events, &resolver);
    write_markdown_html(markdown_content, &destinations)
}

} // verus!
