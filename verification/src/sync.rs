//! The sync orchestrator: discovery, validation and ingestion of pages.
//!
//! The orchestrator owns the manifest and the read cache. It never reads a
//! file and never writes to the repository: the caller does both and hands
//! over what it read and whether it could write. What is decided here is
//! which drafts a batch accepts, what the manifest binds afterwards, what
//! each page looks like and what the cache holds.

use vstd::prelude::*;
use crate::cache::SyncCache;
use crate::config::ChasquiConfig;
use crate::datetime::{resolve_datetime, resolved_datetime};
use crate::domain::{strings_view, Page, PageView, Timestamp};
use crate::identity::{
    content_filename, default_identifier, text_hash, filename_of, generate_default_identifier,
    md_content_hash, path_below, strip_root,
};
use crate::io::ContentMetadata;
use crate::manifest::{bound, inverse, one_to_one, resolved_link, Manifest};
use crate::markdown::{
    body_of, compile_markdown_to_html, extract_frontmatter, front_matter_of, markdown_events,
    markdown_html, resolves_to, rewritten_by, PageFrontMatter, PageFrontMatterView,
};
use crate::model::{PageDraft, PageDraftView};
use crate::text::same_text;

verus! {

/// Why a file did not become a draft.
#[derive(Debug, PartialEq, Eq, Structural, Clone, Copy)]
pub enum SyncError {
    /// The path does not lie under the content root.
    ContentOutsideRoot,
}

impl SyncError {
    /// The message that goes with the error.
    pub fn message(&self) -> (r: String)
        ensures
            r@ == "File is outside of content dir"@,
    {
        "File is outside of content dir".to_owned()
    }
}

/// The draft that the parts of a file make: the identifier of the front
/// matter, or else the default one of the path; the tags of the front
/// matter, or else none.
pub open spec fn draft_from_parts(
    relative: Seq<char>,
    front_matter: PageFrontMatterView,
    content_body: Seq<char>,
    md_content_hash: Seq<char>,
    modified_datetime: Option<Timestamp>,
    created_datetime: Option<Timestamp>,
) -> PageDraftView {
    PageDraftView {
        filename: content_filename(relative),
        identifier: match front_matter.identifier {
            Some(identifier) => identifier,
            None => default_identifier(relative),
        },
        name: front_matter.name,
        content_body,
        md_content_hash,
        tags: match front_matter.tags {
            Some(tags) => tags,
            None => Seq::empty(),
        },
        modified_datetime,
        created_datetime,
    }
}

/// The draft of the file at `path` with the raw text `raw` and the file
/// dates `metadata`; `None` where the path does not lie under the content
/// root.
pub open spec fn draft_of(
    content_dir: Seq<char>,
    path: Seq<char>,
    raw: Seq<char>,
    metadata: ContentMetadata,
) -> Option<PageDraftView> {
    match path_below(content_dir, path) {
        Some(relative) => {
            let front_matter = front_matter_of(raw);
            Some(
                draft_from_parts(
                    relative,
                    front_matter,
                    body_of(raw),
                    text_hash(raw),
                    resolved_datetime(front_matter.modified_datetime, metadata.modified),
                    resolved_datetime(front_matter.created_datetime, metadata.created),
                ),
            )
        },
        None => None,
    }
}

/// Puts a draft together from the parts of a file: its path below the
/// content root, its front matter, its body, its hash and its dates.
pub fn assemble_draft(
    relative_path: &str,
    front_matter: PageFrontMatter,
    content_body: String,
    md_content_hash: String,
    modified_datetime: Option<Timestamp>,
    created_datetime: Option<Timestamp>,
) -> (r: PageDraft)
    ensures
        r@ == draft_from_parts(
            relative_path@,
            front_matter@,
            content_body@,
            md_content_hash@,
            modified_datetime,
            created_datetime,
        ),
{
    let identifier = match front_matter.identifier {
        Some(identifier) => identifier,
        None => generate_default_identifier(relative_path),
    };
    let tags = match front_matter.tags {
        Some(tags) => tags,
        None => {
            let none: Vec<String> = Vec::new();
            assert(strings_view(none@) =~= Seq::<Seq<char>>::empty());
            none
        },
    };
    PageDraft {
        filename: filename_of(relative_path),
        identifier,
        name: front_matter.name,
        content_body,
        md_content_hash,
        tags,
        modified_datetime,
        created_datetime,
    }
}

/// Makes the draft of one file from what was read of it.
///
/// The identifier is the one of the front matter, else the default one of
/// the path; the hash is taken over the raw text, front matter included;
/// each date is the one of the front matter where it can be read, else the
/// one of the file.
pub fn discover_page_draft(
    config: &ChasquiConfig,
    path: &str,
    raw_markdown: &str,
    metadata: &ContentMetadata,
) -> (r: Result<PageDraft, SyncError>)
    ensures
        match r {
            Ok(draft) => draft_of(config.content_dir@, path@, raw_markdown@, *metadata) == Some(
                draft@,
            ),
            Err(e) => draft_of(config.content_dir@, path@, raw_markdown@, *metadata) is None && e
                == SyncError::ContentOutsideRoot,
        },
{
    let relative = match strip_root(config.content_dir.as_str(), path) {
        Some(relative) => relative,
        None => {
            return Err(SyncError::ContentOutsideRoot);
        },
    };
    let (front_matter, content_body) = extract_frontmatter(raw_markdown, relative.as_str());
    let md_content_hash = md_content_hash(raw_markdown);
    let modified_datetime = resolve_datetime(&front_matter.modified_datetime, metadata.modified);
    let created_datetime = resolve_datetime(&front_matter.created_datetime, metadata.created);
    Ok(
        assemble_draft(
            relative.as_str(),
            front_matter,
            content_body,
            md_content_hash,
            modified_datetime,
            created_datetime,
        ),
    )
}

/// The views of a vector of drafts.
pub open spec fn drafts_view(drafts: Seq<PageDraft>) -> Seq<PageDraftView> {
    Seq::new(drafts.len(), |i: int| drafts[i]@)
}

/// How many of the drafts claim the identifier.
pub open spec fn claims(drafts: Seq<PageDraftView>, identifier: Seq<char>) -> nat
    decreases drafts.len(),
{
    if drafts.len() == 0 {
        0
    } else {
        claims(drafts.drop_last(), identifier) + if drafts.last().identifier == identifier {
            1nat
        } else {
            0nat
        }
    }
}

/// The identifier of the draft is bound in the manifest to another file.
pub open spec fn owned_by_other(m: Map<Seq<char>, Seq<char>>, draft: PageDraftView) -> bool {
    inverse(m).contains_key(draft.identifier) && inverse(m)[draft.identifier] != draft.filename
}

/// The collision policy: a draft passes when no other draft of the batch
/// claims its identifier and no other file holds it.
pub open spec fn passes(
    m: Map<Seq<char>, Seq<char>>,
    batch: Seq<PageDraftView>,
    draft: PageDraftView,
) -> bool {
    claims(batch, draft.identifier) <= 1 && !owned_by_other(m, draft)
}

/// Those of `some` that pass the collision policy of the batch, in order.
pub open spec fn passing(
    m: Map<Seq<char>, Seq<char>>,
    batch: Seq<PageDraftView>,
    some: Seq<PageDraftView>,
) -> Seq<PageDraftView>
    decreases some.len(),
{
    if some.len() == 0 {
        Seq::empty()
    } else {
        let init = passing(m, batch, some.drop_last());
        if passes(m, batch, some.last()) {
            init.push(some.last())
        } else {
            init
        }
    }
}

/// The drafts of a batch that pass its collision policy, in order.
pub open spec fn valid_drafts(m: Map<Seq<char>, Seq<char>>, batch: Seq<PageDraftView>) -> Seq<
    PageDraftView,
> {
    passing(m, batch, batch)
}

/// The manifest after the drafts are registered, one after the other.
pub open spec fn registered(m: Map<Seq<char>, Seq<char>>, drafts: Seq<PageDraftView>) -> Map<
    Seq<char>,
    Seq<char>,
>
    decreases drafts.len(),
{
    if drafts.len() == 0 {
        m
    } else {
        bound(registered(m, drafts.drop_last()), drafts.last().filename, drafts.last().identifier)
    }
}

/// `destinations` is what the manifest answers for the links among the
/// events: for each event that opens a link the rewritten link, `None` for
/// every other.
pub open spec fn resolved_destinations(
    m: Map<Seq<char>, Seq<char>>,
    events: Seq<Option<Seq<char>>>,
    filename: Seq<char>,
    serve_home: bool,
    home_identifier: Seq<char>,
) -> Seq<Option<Seq<char>>> {
    Seq::new(
        events.len(),
        |i: int|
            match events[i] {
                Some(link) => Some(resolved_link(m, link, filename, serve_home, home_identifier)),
                None => None,
            },
    )
}

/// The HTML of a body that stands in the file `filename`, every link
/// rewritten by the manifest.
pub open spec fn rendered_html(
    m: Map<Seq<char>, Seq<char>>,
    body: Seq<char>,
    filename: Seq<char>,
    serve_home: bool,
    home_identifier: Seq<char>,
) -> Seq<char> {
    markdown_html(
        body,
        resolved_destinations(m, markdown_events(body), filename, serve_home, home_identifier),
    )
}

/// The page with the fields of a draft and the given HTML.
pub open spec fn page_with_html(draft: PageDraftView, html_content: Seq<char>) -> PageView {
    PageView {
        identifier: draft.identifier,
        filename: draft.filename,
        name: draft.name,
        html_content,
        md_content: draft.content_body,
        md_content_hash: draft.md_content_hash,
        tags: draft.tags,
        modified_datetime: draft.modified_datetime,
        created_datetime: draft.created_datetime,
    }
}

/// The page that a draft becomes under a manifest.
pub open spec fn page_of_draft(
    m: Map<Seq<char>, Seq<char>>,
    draft: PageDraftView,
    serve_home: bool,
    home_identifier: Seq<char>,
) -> PageView {
    page_with_html(
        draft,
        rendered_html(m, draft.content_body, draft.filename, serve_home, home_identifier),
    )
}

/// Makes the page of a draft from its rendered HTML.
pub fn page_from_draft(draft: PageDraft, html_content: String) -> (page: Page)
    ensures
        page@ == page_with_html(draft@, html_content@),
{
    Page {
        identifier: draft.identifier,
        filename: draft.filename,
        name: draft.name,
        html_content,
        md_content: draft.content_body,
        md_content_hash: draft.md_content_hash,
        tags: draft.tags,
        modified_datetime: draft.modified_datetime,
        created_datetime: draft.created_datetime,
    }
}

/// The slug under which a page is looked up: the home identifier for the
/// empty slug, for `/` and for itself where the home page is served at the
/// root, the slug as it is otherwise.
pub open spec fn lookup_slug(slug: Seq<char>, serve_home: bool, home_identifier: Seq<char>) -> Seq<
    char,
> {
    if serve_home && (slug.len() == 0 || slug =~= seq!['/'] || slug == home_identifier) {
        home_identifier
    } else {
        slug
    }
}

/// Every page of the cache stands under the identifier that the manifest
/// binds to its file.
pub open spec fn coherent(m: Map<Seq<char>, Seq<char>>, c: Map<Seq<char>, PageView>) -> bool {
    forall|f: Seq<char>| #[trigger]
        c.contains_key(f) ==> m.contains_key(f) && m[f] == c[f].identifier && c[f].filename == f
}

/// The views of a vector of pages.
pub open spec fn pages_view(pages: Seq<Page>) -> Seq<PageView> {
    Seq::new(pages.len(), |i: int| pages[i]@)
}

/// The manifest that knows the given pages, registered in order.
pub open spec fn loaded_manifest(pages: Seq<PageView>) -> Map<Seq<char>, Seq<char>>
    decreases pages.len(),
{
    if pages.len() == 0 {
        Map::empty()
    } else {
        bound(loaded_manifest(pages.drop_last()), pages.last().filename, pages.last().identifier)
    }
}

/// The cache that holds the given pages, put in in order.
pub open spec fn loaded_cache(pages: Seq<PageView>) -> Map<Seq<char>, PageView>
    decreases pages.len(),
{
    if pages.len() == 0 {
        Map::empty()
    } else {
        loaded_cache(pages.drop_last()).insert(pages.last().filename, pages.last())
    }
}

/// The cache after the pages are put in, one after the other.
pub open spec fn cached(c: Map<Seq<char>, PageView>, pages: Seq<PageView>) -> Map<
    Seq<char>,
    PageView,
>
    decreases pages.len(),
{
    if pages.len() == 0 {
        c
    } else {
        cached(c, pages.drop_last()).insert(pages.last().filename, pages.last())
    }
}

/// Those of the pages whose save succeeded, in order: `saved` says of each
/// page whether it did.
pub open spec fn kept(pages: Seq<PageView>, saved: Seq<bool>) -> Seq<PageView>
    decreases pages.len(),
{
    if pages.len() == 0 || saved.len() != pages.len() {
        Seq::empty()
    } else {
        let init = kept(pages.drop_last(), saved.drop_last());
        if saved.last() {
            init.push(pages.last())
        } else {
            init
        }
    }
}

/// The manifest after a batch: the drafts that pass its collision policy,
/// registered in order.
pub open spec fn ingested_manifest(
    m: Map<Seq<char>, Seq<char>>,
    batch: Seq<PageDraftView>,
) -> Map<Seq<char>, Seq<char>> {
    registered(m, valid_drafts(m, batch))
}

/// The pages of the drafts, each rendered under the manifest `m`.
pub open spec fn rendered_pages(
    m: Map<Seq<char>, Seq<char>>,
    drafts: Seq<PageDraftView>,
    serve_home: bool,
    home_identifier: Seq<char>,
) -> Seq<PageView> {
    Seq::new(drafts.len(), |i: int| page_of_draft(m, drafts[i], serve_home, home_identifier))
}

/// Manifest and cache after a batch of drafts whose pages all reached the
/// cache: the valid drafts registered, each rendered under the manifest that
/// knows them all, and the pages put into the cache in order.
pub open spec fn after_batch(
    m: Map<Seq<char>, Seq<char>>,
    c: Map<Seq<char>, PageView>,
    batch: Seq<PageDraftView>,
    serve_home: bool,
    home_identifier: Seq<char>,
) -> (Map<Seq<char>, Seq<char>>, Map<Seq<char>, PageView>) {
    let manifest = ingested_manifest(m, batch);
    (
        manifest,
        cached(c, rendered_pages(manifest, valid_drafts(m, batch), serve_home, home_identifier)),
    )
}

/// The name under which the file at `path` is deleted: its path below the
/// content root, or the path as it is where it does not lie there.
pub open spec fn filename_to_delete(content_dir: Seq<char>, path: Seq<char>) -> Seq<char> {
    match path_below(content_dir, path) {
        Some(relative) => content_filename(relative),
        None => content_filename(path),
    }
}

/// The page that is served under a slug: the one the cache holds for the
/// file that the manifest names.
pub open spec fn served_page(
    m: Map<Seq<char>, Seq<char>>,
    c: Map<Seq<char>, PageView>,
    slug: Seq<char>,
) -> Option<PageView> {
    if inverse(m).contains_key(slug) && c.contains_key(inverse(m)[slug]) {
        Some(c[inverse(m)[slug]])
    } else {
        None
    }
}

/// The orchestrator: the configuration, the manifest and the read cache.
pub struct SyncService {
    config: ChasquiConfig,
    manifest: Manifest,
    cache: SyncCache,
}

impl SyncService {
    /// The manifest: the identifier of each known file.
    pub closed spec fn manifest(&self) -> Map<Seq<char>, Seq<char>> {
        self.manifest@
    }

    /// The cache: the page of each file.
    pub closed spec fn cache(&self) -> Map<Seq<char>, PageView> {
        self.cache@
    }

    /// Whether the home page is served at the root.
    pub closed spec fn serve_home(&self) -> bool {
        self.config.serve_home
    }

    /// The identifier of the home page.
    pub closed spec fn home_identifier(&self) -> Seq<char> {
        self.config.home_identifier@
    }

    /// The content root.
    pub closed spec fn content_dir(&self) -> Seq<char> {
        self.config.content_dir@
    }

    /// Manifest and cache are each well formed.
    pub closed spec fn wf(&self) -> bool {
        self.manifest.wf() && self.cache.wf()
    }

    /// The configuration reads the same in both.
    pub open spec fn same_config(&self, other: SyncService) -> bool {
        &&& self.serve_home() == other.serve_home()
        &&& self.home_identifier() == other.home_identifier()
        &&& self.content_dir() == other.content_dir()
    }

    /// The manifest of a well-formed orchestrator is a bijection: no
    /// identifier is bound to two files.
    pub proof fn lemma_manifest_one_to_one(&self)
        requires
            self.wf(),
        ensures
            one_to_one(self.manifest()),
    {
        self.manifest.lemma_bijection();
    }

    /// The configuration.
    pub fn config(&self) -> (r: &ChasquiConfig)
        ensures
            r.serve_home == self.serve_home(),
            r.home_identifier@ == self.home_identifier(),
            r.content_dir@ == self.content_dir(),
    {
        &self.config
    }

    /// An orchestrator that knows the given pages: each is registered in
    /// the manifest and put into the cache, in order.
    pub fn new(config: ChasquiConfig, pages: Vec<Page>) -> (r: SyncService)
        ensures
            r.wf(),
            r.manifest() == loaded_manifest(pages_view(pages@)),
            r.cache() == loaded_cache(pages_view(pages@)),
            r.serve_home() == config.serve_home,
            r.home_identifier() == config.home_identifier@,
            r.content_dir() == config.content_dir@,
    {
        let mut service =
            SyncService { config, manifest: Manifest::new(), cache: SyncCache::new() };
        let ghost all = pages_view(pages@);
        assert(all.take(0) =~= Seq::<PageView>::empty());
        for page in it: pages
            invariant
                service.wf(),
                pages_view(it.seq()) == all,
                service.manifest() == loaded_manifest(all.take(it.index())),
                service.cache() == loaded_cache(all.take(it.index())),
                service.config == config,
        {
            proof {
                assert(all.take(it.index() + 1).drop_last() =~= all.take(it.index()));
                assert(all.take(it.index() + 1).last() == page@);
            }
            service.manifest.insert(page.filename.clone(), page.identifier.clone());
            service.cache.insert(page);
        }
        assert(all.take(all.len() as int) =~= all);
        service
    }

    /// Applies the collision policy to the drafts of a batch: what comes
    /// back are the drafts that pass, in the order they came in.
    pub fn validate_batch_collisions(&self, drafts: Vec<PageDraft>) -> (r: Vec<PageDraft>)
        requires
            self.wf(),
        ensures
            drafts_view(r@) == valid_drafts(self.manifest(), drafts_view(drafts@)),
    {
        let ghost batch = drafts_view(drafts@);
        let mut out: Vec<PageDraft> = Vec::new();
        let mut i: usize = 0;
        assert(batch.take(0) =~= Seq::<PageDraftView>::empty());
        assert(drafts_view(out@) =~= passing(self.manifest(), batch, batch.take(0)));
        while i < drafts.len()
            invariant
                self.wf(),
                i <= drafts.len(),
                batch == drafts_view(drafts@),
                drafts_view(out@) == passing(self.manifest(), batch, batch.take(i as int)),
            decreases drafts.len() - i,
        {
            let draft = &drafts[i];
            proof {
                assert(batch.take(i + 1).drop_last() =~= batch.take(i as int));
                assert(batch.take(i + 1).last() == draft@);
            }
            let claimed = count_claims(&drafts, draft.identifier.as_str());
            let taken = match self.manifest.get_filename_for_identifier(draft.identifier.as_str()) {
                Some(owner) => owner != draft.filename,
                None => false,
            };
            assert(taken == owned_by_other(self.manifest(), draft@));
            if claimed <= 1 && !taken {
                let ghost before = out@;
                out.push(draft.clone());
                assert(drafts_view(out@) =~= drafts_view(before).push(draft@));
            }
            i += 1;
        }
        assert(batch.take(drafts.len() as int) =~= batch);
        out
    }

    /// Registers the identity of a draft in the manifest.
    pub fn register_file_to_manifest(&mut self, draft: &PageDraft)
        requires
            old(self).wf(),
        ensures
            final(self).wf(),
            final(self).manifest() == bound(
                old(self).manifest(),
                draft@.filename,
                draft@.identifier,
            ),
            final(self).cache() == old(self).cache(),
            final(self).same_config(*old(self)),
    {
        self.manifest.insert(draft.filename.clone(), draft.identifier.clone());
    }

    /// Registers the identities of all the drafts, in order. Doing this
    /// before any page is rendered lets the links among the drafts of one
    /// batch resolve.
    pub fn register_drafts(&mut self, drafts: &Vec<PageDraft>)
        requires
            old(self).wf(),
        ensures
            final(self).wf(),
            final(self).manifest() == registered(old(self).manifest(), drafts_view(drafts@)),
            final(self).cache() == old(self).cache(),
            final(self).same_config(*old(self)),
    {
        let ghost batch = drafts_view(drafts@);
        let mut i: usize = 0;
        assert(batch.take(0) =~= Seq::<PageDraftView>::empty());
        while i < drafts.len()
            invariant
                self.wf(),
                i <= drafts.len(),
                batch == drafts_view(drafts@),
                self.manifest() == registered(old(self).manifest(), batch.take(i as int)),
                self.cache() == old(self).cache(),
                self.same_config(*old(self)),
            decreases drafts.len() - i,
        {
            proof {
                assert(batch.take(i + 1).drop_last() =~= batch.take(i as int));
                assert(batch.take(i + 1).last() == drafts@[i as int]@);
            }
            self.register_file_to_manifest(&drafts[i]);
            i += 1;
        }
        assert(batch.take(drafts.len() as int) =~= batch);
    }

    /// Renders a draft into its page: the body compiled to HTML with every
    /// link resolved against the manifest as it stands.
    pub fn handle_file_changed(&self, draft: PageDraft) -> (page: Page)
        requires
            self.wf(),
        ensures
            page@ == page_of_draft(
                self.manifest(),
                draft@,
                self.serve_home(),
                self.home_identifier(),
            ),
    {
        let html_content = self.render(draft.content_body.as_str(), draft.filename.as_str());
        page_from_draft(draft, html_content)
    }

    /// The HTML of a body that stands in the file `filename`.
    fn render(&self, body: &str, filename: &str) -> (html: String)
        requires
            self.wf(),
        ensures
            html@ == rendered_html(
                self.manifest(),
                body@,
                filename@,
                self.serve_home(),
                self.home_identifier(),
            ),
    {
        let manifest = &self.manifest;
        let config = &self.config;
        let resolver = |link: &str| -> (out: String)
            requires
                manifest.wf(),
            ensures
                out@ == resolved_link(
                    manifest@,
                    link@,
                    filename@,
                    config.serve_home,
                    config.home_identifier@,
                ),
            { manifest.resolve_link(link, filename, config) };
        let html = compile_markdown_to_html(body, resolver);
        proof {
            let events = markdown_events(body@);
            let destinations = choose|destinations: Seq<Option<Seq<char>>>|
                rewritten_by(resolver, events, destinations) && html@ == #[trigger] markdown_html(
                    body@,
                    destinations,
                );
            let expected = resolved_destinations(
                manifest@,
                events,
                filename@,
                config.serve_home,
                config.home_identifier@,
            );
            assert forall|i: int| 0 <= i < events.len() implies destinations[i] == expected[i] by {
                match events[i] {
                    Some(link) => {
                        assert(resolves_to(resolver, link, destinations[i]->0));
                    },
                    None => {},
                }
            }
            assert(destinations =~= expected);
        }
        html
    }

    /// The validation, manifest and rendering passes of a batch: the drafts
    /// that pass the collision policy are registered, all of them before any
    /// is rendered, and then each is rendered into its page. The pages come
    /// back in the order of their drafts; the cache is not touched.
    pub fn ingest(&mut self, drafts: Vec<PageDraft>) -> (pages: Vec<Page>)
        requires
            old(self).wf(),
        ensures
            final(self).wf(),
            final(self).manifest() == ingested_manifest(
                old(self).manifest(),
                drafts_view(drafts@),
            ),
            pages_view(pages@) == rendered_pages(
                final(self).manifest(),
                valid_drafts(old(self).manifest(), drafts_view(drafts@)),
                old(self).serve_home(),
                old(self).home_identifier(),
            ),
            final(self).cache() == old(self).cache(),
            final(self).same_config(*old(self)),
    {
        let valid = self.validate_batch_collisions(drafts);
        self.register_drafts(&valid);
        let ghost accepted = drafts_view(valid@);
        let mut pages: Vec<Page> = Vec::new();
        for draft in it: valid
            invariant
                self.wf(),
                drafts_view(it.seq()) == accepted,
                pages.len() == it.index(),
                forall|j: int|
                    0 <= j < pages.len() ==> (#[trigger] pages@[j])@ == page_of_draft(
                        self.manifest(),
                        accepted[j],
                        self.serve_home(),
                        self.home_identifier(),
                    ),
        {
            assert(accepted[it.index()] == draft@);
            let page = self.handle_file_changed(draft);
            pages.push(page);
        }
        assert(pages_view(pages@) =~= rendered_pages(
            self.manifest(),
            accepted,
            self.serve_home(),
            self.home_identifier(),
        ));
        pages
    }

    /// Puts a page into the cache, under its file name.
    pub fn update_cache(&mut self, page: Page)
        requires
            old(self).wf(),
        ensures
            final(self).wf(),
            final(self).cache() == old(self).cache().insert(page@.filename, page@),
            final(self).manifest() == old(self).manifest(),
            final(self).same_config(*old(self)),
    {
        self.cache.insert(page);
    }

    /// Forgets a file: its page leaves the cache and its identity the
    /// manifest.
    pub fn remove_from_cache(&mut self, filename: &str)
        requires
            old(self).wf(),
        ensures
            final(self).wf(),
            final(self).cache() == old(self).cache().remove(filename@),
            final(self).manifest() == old(self).manifest().remove(filename@),
            final(self).same_config(*old(self)),
    {
        self.cache.remove(filename);
        self.manifest.remove_by_filename(filename);
    }

    /// The name under which the file at `path` is deleted.
    pub fn deleted_filename(&self, path: &str) -> (r: String)
        ensures
            r@ == filename_to_delete(self.content_dir(), path@),
    {
        match strip_root(self.config.content_dir.as_str(), path) {
            Some(relative) => filename_of(relative.as_str()),
            None => filename_of(path),
        }
    }

    /// Takes note that the file at `path` is gone: the file leaves cache and
    /// manifest. What comes back is the name under which it was kept.
    pub fn handle_file_deleted(&mut self, path: &str) -> (filename: String)
        requires
            old(self).wf(),
        ensures
            final(self).wf(),
            filename@ == filename_to_delete(old(self).content_dir(), path@),
            final(self).cache() == old(self).cache().remove(filename@),
            final(self).manifest() == old(self).manifest().remove(filename@),
            final(self).same_config(*old(self)),
    {
        let filename = self.deleted_filename(path);
        self.remove_from_cache(filename.as_str());
        filename
    }

    /// Copies of all pages of the cache: each file once, with its page.
    pub fn get_all_pages(&self) -> (r: Vec<Page>)
        requires
            self.wf(),
        ensures
            crate::cache::distinct_filenames(r@),
            crate::cache::pages_map(r@) == self.cache(),
            r.len() == self.cache().dom().len(),
    {
        self.cache.snapshot_all()
    }

    /// The page that is served under a slug, if there is one: the slug is
    /// looked up in the manifest, and the page of that file in the cache.
    pub fn get_page_by_identifier(&self, identifier: &str) -> (r: Option<Page>)
        requires
            self.wf(),
        ensures
            match r {
                Some(page) => served_page(
                    self.manifest(),
                    self.cache(),
                    lookup_slug(identifier@, self.serve_home(), self.home_identifier()),
                ) == Some(page@),
                None => served_page(
                    self.manifest(),
                    self.cache(),
                    lookup_slug(identifier@, self.serve_home(), self.home_identifier()),
                ) is None,
            },
    {
        proof {
            reveal_strlit("/");
            reveal_strlit("");
        }
        let is_empty = same_text(identifier, "");
        let is_root = same_text(identifier, "/");
        let is_named = same_text(identifier, self.config.home_identifier.as_str());
        assert(is_empty == (identifier@.len() == 0)) by {
            if identifier@.len() == 0 {
                assert(identifier@ =~= ""@);
            }
        }
        assert(is_root == (identifier@ =~= seq!['/'])) by {
            assert("/"@ =~= seq!['/']);
        }
        let is_home = self.config.serve_home && (is_empty || is_root || is_named);
        let filename = if is_home {
            self.manifest.get_filename_for_identifier(self.config.home_identifier.as_str())
        } else {
            self.manifest.get_filename_for_identifier(identifier)
        };
        match filename {
            Some(filename) => self.cache.get_by_filename(filename.as_str()),
            None => None,
        }
    }

}

/// How many of the drafts claim the identifier; counting stops at two.
fn count_claims(drafts: &Vec<PageDraft>, identifier: &str) -> (r: usize)
    ensures
        r <= 2,
        r <= 1 ==> r == claims(drafts_view(drafts@), identifier@),
        r == 2 ==> claims(drafts_view(drafts@), identifier@) >= 2,
{
    let wanted = identifier.to_owned();
    let ghost batch = drafts_view(drafts@);
    let mut count: usize = 0;
    let mut i: usize = 0;
    assert(batch.take(0) =~= Seq::<PageDraftView>::empty());
    while i < drafts.len()
        invariant
            i <= drafts.len(),
            wanted@ == identifier@,
            batch == drafts_view(drafts@),
            count <= 1,
            count == claims(batch.take(i as int), identifier@),
        decreases drafts.len() - i,
    {
        proof {
            assert(batch.take(i + 1).drop_last() =~= batch.take(i as int));
            assert(batch.take(i + 1).last() == drafts@[i as int]@);
        }
        if drafts[i].identifier == wanted {
            if count == 1 {
                proof {
                    lemma_claims_grow(batch, i + 1, identifier@);
                }
                return 2;
            }
            count += 1;
        }
        i += 1;
    }
    assert(batch.take(drafts.len() as int) =~= batch);
    count
}

/// A longer stretch of the batch holds at least as many claims.
pub proof fn lemma_claims_grow(batch: Seq<PageDraftView>, upto: int, identifier: Seq<char>)
    requires
        0 <= upto <= batch.len(),
    ensures
        claims(batch.take(upto), identifier) <= claims(batch, identifier),
    decreases batch.len() - upto,
{
    if upto == batch.len() {
        assert(batch.take(upto) =~= batch);
    } else {
        lemma_claims_grow(batch, upto + 1, identifier);
        assert(batch.take(upto + 1).drop_last() =~= batch.take(upto));
    }
}

} // verus!
