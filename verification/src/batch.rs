//! One batch, step by step.
//!
//! A batch deletes, then discovers, then validates and registers, then
//! renders and saves. The deleting, the reading and the saving are the
//! caller's; after each the caller reports what came of it and is told what
//! to do next. A failed deletion ends the batch, a file that cannot be read
//! is passed over, and a page that cannot be saved stays out of the cache
//! while the pages after it go on.

use vstd::prelude::*;
use crate::domain::{Page, PageView};
use crate::io::ContentMetadata;
use crate::model::{PageDraft, PageDraftView};
use crate::sync::{
    after_batch, cached, discover_page_draft, draft_of, drafts_view, filename_to_delete,
    ingested_manifest, kept, pages_view, rendered_pages, valid_drafts, SyncService,
};

verus! {

/// Where a batch stands.
#[derive(Clone, Copy, Debug, PartialEq, Eq, Structural)]
pub enum BatchStage {
    /// Deletions are being carried out.
    Deleting,
    /// Changed files are being read.
    Discovering,
    /// Pages are being saved.
    Saving,
    /// Nothing is left to do.
    Finished,
}

/// What was read of one file.
#[derive(Debug)]
pub struct FileContent {
    pub raw_markdown: String,
    pub metadata: ContentMetadata,
}

/// What the caller reports: the outcome of the action it was last told.
#[derive(Debug)]
pub enum BatchEvent {
    /// Nothing was asked yet.
    Begin,
    /// The repository was asked to delete a file.
    Deleted { ok: bool },
    /// A file was read, or could not be.
    FileRead { content: Option<FileContent> },
    /// The repository was asked to save a page.
    Saved { ok: bool },
}

/// How a batch ended.
#[derive(Clone, Copy, Debug, PartialEq, Eq, Structural)]
pub struct BatchReport {
    /// A deletion failed and the batch stopped there.
    pub aborted: bool,
    /// Files that could not be read or lie outside the content root.
    pub skipped: usize,
    /// Pages that the repository did not take.
    pub failed_saves: usize,
}

impl BatchReport {
    /// The batch ran to its end and every page was saved.
    pub open spec fn succeeded(self) -> bool {
        !self.aborted && self.failed_saves == 0
    }

    /// Whether the batch ran to its end and every page was saved.
    pub fn is_success(&self) -> (r: bool)
        ensures
            r == self.succeeded(),
    {
        !self.aborted && self.failed_saves == 0
    }
}

/// What the caller is to do next.
#[derive(Debug)]
pub enum BatchAction {
    /// Delete the page of this file from the repository.
    DeletePage { filename: String },
    /// Read the file at this path, text and dates.
    ReadFile { path: String },
    /// Save this page to the repository.
    SavePage { page: Page },
    /// The batch is over.
    Finished { report: BatchReport },
}

/// The views of the strings of a vector.
pub open spec fn paths_view(paths: Seq<String>) -> Seq<Seq<char>> {
    Seq::new(paths.len(), |i: int| paths[i]@)
}

/// The names under which the files at the paths are deleted.
pub open spec fn deletion_names(content_dir: Seq<char>, paths: Seq<Seq<char>>) -> Seq<Seq<char>> {
    Seq::new(paths.len(), |i: int| filename_to_delete(content_dir, paths[i]))
}

/// Manifest and cache after the files are forgotten, one after the other.
pub open spec fn forgotten(
    m: Map<Seq<char>, Seq<char>>,
    c: Map<Seq<char>, PageView>,
    names: Seq<Seq<char>>,
) -> (Map<Seq<char>, Seq<char>>, Map<Seq<char>, PageView>)
    decreases names.len(),
{
    if names.len() == 0 {
        (m, c)
    } else {
        let before = forgotten(m, c, names.drop_last());
        (before.0.remove(names.last()), before.1.remove(names.last()))
    }
}

/// The state of one batch between two steps.
pub struct Batch {
    changes: Vec<String>,
    deletions: Vec<String>,
    stage: BatchStage,
    done: usize,
    pending: bool,
    drafts: Vec<PageDraft>,
    pages: Vec<Page>,
    skipped: usize,
    failed_saves: usize,
    aborted: bool,
    origin: Ghost<(Map<Seq<char>, Seq<char>>, Map<Seq<char>, PageView>)>,
    discovered: Ghost<Seq<PageDraftView>>,
    committed: Ghost<Seq<PageView>>,
    saved: Ghost<Seq<bool>>,
}

impl Batch {
    /// Where the batch stands.
    pub closed spec fn stage(&self) -> BatchStage {
        self.stage
    }

    /// How many items of the current stage have been dealt with.
    pub closed spec fn done(&self) -> int {
        self.done as int
    }

    /// Whether an action was handed out whose outcome is still to come. It
    /// concerns the item at place `done` of the current stage.
    pub closed spec fn pending(&self) -> bool {
        self.pending
    }

    /// The paths to delete.
    pub closed spec fn deletions(&self) -> Seq<Seq<char>> {
        paths_view(self.deletions@)
    }

    /// The paths of the changed files.
    pub closed spec fn changes(&self) -> Seq<Seq<char>> {
        paths_view(self.changes@)
    }

    /// Manifest and cache as they were when the batch began.
    pub closed spec fn origin(&self) -> (Map<Seq<char>, Seq<char>>, Map<Seq<char>, PageView>) {
        self.origin@
    }

    /// The drafts discovered so far, in the order of their files.
    pub closed spec fn discovered(&self) -> Seq<PageDraftView> {
        self.discovered@
    }

    /// The pages to save, once the drafts are ingested.
    pub closed spec fn pages(&self) -> Seq<PageView> {
        pages_view(self.pages@)
    }

    /// The pages that were saved and put into the cache so far.
    pub closed spec fn committed(&self) -> Seq<PageView> {
        self.committed@
    }

    /// Of each page whose save was answered so far, whether it succeeded.
    pub closed spec fn saved(&self) -> Seq<bool> {
        self.saved@
    }

    /// How the batch stands with respect to its report.
    pub closed spec fn report(&self) -> BatchReport {
        BatchReport {
            aborted: self.aborted,
            skipped: self.skipped,
            failed_saves: self.failed_saves,
        }
    }

    /// The drafts in hand are the drafts discovered, until they are
    /// ingested.
    pub closed spec fn wf(&self) -> bool {
        match self.stage {
            BatchStage::Deleting => drafts_view(self.drafts@) == self.discovered@,
            BatchStage::Discovering => drafts_view(self.drafts@) == self.discovered@,
            _ => true,
        }
    }

    /// Manifest and cache once all deletions of the batch are applied.
    pub open spec fn after_deletions(&self, content_dir: Seq<char>) -> (
        Map<Seq<char>, Seq<char>>,
        Map<Seq<char>, PageView>,
    ) {
        forgotten(self.origin().0, self.origin().1, deletion_names(content_dir, self.deletions()))
    }

    /// The drafts are ingested: the manifest knows the valid ones, the pages
    /// to save are theirs, and the cache holds the pages committed so far.
    pub open spec fn ingested(&self, service: &SyncService) -> bool {
        let cleared = self.after_deletions(service.content_dir());
        &&& service.manifest() == ingested_manifest(cleared.0, self.discovered())
        &&& self.pages() == rendered_pages(
            service.manifest(),
            valid_drafts(cleared.0, self.discovered()),
            service.serve_home(),
            service.home_identifier(),
        )
        &&& service.cache() == cached(cleared.1, self.committed())
    }

    /// The batch and the orchestrator are in step: manifest and cache are
    /// what the steps taken so far make of the state the batch began with.
    pub open spec fn in_step_with(&self, service: &SyncService) -> bool {
        let names = deletion_names(service.content_dir(), self.deletions());
        &&& self.wf()
        &&& service.wf()
        &&& match self.stage() {
            BatchStage::Deleting => {
                &&& 0 <= self.done() <= self.deletions().len()
                &&& (self.pending() ==> self.done() < self.deletions().len())
                &&& (service.manifest(), service.cache()) == forgotten(
                    self.origin().0,
                    self.origin().1,
                    names.take(self.done()),
                )
                &&& self.discovered().len() == 0
                &&& self.pages().len() == 0
                &&& self.committed().len() == 0
                &&& self.saved().len() == 0
                &&& self.report() == (BatchReport { aborted: false, skipped: 0, failed_saves: 0 })
            },
            BatchStage::Discovering => {
                &&& 0 <= self.done() <= self.changes().len()
                &&& (self.pending() ==> self.done() < self.changes().len())
                &&& (service.manifest(), service.cache()) == self.after_deletions(
                    service.content_dir(),
                )
                &&& self.discovered().len() + self.report().skipped == self.done()
                &&& self.pages().len() == 0
                &&& self.committed().len() == 0
                &&& self.saved().len() == 0
                &&& self.report().failed_saves == 0
                &&& !self.report().aborted
            },
            BatchStage::Saving => {
                &&& 0 <= self.done() <= self.pages().len()
                &&& (self.pending() ==> self.done() < self.pages().len())
                &&& self.ingested(service)
                &&& self.saved().len() == self.done()
                &&& self.committed() == kept(self.pages().take(self.done()), self.saved())
                &&& self.committed().len() + self.report().failed_saves == self.done()
                &&& (self.report().failed_saves == 0 ==> self.committed() == self.pages().take(
                    self.done(),
                ))
                &&& !self.report().aborted
            },
            BatchStage::Finished => {
                &&& !self.pending()
                &&& (self.report().aborted ==> {
                    &&& 0 <= self.done() <= self.deletions().len()
                    &&& (service.manifest(), service.cache()) == forgotten(
                        self.origin().0,
                        self.origin().1,
                        names.take(self.done()),
                    )
                })
                &&& (!self.report().aborted ==> {
                    &&& self.done() == self.pages().len()
                    &&& self.ingested(service)
                    &&& self.saved().len() == self.pages().len()
                    &&& self.committed() == kept(self.pages(), self.saved())
                    &&& self.committed().len() + self.report().failed_saves == self.pages().len()
                    &&& (self.report().failed_saves == 0 ==> self.committed() == self.pages())
                })
            },
        }
    }
}

/// Where a batch stands once the outcome of its pending action is taken in:
/// a failed deletion ends it, any other outcome moves on by one item.
pub open spec fn absorbed(before: Batch, event: BatchEvent) -> (BatchStage, int) {
    if !before.pending() {
        (before.stage(), before.done())
    } else if before.stage() == BatchStage::Deleting && event != (BatchEvent::Deleted {
        ok: true,
    }) {
        (BatchStage::Finished, before.done())
    } else {
        (before.stage(), before.done() + 1)
    }
}

/// Where a batch comes to rest: at the next item of its stage, or else at
/// the first item of the next stage that has one, or else at the end.
pub open spec fn landing(
    stage: BatchStage,
    done: int,
    deletions: int,
    changes: int,
    pages: int,
) -> (BatchStage, int) {
    match stage {
        BatchStage::Deleting => if done < deletions {
            (BatchStage::Deleting, done)
        } else if 0 < changes {
            (BatchStage::Discovering, 0)
        } else if 0 < pages {
            (BatchStage::Saving, 0)
        } else {
            (BatchStage::Finished, pages)
        },
        BatchStage::Discovering => if done < changes {
            (BatchStage::Discovering, done)
        } else if 0 < pages {
            (BatchStage::Saving, 0)
        } else {
            (BatchStage::Finished, pages)
        },
        BatchStage::Saving => if done < pages {
            (BatchStage::Saving, done)
        } else {
            (BatchStage::Finished, pages)
        },
        BatchStage::Finished => (BatchStage::Finished, done),
    }
}

/// What taking in the outcome of a pending action does, stage by stage.
///
/// A deletion that succeeded forgets the file; one that failed ends the
/// batch and changes nothing. A file that was read gives a draft, unless it
/// lies outside the content root; that one and a file that was not read are
/// counted as skipped. A page that was saved enters the cache; one that was
/// not is counted as failed.
pub open spec fn outcome_taken_in(
    before: Batch,
    service_before: SyncService,
    event: BatchEvent,
    after: Batch,
    service_after: SyncService,
) -> bool {
    let item = before.done();
    match before.stage() {
        BatchStage::Deleting => {
            let name = filename_to_delete(service_before.content_dir(), before.deletions()[item]);
            &&& after.discovered() == before.discovered()
            &&& after.committed() == before.committed()
            &&& after.saved() == before.saved()
            &&& if event == (BatchEvent::Deleted { ok: true }) {
                &&& after.report() == before.report()
                &&& service_after.manifest() == service_before.manifest().remove(name)
                &&& service_after.cache() == service_before.cache().remove(name)
            } else {
                &&& after.report() == (BatchReport { aborted: true, ..before.report() })
                &&& service_after.manifest() == service_before.manifest()
                &&& service_after.cache() == service_before.cache()
            }
        },
        BatchStage::Discovering => {
            &&& service_after.cache() == service_before.cache()
            &&& after.committed() == before.committed()
            &&& after.saved() == before.saved()
            &&& match event {
                BatchEvent::FileRead { content: Some(content) } => match draft_of(
                    service_before.content_dir(),
                    before.changes()[item],
                    content.raw_markdown@,
                    content.metadata,
                ) {
                    Some(draft) => after.discovered() == before.discovered().push(draft)
                        && after.report() == before.report(),
                    None => after.discovered() == before.discovered() && after.report() == (
                    BatchReport {
                        skipped: (before.report().skipped + 1) as usize,
                        ..before.report()
                    }),
                },
                _ => after.discovered() == before.discovered() && after.report() == (BatchReport {
                    skipped: (before.report().skipped + 1) as usize,
                    ..before.report()
                }),
            }
        },
        BatchStage::Saving => {
            &&& service_after.manifest() == service_before.manifest()
            &&& after.discovered() == before.discovered()
            &&& if event == (BatchEvent::Saved { ok: true }) {
                &&& service_after.cache() == service_before.cache().insert(
                    before.pages()[item].filename,
                    before.pages()[item],
                )
                &&& after.committed() == before.committed().push(before.pages()[item])
                &&& after.saved() == before.saved().push(true)
                &&& after.report() == before.report()
            } else {
                &&& service_after.cache() == service_before.cache()
                &&& after.committed() == before.committed()
                &&& after.saved() == before.saved().push(false)
                &&& after.report() == (BatchReport {
                    failed_saves: (before.report().failed_saves + 1) as usize,
                    ..before.report()
                })
            }
        },
        BatchStage::Finished => false,
    }
}

impl SyncService {
    /// Begins a batch of changed and deleted paths.
    pub fn start_batch(&self, changes: Vec<String>, deletions: Vec<String>) -> (batch: Batch)
        requires
            self.wf(),
        ensures
            batch.in_step_with(self),
            batch.stage() == BatchStage::Deleting,
            batch.done() == 0,
            !batch.pending(),
            batch.changes() == paths_view(changes@),
            batch.deletions() == paths_view(deletions@),
            batch.origin() == (self.manifest(), self.cache()),
    {
        let batch = Batch {
            changes,
            deletions,
            stage: BatchStage::Deleting,
            done: 0,
            pending: false,
            drafts: Vec::new(),
            pages: Vec::new(),
            skipped: 0,
            failed_saves: 0,
            aborted: false,
            origin: Ghost((self.manifest(), self.cache())),
            discovered: Ghost(Seq::empty()),
            committed: Ghost(Seq::empty()),
            saved: Ghost(Seq::empty()),
        };
        proof {
            let names = deletion_names(self.content_dir(), batch.deletions());
            assert(names.take(0) =~= Seq::<Seq<char>>::empty());
            assert(drafts_view(batch.drafts@) =~= batch.discovered@);
        }
        batch
    }

    /// Begins a full synchronisation: a batch whose changes are all the
    /// Markdown files that were listed under the content root, and which
    /// deletes nothing.
    pub fn full_sync(&self, listed: Vec<String>) -> (batch: Batch)
        requires
            self.wf(),
        ensures
            batch.in_step_with(self),
            batch.stage() == BatchStage::Deleting,
            batch.done() == 0,
            !batch.pending(),
            batch.changes() == paths_view(listed@),
            batch.deletions().len() == 0,
            batch.origin() == (self.manifest(), self.cache()),
    {
        self.start_batch(listed, Vec::new())
    }

    /// Takes in the outcome of the action that is pending, if one is.
    fn absorb(&mut self, batch: &mut Batch, event: BatchEvent)
        requires
            old(batch).in_step_with(old(self)),
        ensures
            final(batch).in_step_with(final(self)),
            !final(batch).pending(),
            final(self).same_config(*old(self)),
            final(batch).origin() == old(batch).origin(),
            final(batch).deletions() == old(batch).deletions(),
            final(batch).changes() == old(batch).changes(),
            final(batch).pages() == old(batch).pages(),
            (final(batch).stage(), final(batch).done()) == absorbed(*old(batch), event),
            !old(batch).pending() ==> final(batch).discovered() == old(batch).discovered(),
            !old(batch).pending() ==> final(batch).committed() == old(batch).committed(),
            !old(batch).pending() ==> final(batch).saved() == old(batch).saved(),
            !old(batch).pending() ==> final(batch).report() == old(batch).report(),
            !old(batch).pending() ==> final(self).manifest() == old(self).manifest(),
            !old(batch).pending() ==> final(self).cache() == old(self).cache(),
            old(batch).pending() ==> outcome_taken_in(
                *old(batch),
                *old(self),
                event,
                *final(batch),
                *final(self),
            ),
            old(batch).pending() && old(batch).stage() == BatchStage::Discovering
                ==> final(self).manifest() == old(self).manifest(),
    {
        if !batch.pending {
            return ;
        }
        let ghost names = deletion_names(self.content_dir(), batch.deletions());
        assert(batch.deletions().len() == batch.deletions.len());
        assert(batch.changes().len() == batch.changes.len());
        assert(batch.pages().len() == batch.pages.len());
        match batch.stage {
            BatchStage::Deleting => {
                let ok = match event {
                    BatchEvent::Deleted { ok } => ok,
                    _ => false,
                };
                if ok {
                    let filename = self.handle_file_deleted(batch.deletions[batch.done].as_str());
                    proof {
                        let now = names.take(batch.done + 1);
                        assert(now.drop_last() =~= names.take(batch.done as int));
                        assert(now.last() == filename@);
                    }
                    batch.done = batch.done + 1;
                    batch.pending = false;
                } else {
                    batch.aborted = true;
                    batch.stage = BatchStage::Finished;
                    batch.pending = false;
                }
            },
            BatchStage::Discovering => {
                match event {
                    BatchEvent::FileRead { content: Some(content) } => {
                        match discover_page_draft(
                            self.config(),
                            batch.changes[batch.done].as_str(),
                            content.raw_markdown.as_str(),
                            &content.metadata,
                        ) {
                            Ok(draft) => {
                                let ghost before = batch.drafts@;
                                batch.discovered = Ghost(batch.discovered@.push(draft@));
                                batch.drafts.push(draft);
                                assert(drafts_view(batch.drafts@) =~= drafts_view(before).push(
                                    batch.drafts@.last()@,
                                ));
                            },
                            Err(_) => {
                                batch.skipped = batch.skipped + 1;
                            },
                        }
                    },
                    _ => {
                        batch.skipped = batch.skipped + 1;
                    },
                }
                batch.done = batch.done + 1;
                batch.pending = false;
            },
            BatchStage::Saving => {
                let ok = match event {
                    BatchEvent::Saved { ok } => ok,
                    _ => false,
                };
                let ghost pages = pages_view(batch.pages@);
                proof {
                    assert(pages.take(batch.done + 1).drop_last() =~= pages.take(
                        batch.done as int,
                    ));
                    assert(batch.saved@.push(ok).drop_last() =~= batch.saved@);
                }
                if ok {
                    let page = batch.pages[batch.done].clone();
                    let ghost before = batch.committed@;
                    batch.committed = Ghost(batch.committed@.push(page@));
                    batch.saved = Ghost(batch.saved@.push(true));
                    self.update_cache(page);
                    proof {
                        assert(batch.committed@.drop_last() =~= before);
                        if batch.failed_saves == 0 {
                            assert(batch.committed@ =~= pages.take(batch.done + 1));
                        }
                    }
                } else {
                    batch.saved = Ghost(batch.saved@.push(false));
                    batch.failed_saves = batch.failed_saves + 1;
                }
                batch.done = batch.done + 1;
                batch.pending = false;
            },
            BatchStage::Finished => {},
        }
    }

    /// One step of a batch: takes in what came of the last action and says
    /// what to do next.
    ///
    /// Deletions come first, one by one, and the first that fails ends the
    /// batch. Then every changed file is read; one that cannot be read, or
    /// that lies outside the content root, is passed over. When all are
    /// read, the drafts are validated and registered and their pages are
    /// rendered. Then the pages are saved, one by one; a page enters the
    /// cache when its save succeeded. An event that does not answer the
    /// pending action counts as its failure.
    ///
    /// When the batch is over and nothing failed, manifest and cache are
    /// what `after_batch` says of the drafts discovered, on top of the
    /// deletions.
    pub fn process_batch(&mut self, batch: &mut Batch, event: BatchEvent) -> (action: BatchAction)
        requires
            old(batch).in_step_with(old(self)),
        ensures
            final(batch).in_step_with(final(self)),
            final(self).same_config(*old(self)),
            final(batch).origin() == old(batch).origin(),
            final(batch).deletions() == old(batch).deletions(),
            final(batch).changes() == old(batch).changes(),
            (final(batch).stage(), final(batch).done()) == landing(
                absorbed(*old(batch), event).0,
                absorbed(*old(batch), event).1,
                final(batch).deletions().len() as int,
                final(batch).changes().len() as int,
                final(batch).pages().len() as int,
            ),
            old(batch).pending() ==> outcome_taken_in(
                *old(batch),
                *old(self),
                event,
                *final(batch),
                *final(self),
            ),
            !old(batch).pending() ==> final(batch).discovered() == old(batch).discovered(),
            !old(batch).pending() ==> final(batch).committed() == old(batch).committed(),
            !old(batch).pending() ==> final(batch).saved() == old(batch).saved(),
            !old(batch).pending() ==> final(batch).report() == old(batch).report(),
            !old(batch).pending() ==> final(self).cache() == old(self).cache(),
            match final(batch).stage() {
                BatchStage::Deleting => {
                    &&& final(batch).pending()
                    &&& action is DeletePage
                    &&& action->filename@ == filename_to_delete(
                        final(self).content_dir(),
                        final(batch).deletions()[final(batch).done()],
                    )
                },
                BatchStage::Discovering => {
                    &&& final(batch).pending()
                    &&& action is ReadFile
                    &&& action->path@ == final(batch).changes()[final(batch).done()]
                },
                BatchStage::Saving => {
                    &&& final(batch).pending()
                    &&& action is SavePage
                    &&& action->page@ == final(batch).pages()[final(batch).done()]
                },
                BatchStage::Finished => {
                    &&& action is Finished
                    &&& action->report == final(batch).report()
                    &&& (action->report.succeeded() ==> (final(self).manifest(), final(self).cache())
                        == after_batch(
                        final(batch).after_deletions(final(self).content_dir()).0,
                        final(batch).after_deletions(final(self).content_dir()).1,
                        final(batch).discovered(),
                        final(self).serve_home(),
                        final(self).home_identifier(),
                    ))
                },
            },
    {
        self.absorb(batch, event);
        let ghost names = deletion_names(self.content_dir(), batch.deletions());
        if batch.stage == BatchStage::Deleting {
            if batch.done < batch.deletions.len() {
                batch.pending = true;
                return BatchAction::DeletePage {
                    filename: self.deleted_filename(batch.deletions[batch.done].as_str()),
                };
            }
            assert(names.take(batch.done as int) =~= names);
            batch.stage = BatchStage::Discovering;
            batch.done = 0;
        }
        if batch.stage == BatchStage::Discovering {
            if batch.done < batch.changes.len() {
                batch.pending = true;
                return BatchAction::ReadFile { path: batch.changes[batch.done].clone() };
            }
            let mut drafts: Vec<PageDraft> = Vec::new();
            std::mem::swap(&mut drafts, &mut batch.drafts);
            let ghost before_ingest = self.manifest();
            let pages = self.ingest(drafts);
            proof {
                if batch.discovered@.len() == 0 {
                    assert(valid_drafts(before_ingest, batch.discovered@).len() == 0);
                    assert(self.manifest() == before_ingest);
                    assert(pages_view(pages@).len() == 0);
                }
            }
            batch.pages = pages;
            batch.stage = BatchStage::Saving;
            batch.done = 0;
            assert(pages_view(batch.pages@).take(0) =~= batch.committed@);
            assert(kept(pages_view(batch.pages@).take(0), batch.saved@) =~= batch.committed@);
        }
        if batch.stage == BatchStage::Saving {
            if batch.done < batch.pages.len() {
                batch.pending = true;
                return BatchAction::SavePage { page: batch.pages[batch.done].clone() };
            }
            assert(pages_view(batch.pages@).take(batch.done as int) =~= pages_view(batch.pages@));
            batch.stage = BatchStage::Finished;
        }
        BatchAction::Finished {
            report: BatchReport {
                aborted: batch.aborted,
                skipped: batch.skipped,
                failed_saves: batch.failed_saves,
            },
        }
    }
}

} // verus!
