//! The read cache: the page of each file, as the last ingestion left it.

use vstd::prelude::*;
use vstd::hash_map::StringHashMap;
use crate::domain::{Page, PageView};
use crate::names::{
    lemma_name_pushed, lemma_name_removed, lemma_names_count, names_set, no_duplicates,
    place_of_name,
};

verus! {

/// The pages that the read API answers from, one for each file name. The
/// pages stand in a hash map by file name; the list beside it holds the
/// file names, for the snapshot.
pub struct SyncCache {
    pages_by_filename: StringHashMap<Page>,
    filenames: Vec<String>,
}

/// No two of the pages have the same file name.
pub open spec fn distinct_filenames(pages: Seq<Page>) -> bool {
    forall|i: int, j: int|
        0 <= i < pages.len() && 0 <= j < pages.len() && (#[trigger] pages[i])@.filename == (
        #[trigger] pages[j])@.filename ==> i == j
}

/// Some page of the list has the file name.
pub open spec fn holds_filename(pages: Seq<Page>, filename: Seq<char>) -> bool {
    exists|i: int| 0 <= i < pages.len() && (#[trigger] pages[i])@.filename == filename
}

/// The place of a page with the file name.
pub open spec fn place_of(pages: Seq<Page>, filename: Seq<char>) -> int {
    choose|i: int| 0 <= i < pages.len() && (#[trigger] pages[i])@.filename == filename
}

/// The pages by file name.
pub open spec fn pages_map(pages: Seq<Page>) -> Map<Seq<char>, PageView> {
    Map::new(
        |f: Seq<char>| holds_filename(pages, f),
        |f: Seq<char>| pages[place_of(pages, f)]@,
    )
}

/// In a list with distinct file names, each page stands under its own name.
pub proof fn lemma_pages_map(pages: Seq<Page>)
    requires
        distinct_filenames(pages),
    ensures
        forall|i: int|
            0 <= i < pages.len() ==> pages_map(pages).contains_key(
                (#[trigger] pages[i])@.filename,
            ) && pages_map(pages)[pages[i]@.filename] == pages[i]@,
{
    assert forall|i: int| 0 <= i < pages.len() implies pages_map(pages).contains_key(
        (#[trigger] pages[i])@.filename,
    ) && pages_map(pages)[pages[i]@.filename] == pages[i]@ by {
        let f = pages[i]@.filename;
        assert(holds_filename(pages, f));
        let k = place_of(pages, f);
        assert(pages[k]@.filename == f);
    }
}

impl View for SyncCache {
    type V = Map<Seq<char>, PageView>;

    closed spec fn view(&self) -> Map<Seq<char>, PageView> {
        Map::new(
            |f: Seq<char>| self.pages_by_filename@.contains_key(f),
            |f: Seq<char>| self.pages_by_filename@[f]@,
        )
    }
}

impl SyncCache {
    /// The list names exactly the files of the map, each once, and every
    /// page stands under its own file name.
    pub closed spec fn wf(&self) -> bool {
        &&& no_duplicates(self.filenames@)
        &&& names_set(self.filenames@) == self.pages_by_filename@.dom()
        &&& forall|f: Seq<char>| #[trigger]
            self.pages_by_filename@.contains_key(f) ==> self.pages_by_filename@[f]@.filename == f
    }

    /// An empty cache.
    pub fn new() -> (r: SyncCache)
        ensures
            r.wf(),
            r@ == Map::<Seq<char>, PageView>::empty(),
    {
        let r = SyncCache { pages_by_filename: StringHashMap::new(), filenames: Vec::new() };
        assert(r@ =~= Map::<Seq<char>, PageView>::empty());
        assert(names_set(r.filenames@) =~= r.pages_by_filename@.dom());
        r
    }

    /// Puts `page` under its file name, in place of the page that stood
    /// there.
    pub fn insert(&mut self, page: Page)
        requires
            old(self).wf(),
        ensures
            final(self).wf(),
            final(self)@ == old(self)@.insert(page@.filename, page@),
    {
        let name = page.filename.clone();
        if !self.pages_by_filename.contains_key(name.as_str()) {
            proof {
                lemma_name_pushed(self.filenames@, name);
            }
            self.filenames.push(name.clone());
        }
        self.pages_by_filename.insert(name, page);
        assert(names_set(self.filenames@) =~= self.pages_by_filename@.dom());
        assert(self@ =~= old(self)@.insert(page@.filename, page@));
    }

    /// Takes out the page of `filename`, if the cache holds one.
    pub fn remove(&mut self, filename: &str)
        requires
            old(self).wf(),
        ensures
            final(self).wf(),
            final(self)@ == old(self)@.remove(filename@),
    {
        if self.pages_by_filename.contains_key(filename) {
            match place_of_name(&self.filenames, filename) {
                Some(place) => {
                    proof {
                        lemma_name_removed(self.filenames@, place as int);
                    }
                    self.filenames.remove(place);
                },
                None => {},
            }
            self.pages_by_filename.remove(filename);
            assert(names_set(self.filenames@) =~= self.pages_by_filename@.dom());
        }
        assert(self@ =~= old(self)@.remove(filename@));
    }

    /// A copy of the page of `filename`.
    pub fn get_by_filename(&self, filename: &str) -> (r: Option<Page>)
        requires
            self.wf(),
        ensures
            match r {
                Some(page) => self@.contains_key(filename@) && page@ == self@[filename@],
                None => !self@.contains_key(filename@),
            },
    {
        match self.pages_by_filename.get(filename) {
            Some(page) => Some(page.clone()),
            None => None,
        }
    }

    /// The number of pages.
    pub fn len(&self) -> (r: usize)
        requires
            self.wf(),
        ensures
            r == self@.dom().len(),
            self@.dom().finite(),
    {
        proof {
            lemma_names_count(self.filenames@);
            assert(self@.dom() =~= names_set(self.filenames@));
        }
        self.filenames.len()
    }

    /// Copies of all pages: each file name of the cache once, with its page.
    pub fn snapshot_all(&self) -> (r: Vec<Page>)
        requires
            self.wf(),
        ensures
            distinct_filenames(r@),
            pages_map(r@) == self@,
            r.len() == self@.dom().len(),
    {
        let mut out: Vec<Page> = Vec::new();
        let mut i: usize = 0;
        while i < self.filenames.len()
            invariant
                self.wf(),
                i <= self.filenames.len(),
                out.len() == i,
                forall|j: int|
                    0 <= j < i ==> (#[trigger] out@[j])@
                        == self.pages_by_filename@[self.filenames@[j]@]@,
            decreases self.filenames.len() - i,
        {
            assert(names_set(self.filenames@).contains(self.filenames@[i as int]@));
            match self.pages_by_filename.get(self.filenames[i].as_str()) {
                Some(page) => {
                    out.push(page.clone());
                },
                None => {},
            }
            i += 1;
        }
        proof {
            let names = self.filenames@;
            assert forall|j: int| 0 <= j < out@.len() implies (#[trigger] out@[j])@.filename
                == names[j]@ by {
                assert(names_set(names).contains(names[j]@));
            }
            assert(distinct_filenames(out@)) by {
                assert forall|a: int, b: int|
                    0 <= a < out@.len() && 0 <= b < out@.len() && (#[trigger] out@[a])@.filename
                        == (#[trigger] out@[b])@.filename implies a == b by {
                    assert(names[a]@ == names[b]@);
                }
            }
            lemma_pages_map(out@);
            assert forall|f: Seq<char>| #[trigger]
                pages_map(out@).contains_key(f) == self@.contains_key(f) by {
                if holds_filename(out@, f) {
                    let k = place_of(out@, f);
                    assert(names[k]@ == f);
                    assert(names_set(names).contains(f));
                }
                if self@.contains_key(f) {
                    assert(names_set(names).contains(f));
                    let k = choose|k: int| 0 <= k < names.len() && (#[trigger] names[k])@ == f;
                    assert(out@[k]@.filename == f);
                }
            }
            assert forall|f: Seq<char>| #[trigger]
                pages_map(out@).contains_key(f) implies pages_map(out@)[f] == self@[f] by {
                let k = place_of(out@, f);
                assert(names[k]@ == f);
            }
            assert(pages_map(out@) =~= self@);
            lemma_names_count(names);
            assert(self@.dom() =~= names_set(names));
        }
        out
    }
}

/// A list with distinct file names has as many pages as its map has names.
pub proof fn lemma_pages_count(pages: Seq<Page>)
    requires
        distinct_filenames(pages),
    ensures
        pages_map(pages).dom().finite(),
        pages_map(pages).dom().len() == pages.len(),
    decreases pages.len(),
{
    if pages.len() == 0 {
        assert(pages_map(pages).dom() =~= Set::<Seq<char>>::empty());
    } else {
        let init = pages.drop_last();
        let last = pages.last();
        assert(distinct_filenames(init)) by {
            assert forall|i: int, j: int|
                0 <= i < init.len() && 0 <= j < init.len() && (#[trigger] init[i])@.filename == (
                #[trigger] init[j])@.filename implies i == j by {
                assert(pages[i] == init[i]);
                assert(pages[j] == init[j]);
            }
        }
        lemma_pages_count(init);
        assert(!holds_filename(init, last@.filename)) by {
            if holds_filename(init, last@.filename) {
                let k = place_of(init, last@.filename);
                assert(pages[k] == init[k]);
                assert(pages[pages.len() - 1] == last);
            }
        }
        assert(pages_map(pages).dom() =~= pages_map(init).dom().insert(last@.filename)) by {
            assert forall|f: Seq<char>|
                pages_map(pages).dom().contains(f) == pages_map(init).dom().insert(
                    last@.filename,
                ).contains(f) by {
                if holds_filename(pages, f) {
                    let k = place_of(pages, f);
                    if k < init.len() {
                        assert(init[k] == pages[k]);
                    }
                }
                if holds_filename(init, f) {
                    let k = place_of(init, f);
                    assert(init[k] == pages[k]);
                }
                if f == last@.filename {
                    assert(pages[pages.len() - 1]@.filename == f);
                }
            }
        }
    }
}

} // verus!
