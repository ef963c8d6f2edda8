//! What holds of the catalog as a whole: statements that tie several
//! operations together, each proved from the definitions of the modules.

use vstd::prelude::*;
use crate::domain::PageView;
use crate::manifest::{
    bound, inverse, is_external, is_relative_lookup, key_identifier, link_fragment, link_lookup,
    lookup_key, lookup_stays_within, one_to_one, page_url, resolved_link,
};
use crate::batch::{deletion_names, forgotten, Batch, BatchStage};
use crate::model::PageDraftView;
use crate::sync::{
    after_batch, cached, claims, coherent, ingested_manifest, kept, loaded_cache,
    loaded_manifest, owned_by_other, page_of_draft, passes, passing, registered, rendered_pages,
    valid_drafts, SyncService,
};
use crate::text::{lemma_position_of_is, starts_with};

verus! {

/// Binding a pair in a one-to-one manifest leaves it one-to-one.
pub proof fn lemma_bound_one_to_one(
    m: Map<Seq<char>, Seq<char>>,
    filename: Seq<char>,
    identifier: Seq<char>,
)
    requires
        one_to_one(m),
    ensures
        one_to_one(bound(m, filename, identifier)),
{
    let after = bound(m, filename, identifier);
    assert forall|f: Seq<char>, g: Seq<char>|
        after.contains_key(f) && after.contains_key(g) && #[trigger] after[f]
            == #[trigger] after[g] implies f == g by {
        if f != filename && g != filename {
            assert(m[f] == m[g]);
        }
    }
}

/// Forgetting a file leaves a one-to-one manifest one-to-one.
pub proof fn lemma_remove_one_to_one(m: Map<Seq<char>, Seq<char>>, filename: Seq<char>)
    requires
        one_to_one(m),
    ensures
        one_to_one(m.remove(filename)),
{
    let after = m.remove(filename);
    assert forall|f: Seq<char>, g: Seq<char>|
        after.contains_key(f) && after.contains_key(g) && #[trigger] after[f]
            == #[trigger] after[g] implies f == g by {
        assert(m[f] == m[g]);
    }
}

/// Registering any drafts in a one-to-one manifest leaves it one-to-one: the
/// manifest is a bijection between files and identifiers after every batch.
pub proof fn lemma_registered_one_to_one(m: Map<Seq<char>, Seq<char>>, drafts: Seq<PageDraftView>)
    requires
        one_to_one(m),
    ensures
        one_to_one(registered(m, drafts)),
    decreases drafts.len(),
{
    if drafts.len() > 0 {
        lemma_registered_one_to_one(m, drafts.drop_last());
        lemma_bound_one_to_one(
            registered(m, drafts.drop_last()),
            drafts.last().filename,
            drafts.last().identifier,
        );
    }
}

/// A link that leaves the site, a mail address and a bare fragment come
/// back unchanged, so resolving them twice is resolving them once.
pub proof fn lemma_resolve_external_idempotent(
    m: Map<Seq<char>, Seq<char>>,
    link: Seq<char>,
    current_filename: Seq<char>,
    serve_home: bool,
    home_identifier: Seq<char>,
)
    requires
        is_external(link),
    ensures
        resolved_link(m, link, current_filename, serve_home, home_identifier) == link,
        resolved_link(
            m,
            resolved_link(m, link, current_filename, serve_home, home_identifier),
            current_filename,
            serve_home,
            home_identifier,
        ) == resolved_link(m, link, current_filename, serve_home, home_identifier),
{
}

/// Every draft that the policy lets through is one of the drafts it was
/// given, and passes.
pub proof fn lemma_passing_members(
    m: Map<Seq<char>, Seq<char>>,
    batch: Seq<PageDraftView>,
    some: Seq<PageDraftView>,
)
    ensures
        passing(m, batch, some).len() <= some.len(),
        forall|k: int|
            0 <= k < passing(m, batch, some).len() ==> passes(
                m,
                batch,
                #[trigger] passing(m, batch, some)[k],
            ) && some.contains(passing(m, batch, some)[k]),
    decreases some.len(),
{
    if some.len() > 0 {
        lemma_passing_members(m, batch, some.drop_last());
        let init = passing(m, batch, some.drop_last());
        assert forall|k: int| 0 <= k < passing(m, batch, some).len() implies passes(
            m,
            batch,
            #[trigger] passing(m, batch, some)[k],
        ) && some.contains(passing(m, batch, some)[k]) by {
            if k < init.len() {
                let d = init[k];
                assert(some.drop_last().contains(d));
                let j = choose|j: int| 0 <= j < some.drop_last().len() && some.drop_last()[j] == d;
                assert(some[j] == d);
            } else {
                assert(some[some.len() - 1] == some.last());
            }
        }
    }
}

/// A draft among `some` that claims an identifier is counted by `claims`.
pub proof fn lemma_claims_member(some: Seq<PageDraftView>, k: int)
    requires
        0 <= k < some.len(),
    ensures
        claims(some, some[k].identifier) >= 1,
    decreases some.len(),
{
    if k < some.len() - 1 {
        lemma_claims_member(some.drop_last(), k);
    }
}

/// Two drafts at different places that claim one identifier are counted
/// twice.
pub proof fn lemma_claims_pair(some: Seq<PageDraftView>, i: int, j: int)
    requires
        0 <= i < j < some.len(),
        some[i].identifier == some[j].identifier,
    ensures
        claims(some, some[i].identifier) >= 2,
    decreases some.len(),
{
    if j < some.len() - 1 {
        lemma_claims_pair(some.drop_last(), i, j);
    } else {
        lemma_claims_member(some.drop_last(), i);
    }
}

/// In-batch collisions reject both: where two drafts of a batch claim the
/// same identifier, no draft with that identifier is among the valid ones.
pub proof fn lemma_collision_rejects_both(
    m: Map<Seq<char>, Seq<char>>,
    batch: Seq<PageDraftView>,
    i: int,
    j: int,
)
    requires
        0 <= i < batch.len(),
        0 <= j < batch.len(),
        i != j,
        batch[i].identifier == batch[j].identifier,
    ensures
        forall|k: int|
            0 <= k < valid_drafts(m, batch).len() ==> (#[trigger] valid_drafts(
                m,
                batch,
            )[k]).identifier != batch[i].identifier,
        !valid_drafts(m, batch).contains(batch[i]),
        !valid_drafts(m, batch).contains(batch[j]),
{
    if i < j {
        lemma_claims_pair(batch, i, j);
    } else {
        lemma_claims_pair(batch, j, i);
    }
    lemma_passing_members(m, batch, batch);
}

/// The empty batch changes nothing: the manifest stays, no page is rendered
/// and the cache stays.
pub proof fn lemma_empty_batch(
    m: Map<Seq<char>, Seq<char>>,
    c: Map<Seq<char>, PageView>,
    serve_home: bool,
    home_identifier: Seq<char>,
)
    ensures
        valid_drafts(m, Seq::empty()).len() == 0,
        ingested_manifest(m, Seq::empty()) == m,
        rendered_pages(m, valid_drafts(m, Seq::empty()), serve_home, home_identifier).len() == 0,
        cached(c, rendered_pages(m, valid_drafts(m, Seq::empty()), serve_home, home_identifier))
            == c,
{
}

/// The last place in `names` where `name` stands, or -1.
pub open spec fn last_place(names: Seq<Seq<char>>, name: Seq<char>) -> int
    decreases names.len(),
{
    if names.len() == 0 {
        -1
    } else if names.last() == name {
        names.len() - 1
    } else {
        last_place(names.drop_last(), name)
    }
}

/// What `last_place` returns is a place of the name, or -1.
pub proof fn lemma_last_place(names: Seq<Seq<char>>, name: Seq<char>)
    ensures
        -1 <= last_place(names, name) < names.len(),
        last_place(names, name) >= 0 ==> names[last_place(names, name)] == name,
    decreases names.len(),
{
    if names.len() > 0 && names.last() != name {
        lemma_last_place(names.drop_last(), name);
    }
}

/// The file names of the drafts.
pub open spec fn draft_filenames(drafts: Seq<PageDraftView>) -> Seq<Seq<char>> {
    Seq::new(drafts.len(), |i: int| drafts[i].filename)
}

/// The file names of the pages.
pub open spec fn page_filenames(pages: Seq<PageView>) -> Seq<Seq<char>> {
    Seq::new(pages.len(), |i: int| pages[i].filename)
}

/// No two of the drafts claim the same identifier.
pub open spec fn distinct_identifiers(drafts: Seq<PageDraftView>) -> bool {
    forall|a: int, b: int|
        0 <= a < drafts.len() && 0 <= b < drafts.len() && a != b ==> (
        #[trigger] drafts[a]).identifier != (#[trigger] drafts[b]).identifier
}

/// None of the drafts claims an identifier that another file holds in `m`.
pub open spec fn none_owned_by_other(
    m: Map<Seq<char>, Seq<char>>,
    drafts: Seq<PageDraftView>,
) -> bool {
    forall|a: int| 0 <= a < drafts.len() ==> !owned_by_other(m, #[trigger] drafts[a])
}

/// In a one-to-one manifest, a draft whose identifier no other file holds
/// can only find its identifier under its own file name.
pub proof fn lemma_owner_is_self(m: Map<Seq<char>, Seq<char>>, draft: PageDraftView, f: Seq<char>)
    requires
        one_to_one(m),
        !owned_by_other(m, draft),
        m.contains_key(f),
        m[f] == draft.identifier,
    ensures
        f == draft.filename,
{
    assert(inverse(m).contains_key(draft.identifier));
    let g = inverse(m)[draft.identifier];
    assert(m.contains_key(g) && m[g] == draft.identifier);
}

/// Two entries of what the policy lets through come from two places of the
/// drafts it was given, so their identifier is claimed twice if it is the
/// same.
proof fn lemma_passing_pair(
    m: Map<Seq<char>, Seq<char>>,
    batch: Seq<PageDraftView>,
    some: Seq<PageDraftView>,
    a: int,
    b: int,
)
    requires
        0 <= a < b < passing(m, batch, some).len(),
        passing(m, batch, some)[a].identifier == passing(m, batch, some)[b].identifier,
    ensures
        claims(some, passing(m, batch, some)[a].identifier) >= 2,
    decreases some.len(),
{
    if some.len() > 0 {
        let init = passing(m, batch, some.drop_last());
        if b < init.len() {
            lemma_passing_pair(m, batch, some.drop_last(), a, b);
        } else {
            lemma_passing_members(m, batch, some.drop_last());
            let d = init[a];
            assert(some.drop_last().contains(d));
            let j = choose|j: int| 0 <= j < some.drop_last().len() && some.drop_last()[j] == d;
            lemma_claims_member(some.drop_last(), j);
        }
    }
}

/// The valid drafts of a batch claim pairwise different identifiers, and
/// none claims one that another file holds.
pub proof fn lemma_valid_drafts_are_compatible(
    m: Map<Seq<char>, Seq<char>>,
    batch: Seq<PageDraftView>,
)
    ensures
        distinct_identifiers(valid_drafts(m, batch)),
        none_owned_by_other(m, valid_drafts(m, batch)),
{
    let valid = valid_drafts(m, batch);
    lemma_passing_members(m, batch, batch);
    assert forall|a: int, b: int|
        0 <= a < valid.len() && 0 <= b < valid.len() && a != b implies (
    #[trigger] valid[a]).identifier != (#[trigger] valid[b]).identifier by {
        if valid[a].identifier == valid[b].identifier {
            if a < b {
                lemma_passing_pair(m, batch, batch, a, b);
            } else {
                lemma_passing_pair(m, batch, batch, b, a);
            }
            assert(passes(m, batch, valid[a]));
        }
    }
}

/// What the manifest binds after drafts are registered that claim different
/// identifiers, none held by another file: each file of a draft carries the
/// identifier of its last draft, and every other file what it carried.
pub proof fn lemma_registered_shape(m: Map<Seq<char>, Seq<char>>, drafts: Seq<PageDraftView>)
    requires
        one_to_one(m),
        distinct_identifiers(drafts),
        none_owned_by_other(m, drafts),
    ensures
        forall|f: Seq<char>|
            {
                let after = registered(m, drafts);
                let last = #[trigger] last_place(draft_filenames(drafts), f);
                if last >= 0 {
                    after.contains_key(f) && after[f] == drafts[last].identifier
                } else {
                    after.contains_key(f) == m.contains_key(f) && (m.contains_key(f) ==> after[f]
                        == m[f])
                }
            },
    decreases drafts.len(),
{
    if drafts.len() > 0 {
        let init = drafts.drop_last();
        let d = drafts.last();
        assert(distinct_identifiers(init)) by {
            assert forall|a: int, b: int|
                0 <= a < init.len() && 0 <= b < init.len() && a != b implies (
            #[trigger] init[a]).identifier != (#[trigger] init[b]).identifier by {
                assert(drafts[a] == init[a] && drafts[b] == init[b]);
            }
        }
        assert(none_owned_by_other(m, init)) by {
            assert forall|a: int| 0 <= a < init.len() implies !owned_by_other(
                m,
                #[trigger] init[a],
            ) by {
                assert(drafts[a] == init[a]);
            }
        }
        lemma_registered_shape(m, init);
        let before = registered(m, init);
        let after = registered(m, drafts);
        assert(draft_filenames(drafts).drop_last() =~= draft_filenames(init));
        assert forall|f: Seq<char>|
            {
                let last = #[trigger] last_place(draft_filenames(drafts), f);
                if last >= 0 {
                    after.contains_key(f) && after[f] == drafts[last].identifier
                } else {
                    after.contains_key(f) == m.contains_key(f) && (m.contains_key(f) ==> after[f]
                        == m[f])
                }
            } by {
            let earlier = last_place(draft_filenames(init), f);
            lemma_last_place(draft_filenames(init), f);
            if f != d.filename {
                if earlier >= 0 {
                    assert(drafts[earlier] == init[earlier]);
                    assert(drafts[drafts.len() - 1] == d);
                    assert(before[f] != d.identifier);
                } else if m.contains_key(f) {
                    if m[f] == d.identifier {
                        assert(drafts[drafts.len() - 1] == d);
                        lemma_owner_is_self(m, d, f);
                    }
                }
            }
        }
    } else {
        assert(draft_filenames(drafts) =~= Seq::<Seq<char>>::empty());
    }
}

/// What the cache holds after pages are put in: each file of a page holds
/// its last page, and every other file what it held.
pub proof fn lemma_cached_shape(c: Map<Seq<char>, PageView>, pages: Seq<PageView>)
    ensures
        forall|f: Seq<char>|
            {
                let after = cached(c, pages);
                let last = #[trigger] last_place(page_filenames(pages), f);
                if last >= 0 {
                    after.contains_key(f) && after[f] == pages[last]
                } else {
                    after.contains_key(f) == c.contains_key(f) && (c.contains_key(f) ==> after[f]
                        == c[f])
                }
            },
    decreases pages.len(),
{
    if pages.len() > 0 {
        let init = pages.drop_last();
        lemma_cached_shape(c, init);
        assert(page_filenames(pages).drop_last() =~= page_filenames(init));
        let after = cached(c, pages);
        assert forall|f: Seq<char>|
            {
                let last = #[trigger] last_place(page_filenames(pages), f);
                if last >= 0 {
                    after.contains_key(f) && after[f] == pages[last]
                } else {
                    after.contains_key(f) == c.contains_key(f) && (c.contains_key(f) ==> after[f]
                        == c[f])
                }
            } by {
            let earlier = last_place(page_filenames(init), f);
            lemma_last_place(page_filenames(init), f);
            if f != pages.last().filename && earlier >= 0 {
                assert(pages[earlier] == init[earlier]);
            }
        }
    } else {
        assert(page_filenames(pages) =~= Seq::<Seq<char>>::empty());
    }
}

/// After a batch whose pages all reached the cache, every page of the cache
/// stands under the identifier that the manifest binds to its file.
pub proof fn lemma_batch_keeps_coherence(
    m: Map<Seq<char>, Seq<char>>,
    c: Map<Seq<char>, PageView>,
    batch: Seq<PageDraftView>,
    serve_home: bool,
    home_identifier: Seq<char>,
)
    requires
        one_to_one(m),
        coherent(m, c),
    ensures
        coherent(
            ingested_manifest(m, batch),
            cached(
                c,
                rendered_pages(
                    ingested_manifest(m, batch),
                    valid_drafts(m, batch),
                    serve_home,
                    home_identifier,
                ),
            ),
        ),
{
    let valid = valid_drafts(m, batch);
    let after = ingested_manifest(m, batch);
    let pages = rendered_pages(after, valid, serve_home, home_identifier);
    let cache = cached(c, pages);
    lemma_valid_drafts_are_compatible(m, batch);
    lemma_registered_shape(m, valid);
    lemma_cached_shape(c, pages);
    assert(page_filenames(pages) =~= draft_filenames(valid));
    assert forall|f: Seq<char>| #[trigger] cache.contains_key(f) implies after.contains_key(f)
        && after[f] == cache[f].identifier && cache[f].filename == f by {
        let last = last_place(draft_filenames(valid), f);
        lemma_last_place(draft_filenames(valid), f);
        let last_page = last_place(page_filenames(pages), f);
        assert(last == last_page);
        if last < 0 {
            assert(c.contains_key(f));
        }
    }
}

/// Forgetting a file keeps cache and manifest coherent.
pub proof fn lemma_deletion_keeps_coherence(
    m: Map<Seq<char>, Seq<char>>,
    c: Map<Seq<char>, PageView>,
    filename: Seq<char>,
)
    requires
        coherent(m, c),
    ensures
        coherent(m.remove(filename), c.remove(filename)),
{
}

/// In a one-to-one manifest, an identifier is held by another file exactly
/// when some file other than the draft's own carries it.
pub proof fn lemma_owned_by_other(m: Map<Seq<char>, Seq<char>>, draft: PageDraftView)
    requires
        one_to_one(m),
    ensures
        owned_by_other(m, draft) == exists|f: Seq<char>|
            m.contains_key(f) && #[trigger] m[f] == draft.identifier && f != draft.filename,
{
    if owned_by_other(m, draft) {
        let f = inverse(m)[draft.identifier];
        assert(m.contains_key(f) && m[f] == draft.identifier && f != draft.filename);
    }
    if exists|f: Seq<char>|
        m.contains_key(f) && #[trigger] m[f] == draft.identifier && f != draft.filename {
        let f = choose|f: Seq<char>|
            m.contains_key(f) && #[trigger] m[f] == draft.identifier && f != draft.filename;
        assert(inverse(m).contains_key(draft.identifier));
        let g = inverse(m)[draft.identifier];
        assert(m.contains_key(g) && m[g] == draft.identifier);
    }
}

/// Two batches of one draft each end where the one batch of both drafts
/// ends, manifest and cache, when the drafts claim different identifiers,
/// the second claims no identifier that the file of the first gives up, and
/// the page of the first reads the same with the second registered as
/// without it.
pub proof fn lemma_batches_commute(
    m: Map<Seq<char>, Seq<char>>,
    c: Map<Seq<char>, PageView>,
    a: PageDraftView,
    b: PageDraftView,
    serve_home: bool,
    home_identifier: Seq<char>,
)
    requires
        one_to_one(m),
        a.identifier != b.identifier,
        !(!owned_by_other(m, a) && a.filename != b.filename && m.contains_key(a.filename)
            && m[a.filename] == b.identifier),
        !owned_by_other(m, a) && !owned_by_other(m, b) && a.filename != b.filename
            ==> page_of_draft(
            bound(m, a.filename, a.identifier),
            a,
            serve_home,
            home_identifier,
        ) == page_of_draft(
            bound(bound(m, a.filename, a.identifier), b.filename, b.identifier),
            a,
            serve_home,
            home_identifier,
        ),
    ensures
        ({
            let first = after_batch(m, c, seq![a], serve_home, home_identifier);
            after_batch(first.0, first.1, seq![b], serve_home, home_identifier)
        }) == after_batch(m, c, seq![a, b], serve_home, home_identifier),
{
    let one = seq![a];
    let other = seq![b];
    let both = seq![a, b];
    let none = Seq::<PageDraftView>::empty();
    assert(one.drop_last() =~= none);
    assert(other.drop_last() =~= none);
    assert(both.drop_last() =~= one);
    assert(claims(none, a.identifier) == 0 && claims(none, b.identifier) == 0);
    assert(claims(one, a.identifier) == 1);
    assert(claims(one, b.identifier) == 0);
    assert(claims(other, b.identifier) == 1);
    assert(claims(both, a.identifier) == 1);
    assert(claims(both, b.identifier) == 1);
    let a_valid = !owned_by_other(m, a);
    let b_valid = !owned_by_other(m, b);
    assert(passes(m, one, a) == a_valid);
    assert(passes(m, both, a) == a_valid);
    assert(passes(m, both, b) == b_valid);
    // the first batch
    assert(passing(m, one, none) =~= none);
    let valid_one = valid_drafts(m, one);
    assert(valid_one =~= if a_valid { one } else { none });
    let m1 = ingested_manifest(m, one);
    assert(registered(m, none) == m);
    assert(m1 == if a_valid { bound(m, a.filename, a.identifier) } else { m });
    let pages_one = rendered_pages(m1, valid_one, serve_home, home_identifier);
    let c1 = cached(c, pages_one);
    if a_valid {
        assert(pages_one.drop_last() =~= Seq::<PageView>::empty());
        assert(cached(c, pages_one.drop_last()) == c);
        assert(c1 == c.insert(a.filename, page_of_draft(m1, a, serve_home, home_identifier)));
    } else {
        assert(c1 == c);
    }
    // the second batch sees what the joint batch sees of `b`
    if a_valid {
        lemma_bound_one_to_one(m, a.filename, a.identifier);
    }
    lemma_owned_by_other(m, b);
    lemma_owned_by_other(m1, b);
    assert(owned_by_other(m1, b) == owned_by_other(m, b)) by {
        if owned_by_other(m, b) {
            let f = choose|f: Seq<char>|
                m.contains_key(f) && #[trigger] m[f] == b.identifier && f != b.filename;
            assert(m1.contains_key(f) && m1[f] == b.identifier);
        }
        if owned_by_other(m1, b) {
            let f = choose|f: Seq<char>|
                m1.contains_key(f) && #[trigger] m1[f] == b.identifier && f != b.filename;
            assert(m.contains_key(f) && m[f] == b.identifier);
        }
    }
    assert(passes(m1, other, b) == b_valid);
    assert(passing(m1, other, none) =~= none);
    let valid_other = valid_drafts(m1, other);
    assert(valid_other =~= if b_valid { other } else { none });
    let m2 = ingested_manifest(m1, other);
    assert(registered(m1, none) == m1);
    assert(m2 == if b_valid { bound(m1, b.filename, b.identifier) } else { m1 });
    let pages_other = rendered_pages(m2, valid_other, serve_home, home_identifier);
    let c2 = cached(c1, pages_other);
    if b_valid {
        assert(pages_other.drop_last() =~= Seq::<PageView>::empty());
        assert(cached(c1, pages_other.drop_last()) == c1);
        assert(c2 == c1.insert(b.filename, page_of_draft(m2, b, serve_home, home_identifier)));
    } else {
        assert(c2 == c1);
    }
    // the joint batch
    assert(passing(m, both, none) =~= none);
    assert(passing(m, both, one) =~= if a_valid { one } else { none });
    let valid_both = valid_drafts(m, both);
    assert(valid_both =~= if a_valid && b_valid {
        both
    } else if a_valid {
        one
    } else if b_valid {
        other
    } else {
        none
    });
    let m12 = ingested_manifest(m, both);
    assert(registered(m, one) == bound(m, a.filename, a.identifier));
    assert(registered(m, other) == bound(m, b.filename, b.identifier));
    assert(m12 == m2);
    let pages_both = rendered_pages(m12, valid_both, serve_home, home_identifier);
    let c12 = cached(c, pages_both);
    if a_valid && b_valid {
        let page_a = page_of_draft(m12, a, serve_home, home_identifier);
        let page_b = page_of_draft(m12, b, serve_home, home_identifier);
        assert(pages_both.drop_last() =~= seq![page_a]);
        assert(seq![page_a].drop_last() =~= Seq::<PageView>::empty());
        assert(cached(c, seq![page_a]) == c.insert(a.filename, page_a));
        assert(c12 == c.insert(a.filename, page_a).insert(b.filename, page_b));
        assert(c12 =~= c2);
    } else if a_valid {
        assert(pages_both.drop_last() =~= Seq::<PageView>::empty());
        assert(c12 =~= c2);
    } else if b_valid {
        assert(pages_both.drop_last() =~= Seq::<PageView>::empty());
        assert(c12 =~= c2);
    } else {
        assert(c12 =~= c2);
    }
}

/// The URL of a known identifier resolves to itself: a link that already has
/// the form that routes is left as it is. This holds of an identifier
/// without `#` that is not also the name of a file and is not the home page
/// served at the root.
pub proof fn lemma_identifier_url_is_fixed(
    m: Map<Seq<char>, Seq<char>>,
    identifier: Seq<char>,
    current_filename: Seq<char>,
    serve_home: bool,
    home_identifier: Seq<char>,
)
    requires
        inverse(m).contains_key(identifier),
        !m.contains_key(identifier),
        !identifier.contains('#'),
        !(serve_home && identifier == home_identifier),
    ensures
        resolved_link(
            m,
            seq!['/'] + identifier,
            current_filename,
            serve_home,
            home_identifier,
        ) == seq!['/'] + identifier,
{
    let link = seq!['/'] + identifier;
    reveal_strlit("http://");
    reveal_strlit("https://");
    reveal_strlit("mailto:");
    reveal_strlit("#");
    reveal_strlit("./");
    reveal_strlit("../");
    assert(link[0] == '/');
    assert(!is_external(link)) by {
        if starts_with(link, "http://"@) {
            assert(link.subrange(0, 7)[0] == 'h');
        }
        if starts_with(link, "https://"@) {
            assert(link.subrange(0, 8)[0] == 'h');
        }
        if starts_with(link, "mailto:"@) {
            assert(link.subrange(0, 7)[0] == 'm');
        }
        if starts_with(link, "#"@) {
            assert(link.subrange(0, 1)[0] == '#');
        }
    }
    assert forall|j: int| 0 <= j < link.len() implies link[j] != '#' by {
        if j > 0 {
            assert(link[j] == identifier[j - 1]);
            assert(identifier.contains(identifier[j - 1]));
        }
    }
    lemma_position_of_is(link, '#', link.len() as int);
    assert(link_lookup(link) =~= link);
    assert(link_fragment(link) =~= Seq::<char>::empty());
    assert(!is_relative_lookup(link)) by {
        if starts_with(link, "./"@) {
            assert(link.subrange(0, 2)[0] == '.');
        }
        if starts_with(link, "../"@) {
            assert(link.subrange(0, 3)[0] == '.');
        }
    }
    assert(link.skip(1) =~= identifier);
    assert(lookup_key(link, current_filename) == Some(identifier));
    assert(key_identifier(m, identifier) == Some(identifier));
    assert(page_url(identifier, Seq::<char>::empty(), serve_home, home_identifier) =~= link);
}

/// Forgetting any files keeps the manifest one-to-one and keeps cache and
/// manifest coherent.
pub proof fn lemma_forgotten_keeps_coherence(
    m: Map<Seq<char>, Seq<char>>,
    c: Map<Seq<char>, PageView>,
    names: Seq<Seq<char>>,
)
    requires
        one_to_one(m),
        coherent(m, c),
    ensures
        one_to_one(forgotten(m, c, names).0),
        coherent(forgotten(m, c, names).0, forgotten(m, c, names).1),
    decreases names.len(),
{
    if names.len() > 0 {
        lemma_forgotten_keeps_coherence(m, c, names.drop_last());
        let before = forgotten(m, c, names.drop_last());
        lemma_remove_one_to_one(before.0, names.last());
        lemma_deletion_keeps_coherence(before.0, before.1, names.last());
    }
}

/// After a whole batch, deletions and ingestion, whose pages all reached
/// the cache: the manifest is one-to-one, and every page of the cache stands
/// under the identifier that the manifest binds to its file.
pub proof fn lemma_whole_batch_keeps_coherence(
    m: Map<Seq<char>, Seq<char>>,
    c: Map<Seq<char>, PageView>,
    deleted: Seq<Seq<char>>,
    batch: Seq<PageDraftView>,
    serve_home: bool,
    home_identifier: Seq<char>,
)
    requires
        one_to_one(m),
        coherent(m, c),
    ensures
        ({
            let cleared = forgotten(m, c, deleted);
            let after = after_batch(cleared.0, cleared.1, batch, serve_home, home_identifier);
            one_to_one(after.0) && coherent(after.0, after.1)
        }),
{
    lemma_forgotten_keeps_coherence(m, c, deleted);
    let cleared = forgotten(m, c, deleted);
    lemma_registered_one_to_one(cleared.0, valid_drafts(cleared.0, batch));
    lemma_batch_keeps_coherence(cleared.0, cleared.1, batch, serve_home, home_identifier);
}

/// No two of the pages have the same file name or the same identifier.
pub open spec fn distinct_pages(pages: Seq<PageView>) -> bool {
    forall|a: int, b: int|
        0 <= a < pages.len() && 0 <= b < pages.len() && a != b ==> (
        #[trigger] pages[a]).filename != (#[trigger] pages[b]).filename && pages[a].identifier
            != pages[b].identifier
}

/// What an orchestrator knows that was started from pages with distinct
/// file names and identifiers: exactly these pages, each under its file
/// name, and each file bound to the identifier of its page.
pub proof fn lemma_loaded_shape(pages: Seq<PageView>)
    requires
        distinct_pages(pages),
    ensures
        forall|f: Seq<char>|
            {
                let place = #[trigger] last_place(page_filenames(pages), f);
                if place >= 0 {
                    &&& loaded_manifest(pages).contains_key(f)
                    &&& loaded_manifest(pages)[f] == pages[place].identifier
                    &&& loaded_cache(pages).contains_key(f)
                    &&& loaded_cache(pages)[f] == pages[place]
                } else {
                    !loaded_manifest(pages).contains_key(f) && !loaded_cache(pages).contains_key(f)
                }
            },
    decreases pages.len(),
{
    if pages.len() > 0 {
        let init = pages.drop_last();
        let last = pages.last();
        assert(distinct_pages(init)) by {
            assert forall|a: int, b: int|
                0 <= a < init.len() && 0 <= b < init.len() && a != b implies (
            #[trigger] init[a]).filename != (#[trigger] init[b]).filename && init[a].identifier
                != init[b].identifier by {
                assert(pages[a] == init[a] && pages[b] == init[b]);
            }
        }
        lemma_loaded_shape(init);
        assert(page_filenames(pages).drop_last() =~= page_filenames(init));
        assert forall|f: Seq<char>|
            {
                let place = #[trigger] last_place(page_filenames(pages), f);
                if place >= 0 {
                    &&& loaded_manifest(pages).contains_key(f)
                    &&& loaded_manifest(pages)[f] == pages[place].identifier
                    &&& loaded_cache(pages).contains_key(f)
                    &&& loaded_cache(pages)[f] == pages[place]
                } else {
                    !loaded_manifest(pages).contains_key(f) && !loaded_cache(pages).contains_key(f)
                }
            } by {
            let earlier = last_place(page_filenames(init), f);
            lemma_last_place(page_filenames(init), f);
            if f != last.filename && earlier >= 0 {
                assert(pages[earlier] == init[earlier]);
                assert(pages[pages.len() - 1] == last);
            }
        }
    } else {
        assert(page_filenames(pages) =~= Seq::<Seq<char>>::empty());
    }
}

/// An orchestrator that was started from pages with distinct file names and
/// identifiers is coherent, and its manifest is one-to-one.
pub proof fn lemma_loaded_coherent(pages: Seq<PageView>)
    requires
        distinct_pages(pages),
    ensures
        one_to_one(loaded_manifest(pages)),
        coherent(loaded_manifest(pages), loaded_cache(pages)),
{
    lemma_loaded_shape(pages);
    lemma_loaded_one_to_one(pages);
    let m = loaded_manifest(pages);
    let c = loaded_cache(pages);
    assert forall|f: Seq<char>| #[trigger] c.contains_key(f) implies m.contains_key(f) && m[f]
        == c[f].identifier && c[f].filename == f by {
        let place = last_place(page_filenames(pages), f);
        lemma_last_place(page_filenames(pages), f);
    }
}

/// The manifest of an orchestrator that was started from any pages is
/// one-to-one.
pub proof fn lemma_loaded_one_to_one(pages: Seq<PageView>)
    ensures
        one_to_one(loaded_manifest(pages)),
    decreases pages.len(),
{
    if pages.len() > 0 {
        lemma_loaded_one_to_one(pages.drop_last());
        lemma_bound_one_to_one(
            loaded_manifest(pages.drop_last()),
            pages.last().filename,
            pages.last().identifier,
        );
    }
}

/// A relative link that rises above the content root comes back as it was
/// written, whatever the manifest knows.
pub proof fn lemma_link_above_root_is_kept(
    m: Map<Seq<char>, Seq<char>>,
    link: Seq<char>,
    current_filename: Seq<char>,
    serve_home: bool,
    home_identifier: Seq<char>,
)
    requires
        is_relative_lookup(link_lookup(link)),
        !lookup_stays_within(link_lookup(link), current_filename),
    ensures
        resolved_link(m, link, current_filename, serve_home, home_identifier) == link,
{
}

/// Some page with the file name was not saved.
pub open spec fn save_failed(pages: Seq<PageView>, saved: Seq<bool>, filename: Seq<char>) -> bool {
    exists|i: int|
        0 <= i < pages.len() && i < saved.len() && !(#[trigger] saved[i]) && pages[i].filename
            == filename
}

/// The last place where `name` stands and the save succeeded, or -1.
pub open spec fn last_kept_place(names: Seq<Seq<char>>, saved: Seq<bool>, name: Seq<char>) -> int
    decreases names.len(),
{
    if names.len() == 0 || saved.len() != names.len() {
        -1
    } else if saved.last() && names.last() == name {
        names.len() - 1
    } else {
        last_kept_place(names.drop_last(), saved.drop_last(), name)
    }
}

/// What `last_kept_place` returns is a place of the name whose save
/// succeeded, or -1.
pub proof fn lemma_last_kept_place(names: Seq<Seq<char>>, saved: Seq<bool>, name: Seq<char>)
    requires
        saved.len() == names.len(),
    ensures
        -1 <= last_kept_place(names, saved, name) < names.len(),
        last_kept_place(names, saved, name) >= 0 ==> names[last_kept_place(names, saved, name)]
            == name && saved[last_kept_place(names, saved, name)],
    decreases names.len(),
{
    if names.len() > 0 && !(saved.last() && names.last() == name) {
        lemma_last_kept_place(names.drop_last(), saved.drop_last(), name);
    }
}

/// Where every save of a name succeeded, the last place where the save
/// succeeded is the last place of the name.
pub proof fn lemma_last_kept_is_last(names: Seq<Seq<char>>, saved: Seq<bool>, name: Seq<char>)
    requires
        saved.len() == names.len(),
        forall|i: int| 0 <= i < names.len() && names[i] == name ==> #[trigger] saved[i],
    ensures
        last_kept_place(names, saved, name) == last_place(names, name),
    decreases names.len(),
{
    if names.len() > 0 {
        if names.last() == name {
            assert(saved[names.len() - 1]);
        } else {
            assert forall|i: int|
                0 <= i < names.drop_last().len() && names.drop_last()[i]
                    == name implies #[trigger] saved.drop_last()[i] by {
                assert(names[i] == name);
                assert(saved[i]);
            }
            lemma_last_kept_is_last(names.drop_last(), saved.drop_last(), name);
        }
    }
}

/// What the cache holds after the pages whose save succeeded are put in:
/// each file of such a page holds the last of them, and every other file
/// what it held.
pub proof fn lemma_kept_shape(c: Map<Seq<char>, PageView>, pages: Seq<PageView>, saved: Seq<bool>)
    requires
        saved.len() == pages.len(),
    ensures
        forall|f: Seq<char>|
            {
                let after = cached(c, kept(pages, saved));
                let last = #[trigger] last_kept_place(page_filenames(pages), saved, f);
                if last >= 0 {
                    after.contains_key(f) && after[f] == pages[last]
                } else {
                    after.contains_key(f) == c.contains_key(f) && (c.contains_key(f) ==> after[f]
                        == c[f])
                }
            },
    decreases pages.len(),
{
    if pages.len() > 0 {
        let init = pages.drop_last();
        let flags = saved.drop_last();
        lemma_kept_shape(c, init, flags);
        assert(page_filenames(pages).drop_last() =~= page_filenames(init));
        let after = cached(c, kept(pages, saved));
        if saved.last() {
            assert(kept(pages, saved).drop_last() =~= kept(init, flags));
        }
        assert forall|f: Seq<char>|
            {
                let last = #[trigger] last_kept_place(page_filenames(pages), saved, f);
                if last >= 0 {
                    after.contains_key(f) && after[f] == pages[last]
                } else {
                    after.contains_key(f) == c.contains_key(f) && (c.contains_key(f) ==> after[f]
                        == c[f])
                }
            } by {
            let earlier = last_kept_place(page_filenames(init), flags, f);
            lemma_last_kept_place(page_filenames(init), flags, f);
            if earlier >= 0 {
                assert(pages[earlier] == init[earlier]);
            }
        }
    } else {
        assert(page_filenames(pages) =~= Seq::<Seq<char>>::empty());
    }
}

/// After a batch some of whose saves failed: every page of the cache
/// stands under the identifier that the manifest binds to its file, except
/// for the files of which a page was not saved.
pub proof fn lemma_batch_keeps_coherence_where_saved(
    m: Map<Seq<char>, Seq<char>>,
    c: Map<Seq<char>, PageView>,
    batch: Seq<PageDraftView>,
    saved: Seq<bool>,
    serve_home: bool,
    home_identifier: Seq<char>,
)
    requires
        one_to_one(m),
        coherent(m, c),
        saved.len() == valid_drafts(m, batch).len(),
    ensures
        ({
            let manifest = ingested_manifest(m, batch);
            let pages = rendered_pages(
                manifest,
                valid_drafts(m, batch),
                serve_home,
                home_identifier,
            );
            let cache = cached(c, kept(pages, saved));
            forall|f: Seq<char>| #[trigger]
                cache.contains_key(f) && !save_failed(pages, saved, f) ==> manifest.contains_key(f)
                    && manifest[f] == cache[f].identifier && cache[f].filename == f
        }),
{
    let valid = valid_drafts(m, batch);
    let manifest = ingested_manifest(m, batch);
    let pages = rendered_pages(manifest, valid, serve_home, home_identifier);
    let cache = cached(c, kept(pages, saved));
    lemma_valid_drafts_are_compatible(m, batch);
    lemma_registered_shape(m, valid);
    lemma_kept_shape(c, pages, saved);
    assert(page_filenames(pages) =~= draft_filenames(valid));
    assert forall|f: Seq<char>| #[trigger]
        cache.contains_key(f) && !save_failed(pages, saved, f) implies manifest.contains_key(f)
        && manifest[f] == cache[f].identifier && cache[f].filename == f by {
        let names = page_filenames(pages);
        assert forall|i: int| 0 <= i < names.len() && names[i] == f implies #[trigger] saved[i] by {
            if !saved[i] {
                assert(pages[i].filename == f);
                assert(save_failed(pages, saved, f));
            }
        }
        lemma_last_kept_is_last(names, saved, f);
        lemma_last_place(names, f);
        let last = last_place(draft_filenames(valid), f);
        assert(last == last_kept_place(names, saved, f));
        if last < 0 {
            assert(c.contains_key(f));
        }
    }
}

/// After a whole batch, deletions and ingestion, some of whose saves
/// failed: the manifest is one-to-one, and every page of the cache stands
/// under the identifier that the manifest binds to its file, except for the
/// files of which a page was not saved.
pub proof fn lemma_whole_batch_keeps_coherence_where_saved(
    m: Map<Seq<char>, Seq<char>>,
    c: Map<Seq<char>, PageView>,
    deleted: Seq<Seq<char>>,
    batch: Seq<PageDraftView>,
    saved: Seq<bool>,
    serve_home: bool,
    home_identifier: Seq<char>,
)
    requires
        one_to_one(m),
        coherent(m, c),
        saved.len() == valid_drafts(forgotten(m, c, deleted).0, batch).len(),
    ensures
        ({
            let cleared = forgotten(m, c, deleted);
            let manifest = ingested_manifest(cleared.0, batch);
            let pages = rendered_pages(
                manifest,
                valid_drafts(cleared.0, batch),
                serve_home,
                home_identifier,
            );
            let cache = cached(cleared.1, kept(pages, saved));
            &&& one_to_one(manifest)
            &&& forall|f: Seq<char>| #[trigger]
                cache.contains_key(f) && !save_failed(pages, saved, f) ==> manifest.contains_key(f)
                    && manifest[f] == cache[f].identifier && cache[f].filename == f
        }),
{
    lemma_forgotten_keeps_coherence(m, c, deleted);
    let cleared = forgotten(m, c, deleted);
    lemma_registered_one_to_one(cleared.0, valid_drafts(cleared.0, batch));
    lemma_batch_keeps_coherence_where_saved(
        cleared.0,
        cleared.1,
        batch,
        saved,
        serve_home,
        home_identifier,
    );
}

/// After any batch that ran to its end or was stopped by a failed deletion,
/// begun in a state where cache and manifest agreed: the manifest is
/// one-to-one, and every page of the cache stands under the identifier that
/// the manifest binds to its file, except for the files of which a page was
/// not saved.
pub proof fn lemma_finished_batch_is_coherent(batch: Batch, service: SyncService)
    requires
        batch.in_step_with(&service),
        batch.stage() == BatchStage::Finished,
        one_to_one(batch.origin().0),
        coherent(batch.origin().0, batch.origin().1),
    ensures
        one_to_one(service.manifest()),
        forall|f: Seq<char>| #[trigger]
            service.cache().contains_key(f) && !save_failed(batch.pages(), batch.saved(), f)
                ==> service.manifest().contains_key(f) && service.manifest()[f]
                == service.cache()[f].identifier && service.cache()[f].filename == f,
{
    let names = deletion_names(service.content_dir(), batch.deletions());
    if batch.report().aborted {
        lemma_forgotten_keeps_coherence(
            batch.origin().0,
            batch.origin().1,
            names.take(batch.done()),
        );
    } else {
        lemma_whole_batch_keeps_coherence_where_saved(
            batch.origin().0,
            batch.origin().1,
            names,
            batch.discovered(),
            batch.saved(),
            service.serve_home(),
            service.home_identifier(),
        );
    }
}

} // verus!
