//! The manifest: which file carries which identifier, both ways.
//!
//! The manifest is a bijection between the file names it knows and their
//! identifiers. It is kept as two hash maps, one per direction, and every
//! operation keeps them inverse to each other.

use vstd::prelude::*;
use vstd::hash_map::StringHashMap;
use crate::config::ChasquiConfig;
use crate::paths::{
    components, count_normal, is_root, lemma_normalize_more_append, lemma_normalize_more_empty,
    normal_count, normalize_onto, normalize_stack, parent_components, parts_view,
    path_components, stays_within, walk_stays_within, Component,
};
use crate::text::{
    chars_of, copy_range, find_char, join, matches_at, pieces, position_of, push_chars,
    push_joined, starts_with, string_of, string_of_range,
};
use vstd::string::*;

verus! {

/// `m` with `filename` bound to `identifier`: the pair takes the place of
/// whatever `filename` was bound to, and of whichever file held `identifier`.
pub open spec fn bound(
    m: Map<Seq<char>, Seq<char>>,
    filename: Seq<char>,
    identifier: Seq<char>,
) -> Map<Seq<char>, Seq<char>> {
    Map::new(
        |f: Seq<char>| f == filename || (m.contains_key(f) && m[f] != identifier),
        |f: Seq<char>|
            if f == filename {
                identifier
            } else {
                m[f]
            },
    )
}

/// No two files of `m` carry the same identifier.
pub open spec fn one_to_one(m: Map<Seq<char>, Seq<char>>) -> bool {
    forall|f: Seq<char>, g: Seq<char>|
        m.contains_key(f) && m.contains_key(g) && #[trigger] m[f] == #[trigger] m[g] ==> f == g
}

/// The identifiers that `m` binds, each with its file.
pub open spec fn inverse(m: Map<Seq<char>, Seq<char>>) -> Map<Seq<char>, Seq<char>> {
    Map::new(
        |i: Seq<char>| exists|f: Seq<char>| m.contains_key(f) && #[trigger] m[f] == i,
        |i: Seq<char>| choose|f: Seq<char>| m.contains_key(f) && #[trigger] m[f] == i,
    )
}

/// Whether the link leaves the site or stays on the page: such links are
/// never rewritten.
pub open spec fn is_external(link: Seq<char>) -> bool {
    starts_with(link, "http://"@) || starts_with(link, "https://"@) || starts_with(
        link,
        "mailto:"@,
    ) || starts_with(link, "#"@)
}

/// The part of the link before its first `#`.
pub open spec fn link_lookup(link: Seq<char>) -> Seq<char> {
    link.take(position_of(link, '#'))
}

/// The part of the link from its first `#` on, the `#` included; empty where
/// the link has none.
pub open spec fn link_fragment(link: Seq<char>) -> Seq<char> {
    link.skip(position_of(link, '#'))
}

/// Whether the lookup is written relative to the file that holds it.
pub open spec fn is_relative_lookup(lookup: Seq<char>) -> bool {
    starts_with(lookup, "./"@) || starts_with(lookup, "../"@)
}

/// The components of the directory of `filename`; those of `filename`
/// itself where it has no directory.
pub open spec fn directory_components(filename: Seq<char>) -> Seq<Component> {
    match parent_components(path_components(filename)) {
        Some(parent) => parent,
        None => path_components(filename),
    }
}

/// A path in normal form: its names joined by `/`, with `.` dropped and each
/// `..` taking back the name before it.
pub open spec fn normalized(cs: Seq<Component>) -> Seq<char> {
    join(normalize_stack(cs), '/')
}

/// Whether a relative lookup written in `current_filename` stays within the
/// content root: walking it from the directory of the file, a name one
/// level down and `..` one level up, never rises above the root.
pub open spec fn lookup_stays_within(lookup: Seq<char>, current_filename: Seq<char>) -> bool {
    stays_within(
        normal_count(directory_components(current_filename)) as int,
        path_components(lookup),
    )
}

/// The key under which a lookup is searched: a relative lookup resolved
/// against the directory of the current file, any other without one leading
/// `/`. A relative lookup that rises above the content root has no key.
pub open spec fn lookup_key(lookup: Seq<char>, current_filename: Seq<char>) -> Option<
    Seq<char>,
> {
    if is_relative_lookup(lookup) {
        if lookup_stays_within(lookup, current_filename) {
            Some(normalized(directory_components(current_filename) + path_components(lookup)))
        } else {
            None
        }
    } else if lookup.len() > 0 && lookup[0] == '/' {
        Some(lookup.skip(1))
    } else {
        Some(lookup)
    }
}

/// The identifier that a key leads to: that of the file with this name, else
/// the key itself where it is a known identifier.
pub open spec fn key_identifier(m: Map<Seq<char>, Seq<char>>, key: Seq<char>) -> Option<
    Seq<char>,
> {
    if m.contains_key(key) {
        Some(m[key])
    } else if inverse(m).contains_key(key) {
        Some(key)
    } else {
        None
    }
}

/// The URL of the page `identifier`, with the fragment behind it. The home
/// page, where it is served at the root, has the root as its URL.
pub open spec fn page_url(
    identifier: Seq<char>,
    fragment: Seq<char>,
    serve_home: bool,
    home_identifier: Seq<char>,
) -> Seq<char> {
    if serve_home && identifier == home_identifier {
        seq!['/'] + fragment
    } else {
        seq!['/'] + identifier + fragment
    }
}

/// What a link written in `current_filename` is rewritten to.
pub open spec fn resolved_link(
    m: Map<Seq<char>, Seq<char>>,
    link: Seq<char>,
    current_filename: Seq<char>,
    serve_home: bool,
    home_identifier: Seq<char>,
) -> Seq<char> {
    if is_external(link) {
        link
    } else {
        match lookup_key(link_lookup(link), current_filename) {
            Some(key) => match key_identifier(m, key) {
                Some(identifier) => page_url(
                    identifier,
                    link_fragment(link),
                    serve_home,
                    home_identifier,
                ),
                None => link,
            },
            None => link,
        }
    }
}

/// The in-memory knowledge of which file carries which identifier.
pub struct Manifest {
    filename_to_identifier: StringHashMap<String>,
    identifier_to_filename: StringHashMap<String>,
}

impl View for Manifest {
    type V = Map<Seq<char>, Seq<char>>;

    /// The identifier of each known file.
    closed spec fn view(&self) -> Map<Seq<char>, Seq<char>> {
        Map::new(
            |f: Seq<char>| self.filename_to_identifier@.contains_key(f),
            |f: Seq<char>| self.filename_to_identifier@[f]@,
        )
    }
}

impl Manifest {
    /// The file of each known identifier, as the second map holds it.
    pub closed spec fn by_identifier(&self) -> Map<Seq<char>, Seq<char>> {
        Map::new(
            |i: Seq<char>| self.identifier_to_filename@.contains_key(i),
            |i: Seq<char>| self.identifier_to_filename@[i]@,
        )
    }

    /// The two maps are inverse to each other.
    pub closed spec fn wf(&self) -> bool {
        &&& forall|f: Seq<char>| #[trigger]
            self.filename_to_identifier@.contains_key(f)
                ==> self.identifier_to_filename@.contains_key(self.filename_to_identifier@[f]@)
                && self.identifier_to_filename@[self.filename_to_identifier@[f]@]@ == f
        &&& forall|i: Seq<char>| #[trigger]
            self.identifier_to_filename@.contains_key(i)
                ==> self.filename_to_identifier@.contains_key(self.identifier_to_filename@[i]@)
                && self.filename_to_identifier@[self.identifier_to_filename@[i]@]@ == i
    }

    /// A well-formed manifest is a bijection: no identifier is carried by
    /// two files, and the map by identifier is the inverse of the map by
    /// file name.
    pub proof fn lemma_bijection(&self)
        requires
            self.wf(),
        ensures
            one_to_one(self@),
            self.by_identifier() == inverse(self@),
            forall|f: Seq<char>| #[trigger]
                self@.contains_key(f) ==> self.by_identifier().contains_key(self@[f])
                    && self.by_identifier()[self@[f]] == f,
            forall|i: Seq<char>| #[trigger]
                self.by_identifier().contains_key(i) ==> self@.contains_key(
                    self.by_identifier()[i],
                ) && self@[self.by_identifier()[i]] == i,
    {
        let f2i = self.filename_to_identifier@;
        let i2f = self.identifier_to_filename@;
        assert forall|f: Seq<char>, g: Seq<char>|
            self@.contains_key(f) && self@.contains_key(g) && #[trigger] self@[f]
                == #[trigger] self@[g] implies f == g by {
            assert(f2i.contains_key(f) && f2i.contains_key(g));
        }
        assert forall|i: Seq<char>| #[trigger]
            self.by_identifier().contains_key(i) implies inverse(self@).contains_key(i)
            && inverse(self@)[i] == self.by_identifier()[i] by {
            assert(i2f.contains_key(i));
            let f = i2f[i]@;
            assert(self@.contains_key(f) && self@[f] == i);
            let g = inverse(self@)[i];
            assert(self@.contains_key(g) && self@[g] == i);
            assert(f2i.contains_key(f) && f2i.contains_key(g));
        }
        assert forall|i: Seq<char>| #[trigger]
            inverse(self@).contains_key(i) implies self.by_identifier().contains_key(i) by {
            let f = choose|f: Seq<char>| self@.contains_key(f) && #[trigger] self@[f] == i;
            assert(f2i.contains_key(f));
        }
        assert(self.by_identifier() =~= inverse(self@));
        assert forall|f: Seq<char>| #[trigger] self@.contains_key(f) implies self.by_identifier(
        ).contains_key(self@[f]) && self.by_identifier()[self@[f]] == f by {
            assert(f2i.contains_key(f));
        }
        assert forall|i: Seq<char>| #[trigger]
            self.by_identifier().contains_key(i) implies self@.contains_key(
            self.by_identifier()[i],
        ) && self@[self.by_identifier()[i]] == i by {
            assert(i2f.contains_key(i));
        }
    }

    /// An empty manifest.
    pub fn new() -> (r: Manifest)
        ensures
            r.wf(),
            r@ == Map::<Seq<char>, Seq<char>>::empty(),
    {
        let r = Manifest {
            filename_to_identifier: StringHashMap::new(),
            identifier_to_filename: StringHashMap::new(),
        };
        assert(r@ =~= Map::<Seq<char>, Seq<char>>::empty());
        r
    }

    /// Binds `filename` to `identifier`, in both directions. A pair that
    /// held either of the two before is removed.
    pub fn insert(&mut self, filename: String, identifier: String)
        requires
            old(self).wf(),
        ensures
            final(self).wf(),
            final(self)@ == bound(old(self)@, filename@, identifier@),
    {
        let ghost f2i0 = self.filename_to_identifier@;
        let ghost i2f0 = self.identifier_to_filename@;
        let stale_identifier = match self.filename_to_identifier.get(filename.as_str()) {
            Some(i) => Some(i.clone()),
            None => None,
        };
        if let Some(i) = stale_identifier {
            self.identifier_to_filename.remove(i.as_str());
        }
        let ghost i2f1 = self.identifier_to_filename@;
        let stale_filename = match self.identifier_to_filename.get(identifier.as_str()) {
            Some(f) => Some(f.clone()),
            None => None,
        };
        if let Some(f) = stale_filename {
            self.filename_to_identifier.remove(f.as_str());
        }
        let ghost f2i1 = self.filename_to_identifier@;
        self.filename_to_identifier.insert(filename.clone(), identifier.clone());
        self.identifier_to_filename.insert(identifier, filename);
        proof {
            let f2i = self.filename_to_identifier@;
            let i2f = self.identifier_to_filename@;
            let fname = filename@;
            let ident = identifier@;
            // what the first map lost: the file that held `ident`, if another
            assert forall|f: Seq<char>| f2i1.contains_key(f) <==> (f2i0.contains_key(f) && (
            f2i0[f]@ != ident || f == fname)) by {
                if f2i0.contains_key(f) {
                    if f2i0[f]@ == ident && f != fname {
                        assert(i2f0.contains_key(ident) && i2f0[ident]@ == f);
                        assert(i2f1.contains_key(ident));
                    }
                    if f2i0[f]@ == ident && f == fname {
                        assert(!i2f1.contains_key(ident));
                    }
                    if f2i0[f]@ != ident && i2f1.contains_key(ident) {
                        assert(i2f0.contains_key(ident));
                        assert(f2i0[i2f0[ident]@]@ == ident);
                    }
                }
            }
            assert(self@ =~= bound(old(self)@, fname, ident));
            assert forall|f: Seq<char>| #[trigger] f2i.contains_key(f) implies i2f.contains_key(
                f2i[f]@,
            ) && i2f[f2i[f]@]@ == f by {
                if f != fname {
                    assert(f2i1.contains_key(f));
                    assert(f2i0.contains_key(f));
                    assert(i2f0.contains_key(f2i0[f]@));
                    if f2i0.contains_key(fname) {
                        assert(i2f0[f2i0[fname]@]@ == fname);
                    }
                }
            }
            assert forall|i: Seq<char>| #[trigger] i2f.contains_key(i) implies f2i.contains_key(
                i2f[i]@,
            ) && f2i[i2f[i]@]@ == i by {
                if i != ident {
                    assert(i2f1.contains_key(i));
                    assert(i2f0.contains_key(i));
                    let f = i2f0[i]@;
                    assert(f2i0.contains_key(f) && f2i0[f]@ == i);
                    if f == fname {
                        assert(false);
                    }
                    assert(f2i1.contains_key(f));
                }
            }
        }
    }

    /// Forgets `filename` and the identifier it carried.
    pub fn remove_by_filename(&mut self, filename: &str)
        requires
            old(self).wf(),
        ensures
            final(self).wf(),
            final(self)@ == old(self)@.remove(filename@),
    {
        let ghost f2i0 = self.filename_to_identifier@;
        let ghost i2f0 = self.identifier_to_filename@;
        let identifier = match self.filename_to_identifier.get(filename) {
            Some(i) => Some(i.clone()),
            None => None,
        };
        if let Some(i) = identifier {
            self.filename_to_identifier.remove(filename);
            self.identifier_to_filename.remove(i.as_str());
        }
        proof {
            let f2i = self.filename_to_identifier@;
            let i2f = self.identifier_to_filename@;
            assert(self@ =~= old(self)@.remove(filename@));
            assert forall|f: Seq<char>| #[trigger] f2i.contains_key(f) implies i2f.contains_key(
                f2i[f]@,
            ) && i2f[f2i[f]@]@ == f by {
                assert(f2i0.contains_key(f));
                if f2i0.contains_key(filename@) {
                    assert(i2f0[f2i0[filename@]@]@ == filename@);
                }
            }
            assert forall|i: Seq<char>| #[trigger] i2f.contains_key(i) implies f2i.contains_key(
                i2f[i]@,
            ) && f2i[i2f[i]@]@ == i by {
                assert(i2f0.contains_key(i));
            }
        }
    }

    /// The identifier that `filename` carries.
    pub fn get_identifier_for_filename(&self, filename: &str) -> (r: Option<String>)
        ensures
            match r {
                Some(i) => self@.contains_key(filename@) && i@ == self@[filename@],
                None => !self@.contains_key(filename@),
            },
    {
        match self.filename_to_identifier.get(filename) {
            Some(i) => Some(i.clone()),
            None => None,
        }
    }

    /// The file that carries `identifier`.
    pub fn get_filename_for_identifier(&self, identifier: &str) -> (r: Option<String>)
        requires
            self.wf(),
        ensures
            match r {
                Some(f) => self@.contains_key(f@) && self@[f@] == identifier@,
                None => forall|f: Seq<char>| self@.contains_key(f) ==> self@[f] != identifier@,
            },
            r is Some == inverse(self@).contains_key(identifier@),
            r is Some ==> r->0@ == inverse(self@)[identifier@],
    {
        proof {
            self.lemma_bijection();
        }
        match self.identifier_to_filename.get(identifier) {
            Some(f) => {
                assert(self.by_identifier().contains_key(identifier@));
                Some(f.clone())
            },
            None => {
                assert(!self.by_identifier().contains_key(identifier@));
                None
            },
        }
    }

    /// Whether some file carries `identifier`.
    pub fn has_identifier(&self, identifier: &str) -> (r: bool)
        requires
            self.wf(),
        ensures
            r == inverse(self@).contains_key(identifier@),
    {
        proof {
            self.lemma_bijection();
        }
        let r = self.identifier_to_filename.contains_key(identifier);
        assert(r == self.by_identifier().contains_key(identifier@));
        r
    }

    /// Rewrites a link written in the file `current_filename`.
    ///
    /// A link that leaves the site, or that is a bare fragment, comes back
    /// as it is. Any other is looked up, first as a file name and then as
    /// an identifier, and becomes the URL of the page found. A link that
    /// leads nowhere comes back as it is, and so does a relative link that
    /// rises above the content root.
    pub fn resolve_link(&self, link: &str, current_filename: &str, config: &ChasquiConfig) -> (r:
        String)
        requires
            self.wf(),
        ensures
            r@ == resolved_link(
                self@,
                link@,
                current_filename@,
                config.serve_home,
                config.home_identifier@,
            ),
    {
        let chars = chars_of(link);
        if matches_at(&chars, &chars_of("http://"), 0) || matches_at(
            &chars,
            &chars_of("https://"),
            0,
        ) || matches_at(&chars, &chars_of("mailto:"), 0) || matches_at(&chars, &chars_of("#"), 0) {
            return link.to_owned();
        }
        let hash = find_char(&chars, '#');
        let lookup = copy_range(&chars, 0, hash);
        assert(lookup@ == link_lookup(link@));
        let key: String = if matches_at(&lookup, &chars_of("./"), 0) || matches_at(
            &lookup,
            &chars_of("../"),
            0,
        ) {
            let mut base = components(current_filename);
            let ghost base_cs = parts_view(base@);
            if base.len() > 0 && !is_root(&base[base.len() - 1]) {
                assert(base_cs.last() == base@.last()@);
                base.truncate(base.len() - 1);
                assert(parts_view(base@) =~= base_cs.drop_last());
            }
            assert(parts_view(base@) == directory_components(current_filename@));
            let lookup_text = string_of(&lookup);
            let more = components(lookup_text.as_str());
            let start = count_normal(&base, base.len());
            assert(parts_view(base@).take(base.len() as int) =~= parts_view(base@));
            if !walk_stays_within(start, &more) {
                return link.to_owned();
            }
            let mut stack: Vec<Vec<char>> = Vec::new();
            assert(pieces(stack@) =~= Seq::<Seq<char>>::empty());
            normalize_onto(&mut stack, &base);
            normalize_onto(&mut stack, &more);
            proof {
                lemma_normalize_more_empty(parts_view(base@));
                lemma_normalize_more_append(parts_view(base@), parts_view(more@));
            }
            let mut joined = String::new();
            push_joined(&mut joined, &stack, '/');
            assert(joined@ =~= normalized(
                directory_components(current_filename@) + path_components(lookup@),
            ));
            joined
        } else if lookup.len() > 0 && lookup[0] == '/' {
            let stripped = string_of_range(&lookup, 1, lookup.len());
            assert(stripped@ =~= lookup@.skip(1));
            stripped
        } else {
            string_of(&lookup)
        };
        assert(lookup_key(link_lookup(link@), current_filename@) == Some(key@));
        proof {
            self.lemma_bijection();
        }
        let found: Option<String> = match self.filename_to_identifier.get(key.as_str()) {
            Some(identifier) => Some(identifier.clone()),
            None => {
                let known = self.identifier_to_filename.contains_key(key.as_str());
                assert(known == self.by_identifier().contains_key(key@));
                if known {
                    Some(key)
                } else {
                    None
                }
            },
        };
        assert(match found {
            Some(identifier) => key_identifier(self@, key@) == Some(identifier@),
            None => key_identifier(self@, key@) is None,
        });
        match found {
            Some(identifier) => {
                let mut url = String::new();
                url.push('/');
                assert(url@ =~= seq!['/']);
                if !(config.serve_home && identifier == config.home_identifier) {
                    url.append(identifier.as_str());
                }
                let fragment = copy_range(&chars, hash, chars.len());
                assert(fragment@ =~= link_fragment(link@));
                push_chars(&mut url, &fragment);
                url
            },
            None => link.to_owned(),
        }
    }
}

/// The normal form of `path`: its names joined by `/`, with `.` dropped and
/// each `..` taking back the name before it.
pub fn normalize_path_string(path: &str) -> (r: String)
    ensures
        r@ == normalized(path_components(path@)),
{
    let parts = components(path);
    let mut stack: Vec<Vec<char>> = Vec::new();
    assert(pieces(stack@) =~= Seq::<Seq<char>>::empty());
    normalize_onto(&mut stack, &parts);
    proof {
        lemma_normalize_more_empty(parts_view(parts@));
    }
    let mut out = String::new();
    push_joined(&mut out, &stack, '/');
    assert(out@ =~= normalized(path_components(path@)));
    out
}

} // verus!
