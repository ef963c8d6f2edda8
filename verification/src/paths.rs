//! Lexical paths.
//!
//! A path is text: pieces separated by `/`. Nothing here looks at a file
//! system. The component rules are those of a Unix path: a leading `/` is the
//! root, empty pieces and inner `.` pieces vanish, a leading `.` is the
//! current directory, `..` is the parent, and every other piece is a name.

use vstd::prelude::*;
use crate::text::{chars_of, copy_chars, copy_range, pieces, same_chars, split, split_chars};

verus! {

/// One component of a path, as the rules of this crate read it.
pub enum Component {
    RootDir,
    CurDir,
    ParentDir,
    Normal(Seq<char>),
}

/// One component of a path, as executable code holds it.
#[derive(Debug)]
pub enum PathPart {
    RootDir,
    CurDir,
    ParentDir,
    Normal(Vec<char>),
}

impl View for PathPart {
    type V = Component;

    open spec fn view(&self) -> Component {
        match self {
            PathPart::RootDir => Component::RootDir,
            PathPart::CurDir => Component::CurDir,
            PathPart::ParentDir => Component::ParentDir,
            PathPart::Normal(name) => Component::Normal(name@),
        }
    }
}

/// The components that a vector of parts stands for.
pub open spec fn parts_view(parts: Seq<PathPart>) -> Seq<Component> {
    Seq::new(parts.len(), |i: int| parts[i]@)
}

/// Whether the path starts at the root.
pub open spec fn has_root(path: Seq<char>) -> bool {
    path.len() > 0 && path[0] == '/'
}

/// The component that one piece between separators gives, if any. `leading`
/// says that the piece is the first of the path.
pub open spec fn piece_component(piece: Seq<char>, leading: bool) -> Option<Component> {
    if piece.len() == 0 {
        None
    } else if piece =~= seq!['.'] {
        if leading {
            Some(Component::CurDir)
        } else {
            None
        }
    } else if piece =~= seq!['.', '.'] {
        Some(Component::ParentDir)
    } else {
        Some(Component::Normal(piece))
    }
}

/// The components that the pieces of a path give, in order.
pub open spec fn pieces_components(segs: Seq<Seq<char>>) -> Seq<Component>
    decreases segs.len(),
{
    if segs.len() == 0 {
        Seq::empty()
    } else {
        let init = pieces_components(segs.drop_last());
        match piece_component(segs.last(), segs.len() == 1) {
            Some(c) => init.push(c),
            None => init,
        }
    }
}

/// The root component, where the path has one.
pub open spec fn root_prefix(path: Seq<char>) -> Seq<Component> {
    if has_root(path) {
        seq![Component::RootDir]
    } else {
        Seq::empty()
    }
}

/// The components of a path.
pub open spec fn path_components(path: Seq<char>) -> Seq<Component> {
    root_prefix(path) + pieces_components(split(path, '/'))
}

/// The components of `path`.
pub fn components(path: &str) -> (r: Vec<PathPart>)
    ensures
        parts_view(r@) == path_components(path@),
{
    let chars = chars_of(path);
    let segs = split_chars(&chars, '/');
    let mut out: Vec<PathPart> = Vec::new();
    if chars.len() > 0 && chars[0] == '/' {
        out.push(PathPart::RootDir);
    }
    assert(parts_view(out@) =~= root_prefix(path@));
    let mut k: usize = 0;
    assert(pieces(segs@).take(0) =~= Seq::<Seq<char>>::empty());
    while k < segs.len()
        invariant
            k <= segs.len(),
            parts_view(out@) == root_prefix(path@) + pieces_components(pieces(segs@).take(k as int)),
        decreases segs.len() - k,
    {
        let seg = &segs[k];
        let ghost before = out@;
        proof {
            let now = pieces(segs@).take(k + 1);
            assert(now.drop_last() =~= pieces(segs@).take(k as int));
            assert(now.last() == seg@);
        }
        if seg.len() == 0 {
        } else if seg.len() == 1 && seg[0] == '.' {
            assert(seg@ =~= seq!['.']);
            if k == 0 {
                out.push(PathPart::CurDir);
                assert(parts_view(out@) =~= parts_view(before).push(Component::CurDir));
            }
        } else if seg.len() == 2 && seg[0] == '.' && seg[1] == '.' {
            assert(seg@ =~= seq!['.', '.']);
            out.push(PathPart::ParentDir);
            assert(parts_view(out@) =~= parts_view(before).push(Component::ParentDir));
        } else {
            assert(!(seg@ =~= seq!['.']));
            assert(!(seg@ =~= seq!['.', '.']));
            out.push(PathPart::Normal(copy_chars(seg)));
            assert(parts_view(out@) =~= parts_view(before).push(Component::Normal(seg@)));
        }
        assert(parts_view(out@) =~= root_prefix(path@) + pieces_components(
            pieces(segs@).take(k + 1),
        ));
        k += 1;
    }
    assert(pieces(segs@).take(segs.len() as int) =~= pieces(segs@));
    out
}

/// The text of one component.
pub open spec fn component_text(c: Component) -> Seq<char> {
    match c {
        Component::RootDir => seq!['/'],
        Component::CurDir => seq!['.'],
        Component::ParentDir => seq!['.', '.'],
        Component::Normal(name) => name,
    }
}

/// `base` followed by `more`, as pushing a path onto another gives it: an
/// absolute `more` takes the place of `base`, and a separator is put between
/// the two where `base` does not end in one.
pub open spec fn join_paths(base: Seq<char>, more: Seq<char>) -> Seq<char> {
    if has_root(more) {
        more
    } else if base.len() > 0 && base.last() != '/' {
        base.push('/') + more
    } else {
        base + more
    }
}

/// The text of a sequence of components: each pushed onto those before it.
pub open spec fn render(cs: Seq<Component>) -> Seq<char>
    decreases cs.len(),
{
    if cs.len() == 0 {
        Seq::empty()
    } else {
        let init = render(cs.drop_last());
        let name = component_text(cs.last());
        if init.len() > 0 && init.last() != '/' {
            init.push('/') + name
        } else {
            init + name
        }
    }
}

/// Appends `more` to `out` as `join_paths` says.
pub fn push_path(out: &mut Vec<char>, more: &Vec<char>)
    ensures
        final(out)@ == join_paths(old(out)@, more@),
{
    if more.len() > 0 && more[0] == '/' {
        out.clear();
        assert(out@ + more@ =~= more@);
    } else if out.len() > 0 && out[out.len() - 1] != '/' {
        out.push('/');
    }
    let mut i: usize = 0;
    let ghost start = out@;
    while i < more.len()
        invariant
            i <= more.len(),
            out@ == start + more@.subrange(0, i as int),
        decreases more.len() - i,
    {
        out.push(more[i]);
        assert(more@.subrange(0, i as int).push(more@[i as int]) == more@.subrange(0, i + 1));
        i += 1;
    }
    assert(more@.subrange(0, more.len() as int) == more@);
}

/// The text of the components `parts[..upto]`.
pub fn render_parts(parts: &Vec<PathPart>, upto: usize) -> (r: Vec<char>)
    requires
        upto <= parts.len(),
    ensures
        r@ == render(parts_view(parts@).take(upto as int)),
{
    let mut out: Vec<char> = Vec::new();
    let mut k: usize = 0;
    assert(parts_view(parts@).take(0) =~= Seq::<Component>::empty());
    while k < upto
        invariant
            k <= upto <= parts.len(),
            out@ == render(parts_view(parts@).take(k as int)),
        decreases upto - k,
    {
        proof {
            let now = parts_view(parts@).take(k + 1);
            assert(now.drop_last() =~= parts_view(parts@).take(k as int));
            assert(now.last() == parts@[k as int]@);
        }
        if out.len() > 0 && out[out.len() - 1] != '/' {
            out.push('/');
        }
        match &parts[k] {
            PathPart::RootDir => {
                out.push('/');
            },
            PathPart::CurDir => {
                out.push('.');
            },
            PathPart::ParentDir => {
                out.push('.');
                out.push('.');
            },
            PathPart::Normal(name) => {
                let mut i: usize = 0;
                let ghost start = out@;
                while i < name.len()
                    invariant
                        i <= name.len(),
                        out@ == start + name@.subrange(0, i as int),
                    decreases name.len() - i,
                {
                    out.push(name[i]);
                    assert(name@.subrange(0, i as int).push(name@[i as int]) == name@.subrange(
                        0,
                        i + 1,
                    ));
                    i += 1;
                }
                assert(name@.subrange(0, name.len() as int) == name@);
            },
        }
        assert(out@ =~= render(parts_view(parts@).take(k + 1)));
        k += 1;
    }
    out
}

/// The number of names among the components.
pub open spec fn normal_count(cs: Seq<Component>) -> nat
    decreases cs.len(),
{
    if cs.len() == 0 {
        0
    } else {
        normal_count(cs.drop_last()) + if cs.last() is Normal {
            1nat
        } else {
            0nat
        }
    }
}

/// `normal_count` is at most the number of components.
pub proof fn lemma_normal_count_bound(cs: Seq<Component>)
    ensures
        normal_count(cs) <= cs.len(),
    decreases cs.len(),
{
    if cs.len() > 0 {
        lemma_normal_count_bound(cs.drop_last());
    }
}

/// The components of the directory that holds the path: all but the last,
/// unless the path is empty or ends at the root.
pub open spec fn parent_components(cs: Seq<Component>) -> Option<Seq<Component>> {
    if cs.len() == 0 || cs.last() is RootDir {
        None
    } else {
        Some(cs.drop_last())
    }
}

/// The names that are left when `.` is dropped and each `..` takes back the
/// name before it. A `..` with no name before it is dropped; the root is
/// dropped too.
pub open spec fn normalize_stack(cs: Seq<Component>) -> Seq<Seq<char>>
    decreases cs.len(),
{
    if cs.len() == 0 {
        Seq::empty()
    } else {
        let init = normalize_stack(cs.drop_last());
        match cs.last() {
            Component::Normal(name) => init.push(name),
            Component::ParentDir => if init.len() > 0 {
                init.drop_last()
            } else {
                init
            },
            _ => init,
        }
    }
}

/// Works the components of `parts` into the names already in `stack`: a name
/// is pushed, `..` takes the last name back, the rest is passed over.
pub fn normalize_onto(stack: &mut Vec<Vec<char>>, parts: &Vec<PathPart>)
    ensures
        pieces(final(stack)@) == normalize_more(pieces(old(stack)@), parts_view(parts@)),
{
    let mut k: usize = 0;
    assert(parts_view(parts@).take(0) =~= Seq::<Component>::empty());
    while k < parts.len()
        invariant
            k <= parts.len(),
            pieces(stack@) == normalize_more(
                pieces(old(stack)@),
                parts_view(parts@).take(k as int),
            ),
        decreases parts.len() - k,
    {
        proof {
            let now = parts_view(parts@).take(k + 1);
            assert(now.drop_last() =~= parts_view(parts@).take(k as int));
            assert(now.last() == parts@[k as int]@);
        }
        let ghost before = stack@;
        match &parts[k] {
            PathPart::Normal(name) => {
                stack.push(copy_chars(name));
                assert(pieces(stack@) =~= pieces(before).push(name@));
            },
            PathPart::ParentDir => {
                if stack.len() > 0 {
                    stack.pop();
                    assert(pieces(stack@) =~= pieces(before).drop_last());
                }
            },
            _ => {},
        }
        k += 1;
    }
    assert(parts_view(parts@).take(parts.len() as int) =~= parts_view(parts@));
}

/// `normalize_stack`, started from names that are already there.
pub open spec fn normalize_more(stack: Seq<Seq<char>>, cs: Seq<Component>) -> Seq<Seq<char>>
    decreases cs.len(),
{
    if cs.len() == 0 {
        stack
    } else {
        let init = normalize_more(stack, cs.drop_last());
        match cs.last() {
            Component::Normal(name) => init.push(name),
            Component::ParentDir => if init.len() > 0 {
                init.drop_last()
            } else {
                init
            },
            _ => init,
        }
    }
}

/// Started from nothing, `normalize_more` is `normalize_stack`.
pub proof fn lemma_normalize_more_empty(cs: Seq<Component>)
    ensures
        normalize_more(Seq::empty(), cs) == normalize_stack(cs),
    decreases cs.len(),
{
    if cs.len() > 0 {
        lemma_normalize_more_empty(cs.drop_last());
    }
}

/// Normalising `a` and then `b` on top of it is normalising `a + b`.
pub proof fn lemma_normalize_more_append(a: Seq<Component>, b: Seq<Component>)
    ensures
        normalize_more(normalize_stack(a), b) == normalize_stack(a + b),
    decreases b.len(),
{
    if b.len() == 0 {
        assert(a + b =~= a);
    } else {
        lemma_normalize_more_append(a, b.drop_last());
        assert((a + b).drop_last() =~= a + b.drop_last());
        assert((a + b).last() == b.last());
    }
}

/// Whether the components of `prefix` are the first components of `cs`.
pub fn starts_with_parts(cs: &Vec<PathPart>, prefix: &Vec<PathPart>) -> (r: bool)
    ensures
        r == parts_view(prefix@).is_prefix_of(parts_view(cs@)),
{
    if prefix.len() > cs.len() {
        return false;
    }
    let mut k: usize = 0;
    while k < prefix.len()
        invariant
            k <= prefix.len() <= cs.len(),
            forall|j: int| 0 <= j < k ==> cs@[j]@ == prefix@[j]@,
        decreases prefix.len() - k,
    {
        if !same_part(&cs[k], &prefix[k]) {
            assert(parts_view(cs@)[k as int] != parts_view(prefix@)[k as int]);
            return false;
        }
        k += 1;
    }
    assert(parts_view(prefix@) =~= parts_view(cs@).subrange(0, prefix.len() as int));
    true
}

/// Whether the part is the root.
pub fn is_root(part: &PathPart) -> (r: bool)
    ensures
        r == (part@ is RootDir),
{
    match part {
        PathPart::RootDir => true,
        _ => false,
    }
}

/// Whether the two parts are the same component.
pub fn same_part(a: &PathPart, b: &PathPart) -> (r: bool)
    ensures
        r == (a@ == b@),
{
    match (a, b) {
        (PathPart::RootDir, PathPart::RootDir) => true,
        (PathPart::CurDir, PathPart::CurDir) => true,
        (PathPart::ParentDir, PathPart::ParentDir) => true,
        (PathPart::Normal(x), PathPart::Normal(y)) => same_chars(x, y),
        _ => false,
    }
}

/// The position of the last `c` in `s`, or -1 where `c` does not occur.
pub open spec fn last_position_of(s: Seq<char>, c: char) -> int
    decreases s.len(),
{
    if s.len() == 0 {
        -1
    } else if s.last() == c {
        s.len() - 1
    } else {
        last_position_of(s.drop_last(), c)
    }
}

/// A file name without its extension: what stands before the last dot,
/// unless the name has no dot or only the one it starts with.
pub open spec fn file_stem(name: Seq<char>) -> Seq<char> {
    let dot = last_position_of(name, '.');
    if dot <= 0 {
        name
    } else {
        name.take(dot)
    }
}

/// The name of the file that a path ends in: its last component, where that
/// is a name.
pub open spec fn file_name(path: Seq<char>) -> Option<Seq<char>> {
    let cs = path_components(path);
    if cs.len() > 0 {
        match cs.last() {
            Component::Normal(name) => Some(name),
            _ => None,
        }
    } else {
        None
    }
}

/// The extension of a file name: what follows its last dot, where the name
/// has a dot other than one it starts with.
pub open spec fn extension(name: Seq<char>) -> Option<Seq<char>> {
    let dot = last_position_of(name, '.');
    if dot <= 0 {
        None
    } else {
        Some(name.skip(dot + 1))
    }
}

/// The position of the last dot of `name`, where that dot parts a stem from
/// an extension: `None` where the name has no dot or only the one it starts
/// with.
pub fn extension_dot(name: &Vec<char>) -> (r: Option<usize>)
    ensures
        match r {
            Some(dot) => 0 < dot < name.len() && last_position_of(name@, '.') == dot,
            None => last_position_of(name@, '.') <= 0,
        },
{
    let mut i: usize = name.len();
    assert(name@.take(name.len() as int) =~= name@);
    while i > 0 && name[i - 1] != '.'
        invariant
            i <= name.len(),
            last_position_of(name@, '.') == last_position_of(name@.take(i as int), '.'),
        decreases i,
    {
        assert(name@.take(i as int).drop_last() =~= name@.take(i - 1));
        i -= 1;
    }
    if i <= 1 {
        assert(last_position_of(name@, '.') <= 0) by {
            if i == 1 {
                assert(name@.take(1).last() == '.');
            }
        }
        None
    } else {
        Some(i - 1)
    }
}

/// The file stem of `name`.
pub fn stem_of(name: &Vec<char>) -> (r: Vec<char>)
    ensures
        r@ == file_stem(name@),
{
    match extension_dot(name) {
        Some(dot) => copy_range(name, 0, dot),
        None => copy_range(name, 0, name.len()),
    }
}

/// The extension of `name`.
pub fn extension_of(name: &Vec<char>) -> (r: Option<Vec<char>>)
    ensures
        match r {
            Some(ext) => extension(name@) == Some(ext@),
            None => extension(name@) is None,
        },
        r is Some ==> name.len() > 0,
{
    match extension_dot(name) {
        Some(dot) => {
            let ext = copy_range(name, dot + 1, name.len());
            assert(ext@ =~= name@.skip(dot + 1));
            Some(ext)
        },
        None => None,
    }
}

/// How far the components lead down: a name is one level down, `..` one
/// level up, anything else stays.
pub open spec fn net_depth(cs: Seq<Component>) -> int
    decreases cs.len(),
{
    if cs.len() == 0 {
        0
    } else {
        net_depth(cs.drop_last()) + match cs.last() {
            Component::Normal(_) => 1int,
            Component::ParentDir => -1int,
            _ => 0int,
        }
    }
}

/// Walking `link` from a directory `start` levels below the root never
/// rises above the root, at any point of the walk.
pub open spec fn stays_within(start: int, link: Seq<Component>) -> bool {
    forall|k: int| 0 <= k <= link.len() ==> start + net_depth(#[trigger] link.take(k)) >= 0
}

/// The number of names among `parts[..upto]`.
pub fn count_normal(parts: &Vec<PathPart>, upto: usize) -> (r: usize)
    requires
        upto <= parts.len(),
    ensures
        r == normal_count(parts_view(parts@).take(upto as int)),
{
    let mut count: usize = 0;
    let mut k: usize = 0;
    assert(parts_view(parts@).take(0) =~= Seq::<Component>::empty());
    while k < upto
        invariant
            k <= upto <= parts.len(),
            count <= k,
            count == normal_count(parts_view(parts@).take(k as int)),
        decreases upto - k,
    {
        proof {
            let now = parts_view(parts@).take(k + 1);
            assert(now.drop_last() =~= parts_view(parts@).take(k as int));
            assert(now.last() == parts@[k as int]@);
        }
        match &parts[k] {
            PathPart::Normal(_) => {
                count += 1;
            },
            _ => {},
        }
        k += 1;
    }
    count
}

/// Whether walking the components of `parts` from a directory `start`
/// levels below the root never rises above the root.
pub fn walk_stays_within(start: usize, parts: &Vec<PathPart>) -> (r: bool)
    ensures
        r == stays_within(start as int, parts_view(parts@)),
{
    let ghost cs = parts_view(parts@);
    let mut depth: u128 = start as u128;
    let mut k: usize = 0;
    assert(cs.take(0) =~= Seq::<Component>::empty());
    while k < parts.len()
        invariant
            k <= parts.len(),
            cs == parts_view(parts@),
            depth == start + net_depth(cs.take(k as int)),
            depth <= start + k,
            forall|j: int| 0 <= j <= k ==> start + net_depth(#[trigger] cs.take(j)) >= 0,
        decreases parts.len() - k,
    {
        proof {
            let now = cs.take(k + 1);
            assert(now.drop_last() =~= cs.take(k as int));
            assert(now.last() == parts@[k as int]@);
        }
        match &parts[k] {
            PathPart::Normal(_) => {
                depth = depth + 1;
            },
            PathPart::ParentDir => {
                if depth == 0 {
                    assert(start + net_depth(cs.take(k + 1)) < 0);
                    return false;
                }
                depth = depth - 1;
            },
            _ => {},
        }
        k += 1;
    }
    true
}

} // verus!
