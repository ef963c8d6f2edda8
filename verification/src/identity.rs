//! What a file is called and how its content is told apart: the file name
//! relative to the content root, the default identifier, the content hash.

use vstd::prelude::*;
use vstd::string::*;
use crate::domain::option_view;
use crate::paths::{
    components, file_stem, parts_view, path_components, render, render_parts, starts_with_parts,
    stem_of, Component, PathPart,
};
use crate::text::{chars_of, push_replaced, replace_char, string_of};

verus! {

/// The 64-bit XXH3 hash of a sequence of bytes.
pub uninterp spec fn xxh3_64_digest(input: Seq<u8>) -> u64;

/// `xxhash_rust::xxh3::xxh3_64`: the hash is a function of the bytes alone.
pub assume_specification[ xxhash_rust::xxh3::xxh3_64 ](input: &[u8]) -> (digest: u64)
    ensures
        digest == xxh3_64_digest(input@),
;

/// The hexadecimal digit of a value below 16, in lower case.
pub open spec fn hex_digit(value: u64) -> char {
    seq!['0', '1', '2', '3', '4', '5', '6', '7', '8', '9', 'a', 'b', 'c', 'd', 'e', 'f'][value as int]
}

/// The digit at place `i` of a 64-bit value written with 16 hexadecimal
/// digits, the highest first.
pub open spec fn nibble(value: u64, i: int) -> u64 {
    (value >> ((4 * (15 - i)) as u64)) & 0xf
}

/// A 64-bit value written with exactly 16 lowercase hexadecimal digits.
pub open spec fn hex16(value: u64) -> Seq<char> {
    Seq::new(16, |i: int| hex_digit(nibble(value, i)))
}

/// The hexadecimal digit of `value`.
fn hex_digit_of(value: u64) -> (r: char)
    requires
        value < 16,
    ensures
        r == hex_digit(value),
{
    if value == 0 {
        '0'
    } else if value == 1 {
        '1'
    } else if value == 2 {
        '2'
    } else if value == 3 {
        '3'
    } else if value == 4 {
        '4'
    } else if value == 5 {
        '5'
    } else if value == 6 {
        '6'
    } else if value == 7 {
        '7'
    } else if value == 8 {
        '8'
    } else if value == 9 {
        '9'
    } else if value == 10 {
        'a'
    } else if value == 11 {
        'b'
    } else if value == 12 {
        'c'
    } else if value == 13 {
        'd'
    } else if value == 14 {
        'e'
    } else {
        'f'
    }
}

/// Writes `value` with 16 lowercase hexadecimal digits.
pub fn format_hex16(value: u64) -> (r: String)
    ensures
        r@ == hex16(value),
{
    let mut out = String::new();
    let mut i: u64 = 0;
    while i < 16
        invariant
            i <= 16,
            out@ == hex16(value).subrange(0, i as int),
        decreases 16 - i,
    {
        let shift: u64 = 4 * (15 - i);
        let digit: u64 = (value >> shift) & 0xf;
        assert(digit < 16) by (bit_vector)
            requires
                digit == (value >> shift) & 0xf,
        ;
        out.push(hex_digit_of(digit));
        assert(hex16(value).subrange(0, i as int).push(hex_digit(nibble(value, i as int)))
            =~= hex16(value).subrange(0, i + 1));
        i += 1;
    }
    assert(hex16(value).subrange(0, 16) =~= hex16(value));
    out
}

/// The content hash of a file: the XXH3 hash of its bytes, in hexadecimal.
pub open spec fn content_hash(bytes: Seq<u8>) -> Seq<char> {
    hex16(xxh3_64_digest(bytes))
}

/// The content hash of a file with the text `raw`: that of its UTF-8 bytes.
pub open spec fn text_hash(raw: Seq<char>) -> Seq<char> {
    content_hash(vstd::utf8::encode_utf8(raw))
}

/// The content hash of the raw text of a file. It is a function of the bytes
/// of the file and of nothing else.
pub fn md_content_hash(raw_markdown: &str) -> (r: String)
    ensures
        r@ == text_hash(raw_markdown@),
        r@.len() == 16,
{
    format_hex16(xxhash_rust::xxh3::xxh3_64(raw_markdown.as_bytes()))
}

/// Files with the same bytes have the same content hash.
pub proof fn lemma_content_hash_deterministic(a: Seq<u8>, b: Seq<u8>)
    requires
        a == b,
    ensures
        content_hash(a) == content_hash(b),
{
}

/// A content hash is 16 characters long, each a digit or a letter from `a`
/// to `f`.
pub proof fn lemma_content_hash_shape(bytes: Seq<u8>)
    ensures
        content_hash(bytes).len() == 16,
        forall|i: int|
            0 <= i < 16 ==> {
                let c = #[trigger] content_hash(bytes)[i];
                ('0' <= c <= '9') || ('a' <= c <= 'f')
            },
{
    let value = xxh3_64_digest(bytes);
    assert forall|i: int| 0 <= i < 16 implies {
        let c = #[trigger] content_hash(bytes)[i];
        ('0' <= c <= '9') || ('a' <= c <= 'f')
    } by {
        let shift = (4 * (15 - i)) as u64;
        let digit = nibble(value, i);
        assert(digit < 16) by (bit_vector)
            requires
                digit == (value >> shift) & 0xf,
        ;
    }
}

/// A path without the extension of its file name. A path that does not end
/// in a name is left as it is.
pub open spec fn without_extension(path: Seq<char>) -> Seq<char> {
    let cs = path_components(path);
    if cs.len() > 0 {
        match cs.last() {
            Component::Normal(name) => render(cs.drop_last().push(Component::Normal(file_stem(name)))),
            _ => path,
        }
    } else {
        path
    }
}

/// The identifier of a file whose front matter names none: its path below
/// the content root without the extension, with `/` for every `\`.
pub open spec fn default_identifier(relative_path: Seq<char>) -> Seq<char> {
    replace_char(without_extension(relative_path), '\\', '/')
}

/// The default identifier as a deployment may wish it: without the
/// extension, or the file name as it is kept. Discovery always takes the
/// first.
pub open spec fn default_identifier_with(relative_path: Seq<char>, strip_extensions: bool) -> Seq<
    char,
> {
    if strip_extensions {
        default_identifier(relative_path)
    } else {
        content_filename(relative_path)
    }
}

/// The default identifier of the file at `relative_path`.
pub fn generate_default_identifier(relative_path: &str) -> (r: String)
    ensures
        r@ == default_identifier(relative_path@),
{
    let mut parts = components(relative_path);
    let ghost cs = parts_view(parts@);
    let stripped: Vec<char> = if parts.len() > 0 {
        let last = parts.pop().unwrap();
        assert(last@ == cs.last());
        assert(parts_view(parts@) =~= cs.drop_last());
        match last {
            PathPart::Normal(name) => {
                let stem = stem_of(&name);
                let ghost before = parts@;
                parts.push(PathPart::Normal(stem));
                assert(parts_view(parts@) =~= cs.drop_last().push(
                    Component::Normal(file_stem(name@)),
                ));
                let text = render_parts(&parts, parts.len());
                assert(parts_view(parts@).take(parts.len() as int) =~= parts_view(parts@));
                text
            },
            _ => chars_of(relative_path),
        }
    } else {
        chars_of(relative_path)
    };
    assert(stripped@ == without_extension(relative_path@));
    let mut out = String::new();
    push_replaced(&mut out, &stripped, '\\', '/');
    assert(out@ =~= replace_char(stripped@, '\\', '/'));
    out
}

/// The default identifier of the file at `relative_path`, with or without
/// its extension.
pub fn generate_default_identifier_with(relative_path: &str, strip_extensions: bool) -> (r: String)
    ensures
        r@ == default_identifier_with(relative_path@, strip_extensions),
{
    if strip_extensions {
        generate_default_identifier(relative_path)
    } else {
        filename_of(relative_path)
    }
}

/// The path of `path` below `root`: the components that follow those of the
/// root; `None` where the path does not lie under the root.
pub open spec fn path_below(root: Seq<char>, path: Seq<char>) -> Option<Seq<char>> {
    if path_components(root).is_prefix_of(path_components(path)) {
        Some(render(path_components(path).skip(path_components(root).len() as int)))
    } else {
        None
    }
}

/// The path of `path` below `root`.
pub fn strip_root(root: &str, path: &str) -> (r: Option<String>)
    ensures
        option_view(r) == path_below(root@, path@),
{
    let root_parts = components(root);
    let mut path_parts = components(path);
    if !starts_with_parts(&path_parts, &root_parts) {
        return None;
    }
    let ghost cs = parts_view(path_parts@);
    let rest = path_parts.split_off(root_parts.len());
    assert(parts_view(rest@) =~= cs.skip(root_parts.len() as int));
    let text = render_parts(&rest, rest.len());
    assert(parts_view(rest@).take(rest.len() as int) =~= parts_view(rest@));
    Some(string_of(&text))
}

/// The name under which a file is kept: its path with `/` for every `\`.
pub open spec fn content_filename(relative_path: Seq<char>) -> Seq<char> {
    replace_char(relative_path, '\\', '/')
}

/// The name under which the file at `relative_path` is kept.
pub fn filename_of(relative_path: &str) -> (r: String)
    ensures
        r@ == content_filename(relative_path@),
{
    let chars = chars_of(relative_path);
    let mut out = String::new();
    push_replaced(&mut out, &chars, '\\', '/');
    assert(out@ =~= replace_char(chars@, '\\', '/'));
    out
}

} // verus!
