//! File-name extensions, taken from the raw bytes of a file name.
//!
//! The extension of a name is what follows its last `.`, unless that dot is
//! the name's first byte (`.bashrc` has none), the name holds no dot at all,
//! or the name is `..`.
use vstd::prelude::*;

verus! {

/// The byte `.`.
pub const DOT: u8 = 0x2e;

/// Index of the last `.` in `name`, or -1 where there is none.
pub open spec fn last_dot(name: Seq<u8>) -> int
    decreases name.len(),
{
    if name.len() == 0 {
        -1
    } else if name.last() == DOT {
        name.len() - 1
    } else {
        last_dot(name.drop_last())
    }
}

/// The extension of a file name, without its dot.
pub open spec fn extension_of(name: Seq<u8>) -> Option<Seq<u8>> {
    let i = last_dot(name);
    if name == seq![DOT, DOT] || i <= 0 {
        None
    } else {
        Some(name.subrange(i + 1, name.len() as int))
    }
}

/// `md`, in bytes.
pub open spec fn md_bytes() -> Seq<u8> {
    seq![0x6du8, 0x64u8]
}

/// `markdown`, in bytes.
pub open spec fn markdown_bytes() -> Seq<u8> {
    seq![0x6du8, 0x61u8, 0x72u8, 0x6bu8, 0x64u8, 0x6fu8, 0x77u8, 0x6eu8]
}

/// An extension marks a markdown file when it is exactly `md` or `markdown`.
/// Case counts: `MD` is not one.
pub open spec fn is_markdown_extension_spec(ext: Seq<u8>) -> bool {
    ext == md_bytes() || ext == markdown_bytes()
}

/// A file name is a markdown file's when it has an extension and that
/// extension marks a markdown file.
pub open spec fn is_markdown_name(name: Seq<u8>) -> bool {
    match extension_of(name) {
        Some(ext) => is_markdown_extension_spec(ext),
        None => false,
    }
}

proof fn lemma_last_dot_bounds(name: Seq<u8>)
    ensures
        -1 <= last_dot(name) < name.len(),
        last_dot(name) >= 0 ==> name[last_dot(name)] == DOT,
        forall|k: int| last_dot(name) < k < name.len() ==> name[k] != DOT,
    decreases name.len(),
{
    if name.len() > 0 && name.last() != DOT {
        let rest = name.drop_last();
        lemma_last_dot_bounds(rest);
        assert forall|k: int| last_dot(name) < k < name.len() implies name[k] != DOT by {
            if k < rest.len() {
                assert(rest[k] == name[k]);
            }
        }
    }
}

/// Index of the last `.` in `name`, if any.
fn find_last_dot(name: &[u8]) -> (r: Option<usize>)
    ensures
        match r {
            Some(i) => i == last_dot(name@),
            None => last_dot(name@) == -1,
        },
{
    let mut i: usize = name.len();
    assert(name@.subrange(0, i as int) =~= name@);
    while i > 0
        invariant
            i <= name@.len(),
            last_dot(name@) == last_dot(name@.subrange(0, i as int)),
        decreases i,
    {
        if name[i - 1] == DOT {
            return Some(i - 1);
        }
        assert(name@.subrange(0, i as int).drop_last() =~= name@.subrange(0, i - 1));
        i = i - 1;
    }
    None
}

/// Whether `a` and `b` hold the same bytes.
fn bytes_equal(a: &[u8], b: &[u8]) -> (r: bool)
    ensures
        r == (a@ == b@),
{
    if a.len() != b.len() {
        return false;
    }
    let mut i: usize = 0;
    while i < a.len()
        invariant
            a@.len() == b@.len(),
            i <= a@.len(),
            forall|k: int| 0 <= k < i ==> a@[k] == b@[k],
        decreases a@.len() - i,
    {
        if a[i] != b[i] {
            return false;
        }
        i = i + 1;
    }
    assert(a@ =~= b@);
    true
}

/// The extension of the file name `name`, without its dot.
pub fn file_extension(name: &[u8]) -> (r: Option<Vec<u8>>)
    ensures
        r.deep_view() == extension_of(name@),
{
    proof {
        lemma_last_dot_bounds(name@);
    }
    let is_dot_dot = name.len() == 2 && name[0] == DOT && name[1] == DOT;
    assert(is_dot_dot <==> name@ == seq![DOT, DOT]) by {
        if name@ == seq![DOT, DOT] {
            assert(name@[0] == DOT && name@[1] == DOT);
        }
        if is_dot_dot {
            assert(name@ =~= seq![DOT, DOT]);
        }
    }
    if is_dot_dot {
        return None;
    }
    match find_last_dot(name) {
        None => None,
        Some(0) => None,
        Some(d) => {
            let mut ext: Vec<u8> = Vec::new();
            let mut i: usize = d + 1;
            while i < name.len()
                invariant
                    d < name@.len(),
                    d + 1 <= i <= name@.len(),
                    ext@ =~= name@.subrange(d + 1, i as int),
                decreases name@.len() - i,
            {
                ext.push(name[i]);
                i = i + 1;
            }
            assert(ext.deep_view() =~= ext@);
            Some(ext)
        },
    }
}

/// Whether `ext` is exactly `md` or `markdown`.
pub fn is_markdown_extension(ext: &[u8]) -> (r: bool)
    ensures
        r == is_markdown_extension_spec(ext@),
{
    let md: [u8; 2] = [0x6d, 0x64];
    let markdown: [u8; 8] = [0x6d, 0x61, 0x72, 0x6b, 0x64, 0x6f, 0x77, 0x6e];
    assert(md@ =~= md_bytes());
    assert(markdown@ =~= markdown_bytes());
    bytes_equal(ext, md.as_slice()) || bytes_equal(ext, markdown.as_slice())
}

/// Whether the file name `name` is a markdown file's.
pub fn is_markdown_file_name(name: &[u8]) -> (r: bool)
    ensures
        r == is_markdown_name(name@),
{
    match file_extension(name) {
        Some(ext) => {
            assert(ext.deep_view() =~= ext@);
            is_markdown_extension(ext.as_slice())
        },
        None => false,
    }
}

} // verus!
