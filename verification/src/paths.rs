//! Path handling on plain text: file names, extensions, directory
//! prefixes and joining. Paths are understood as `/`-separated, as the
//! store writes them.

use vstd::prelude::*;
use vstd::string::*;
use crate::text::{last_ix_of, lemma_last_ix_of, find_last, str_concat, push_char};

verus! {

/// The last path component: what follows the final `/`, or all of `p`
/// when `p` has none.
pub open spec fn file_name_spec(p: Seq<char>) -> Seq<char> {
    p.subrange(last_ix_of(p, '/') + 1, p.len() as int)
}

/// The directory prefix: everything up to and including the final `/`,
/// empty when `p` has none.
pub open spec fn dir_prefix_spec(p: Seq<char>) -> Seq<char> {
    p.subrange(0, last_ix_of(p, '/') + 1)
}

/// Extracts the last path component.
pub fn file_name_of(path: &str) -> (r: String)
    ensures
        r@ == file_name_spec(path@),
{
    proof {
        lemma_last_ix_of(path@, '/');
    }
    let n = path.unicode_len();
    match find_last(path, '/') {
        Some(i) => path.substring_char(i + 1, n).to_owned(),
        None => path.to_owned(),
    }
}

/// Replaces the last path component of `path` with `name`.
pub fn with_file_name(path: &str, name: &str) -> (r: String)
    ensures
        r@ == dir_prefix_spec(path@) + name@,
{
    proof {
        lemma_last_ix_of(path@, '/');
    }
    let n = path.unicode_len();
    match find_last(path, '/') {
        Some(i) => {
            let prefix = path.substring_char(0, i + 1);
            str_concat(prefix, name)
        },
        None => {
            assert(dir_prefix_spec(path@) =~= Seq::<char>::empty());
            assert(dir_prefix_spec(path@) + name@ =~= name@);
            name.to_owned()
        },
    }
}

/// The extension of a file name: what follows the final dot, provided
/// the dot is neither absent nor the leading character.
pub open spec fn extension_spec(name: Seq<char>) -> Option<Seq<char>> {
    let d = last_ix_of(name, '.');
    if d <= 0 {
        Option::None
    } else {
        Option::Some(name.subrange(d + 1, name.len() as int))
    }
}

/// The extension of the last component of a path.
pub open spec fn path_extension_spec(p: Seq<char>) -> Option<Seq<char>> {
    extension_spec(file_name_spec(p))
}

/// Extracts the extension of a bare file name.
pub fn extension_of_name(name: &str) -> (r: Option<String>)
    ensures
        r is None ==> extension_spec(name@) is None,
        r matches Some(e) ==> extension_spec(name@) matches Some(s) && e@ == s,
{
    proof {
        lemma_last_ix_of(name@, '.');
    }
    let n = name.unicode_len();
    match find_last(name, '.') {
        Some(d) => {
            if d == 0 {
                None
            } else {
                Some(name.substring_char(d + 1, n).to_owned())
            }
        },
        None => None,
    }
}

/// Extracts the extension of the last component of a path.
pub fn extension_of_path(path: &str) -> (r: Option<String>)
    ensures
        r is None ==> path_extension_spec(path@) is None,
        r matches Some(e) ==> path_extension_spec(path@) matches Some(s) && e@ == s,
{
    let name = file_name_of(path);
    extension_of_name(name.as_str())
}

/// Joins a directory and a relative path with a single separator.
pub fn join_path(base: &str, rel: &str) -> (r: String)
    ensures
        r@ == base@.push('/') + rel@,
{
    let mut s = base.to_owned();
    push_char(&mut s, '/');
    s.append(rel);
    s
}

/// The path is written from the filesystem root.
pub open spec fn is_absolute_spec(p: Seq<char>) -> bool {
    p.len() > 0 && p[0] == '/'
}

/// Whether a path is absolute.
pub fn is_absolute(path: &str) -> (b: bool)
    ensures
        b == is_absolute_spec(path@),
{
    if path.unicode_len() == 0 {
        false
    } else {
        path.get_char(0) == '/'
    }
}

/// The numeric value a character takes when ASCII letters are folded to
/// lower case.
pub open spec fn fold_ascii(c: char) -> int {
    if 65 <= c as int <= 90 {
        c as int + 32
    } else {
        c as int
    }
}

/// The two texts agree once ASCII letters are folded to lower case.
pub open spec fn eq_ignore_ascii(a: Seq<char>, b: Seq<char>) -> bool {
    a.len() == b.len() && forall|i: int|
        0 <= i < a.len() ==> fold_ascii(a[i]) == fold_ascii(#[trigger] b[i])
}

/// Compares two texts, folding ASCII letters to lower case.
pub fn eq_ignore_case(a: &str, b: &str) -> (r: bool)
    ensures
        r == eq_ignore_ascii(a@, b@),
{
    let an = a.unicode_len();
    let bn = b.unicode_len();
    if an != bn {
        return false;
    }
    let mut i: usize = 0;
    while i < an
        invariant
            an == a@.len(),
            an == b@.len(),
            0 <= i <= an,
            forall|t: int| 0 <= t < i ==> fold_ascii(a@[t]) == fold_ascii(#[trigger] b@[t]),
        decreases an - i,
    {
        let ca = a.get_char(i) as u32;
        let cb = b.get_char(i) as u32;
        let fa = if 65 <= ca && ca <= 90 {
            ca + 32
        } else {
            ca
        };
        let fb = if 65 <= cb && cb <= 90 {
            cb + 32
        } else {
            cb
        };
        if fa != fb {
            assert(fold_ascii(a@[i as int]) != fold_ascii(b@[i as int]));
            return false;
        }
        i = i + 1;
    }
    true
}

/// The accepted image extensions, compared without regard to ASCII case.
pub open spec fn accepted_image_ext(e: Seq<char>) -> bool {
    eq_ignore_ascii(e, "jpg"@) || eq_ignore_ascii(e, "jpeg"@) || eq_ignore_ascii(e, "png"@)
        || eq_ignore_ascii(e, "webp"@)
}

/// Whether an extension names an accepted image format.
pub fn is_accepted_image_ext(e: &str) -> (b: bool)
    ensures
        b == accepted_image_ext(e@),
{
    eq_ignore_case(e, "jpg") || eq_ignore_case(e, "jpeg") || eq_ignore_case(e, "png")
        || eq_ignore_case(e, "webp")
}

} // verus!
