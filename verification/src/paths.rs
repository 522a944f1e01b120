//! Path strings and their ordering.
//!
//! Directory entries are ordered by code-point-wise lexicographic comparison
//! of their paths, so that navigation is deterministic and stable across runs.
//! Paths are plain strings; a file path is one that contains a separator and
//! does not end with one.
use vstd::prelude::*;

verus! {

/// Code-point-wise lexicographic "less than or equal" on character sequences.
pub open spec fn lex_le(a: Seq<char>, b: Seq<char>) -> bool
    decreases a.len(),
{
    if a.len() == 0 {
        true
    } else if b.len() == 0 {
        false
    } else if a[0] == b[0] {
        lex_le(a.skip(1), b.skip(1))
    } else {
        (a[0] as u32) < (b[0] as u32)
    }
}

/// Strict lexicographic order.
pub open spec fn lex_lt(a: Seq<char>, b: Seq<char>) -> bool {
    lex_le(a, b) && a != b
}

/// Lexicographic order is total.
pub proof fn lemma_lex_le_total(a: Seq<char>, b: Seq<char>)
    ensures
        lex_le(a, b) || lex_le(b, a),
    decreases a.len(),
{
    if a.len() == 0 || b.len() == 0 {
    } else if a[0] == b[0] {
        lemma_lex_le_total(a.skip(1), b.skip(1));
    } else {
        vstd::utf8::char_u32_cast(a[0], a[0] as u32);
        vstd::utf8::char_u32_cast(b[0], b[0] as u32);
        assert((a[0] as u32) != (b[0] as u32));
    }
}

/// Lexicographic order is antisymmetric.
pub proof fn lemma_lex_le_antisym(a: Seq<char>, b: Seq<char>)
    requires
        lex_le(a, b),
        lex_le(b, a),
    ensures
        a == b,
    decreases a.len(),
{
    if a.len() == 0 {
        assert(b.len() == 0);
        assert(a =~= b);
    } else {
        assert(b.len() > 0);
        assert(a[0] == b[0]);
        lemma_lex_le_antisym(a.skip(1), b.skip(1));
        assert(a.len() == b.len());
        assert forall|k: int| 0 <= k < a.len() implies a[k] == b[k] by {
            if k > 0 {
                assert(a.skip(1)[k - 1] == a[k]);
                assert(b.skip(1)[k - 1] == b[k]);
            }
        }
        assert(a =~= b);
    }
}

/// Lexicographic order is transitive.
pub proof fn lemma_lex_le_trans(a: Seq<char>, b: Seq<char>, c: Seq<char>)
    requires
        lex_le(a, b),
        lex_le(b, c),
    ensures
        lex_le(a, c),
    decreases a.len(),
{
    if a.len() == 0 {
    } else {
        assert(b.len() > 0);
        assert(c.len() > 0);
        if a[0] == b[0] && b[0] == c[0] {
            lemma_lex_le_trans(a.skip(1), b.skip(1), c.skip(1));
        }
    }
}

/// Strict order below a non-strict one composes to a strict one.
pub proof fn lemma_lex_lt_le_trans(a: Seq<char>, b: Seq<char>, c: Seq<char>)
    requires
        lex_lt(a, b),
        lex_le(b, c),
    ensures
        lex_lt(a, c),
{
    lemma_lex_le_trans(a, b, c);
    if a == c {
        lemma_lex_le_antisym(a, b);
    }
}

/// A non-strict step followed by a strict one composes to a strict one.
pub proof fn lemma_lex_le_lt_trans(a: Seq<char>, b: Seq<char>, c: Seq<char>)
    requires
        lex_le(a, b),
        lex_lt(b, c),
    ensures
        lex_lt(a, c),
{
    lemma_lex_le_trans(a, b, c);
    if a == c {
        lemma_lex_le_antisym(b, c);
    }
}

/// Decides `lex_le` on two strings, one character at a time.
pub fn str_le(a: &str, b: &str) -> (r: bool)
    ensures
        r == lex_le(a@, b@),
{
    let alen: usize = a.unicode_len();
    let blen: usize = b.unicode_len();
    let mut i: usize = 0;
    proof {
        assert(a@.skip(0) =~= a@);
        assert(b@.skip(0) =~= b@);
    }
    loop
        invariant
            i <= alen,
            i <= blen,
            alen == a@.len(),
            blen == b@.len(),
            lex_le(a@, b@) == lex_le(a@.skip(i as int), b@.skip(i as int)),
        decreases alen - i,
    {
        if i == alen {
            assert(a@.skip(i as int).len() == 0);
            return true;
        }
        if i == blen {
            assert(b@.skip(i as int).len() == 0);
            assert(a@.skip(i as int).len() > 0);
            return false;
        }
        let ca = a.get_char(i);
        let cb = b.get_char(i);
        assert(a@.skip(i as int)[0] == a@[i as int]);
        assert(b@.skip(i as int)[0] == b@[i as int]);
        if ca != cb {
            return (ca as u32) < (cb as u32);
        }
        proof {
            assert(a@.skip(i as int).skip(1) =~= a@.skip(i + 1));
            assert(b@.skip(i as int).skip(1) =~= b@.skip(i + 1));
        }
        i = i + 1;
    }
}

/// The code point of `c` with an ASCII upper-case letter folded to lower case.
pub open spec fn lower_u32(c: char) -> u32 {
    if 65 <= (c as u32) && (c as u32) <= 90 {
        ((c as u32) + 32) as u32
    } else {
        c as u32
    }
}

/// Computes `lower_u32`.
pub fn lower_code(c: char) -> (r: u32)
    ensures
        r == lower_u32(c),
{
    let u = c as u32;
    if 65 <= u && u <= 90 {
        u + 32
    } else {
        u
    }
}

/// `name` ends with `suffix`, ASCII-case-insensitively.
pub open spec fn suffix_ci(name: Seq<char>, suffix: Seq<char>) -> bool {
    name.len() >= suffix.len() && forall|k: int|
        0 <= k < suffix.len() ==> lower_u32(name[name.len() - suffix.len() + k]) == lower_u32(
            suffix[k],
        )
}

/// Decides `suffix_ci`.
pub fn ends_with_ci(name: &str, suffix: &str) -> (r: bool)
    ensures
        r == suffix_ci(name@, suffix@),
{
    let nlen: usize = name.unicode_len();
    let slen: usize = suffix.unicode_len();
    if nlen < slen {
        return false;
    }
    let base: usize = nlen - slen;
    let mut k: usize = 0;
    while k < slen
        invariant
            0 <= k <= slen,
            base == nlen - slen,
            nlen == name@.len(),
            slen == suffix@.len(),
            forall|j: int|
                0 <= j < k ==> lower_u32(name@[base + j]) == lower_u32(suffix@[j]),
        decreases slen - k,
    {
        let cn = name.get_char(base + k);
        let cs = suffix.get_char(k);
        if lower_code(cn) != lower_code(cs) {
            return false;
        }
        k = k + 1;
    }
    true
}

/// The file name has an extension this viewer recognizes as an image.
pub open spec fn is_image_name(name: Seq<char>) -> bool {
    ||| suffix_ci(name, ".jpg"@)
    ||| suffix_ci(name, ".jpeg"@)
    ||| suffix_ci(name, ".png"@)
    ||| suffix_ci(name, ".gif"@)
    ||| suffix_ci(name, ".bmp"@)
    ||| suffix_ci(name, ".ico"@)
    ||| suffix_ci(name, ".tif"@)
    ||| suffix_ci(name, ".tiff"@)
    ||| suffix_ci(name, ".webp"@)
    ||| suffix_ci(name, ".tga"@)
}

/// Decides `is_image_name`.
pub fn has_image_extension(name: &str) -> (r: bool)
    ensures
        r == is_image_name(name@),
{
    ||| ends_with_ci(name, ".jpg")
    ||| ends_with_ci(name, ".jpeg")
    ||| ends_with_ci(name, ".png")
    ||| ends_with_ci(name, ".gif")
    ||| ends_with_ci(name, ".bmp")
    ||| ends_with_ci(name, ".ico")
    ||| ends_with_ci(name, ".tif")
    ||| ends_with_ci(name, ".tiff")
    ||| ends_with_ci(name, ".webp")
    ||| ends_with_ci(name, ".tga")
}

/// The position of the last separator in `p`, or `-1` when there is none.
pub open spec fn last_slash(p: Seq<char>) -> int
    decreases p.len(),
{
    if p.len() == 0 {
        -1
    } else if p[p.len() - 1] == '/' {
        p.len() - 1
    } else {
        last_slash(p.take(p.len() - 1))
    }
}

/// What `last_slash` returns: the greatest separator position, if any.
pub proof fn lemma_last_slash(p: Seq<char>)
    ensures
        -1 <= last_slash(p) < p.len(),
        last_slash(p) >= 0 ==> p[last_slash(p)] == '/',
        forall|k: int| last_slash(p) < k < p.len() ==> p[k] != '/',
    decreases p.len(),
{
    if p.len() == 0 {
    } else if p[p.len() - 1] == '/' {
    } else {
        lemma_last_slash(p.take(p.len() - 1));
        assert forall|k: int| last_slash(p) < k < p.len() implies p[k] != '/' by {
            if k < p.len() - 1 {
                assert(p.take(p.len() - 1)[k] == p[k]);
            }
        }
    }
}

/// A path that names a file: it contains a separator and does not end in one.
pub open spec fn is_file_path(p: Seq<char>) -> bool {
    0 <= last_slash(p) < p.len() - 1
}

/// The directory part of a file path: everything before the last separator,
/// or the root directory when the last separator is the first character.
pub open spec fn dir_of(p: Seq<char>) -> Seq<char> {
    if last_slash(p) == 0 {
        seq!['/']
    } else {
        p.take(last_slash(p))
    }
}

/// A directory path joined with a bare file name.
pub open spec fn join(dir: Seq<char>, name: Seq<char>) -> Seq<char> {
    if dir.len() > 0 && dir[dir.len() - 1] == '/' {
        dir + name
    } else {
        dir + seq!['/'] + name
    }
}

/// Finds the last separator of `p`, as `last_slash` describes it.
pub fn find_last_slash(p: &str) -> (r: Option<usize>)
    ensures
        match r {
            Some(i) => i == last_slash(p@),
            None => last_slash(p@) == -1,
        },
{
    proof {
        lemma_last_slash(p@);
    }
    let len: usize = p.unicode_len();
    let mut i: usize = len;
    while i > 0
        invariant
            0 <= i <= len,
            len == p@.len(),
            forall|k: int| i <= k < len ==> p@[k] != '/',
            -1 <= last_slash(p@) < p@.len(),
            last_slash(p@) >= 0 ==> p@[last_slash(p@)] == '/',
            forall|k: int| last_slash(p@) < k < p@.len() ==> p@[k] != '/',
        decreases i,
    {
        i = i - 1;
        if p.get_char(i) == '/' {
            assert(last_slash(p@) == i);
            return Some(i);
        }
    }
    assert(last_slash(p@) == -1);
    None
}

/// Decides `is_file_path`.
pub fn check_file_path(p: &String) -> (r: bool)
    ensures
        r == is_file_path(p@),
{
    let len: usize = p.as_str().unicode_len();
    match find_last_slash(p.as_str()) {
        Some(i) => i < len - 1,
        None => false,
    }
}

/// The directory part of a file path, as `dir_of` describes it.
pub fn parent_dir(p: &String) -> (d: String)
    requires
        is_file_path(p@),
    ensures
        d@ == dir_of(p@),
{
    let i = match find_last_slash(p.as_str()) {
        Some(i) => i,
        None => 0,
    };
    if i == 0 {
        let root = String::from_str("/");
        proof {
            reveal_strlit("/");
            assert(root@ =~= seq!['/']);
        }
        root
    } else {
        let d = p.as_str().substring_char(0, i);
        String::from_str(d)
    }
}

/// Joins a directory path and a file name, as `join` describes it.
pub fn join_path(dir: &String, name: &String) -> (r: String)
    ensures
        r@ == join(dir@, name@),
{
    let dlen: usize = dir.as_str().unicode_len();
    let mut r = dir.clone();
    if dlen == 0 || dir.as_str().get_char(dlen - 1) != '/' {
        r.append("/");
        proof {
            reveal_strlit("/");
            assert(r@ =~= dir@ + seq!['/']);
        }
    }
    r.append(name.as_str());
    proof {
        if dir@.len() > 0 && dir@[dir@.len() - 1] == '/' {
            assert(r@ =~= dir@ + name@);
        } else {
            assert(r@ =~= dir@ + seq!['/'] + name@);
        }
    }
    r
}

} // verus!
