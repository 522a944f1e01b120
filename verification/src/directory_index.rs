//! The directory index: the ordered list of navigable image files of one
//! directory, together with position lookup and neighbour navigation.
//!
//! The index is built from a raw directory listing: file names are filtered to
//! recognized image extensions, joined with the directory path, and kept in
//! strictly increasing lexicographic order, so that the order is total,
//! deterministic, and stable across runs on the same listing.
use vstd::prelude::*;

use crate::paths::has_image_extension;
use crate::paths::is_image_name;
use crate::paths::join;
use crate::paths::join_path;
use crate::paths::lemma_lex_le_lt_trans;
use crate::paths::lemma_lex_le_total;
use crate::paths::lemma_lex_lt_le_trans;
use crate::paths::lex_lt;
use crate::paths::str_le;

verus! {

/// The character sequences of a sequence of strings.
pub open spec fn views(s: Seq<String>) -> Seq<Seq<char>> {
    s.map_values(|x: String| x@)
}

/// Every pair of entries is in strictly increasing lexicographic order;
/// in particular no entry occurs twice.
pub open spec fn strictly_sorted(s: Seq<Seq<char>>) -> bool {
    forall|i: int, j: int| 0 <= i < j < s.len() ==> lex_lt(s[i], s[j])
}

/// The following position, or none at the last entry: no wraparound.
pub open spec fn next_pos(len: int, pos: int) -> Option<int> {
    if pos + 1 < len {
        Some(pos + 1)
    } else {
        None
    }
}

/// The preceding position, or none at the first entry: no wraparound.
pub open spec fn prev_pos(len: int, pos: int) -> Option<int> {
    if 1 <= pos {
        Some(pos - 1)
    } else {
        None
    }
}

/// Stepping to a neighbour and back returns to the starting position, in both
/// directions; at the boundaries the step itself yields nothing.
pub proof fn lemma_next_previous_round_trip(len: int, pos: int)
    requires
        0 <= pos < len,
    ensures
        next_pos(len, pos) matches Some(q) ==> prev_pos(len, q) == Some(pos),
        prev_pos(len, pos) matches Some(q) ==> next_pos(len, q) == Some(pos),
{
}

/// Some position of `vs` holds `p`.
pub open spec fn has_pos(vs: Seq<Seq<char>>, p: Seq<char>) -> bool {
    exists|i: int| 0 <= i < vs.len() && vs[i] == p
}

/// The position of `vs` holding `p`; meaningful only under `has_pos`.
pub open spec fn pos_of(vs: Seq<Seq<char>>, p: Seq<char>) -> int {
    choose|i: int| 0 <= i < vs.len() && vs[i] == p
}

/// In a strictly sorted sequence a value occurs at most once.
pub proof fn lemma_position_unique(vs: Seq<Seq<char>>, a: int, b: int)
    requires
        strictly_sorted(vs),
        0 <= a < vs.len(),
        0 <= b < vs.len(),
        vs[a] == vs[b],
    ensures
        a == b,
{
    if a < b {
        assert(lex_lt(vs[a], vs[b]));
    }
    if b < a {
        assert(lex_lt(vs[b], vs[a]));
    }
}

/// For any file among a directory's entries, stepping to the next entry and
/// then to the previous one returns to that same file — unless the file is
/// the last entry, where the step itself yields nothing; symmetrically for
/// previous-then-next and the first entry.
pub proof fn lemma_neighbour_round_trip(ix: DirectoryIndex, f: Seq<char>)
    requires
        ix.wf(),
        has_pos(ix.entry_views(), f),
    ensures
        ({
            let vs = ix.entry_views();
            let pos = pos_of(vs, f);
            &&& vs[pos] == f
            &&& (next_pos(vs.len() as int, pos) matches Some(q) ==> prev_pos(vs.len() as int, q)
                == Some(pos))
            &&& (prev_pos(vs.len() as int, pos) matches Some(q) ==> next_pos(vs.len() as int, q)
                == Some(pos))
        }),
{
    let vs = ix.entry_views();
    let pos = pos_of(vs, f);
    assert(0 <= pos < vs.len() && vs[pos] == f);
    lemma_next_previous_round_trip(vs.len() as int, pos);
}

/// An ordered snapshot of the image files of one directory.
pub struct DirectoryIndex {
    /// The directory whose listing this index was built from.
    pub dir: String,
    /// The full paths of the directory's image files, strictly sorted.
    pub entries: Vec<String>,
}

/// Finds where `x` stands, or belongs, in a strictly sorted vector: either
/// the position already holding it, or the position to insert it at.
fn find_insert_pos(v: &Vec<String>, x: &String) -> (r: (usize, bool))
    requires
        strictly_sorted(views(v@)),
    ensures
        r.1 ==> r.0 < v@.len() && views(v@)[r.0 as int] == x@,
        !r.1 ==> r.0 <= v@.len() && (forall|k: int| 0 <= k < r.0 ==> lex_lt(views(v@)[k], x@)) && (
        r.0 < v@.len() ==> lex_lt(x@, views(v@)[r.0 as int])),
{
    let mut j: usize = 0;
    while j < v.len()
        invariant
            j <= v@.len(),
            forall|k: int| 0 <= k < j ==> lex_lt(views(v@)[k], x@),
        decreases v@.len() - j,
    {
        if *x == v[j] {
            return (j, true);
        }
        if str_le(x.as_str(), v[j].as_str()) {
            assert(lex_lt(x@, views(v@)[j as int]));
            return (j, false);
        }
        proof {
            lemma_lex_le_total(x@, v@[j as int]@);
        }
        j = j + 1;
    }
    (j, false)
}

/// Inserts `x` into a strictly sorted vector, keeping it strictly sorted;
/// a value already present is left alone.
fn insert_sorted(v: &mut Vec<String>, x: String)
    requires
        strictly_sorted(views(old(v)@)),
    ensures
        strictly_sorted(views(final(v)@)),
        forall|w: Seq<char>|
            #[trigger] views(final(v)@).contains(w) <==> (views(old(v)@).contains(w) || w == x@),
{
    let (j, found) = find_insert_pos(v, &x);
    if found {
        proof {
            assert(views(v@)[j as int] == x@);
            assert(views(v@).contains(x@));
        }
        return;
    }
    proof {
        v@.insert_ensures(j as int, x);
    }
    let ghost oldv = v@;
    v.insert(j, x);
    proof {
        let nv = views(v@);
        let ov = views(oldv);
        assert(nv.len() == ov.len() + 1);
        assert(forall|k: int| 0 <= k < j ==> nv[k] == ov[k]);
        assert(forall|k: int| j <= k < ov.len() ==> nv[k + 1] == ov[k]);
        assert(nv[j as int] == x@);
        assert forall|i1: int, i2: int| 0 <= i1 < i2 < nv.len() implies lex_lt(nv[i1], nv[i2]) by {
            if i2 == j {
                assert(lex_lt(ov[i1], x@));
            } else if i1 == j {
                assert(nv[i2] == ov[i2 - 1]);
                assert(lex_lt(x@, ov[j as int]));
                if i2 - 1 > j {
                    assert(lex_lt(ov[j as int], ov[i2 - 1]));
                    lemma_lex_lt_le_trans(x@, ov[j as int], ov[i2 - 1]);
                }
            } else if i1 < j && i2 > j {
                assert(nv[i2] == ov[i2 - 1]);
                assert(lex_lt(ov[i1], x@));
                assert(lex_lt(x@, ov[j as int]));
                if i2 - 1 > j {
                    assert(lex_lt(ov[j as int], ov[i2 - 1]));
                    lemma_lex_lt_le_trans(x@, ov[j as int], ov[i2 - 1]);
                }
                lemma_lex_le_lt_trans(ov[i1], x@, ov[i2 - 1]);
            } else if i2 < j {
                assert(lex_lt(ov[i1], ov[i2]));
            } else {
                assert(nv[i1] == ov[i1 - 1]);
                assert(nv[i2] == ov[i2 - 1]);
                assert(lex_lt(ov[i1 - 1], ov[i2 - 1]));
            }
        }
        assert forall|w: Seq<char>| #[trigger] nv.contains(w) implies (ov.contains(w) || w == x@) by {
            let k = choose|k: int| 0 <= k < nv.len() && nv[k] == w;
            if k < j {
                assert(ov[k] == w);
            } else if k > j {
                assert(ov[k - 1] == w);
            }
        }
        assert forall|w: Seq<char>| ov.contains(w) || w == x@ implies #[trigger] nv.contains(w) by {
            if ov.contains(w) {
                let k = choose|k: int| 0 <= k < ov.len() && ov[k] == w;
                if k < j {
                    assert(nv[k] == w);
                } else {
                    assert(nv[k + 1] == w);
                }
            } else {
                assert(nv[j as int] == w);
            }
        }
    }
}

impl DirectoryIndex {
    /// The entries as character sequences, in index order.
    pub open spec fn entry_views(&self) -> Seq<Seq<char>> {
        views(self.entries@)
    }

    /// The entries are strictly sorted.
    pub open spec fn wf(&self) -> bool {
        strictly_sorted(self.entry_views())
    }

    /// `self` is exactly what `build(dir, names)` is specified to return: the
    /// index of `dir` holding, in strictly increasing lexicographic order,
    /// one entry `join(dir, n)` for each distinct listed name `n` with a
    /// recognized image extension, and nothing else.
    pub open spec fn built_from(&self, dir: Seq<char>, names: Seq<Seq<char>>) -> bool {
        &&& self.dir@ == dir
        &&& self.wf()
        &&& forall|j: int|
            0 <= j < names.len() && is_image_name(names[j]) ==> self.entry_views().contains(
                join(dir, names[j]),
            )
        &&& forall|w: Seq<char>|
            #[trigger] self.entry_views().contains(w) ==> exists|j: int|
                0 <= j < names.len() && is_image_name(names[j]) && w == join(dir, names[j])
    }

    /// Builds the index of `dir` from a raw listing of the file names in it:
    /// exactly the names with a recognized image extension are kept, joined
    /// with `dir`, in strictly increasing lexicographic order.
    pub fn build(dir: String, names: Vec<String>) -> (ix: DirectoryIndex)
        ensures
            ix.built_from(dir@, views(names@)),
    {
        let mut entries: Vec<String> = Vec::new();
        let mut i: usize = 0;
        proof {
            assert(views(entries@) =~= Seq::<Seq<char>>::empty());
        }
        while i < names.len()
            invariant
                i <= names@.len(),
                strictly_sorted(views(entries@)),
                forall|j: int|
                    0 <= j < i && is_image_name(names@[j]@) ==> views(entries@).contains(
                        join(dir@, names@[j]@),
                    ),
                forall|w: Seq<char>|
                    #[trigger] views(entries@).contains(w) ==> exists|j: int|
                        0 <= j < i && is_image_name(names@[j]@) && w == join(dir@, names@[j]@),
            decreases names@.len() - i,
        {
            if has_image_extension(names[i].as_str()) {
                let p = join_path(&dir, &names[i]);
                insert_sorted(&mut entries, p);
            }
            i = i + 1;
        }
        proof {
            assert forall|j: int|
                0 <= j < views(names@).len() && is_image_name(
                    views(names@)[j],
                ) implies views(entries@).contains(join(dir@, views(names@)[j])) by {
                assert(views(names@)[j] == names@[j]@);
            }
            assert forall|w: Seq<char>| #[trigger] views(entries@).contains(w) implies exists|
                j: int,
            |
                0 <= j < views(names@).len() && is_image_name(views(names@)[j]) && w == join(
                    dir@,
                    views(names@)[j],
                ) by {
                let j = choose|j: int|
                    0 <= j < names@.len() && is_image_name(names@[j]@) && w == join(
                        dir@,
                        names@[j]@,
                    );
                assert(views(names@)[j] == names@[j]@);
            }
        }
        DirectoryIndex { dir, entries }
    }

    /// The position of `p` among the entries, or none when `p` is not one.
    pub fn position_of(&self, p: &String) -> (r: Option<usize>)
        ensures
            match r {
                Some(i) => i < self.entry_views().len() && self.entry_views()[i as int] == p@,
                None => forall|k: int|
                    0 <= k < self.entry_views().len() ==> self.entry_views()[k] != p@,
            },
    {
        let mut k: usize = 0;
        while k < self.entries.len()
            invariant
                k <= self.entries@.len(),
                forall|m: int| 0 <= m < k ==> views(self.entries@)[m] != p@,
            decreases self.entries@.len() - k,
        {
            proof {
                assert(views(self.entries@)[k as int] == self.entries@[k as int]@);
            }
            if self.entries[k] == *p {
                return Some(k);
            }
            k = k + 1;
        }
        None
    }

    /// The entry at `pos`, cloned.
    pub fn entry_at(&self, pos: usize) -> (r: String)
        requires
            pos < self.entry_views().len(),
        ensures
            r@ == self.entry_views()[pos as int],
    {
        self.entries[pos].clone()
    }

    /// The number of entries.
    pub fn len(&self) -> (r: usize)
        ensures
            r == self.entry_views().len(),
    {
        self.entries.len()
    }

    /// The position after `pos`, or none at the last entry.
    pub fn next(&self, pos: usize) -> (r: Option<usize>)
        requires
            pos < self.entry_views().len(),
        ensures
            match r {
                Some(q) => next_pos(self.entry_views().len() as int, pos as int) == Some(q as int),
                None => next_pos(self.entry_views().len() as int, pos as int) is None,
            },
    {
        let n = self.entries.len();
        if pos + 1 < n {
            Some(pos + 1)
        } else {
            None
        }
    }

    /// The position before `pos`, or none at the first entry.
    pub fn previous(&self, pos: usize) -> (r: Option<usize>)
        requires
            pos < self.entry_views().len(),
        ensures
            match r {
                Some(q) => prev_pos(self.entry_views().len() as int, pos as int) == Some(q as int),
                None => prev_pos(self.entry_views().len() as int, pos as int) is None,
            },
    {
        if pos >= 1 {
            Some(pos - 1)
        } else {
            None
        }
    }
}

} // verus!
