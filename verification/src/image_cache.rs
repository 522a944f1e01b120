//! The image cache: decoded images keyed by path, bounded capacity, strict
//! least-recently-used eviction.
//!
//! Entries stand in recency order: the front of the vector is the least
//! recently used entry, the back the most recently used one. A hit moves the
//! entry to the back; an insert at capacity evicts the front. Handles are
//! reference counted, so evicting the cache's copy never invalidates a handle
//! that a caller still holds.
use std::rc::Rc;

use vstd::prelude::*;

use crate::ImageData;
use crate::ImgView;
use crate::LoadError;

verus! {

/// One cached image, keyed by the path it was decoded from.
pub struct CacheEntry {
    pub path: String,
    pub image: Rc<ImageData>,
}

/// No two entries share a path.
pub open spec fn distinct_keys(s: Seq<CacheEntry>) -> bool {
    forall|i: int, j: int| 0 <= i < j < s.len() ==> s[i].path@ != s[j].path@
}

/// Some entry is keyed by `p`.
pub open spec fn contains_path(s: Seq<CacheEntry>, p: Seq<char>) -> bool {
    exists|i: int| 0 <= i < s.len() && s[i].path@ == p
}

/// The first position keyed by `p`, or `-1` when there is none.
pub open spec fn find(s: Seq<CacheEntry>, p: Seq<char>) -> int
    decreases s.len(),
{
    if s.len() == 0 {
        -1
    } else if s[0].path@ == p {
        0
    } else {
        let r = find(s.drop_first(), p);
        if r == -1 {
            -1
        } else {
            r + 1
        }
    }
}

/// What `find` returns: the first position keyed by `p`, if any.
pub proof fn lemma_find(s: Seq<CacheEntry>, p: Seq<char>)
    ensures
        -1 <= find(s, p) < s.len(),
        find(s, p) >= 0 ==> s[find(s, p)].path@ == p,
        find(s, p) >= 0 ==> forall|k: int| 0 <= k < find(s, p) ==> s[k].path@ != p,
        find(s, p) == -1 ==> forall|k: int| 0 <= k < s.len() ==> s[k].path@ != p,
        find(s, p) >= 0 ==> contains_path(s, p),
        contains_path(s, p) ==> find(s, p) >= 0,
    decreases s.len(),
{
    if s.len() == 0 {
    } else if s[0].path@ == p {
    } else {
        lemma_find(s.drop_first(), p);
        assert(forall|k: int| 0 <= k < s.drop_first().len() ==> s.drop_first()[k] == s[k + 1]);
        if find(s.drop_first(), p) >= 0 {
            let r = find(s.drop_first(), p);
            assert forall|k: int| 0 <= k < r + 1 implies s[k].path@ != p by {
                if k > 0 {
                    assert(s.drop_first()[k - 1] == s[k]);
                }
            }
        }
        if find(s.drop_first(), p) == -1 {
            assert forall|k: int| 0 <= k < s.len() implies s[k].path@ != p by {
                if k > 0 {
                    assert(s.drop_first()[k - 1] == s[k]);
                }
            }
        }
        if contains_path(s, p) {
            let i = choose|i: int| 0 <= i < s.len() && s[i].path@ == p;
            assert(i > 0);
            assert(s.drop_first()[i - 1] == s[i]);
            assert(contains_path(s.drop_first(), p));
        }
    }
}

/// With distinct keys, a key names at most one position.
pub proof fn lemma_unique_key(s: Seq<CacheEntry>, a: int, b: int)
    requires
        distinct_keys(s),
        0 <= a < s.len(),
        0 <= b < s.len(),
        s[a].path@ == s[b].path@,
    ensures
        a == b,
{
}

/// The decoded content cached under `p`.
pub open spec fn img_of(s: Seq<CacheEntry>, p: Seq<char>) -> ImgView {
    s[find(s, p)].image@
}

/// The recency order after a hit at position `i`: the entry moves to the
/// back, the relative order of the others is kept.
pub open spec fn touched(s: Seq<CacheEntry>, i: int) -> Seq<CacheEntry> {
    s.remove(i).push(s[i])
}

/// The recency order after making room for one more entry: at capacity the
/// front — the least recently used entry — is evicted, below it nothing is.
pub open spec fn evicted_if_full(s: Seq<CacheEntry>, cap: int) -> Seq<CacheEntry> {
    if s.len() >= cap {
        s.drop_first()
    } else {
        s
    }
}

/// Decoded images keyed by path, in recency order, holding at most
/// `capacity` entries.
pub struct ImageCache {
    pub entries: Vec<CacheEntry>,
    pub capacity: usize,
}

/// Relies on image::open: reads the file at `path` and decodes it. The
/// decoded buffer of an RGBA image holds exactly four bytes per pixel; which
/// outcome comes back depends on what is on disk, so nothing more is claimed.
#[verifier::external_body]
fn decode_file(path: &String) -> (r: Result<ImageData, LoadError>)
    ensures
        r matches Ok(img) ==> img.wf(),
{
    match image::open(path.as_str()) {
        Ok(decoded) => {
            let rgba = decoded.to_rgba8();
            let (width, height) = (rgba.width(), rgba.height());
            Ok(ImageData { width, height, pixels: rgba.into_raw() })
        },
        Err(image::ImageError::IoError(e)) => match e.kind() {
            std::io::ErrorKind::NotFound => Err(LoadError::NotFound),
            std::io::ErrorKind::PermissionDenied => Err(LoadError::Unreadable),
            _ => Err(LoadError::Unreadable),
        },
        Err(e) => Err(LoadError::Decode { path: path.clone(), cause: format!("{}", e) }),
    }
}

/// Relies on Rc::clone: the returned handle refers to the same image.
#[verifier::external_body]
pub(crate) fn clone_handle(h: &Rc<ImageData>) -> (r: Rc<ImageData>)
    ensures
        r == *h,
{
    Rc::clone(h)
}

impl ImageCache {
    /// Entries have distinct paths, and never more of them than the capacity.
    pub open spec fn wf(&self) -> bool {
        &&& distinct_keys(self.entries@)
        &&& self.entries@.len() <= self.capacity
        &&& self.capacity >= 1
    }

    /// An empty cache that will hold at most `capacity` entries.
    pub fn with_capacity(capacity: usize) -> (r: ImageCache)
        requires
            capacity >= 1,
        ensures
            r.wf(),
            r.capacity == capacity,
            r.entries@.len() == 0,
    {
        ImageCache { entries: Vec::new(), capacity }
    }

    /// How many entries the cache holds.
    pub fn len(&self) -> (r: usize)
        ensures
            r == self.entries@.len(),
    {
        self.entries.len()
    }

    /// The position of the entry keyed by `p`, as `find` describes it.
    fn find_path(&self, p: &String) -> (r: Option<usize>)
        ensures
            match r {
                Some(i) => i == find(self.entries@, p@),
                None => find(self.entries@, p@) == -1,
            },
    {
        proof {
            lemma_find(self.entries@, p@);
        }
        let mut k: usize = 0;
        while k < self.entries.len()
            invariant
                k <= self.entries@.len(),
                forall|m: int| 0 <= m < k ==> self.entries@[m].path@ != p@,
                -1 <= find(self.entries@, p@) < self.entries@.len(),
                find(self.entries@, p@) >= 0 ==> self.entries@[find(self.entries@, p@)].path@
                    == p@,
                find(self.entries@, p@) >= 0 ==> forall|j: int|
                    0 <= j < find(self.entries@, p@) ==> self.entries@[j].path@ != p@,
                find(self.entries@, p@) == -1 ==> forall|j: int|
                    0 <= j < self.entries@.len() ==> self.entries@[j].path@ != p@,
            decreases self.entries@.len() - k,
        {
            if self.entries[k].path == *p {
                proof {
                    let f = find(self.entries@, p@);
                    if f != k {
                        if f == -1 {
                            assert(self.entries@[k as int].path@ != p@);
                        } else if f < k {
                            assert(self.entries@[f].path@ != p@);
                        }
                    }
                }
                return Some(k);
            }
            k = k + 1;
        }
        None
    }

    /// Inserts a decoded image under `path` without consulting the decode
    /// service: a path already cached only has its recency refreshed, its
    /// stored content is kept; a new path is appended, evicting the least
    /// recently used entry first when the cache is at capacity.
    pub fn insert(&mut self, path: String, image: ImageData)
        requires
            old(self).wf(),
        ensures
            final (self).wf(),
            final (self).capacity == old(self).capacity,
            contains_path(old(self).entries@, path@) ==> final (self).entries@ == touched(
                old(self).entries@,
                find(old(self).entries@, path@),
            ),
            !contains_path(old(self).entries@, path@) ==> {
                &&& final (self).entries@.len() >= 1
                &&& final (self).entries@.drop_last() == evicted_if_full(
                    old(self).entries@,
                    old(self).capacity as int,
                )
                &&& final (self).entries@.last().path@ == path@
                &&& final (self).entries@.last().image@ == image@
            },
    {
        proof {
            lemma_find(self.entries@, path@);
        }
        match self.find_path(&path) {
            Some(i) => {
                self.touch(i);
            },
            None => {
                self.evict_and_push(path, Rc::new(image));
            },
        }
    }

    /// Moves the entry at `i` to the back of the recency order.
    fn touch(&mut self, i: usize)
        requires
            old(self).wf(),
            i < old(self).entries@.len(),
        ensures
            final (self).wf(),
            final (self).capacity == old(self).capacity,
            final (self).entries@ == touched(old(self).entries@, i as int),
    {
        let ghost s = self.entries@;
        let e = self.entries.remove(i);
        self.entries.push(e);
        proof {
            let t = self.entries@;
            assert(t =~= touched(s, i as int));
            assert forall|a: int, b: int| 0 <= a < b < t.len() implies t[a].path@ != t[b].path@ by {
                assert(t[b] == if b == t.len() - 1 {
                    s[i as int]
                } else if b < i {
                    s[b]
                } else {
                    s[b + 1]
                });
                assert(t[a] == if a < i {
                    s[a]
                } else {
                    s[a + 1]
                });
            }
        }
    }

    /// Appends a fresh entry, evicting the front when at capacity.
    fn evict_and_push(&mut self, path: String, image: Rc<ImageData>)
        requires
            old(self).wf(),
            !contains_path(old(self).entries@, path@),
        ensures
            final (self).wf(),
            final (self).capacity == old(self).capacity,
            final (self).entries@.len() >= 1,
            final (self).entries@.drop_last() == evicted_if_full(
                old(self).entries@,
                old(self).capacity as int,
            ),
            final (self).entries@.last().path@ == path@,
            final (self).entries@.last().image == image,
    {
        let ghost s = self.entries@;
        if self.entries.len() >= self.capacity {
            let _ = self.entries.remove(0);
            proof {
                assert(self.entries@ =~= s.drop_first());
            }
        }
        let ghost s1 = self.entries@;
        self.entries.push(CacheEntry { path, image });
        proof {
            let t = self.entries@;
            assert(t.drop_last() =~= s1);
            assert(s1 =~= evicted_if_full(s, old(self).capacity as int));
            assert forall|a: int, b: int| 0 <= a < b < t.len() implies t[a].path@ != t[b].path@ by {
                if b == t.len() - 1 {
                    assert(!contains_path(s, t[b].path@));
                    if s.len() >= old(self).capacity {
                        assert(t[a] == s[a + 1]);
                    } else {
                        assert(t[a] == s[a]);
                    }
                }
            }
        }
    }

    /// Returns the image cached under `path`, or decodes and caches it.
    ///
    /// On a hit the stored handle is returned and the entry's recency is
    /// refreshed; nothing is decoded. On a miss the decode service is asked:
    /// on success the image is cached — evicting the least recently used
    /// entry first when at capacity — and returned; on failure the error is
    /// propagated and the cache is left exactly as it was, so a failed load
    /// poisons nothing.
    pub fn get_or_load(&mut self, path: &String) -> (r: Result<Rc<ImageData>, LoadError>)
        requires
            old(self).wf(),
        ensures
            final (self).wf(),
            final (self).capacity == old(self).capacity,
            contains_path(old(self).entries@, path@) ==> {
                &&& r matches Ok(h) && h@ == img_of(old(self).entries@, path@)
                &&& final (self).entries@ == touched(
                    old(self).entries@,
                    find(old(self).entries@, path@),
                )
            },
            !contains_path(old(self).entries@, path@) ==> match r {
                Ok(h) => {
                    &&& final (self).entries@.len() >= 1
                    &&& final (self).entries@.drop_last() == evicted_if_full(
                        old(self).entries@,
                        old(self).capacity as int,
                    )
                    &&& final (self).entries@.last().path@ == path@
                    &&& final (self).entries@.last().image@ == h@
                },
                Err(e) => *final (self) == *old(self),
            },
    {
        proof {
            lemma_find(self.entries@, path@);
        }
        match self.find_path(path) {
            Some(i) => {
                let h = clone_handle(&self.entries[i].image);
                self.touch(i);
                Ok(h)
            },
            None => match decode_file(path) {
                Ok(img) => {
                    let h = Rc::new(img);
                    self.evict_and_push(path.clone(), clone_handle(&h));
                    Ok(h)
                },
                Err(e) => Err(e),
            },
        }
    }
}

/// A hit refreshes recency but neither the keys nor the stored content: the
/// touched order holds exactly the entries the old one held, under the same
/// paths, with the same images.
pub proof fn lemma_touch_preserves_contents(s: Seq<CacheEntry>, p: Seq<char>, q: Seq<char>)
    requires
        distinct_keys(s),
        contains_path(s, p),
    ensures
        touched(s, find(s, p)).len() == s.len(),
        contains_path(touched(s, find(s, p)), q) == contains_path(s, q),
        contains_path(s, q) ==> img_of(touched(s, find(s, p)), q) == img_of(s, q),
{
    lemma_find(s, p);
    let i = find(s, p);
    let t = touched(s, i);
    assert(t.len() == s.len());
    assert(forall|k: int| 0 <= k < i ==> t[k] == s[k]);
    assert(forall|k: int| i <= k < s.len() - 1 ==> t[k] == s[k + 1]);
    assert(t[s.len() - 1] == s[i]);
    if contains_path(s, q) {
        let a = choose|a: int| 0 <= a < s.len() && s[a].path@ == q;
        if a < i {
            assert(t[a] == s[a]);
        } else if a == i {
            assert(t[s.len() - 1] == s[a]);
        } else {
            assert(t[a - 1] == s[a]);
        }
        assert(contains_path(t, q));
        lemma_find(t, q);
        let b = find(t, q);
        assert(t[b].path@ == q);
        let m = if b == s.len() - 1 {
            i
        } else if b < i {
            b
        } else {
            b + 1
        };
        assert(t[b] == s[m]);
        lemma_unique_key(s, a, m);
        lemma_find(s, q);
        lemma_unique_key(s, a, find(s, q));
    }
    if contains_path(t, q) {
        let b = choose|b: int| 0 <= b < t.len() && t[b].path@ == q;
        let m = if b == s.len() - 1 {
            i
        } else if b < i {
            b
        } else {
            b + 1
        };
        assert(t[b] == s[m]);
        assert(contains_path(s, q));
    }
}

/// What a fresh insert leaves cached: the new path with exactly the new
/// content; below capacity every old entry as well, at capacity every old
/// entry but the least recently used one.
pub proof fn lemma_insert_caches_content(s: Seq<CacheEntry>, cap: int, e: CacheEntry)
    requires
        distinct_keys(s),
        !contains_path(s, e.path@),
        cap >= 1,
        s.len() <= cap,
    ensures
        contains_path(evicted_if_full(s, cap).push(e), e.path@),
        img_of(evicted_if_full(s, cap).push(e), e.path@) == e.image@,
        evicted_if_full(s, cap).push(e).len() <= cap + 1,
{
    let s1 = evicted_if_full(s, cap);
    let t = s1.push(e);
    assert(t[t.len() - 1] == e);
    assert(contains_path(t, e.path@));
    lemma_find(t, e.path@);
    let b = find(t, e.path@);
    assert(t[b].path@ == e.path@);
    if b < t.len() - 1 {
        if s.len() >= cap {
            assert(t[b] == s[b + 1]);
            assert(contains_path(s, e.path@));
        } else {
            assert(t[b] == s[b]);
            assert(contains_path(s, e.path@));
        }
    }
    assert(t[b] == e);
}

/// The capacity bound and the eviction rule. Inserting a fresh entry into a
/// cache at capacity evicts exactly the least recently used entry — the
/// front of the recency order — and keeps every other entry, so the size
/// never exceeds the capacity; below capacity nothing at all is evicted.
pub proof fn lemma_capacity_and_eviction(s: Seq<CacheEntry>, cap: int, e: CacheEntry)
    requires
        distinct_keys(s),
        !contains_path(s, e.path@),
        1 <= cap,
        s.len() <= cap,
    ensures
        s.len() == cap ==> evicted_if_full(s, cap).push(e) == s.drop_first().push(e),
        s.len() < cap ==> evicted_if_full(s, cap).push(e) == s.push(e),
        evicted_if_full(s, cap).push(e).len() <= cap,
{
}

/// Looking a path up twice in succession, with no eviction between the
/// calls, yields identical decoded content: once a lookup has succeeded, the
/// content it returned is cached under that path, and a repeated lookup is a
/// hit that returns that same content and evicts nothing.
pub proof fn lemma_repeated_lookup_same_content(s: Seq<CacheEntry>, p: Seq<char>)
    requires
        distinct_keys(s),
        contains_path(s, p),
    ensures
        img_of(touched(s, find(s, p)), p) == img_of(s, p),
        contains_path(touched(s, find(s, p)), p),
        touched(s, find(s, p)).len() == s.len(),
{
    lemma_touch_preserves_contents(s, p, p);
}

} // verus!
