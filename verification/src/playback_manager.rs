//! The playback manager: the current-image state machine.
//!
//! It owns the pending load request (a single slot, last writer wins), the
//! directory index, the image cache, and the currently displayed image. One
//! call of `update` is one frame tick: it consumes at most one request,
//! resolves it to a concrete path, asks the cache for the decoded image, and
//! publishes the outcome. A failed load leaves the displayed image and the
//! cache exactly as they were.
//!
//! Listing a directory is the one piece of outside work the manager cannot do
//! itself: when a request targets a directory it has no index for, `update`
//! answers `NeedsDirectory` and leaves the request pending; the caller lists
//! that directory and hands the names — or the failure to list — back through
//! `set_directory_listing`, and the next `update` completes the tick. The
//! caller refreshes the listing the same way once after a successful load.
use std::rc::Rc;

use vstd::prelude::*;

use crate::ImageData;
use crate::LoadError;
use crate::directory_index::DirectoryIndex;
use crate::image_cache::ImageCache;
use crate::image_cache::contains_path;
use crate::image_cache::evicted_if_full;
use crate::image_cache::find;
use crate::image_cache::img_of;
use crate::image_cache::touched;
use crate::paths::dir_of;
use crate::paths::is_file_path;

verus! {

/// The default number of decoded images the cache keeps.
pub const DEFAULT_CACHE_CAPACITY: usize = 8;

/// A pending instruction describing which image should become current.
/// Exactly one is pending at a time; issuing a new one overwrites any
/// unconsumed predecessor.
pub enum LoadRequest {
    /// Nothing is pending.
    LoadNone,
    /// Make the file at this path current.
    LoadSpecific(String),
    /// Step to the entry after the current one.
    LoadNext,
    /// Step to the entry before the current one.
    LoadPrevious,
}

/// The currently displayed image: its path and a handle to its content.
pub struct Displayed {
    pub path: String,
    pub image: Rc<ImageData>,
}

/// What one frame tick did.
pub enum UpdateResult {
    /// No request was pending, or it resolved to no work (a boundary).
    NothingChanged,
    /// The resolved path is now current and its image published.
    Loaded,
    /// The load failed; the displayed image and the cache are untouched.
    Failed(LoadError),
    /// The tick needs a listing of this directory before it can go on; hand
    /// one to `set_directory_listing` and call `update` again.
    NeedsDirectory(String),
}

pub struct PlaybackManager {
    pub request: LoadRequest,
    pub current: Option<Displayed>,
    pub index: Option<DirectoryIndex>,
    pub cache: ImageCache,
    /// The directory whose listing the caller reported unlistable, if any.
    pub failed_dir: Option<String>,
}

impl PlaybackManager {
    /// The cache is well formed and so is the index, when there is one.
    pub open spec fn wf(&self) -> bool {
        &&& self.cache.wf()
        &&& match self.index {
            Some(ix) => ix.wf(),
            None => true,
        }
    }

    /// `self` with the request slot overwritten and all else as it was.
    pub open spec fn with_request(self, r: LoadRequest) -> PlaybackManager {
        PlaybackManager {
            request: r,
            current: self.current,
            index: self.index,
            cache: self.cache,
            failed_dir: self.failed_dir,
        }
    }

    /// `self` after its pending request was consumed.
    pub open spec fn consumed(self) -> PlaybackManager {
        self.with_request(LoadRequest::LoadNone)
    }

    /// `self` after a pending request died of an unlistable directory: the
    /// request and the recorded failure are both cleared.
    pub open spec fn consumed_unreadable(self) -> PlaybackManager {
        PlaybackManager {
            request: LoadRequest::LoadNone,
            current: self.current,
            index: self.index,
            cache: self.cache,
            failed_dir: None,
        }
    }

    /// The index at hand is the index of directory `d`.
    pub open spec fn has_index_for(self, d: Seq<char>) -> bool {
        match self.index {
            Some(ix) => ix.dir@ == d,
            None => false,
        }
    }

    /// The caller has reported directory `d` unlistable.
    pub open spec fn listing_failed_for(self, d: Seq<char>) -> bool {
        match self.failed_dir {
            Some(f) => f@ == d,
            None => false,
        }
    }

    /// The path a pending step to a neighbour resolves to: the entry after
    /// (or before) the current one in the index — or nothing, when there is
    /// no index, nothing is current, the current path is not among the
    /// entries, or the step leaves the directory's boundary.
    pub open spec fn nav_target(self, forward: bool) -> Option<Seq<char>> {
        match self.index {
            Some(ix) => match self.current {
                Some(d) => {
                    let vs = ix.entry_views();
                    if crate::directory_index::has_pos(vs, d.path@) {
                        let pos = crate::directory_index::pos_of(vs, d.path@);
                        let q = if forward {
                            crate::directory_index::next_pos(vs.len() as int, pos)
                        } else {
                            crate::directory_index::prev_pos(vs.len() as int, pos)
                        };
                        match q {
                            Some(j) => Some(vs[j]),
                            None => None,
                        }
                    } else {
                        None
                    }
                },
                None => None,
            },
            None => None,
        }
    }

    /// How one attempted load of the path `p` relates the state before it,
    /// `pre`, to the state after it, `post`, and to the tick's result `r`.
    ///
    /// A path already cached is owed success. On success the path is current
    /// and its published content is exactly what the cache now holds under
    /// it: a hit republishes the content already cached, a miss caches the
    /// freshly decoded content, evicting the least recently used entry first
    /// when at capacity. On failure the displayed image and the whole cache
    /// are exactly what they were. The request slot, the index and the
    /// recorded listing failure are untouched either way.
    pub open spec fn load_outcome(
        pre: PlaybackManager,
        p: Seq<char>,
        r: UpdateResult,
        post: PlaybackManager,
    ) -> bool {
        &&& post.request == pre.request
        &&& post.index == pre.index
        &&& post.failed_dir == pre.failed_dir
        &&& post.cache.capacity == pre.cache.capacity
        &&& (contains_path(pre.cache.entries@, p) ==> r is Loaded)
        &&& match r {
            UpdateResult::Loaded => match post.current {
                Some(d) => {
                    &&& d.path@ == p
                    &&& contains_path(post.cache.entries@, p)
                    &&& d.image@ == img_of(post.cache.entries@, p)
                    &&& if contains_path(pre.cache.entries@, p) {
                        &&& post.cache.entries@ == touched(
                            pre.cache.entries@,
                            find(pre.cache.entries@, p),
                        )
                        &&& d.image@ == img_of(pre.cache.entries@, p)
                    } else {
                        &&& post.cache.entries@.len() >= 1
                        &&& post.cache.entries@.drop_last() == evicted_if_full(
                            pre.cache.entries@,
                            pre.cache.capacity as int,
                        )
                        &&& post.cache.entries@.last().path@ == p
                        &&& post.cache.entries@.last().image@ == d.image@
                    }
                },
                None => false,
            },
            UpdateResult::Failed(_) => {
                &&& post.current == pre.current
                &&& post.cache == pre.cache
                &&& !contains_path(pre.cache.entries@, p)
            },
            _ => false,
        }
    }

    /// A manager with nothing loaded, nothing pending, no index, and an
    /// empty cache of the default capacity.
    pub fn new() -> (r: PlaybackManager)
        ensures
            r.wf(),
            r.request is LoadNone,
            r.current is None,
            r.index is None,
            r.failed_dir is None,
            r.cache.capacity == DEFAULT_CACHE_CAPACITY,
            r.cache.entries@.len() == 0,
    {
        PlaybackManager {
            request: LoadRequest::LoadNone,
            current: None,
            index: None,
            cache: ImageCache::with_capacity(DEFAULT_CACHE_CAPACITY),
            failed_dir: None,
        }
    }

    /// As `new`, with a cache of the given capacity.
    pub fn with_cache_capacity(capacity: usize) -> (r: PlaybackManager)
        requires
            capacity >= 1,
        ensures
            r.wf(),
            r.request is LoadNone,
            r.current is None,
            r.index is None,
            r.failed_dir is None,
            r.cache.capacity == capacity,
            r.cache.entries@.len() == 0,
    {
        PlaybackManager {
            request: LoadRequest::LoadNone,
            current: None,
            index: None,
            cache: ImageCache::with_capacity(capacity),
            failed_dir: None,
        }
    }

    /// Overwrites the pending request: the last call before a tick wins, an
    /// unconsumed predecessor has no effect at all. Pure state mutation.
    pub fn request_load(&mut self, req: LoadRequest)
        ensures
            *final (self) == old(self).with_request(req),
    {
        self.request = req;
    }

    /// True when nothing is pending, so the frame loop may idle.
    pub fn should_sleep(&self) -> (r: bool)
        ensures
            r == (self.request is LoadNone),
    {
        match self.request {
            LoadRequest::LoadNone => true,
            _ => false,
        }
    }

    /// A handle to the currently displayed image, if any.
    pub fn image_handle(&self) -> (r: Option<Rc<ImageData>>)
        ensures
            match r {
                Some(h) => self.current matches Some(d) && h == d.image,
                None => self.current is None,
            },
    {
        match &self.current {
            Some(d) => Some(crate::image_cache::clone_handle(&d.image)),
            None => None,
        }
    }

    /// The path of the currently displayed image, if any.
    pub fn current_path(&self) -> (r: Option<String>)
        ensures
            match r {
                Some(p) => self.current matches Some(d) && p@ == d.path@,
                None => self.current is None,
            },
    {
        match &self.current {
            Some(d) => Some(d.path.clone()),
            None => None,
        }
    }

    /// Takes the listing of `dir` that the caller read — or its failure to
    /// read one — and replaces the directory index wholesale with one built
    /// from it. The request, the displayed image and the cache are untouched.
    pub fn set_directory_listing(&mut self, dir: &String, listing: Option<Vec<String>>)
        requires
            old(self).wf(),
        ensures
            final (self).wf(),
            final (self).request == old(self).request,
            final (self).current == old(self).current,
            final (self).cache == old(self).cache,
            match listing {
                Some(names) => {
                    &&& final (self).index matches Some(ix) && ix.built_from(
                        dir@,
                        crate::directory_index::views(names@),
                    )
                    &&& final (self).failed_dir is None
                },
                None => {
                    &&& final (self).failed_dir matches Some(f) && f@ == dir@
                    &&& final (self).index == old(self).index
                },
            },
    {
        match listing {
            Some(names) => {
                self.index = Some(DirectoryIndex::build(dir.clone(), names));
                self.failed_dir = None;
            },
            None => {
                self.failed_dir = Some(dir.clone());
            },
        }
    }

    /// An exact copy of the pending request.
    fn clone_request(&self) -> (r: LoadRequest)
        ensures
            r == self.request,
    {
        match &self.request {
            LoadRequest::LoadNone => LoadRequest::LoadNone,
            LoadRequest::LoadNext => LoadRequest::LoadNext,
            LoadRequest::LoadPrevious => LoadRequest::LoadPrevious,
            LoadRequest::LoadSpecific(p) => LoadRequest::LoadSpecific(p.clone()),
        }
    }

    /// The path a pending neighbour step resolves to, as `nav_target`
    /// describes it.
    fn resolve_nav(&self, forward: bool) -> (t: Option<String>)
        requires
            self.wf(),
        ensures
            match t {
                Some(s) => self.nav_target(forward) == Some(s@),
                None => self.nav_target(forward) is None,
            },
    {
        let ix = match &self.index {
            Some(ix) => ix,
            None => {
                return None;
            },
        };
        let d = match &self.current {
            Some(d) => d,
            None => {
                return None;
            },
        };
        let ghost vs = ix.entry_views();
        let pos = match ix.position_of(&d.path) {
            Some(pos) => pos,
            None => {
                assert(!crate::directory_index::has_pos(vs, d.path@));
                return None;
            },
        };
        proof {
            assert(crate::directory_index::has_pos(vs, d.path@));
            let c = crate::directory_index::pos_of(vs, d.path@);
            assert(0 <= c < vs.len() && vs[c] == d.path@);
            crate::directory_index::lemma_position_unique(vs, pos as int, c);
        }
        let q = if forward {
            ix.next(pos)
        } else {
            ix.previous(pos)
        };
        match q {
            Some(j) => Some(ix.entry_at(j)),
            None => None,
        }
    }

    /// Attempts to make the file at `target` current, through the cache.
    fn load_path(&mut self, target: String) -> (r: UpdateResult)
        requires
            old(self).wf(),
        ensures
            final (self).wf(),
            PlaybackManager::load_outcome(*old(self), target@, r, *final (self)),
    {
        let ghost pre = self.cache.entries@;
        match self.cache.get_or_load(&target) {
            Ok(h) => {
                proof {
                    crate::image_cache::lemma_find(pre, target@);
                    if contains_path(pre, target@) {
                        crate::image_cache::lemma_touch_preserves_contents(
                            pre,
                            target@,
                            target@,
                        );
                    } else {
                        let t = self.cache.entries@;
                        assert(t =~= t.drop_last().push(t.last()));
                        crate::image_cache::lemma_insert_caches_content(
                            pre,
                            old(self).cache.capacity as int,
                            t.last(),
                        );
                    }
                }
                self.current = Some(Displayed { path: target, image: h });
                UpdateResult::Loaded
            },
            Err(e) => UpdateResult::Failed(e),
        }
    }

    /// One frame tick: consumes the pending request, if any, and acts on it.
    ///
    /// With nothing pending, nothing happens. A neighbour step that resolves
    /// to no entry — no index, nothing current, or a boundary — consumes the
    /// request and changes nothing else. A resolved path is loaded through
    /// the cache as `load_outcome` describes. A specific path whose directory
    /// is not the indexed one first needs that directory's listing: the
    /// request stays pending, nothing changes, and the caller is asked for
    /// the listing; if the caller has just reported that directory
    /// unlistable, the request fails with `Unreadable` instead. A specific
    /// path with no separator in it names no file and fails with `NotFound`.
    pub fn update(&mut self) -> (r: UpdateResult)
        requires
            old(self).wf(),
        ensures
            final (self).wf(),
            old(self).request is LoadNone ==> r is NothingChanged && *final (self) == *old(self),
            (old(self).request is LoadNext || old(self).request is LoadPrevious) ==> match old(
                self,
            ).nav_target(old(self).request is LoadNext) {
                Some(p) => PlaybackManager::load_outcome(
                    old(self).consumed(),
                    p,
                    r,
                    *final (self),
                ),
                None => r is NothingChanged && *final (self) == old(self).consumed(),
            },
            old(self).request matches LoadRequest::LoadSpecific(p) ==> {
                if !is_file_path(p@) {
                    &&& r matches UpdateResult::Failed(e) && e == LoadError::NotFound
                    &&& *final (self) == old(self).consumed()
                } else if old(self).has_index_for(dir_of(p@)) {
                    PlaybackManager::load_outcome(old(self).consumed(), p@, r, *final (self))
                } else if old(self).listing_failed_for(dir_of(p@)) {
                    &&& r matches UpdateResult::Failed(e) && e == LoadError::Unreadable
                    &&& *final (self) == old(self).consumed_unreadable()
                } else {
                    &&& r matches UpdateResult::NeedsDirectory(d) && d@ == dir_of(p@)
                    &&& *final (self) == *old(self)
                }
            },
    {
        let req = self.clone_request();
        match req {
            LoadRequest::LoadNone => UpdateResult::NothingChanged,
            LoadRequest::LoadNext | LoadRequest::LoadPrevious => {
                let forward = match req {
                    LoadRequest::LoadNext => true,
                    _ => false,
                };
                let target = self.resolve_nav(forward);
                self.request = LoadRequest::LoadNone;
                match target {
                    Some(t) => self.load_path(t),
                    None => UpdateResult::NothingChanged,
                }
            },
            LoadRequest::LoadSpecific(p) => {
                if !crate::paths::check_file_path(&p) {
                    self.request = LoadRequest::LoadNone;
                    return UpdateResult::Failed(LoadError::NotFound);
                }
                let d = crate::paths::parent_dir(&p);
                let have_index = match &self.index {
                    Some(ix) => ix.dir == d,
                    None => false,
                };
                if have_index {
                    self.request = LoadRequest::LoadNone;
                    return self.load_path(p);
                }
                let failed = match &self.failed_dir {
                    Some(f) => *f == d,
                    None => false,
                };
                if failed {
                    self.request = LoadRequest::LoadNone;
                    self.failed_dir = None;
                    return UpdateResult::Failed(LoadError::Unreadable);
                }
                UpdateResult::NeedsDirectory(d)
            },
        }
    }
}

/// Of two requests issued before a tick processes either, only the later one
/// has any effect: overwriting the single pending slot erases the earlier
/// request entirely, so exactly one load — the later one — is performed.
pub proof fn lemma_last_request_wins(m: PlaybackManager, a: LoadRequest, b: LoadRequest)
    ensures
        m.with_request(a).with_request(b) == m.with_request(b),
{
}

} // verus!
