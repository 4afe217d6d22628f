use vstd::prelude::*;
use crate::locality::{locality_window, window_indices};
use crate::texture::ImageResolution;
use vstd::arithmetic::div_mod::{lemma_mod_add_multiples_vanish, lemma_mod_self_0, lemma_small_mod};

verus! {

/// Identity of a browsable image: the path it is read from.
#[derive(Debug, Clone, Eq, Hash)]
pub struct ImageRef {
    pub path: String,
}

impl PartialEq for ImageRef {
    fn eq(&self, o: &ImageRef) -> (r: bool) {
        self.path == o.path
    }
}

impl vstd::std_specs::cmp::PartialEqSpecImpl for ImageRef {
    open spec fn obeys_eq_spec() -> bool {
        true
    }

    open spec fn eq_spec(&self, o: &ImageRef) -> bool {
        self.path@ == o.path@
    }
}

impl View for ImageRef {
    type V = Seq<char>;

    open spec fn view(&self) -> Seq<char> {
        self.path@
    }
}

impl ImageRef {
    pub fn new(path: String) -> (r: Self)
        ensures
            r@ == path@,
    {
        Self { path }
    }

    /// A copy of this reference.
    pub fn duplicate(&self) -> (r: Self)
        ensures
            r@ == self@,
    {
        Self { path: self.path.clone() }
    }

    /// Whether both references name the same image.
    pub fn same_as(&self, other: &ImageRef) -> (r: bool)
        ensures
            r == (self@ == other@),
    {
        self.path == other.path
    }
}

/// What a request is identified by: the image and the resolution.
pub type RequestKey = (Seq<char>, ImageResolution);

/// One unit of decode work: an image at a resolution.
#[derive(Debug, Clone, Eq, Hash)]
pub struct ImageRequest {
    pub reference: ImageRef,
    pub resolution: ImageResolution,
}

impl PartialEq for ImageRequest {
    fn eq(&self, o: &ImageRequest) -> (r: bool) {
        self.reference.path == o.reference.path && self.resolution == o.resolution
    }
}

impl vstd::std_specs::cmp::PartialEqSpecImpl for ImageRequest {
    open spec fn obeys_eq_spec() -> bool {
        true
    }

    open spec fn eq_spec(&self, o: &ImageRequest) -> bool {
        self.reference.path@ == o.reference.path@ && self.resolution == o.resolution
    }
}

impl View for ImageRequest {
    type V = RequestKey;

    open spec fn view(&self) -> RequestKey {
        (self.reference@, self.resolution)
    }
}

impl ImageRequest {
    pub fn new(reference: ImageRef, resolution: ImageResolution) -> (r: Self)
        ensures
            r@ == (reference@, resolution),
    {
        Self { reference, resolution }
    }

    /// A copy of this request.
    pub fn duplicate(&self) -> (r: Self)
        ensures
            r@ == self@,
    {
        Self { reference: self.reference.duplicate(), resolution: self.resolution }
    }

    /// Whether both requests are the same unit of work.
    pub fn same_as(&self, other: &ImageRequest) -> (r: bool)
        ensures
            r == (self@ == other@),
    {
        self.reference.same_as(&other.reference) && self.resolution == other.resolution
    }
}

/// Progress of a tracked request.
#[derive(Debug, Clone, Copy, PartialEq, Eq, Structural, Hash)]
pub enum LoadState {
    /// A worker task has been queued for the request and has not delivered yet.
    Pending,
    /// The result was delivered; no further worker runs for the request.
    Loaded,
}

/// Abstract content of the request table: tracked requests with their state, in
/// order of submission.
pub type TableView = Seq<(RequestKey, LoadState)>;

/// No request is tracked twice.
pub open spec fn keys_unique(t: TableView) -> bool {
    forall|i: int, j: int| 0 <= i < j < t.len() ==> t[i].0 != t[j].0
}

/// The table tracks the request `k`, in any state.
pub open spec fn tracks(t: TableView, k: RequestKey) -> bool {
    exists|i: int| 0 <= i < t.len() && t[i].0 == k
}

/// Whether an entry is pending at a resolution other than THUMBNAIL: the entries
/// that slow down new work.
pub open spec fn is_contending(e: (RequestKey, LoadState)) -> bool {
    e.1 == LoadState::Pending && e.0.1 != ImageResolution::THUMBNAIL
}

/// Number of contending entries.
pub open spec fn pending_count(t: TableView) -> nat
    decreases t.len(),
{
    if t.len() == 0 {
        0
    } else {
        pending_count(t.drop_last()) + if is_contending(t.last()) {
            1nat
        } else {
            0nat
        }
    }
}

/// The table after `k` was submitted: unchanged if `k` is tracked, else with `k`
/// appended as pending.
pub open spec fn after_submit(t: TableView, k: RequestKey) -> TableView {
    if tracks(t, k) {
        t
    } else {
        t.push((k, LoadState::Pending))
    }
}

/// The table after the delivery of `k`: its entry, if any, becomes loaded.
pub open spec fn after_loaded(t: TableView, k: RequestKey) -> TableView {
    Seq::new(t.len(), |i: int| if t[i].0 == k { (k, LoadState::Loaded) } else { t[i] })
}

/// Whether pruning keeps an entry: its image is in `keep`, or its resolution is
/// the exempt one.
pub open spec fn survives(
    keep: Seq<Seq<char>>,
    exempt: ImageResolution,
    e: (RequestKey, LoadState),
) -> bool {
    keep.contains(e.0.0) || e.0.1 == exempt
}

/// The table after pruning: the surviving entries, in their order.
pub open spec fn after_prune(t: TableView, keep: Seq<Seq<char>>, exempt: ImageResolution) -> TableView {
    t.filter(|e: (RequestKey, LoadState)| survives(keep, exempt, e))
}

/// The requests a table tracks, in its order.
pub open spec fn table_keys(t: TableView) -> Seq<RequestKey> {
    t.map_values(|e: (RequestKey, LoadState)| e.0)
}

/// The views of a sequence of references.
pub open spec fn ref_views(s: Seq<ImageRef>) -> Seq<Seq<char>> {
    s.map_values(|r: ImageRef| r@)
}

/// The views of a sequence of requests.
pub open spec fn request_views(s: Seq<ImageRequest>) -> Seq<RequestKey> {
    s.map_values(|r: ImageRequest| r@)
}

/// Debounce delay, in milliseconds, for a task submitted while `n` other entries
/// were contending.
pub open spec fn debounce_ms(n: nat) -> u64 {
    if n == 0 {
        0
    } else if n > 5 {
        100
    } else {
        10
    }
}

/// Executable form of `debounce_ms`.
pub fn debounce_delay_ms(n_pending: usize) -> (r: u64)
    ensures
        r == debounce_ms(n_pending as nat),
{
    if n_pending == 0 {
        0
    } else if n_pending > 5 {
        100
    } else {
        10
    }
}

proof fn lemma_pending_count_bound(t: TableView)
    ensures
        pending_count(t) <= t.len(),
    decreases t.len(),
{
    if t.len() > 0 {
        lemma_pending_count_bound(t.drop_last());
    }
}

proof fn lemma_filter_keeps_keys_unique(t: TableView, p: spec_fn((RequestKey, LoadState)) -> bool)
    requires
        keys_unique(t),
    ensures
        keys_unique(t.filter(p)),
    decreases t.len(),
{
    reveal(Seq::filter);
    if t.len() > 0 {
        let s = t.drop_last();
        lemma_filter_keeps_keys_unique(s, p);
        let f = s.filter(p);
        if p(t.last()) {
            assert forall|i: int| 0 <= i < f.len() implies f[i].0 != t.last().0 by {
                s.lemma_filter_contains_rev(p, f[i]);
                let j = choose|j: int| 0 <= j < s.len() && s[j] == f[i];
                assert(t[j] == s[j]);
            }
            assert(f.push(t.last()) == t.filter(p));
        }
    }
}

/// A decode task for a worker: the request, and how long to wait before starting.
#[derive(Debug)]
pub struct DecodeTask {
    pub request: ImageRequest,
    pub delay_ms: u64,
}

impl View for DecodeTask {
    type V = (RequestKey, u64);

    open spec fn view(&self) -> (RequestKey, u64) {
        (self.request@, self.delay_ms)
    }
}

struct TableEntry {
    request: ImageRequest,
    state: LoadState,
}

/// The table of decode requests: each request at most once, with its state.
pub struct RequestTable {
    entries: Vec<TableEntry>,
}

impl View for RequestTable {
    type V = TableView;

    closed spec fn view(&self) -> TableView {
        self.entries@.map_values(|e: TableEntry| (e.request@, e.state))
    }
}

impl RequestTable {
    /// Each request is tracked once.
    pub closed spec fn wf(&self) -> bool {
        keys_unique(self@)
    }

    pub fn new() -> (r: Self)
        ensures
            r.wf(),
            r@ == Seq::<(RequestKey, LoadState)>::empty(),
    {
        let r = Self { entries: Vec::new() };
        assert(r@ =~= Seq::<(RequestKey, LoadState)>::empty());
        r
    }

    /// Number of tracked requests.
    pub fn len(&self) -> (r: usize)
        ensures
            r == self@.len(),
    {
        self.entries.len()
    }

    fn find(&self, req: &ImageRequest) -> (r: Option<usize>)
        ensures
            match r {
                Some(i) => i < self@.len() && self@[i as int].0 == req@,
                None => !tracks(self@, req@),
            },
    {
        let n = self.entries.len();
        let mut i: usize = 0;
        while i < n
            invariant
                n == self@.len(),
                0 <= i <= n,
                forall|j: int| 0 <= j < i ==> self@[j].0 != req@,
            decreases n - i,
        {
            if self.entries[i].request.same_as(req) {
                return Some(i);
            }
            i += 1;
        }
        None
    }

    /// Whether `req` is tracked, in any state.
    pub fn contains(&self, req: &ImageRequest) -> (r: bool)
        ensures
            r == tracks(self@, req@),
    {
        self.find(req).is_some()
    }

    /// Number of entries pending at a resolution other than THUMBNAIL.
    pub fn count_pending(&self) -> (r: usize)
        ensures
            r == pending_count(self@),
    {
        let n = self.entries.len();
        let mut count: usize = 0;
        let mut i: usize = 0;
        while i < n
            invariant
                n == self@.len(),
                0 <= i <= n,
                count == pending_count(self@.take(i as int)),
            decreases n - i,
        {
            proof {
                lemma_pending_count_bound(self@.take(i as int));
                assert(self@.take(i + 1).drop_last() =~= self@.take(i as int));
            }
            let e = &self.entries[i];
            if e.state == LoadState::Pending && e.request.resolution != ImageResolution::THUMBNAIL {
                count += 1;
            }
            i += 1;
        }
        assert(self@.take(n as int) =~= self@);
        count
    }

    /// Registers `req`. A tracked request is left as it is and gives no task.
    /// Otherwise it is appended as pending, and the task for it is returned, with
    /// the debounce delay for the number of contending entries before the call.
    pub fn submit(&mut self, req: &ImageRequest) -> (r: Option<DecodeTask>)
        requires
            old(self).wf(),
        ensures
            final(self).wf(),
            final(self)@ == after_submit(old(self)@, req@),
            r is None <==> tracks(old(self)@, req@),
            r matches Some(t) ==> t@ == (req@, debounce_ms(pending_count(old(self)@))),
    {
        if self.contains(req) {
            return None;
        }
        let n_pending = self.count_pending();
        let delay_ms = debounce_delay_ms(n_pending);
        self.entries.push(TableEntry { request: req.duplicate(), state: LoadState::Pending });
        assert(self@ =~= old(self)@.push((req@, LoadState::Pending)));
        Some(DecodeTask { request: req.duplicate(), delay_ms })
    }

    /// Marks `req` as delivered. Returns whether it was tracked; an untracked
    /// request leaves the table unchanged.
    pub fn mark_loaded(&mut self, req: &ImageRequest) -> (r: bool)
        requires
            old(self).wf(),
        ensures
            final(self).wf(),
            final(self)@ == after_loaded(old(self)@, req@),
            r == tracks(old(self)@, req@),
    {
        match self.find(req) {
            Some(i) => {
                let request = self.entries[i].request.duplicate();
                self.entries.set(i, TableEntry { request, state: LoadState::Loaded });
                assert(self@ =~= after_loaded(old(self)@, req@));
                true
            },
            None => {
                assert(self@ =~= after_loaded(old(self)@, req@));
                false
            },
        }
    }

    /// Removes every entry whose image is not in `keep`, unless its resolution is
    /// `exempt`. The surviving entries keep their order and state.
    pub fn prune(&mut self, keep: &[ImageRef], exempt: ImageResolution)
        requires
            old(self).wf(),
        ensures
            final(self).wf(),
            final(self)@ == after_prune(old(self)@, ref_views(keep@), exempt),
    {
        let ghost kv = ref_views(keep@);
        let n = self.entries.len();
        let mut kept: Vec<TableEntry> = Vec::new();
        let mut i: usize = 0;
        while i < n
            invariant
                n == self@.len(),
                self@ == old(self)@,
                kv == ref_views(keep@),
                0 <= i <= n,
                kept@.map_values(|e: TableEntry| (e.request@, e.state)) == after_prune(
                    self@.take(i as int),
                    kv,
                    exempt,
                ),
            decreases n - i,
        {
            proof {
                reveal(Seq::filter);
                assert(self@.take(i + 1).drop_last() =~= self@.take(i as int));
            }
            let e = &self.entries[i];
            let kept_here = e.request.resolution == exempt || contains_ref(keep, &e.request.reference);
            proof {
                assert(self@[i as int] == (e.request@, e.state));
                assert(self@.take(i + 1).last() == self@[i as int]);
                assert(kept_here == survives(kv, exempt, self@[i as int]));
            }
            if kept_here {
                kept.push(TableEntry { request: e.request.duplicate(), state: e.state });
                assert(kept@.map_values(|e: TableEntry| (e.request@, e.state)) =~= after_prune(
                    self@.take(i as int),
                    kv,
                    exempt,
                ).push(self@[i as int]));
            }
            assert(kept@.map_values(|e: TableEntry| (e.request@, e.state)) == after_prune(
                self@.take(i + 1),
                kv,
                exempt,
            ));
            i += 1;
        }
        assert(self@.take(n as int) =~= self@);
        proof {
            lemma_filter_keeps_keys_unique(
                self@,
                |e: (RequestKey, LoadState)| survives(kv, exempt, e),
            );
        }
        self.entries = kept;
    }

    /// The tracked requests, in order of submission.
    pub fn snapshot(&self) -> (r: Vec<ImageRequest>)
        ensures
            request_views(r@) == table_keys(self@),
    {
        let n = self.entries.len();
        let mut out: Vec<ImageRequest> = Vec::new();
        let mut i: usize = 0;
        while i < n
            invariant
                n == self@.len(),
                0 <= i <= n,
                request_views(out@) =~= self@.take(i as int).map_values(
                    |e: (RequestKey, LoadState)| e.0,
                ),
            decreases n - i,
        {
            let ghost before = out@;
            let req = self.entries[i].request.duplicate();
            out.push(req);
            proof {
                assert(self@[i as int].0 == req@);
                assert(request_views(out@) =~= request_views(before).push(req@));
                assert(self@.take(i + 1) =~= self@.take(i as int).push(self@[i as int]));
                assert(request_views(out@) =~= self@.take(i + 1).map_values(
                    |e: (RequestKey, LoadState)| e.0,
                ));
            }
            i += 1;
        }
        assert(self@.take(n as int) =~= self@);
        out
    }
}

/// Whether the image `r` is one of `keep`.
pub fn contains_ref(keep: &[ImageRef], r: &ImageRef) -> (b: bool)
    ensures
        b == ref_views(keep@).contains(r@),
{
    let n = keep.len();
    let mut i: usize = 0;
    while i < n
        invariant
            n == keep@.len(),
            0 <= i <= n,
            forall|j: int| 0 <= j < i ==> keep@[j]@ != r@,
        decreases n - i,
    {
        if keep[i].same_as(r) {
            assert(ref_views(keep@)[i as int] == r@);
            return true;
        }
        i += 1;
    }
    assert(!ref_views(keep@).contains(r@)) by {
        if ref_views(keep@).contains(r@) {
            let j = choose|j: int| 0 <= j < n && ref_views(keep@)[j] == r@;
            assert(keep@[j]@ == r@);
        }
    }
    false
}

/// Abstract state of the scheduler: the request table, and the decode tasks
/// queued for the worker pool and not yet handed out, oldest first.
pub type Sched = (TableView, Seq<(RequestKey, u64)>);

/// The scheduler after `k` was submitted: a tracked request changes nothing;
/// a new one is appended as pending and its task queued, with the debounce delay
/// for the entries that contended before it.
pub open spec fn sched_submit(s: Sched, k: RequestKey) -> Sched {
    if tracks(s.0, k) {
        s
    } else {
        (after_submit(s.0, k), s.1.push((k, debounce_ms(pending_count(s.0)))))
    }
}

/// The scheduler after the requests `ks` were submitted one after the other.
pub open spec fn sched_submit_all(s: Sched, ks: Seq<RequestKey>) -> Sched
    decreases ks.len(),
{
    if ks.len() == 0 {
        s
    } else {
        sched_submit(sched_submit_all(s, ks.drop_last()), ks.last())
    }
}

/// The requests for each of `refs` at resolution `res`.
pub open spec fn at_resolution(refs: Seq<Seq<char>>, res: ImageResolution) -> Seq<RequestKey> {
    refs.map_values(|r: Seq<char>| (r, res))
}

/// The images of the locality window of radius `radius` around `cursor`, closest
/// first; none for an empty catalog.
pub open spec fn window_refs(catalog: Seq<Seq<char>>, cursor: nat, radius: nat) -> Seq<Seq<char>> {
    if catalog.len() == 0 {
        Seq::empty()
    } else {
        window_indices(catalog.len() as int, cursor as int, radius as int).map_values(
            |i: int| catalog[i],
        )
    }
}

/// Why a navigation step was refused.
#[derive(Debug, Clone, Copy, PartialEq, Eq, Structural)]
pub enum LoaderError {
    /// The catalog holds no image.
    EmptyCatalog,
    /// There is no image at this index.
    NoImageAt(usize),
}

/// The item catalog with its cursor, and the scheduler of decode requests.
///
/// Submitting a request records it in the table and queues a decode task; the
/// program takes the queued tasks with `take_tasks` and runs each on a worker,
/// which waits its delay, asks `is_requested`, decodes, and reports with
/// `complete`.
pub struct ImageLoader {
    images: Vec<ImageRef>,
    preload: usize,
    index: usize,
    table: RequestTable,
    queued: Vec<DecodeTask>,
}

impl ImageLoader {
    /// The catalog, as the paths of its images.
    pub closed spec fn catalog(&self) -> Seq<Seq<char>> {
        ref_views(self.images@)
    }

    /// Index of the current image.
    pub closed spec fn cursor(&self) -> nat {
        self.index as nat
    }

    /// Radius of the locality window that `clear_cache` keeps.
    pub closed spec fn radius(&self) -> nat {
        self.preload as nat
    }

    /// Radius of the locality window that `clear_cache` keeps.
    pub fn preload_radius(&self) -> (r: usize)
        ensures
            r == self.radius(),
    {
        self.preload
    }

    /// The request table and the queued tasks.
    pub closed spec fn sched(&self) -> Sched {
        (self.table@, self.queued@.map_values(|t: DecodeTask| t@))
    }

    /// The cursor lies in the catalog (at 0 when the catalog is empty), and the
    /// table tracks each request once.
    pub closed spec fn wf(&self) -> bool {
        &&& self.table.wf()
        &&& if self.images@.len() == 0 {
            self.index == 0
        } else {
            self.index < self.images@.len()
        }
    }

    /// A loader over `paths`, in that order, with the cursor on the first image,
    /// whose NATIVE request is submitted.
    pub fn from_paths(paths: Vec<String>, preload: usize) -> (r: Self)
        ensures
            r.wf(),
            r.catalog() == paths@.map_values(|p: String| p@),
            r.cursor() == 0,
            r.radius() == preload,
            r.sched() == if paths@.len() == 0 {
                (Seq::empty(), Seq::empty())
            } else {
                sched_submit((Seq::empty(), Seq::empty()), (paths@[0]@, ImageResolution::NATIVE))
            },
    {
        let n = paths.len();
        let mut images: Vec<ImageRef> = Vec::new();
        let mut i: usize = 0;
        while i < n
            invariant
                n == paths@.len(),
                0 <= i <= n,
                ref_views(images@) =~= paths@.take(i as int).map_values(|p: String| p@),
            decreases n - i,
        {
            let ghost before = images@;
            images.push(ImageRef::new(paths[i].clone()));
            assert(ref_views(images@) =~= ref_views(before).push(paths@[i as int]@));
            assert(paths@.take(i + 1) =~= paths@.take(i as int).push(paths@[i as int]));
            i += 1;
        }
        assert(paths@.take(n as int) =~= paths@);
        let mut loader = Self {
            images,
            preload,
            index: 0,
            table: RequestTable::new(),
            queued: Vec::new(),
        };
        assert(loader.sched().1 =~= Seq::<(RequestKey, u64)>::empty());
        if n > 0 {
            assert(loader.catalog()[0] == paths@[0]@);
            let _ = loader.set(0);
        }
        loader
    }

    /// The current image.
    pub fn current(&self) -> (r: ImageRef)
        requires
            self.wf(),
            self.catalog().len() > 0,
        ensures
            r@ == self.catalog()[self.cursor() as int],
    {
        self.images[self.index].duplicate()
    }

    /// The image at `index`, if there is one.
    pub fn get(&self, index: usize) -> (r: Result<&ImageRef, LoaderError>)
        ensures
            index < self.catalog().len() ==> (r matches Ok(x) && x@ == self.catalog()[index as int]),
            index >= self.catalog().len() ==> r == Err::<&ImageRef, _>(LoaderError::NoImageAt(index)),
    {
        if index < self.images.len() {
            Ok(&self.images[index])
        } else {
            Err(LoaderError::NoImageAt(index))
        }
    }

    /// Number of images in the catalog.
    pub fn len(&self) -> (r: usize)
        ensures
            r == self.catalog().len(),
    {
        self.images.len()
    }

    /// Submits `req`: see `sched_submit`.
    pub fn request_image(&mut self, req: &ImageRequest)
        requires
            old(self).wf(),
        ensures
            final(self).wf(),
            final(self).catalog() == old(self).catalog(),
            final(self).cursor() == old(self).cursor(),
            final(self).radius() == old(self).radius(),
            final(self).sched() == sched_submit(old(self).sched(), req@),
    {
        match self.table.submit(req) {
            Some(task) => {
                self.queued.push(task);
                assert(self.sched().1 =~= old(self).sched().1.push(task@));
            },
            None => {},
        }
    }

    /// Moves the cursor to `index` and submits the NATIVE request for that image.
    /// An index outside the catalog is refused and changes nothing.
    pub fn set(&mut self, index: usize) -> (r: Result<(), LoaderError>)
        requires
            old(self).wf(),
        ensures
            final(self).wf(),
            final(self).catalog() == old(self).catalog(),
            final(self).radius() == old(self).radius(),
            index < old(self).catalog().len() ==> {
                &&& r is Ok
                &&& final(self).cursor() == index
                &&& final(self).sched() == sched_submit(
                    old(self).sched(),
                    (old(self).catalog()[index as int], ImageResolution::NATIVE),
                )
            },
            index >= old(self).catalog().len() ==> {
                &&& r == Err::<(), _>(LoaderError::NoImageAt(index))
                &&& final(self).cursor() == old(self).cursor()
                &&& final(self).sched() == old(self).sched()
            },
    {
        if index >= self.images.len() {
            return Err(LoaderError::NoImageAt(index));
        }
        self.index = index;
        let req = ImageRequest::new(self.images[index].duplicate(), ImageResolution::NATIVE);
        self.request_image(&req);
        Ok(())
    }

    /// Moves the cursor one image forward, wrapping round, and submits the NATIVE
    /// request for the new image. Refused on an empty catalog.
    pub fn next_image(&mut self) -> (r: Result<(), LoaderError>)
        requires
            old(self).wf(),
        ensures
            final(self).wf(),
            final(self).catalog() == old(self).catalog(),
            final(self).radius() == old(self).radius(),
            old(self).catalog().len() > 0 ==> {
                &&& r is Ok
                &&& final(self).cursor() == (old(self).cursor() + 1) % old(self).catalog().len()
                &&& final(self).sched() == sched_submit(
                    old(self).sched(),
                    (old(self).catalog()[final(self).cursor() as int], ImageResolution::NATIVE),
                )
            },
            old(self).catalog().len() == 0 ==> {
                &&& r == Err::<(), _>(LoaderError::EmptyCatalog)
                &&& final(self).cursor() == old(self).cursor()
                &&& final(self).sched() == old(self).sched()
            },
    {
        let n = self.images.len();
        if n == 0 {
            return Err(LoaderError::EmptyCatalog);
        }
        let next = if self.index + 1 == n {
            0
        } else {
            self.index + 1
        };
        proof {
            if self.index + 1 == n {
                lemma_mod_self_0(n as int);
            } else {
                lemma_small_mod((self.index + 1) as nat, n as nat);
            }
        }
        self.set(next)
    }

    /// Moves the cursor one image back, wrapping round, and submits the NATIVE
    /// request for the new image. Refused on an empty catalog.
    pub fn prev_image(&mut self) -> (r: Result<(), LoaderError>)
        requires
            old(self).wf(),
        ensures
            final(self).wf(),
            final(self).catalog() == old(self).catalog(),
            final(self).radius() == old(self).radius(),
            old(self).catalog().len() > 0 ==> {
                &&& r is Ok
                &&& final(self).cursor() == (old(self).cursor() + old(self).catalog().len() - 1)
                    % old(self).catalog().len() as int
                &&& final(self).sched() == sched_submit(
                    old(self).sched(),
                    (old(self).catalog()[final(self).cursor() as int], ImageResolution::NATIVE),
                )
            },
            old(self).catalog().len() == 0 ==> {
                &&& r == Err::<(), _>(LoaderError::EmptyCatalog)
                &&& final(self).cursor() == old(self).cursor()
                &&& final(self).sched() == old(self).sched()
            },
    {
        let n = self.images.len();
        if n == 0 {
            return Err(LoaderError::EmptyCatalog);
        }
        let prev = if self.index == 0 {
            n - 1
        } else {
            self.index - 1
        };
        proof {
            if self.index == 0 {
                lemma_small_mod((n - 1) as nat, n as nat);
            } else {
                lemma_mod_add_multiples_vanish((self.index - 1) as int, n as int);
                lemma_small_mod((self.index - 1) as nat, n as nat);
            }
        }
        self.set(prev)
    }

    /// The images of the locality window of radius `radius` around the cursor,
    /// closest first.
    pub fn get_radius(&self, radius: usize) -> (r: Vec<ImageRef>)
        requires
            self.wf(),
        ensures
            ref_views(r@) == window_refs(self.catalog(), self.cursor(), radius as nat),
    {
        let n = self.images.len();
        let mut out: Vec<ImageRef> = Vec::new();
        if n == 0 {
            assert(ref_views(out@) =~= Seq::<Seq<char>>::empty());
            return out;
        }
        let idxs = locality_window(n, self.index, radius);
        let ghost w = window_indices(n as int, self.index as int, radius as int);
        let m = idxs.len();
        let mut i: usize = 0;
        while i < m
            invariant
                n == self.images@.len(),
                n > 0,
                m == idxs@.len(),
                m == w.len(),
                w == window_indices(n as int, self.index as int, radius as int),
                forall|k: int| 0 <= k < m ==> #[trigger] idxs@[k] as int == w[k],
                forall|k: int| 0 <= k < m ==> #[trigger] idxs@[k] < n,
                0 <= i <= m,
                ref_views(out@) =~= w.take(i as int).map_values(|j: int| self.catalog()[j]),
            decreases m - i,
        {
            let idx = idxs[i];
            assert(idxs@[i as int] < n);
            let ghost before = out@;
            out.push(self.images[idx].duplicate());
            assert(ref_views(out@) =~= ref_views(before).push(self.catalog()[idx as int]));
            assert(w.take(i + 1) =~= w.take(i as int).push(w[i as int]));
            i += 1;
        }
        assert(w.take(m as int) =~= w);
        out
    }

    /// Submits the NATIVE request of every image of the locality window of
    /// radius `radius` around the cursor, closest first. Refused on an empty
    /// catalog.
    pub fn preload(&mut self, radius: usize) -> (r: Result<(), LoaderError>)
        requires
            old(self).wf(),
        ensures
            final(self).wf(),
            final(self).catalog() == old(self).catalog(),
            final(self).cursor() == old(self).cursor(),
            final(self).radius() == old(self).radius(),
            old(self).catalog().len() > 0 ==> {
                &&& r is Ok
                &&& final(self).sched() == sched_submit_all(
                    old(self).sched(),
                    at_resolution(
                        window_refs(old(self).catalog(), old(self).cursor(), radius as nat),
                        ImageResolution::NATIVE,
                    ),
                )
            },
            old(self).catalog().len() == 0 ==> {
                &&& r == Err::<(), _>(LoaderError::EmptyCatalog)
                &&& final(self).sched() == old(self).sched()
            },
    {
        if self.images.len() == 0 {
            return Err(LoaderError::EmptyCatalog);
        }
        let refs = self.get_radius(radius);
        let ghost keys = at_resolution(ref_views(refs@), ImageResolution::NATIVE);
        let m = refs.len();
        let mut i: usize = 0;
        while i < m
            invariant
                m == refs@.len(),
                keys == at_resolution(ref_views(refs@), ImageResolution::NATIVE),
                0 <= i <= m,
                self.wf(),
                self.catalog() == old(self).catalog(),
                self.cursor() == old(self).cursor(),
                self.radius() == old(self).radius(),
                self.sched() == sched_submit_all(old(self).sched(), keys.take(i as int)),
            decreases m - i,
        {
            let req = ImageRequest::new(refs[i].duplicate(), ImageResolution::NATIVE);
            self.request_image(&req);
            assert(keys.take(i + 1).drop_last() =~= keys.take(i as int));
            i += 1;
        }
        assert(keys.take(m as int) =~= keys);
        Ok(())
    }

    /// Submits the THUMBNAIL request of every image, in catalog order.
    pub fn load_all_thumbnails(&mut self) -> (r: Result<(), LoaderError>)
        requires
            old(self).wf(),
        ensures
            r is Ok,
            final(self).wf(),
            final(self).catalog() == old(self).catalog(),
            final(self).cursor() == old(self).cursor(),
            final(self).radius() == old(self).radius(),
            final(self).sched() == sched_submit_all(
                old(self).sched(),
                at_resolution(old(self).catalog(), ImageResolution::THUMBNAIL),
            ),
    {
        let ghost keys = at_resolution(self.catalog(), ImageResolution::THUMBNAIL);
        let n = self.images.len();
        let mut i: usize = 0;
        while i < n
            invariant
                n == old(self).catalog().len(),
                keys == at_resolution(old(self).catalog(), ImageResolution::THUMBNAIL),
                0 <= i <= n,
                self.wf(),
                self.catalog() == old(self).catalog(),
                self.cursor() == old(self).cursor(),
                self.radius() == old(self).radius(),
                self.sched() == sched_submit_all(old(self).sched(), keys.take(i as int)),
            decreases n - i,
        {
            let req = ImageRequest::new(self.images[i].duplicate(), ImageResolution::THUMBNAIL);
            self.request_image(&req);
            assert(keys.take(i + 1).drop_last() =~= keys.take(i as int));
            i += 1;
        }
        assert(keys.take(n as int) =~= keys);
        Ok(())
    }

    /// Prunes the request table to the locality window of radius `preload`
    /// around the cursor; THUMBNAIL entries are kept wherever they are.
    pub fn clear_cache(&mut self)
        requires
            old(self).wf(),
        ensures
            final(self).wf(),
            final(self).catalog() == old(self).catalog(),
            final(self).cursor() == old(self).cursor(),
            final(self).radius() == old(self).radius(),
            final(self).sched() == (
                after_prune(
                    old(self).sched().0,
                    window_refs(old(self).catalog(), old(self).cursor(), old(self).radius()),
                    ImageResolution::THUMBNAIL,
                ),
                old(self).sched().1,
            ),
    {
        let keep = self.get_radius(self.preload);
        self.table.prune(keep.as_slice(), ImageResolution::THUMBNAIL);
    }

    /// The requests the table tracks, in order of submission.
    pub fn cached(&self) -> (r: Vec<ImageRequest>)
        ensures
            request_views(r@) == table_keys(self.sched().0),
    {
        self.table.snapshot()
    }

    /// Hands out the queued decode tasks, oldest first, and empties the queue.
    pub fn take_tasks(&mut self) -> (r: Vec<DecodeTask>)
        requires
            old(self).wf(),
        ensures
            final(self).wf(),
            final(self).catalog() == old(self).catalog(),
            final(self).cursor() == old(self).cursor(),
            final(self).radius() == old(self).radius(),
            r@.map_values(|t: DecodeTask| t@) == old(self).sched().1,
            final(self).sched() == (old(self).sched().0, Seq::<(RequestKey, u64)>::empty()),
    {
        let mut tasks: Vec<DecodeTask> = Vec::new();
        std::mem::swap(&mut tasks, &mut self.queued);
        assert(self.sched().1 =~= Seq::<(RequestKey, u64)>::empty());
        tasks
    }

    /// The staleness check of a worker: whether `req` is still tracked.
    pub fn is_requested(&self, req: &ImageRequest) -> (r: bool)
        ensures
            r == tracks(self.sched().0, req@),
    {
        self.table.contains(req)
    }

    /// Reports the end of a worker's decode of `req`. When the result was
    /// delivered, the entry of `req`, if still tracked, becomes loaded; when it
    /// could not be delivered, nothing changes. Returns whether the entry changed.
    pub fn complete(&mut self, req: &ImageRequest, delivered: bool) -> (r: bool)
        requires
            old(self).wf(),
        ensures
            final(self).wf(),
            final(self).catalog() == old(self).catalog(),
            final(self).cursor() == old(self).cursor(),
            final(self).radius() == old(self).radius(),
            final(self).sched().1 == old(self).sched().1,
            final(self).sched().0 == if delivered {
                after_loaded(old(self).sched().0, req@)
            } else {
                old(self).sched().0
            },
            r == (delivered && tracks(old(self).sched().0, req@)),
    {
        if delivered {
            self.table.mark_loaded(req)
        } else {
            false
        }
    }
}

/// Submitting never tracks a request twice.
pub proof fn lemma_submit_keeps_keys_unique(s: Sched, ks: Seq<RequestKey>)
    requires
        keys_unique(s.0),
    ensures
        keys_unique(sched_submit_all(s, ks).0),
    decreases ks.len(),
{
    if ks.len() > 0 {
        lemma_submit_keeps_keys_unique(s, ks.drop_last());
    }
}

/// Deduplication: submitting the same request `n >= 1` times in a row, with no
/// delivery in between, has the effect of submitting it once. The table then
/// tracks it in exactly one entry, and at most one decode task is queued for it:
/// one if it was not tracked before, none if it was.
pub proof fn lemma_dedup(s: Sched, k: RequestKey, n: nat)
    requires
        keys_unique(s.0),
        n >= 1,
    ensures
        sched_submit_all(s, Seq::new(n, |i: int| k)) == sched_submit(s, k),
        keys_unique(sched_submit(s, k).0),
        tracks(sched_submit(s, k).0, k),
        sched_submit(s, k).1 == if tracks(s.0, k) {
            s.1
        } else {
            s.1.push((k, debounce_ms(pending_count(s.0))))
        },
    decreases n,
{
    if !tracks(s.0, k) {
        let t = s.0.push((k, LoadState::Pending));
        assert(t[s.0.len() as int].0 == k);
    }
    let one = sched_submit(s, k);
    assert(tracks(one.0, k));
    assert(sched_submit(one, k) == one);
    let ks = Seq::new(n, |i: int| k);
    assert(ks.last() == k);
    if n == 1 {
        assert(ks.drop_last() =~= Seq::<RequestKey>::empty());
        assert(sched_submit_all(s, ks.drop_last()) == s);
    } else {
        assert(ks.drop_last() =~= Seq::new((n - 1) as nat, |i: int| k));
        lemma_dedup(s, k, (n - 1) as nat);
        assert(sched_submit_all(s, ks.drop_last()) == one);
    }
    assert(sched_submit_all(s, ks) == sched_submit(sched_submit_all(s, ks.drop_last()), k));
}

/// Staleness: a request that pruning removed is no longer tracked, so the
/// staleness check of its worker fails and no decode is made; a delivery
/// reported for it afterwards leaves the table unchanged.
pub proof fn lemma_pruned_is_stale(
    t: TableView,
    keep: Seq<Seq<char>>,
    exempt: ImageResolution,
    k: RequestKey,
)
    requires
        !keep.contains(k.0),
        k.1 != exempt,
    ensures
        !tracks(after_prune(t, keep, exempt), k),
        after_loaded(after_prune(t, keep, exempt), k) == after_prune(t, keep, exempt),
{
    let f = after_prune(t, keep, exempt);
    assert forall|i: int| 0 <= i < f.len() implies f[i].0 != k by {
        t.lemma_filter_pred(|e: (RequestKey, LoadState)| survives(keep, exempt, e), i);
    }
    assert(after_loaded(f, k) =~= f);
}

} // verus!
