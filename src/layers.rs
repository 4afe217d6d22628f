use vstd::prelude::*;
use crate::image_loader::{
    after_prune, at_resolution, request_views, sched_submit_all, table_keys, tracks, window_refs,
    ImageLoader, ImageRef, ImageRequest, RequestKey, TableView,
};
use crate::texture::ImageResolution;

verus! {

/// How the pixels of an image are to be turned for display, as EXIF records it.
#[derive(Debug, Clone, Copy, PartialEq, Eq, Structural, Hash)]
pub enum Orientation {
    Unspecified,
    Normal,
    HorizontalFlip,
    Rotate180,
    VerticalFlip,
    Rotate90HorizontalFlip,
    Rotate90,
    Rotate90VerticalFlip,
    Rotate270,
}

/// A display-resident resource for one image at one resolution. `R` holds the
/// GPU-side resources, which are released when the layer is dropped.
pub struct Layer<R> {
    pub image_ref: ImageRef,
    pub resolution: ImageResolution,
    pub orientation: Orientation,
    pub resources: R,
}

/// The request a layer was made for.
pub open spec fn layer_key<R>(l: Layer<R>) -> RequestKey {
    (l.image_ref@, l.resolution)
}

/// The layers of `ls` made for any request but `k`.
pub open spec fn without_key<R>(ls: Seq<Layer<R>>, k: RequestKey) -> Seq<Layer<R>> {
    ls.filter(|m: Layer<R>| layer_key(m) != k)
}

/// The layers left after inserting `l` into `ls`: any layer for the same image
/// and resolution is dropped, and `l` comes last.
pub open spec fn after_insert<R>(ls: Seq<Layer<R>>, l: Layer<R>) -> Seq<Layer<R>> {
    without_key(ls, layer_key(l)).push(l)
}

/// The layers left after keeping only those made for one of `keep`.
pub open spec fn after_retain<R>(ls: Seq<Layer<R>>, keep: Seq<RequestKey>) -> Seq<Layer<R>> {
    ls.filter(|m: Layer<R>| keep.contains(layer_key(m)))
}

/// The cache of display-resident layers, at most one per image and resolution.
pub struct Layers<R> {
    layers: Vec<Layer<R>>,
}

impl<R> Layers<R> {
    /// The cached layers, oldest first.
    pub closed spec fn layers(&self) -> Seq<Layer<R>> {
        self.layers@
    }

    pub fn new() -> (r: Self)
        ensures
            r.layers() == Seq::<Layer<R>>::empty(),
    {
        Self { layers: Vec::new() }
    }

    /// Number of cached layers.
    pub fn len(&self) -> (r: usize)
        ensures
            r == self.layers().len(),
    {
        self.layers.len()
    }

    /// Whether some layer is cached for `iref`.
    pub fn contains_image(&self, iref: &ImageRef) -> (r: bool)
        ensures
            r == exists|i: int| 0 <= i < self.layers().len() && self.layers()[i].image_ref@ == iref@,
    {
        self.best_index(iref).is_some()
    }

    fn best_index(&self, iref: &ImageRef) -> (r: Option<usize>)
        ensures
            r is None <==> forall|j: int|
                0 <= j < self.layers().len() ==> self.layers()[j].image_ref@ != iref@,
            r matches Some(b) ==> {
                &&& b < self.layers().len()
                &&& self.layers()[b as int].image_ref@ == iref@
                &&& forall|j: int|
                    0 <= j < self.layers().len() && self.layers()[j].image_ref@ == iref@
                        ==> self.layers()[j].resolution.spec_rank()
                        <= self.layers()[b as int].resolution.spec_rank()
            },
    {
        let n = self.layers.len();
        let mut best: Option<usize> = None;
        let mut i: usize = 0;
        while i < n
            invariant
                n == self.layers().len(),
                0 <= i <= n,
                best is None ==> forall|j: int|
                    0 <= j < i ==> self.layers()[j].image_ref@ != iref@,
                best matches Some(b) ==> {
                    &&& b < i
                    &&& self.layers()[b as int].image_ref@ == iref@
                    &&& forall|j: int|
                        0 <= j < i && self.layers()[j].image_ref@ == iref@
                            ==> self.layers()[j].resolution.spec_rank()
                            <= self.layers()[b as int].resolution.spec_rank()
                },
            decreases n - i,
        {
            if self.layers[i].image_ref.same_as(iref) {
                match best {
                    None => {
                        best = Some(i);
                    },
                    Some(b) => {
                        if self.layers[i].resolution.is_better_than(&self.layers[b].resolution) {
                            best = Some(i);
                        }
                    },
                }
            }
            i += 1;
        }
        best
    }

    /// The layer of `iref` at the best resolution, if any layer is cached for it.
    pub fn get_layer(&self, iref: &ImageRef) -> (r: Option<&Layer<R>>)
        ensures
            r is None <==> forall|j: int|
                0 <= j < self.layers().len() ==> self.layers()[j].image_ref@ != iref@,
            r matches Some(l) ==> {
                &&& l.image_ref@ == iref@
                &&& self.layers().contains(*l)
                &&& forall|j: int|
                    0 <= j < self.layers().len() && self.layers()[j].image_ref@ == iref@
                        ==> self.layers()[j].resolution.spec_rank() <= l.resolution.spec_rank()
            },
    {
        match self.best_index(iref) {
            Some(b) => {
                let l = &self.layers[b];
                assert(self.layers()[b as int] == *l);
                Some(l)
            },
            None => None,
        }
    }

    /// Inserts `layer`. A layer cached for the same image and resolution is
    /// dropped, releasing its resources; layers at other resolutions stay.
    pub fn add_layer(&mut self, layer: Layer<R>)
        ensures
            final(self).layers() == after_insert(old(self).layers(), layer),
    {
        let ghost k = layer_key(layer);
        let ghost orig = self.layers@;
        let mut rest: Vec<Layer<R>> = Vec::new();
        std::mem::swap(&mut rest, &mut self.layers);
        let n = rest.len();
        let mut i: usize = 0;
        while i < n
            invariant
                n == orig.len(),
                k == layer_key(layer),
                0 <= i <= n,
                rest@ == orig.skip(i as int),
                self.layers@ == without_key(orig.take(i as int), k),
            decreases n - i,
        {
            proof {
                reveal(Seq::filter);
                assert(orig.take(i + 1).drop_last() =~= orig.take(i as int));
                assert(orig.take(i + 1).last() == orig[i as int]);
            }
            let m = rest.remove(0);
            assert(rest@ =~= orig.skip(i + 1));
            let same = m.image_ref.same_as(&layer.image_ref) && m.resolution == layer.resolution;
            assert(m == orig[i as int]);
            if !same {
                self.layers.push(m);
            }
            i += 1;
        }
        assert(orig.take(n as int) =~= orig);
        self.layers.push(layer);
    }

    /// Drops every layer whose image and resolution are not those of one of
    /// `reqs`. An image none of whose layers is kept has no layer left.
    pub fn retain(&mut self, reqs: &[ImageRequest])
        ensures
            final(self).layers() == after_retain(old(self).layers(), request_views(reqs@)),
    {
        let ghost keep = request_views(reqs@);
        let ghost orig = self.layers@;
        let mut rest: Vec<Layer<R>> = Vec::new();
        std::mem::swap(&mut rest, &mut self.layers);
        let n = rest.len();
        let mut i: usize = 0;
        while i < n
            invariant
                n == orig.len(),
                keep == request_views(reqs@),
                0 <= i <= n,
                rest@ == orig.skip(i as int),
                self.layers@ == after_retain(orig.take(i as int), keep),
            decreases n - i,
        {
            proof {
                reveal(Seq::filter);
                assert(orig.take(i + 1).drop_last() =~= orig.take(i as int));
                assert(orig.take(i + 1).last() == orig[i as int]);
            }
            let m = rest.remove(0);
            assert(rest@ =~= orig.skip(i + 1));
            let wanted = contains_request(reqs, &m.image_ref, m.resolution);
            if wanted {
                self.layers.push(m);
            }
            i += 1;
        }
        assert(orig.take(n as int) =~= orig);
    }
}

/// The prune cycle that follows each new layer: submits the NATIVE requests of
/// the locality window around the cursor (none for an empty catalog), prunes
/// the request table to that window (THUMBNAIL entries stay), then drops every
/// layer the table no longer tracks. Afterwards each cached layer was made for
/// a request the table tracks.
pub fn prune_cycle<R>(loader: &mut ImageLoader, layers: &mut Layers<R>)
    requires
        old(loader).wf(),
    ensures
        final(loader).wf(),
        final(loader).catalog() == old(loader).catalog(),
        final(loader).cursor() == old(loader).cursor(),
        final(loader).radius() == old(loader).radius(),
        ({
            let window = window_refs(old(loader).catalog(), old(loader).cursor(), old(loader).radius());
            let submitted = if old(loader).catalog().len() > 0 {
                sched_submit_all(old(loader).sched(), at_resolution(window, ImageResolution::NATIVE))
            } else {
                old(loader).sched()
            };
            final(loader).sched() == (
                after_prune(submitted.0, window, ImageResolution::THUMBNAIL),
                submitted.1,
            )
        }),
        final(layers).layers() == after_retain(
            old(layers).layers(),
            table_keys(final(loader).sched().0),
        ),
        forall|i: int|
            0 <= i < final(layers).layers().len() ==> tracks(
                final(loader).sched().0,
                layer_key(#[trigger] final(layers).layers()[i]),
            ),
{
    let radius = loader.preload_radius();
    let _ = loader.preload(radius);
    loader.clear_cache();
    let kept = loader.cached();
    layers.retain(kept.as_slice());
    proof {
        lemma_cross_tier(old(layers).layers(), loader.sched().0);
    }
}

/// Whether one of `reqs` is for `iref` at `resolution`.
fn contains_request(reqs: &[ImageRequest], iref: &ImageRef, resolution: ImageResolution) -> (b:
    bool)
    ensures
        b == request_views(reqs@).contains((iref@, resolution)),
{
    let n = reqs.len();
    let mut i: usize = 0;
    while i < n
        invariant
            n == reqs@.len(),
            0 <= i <= n,
            forall|j: int| 0 <= j < i ==> reqs@[j]@ != (iref@, resolution),
        decreases n - i,
    {
        if reqs[i].reference.same_as(iref) && reqs[i].resolution == resolution {
            assert(request_views(reqs@)[i as int] == (iref@, resolution));
            return true;
        }
        i += 1;
    }
    assert(!request_views(reqs@).contains((iref@, resolution))) by {
        if request_views(reqs@).contains((iref@, resolution)) {
            let j = choose|j: int| 0 <= j < n && request_views(reqs@)[j] == (iref@, resolution);
            assert(reqs@[j]@ == (iref@, resolution));
        }
    }
    false
}

/// Replace, not grow: after two layers for the same image and resolution are
/// inserted one after the other, the cache holds exactly one layer for that pair,
/// the later one; the earlier one is gone, and the cache is no larger than after
/// the first insertion.
pub proof fn lemma_replace_not_grow<R>(ls: Seq<Layer<R>>, first: Layer<R>, second: Layer<R>)
    requires
        layer_key(first) == layer_key(second),
    ensures
        after_insert(after_insert(ls, first), second).filter(
            |m: Layer<R>| layer_key(m) == layer_key(second),
        ) == seq![second],
        after_insert(after_insert(ls, first), second).len() == after_insert(ls, first).len(),
{
    let k = layer_key(second);
    let once = after_insert(ls, first);
    let rest = without_key(once, k);
    let twice = rest.push(second);
    reveal(Seq::filter);
    assert(once.drop_last() =~= without_key(ls, k));
    assert(rest == without_key(once.drop_last(), k));
    lemma_filter_drops_key(without_key(ls, k), k);
    assert(rest =~= without_key(ls, k));
    assert(twice.len() == once.len());
    lemma_no_key_filter_empty(rest, k);
    assert(twice.drop_last() =~= rest);
}

proof fn lemma_filter_drops_key<R>(s: Seq<Layer<R>>, k: RequestKey)
    requires
        forall|i: int| 0 <= i < s.len() ==> layer_key(#[trigger] s[i]) != k,
    ensures
        without_key(s, k) == s,
    decreases s.len(),
{
    reveal(Seq::filter);
    if s.len() > 0 {
        lemma_filter_drops_key(s.drop_last(), k);
        assert(s.drop_last().push(s.last()) =~= s);
    }
}

proof fn lemma_no_key_filter_empty<R>(s: Seq<Layer<R>>, k: RequestKey)
    requires
        forall|i: int| 0 <= i < s.len() ==> layer_key(#[trigger] s[i]) != k,
    ensures
        s.filter(|m: Layer<R>| layer_key(m) == k) == Seq::<Layer<R>>::empty(),
    decreases s.len(),
{
    reveal(Seq::filter);
    if s.len() > 0 {
        lemma_no_key_filter_empty(s.drop_last(), k);
    }
}

/// Cross-tier consistency: once the layer cache is pruned to the requests the
/// table tracks, every cached layer was made for a request the table still
/// tracks.
pub proof fn lemma_cross_tier<R>(ls: Seq<Layer<R>>, t: TableView)
    ensures
        forall|i: int|
            0 <= i < after_retain(ls, table_keys(t)).len() ==> tracks(
                t,
                layer_key(#[trigger] after_retain(ls, table_keys(t))[i]),
            ),
{
    let keep = table_keys(t);
    let f = after_retain(ls, keep);
    assert forall|i: int| 0 <= i < f.len() implies tracks(t, layer_key(#[trigger] f[i])) by {
        ls.lemma_filter_pred(|m: Layer<R>| keep.contains(layer_key(m)), i);
        let j = choose|j: int| 0 <= j < keep.len() && keep[j] == layer_key(f[i]);
        assert(t[j].0 == layer_key(f[i]));
    }
}

} // verus!
