use vstd::prelude::*;
use crate::image_loader::ImageRef;

verus! {

/// The tag that marks an image as starred.
pub const TAG_STARRED: &'static str = "starred";

/// User metadata of one image: its tags, each once, in the order they were added.
pub struct ImageMetadata {
    pub tags: Vec<String>,
}

impl View for ImageMetadata {
    type V = Seq<Seq<char>>;

    open spec fn view(&self) -> Seq<Seq<char>> {
        self.tags@.map_values(|t: String| t@)
    }
}

impl ImageMetadata {
    pub fn new() -> (r: Self)
        ensures
            r@ == Seq::<Seq<char>>::empty(),
    {
        let r = Self { tags: Vec::new() };
        assert(r@ =~= Seq::<Seq<char>>::empty());
        r
    }

    /// Adds `tag` at the end, unless it is already there.
    pub fn add_tag(&mut self, tag: String)
        ensures
            final(self)@ == if old(self)@.contains(tag@) {
                old(self)@
            } else {
                old(self)@.push(tag@)
            },
    {
        if !self.has_tag(tag.as_str()) {
            self.tags.push(tag);
            assert(self@ =~= old(self)@.push(tag@));
        }
    }

    /// Removes every occurrence of `tag`; the other tags keep their order.
    pub fn remove_tag(&mut self, tag: &str)
        ensures
            final(self)@ == old(self)@.filter(|t: Seq<char>| t != tag@),
    {
        let target = tag.to_string();
        let ghost orig = self@;
        let n = self.tags.len();
        let mut kept: Vec<String> = Vec::new();
        let mut i: usize = 0;
        while i < n
            invariant
                n == orig.len(),
                orig == self@,
                target@ == tag@,
                0 <= i <= n,
                kept@.map_values(|t: String| t@) == without_tag(orig.take(i as int), tag@),
            decreases n - i,
        {
            proof {
                reveal(Seq::filter);
                assert(orig.take(i + 1).drop_last() =~= orig.take(i as int));
                assert(orig.take(i + 1).last() == orig[i as int]);
                assert(orig[i as int] == self.tags@[i as int]@);
            }
            if self.tags[i] != target {
                let ghost before = kept@;
                kept.push(self.tags[i].clone());
                assert(kept@.map_values(|t: String| t@) =~= before.map_values(|t: String| t@).push(
                    orig[i as int],
                ));
            }
            i += 1;
        }
        assert(orig.take(n as int) =~= orig);
        self.tags = kept;
    }

    /// Whether `tag` is one of the tags.
    pub fn has_tag(&self, tag: &str) -> (r: bool)
        ensures
            r == self@.contains(tag@),
    {
        let target = tag.to_string();
        let n = self.tags.len();
        let mut i: usize = 0;
        while i < n
            invariant
                n == self.tags@.len(),
                target@ == tag@,
                0 <= i <= n,
                forall|j: int| 0 <= j < i ==> self@[j] != tag@,
            decreases n - i,
        {
            if self.tags[i] == target {
                assert(self@[i as int] == tag@);
                return true;
            }
            i += 1;
        }
        false
    }

    /// Removes `tag` if it is there, else adds it at the end.
    pub fn toggle_tag(&mut self, tag: String)
        ensures
            final(self)@ == if old(self)@.contains(tag@) {
                old(self)@.filter(|t: Seq<char>| t != tag@)
            } else {
                old(self)@.push(tag@)
            },
    {
        if self.has_tag(tag.as_str()) {
            self.remove_tag(tag.as_str());
        } else {
            self.add_tag(tag);
        }
    }
}

/// The tags of `s` other than `tag`, in their order.
pub open spec fn without_tag(s: Seq<Seq<char>>, tag: Seq<char>) -> Seq<Seq<char>> {
    s.filter(|t: Seq<char>| t != tag)
}

/// Index of the path `p` among `paths`.
pub open spec fn path_index(paths: Seq<Seq<char>>, p: Seq<char>) -> int {
    choose|i: int| 0 <= i < paths.len() && paths[i] == p
}

/// The metadata of the images, by path, and the file it is kept in.
pub struct Storage {
    path: String,
    paths: Vec<String>,
    metas: Vec<ImageMetadata>,
}

impl Storage {
    closed spec fn path_views(&self) -> Seq<Seq<char>> {
        self.paths@.map_values(|s: String| s@)
    }

    /// Each path has one metadata record, and no path appears twice.
    pub closed spec fn wf(&self) -> bool {
        &&& self.paths@.len() == self.metas@.len()
        &&& forall|i: int, j: int|
            0 <= i < j < self.paths@.len() ==> self.paths@[i]@ != self.paths@[j]@
    }

    /// The tags of each image that has metadata, by path.
    pub closed spec fn tags_map(&self) -> Map<Seq<char>, Seq<Seq<char>>> {
        Map::new(
            |p: Seq<char>| self.path_views().contains(p),
            |p: Seq<char>| self.metas@[path_index(self.path_views(), p)]@,
        )
    }

    /// The file the metadata is kept in.
    pub closed spec fn file(&self) -> Seq<char> {
        self.path@
    }

    /// Storage kept in the file `path`, with no metadata yet.
    pub fn with_path(path: String) -> (r: Self)
        ensures
            r.wf(),
            r.file() == path@,
            r.tags_map() == Map::<Seq<char>, Seq<Seq<char>>>::empty(),
    {
        let r = Self { path, paths: Vec::new(), metas: Vec::new() };
        assert(r.tags_map() =~= Map::<Seq<char>, Seq<Seq<char>>>::empty());
        r
    }

    /// The file the metadata is kept in.
    pub fn file_path(&self) -> (r: &String)
        ensures
            r@ == self.file(),
    {
        &self.path
    }

    proof fn lemma_index(&self, i: int)
        requires
            self.wf(),
            0 <= i < self.paths@.len(),
        ensures
            path_index(self.path_views(), self.path_views()[i]) == i,
    {
        let pv = self.path_views();
        assert(pv[i] == self.paths@[i]@);
        let j = path_index(pv, pv[i]);
        assert(0 <= j < pv.len() && pv[j] == pv[i]);
        assert(pv[j] == self.paths@[j]@);
    }

    fn find(&self, p: &String) -> (r: Option<usize>)
        requires
            self.wf(),
        ensures
            match r {
                Some(i) => i < self.paths@.len() && self.paths@[i as int]@ == p@,
                None => !self.path_views().contains(p@),
            },
    {
        let n = self.paths.len();
        let mut i: usize = 0;
        while i < n
            invariant
                n == self.paths@.len(),
                0 <= i <= n,
                forall|j: int| 0 <= j < i ==> self.paths@[j]@ != p@,
            decreases n - i,
        {
            if self.paths[i] == *p {
                return Some(i);
            }
            i += 1;
        }
        assert(!self.path_views().contains(p@)) by {
            if self.path_views().contains(p@) {
                let j = choose|j: int| 0 <= j < n && self.path_views()[j] == p@;
                assert(self.paths@[j]@ == p@);
            }
        }
        None
    }

    /// The metadata of `image_ref`, created empty if it has none yet.
    pub fn entry(&mut self, image_ref: &ImageRef) -> (r: &mut ImageMetadata)
        requires
            old(self).wf(),
        ensures
            final(self).wf(),
            final(self).file() == old(self).file(),
            r@ == if old(self).tags_map().contains_key(image_ref@) {
                old(self).tags_map()[image_ref@]
            } else {
                Seq::<Seq<char>>::empty()
            },
            final(self).tags_map() == old(self).tags_map().insert(image_ref@, final(r)@),
    {
        let i = match self.find(&image_ref.path) {
            Some(i) => i,
            None => {
                self.paths.push(image_ref.path.clone());
                self.metas.push(ImageMetadata::new());
                assert(self.path_views() =~= old(self).path_views().push(image_ref@));
                assert(self.wf()) by {
                    assert forall|a: int, b: int|
                        0 <= a < b < self.paths@.len() implies self.paths@[a]@
                        != self.paths@[b]@ by {
                        if b == self.paths@.len() - 1 {
                            assert(old(self).path_views()[a] == old(self).paths@[a]@);
                        }
                    }
                }
                proof {
                    let n = self.paths@.len() - 1;
                    let pv = self.path_views();
                    let opv = old(self).path_views();
                    self.lemma_index(n);
                    assert(pv[n] == image_ref@);
                    assert(self.metas@[n]@ == Seq::<Seq<char>>::empty());
                    assert forall|p: Seq<char>| #[trigger]
                        opv.contains(p) implies self.metas@[path_index(pv, p)]@ == old(
                        self,
                    ).metas@[path_index(opv, p)]@ by {
                        let j = choose|j: int| 0 <= j < opv.len() && opv[j] == p;
                        old(self).lemma_index(j);
                        self.lemma_index(j);
                        assert(pv[j] == p);
                    }
                    assert forall|p: Seq<char>|
                        pv.contains(p) <== opv.contains(p) || p == image_ref@ by {
                        if opv.contains(p) {
                            let j = choose|j: int| 0 <= j < opv.len() && opv[j] == p;
                            assert(pv[j] == p);
                        }
                        if p == image_ref@ {
                            assert(pv[n] == p);
                        }
                    }
                    assert forall|p: Seq<char>|
                        pv.contains(p) ==> opv.contains(p) || p == image_ref@ by {
                        if pv.contains(p) {
                            let j = choose|j: int| 0 <= j < pv.len() && pv[j] == p;
                            if j < n {
                                assert(opv[j] == p);
                            }
                        }
                    }
                    assert(self.tags_map() =~= old(self).tags_map().insert(
                        image_ref@,
                        Seq::<Seq<char>>::empty(),
                    ));
                }
                self.paths.len() - 1
            },
        };
        proof {
            self.lemma_index(i as int);
            self.lemma_update(i as int);
        }
        &mut self.metas[i]
    }

    /// Sets the metadata of the image at `path`, replacing any it had.
    pub fn insert(&mut self, path: String, metadata: ImageMetadata)
        requires
            old(self).wf(),
        ensures
            final(self).wf(),
            final(self).file() == old(self).file(),
            final(self).tags_map() == old(self).tags_map().insert(path@, metadata@),
    {
        let iref = ImageRef::new(path);
        let slot = self.entry(&iref);
        *slot = metadata;
    }

    /// The metadata of `image_ref`, if it has any.
    pub fn get(&self, image_ref: &ImageRef) -> (r: Option<&ImageMetadata>)
        requires
            self.wf(),
        ensures
            r is None <==> !self.tags_map().contains_key(image_ref@),
            r matches Some(m) ==> m@ == self.tags_map()[image_ref@],
    {
        match self.find(&image_ref.path) {
            Some(i) => {
                proof {
                    self.lemma_index(i as int);
                    assert(self.path_views()[i as int] == image_ref@);
                }
                Some(&self.metas[i])
            },
            None => None,
        }
    }

    /// The paths of the images that have metadata.
    pub fn paths(&self) -> (r: Vec<String>)
        ensures
            forall|p: Seq<char>|
                self.tags_map().contains_key(p) <==> r@.map_values(|s: String| s@).contains(p),
    {
        let n = self.paths.len();
        let mut out: Vec<String> = Vec::new();
        let mut i: usize = 0;
        while i < n
            invariant
                n == self.paths@.len(),
                0 <= i <= n,
                out@.map_values(|s: String| s@) =~= self.path_views().take(i as int),
            decreases n - i,
        {
            let ghost before = out@;
            out.push(self.paths[i].clone());
            assert(out@.map_values(|s: String| s@) =~= before.map_values(|s: String| s@).push(
                self.path_views()[i as int],
            ));
            i += 1;
        }
        assert(self.path_views().take(n as int) =~= self.path_views());
        out
    }

    proof fn lemma_update(&self, i: int)
        requires
            self.wf(),
            0 <= i < self.paths@.len(),
        ensures
            forall|m: ImageMetadata|
                #![trigger self.metas@.update(i, m)]
                Map::new(
                    |p: Seq<char>| self.path_views().contains(p),
                    |p: Seq<char>| self.metas@.update(i, m)[path_index(self.path_views(), p)]@,
                ) == self.tags_map().insert(self.paths@[i]@, m@),
    {
        assert forall|m: ImageMetadata| #![trigger self.metas@.update(i, m)]
            Map::new(
                |p: Seq<char>| self.path_views().contains(p),
                |p: Seq<char>| self.metas@.update(i, m)[path_index(self.path_views(), p)]@,
            ) == self.tags_map().insert(self.paths@[i]@, m@) by {
            self.lemma_index(i);
            assert forall|p: Seq<char>| #[trigger]
                self.path_views().contains(p) && p != self.paths@[i]@ implies path_index(
                self.path_views(),
                p,
            ) != i by {
                let j = choose|j: int| 0 <= j < self.paths@.len() && self.path_views()[j] == p;
                self.lemma_index(j);
            }
            assert(self.path_views()[i] == self.paths@[i]@);
            assert(Map::new(
                |p: Seq<char>| self.path_views().contains(p),
                |p: Seq<char>| self.metas@.update(i, m)[path_index(self.path_views(), p)]@,
            ) =~= self.tags_map().insert(self.paths@[i]@, m@));
        }
    }
}

} // verus!
