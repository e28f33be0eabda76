//! The document: layers keyed by an integer id, each an ordered list of paths,
//! and the page size.

use vstd::prelude::*;
use crate::path::Path;
use crate::geom::path_transformed;

verus! {

/// The key of a layer.
pub type LayerID = usize;

/// A layer: its key and its paths, in the order in which they were drawn.
#[derive(Clone, Debug)]
pub struct Layer {
    pub id: LayerID,
    pub paths: Vec<Path>,
}

/// Layers in ascending order of key, keys unique, and an optional page size.
#[derive(Clone, Debug)]
pub struct Document {
    layers: Vec<Layer>,
    page_size: Option<kurbo::Size>,
}

/// `m` with the layer `id` present: unchanged where it already is, otherwise
/// with an empty layer added under that key.
pub open spec fn with_layer(m: Map<LayerID, Seq<Path>>, id: LayerID) -> Map<LayerID, Seq<Path>> {
    if m.contains_key(id) {
        m
    } else {
        m.insert(id, Seq::empty())
    }
}

/// `m` with `p` appended to the layer `id`, which is created if absent.
pub open spec fn with_path(m: Map<LayerID, Seq<Path>>, id: LayerID, p: Path) -> Map<LayerID, Seq<Path>> {
    with_layer(m, id).insert(id, with_layer(m, id)[id].push(p))
}

/// Creating a layer twice under one key leaves one layer with that key, as
/// after the first time, and every layer that was there keeps all its paths.
pub proof fn lemma_ensure_exists_idempotent(m: Map<LayerID, Seq<Path>>, id: LayerID)
    ensures
        with_layer(with_layer(m, id), id) == with_layer(m, id),
        with_layer(m, id).contains_key(id),
        with_layer(m, id).dom() == m.dom().insert(id),
        forall|k: LayerID| #[trigger] m.contains_key(k) ==> with_layer(m, id)[k] == m[k],
{
    assert(with_layer(m, id).dom() =~= m.dom().insert(id));
}

/// Appending a path changes no path that was there: each layer keeps its
/// paths, attributes included, at their places, and only the layer `id`
/// grows, by `p` at its end.
pub proof fn lemma_with_path_keeps_earlier(m: Map<LayerID, Seq<Path>>, id: LayerID, p: Path)
    ensures
        with_path(m, id, p).dom() == m.dom().insert(id),
        forall|k: LayerID| #[trigger] m.contains_key(k) && k != id ==> with_path(m, id, p)[k] == m[k],
        m.contains_key(id) ==> with_path(m, id, p)[id] == m[id].push(p),
        !m.contains_key(id) ==> with_path(m, id, p)[id] == seq![p],
{
    assert(with_path(m, id, p).dom() =~= m.dom().insert(id));
    if !m.contains_key(id) {
        assert(Seq::<Path>::empty().push(p) =~= seq![p]);
    }
}

/// The paths `s`, each with its points mapped through `a`.
pub open spec fn paths_transformed(a: kurbo::Affine, s: Seq<Path>) -> Seq<Path> {
    s.map_values(|p: Path| Path { data: path_transformed(a, p.data), metadata: p.metadata })
}

impl Document {
    /// Keys strictly ascend along the layer list.
    pub closed spec fn wf(&self) -> bool {
        forall|i: int, j: int|
            0 <= i < j < self.layers@.len() ==> self.layers@[i].id < self.layers@[j].id
    }

    pub closed spec fn has_key(&self, id: LayerID) -> bool {
        exists|i: int| 0 <= i < self.layers@.len() && self.layers@[i].id == id
    }

    pub closed spec fn index_of(&self, id: LayerID) -> int {
        choose|i: int| 0 <= i < self.layers@.len() && self.layers@[i].id == id
    }

    /// Each layer's key mapped to its paths.
    pub closed spec fn view(&self) -> Map<LayerID, Seq<Path>> {
        Map::new(|id: LayerID| self.has_key(id), |id: LayerID| self.layers@[self.index_of(id)].paths@)
    }

    /// The layer keys in the order in which the layers are kept.
    pub closed spec fn keys(&self) -> Seq<LayerID> {
        self.layers@.map_values(|l: Layer| l.id)
    }

    pub closed spec fn page_size_spec(&self) -> Option<kurbo::Size> {
        self.page_size
    }

    proof fn lemma_index_of(&self, i: int)
        requires
            self.wf(),
            0 <= i < self.layers@.len(),
        ensures
            self.has_key(self.layers@[i].id),
            self.index_of(self.layers@[i].id) == i,
            self@.contains_key(self.layers@[i].id),
            self@[self.layers@[i].id] == self.layers@[i].paths@,
    {
        let k = self.layers@[i].id;
        assert(self.has_key(k));
        let j = self.index_of(k);
        if j < i {
            assert(self.layers@[j].id < self.layers@[i].id);
        } else if j > i {
            assert(self.layers@[i].id < self.layers@[j].id);
        }
    }

    /// An empty document: no layer and no page size.
    pub fn new() -> (d: Document)
        ensures
            d.wf(),
            d@ == Map::<LayerID, Seq<Path>>::empty(),
            d.page_size_spec().is_none(),
    {
        let d = Document { layers: Vec::new(), page_size: None };
        assert(d@ =~= Map::<LayerID, Seq<Path>>::empty());
        d
    }

    /// The position of the first layer whose key is not below `id`, and
    /// whether that layer has the key `id`.
    fn position(&self, id: LayerID) -> (r: (usize, bool))
        requires
            self.wf(),
        ensures
            r.0 <= self.layers@.len(),
            forall|j: int| 0 <= j < r.0 ==> self.layers@[j].id < id,
            forall|j: int| r.0 <= j < self.layers@.len() ==> self.layers@[j].id >= id,
            r.1 == (r.0 < self.layers@.len() && self.layers@[r.0 as int].id == id),
            r.1 == self.has_key(id),
    {
        let mut i: usize = 0;
        while i < self.layers.len() && self.layers[i].id < id
            invariant
                self.wf(),
                i <= self.layers@.len(),
                forall|j: int| 0 <= j < i ==> self.layers@[j].id < id,
            decreases self.layers@.len() - i,
        {
            i = i + 1;
        }
        let found = i < self.layers.len() && self.layers[i].id == id;
        proof {
            assert forall|j: int| i <= j < self.layers@.len() implies self.layers@[j].id >= id by {
                if j > i {
                    assert(self.layers@[i as int].id < self.layers@[j].id);
                }
            }
            if self.has_key(id) {
                let w = choose|w: int| 0 <= w < self.layers@.len() && self.layers@[w].id == id;
                if w != i {
                    assert(false) by {
                        if w > i {
                            assert(self.layers@[i as int].id < self.layers@[w].id);
                        }
                    }
                }
            }
        }
        (i, found)
    }

    /// Creates the layer `id`, empty, if the document has none under that key.
    /// A layer that exists is left as it is, paths and all.
    pub fn ensure_exists(&mut self, id: LayerID)
        requires
            old(self).wf(),
        ensures
            final(self).wf(),
            final(self)@ == with_layer(old(self)@, id),
            final(self).page_size_spec() == old(self).page_size_spec(),
    {
        let (i, found) = self.position(id);
        if found {
            return;
        }
        let ghost before = *self;
        let fresh = Layer { id, paths: Vec::new() };
        let ghost fresh_spec = fresh;
        self.layers.insert(i, fresh);
        proof {
            assert(self.layers@ == before.layers@.insert(i as int, fresh_spec));
            assert(self.wf());
            let target = with_layer(before@, id);
            assert forall|k: LayerID| self@.contains_key(k) == target.contains_key(k) by {
                if self.has_key(k) {
                    let w = choose|w: int| 0 <= w < self.layers@.len() && self.layers@[w].id == k;
                    if w < i {
                        before.lemma_index_of(w);
                    } else if w > i {
                        before.lemma_index_of(w - 1);
                    }
                }
                if before.has_key(k) {
                    let w = choose|w: int| 0 <= w < before.layers@.len() && before.layers@[w].id == k;
                    if w < i {
                        self.lemma_index_of(w);
                    } else {
                        self.lemma_index_of(w + 1);
                    }
                }
                if k == id {
                    self.lemma_index_of(i as int);
                }
            }
            assert forall|k: LayerID| #[trigger] self@.contains_key(k) implies self@[k] == target[k] by {
                let w = choose|w: int| 0 <= w < self.layers@.len() && self.layers@[w].id == k;
                self.lemma_index_of(w);
                if w < i {
                    before.lemma_index_of(w);
                } else if w > i {
                    before.lemma_index_of(w - 1);
                }
            }
            assert(self@ =~= target);
        }
    }

    /// Appends `path` to the layer `id`, after the paths it already holds;
    /// the layer is created first if absent.
    pub fn push_path(&mut self, id: LayerID, path: Path)
        requires
            old(self).wf(),
        ensures
            final(self).wf(),
            final(self)@ == with_path(old(self)@, id, path),
            final(self).page_size_spec() == old(self).page_size_spec(),
    {
        self.ensure_exists(id);
        let ghost mid = *self;
        assert(self@.contains_key(id));
        assert(self.has_key(id));
        let (i, found) = self.position(id);
        assert(found);
        let ghost p = path;
        self.layers[i].paths.push(path);
        proof {
            assert(self.layers@.len() == mid.layers@.len());
            assert forall|j: int| 0 <= j < self.layers@.len() implies #[trigger] self.layers@[j].id == mid.layers@[j].id by {}
            assert(self.wf());
            let target = with_path(old(self)@, id, p);
            mid.lemma_index_of(i as int);
            assert forall|k: LayerID| self@.contains_key(k) == target.contains_key(k) by {
                if self.has_key(k) {
                    let w = choose|w: int| 0 <= w < self.layers@.len() && self.layers@[w].id == k;
                    mid.lemma_index_of(w);
                }
                if mid.has_key(k) {
                    let w = choose|w: int| 0 <= w < mid.layers@.len() && mid.layers@[w].id == k;
                    self.lemma_index_of(w);
                }
            }
            assert forall|k: LayerID| #[trigger] self@.contains_key(k) implies self@[k] == target[k] by {
                let w = choose|w: int| 0 <= w < self.layers@.len() && self.layers@[w].id == k;
                self.lemma_index_of(w);
                mid.lemma_index_of(w);
            }
            assert(self@ =~= target);
        }
    }

    /// Maps every point of every path through `affine`; layers, their order
    /// and the paths' attributes stay.
    pub fn apply_transform(&mut self, affine: kurbo::Affine)
        requires
            old(self).wf(),
        ensures
            final(self).wf(),
            final(self)@ == old(self)@.map_values(|s: Seq<Path>| paths_transformed(affine, s)),
            final(self).keys() == old(self).keys(),
            final(self).page_size_spec() == old(self).page_size_spec(),
    {
        let ghost before = *self;
        let mut i: usize = 0;
        while i < self.layers.len()
            invariant
                i <= self.layers@.len(),
                self.layers@.len() == before.layers@.len(),
                self.page_size == before.page_size,
                forall|j: int| 0 <= j < self.layers@.len() ==> #[trigger] self.layers@[j].id == before.layers@[j].id,
                forall|j: int| 0 <= j < i ==> #[trigger] self.layers@[j].paths@ == paths_transformed(affine, before.layers@[j].paths@),
                forall|j: int| i <= j < self.layers@.len() ==> #[trigger] self.layers@[j].paths@ == before.layers@[j].paths@,
            decreases self.layers@.len() - i,
        {
            let mut n: usize = 0;
            let ghost start = self.layers@[i as int].paths@;
            while n < self.layers[i].paths.len()
                invariant
                    i < self.layers@.len(),
                    n <= self.layers@[i as int].paths@.len(),
                    self.layers@.len() == before.layers@.len(),
                    self.page_size == before.page_size,
                    forall|j: int| 0 <= j < self.layers@.len() ==> #[trigger] self.layers@[j].id == before.layers@[j].id,
                    forall|j: int| 0 <= j < i ==> #[trigger] self.layers@[j].paths@ == paths_transformed(affine, before.layers@[j].paths@),
                    forall|j: int| i < j < self.layers@.len() ==> #[trigger] self.layers@[j].paths@ == before.layers@[j].paths@,
                    start == before.layers@[i as int].paths@,
                    self.layers@[i as int].paths@.len() == start.len(),
                    forall|q: int| 0 <= q < n ==> #[trigger] self.layers@[i as int].paths@[q] == (Path {
                        data: path_transformed(affine, start[q].data),
                        metadata: start[q].metadata,
                    }),
                    forall|q: int| n <= q < start.len() ==> #[trigger] self.layers@[i as int].paths@[q] == start[q],
                decreases start.len() - n,
            {
                self.layers[i].paths[n].apply_transform(affine);
                n = n + 1;
            }
            assert(self.layers@[i as int].paths@ =~= paths_transformed(affine, before.layers@[i as int].paths@));
            i = i + 1;
        }
        proof {
            assert(self.wf());
            assert(self.keys() =~= before.keys());
            let target = before@.map_values(|s: Seq<Path>| paths_transformed(affine, s));
            assert forall|k: LayerID| self@.contains_key(k) == target.contains_key(k) by {
                if self.has_key(k) {
                    let w = choose|w: int| 0 <= w < self.layers@.len() && self.layers@[w].id == k;
                    before.lemma_index_of(w);
                }
                if before.has_key(k) {
                    let w = choose|w: int| 0 <= w < before.layers@.len() && before.layers@[w].id == k;
                    self.lemma_index_of(w);
                }
            }
            assert forall|k: LayerID| #[trigger] self@.contains_key(k) implies self@[k] == target[k] by {
                let w = choose|w: int| 0 <= w < self.layers@.len() && self.layers@[w].id == k;
                self.lemma_index_of(w);
                before.lemma_index_of(w);
            }
            assert(self@ =~= target);
        }
    }

    /// The page size, if one was set.
    pub fn page_size(&self) -> (r: Option<kurbo::Size>)
        ensures
            r == self.page_size_spec(),
    {
        self.page_size
    }

    pub fn set_page_size(&mut self, size: kurbo::Size)
        ensures
            final(self).page_size_spec() == Some(size),
            final(self)@ == old(self)@,
            final(self).keys() == old(self).keys(),
            old(self).wf() ==> final(self).wf(),
    {
        self.page_size = Some(size);
    }

    /// The layers in ascending order of key.
    pub fn layers(&self) -> (r: &Vec<Layer>)
        requires
            self.wf(),
        ensures
            r@.map_values(|l: Layer| l.id) == self.keys(),
            forall|i: int, j: int| 0 <= i < j < r@.len() ==> r@[i].id < r@[j].id,
            forall|i: int| 0 <= i < r@.len() ==> self@.contains_key(#[trigger] r@[i].id) && self@[r@[i].id] == r@[i].paths@,
            forall|k: LayerID| #[trigger] self@.contains_key(k) ==> exists|i: int| 0 <= i < r@.len() && r@[i].id == k,
    {
        proof {
            assert forall|i: int| 0 <= i < self.layers@.len() implies self@.contains_key(#[trigger] self.layers@[i].id) && self@[self.layers@[i].id] == self.layers@[i].paths@ by {
                self.lemma_index_of(i);
            }
        }
        &self.layers
    }

    /// The paths of the layer `id`, in drawing order, if the layer exists.
    pub fn paths(&self, id: LayerID) -> (r: Option<&Vec<Path>>)
        requires
            self.wf(),
        ensures
            r.is_some() == self@.contains_key(id),
            r.is_some() ==> r.unwrap()@ == self@[id],
    {
        let (i, found) = self.position(id);
        if found {
            proof { self.lemma_index_of(i as int); }
            Some(&self.layers[i].paths)
        } else {
            None
        }
    }
}

impl Default for Document {
    fn default() -> (d: Document)
        ensures
            d.wf(),
            d@ == Map::<LayerID, Seq<Path>>::empty(),
            d.page_size_spec().is_none(),
    {
        Document::new()
    }
}

} // verus!
