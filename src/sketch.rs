//! The drawing surface: a stack of affine frames, the attributes of the next
//! path, and the document that receives each path drawn.

use vstd::prelude::*;
use crate::document::{Document, LayerID, paths_transformed, with_layer, with_path};
use crate::geom::{affine_product, compose, identity_affine, path_transformed};
use crate::path::{Color, Path, PathMetadata};

verus! {

/// The bit pattern of the `f64` value 0.05: the default flattening tolerance.
pub const DEFAULT_TOLERANCE_BITS: u64 = 0x3fa9_9999_9999_999a;

/// What became of a request to drop the current frame.
#[derive(Clone, Copy, Debug, PartialEq, Eq, Structural)]
pub enum PopOutcome {
    /// The current frame was dropped and the one below it is current again.
    Popped,
    /// Only the base frame was left; nothing was dropped.
    Underflow,
}

/// The frames `st` with `affine` composed onto the last one, in its local
/// frame: the last frame `t` becomes `t * affine`.
pub open spec fn composed_onto(st: Seq<kurbo::Affine>, affine: kurbo::Affine) -> Seq<kurbo::Affine> {
    st.drop_last().push(affine_product(st.last(), affine))
}

/// Two transforms in a row act in nested frames: the current frame `t`
/// becomes `(t * a) * b`, so `b` is applied to geometry first and `a` after
/// it, and the frames below the current one are untouched.
pub proof fn lemma_transforms_nest(st: Seq<kurbo::Affine>, a: kurbo::Affine, b: kurbo::Affine)
    requires
        st.len() >= 1,
    ensures
        composed_onto(composed_onto(st, a), b).len() == st.len(),
        composed_onto(composed_onto(st, a), b).last() == affine_product(affine_product(st.last(), a), b),
        composed_onto(composed_onto(st, a), b).drop_last() == st.drop_last(),
{
    assert(composed_onto(st, a).drop_last() =~= st.drop_last());
    assert(composed_onto(composed_onto(st, a), b).drop_last() =~= st.drop_last());
}

/// A push, of a copy or of any other frame, followed by a pop gives back the
/// frames as they were, and leaves at least one.
pub proof fn lemma_push_pop_restores(st: Seq<kurbo::Affine>, frame: kurbo::Affine)
    requires
        st.len() >= 1,
    ensures
        st.push(frame).len() > 1,
        st.push(frame).drop_last() == st,
        st.push(frame).drop_last().len() >= 1,
{
    assert(st.push(frame).drop_last() =~= st);
}

pub struct Sketch {
    document: Document,
    transform_stack: Vec<kurbo::Affine>,
    target_layer: LayerID,
    tolerance: u64,
    path_metadata: PathMetadata,
    identity: kurbo::Affine,
}

impl Sketch {
    /// The frames, base first; the last one is current.
    pub closed spec fn stack(&self) -> Seq<kurbo::Affine> {
        self.transform_stack@
    }

    /// The frame that the canvas started with and that a reset pushes.
    pub closed spec fn identity_spec(&self) -> kurbo::Affine {
        self.identity
    }

    pub open spec fn current(&self) -> kurbo::Affine {
        self.stack().last()
    }

    pub closed spec fn document_spec(&self) -> Document {
        self.document
    }

    pub closed spec fn target(&self) -> LayerID {
        self.target_layer
    }

    pub closed spec fn metadata(&self) -> PathMetadata {
        self.path_metadata
    }

    pub closed spec fn tolerance_spec(&self) -> u64 {
        self.tolerance
    }

    /// The stack is never empty, and the target layer exists.
    pub closed spec fn wf(&self) -> bool {
        &&& self.transform_stack@.len() >= 1
        &&& self.document.wf()
        &&& self.document@.contains_key(self.target_layer)
    }

    pub fn new() -> (s: Sketch)
        ensures
            s.wf(),
            s.stack() == seq![s.identity_spec()],
            s.document_spec()@ == Map::<LayerID, Seq<Path>>::empty().insert(0, Seq::empty()),
            s.document_spec().page_size_spec().is_none(),
            s.target() == 0,
            s.metadata() == PathMetadata::default_spec(),
            s.tolerance_spec() == DEFAULT_TOLERANCE_BITS,
    {
        Sketch::with_document(Document::new())
    }

    /// A canvas drawing into `document`, whose layer 0 is created if absent
    /// and is the target.
    pub fn with_document(document: Document) -> (s: Sketch)
        requires
            document.wf(),
        ensures
            s.wf(),
            s.stack() == seq![s.identity_spec()],
            s.document_spec()@ == with_layer(document@, 0),
            s.document_spec().page_size_spec() == document.page_size_spec(),
            s.target() == 0,
            s.metadata() == PathMetadata::default_spec(),
            s.tolerance_spec() == DEFAULT_TOLERANCE_BITS,
    {
        let mut document = document;
        let target_layer: LayerID = 0;
        document.ensure_exists(target_layer);
        let identity = identity_affine();
        let mut transform_stack: Vec<kurbo::Affine> = Vec::new();
        transform_stack.push(identity);
        Sketch {
            document,
            transform_stack,
            target_layer,
            tolerance: DEFAULT_TOLERANCE_BITS,
            path_metadata: PathMetadata::default(),
            identity,
        }
    }

    /// A well-formed canvas always has a current frame: no sequence of pushes
    /// and pops leaves it without one.
    pub proof fn lemma_stack_nonempty(&self)
        requires
            self.wf(),
        ensures
            self.stack().len() >= 1,
            self.document_spec()@.contains_key(self.target()),
    {
    }

    /// All but the frames are the same in `self` and `o`.
    pub open spec fn same_but_stack(&self, o: &Sketch) -> bool {
        &&& self.document_spec() == o.document_spec()
        &&& self.target() == o.target()
        &&& self.metadata() == o.metadata()
        &&& self.tolerance_spec() == o.tolerance_spec()
        &&& self.identity_spec() == o.identity_spec()
    }

    /// All but the attributes of the next path are the same in `self` and `o`.
    pub open spec fn same_but_metadata(&self, o: &Sketch) -> bool {
        &&& self.document_spec() == o.document_spec()
        &&& self.stack() == o.stack()
        &&& self.target() == o.target()
        &&& self.tolerance_spec() == o.tolerance_spec()
        &&& self.identity_spec() == o.identity_spec()
    }

    /// Makes `layer_id` the target of later paths, creating it if absent.
    pub fn set_layer(&mut self, layer_id: LayerID)
        requires
            old(self).wf(),
        ensures
            final(self).wf(),
            final(self).target() == layer_id,
            final(self).document_spec()@ == with_layer(old(self).document_spec()@, layer_id),
            final(self).document_spec().page_size_spec() == old(self).document_spec().page_size_spec(),
            final(self).stack() == old(self).stack(),
            final(self).metadata() == old(self).metadata(),
            final(self).tolerance_spec() == old(self).tolerance_spec(),
            final(self).identity_spec() == old(self).identity_spec(),
    {
        self.document.ensure_exists(layer_id);
        self.target_layer = layer_id;
    }

    /// Sets the document's page size.
    pub fn page_size(&mut self, size: kurbo::Size)
        requires
            old(self).wf(),
        ensures
            final(self).wf(),
            final(self).document_spec().page_size_spec() == Some(size),
            final(self).document_spec()@ == old(self).document_spec()@,
            final(self).stack() == old(self).stack(),
            final(self).target() == old(self).target(),
            final(self).metadata() == old(self).metadata(),
            final(self).tolerance_spec() == old(self).tolerance_spec(),
            final(self).identity_spec() == old(self).identity_spec(),
    {
        self.document.set_page_size(size);
    }

    /// Sets the colour of the paths drawn from now on.
    pub fn color(&mut self, color: Color)
        ensures
            final(self).metadata() == (PathMetadata { color, stroke_width: old(self).metadata().stroke_width }),
            final(self).same_but_metadata(old(self)),
            old(self).wf() ==> final(self).wf(),
    {
        self.path_metadata.color = color;
    }

    /// Sets the stroke width, as the bit pattern of an `f64`, of the paths
    /// drawn from now on.
    pub fn stroke_width(&mut self, width: u64)
        ensures
            final(self).metadata() == (PathMetadata { color: old(self).metadata().color, stroke_width: width }),
            final(self).same_but_metadata(old(self)),
            old(self).wf() ==> final(self).wf(),
    {
        self.path_metadata.stroke_width = width;
    }

    /// Sets the flattening tolerance, as the bit pattern of an `f64`.
    pub fn set_tolerance(&mut self, tolerance: u64)
        ensures
            final(self).tolerance_spec() == tolerance,
            final(self).document_spec() == old(self).document_spec(),
            final(self).stack() == old(self).stack(),
            final(self).target() == old(self).target(),
            final(self).metadata() == old(self).metadata(),
            final(self).identity_spec() == old(self).identity_spec(),
            old(self).wf() ==> final(self).wf(),
    {
        self.tolerance = tolerance;
    }

    /// The flattening tolerance, as the bit pattern of an `f64`.
    pub fn tolerance(&self) -> (r: u64)
        ensures
            r == self.tolerance_spec(),
    {
        self.tolerance
    }

    /// The attributes that the next path will be drawn with.
    pub fn path_metadata(&self) -> (r: PathMetadata)
        ensures
            r == self.metadata(),
    {
        self.path_metadata
    }

    /// Pushes a copy of the current frame, to be changed and later dropped.
    pub fn push_matrix(&mut self)
        requires
            old(self).wf(),
        ensures
            final(self).wf(),
            final(self).stack() == old(self).stack().push(old(self).current()),
            final(self).same_but_stack(old(self)),
    {
        let n = self.transform_stack.len();
        let top = self.transform_stack[n - 1];
        self.transform_stack.push(top);
    }

    /// Pushes a fresh identity frame, which shadows the frames below it until
    /// it is dropped.
    pub fn push_matrix_reset(&mut self)
        requires
            old(self).wf(),
        ensures
            final(self).wf(),
            final(self).stack() == old(self).stack().push(old(self).identity_spec()),
            final(self).same_but_stack(old(self)),
    {
        let identity = self.identity;
        self.transform_stack.push(identity);
    }

    /// Drops the current frame, so that the one below it is current again.
    /// The base frame is never dropped: with only that one left, nothing
    /// changes and the outcome says so.
    pub fn pop_matrix(&mut self) -> (r: PopOutcome)
        requires
            old(self).wf(),
        ensures
            final(self).wf(),
            final(self).same_but_stack(old(self)),
            old(self).stack().len() == 1 ==> r == PopOutcome::Underflow && final(self).stack() == old(self).stack(),
            old(self).stack().len() > 1 ==> r == PopOutcome::Popped && final(self).stack() == old(self).stack().drop_last(),
    {
        if self.transform_stack.len() == 1 {
            return PopOutcome::Underflow;
        }
        self.transform_stack.pop();
        PopOutcome::Popped
    }

    /// Composes `affine` onto the current frame: the current frame becomes
    /// `current * affine`, so that `affine` acts in the current local frame.
    pub fn transform(&mut self, affine: &kurbo::Affine)
        requires
            old(self).wf(),
        ensures
            final(self).wf(),
            final(self).stack() == composed_onto(old(self).stack(), *affine),
            final(self).same_but_stack(old(self)),
    {
        let n = self.transform_stack.len();
        let top = self.transform_stack[n - 1];
        let next = compose(top, *affine);
        self.transform_stack.set(n - 1, next);
        assert(self.transform_stack@ =~= old(self).stack().drop_last().push(affine_product(old(self).current(), *affine)));
    }

    /// Maps `path` through the current frame and appends it, with the current
    /// attributes, to the target layer.
    pub fn add_path(&mut self, path: kurbo::BezPath)
        requires
            old(self).wf(),
        ensures
            final(self).wf(),
            final(self).document_spec()@ == with_path(
                old(self).document_spec()@,
                old(self).target(),
                Path { data: path_transformed(old(self).current(), path), metadata: old(self).metadata() },
            ),
            final(self).document_spec().page_size_spec() == old(self).document_spec().page_size_spec(),
            final(self).stack() == old(self).stack(),
            final(self).target() == old(self).target(),
            final(self).metadata() == old(self).metadata(),
            final(self).tolerance_spec() == old(self).tolerance_spec(),
            final(self).identity_spec() == old(self).identity_spec(),
    {
        let n = self.transform_stack.len();
        let matrix = self.transform_stack[n - 1];
        let mut p = Path::new(path, self.path_metadata);
        p.apply_transform(matrix);
        self.document.push_path(self.target_layer, p);
    }

    /// The document drawn so far.
    pub fn document(&self) -> (r: &Document)
        ensures
            *r == self.document_spec(),
    {
        &self.document
    }

    /// Maps every path drawn so far through `affine`, whatever its layer; the
    /// frames are not involved.
    pub fn transform_document(&mut self, affine: kurbo::Affine)
        requires
            old(self).wf(),
        ensures
            final(self).wf(),
            final(self).document_spec()@ == old(self).document_spec()@.map_values(|s: Seq<Path>| paths_transformed(affine, s)),
            final(self).document_spec().keys() == old(self).document_spec().keys(),
            final(self).document_spec().page_size_spec() == old(self).document_spec().page_size_spec(),
            final(self).same_but_document(old(self)),
    {
        self.document.apply_transform(affine);
    }

    /// All but the document are the same in `self` and `o`.
    pub open spec fn same_but_document(&self, o: &Sketch) -> bool {
        &&& self.stack() == o.stack()
        &&& self.target() == o.target()
        &&& self.metadata() == o.metadata()
        &&& self.tolerance_spec() == o.tolerance_spec()
        &&& self.identity_spec() == o.identity_spec()
    }

    /// Gives the document up, drawing done.
    pub fn into_document(self) -> (r: Document)
        ensures
            r == self.document_spec(),
    {
        self.document
    }
}

impl Default for Sketch {
    fn default() -> (s: Sketch)
        ensures
            s.wf(),
            s.stack() == seq![s.identity_spec()],
            s.document_spec()@ == Map::<LayerID, Seq<Path>>::empty().insert(0, Seq::empty()),
            s.target() == 0,
            s.metadata() == PathMetadata::default_spec(),
    {
        Sketch::new()
    }
}

} // verus!
