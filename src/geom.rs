//! The geometry types of `kurbo` that the canvas carries, and the few calls
//! into `kurbo` that its logic makes.

use vstd::prelude::*;

verus! {

#[verifier::external_type_specification]
#[verifier::external_body]
pub struct ExAffine(kurbo::Affine);

#[verifier::external_type_specification]
#[verifier::external_body]
pub struct ExBezPath(kurbo::BezPath);

#[verifier::external_type_specification]
#[verifier::external_body]
pub struct ExSize(kurbo::Size);

/// Relies on the derived `Clone` of `kurbo::BezPath`, which copies its
/// elements one for one.
pub assume_specification[ <kurbo::BezPath as core::clone::Clone>::clone ](p: &kurbo::BezPath) -> (r: kurbo::BezPath)
    ensures
        r == *p,
;

/// The product `a * b` of two affine maps as `kurbo` computes it: the map
/// that applies `b` first and `a` after.
pub uninterp spec fn affine_product(a: kurbo::Affine, b: kurbo::Affine) -> kurbo::Affine;

/// The path `p` with every one of its points mapped through `a`.
pub uninterp spec fn path_transformed(a: kurbo::Affine, p: kurbo::BezPath) -> kurbo::BezPath;

/// Relies on `kurbo::Affine::default`, which is `Affine::IDENTITY`.
#[verifier::external_body]
pub(crate) fn identity_affine() -> (r: kurbo::Affine) {
    kurbo::Affine::default()
}

/// Relies on `impl Mul for kurbo::Affine`: a product computed from the twelve
/// coefficients alone.
#[verifier::external_body]
pub(crate) fn compose(a: kurbo::Affine, b: kurbo::Affine) -> (r: kurbo::Affine)
    ensures
        r == affine_product(a, b),
{
    a * b
}

/// Relies on `kurbo::BezPath::apply_affine`, which maps each element of the
/// path through the affine map and keeps the elements' order.
#[verifier::external_body]
pub(crate) fn transform_path(p: &mut kurbo::BezPath, a: kurbo::Affine)
    ensures
        *final(p) == path_transformed(a, *old(p)),
{
    p.apply_affine(a);
}

} // verus!
