//! Identity tokens for layouts and frames.

use vstd::prelude::*;

verus! {

/// `egui::Id`, carried through the library as an opaque token.
#[verifier::external_type_specification]
#[verifier::external_body]
pub struct ExId(egui::Id);

/// `Clone::clone` of `egui::Id`, which is a `Copy` type with a derived
/// `Clone`: the clone is the id itself.
pub assume_specification[ <egui::Id as Clone>::clone ](id: &egui::Id) -> (copy: egui::Id)
    ensures
        copy == *id,
;

/// Calls `rand::random::<u64>()`. The value comes from the thread's random
/// generator, so nothing is claimed of it.
#[verifier::external_body]
pub(crate) fn random_u64() -> (value: u64) {
    rand::random::<u64>()
}

/// Calls `egui::Id::new` on an integer source. The id is a hash whose value
/// depends on how the hasher was built, so nothing is claimed of it.
#[verifier::external_body]
pub(crate) fn id_from_source(source: u64) -> (id: egui::Id) {
    egui::Id::new(source)
}

/// A fresh identity token, derived from a random source.
pub fn fresh_id() -> (id: egui::Id) {
    let source: u64 = random_u64();
    id_from_source(source)
}

} // verus!
