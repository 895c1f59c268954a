//! Transient per-cycle records extracted from a pod's live container
//! statuses.

use vstd::prelude::*;
use crate::image_reference::{ImageRefView, ImageReference};

verus! {

/// What one container status contributes to a reconciliation pass: its
/// name, its parsed image reference, and the live digest reported by the
/// runtime.
pub struct ContainerImageReference {
    pub container_name: String,
    pub image_reference: ImageReference,
    pub digest: String,
}

/// The model of a [`ContainerImageReference`].
pub struct ContainerImageReferenceView {
    pub container_name: Seq<char>,
    pub image_reference: ImageRefView,
    pub digest: Seq<char>,
}

impl View for ContainerImageReference {
    type V = ContainerImageReferenceView;

    open spec fn view(&self) -> ContainerImageReferenceView {
        ContainerImageReferenceView {
            container_name: self.container_name@,
            image_reference: self.image_reference@,
            digest: self.digest@,
        }
    }
}

} // verus!
