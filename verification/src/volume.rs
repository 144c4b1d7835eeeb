use vstd::prelude::*;
use crate::chapter::{chapters_view, ChapterRef, ChapterView};

verus! {

/// A volume of a manga: its name and its chapters.
#[derive(Debug, Clone)]
pub struct Volume {
    pub name: String,
    pub chapters: Vec<ChapterRef>,
}

/// The plain view of a [`Volume`].
#[verifier::ext_equal]
pub struct VolumeView {
    pub name: Seq<char>,
    pub chapters: Seq<ChapterView>,
}

impl View for Volume {
    type V = VolumeView;

    open spec fn view(&self) -> VolumeView {
        VolumeView { name: self.name@, chapters: chapters_view(self.chapters@) }
    }
}

/// The views of a list of volumes.
pub open spec fn volumes_view(v: Seq<Volume>) -> Seq<VolumeView> {
    v.map_values(|x: Volume| x@)
}

} // verus!
