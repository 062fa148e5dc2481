use crate::cenotaph::Cenotaph;
use crate::runestone::{Runestone, RunestoneModel};
use vstd::prelude::*;

verus! {

/// What a runestone output deciphers to: a well-formed runestone or a
/// cenotaph.
#[derive(Debug, PartialEq, Eq)]
pub enum Artifact {
    Cenotaph(Cenotaph),
    Runestone(Runestone),
}

/// An artifact, with the runestone's edicts as a sequence.
pub enum ArtifactModel {
    Cenotaph(Cenotaph),
    Runestone(RunestoneModel),
}

impl View for Artifact {
    type V = ArtifactModel;

    open spec fn view(&self) -> ArtifactModel {
        match self {
            Artifact::Cenotaph(c) => ArtifactModel::Cenotaph(*c),
            Artifact::Runestone(r) => ArtifactModel::Runestone(r@),
        }
    }
}

} // verus!
