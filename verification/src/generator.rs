//! Witness generators.

use vstd::prelude::*;

verus! {

/// What is known of a witness generator outside its own code.
#[derive(Debug, PartialEq, Eq)]
pub struct WitnessGeneratorRef {
    /// The name of the generator.
    pub id: String,
    /// The parameters it was made with, in the generator's own encoding.
    pub params: Vec<u8>,
}

/// The value of a [`WitnessGeneratorRef`].
pub struct GeneratorView {
    pub id: Seq<char>,
    pub params: Seq<u8>,
}

impl View for WitnessGeneratorRef {
    type V = GeneratorView;

    open spec fn view(&self) -> GeneratorView {
        GeneratorView { id: self.id@, params: self.params@ }
    }
}

impl DeepView for WitnessGeneratorRef {
    type V = GeneratorView;

    open spec fn deep_view(&self) -> GeneratorView {
        self@
    }
}

} // verus!
