use vstd::prelude::*;

verus! {

/// Handle on the audio service. Loading and playing sounds is the
/// platform's; the scene only decides when and how loud.
#[derive(Clone, Copy, Debug, PartialEq, Eq, Structural)]
pub struct Audio {}

impl Audio {
    pub fn new() -> (a: Audio)
        ensures
            a == (Audio {}),
    {
        Audio {}
    }
}

} // verus!
