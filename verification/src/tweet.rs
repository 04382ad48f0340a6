use vstd::prelude::*;

verus! {

/// One message delivered by the streaming collaborator: the record's
/// identifier and its body text, ready for segmentation. The adapter that
/// reads the wire format lives outside the library and converts into this
/// type.
#[derive(Debug)]
pub struct Tweet {
    pub id: String,
    pub text: String,
}

} // verus!
