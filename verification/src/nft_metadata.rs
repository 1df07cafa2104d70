use vstd::prelude::*;

verus! {

/// One attribute of an NFT, after the OpenSea metadata standard.
#[derive(Clone, Debug, PartialEq, Eq, Default)]
pub struct Trait {
    pub display_type: Option<String>,
    pub trait_type: String,
    pub value: String,
}

/// The metadata that the NFT contract keeps with each token.
#[derive(Clone, Debug, PartialEq, Eq, Default)]
pub struct Metadata {
    pub image: Option<String>,
    pub image_data: Option<String>,
    pub external_url: Option<String>,
    pub description: Option<String>,
    pub name: Option<String>,
    pub attributes: Option<Vec<Trait>>,
    pub background_color: Option<String>,
    pub animation_url: Option<String>,
    pub youtube_url: Option<String>,
    pub timestamp: Option<u64>,
}

/// The extension that a token carries.
pub type Extension = Option<Metadata>;

} // verus!
