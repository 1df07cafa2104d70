use crate::msg::ContractStatus;
use crate::ido::utils::IdoError;
use vstd::prelude::*;

verus! {

#[derive(Clone, Debug, PartialEq, Eq)]
pub struct Trait {
    pub trait_type: String,
    pub value: String,
}

#[derive(Clone, Debug, PartialEq, Eq)]
pub struct Metadata {
    pub attributes: Option<Vec<Trait>>,
}

/// Questions put to the tier contract.
#[derive(Clone, Debug, PartialEq, Eq)]
pub enum TierContractQuery {
    Config {},
    UserInfo { address: String },
}

/// Answers of the tier contract.
#[derive(Clone, Debug, PartialEq, Eq)]
pub enum TierResponse {
    UserInfo { tier: u8 },
    Config {
        admin: String,
        validator: String,
        status: ContractStatus,
        usd_deposits: Vec<u128>,
        min_tier: u8,
    },
}

/// An NFT as the NFT contract describes it: who owns it and its metadata.
#[derive(Clone, Debug, PartialEq, Eq)]
pub struct NftInfo {
    pub owner: String,
    pub extension: Metadata,
}

/// What `str::to_lowercase` gives for a string: its Unicode lowercase form.
pub uninterp spec fn spec_to_lowercase(s: Seq<char>) -> Seq<char>;

/// `str::to_lowercase` (std). Claimed: the result is the name above applied to
/// the string's characters; nothing more is said of the Unicode case mapping.
#[verifier::external_body]
fn to_lowercase(s: &String) -> (lower: String)
    ensures
        lower@ == spec_to_lowercase(s@),
{
    s.to_lowercase()
}

/// The tier that an "id" attribute's value grants.
pub open spec fn id_value_tier(value: Seq<char>) -> u8 {
    if value == "XYZA"@ {
        1
    } else if value == "XYZB"@ {
        2
    } else if value == "XYZC"@ {
        3
    } else if value == "XYZD"@ {
        4
    } else {
        5
    }
}

/// The tier that the attributes from position `i` on grant, given their
/// lowercased trait types: the first attribute whose type reads "id" decides,
/// and without one the tier is 4.
pub open spec fn attributes_tier(attrs: Seq<Trait>, lowered: Seq<Seq<char>>, i: int) -> u8
    decreases attrs.len() - i,
{
    if i < 0 || i >= attrs.len() {
        4
    } else if lowered[i] == "id"@ {
        id_value_tier(attrs[i].value@)
    } else {
        attributes_tier(attrs, lowered, i + 1)
    }
}

/// Every tier that attributes grant is between 1 and 5.
pub proof fn lemma_id_value_tier_range(value: Seq<char>)
    ensures
        1 <= id_value_tier(value) <= 5,
{
}

/// The first attribute whose lowercased type reads "id" decides the tier by
/// its value; without one the tier is 4.
pub proof fn lemma_first_id_attribute_decides(attrs: Seq<Trait>, lowered: Seq<Seq<char>>, i: int)
    requires
        0 <= i <= attrs.len(),
        forall|j: int| 0 <= j < i ==> lowered[j] != "id"@,
    ensures
        i < attrs.len() && lowered[i] == "id"@ ==> attributes_tier(attrs, lowered, 0)
            == id_value_tier(attrs[i].value@),
        i == attrs.len() ==> attributes_tier(attrs, lowered, 0) == 4,
    decreases i,
{
    lemma_skip_non_id_attributes(attrs, lowered, i);
}

proof fn lemma_skip_non_id_attributes(attrs: Seq<Trait>, lowered: Seq<Seq<char>>, i: int)
    requires
        0 <= i <= attrs.len(),
        forall|j: int| 0 <= j < i ==> lowered[j] != "id"@,
    ensures
        attributes_tier(attrs, lowered, 0) == attributes_tier(attrs, lowered, i),
    decreases i,
{
    if i > 0 {
        lemma_skip_non_id_attributes(attrs, lowered, i - 1);
        assert(lowered[i - 1] != "id"@);
    }
}

/// The attributes of some metadata, none where it has none.
pub open spec fn metadata_attributes(metadata: Metadata) -> Seq<Trait> {
    match metadata.attributes {
        Some(a) => a@,
        None => Seq::empty(),
    }
}

/// The tier that some metadata grants.
pub open spec fn metadata_tier(metadata: Metadata) -> u8 {
    let attrs = metadata_attributes(metadata);
    attributes_tier(attrs, attrs.map_values(|t: Trait| spec_to_lowercase(t.trait_type@)), 0)
}

fn value_tier(value: &String) -> (tier: u8)
    ensures
        tier == id_value_tier(value@),
{
    let a = String::from_str("XYZA");
    let b = String::from_str("XYZB");
    let c = String::from_str("XYZC");
    let d = String::from_str("XYZD");
    if *value == a {
        1
    } else if *value == b {
        2
    } else if *value == c {
        3
    } else if *value == d {
        4
    } else {
        5
    }
}

/// The tier that attributes grant, given their trait types already lowercased.
pub fn tier_from_attributes(attributes: &Vec<Trait>, lowered: &Vec<String>) -> (tier: u8)
    requires
        lowered@.len() == attributes@.len(),
    ensures
        tier == attributes_tier(attributes@, lowered@.map_values(|s: String| s@), 0),
{
    let ghost low = lowered@.map_values(|s: String| s@);
    let id = String::from_str("id");
    let n = attributes.len();
    for i in 0..n
        invariant
            n == attributes@.len(),
            lowered@.len() == n,
            low == lowered@.map_values(|s: String| s@),
            id@ == "id"@,
            attributes_tier(attributes@, low, 0) == attributes_tier(attributes@, low, i as int),
    {
        if lowered[i] == id {
            return value_tier(&attributes[i].value);
        }
    }
    4
}

/// The tier that an NFT's metadata grants: the value of the first attribute
/// whose type, lowercased, is "id" ("XYZA" gives 1, "XYZB" 2, "XYZC" 3,
/// "XYZD" 4, anything else 5), or 4 where no attribute has that type.
pub fn find_tier_in_metadata(metadata: &Metadata) -> (tier: Option<u8>)
    ensures
        tier == Some(metadata_tier(*metadata)),
{
    let empty: Vec<Trait> = Vec::new();
    let attributes: &Vec<Trait> = match &metadata.attributes {
        Some(a) => a,
        None => &empty,
    };
    let ghost attrs = attributes@;
    assert(attrs == metadata_attributes(*metadata));
    let mut lowered: Vec<String> = Vec::new();
    let n = attributes.len();
    for i in 0..n
        invariant
            n == attrs.len(),
            attributes@ == attrs,
            lowered@.len() == i,
            forall|j: int| 0 <= j < i ==> (#[trigger] lowered@[j])@ == spec_to_lowercase(
                attrs[j].trait_type@,
            ),
    {
        lowered.push(to_lowercase(&attributes[i].trait_type));
    }
    let tier = tier_from_attributes(attributes, &lowered);
    proof {
        assert(lowered@.map_values(|s: String| s@) =~= attrs.map_values(
            |t: Trait| spec_to_lowercase(t.trait_type@),
        ));
    }
    Some(tier)
}

/// The best tier that the address's NFTs among the first `k` grant, starting from 5.
pub open spec fn nft_tier(address: Seq<char>, nfts: Seq<NftInfo>, k: int) -> u8
    decreases k,
{
    if k <= 0 {
        5
    } else {
        let before = nft_tier(address, nfts, k - 1);
        if nfts[k - 1].owner@ == address && metadata_tier(nfts[k - 1].extension) < before {
            metadata_tier(nfts[k - 1].extension)
        } else {
            before
        }
    }
}

/// The NFT tier is the best of 5 and the tiers of the NFTs that the address
/// owns: no owned NFT grants a better one, and it is 5 or the tier of one of
/// them; NFTs of others play no part.
pub proof fn lemma_nft_tier_is_best_owned(address: Seq<char>, nfts: Seq<NftInfo>, k: int)
    requires
        0 <= k <= nfts.len(),
    ensures
        nft_tier(address, nfts, k) <= 5,
        forall|j: int| 0 <= j < k && (#[trigger] nfts[j]).owner@ == address
            ==> nft_tier(address, nfts, k) <= metadata_tier(nfts[j].extension),
        nft_tier(address, nfts, k) == 5 || exists|j: int| 0 <= j < k && (#[trigger] nfts[j]).owner@
            == address && metadata_tier(nfts[j].extension) == nft_tier(address, nfts, k),
    decreases k,
{
    if k > 0 {
        lemma_nft_tier_is_best_owned(address, nfts, k - 1);
        let before = nft_tier(address, nfts, k - 1);
        if nft_tier(address, nfts, k) != 5 && nft_tier(address, nfts, k) != before {
            assert(nfts[k - 1].owner@ == address);
            assert(metadata_tier(nfts[k - 1].extension) == nft_tier(address, nfts, k));
        }
    }
}

/// The best tier that the NFTs owned by the address grant, 5 where none grants a better one.
pub fn get_tier_from_nft_contract(address: &String, nfts: &Vec<NftInfo>) -> (tier: Option<u8>)
    ensures
        tier == Some(nft_tier(address@, nfts@, nfts@.len() as int)),
{
    let mut result_tier: u8 = 5;
    let n = nfts.len();
    for i in 0..n
        invariant
            n == nfts@.len(),
            result_tier == nft_tier(address@, nfts@, i as int),
    {
        let nft = &nfts[i];
        if nft.owner == *address {
            let tier = find_tier_in_metadata(&nft.extension);
            if let Some(tier) = tier {
                if tier < result_tier {
                    result_tier = tier;
                }
            }
        }
    }
    Some(result_tier)
}

/// The tier from the tier contract's answer, which must be a user's.
pub fn get_tier_from_tier_contract(answer: &TierResponse) -> (res: Result<u8, IdoError>)
    ensures
        *answer matches TierResponse::UserInfo { tier } ==> res == Ok::<u8, IdoError>(tier),
        answer is Config ==> res == Err::<u8, IdoError>(IdoError::CannotGetTier),
{
    match answer {
        TierResponse::UserInfo { tier } => Ok(*tier),
        _ => Err(IdoError::CannotGetTier),
    }
}

/// A user's tier: the tier contract's, bettered by the NFT tier where that is better.
pub fn get_tier(tier_answer: &TierResponse, nft_tier: Option<u8>) -> (res: Result<u8, IdoError>)
    ensures
        tier_answer is Config ==> res == Err::<u8, IdoError>(IdoError::CannotGetTier),
        *tier_answer matches TierResponse::UserInfo { tier } ==> res == Ok::<u8, IdoError>(
            match nft_tier {
                Some(t) => if t < tier { t } else { tier },
                None => tier,
            },
        ),
{
    let mut tier = match get_tier_from_tier_contract(tier_answer) {
        Ok(t) => t,
        Err(e) => {
            return Err(e);
        },
    };
    if let Some(nft_tier) = nft_tier {
        if nft_tier < tier {
            tier = nft_tier;
        }
    }
    Ok(tier)
}

/// The worst tier, from the tier contract's answer, which must be its configuration.
pub fn get_min_tier(answer: &TierResponse) -> (res: Result<u8, IdoError>)
    ensures
        *answer matches TierResponse::Config { min_tier, .. } ==> res == Ok::<u8, IdoError>(min_tier),
        answer is UserInfo ==> res == Err::<u8, IdoError>(IdoError::CannotGetMinTier),
{
    match answer {
        TierResponse::Config { min_tier, .. } => Ok(*min_tier),
        _ => Err(IdoError::CannotGetMinTier),
    }
}

} // verus!
