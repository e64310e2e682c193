use vstd::prelude::*;

verus! {

/// A validated token-registration record, the domain entity of the pipeline.
///
/// Produced only by a successful validation of one raw event payload;
/// never updated or deleted afterwards.
pub struct TokenRecord {
    pub owner_id: String,
    pub total_supply: String,
    pub spec_version: String,
    pub name: String,
    pub symbol: String,
    pub icon: Option<String>,
    pub reference: Option<String>,
    pub reference_hash: Option<Vec<u8>>,
    pub decimals: u8,
    pub image: String,
    pub description: String,
    pub auction_duration: String,
    pub min_buy_amount: String,
}

/// The mathematical image of a [`TokenRecord`]: every text field a sequence
/// of characters, the binary hash a sequence of bytes.
#[verifier::ext_equal]
pub struct TokenRecordV {
    pub owner_id: Seq<char>,
    pub total_supply: Seq<char>,
    pub spec_version: Seq<char>,
    pub name: Seq<char>,
    pub symbol: Seq<char>,
    pub icon: Option<Seq<char>>,
    pub reference: Option<Seq<char>>,
    pub reference_hash: Option<Seq<u8>>,
    pub decimals: u8,
    pub image: Seq<char>,
    pub description: Seq<char>,
    pub auction_duration: Seq<char>,
    pub min_buy_amount: Seq<char>,
}

pub open spec fn view_opt_str(o: Option<String>) -> Option<Seq<char>> {
    match o {
        Some(s) => Some(s@),
        None => None,
    }
}

pub open spec fn view_opt_bytes(o: Option<Vec<u8>>) -> Option<Seq<u8>> {
    match o {
        Some(v) => Some(v@),
        None => None,
    }
}

impl View for TokenRecord {
    type V = TokenRecordV;

    open spec fn view(&self) -> TokenRecordV {
        TokenRecordV {
            owner_id: self.owner_id@,
            total_supply: self.total_supply@,
            spec_version: self.spec_version@,
            name: self.name@,
            symbol: self.symbol@,
            icon: view_opt_str(self.icon),
            reference: view_opt_str(self.reference),
            reference_hash: view_opt_bytes(self.reference_hash),
            decimals: self.decimals,
            image: self.image@,
            description: self.description@,
            auction_duration: self.auction_duration@,
            min_buy_amount: self.min_buy_amount@,
        }
    }
}

fn clone_opt_string(o: &Option<String>) -> (r: Option<String>)
    ensures
        view_opt_str(r) == view_opt_str(*o),
{
    match o {
        Some(s) => Some(s.clone()),
        None => None,
    }
}

fn clone_opt_bytes(o: &Option<Vec<u8>>) -> (r: Option<Vec<u8>>)
    ensures
        view_opt_bytes(r) == view_opt_bytes(*o),
{
    match o {
        Some(v) => {
            let c = v.clone();
            proof {
                assert forall|i: int| 0 <= i < v@.len() implies c@[i] == v@[i] by {
                    assert(cloned::<u8>(v@[i], c@[i]));
                }
                assert(c@ =~= v@);
            }
            Some(c)
        },
        None => None,
    }
}

impl Clone for TokenRecord {
    /// A clone carries exactly the same field values.
    fn clone(&self) -> (r: Self)
        ensures
            r@ == self@,
    {
        TokenRecord {
            owner_id: self.owner_id.clone(),
            total_supply: self.total_supply.clone(),
            spec_version: self.spec_version.clone(),
            name: self.name.clone(),
            symbol: self.symbol.clone(),
            icon: clone_opt_string(&self.icon),
            reference: clone_opt_string(&self.reference),
            reference_hash: clone_opt_bytes(&self.reference_hash),
            decimals: self.decimals,
            image: self.image.clone(),
            description: self.description.clone(),
            auction_duration: self.auction_duration.clone(),
            min_buy_amount: self.min_buy_amount.clone(),
        }
    }
}

} // verus!
