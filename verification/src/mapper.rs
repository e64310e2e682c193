use crate::payload::{lookup_field, RawField, RawFieldV, RawObject, RawValue, RawValueV};
use crate::record::{TokenRecord, TokenRecordV};
use vstd::prelude::*;

verus! {

/// Why a raw payload was rejected: the payload held no element, or a field
/// of its first element was absent or ill-typed. The error names the field.
#[derive(Debug)]
pub enum ValidationError {
    MissingElement,
    MissingField(String),
    InvalidField(String),
}

/// The mathematical image of a [`ValidationError`].
pub enum ValidationErrorV {
    MissingElement,
    MissingField(Seq<char>),
    InvalidField(Seq<char>),
}

impl View for ValidationError {
    type V = ValidationErrorV;

    open spec fn view(&self) -> ValidationErrorV {
        match self {
            ValidationError::MissingElement => ValidationErrorV::MissingElement,
            ValidationError::MissingField(s) => ValidationErrorV::MissingField(s@),
            ValidationError::InvalidField(s) => ValidationErrorV::InvalidField(s@),
        }
    }
}

/// What the standard base64 engine decodes a text to, if it decodes at all.
/// The outcome depends on the characters alone.
pub uninterp spec fn base64_decode_of(s: Seq<char>) -> Option<Seq<u8>>;

/// Relies on base64's `Engine::decode` with the `STANDARD` engine: decoding
/// is a pure function of the input text, succeeding exactly on well-formed
/// standard-alphabet, padded base64.
#[verifier::external_body]
fn base64_decode(s: &String) -> (r: Option<Vec<u8>>)
    ensures
        match r {
            Some(b) => base64_decode_of(s@) == Some(b@),
            None => base64_decode_of(s@) is None,
        },
{
    match base64::Engine::decode(&base64::engine::general_purpose::STANDARD, s.as_str()) {
        Ok(b) => Some(b),
        Err(_) => None,
    }
}

/// A required text field: present and textual, else an error naming it.
pub open spec fn req_str(fields: Seq<RawFieldV>, name: Seq<char>) -> Result<
    Seq<char>,
    ValidationErrorV,
> {
    match lookup_field(fields, name) {
        Some(RawValueV::Str(s)) => Ok(s),
        Some(RawValueV::Null) => Err(ValidationErrorV::MissingField(name)),
        None => Err(ValidationErrorV::MissingField(name)),
        Some(_) => Err(ValidationErrorV::InvalidField(name)),
    }
}

/// An optional text field: absent (or null) is permitted, a non-text shape is not.
pub open spec fn opt_str(fields: Seq<RawFieldV>, name: Seq<char>) -> Result<
    Option<Seq<char>>,
    ValidationErrorV,
> {
    match lookup_field(fields, name) {
        Some(RawValueV::Str(s)) => Ok(Some(s)),
        Some(RawValueV::Null) => Ok(None),
        None => Ok(None),
        Some(_) => Err(ValidationErrorV::InvalidField(name)),
    }
}

/// The decimals field: an integer representable as an unsigned byte.
pub open spec fn req_decimals(fields: Seq<RawFieldV>, name: Seq<char>) -> Result<
    u8,
    ValidationErrorV,
> {
    match lookup_field(fields, name) {
        Some(RawValueV::Int(i)) => if 0 <= i <= 255 {
            Ok(i as u8)
        } else {
            Err(ValidationErrorV::InvalidField(name))
        },
        Some(RawValueV::Null) => Err(ValidationErrorV::MissingField(name)),
        None => Err(ValidationErrorV::MissingField(name)),
        Some(_) => Err(ValidationErrorV::InvalidField(name)),
    }
}

/// The optional reference hash: when present it must be text that decodes
/// from base64 to bytes.
pub open spec fn opt_hash(fields: Seq<RawFieldV>, name: Seq<char>) -> Result<
    Option<Seq<u8>>,
    ValidationErrorV,
> {
    match lookup_field(fields, name) {
        Some(RawValueV::Str(s)) => match base64_decode_of(s) {
            Some(b) => Ok(Some(b)),
            None => Err(ValidationErrorV::InvalidField(name)),
        },
        Some(RawValueV::Null) => Ok(None),
        None => Ok(None),
        Some(_) => Err(ValidationErrorV::InvalidField(name)),
    }
}

/// What validating one payload element yields: the checks run in a fixed
/// order and the first failure names its field.
pub open spec fn map_object_spec(fields: Seq<RawFieldV>) -> Result<
    TokenRecordV,
    ValidationErrorV,
> {
    if req_str(fields, "owner_id"@) is Err {
        Err(req_str(fields, "owner_id"@)->Err_0)
    } else if req_str(fields, "total_supply"@) is Err {
        Err(req_str(fields, "total_supply"@)->Err_0)
    } else if req_str(fields, "spec"@) is Err {
        Err(req_str(fields, "spec"@)->Err_0)
    } else if req_str(fields, "name"@) is Err {
        Err(req_str(fields, "name"@)->Err_0)
    } else if req_str(fields, "symbol"@) is Err {
        Err(req_str(fields, "symbol"@)->Err_0)
    } else if opt_str(fields, "icon"@) is Err {
        Err(opt_str(fields, "icon"@)->Err_0)
    } else if opt_str(fields, "reference"@) is Err {
        Err(opt_str(fields, "reference"@)->Err_0)
    } else if opt_hash(fields, "reference_hash"@) is Err {
        Err(opt_hash(fields, "reference_hash"@)->Err_0)
    } else if req_decimals(fields, "decimals"@) is Err {
        Err(req_decimals(fields, "decimals"@)->Err_0)
    } else if req_str(fields, "image"@) is Err {
        Err(req_str(fields, "image"@)->Err_0)
    } else if req_str(fields, "description"@) is Err {
        Err(req_str(fields, "description"@)->Err_0)
    } else if req_str(fields, "auction_duration"@) is Err {
        Err(req_str(fields, "auction_duration"@)->Err_0)
    } else if req_str(fields, "min_buy_amount"@) is Err {
        Err(req_str(fields, "min_buy_amount"@)->Err_0)
    } else {
        Ok(TokenRecordV {
            owner_id: req_str(fields, "owner_id"@)->Ok_0,
            total_supply: req_str(fields, "total_supply"@)->Ok_0,
            spec_version: req_str(fields, "spec"@)->Ok_0,
            name: req_str(fields, "name"@)->Ok_0,
            symbol: req_str(fields, "symbol"@)->Ok_0,
            icon: opt_str(fields, "icon"@)->Ok_0,
            reference: opt_str(fields, "reference"@)->Ok_0,
            reference_hash: opt_hash(fields, "reference_hash"@)->Ok_0,
            decimals: req_decimals(fields, "decimals"@)->Ok_0,
            image: req_str(fields, "image"@)->Ok_0,
            description: req_str(fields, "description"@)->Ok_0,
            auction_duration: req_str(fields, "auction_duration"@)->Ok_0,
            min_buy_amount: req_str(fields, "min_buy_amount"@)->Ok_0,
        })
    }
}

/// What validating a whole payload yields: its first element validated, or a
/// rejection when the payload holds no element.
pub open spec fn map_spec(data: Seq<Seq<RawFieldV>>) -> Result<TokenRecordV, ValidationErrorV> {
    if data.len() == 0 {
        Err(ValidationErrorV::MissingElement)
    } else {
        map_object_spec(data.first())
    }
}

fn get_req_str(obj: &RawObject, name: &String) -> (r: Result<String, ValidationError>)
    ensures
        match r {
            Ok(s) => req_str(obj@, name@) == Ok::<Seq<char>, ValidationErrorV>(s@),
            Err(e) => req_str(obj@, name@) == Err::<Seq<char>, ValidationErrorV>(e@),
        },
{
    match obj.find_field(name) {
        Some(RawValue::Str(s)) => Ok(s.clone()),
        Some(RawValue::Null) => Err(ValidationError::MissingField(name.clone())),
        None => Err(ValidationError::MissingField(name.clone())),
        Some(_) => Err(ValidationError::InvalidField(name.clone())),
    }
}

fn get_opt_str(obj: &RawObject, name: &String) -> (r: Result<Option<String>, ValidationError>)
    ensures
        match r {
            Ok(s) => opt_str(obj@, name@) == Ok::<Option<Seq<char>>, ValidationErrorV>(
                crate::record::view_opt_str(s),
            ),
            Err(e) => opt_str(obj@, name@) == Err::<Option<Seq<char>>, ValidationErrorV>(e@),
        },
{
    match obj.find_field(name) {
        Some(RawValue::Str(s)) => Ok(Some(s.clone())),
        Some(RawValue::Null) => Ok(None),
        None => Ok(None),
        Some(_) => Err(ValidationError::InvalidField(name.clone())),
    }
}

fn get_decimals(obj: &RawObject, name: &String) -> (r: Result<u8, ValidationError>)
    ensures
        match r {
            Ok(d) => req_decimals(obj@, name@) == Ok::<u8, ValidationErrorV>(d),
            Err(e) => req_decimals(obj@, name@) == Err::<u8, ValidationErrorV>(e@),
        },
{
    match obj.find_field(name) {
        Some(RawValue::Int(i)) => if 0 <= *i && *i <= 255 {
            Ok(*i as u8)
        } else {
            Err(ValidationError::InvalidField(name.clone()))
        },
        Some(RawValue::Null) => Err(ValidationError::MissingField(name.clone())),
        None => Err(ValidationError::MissingField(name.clone())),
        Some(_) => Err(ValidationError::InvalidField(name.clone())),
    }
}

fn get_opt_hash(obj: &RawObject, name: &String) -> (r: Result<Option<Vec<u8>>, ValidationError>)
    ensures
        match r {
            Ok(b) => opt_hash(obj@, name@) == Ok::<Option<Seq<u8>>, ValidationErrorV>(
                crate::record::view_opt_bytes(b),
            ),
            Err(e) => opt_hash(obj@, name@) == Err::<Option<Seq<u8>>, ValidationErrorV>(e@),
        },
{
    match obj.find_field(name) {
        Some(RawValue::Str(s)) => match base64_decode(s) {
            Some(b) => Ok(Some(b)),
            None => Err(ValidationError::InvalidField(name.clone())),
        },
        Some(RawValue::Null) => Ok(None),
        None => Ok(None),
        Some(_) => Err(ValidationError::InvalidField(name.clone())),
    }
}

/// Validates a raw payload into a [`TokenRecord`].
///
/// The payload must hold at least one element; its first element must carry
/// every required field with a textual value (`decimals` an unsigned byte),
/// and any `reference_hash` must decode from base64. The first check that
/// fails decides the error, which names the offending field. Pure: no side
/// effects, safe to run concurrently.
pub fn map(data: &Vec<RawObject>) -> (r: Result<TokenRecord, ValidationError>)
    ensures
        match r {
            Ok(t) => map_spec(crate::payload::payload_view(data@)) == Ok::<
                TokenRecordV,
                ValidationErrorV,
            >(t@),
            Err(e) => map_spec(crate::payload::payload_view(data@)) == Err::<
                TokenRecordV,
                ValidationErrorV,
            >(e@),
        },
{
    if data.len() == 0 {
        return Err(ValidationError::MissingElement);
    }
    let obj = &data[0];
    proof {
        assert(crate::payload::payload_view(data@).first() == obj@);
    }
    let owner_id = match get_req_str(obj, &"owner_id".to_owned()) {
        Ok(s) => s,
        Err(e) => { return Err(e) },
    };
    let total_supply = match get_req_str(obj, &"total_supply".to_owned()) {
        Ok(s) => s,
        Err(e) => { return Err(e) },
    };
    let spec_version = match get_req_str(obj, &"spec".to_owned()) {
        Ok(s) => s,
        Err(e) => { return Err(e) },
    };
    let name = match get_req_str(obj, &"name".to_owned()) {
        Ok(s) => s,
        Err(e) => { return Err(e) },
    };
    let symbol = match get_req_str(obj, &"symbol".to_owned()) {
        Ok(s) => s,
        Err(e) => { return Err(e) },
    };
    let icon = match get_opt_str(obj, &"icon".to_owned()) {
        Ok(s) => s,
        Err(e) => { return Err(e) },
    };
    let reference = match get_opt_str(obj, &"reference".to_owned()) {
        Ok(s) => s,
        Err(e) => { return Err(e) },
    };
    let reference_hash = match get_opt_hash(obj, &"reference_hash".to_owned()) {
        Ok(b) => b,
        Err(e) => { return Err(e) },
    };
    let decimals = match get_decimals(obj, &"decimals".to_owned()) {
        Ok(d) => d,
        Err(e) => { return Err(e) },
    };
    let image = match get_req_str(obj, &"image".to_owned()) {
        Ok(s) => s,
        Err(e) => { return Err(e) },
    };
    let description = match get_req_str(obj, &"description".to_owned()) {
        Ok(s) => s,
        Err(e) => { return Err(e) },
    };
    let auction_duration = match get_req_str(obj, &"auction_duration".to_owned()) {
        Ok(s) => s,
        Err(e) => { return Err(e) },
    };
    let min_buy_amount = match get_req_str(obj, &"min_buy_amount".to_owned()) {
        Ok(s) => s,
        Err(e) => { return Err(e) },
    };
    Ok(
        TokenRecord {
            owner_id,
            total_supply,
            spec_version,
            name,
            symbol,
            icon,
            reference,
            reference_hash,
            decimals,
            image,
            description,
            auction_duration,
            min_buy_amount,
        },
    )
}

/// Whether a name is one of the fields the validator requires.
pub open spec fn is_required_field(name: Seq<char>) -> bool {
    ||| name == "owner_id"@
    ||| name == "total_supply"@
    ||| name == "spec"@
    ||| name == "name"@
    ||| name == "symbol"@
    ||| name == "decimals"@
    ||| name == "image"@
    ||| name == "description"@
    ||| name == "auction_duration"@
    ||| name == "min_buy_amount"@
}

/// Every validation check other than the one for `name` succeeds on the
/// field map.
pub open spec fn other_checks_pass(fields: Seq<RawFieldV>, name: Seq<char>) -> bool {
    &&& (name != "owner_id"@ ==> req_str(fields, "owner_id"@) is Ok)
    &&& (name != "total_supply"@ ==> req_str(fields, "total_supply"@) is Ok)
    &&& (name != "spec"@ ==> req_str(fields, "spec"@) is Ok)
    &&& (name != "name"@ ==> req_str(fields, "name"@) is Ok)
    &&& (name != "symbol"@ ==> req_str(fields, "symbol"@) is Ok)
    &&& opt_str(fields, "icon"@) is Ok
    &&& opt_str(fields, "reference"@) is Ok
    &&& opt_hash(fields, "reference_hash"@) is Ok
    &&& (name != "decimals"@ ==> req_decimals(fields, "decimals"@) is Ok)
    &&& (name != "image"@ ==> req_str(fields, "image"@) is Ok)
    &&& (name != "description"@ ==> req_str(fields, "description"@) is Ok)
    &&& (name != "auction_duration"@ ==> req_str(fields, "auction_duration"@) is Ok)
    &&& (name != "min_buy_amount"@ ==> req_str(fields, "min_buy_amount"@) is Ok)
}

/// Law: a payload whose first element lacks one required field, every other
/// check passing, is rejected with an error naming exactly that field; no
/// record is produced. (By the dispatcher's contract a rejected event then
/// mutates no storage and publishes nothing.)
pub proof fn lemma_missing_field_named(data: Seq<Seq<RawFieldV>>, name: Seq<char>)
    requires
        data.len() > 0,
        is_required_field(name),
        other_checks_pass(data.first(), name),
        lookup_field(data.first(), name) is None || lookup_field(data.first(), name) == Some(
            RawValueV::Null,
        ),
    ensures
        map_spec(data) == Err::<TokenRecordV, ValidationErrorV>(
            ValidationErrorV::MissingField(name),
        ),
{
    reveal_strlit("owner_id");
    reveal_strlit("total_supply");
    reveal_strlit("spec");
    reveal_strlit("name");
    reveal_strlit("symbol");
    reveal_strlit("decimals");
    reveal_strlit("image");
    reveal_strlit("description");
    reveal_strlit("auction_duration");
    reveal_strlit("min_buy_amount");
    let fields = data.first();
    if name == "decimals"@ {
        assert(req_decimals(fields, name) == Err::<u8, ValidationErrorV>(
            ValidationErrorV::MissingField(name),
        ));
    } else {
        assert(req_str(fields, name) == Err::<Seq<char>, ValidationErrorV>(
            ValidationErrorV::MissingField(name),
        ));
    }
}

} // verus!
