use vstd::prelude::*;

verus! {

/// A loosely-typed value as carried by a raw event payload.
///
/// The pipeline reads text fields and one small integer; every other shape
/// (boolean, fraction, nested structure) is kept only as `Other`, which the
/// validator rejects wherever a typed field is expected.
pub enum RawValue {
    Str(String),
    Int(i64),
    Null,
    Other,
}

/// The mathematical image of a [`RawValue`].
pub enum RawValueV {
    Str(Seq<char>),
    Int(i64),
    Null,
    Other,
}

impl View for RawValue {
    type V = RawValueV;

    open spec fn view(&self) -> RawValueV {
        match self {
            RawValue::Str(s) => RawValueV::Str(s@),
            RawValue::Int(i) => RawValueV::Int(*i),
            RawValue::Null => RawValueV::Null,
            RawValue::Other => RawValueV::Other,
        }
    }
}

/// One named field of a raw payload object.
pub struct RawField {
    pub name: String,
    pub value: RawValue,
}

/// The mathematical image of a [`RawField`].
pub struct RawFieldV {
    pub name: Seq<char>,
    pub value: RawValueV,
}

impl View for RawField {
    type V = RawFieldV;

    open spec fn view(&self) -> RawFieldV {
        RawFieldV { name: self.name@, value: self.value@ }
    }
}

/// One element of a raw payload: a field map, modelled as the fields in the
/// order the source delivered them (the earliest occurrence of a name wins).
pub struct RawObject {
    pub fields: Vec<RawField>,
}

impl View for RawObject {
    type V = Seq<RawFieldV>;

    open spec fn view(&self) -> Seq<RawFieldV> {
        self.fields@.map_values(|f: RawField| f@)
    }
}

/// The mathematical image of a whole payload: each element's field map.
pub open spec fn payload_view(data: Seq<RawObject>) -> Seq<Seq<RawFieldV>> {
    data.map_values(|o: RawObject| o@)
}

/// The value under a name in a field map: the earliest field with that name.
pub open spec fn lookup_field(fields: Seq<RawFieldV>, name: Seq<char>) -> Option<RawValueV>
    decreases fields.len(),
{
    if fields.len() == 0 {
        None
    } else if fields.first().name == name {
        Some(fields.first().value)
    } else {
        lookup_field(fields.drop_first(), name)
    }
}

proof fn lemma_lookup_step(fields: Seq<RawFieldV>, name: Seq<char>, i: int)
    requires
        0 <= i < fields.len(),
        fields[i].name != name,
    ensures
        lookup_field(fields.skip(i), name) == lookup_field(fields.skip(i + 1), name),
{
    assert(fields.skip(i).first() == fields[i]);
    assert(fields.skip(i).drop_first() =~= fields.skip(i + 1));
}

impl RawObject {
    /// Looks a field up by name; returns the earliest match, if any.
    pub fn find_field<'a>(&'a self, name: &String) -> (r: Option<&'a RawValue>)
        ensures
            match r {
                Some(v) => lookup_field(self@, name@) == Some(v@),
                None => lookup_field(self@, name@) is None,
            },
    {
        let n = self.fields.len();
        let mut i: usize = 0;
        proof {
            assert(self@.skip(0) =~= self@);
        }
        while i < n
            invariant
                n == self.fields.len(),
                0 <= i <= n,
                lookup_field(self@, name@) == lookup_field(self@.skip(i as int), name@),
            decreases n - i,
        {
            let f = &self.fields[i];
            proof {
                assert(self@[i as int] == f@);
                assert(self@.skip(i as int).first() == self@[i as int]);
            }
            if f.name == *name {
                return Some(&f.value);
            }
            proof {
                lemma_lookup_step(self@, name@, i as int);
            }
            i = i + 1;
        }
        proof {
            assert(self@.skip(n as int) =~= Seq::<RawFieldV>::empty());
        }
        None
    }
}

} // verus!
