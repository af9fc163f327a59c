use vstd::prelude::*;

verus! {

/// A JSON number as it arrived on the wire: a non-negative integer, a
/// negative integer, or any other number kept as its decimal text.
#[derive(Debug, PartialEq)]
pub enum JsonNumber {
    PosInt(u64),
    NegInt(i64),
    Float(String),
}

/// A JSON value. Object members keep their order; a key that occurs more than
/// once is looked up by its first occurrence.
#[derive(Debug, PartialEq)]
pub enum Json {
    Null,
    Bool(bool),
    Number(JsonNumber),
    String(String),
    Array(Vec<Json>),
    Object(Vec<(String, Json)>),
}

/// Mathematical model of a [`JsonNumber`].
pub enum NumberV {
    PosInt(u64),
    NegInt(i64),
    Float(Seq<char>),
}

/// Mathematical model of a [`Json`] value: strings become character
/// sequences and arrays and objects become sequences.
pub enum JsonV {
    Null,
    Bool(bool),
    Number(NumberV),
    Str(Seq<char>),
    Array(Seq<JsonV>),
    Object(Seq<(Seq<char>, JsonV)>),
}

/// The model of a number.
pub open spec fn number_view(n: JsonNumber) -> NumberV {
    match n {
        JsonNumber::PosInt(u) => NumberV::PosInt(u),
        JsonNumber::NegInt(i) => NumberV::NegInt(i),
        JsonNumber::Float(s) => NumberV::Float(s@),
    }
}

/// The model of a value.
pub open spec fn json_view(v: Json) -> JsonV
    decreases v,
{
    match v {
        Json::Null => JsonV::Null,
        Json::Bool(b) => JsonV::Bool(b),
        Json::Number(n) => JsonV::Number(number_view(n)),
        Json::String(s) => JsonV::Str(s@),
        Json::Array(a) => JsonV::Array(
            Seq::new(a@.len(), |i: int| if 0 <= i < a@.len() { json_view(a@[i]) } else { JsonV::Null }),
        ),
        Json::Object(es) => JsonV::Object(
            Seq::new(
                es@.len(),
                |i: int| if 0 <= i < es@.len() { (es@[i].0@, json_view(es@[i].1)) } else { (Seq::empty(), JsonV::Null) },
            ),
        ),
    }
}

impl View for JsonNumber {
    type V = NumberV;

    open spec fn view(&self) -> NumberV {
        number_view(*self)
    }
}

impl View for Json {
    type V = JsonV;

    open spec fn view(&self) -> JsonV {
        json_view(*self)
    }
}

/// The models of the elements of an array.
pub open spec fn items_view(a: Seq<Json>) -> Seq<JsonV> {
    Seq::new(a.len(), |i: int| json_view(a[i]))
}

/// The models of the members of an object.
pub open spec fn members_view(es: Seq<(String, Json)>) -> Seq<(Seq<char>, JsonV)> {
    Seq::new(es.len(), |i: int| (es[i].0@, json_view(es[i].1)))
}

/// The model of an array value in terms of its elements.
pub proof fn lemma_array_view(a: Vec<Json>)
    ensures
        Json::Array(a)@ == JsonV::Array(items_view(a@)),
{
    let v = Json::Array(a);
    let s = match json_view(v) {
        JsonV::Array(s) => s,
        _ => Seq::empty(),
    };
    assert(json_view(v) is Array);
    assert forall|i: int| 0 <= i < s.len() implies s[i] == json_view(a@[i]) by {}
    assert(s =~= items_view(a@));
}

/// The model of an object value in terms of its members.
pub proof fn lemma_object_view(es: Vec<(String, Json)>)
    ensures
        Json::Object(es)@ == JsonV::Object(members_view(es@)),
{
    let v = Json::Object(es);
    let s = match json_view(v) {
        JsonV::Object(s) => s,
        _ => Seq::empty(),
    };
    assert(json_view(v) is Object);
    assert forall|i: int| 0 <= i < s.len() implies s[i] == (es@[i].0@, json_view(es@[i].1)) by {}
    assert(s =~= members_view(es@));
}

/// The unsigned integer held by `v`, if `v` is a non-negative integer.
pub open spec fn jv_as_u64(v: JsonV) -> Option<u64> {
    match v {
        JsonV::Number(NumberV::PosInt(u)) => Some(u),
        _ => None,
    }
}

/// The characters held by `v`, if `v` is a string.
pub open spec fn jv_as_str(v: JsonV) -> Option<Seq<char>> {
    match v {
        JsonV::Str(s) => Some(s),
        _ => None,
    }
}

impl JsonNumber {
    /// A copy of this number.
    pub fn clone_number(&self) -> (r: JsonNumber)
        ensures
            r@ == self@,
    {
        match self {
            JsonNumber::PosInt(u) => JsonNumber::PosInt(*u),
            JsonNumber::NegInt(i) => JsonNumber::NegInt(*i),
            JsonNumber::Float(t) => JsonNumber::Float(t.clone()),
        }
    }
}

impl Json {
    /// The unsigned integer held by this value, if it is a non-negative integer.
    pub fn as_u64(&self) -> (r: Option<u64>)
        ensures
            r == jv_as_u64(self@),
    {
        match self {
            Json::Number(JsonNumber::PosInt(u)) => Some(*u),
            _ => None,
        }
    }

    /// The string held by this value, if it is a string.
    pub fn as_str(&self) -> (r: Option<&String>)
        ensures
            match jv_as_str(self@) {
                Some(s) => r matches Some(t) && t@ == s,
                None => r is None,
            },
    {
        match self {
            Json::String(s) => Some(s),
            _ => None,
        }
    }

    /// The elements of this value, if it is an array.
    pub fn as_array(&self) -> (r: Option<&Vec<Json>>)
        ensures
            match self@ {
                JsonV::Array(items) => r matches Some(a) && items_view(a@) == items,
                _ => r is None,
            },
    {
        match self {
            Json::Array(a) => {
                proof {
                    lemma_array_view(*a);
                }
                Some(a)
            },
            _ => None,
        }
    }

    /// `true` when this value is `null`.
    pub fn is_null(&self) -> (r: bool)
        ensures
            r == (self@ == JsonV::Null),
    {
        match self {
            Json::Null => true,
            _ => false,
        }
    }
}

impl Json {
    /// A deep copy of this value.
    pub fn copy(&self) -> (r: Json)
        ensures
            r@ == self@,
        decreases self@,
    {
        match self {
            Json::Null => Json::Null,
            Json::Bool(b) => Json::Bool(*b),
            Json::Number(n) => Json::Number(n.clone_number()),
            Json::String(s) => Json::String(s.clone()),
            Json::Array(a) => {
                proof {
                    lemma_array_view(*a);
                }
                let ghost items = items_view(a@);
                let mut out: Vec<Json> = Vec::new();
                let n = a.len();
                let mut i: usize = 0;
                while i < n
                    invariant
                        n == a@.len(),
                        items == items_view(a@),
                        self@ == JsonV::Array(items),
                        0 <= i <= n,
                        out@.len() == i,
                        forall|j: int| 0 <= j < i ==> #[trigger] out@[j]@ == items[j],
                    decreases n - i,
                {
                    proof {
                        assert(decreases_to!(self@ => self@->Array_0));
                        assert(decreases_to!(self@->Array_0 => self@->Array_0[i as int]));
                    }
                    out.push(a[i].copy());
                    i = i + 1;
                }
                proof {
                    lemma_array_view(out);
                    assert forall|j: int| 0 <= j < n implies items_view(out@)[j] == items[j] by {
                        assert(out@[j]@ == items[j]);
                    }
                    assert(items_view(out@) =~= items);
                }
                Json::Array(out)
            },
            Json::Object(ms) => {
                proof {
                    lemma_object_view(*ms);
                }
                let ghost mv = members_view(ms@);
                let mut out: Vec<(String, Json)> = Vec::new();
                let n = ms.len();
                let mut i: usize = 0;
                while i < n
                    invariant
                        n == ms@.len(),
                        mv == members_view(ms@),
                        self@ == JsonV::Object(mv),
                        0 <= i <= n,
                        out@.len() == i,
                        forall|j: int| 0 <= j < i ==> (#[trigger] out@[j]).0@ == mv[j].0 && out@[j].1@ == mv[j].1,
                    decreases n - i,
                {
                    proof {
                        assert(decreases_to!(self@ => self@->Object_0));
                        assert(decreases_to!(self@->Object_0 => self@->Object_0[i as int]));
                        assert(decreases_to!(self@->Object_0[i as int] => self@->Object_0[i as int].1));
                    }
                    let v = ms[i].1.copy();
                    let k = ms[i].0.clone();
                    proof {
                        assert(k@ == mv[i as int].0);
                    }
                    out.push((k, v));
                    i = i + 1;
                }
                proof {
                    lemma_object_view(out);
                    assert(members_view(out@) =~= mv);
                }
                Json::Object(out)
            },
        }
    }
}

} // verus!
