//! A JSON document tree, its mathematical model, and the trusted boundary to
//! `serde_json`, which does the generic text parsing and printing.
//!
//! The model's reply arrives as free text; the only structural facts the
//! library states about that text go through the uninterpreted function
//! [`parsed_json`]: the tree a text denotes, if it is valid JSON at all. All
//! schema logic (decoding, encoding, field injection) works on the library's
//! own [`JsonValue`] and is verified.
use vstd::prelude::*;
use vstd::string::StringExecFns;

verus! {

/// A JSON value as the library manipulates it. Numbers keep their source text:
/// the document schema itself holds only strings, arrays and objects, so the
/// library never computes with a JSON number, it only carries one through.
///
/// An object is an ordered field list; when two fields share a key, every
/// reader in this crate takes the first occurrence (see [`lookup`]).
#[derive(Debug, PartialEq, Eq)]
pub enum JsonValue {
    Null,
    Bool(bool),
    Num(String),
    Str(String),
    Arr(Vec<JsonValue>),
    Obj(Vec<(String, JsonValue)>),
}

/// The mathematical shape of a JSON value: what [`JsonValue::deep_view`] maps to.
#[verifier::ext_equal]
pub enum JVal {
    Null,
    Bool(bool),
    Num(Seq<char>),
    Str(Seq<char>),
    Arr(Seq<JVal>),
    Obj(Seq<(Seq<char>, JVal)>),
}

/// The model of a [`JsonValue`]: the same tree over sequences.
pub open spec fn jval_of(j: JsonValue) -> JVal
    decreases j,
{
    match j {
        JsonValue::Null => JVal::Null,
        JsonValue::Bool(b) => JVal::Bool(b),
        JsonValue::Num(s) => JVal::Num(s@),
        JsonValue::Str(s) => JVal::Str(s@),
        JsonValue::Arr(a) => JVal::Arr(
            Seq::new(
                a@.len(),
                |i: int|
                    if 0 <= i < a@.len() {
                        jval_of(a[i])
                    } else {
                        JVal::Null
                    },
            ),
        ),
        JsonValue::Obj(o) => JVal::Obj(
            Seq::new(
                o@.len(),
                |i: int|
                    if 0 <= i < o@.len() {
                        (o[i].0@, jval_of(o[i].1))
                    } else {
                        (Seq::empty(), JVal::Null)
                    },
            ),
        ),
    }
}

impl DeepView for JsonValue {
    type V = JVal;

    open spec fn deep_view(&self) -> JVal {
        jval_of(*self)
    }
}

/// The value of the first field named `k`, if any: the reading every decoder
/// in this crate gives an object's field list.
pub open spec fn lookup(o: Seq<(Seq<char>, JVal)>, k: Seq<char>) -> Option<JVal>
    decreases o.len(),
{
    if o.len() == 0 {
        None
    } else if o[0].0 == k {
        Some(o[0].1)
    } else {
        lookup(o.drop_first(), k)
    }
}

/// Finds the first field named `k` in an object's field list.
pub fn lookup_field<'a>(o: &'a Vec<(String, JsonValue)>, k: &String) -> (r: Option<&'a JsonValue>)
    ensures
        match r {
            Some(v) => lookup(o.deep_view(), k@) == Some(v.deep_view()),
            None => lookup(o.deep_view(), k@) is None,
        },
{
    let mut i: usize = 0;
    while i < o.len()
        invariant
            0 <= i <= o.len(),
            forall|j: int| 0 <= j < i ==> o.deep_view()[j].0 != k@,
        decreases o.len() - i,
    {
        if o[i].0 == *k {
            proof {
                lemma_lookup_at(o.deep_view(), k@, i as int);
            }
            return Some(&o[i].1);
        }
        i = i + 1;
    }
    proof {
        lemma_lookup_absent(o.deep_view(), k@);
    }
    None
}

/// `lookup` finds the entry at the first index whose key matches.
pub proof fn lemma_lookup_at(o: Seq<(Seq<char>, JVal)>, k: Seq<char>, i: int)
    requires
        0 <= i < o.len(),
        o[i].0 == k,
        forall|j: int| 0 <= j < i ==> o[j].0 != k,
    ensures
        lookup(o, k) == Some(o[i].1),
    decreases i,
{
    if i > 0 {
        assert(forall|j: int| 0 <= j < i - 1 ==> o.drop_first()[j].0 != k);
        lemma_lookup_at(o.drop_first(), k, i - 1);
    }
}

/// Overwrites the `document` field of a JSON object with the canonical text,
/// by prepending the field: every reader takes the first occurrence of a key
/// (see [`lookup`]), so the prepended entry shadows anything the model echoed.
/// A non-object is left as it is; the schema decoder rejects it afterwards.
pub open spec fn spec_inject(j: JVal, document: Seq<char>) -> JVal {
    match j {
        JVal::Obj(o) => JVal::Obj(seq![("document"@, JVal::Str(document))] + o),
        _ => j,
    }
}

/// Overwrites the `document` field of a parsed reply with the canonical
/// document text (see [`spec_inject`]).
pub fn inject_document(j: JsonValue, document: &String) -> (r: JsonValue)
    ensures
        r.deep_view() == spec_inject(j.deep_view(), document@),
{
    let ghost jdv = j.deep_view();
    match j {
        JsonValue::Obj(mut o) => {
            let ghost o0 = o@;
            let mut fields: Vec<(String, JsonValue)> = Vec::new();
            fields.push((String::from_str("document"), JsonValue::Str(document.clone())));
            fields.append(&mut o);
            let r = JsonValue::Obj(fields);
            proof {
                let e = ("document"@, JVal::Str(document@));
                let fs = r->Obj_0@;
                assert(fs.len() == 1 + o0.len());
                let lhs = r.deep_view()->Obj_0;
                let rhs = spec_inject(jdv, document@)->Obj_0;
                assert(rhs == seq![e] + jdv->Obj_0);
                assert(lhs.len() == rhs.len());
                assert forall|i: int| 0 <= i < lhs.len() implies lhs[i] == rhs[i] by {
                    assert(lhs[i] == (fs[i].0@, jval_of(fs[i].1)));
                    if i == 0 {
                        assert(jval_of(fs[0].1) == JVal::Str(document@));
                        assert(rhs[0] == e);
                    } else {
                        assert(fs[i] == o0[i - 1]);
                        assert(rhs[i] == jdv->Obj_0[i - 1]);
                        assert(jdv->Obj_0[i - 1] == (o0[i - 1].0@, jval_of(o0[i - 1].1)));
                    }
                }
                assert(lhs =~~= rhs);
            }
            r
        },
        other => other,
    }
}

/// `lookup` finds nothing when no key matches.
pub proof fn lemma_lookup_absent(o: Seq<(Seq<char>, JVal)>, k: Seq<char>)
    requires
        forall|j: int| 0 <= j < o.len() ==> o[j].0 != k,
    ensures
        lookup(o, k) is None,
    decreases o.len(),
{
    if o.len() > 0 {
        assert(forall|j: int| 0 <= j < o.len() - 1 ==> o.drop_first()[j].0 != k);
        lemma_lookup_absent(o.drop_first(), k);
    }
}

/// A JSON tree the library's encoder can produce and hand to the printer: no
/// number nodes (the schema holds only strings, arrays and objects) and no
/// repeated key within an object, so an order-keeping map holds exactly the
/// same fields in the same order.
pub open spec fn emittable(j: JVal) -> bool
    decreases j,
{
    match j {
        JVal::Null => true,
        JVal::Bool(_) => true,
        JVal::Num(_) => false,
        JVal::Str(_) => true,
        JVal::Arr(a) => forall|i: int| 0 <= i < a.len() ==> emittable(#[trigger] a[i]),
        JVal::Obj(o) => {
            &&& forall|i: int, k: int| 0 <= i < k < o.len() ==> o[i].0 != o[k].0
            &&& forall|i: int| 0 <= i < o.len() ==> emittable(#[trigger] o[i].1)
        },
    }
}

/// `serde_json::Value`, declared so the wrappers below can hand it around;
/// the library never looks inside one.
#[verifier::external_type_specification]
#[verifier::external_body]
pub struct ExSerdeValue(serde_json::Value);

/// The JSON tree a `serde_json::Value` holds.
pub uninterp spec fn value_rep(v: serde_json::Value) -> JVal;

/// The JSON tree a text denotes, if the text is valid JSON at all.
pub uninterp spec fn parsed_json(text: Seq<char>) -> Option<JVal>;

/// The pretty-printed text of a JSON tree.
pub uninterp spec fn pretty_text(j: JVal) -> Seq<char>;

/// Relies on `serde_json::from_str::<serde_json::Value>`: whether a text is
/// syntactically valid JSON, and the tree it denotes, depend on the text alone.
#[verifier::external_body]
fn parse_value_text(text: &str) -> (r: Option<serde_json::Value>)
    ensures
        match r {
            Some(v) => parsed_json(text@) == Some(value_rep(v)),
            None => parsed_json(text@) is None,
        },
{
    serde_json::from_str::<serde_json::Value>(text).ok()
}

/// Converts a parsed `serde_json::Value` into the library's own tree, one node
/// for one node. Relies on `serde_json::Value`'s variants and on
/// `serde_json::Number::to_string` giving the number's canonical text.
#[verifier::external_body]
fn json_of_value(v: serde_json::Value) -> (r: JsonValue)
    ensures
        r.deep_view() == value_rep(v),
{
    match v {
        serde_json::Value::Null => JsonValue::Null,
        serde_json::Value::Bool(b) => JsonValue::Bool(b),
        serde_json::Value::Number(n) => JsonValue::Num(n.to_string()),
        serde_json::Value::String(s) => JsonValue::Str(s),
        serde_json::Value::Array(a) => JsonValue::Arr(a.into_iter().map(json_of_value).collect()),
        serde_json::Value::Object(o) => JsonValue::Obj(
            o.into_iter().map(|(k, x)| (k, json_of_value(x))).collect(),
        ),
    }
}

/// Parses a text as generic JSON. Returns `None` exactly when the text is not
/// valid JSON.
pub fn parse_json(text: &str) -> (r: Option<JsonValue>)
    ensures
        match r {
            Some(j) => parsed_json(text@) == Some(j.deep_view()),
            None => parsed_json(text@) is None,
        },
{
    match parse_value_text(text) {
        Some(v) => Some(json_of_value(v)),
        None => None,
    }
}

/// Builds the `serde_json::Value` holding the same tree, one node for one
/// node. Relies on `serde_json::Value`'s constructors and on its map keeping
/// insertion order; the precondition rules out number nodes and repeated keys,
/// so nothing is reinterpreted or dropped on the way.
#[verifier::external_body]
fn value_of_json(j: &JsonValue) -> (r: serde_json::Value)
    requires
        emittable(j.deep_view()),
    ensures
        value_rep(r) == j.deep_view(),
{
    match j {
        JsonValue::Null => serde_json::Value::Null,
        JsonValue::Bool(b) => serde_json::Value::Bool(*b),
        JsonValue::Num(_) => serde_json::Value::Null,  // no number node is emittable
        JsonValue::Str(s) => serde_json::Value::String(s.clone()),
        JsonValue::Arr(a) => serde_json::Value::Array(a.iter().map(value_of_json).collect()),
        JsonValue::Obj(o) => serde_json::Value::Object(
            o.iter().map(|p| (p.0.clone(), value_of_json(&p.1))).collect(),
        ),
    }
}

/// Relies on `serde_json::to_string_pretty`: the pretty-printed text depends
/// on the value alone, and printing a `Value` cannot fail (its `Serialize`
/// never errs, and all its map keys are strings).
#[verifier::external_body]
fn value_to_text(v: &serde_json::Value) -> (r: String)
    ensures
        r@ == pretty_text(value_rep(*v)),
{
    match serde_json::to_string_pretty(v) {
        Ok(s) => s,
        Err(_) => String::new(),  // unreachable: printing a Value cannot fail
    }
}

/// Pretty-prints an emittable JSON tree.
pub fn render_json(j: &JsonValue) -> (r: String)
    requires
        emittable(j.deep_view()),
    ensures
        r@ == pretty_text(j.deep_view()),
{
    let v = value_of_json(j);
    value_to_text(&v)
}

} // verus!
