//! The JSON codec for the document schema.
//!
//! The wire shape is the flat object the model is prompted to produce:
//! `document`, `doctype`, `act_date`, `fact_date`, `summary{en,fr,nl,de}`,
//! `persons[]`, `locations[]` — metadata fields sit at the top level, not
//! nested. Decoding is strict: a missing field or a field of the wrong shape
//! fails the whole decode; there is no coercion and no partial result. When a
//! key is repeated, the first occurrence counts (see [`crate::json::lookup`]).
//!
//! Every encoder and decoder is verified against its spec-level counterpart,
//! and decoding an encoded value is proved to give that value back.
use vstd::prelude::*;
use vstd::string::StringExecFns;

use crate::errors::MergeError;
use crate::json::{lookup, lookup_field, JVal, JsonValue};
use crate::json::lemma_lookup_at;
use crate::model::{ApplicationState, ApplicationStateV, ChatMessage, ChatMessageV};
use crate::model::{DocumentData, DocumentDataV, Location, LocationV, Metadata, MetadataV};
use crate::model::{MultiLingual, MultiLingualV, Person, PersonV, Role};

verus! {

/// The field list a `JsonValue` object models, as [`crate::json::jval_of`]
/// sees it, is the field-wise deep view of its vector.
pub proof fn lemma_obj_fields(o: Vec<(String, JsonValue)>)
    ensures
        crate::json::jval_of(JsonValue::Obj(o))->Obj_0 == o.deep_view(),
{
    let lhs = crate::json::jval_of(JsonValue::Obj(o))->Obj_0;
    let rhs = o.deep_view();
    assert forall|i: int| 0 <= i < lhs.len() implies lhs[i] == rhs[i] by {
        assert(rhs[i] == (o@[i].0@, o@[i].1.deep_view()));
    }
    assert(lhs =~~= rhs);
}

/// The element list a `JsonValue` array models is the element-wise deep view
/// of its vector.
pub proof fn lemma_arr_elems(a: Vec<JsonValue>)
    ensures
        crate::json::jval_of(JsonValue::Arr(a))->Arr_0 == a.deep_view(),
{
    let lhs = crate::json::jval_of(JsonValue::Arr(a))->Arr_0;
    let rhs = a.deep_view();
    assert forall|i: int| 0 <= i < lhs.len() implies lhs[i] == rhs[i] by {
        assert(rhs[i] == a@[i].deep_view());
    }
    assert(lhs =~~= rhs);
}

/// The string a field holds, if the field is there and is a string.
pub open spec fn dec_str(v: Option<JVal>) -> Option<Seq<char>> {
    match v {
        Some(JVal::Str(s)) => Some(s),
        _ => None,
    }
}

/// Reads the first field named `k`, which must hold a string.
fn get_str(o: &Vec<(String, JsonValue)>, k: &String) -> (r: Option<String>)
    ensures
        match r {
            Some(s) => dec_str(lookup(o.deep_view(), k@)) == Some(s@),
            None => dec_str(lookup(o.deep_view(), k@)) is None,
        },
{
    match lookup_field(o, k) {
        Some(JsonValue::Str(s)) => Some(s.clone()),
        _ => None,
    }
}

/// The wire shape of a four-language summary.
pub open spec fn enc_multi(m: MultiLingualV) -> JVal {
    JVal::Obj(
        seq![
            ("en"@, JVal::Str(m.en)),
            ("fr"@, JVal::Str(m.fr)),
            ("nl"@, JVal::Str(m.nl)),
            ("de"@, JVal::Str(m.de)),
        ],
    )
}

/// Strict decode of a four-language summary: an object whose `en`, `fr`, `nl`
/// and `de` fields are all strings.
pub open spec fn dec_multi(j: JVal) -> Option<MultiLingualV> {
    match j {
        JVal::Obj(o) => {
            let en = dec_str(lookup(o, "en"@));
            let fr = dec_str(lookup(o, "fr"@));
            let nl = dec_str(lookup(o, "nl"@));
            let de = dec_str(lookup(o, "de"@));
            if en is Some && fr is Some && nl is Some && de is Some {
                Some(
                    MultiLingualV {
                        en: en->Some_0,
                        fr: fr->Some_0,
                        nl: nl->Some_0,
                        de: de->Some_0,
                    },
                )
            } else {
                None
            }
        },
        _ => None,
    }
}

impl MultiLingual {
    /// Encodes the summary as its wire object.
    pub fn encode(&self) -> (r: JsonValue)
        ensures
            r.deep_view() == enc_multi(self.deep_view()),
    {
        let mut fields: Vec<(String, JsonValue)> = Vec::new();
        fields.push((String::from_str("en"), JsonValue::Str(self.en.clone())));
        fields.push((String::from_str("fr"), JsonValue::Str(self.fr.clone())));
        fields.push((String::from_str("nl"), JsonValue::Str(self.nl.clone())));
        fields.push((String::from_str("de"), JsonValue::Str(self.de.clone())));
        let r = JsonValue::Obj(fields);
        proof {
            lemma_obj_fields(r->Obj_0);
            assert(r.deep_view()->Obj_0 =~~= enc_multi(self.deep_view())->Obj_0);
        }
        r
    }

    /// Strictly decodes a summary; rejects anything that is not an object with
    /// the four expected string fields.
    pub fn decode(j: &JsonValue) -> (r: Result<MultiLingual, MergeError>)
        ensures
            match r {
                Ok(m) => dec_multi(j.deep_view()) == Some(m.deep_view()),
                Err(e) => e is SchemaMismatch && dec_multi(j.deep_view()) is None,
            },
    {
        match j {
            JsonValue::Obj(o) => {
                proof {
                    lemma_obj_fields(*o);
                }
                let en = get_str(o, &String::from_str("en"));
                let fr = get_str(o, &String::from_str("fr"));
                let nl = get_str(o, &String::from_str("nl"));
                let de = get_str(o, &String::from_str("de"));
                match (en, fr, nl, de) {
                    (Some(en), Some(fr), Some(nl), Some(de)) => {
                        let m = MultiLingual { en, fr, nl, de };
                        proof {
                            assert(dec_multi(j.deep_view())->Some_0 =~~= m.deep_view());
                        }
                        Ok(m)
                    },
                    _ => Err(MergeError::SchemaMismatch),
                }
            },
            _ => Err(MergeError::SchemaMismatch),
        }
    }
}

/// The four language keys differ pairwise.
proof fn lemma_multi_keys_distinct()
    ensures
        "en"@ != "fr"@,
        "en"@ != "nl"@,
        "en"@ != "de"@,
        "fr"@ != "nl"@,
        "fr"@ != "de"@,
        "nl"@ != "de"@,
{
    reveal_strlit("en");
    reveal_strlit("fr");
    reveal_strlit("nl");
    reveal_strlit("de");
    assert("en"@[0] != "fr"@[0]);
    assert("en"@[0] != "nl"@[0]);
    assert("en"@[0] != "de"@[0]);
    assert("fr"@[0] != "nl"@[0]);
    assert("fr"@[0] != "de"@[0]);
    assert("nl"@[0] != "de"@[0]);
}

/// Decoding an encoded summary gives the summary back.
pub proof fn lemma_multi_round_trip(m: MultiLingualV)
    ensures
        dec_multi(enc_multi(m)) == Some(m),
{
    lemma_multi_keys_distinct();
    let o = enc_multi(m)->Obj_0;
    lemma_lookup_at(o, "en"@, 0);
    lemma_lookup_at(o, "fr"@, 1);
    lemma_lookup_at(o, "nl"@, 2);
    lemma_lookup_at(o, "de"@, 3);
    assert(dec_multi(enc_multi(m))->Some_0 =~~= m);
}

/// The wire shape of a person record.
pub open spec fn enc_person(p: PersonV) -> JVal {
    JVal::Obj(
        seq![
            ("firstname"@, JVal::Str(p.firstname)),
            ("lastname"@, JVal::Str(p.lastname)),
            ("role"@, JVal::Str(p.role)),
            ("function"@, JVal::Str(p.function)),
        ],
    )
}

/// Strict decode of a person record.
pub open spec fn dec_person(j: JVal) -> Option<PersonV> {
    match j {
        JVal::Obj(o) => {
            let firstname = dec_str(lookup(o, "firstname"@));
            let lastname = dec_str(lookup(o, "lastname"@));
            let role = dec_str(lookup(o, "role"@));
            let function = dec_str(lookup(o, "function"@));
            if firstname is Some && lastname is Some && role is Some && function is Some {
                Some(
                    PersonV {
                        firstname: firstname->Some_0,
                        lastname: lastname->Some_0,
                        role: role->Some_0,
                        function: function->Some_0,
                    },
                )
            } else {
                None
            }
        },
        _ => None,
    }
}

impl Person {
    /// Encodes the person as its wire object.
    pub fn encode(&self) -> (r: JsonValue)
        ensures
            r.deep_view() == enc_person(self.deep_view()),
    {
        let mut fields: Vec<(String, JsonValue)> = Vec::new();
        fields.push((String::from_str("firstname"), JsonValue::Str(self.firstname.clone())));
        fields.push((String::from_str("lastname"), JsonValue::Str(self.lastname.clone())));
        fields.push((String::from_str("role"), JsonValue::Str(self.role.clone())));
        fields.push((String::from_str("function"), JsonValue::Str(self.function.clone())));
        let r = JsonValue::Obj(fields);
        proof {
            lemma_obj_fields(r->Obj_0);
            assert(r.deep_view()->Obj_0 =~~= enc_person(self.deep_view())->Obj_0);
        }
        r
    }

    /// Strictly decodes a person record.
    pub fn decode(j: &JsonValue) -> (r: Result<Person, MergeError>)
        ensures
            match r {
                Ok(p) => dec_person(j.deep_view()) == Some(p.deep_view()),
                Err(e) => e is SchemaMismatch && dec_person(j.deep_view()) is None,
            },
    {
        match j {
            JsonValue::Obj(o) => {
                proof {
                    lemma_obj_fields(*o);
                }
                let firstname = get_str(o, &String::from_str("firstname"));
                let lastname = get_str(o, &String::from_str("lastname"));
                let role = get_str(o, &String::from_str("role"));
                let function = get_str(o, &String::from_str("function"));
                match (firstname, lastname, role, function) {
                    (Some(firstname), Some(lastname), Some(role), Some(function)) => {
                        let p = Person { firstname, lastname, role, function };
                        proof {
                            assert(dec_person(j.deep_view())->Some_0 =~~= p.deep_view());
                        }
                        Ok(p)
                    },
                    _ => Err(MergeError::SchemaMismatch),
                }
            },
            _ => Err(MergeError::SchemaMismatch),
        }
    }
}

/// The person keys differ pairwise.
proof fn lemma_person_keys_distinct()
    ensures
        "firstname"@ != "lastname"@,
        "firstname"@ != "role"@,
        "firstname"@ != "function"@,
        "lastname"@ != "role"@,
        "lastname"@ != "function"@,
        "role"@ != "function"@,
{
    reveal_strlit("firstname");
    reveal_strlit("lastname");
    reveal_strlit("role");
    reveal_strlit("function");
    assert("firstname"@[0] != "lastname"@[0]);
    assert("firstname"@[0] != "role"@[0]);
    assert("firstname"@[2] != "function"@[2]);
    assert("lastname"@[0] != "role"@[0]);
    assert("lastname"@[0] != "function"@[0]);
    assert("role"@[0] != "function"@[0]);
}

/// Decoding an encoded person gives the person back.
pub proof fn lemma_person_round_trip(p: PersonV)
    ensures
        dec_person(enc_person(p)) == Some(p),
{
    lemma_person_keys_distinct();
    let o = enc_person(p)->Obj_0;
    lemma_lookup_at(o, "firstname"@, 0);
    lemma_lookup_at(o, "lastname"@, 1);
    lemma_lookup_at(o, "role"@, 2);
    lemma_lookup_at(o, "function"@, 3);
    assert(dec_person(enc_person(p))->Some_0 =~~= p);
}

/// The wire shape of a location record.
pub open spec fn enc_location(l: LocationV) -> JVal {
    JVal::Obj(seq![("name"@, JVal::Str(l.name)), ("loctype"@, JVal::Str(l.loctype))])
}

/// Strict decode of a location record.
pub open spec fn dec_location(j: JVal) -> Option<LocationV> {
    match j {
        JVal::Obj(o) => {
            let name = dec_str(lookup(o, "name"@));
            let loctype = dec_str(lookup(o, "loctype"@));
            if name is Some && loctype is Some {
                Some(LocationV { name: name->Some_0, loctype: loctype->Some_0 })
            } else {
                None
            }
        },
        _ => None,
    }
}

impl Location {
    /// Encodes the location as its wire object.
    pub fn encode(&self) -> (r: JsonValue)
        ensures
            r.deep_view() == enc_location(self.deep_view()),
    {
        let mut fields: Vec<(String, JsonValue)> = Vec::new();
        fields.push((String::from_str("name"), JsonValue::Str(self.name.clone())));
        fields.push((String::from_str("loctype"), JsonValue::Str(self.loctype.clone())));
        let r = JsonValue::Obj(fields);
        proof {
            lemma_obj_fields(r->Obj_0);
            assert(r.deep_view()->Obj_0 =~~= enc_location(self.deep_view())->Obj_0);
        }
        r
    }

    /// Strictly decodes a location record.
    pub fn decode(j: &JsonValue) -> (r: Result<Location, MergeError>)
        ensures
            match r {
                Ok(l) => dec_location(j.deep_view()) == Some(l.deep_view()),
                Err(e) => e is SchemaMismatch && dec_location(j.deep_view()) is None,
            },
    {
        match j {
            JsonValue::Obj(o) => {
                proof {
                    lemma_obj_fields(*o);
                }
                let name = get_str(o, &String::from_str("name"));
                let loctype = get_str(o, &String::from_str("loctype"));
                match (name, loctype) {
                    (Some(name), Some(loctype)) => {
                        let l = Location { name, loctype };
                        proof {
                            assert(dec_location(j.deep_view())->Some_0 =~~= l.deep_view());
                        }
                        Ok(l)
                    },
                    _ => Err(MergeError::SchemaMismatch),
                }
            },
            _ => Err(MergeError::SchemaMismatch),
        }
    }
}

/// Decoding an encoded location gives the location back.
pub proof fn lemma_location_round_trip(l: LocationV)
    ensures
        dec_location(enc_location(l)) == Some(l),
{
    reveal_strlit("name");
    reveal_strlit("loctype");
    assert("name"@[0] != "loctype"@[0]);
    let o = enc_location(l)->Obj_0;
    lemma_lookup_at(o, "name"@, 0);
    lemma_lookup_at(o, "loctype"@, 1);
    assert(dec_location(enc_location(l))->Some_0 =~~= l);
}

/// The wire text of a role tag.
pub open spec fn role_text(r: Role) -> Seq<char> {
    match r {
        Role::User => "user"@,
        Role::Assistant => "assistant"@,
    }
}

/// The wire shape of a conversation turn.
pub open spec fn enc_msg(m: ChatMessageV) -> JVal {
    JVal::Obj(seq![("role"@, JVal::Str(role_text(m.role))), ("content"@, JVal::Str(m.content))])
}

/// Strict decode of a conversation turn: the role must be the exact text
/// `user` or `assistant`.
pub open spec fn dec_msg(j: JVal) -> Option<ChatMessageV> {
    match j {
        JVal::Obj(o) => {
            let role = dec_str(lookup(o, "role"@));
            let content = dec_str(lookup(o, "content"@));
            if role == Some("user"@) && content is Some {
                Some(ChatMessageV { role: Role::User, content: content->Some_0 })
            } else if role == Some("assistant"@) && content is Some {
                Some(ChatMessageV { role: Role::Assistant, content: content->Some_0 })
            } else {
                None
            }
        },
        _ => None,
    }
}

impl ChatMessage {
    /// Encodes the turn as its wire object.
    pub fn encode(&self) -> (r: JsonValue)
        ensures
            r.deep_view() == enc_msg(self.deep_view()),
    {
        let role = match self.role {
            Role::User => String::from_str("user"),
            Role::Assistant => String::from_str("assistant"),
        };
        let mut fields: Vec<(String, JsonValue)> = Vec::new();
        fields.push((String::from_str("role"), JsonValue::Str(role)));
        fields.push((String::from_str("content"), JsonValue::Str(self.content.clone())));
        let r = JsonValue::Obj(fields);
        proof {
            lemma_obj_fields(r->Obj_0);
            assert(r.deep_view()->Obj_0 =~~= enc_msg(self.deep_view())->Obj_0);
        }
        r
    }

    /// Strictly decodes a conversation turn.
    pub fn decode(j: &JsonValue) -> (r: Result<ChatMessage, MergeError>)
        ensures
            match r {
                Ok(m) => dec_msg(j.deep_view()) == Some(m.deep_view()),
                Err(e) => e is SchemaMismatch && dec_msg(j.deep_view()) is None,
            },
    {
        match j {
            JsonValue::Obj(o) => {
                proof {
                    lemma_obj_fields(*o);
                }
                let role = get_str(o, &String::from_str("role"));
                let content = get_str(o, &String::from_str("content"));
                match (role, content) {
                    (Some(role), Some(content)) => {
                        if role == String::from_str("user") {
                            Ok(ChatMessage { role: Role::User, content })
                        } else if role == String::from_str("assistant") {
                            Ok(ChatMessage { role: Role::Assistant, content })
                        } else {
                            Err(MergeError::SchemaMismatch)
                        }
                    },
                    _ => Err(MergeError::SchemaMismatch),
                }
            },
            _ => Err(MergeError::SchemaMismatch),
        }
    }
}

/// Decoding an encoded turn gives the turn back.
pub proof fn lemma_msg_round_trip(m: ChatMessageV)
    ensures
        dec_msg(enc_msg(m)) == Some(m),
{
    reveal_strlit("role");
    reveal_strlit("content");
    reveal_strlit("user");
    reveal_strlit("assistant");
    assert("role"@[0] != "content"@[0]);
    assert("user"@.len() != "assistant"@.len());
    let o = enc_msg(m)->Obj_0;
    lemma_lookup_at(o, "role"@, 0);
    lemma_lookup_at(o, "content"@, 1);
    assert(dec_msg(enc_msg(m))->Some_0 =~~= m);
}

/// The wire shape of a person list.
pub open spec fn enc_persons(s: Seq<PersonV>) -> Seq<JVal> {
    s.map_values(|p: PersonV| enc_person(p))
}

/// Strict decode of a person list: every element must decode.
pub open spec fn dec_persons(a: Seq<JVal>) -> Option<Seq<PersonV>>
    decreases a.len(),
{
    if a.len() == 0 {
        Some(Seq::empty())
    } else {
        match (dec_person(a[0]), dec_persons(a.drop_first())) {
            (Some(x), Some(r)) => Some(seq![x] + r),
            _ => None,
        }
    }
}

/// Extending a decodable list by a decodable element extends its decode.
pub proof fn lemma_dec_persons_push(a: Seq<JVal>, x: JVal)
    requires
        dec_persons(a) is Some,
        dec_person(x) is Some,
    ensures
        dec_persons(a.push(x)) == Some(dec_persons(a)->Some_0.push(dec_person(x)->Some_0)),
    decreases a.len(),
{
    let px = dec_person(x)->Some_0;
    if a.len() == 0 {
        assert(a.push(x)[0] == x);
        assert(a.push(x).drop_first() =~= Seq::<JVal>::empty());
        assert(seq![px] + Seq::<PersonV>::empty() =~= Seq::<PersonV>::empty().push(px));
    } else {
        assert(a.push(x)[0] == a[0]);
        assert(a.push(x).drop_first() =~= a.drop_first().push(x));
        lemma_dec_persons_push(a.drop_first(), x);
        let rest = dec_persons(a.drop_first())->Some_0;
        assert(seq![dec_person(a[0])->Some_0] + rest.push(px) =~= (seq![dec_person(a[0])->Some_0]
            + rest).push(px));
    }
}

/// One undecodable element fails the whole list.
pub proof fn lemma_dec_persons_none(a: Seq<JVal>, i: int)
    requires
        0 <= i < a.len(),
        dec_person(a[i]) is None,
    ensures
        dec_persons(a) is None,
    decreases a.len(),
{
    if i > 0 {
        lemma_dec_persons_none(a.drop_first(), i - 1);
    }
}

/// Decoding an encoded person list gives the list back.
pub proof fn lemma_persons_round_trip(s: Seq<PersonV>)
    ensures
        dec_persons(enc_persons(s)) == Some(s),
    decreases s.len(),
{
    if s.len() == 0 {
        assert(enc_persons(s).len() == 0);
        assert(dec_persons(enc_persons(s))->Some_0 =~= s);
    } else {
        lemma_person_round_trip(s[0]);
        lemma_persons_round_trip(s.drop_first());
        assert(enc_persons(s)[0] == enc_person(s[0]));
        assert(enc_persons(s).drop_first() =~= enc_persons(s.drop_first()));
        assert(seq![s[0]] + s.drop_first() =~= s);
    }
}

/// Strictly decodes every element of a person array.
fn decode_persons(a: &Vec<JsonValue>) -> (r: Result<Vec<Person>, MergeError>)
    ensures
        match r {
            Ok(ps) => dec_persons(a.deep_view()) == Some(ps.deep_view()),
            Err(e) => e is SchemaMismatch && dec_persons(a.deep_view()) is None,
        },
{
    let mut out: Vec<Person> = Vec::new();
    let mut i: usize = 0;
    proof {
        assert(a.deep_view().take(0) =~= Seq::<JVal>::empty());
    }
    while i < a.len()
        invariant
            0 <= i <= a.len(),
            a.deep_view().len() == a@.len(),
            dec_persons(a.deep_view().take(i as int)) == Some(out.deep_view()),
        decreases a@.len() - i,
    {
        match Person::decode(&a[i]) {
            Ok(p) => {
                proof {
                    lemma_dec_persons_push(a.deep_view().take(i as int), a.deep_view()[i as int]);
                    assert(a.deep_view().take(i + 1 as int) =~= a.deep_view().take(
                        i as int,
                    ).push(a.deep_view()[i as int]));
                }
                let ghost out0 = out.deep_view();
                let ghost pv = p.deep_view();
                out.push(p);
                proof {
                    assert(out.deep_view() =~~= out0.push(pv));
                }
                i = i + 1;
            },
            Err(e) => {
                proof {
                    lemma_dec_persons_none(a.deep_view(), i as int);
                }
                return Err(e);
            },
        }
    }
    proof {
        assert(a.deep_view().take(a.deep_view().len() as int) =~= a.deep_view());
    }
    Ok(out)
}

/// The wire shape of a location list.
pub open spec fn enc_locations(s: Seq<LocationV>) -> Seq<JVal> {
    s.map_values(|l: LocationV| enc_location(l))
}

/// Strict decode of a location list: every element must decode.
pub open spec fn dec_locations(a: Seq<JVal>) -> Option<Seq<LocationV>>
    decreases a.len(),
{
    if a.len() == 0 {
        Some(Seq::empty())
    } else {
        match (dec_location(a[0]), dec_locations(a.drop_first())) {
            (Some(x), Some(r)) => Some(seq![x] + r),
            _ => None,
        }
    }
}

/// Extending a decodable list by a decodable element extends its decode.
pub proof fn lemma_dec_locations_push(a: Seq<JVal>, x: JVal)
    requires
        dec_locations(a) is Some,
        dec_location(x) is Some,
    ensures
        dec_locations(a.push(x)) == Some(dec_locations(a)->Some_0.push(dec_location(x)->Some_0)),
    decreases a.len(),
{
    let lx = dec_location(x)->Some_0;
    if a.len() == 0 {
        assert(a.push(x)[0] == x);
        assert(a.push(x).drop_first() =~= Seq::<JVal>::empty());
        assert(seq![lx] + Seq::<LocationV>::empty() =~= Seq::<LocationV>::empty().push(lx));
    } else {
        assert(a.push(x)[0] == a[0]);
        assert(a.push(x).drop_first() =~= a.drop_first().push(x));
        lemma_dec_locations_push(a.drop_first(), x);
        let rest = dec_locations(a.drop_first())->Some_0;
        assert(seq![dec_location(a[0])->Some_0] + rest.push(lx) =~= (seq![dec_location(
            a[0],
        )->Some_0] + rest).push(lx));
    }
}

/// One undecodable element fails the whole list.
pub proof fn lemma_dec_locations_none(a: Seq<JVal>, i: int)
    requires
        0 <= i < a.len(),
        dec_location(a[i]) is None,
    ensures
        dec_locations(a) is None,
    decreases a.len(),
{
    if i > 0 {
        lemma_dec_locations_none(a.drop_first(), i - 1);
    }
}

/// Decoding an encoded location list gives the list back.
pub proof fn lemma_locations_round_trip(s: Seq<LocationV>)
    ensures
        dec_locations(enc_locations(s)) == Some(s),
    decreases s.len(),
{
    if s.len() == 0 {
        assert(enc_locations(s).len() == 0);
        assert(dec_locations(enc_locations(s))->Some_0 =~= s);
    } else {
        lemma_location_round_trip(s[0]);
        lemma_locations_round_trip(s.drop_first());
        assert(enc_locations(s)[0] == enc_location(s[0]));
        assert(enc_locations(s).drop_first() =~= enc_locations(s.drop_first()));
        assert(seq![s[0]] + s.drop_first() =~= s);
    }
}

/// Strictly decodes every element of a location array.
fn decode_locations(a: &Vec<JsonValue>) -> (r: Result<Vec<Location>, MergeError>)
    ensures
        match r {
            Ok(ls) => dec_locations(a.deep_view()) == Some(ls.deep_view()),
            Err(e) => e is SchemaMismatch && dec_locations(a.deep_view()) is None,
        },
{
    let mut out: Vec<Location> = Vec::new();
    let mut i: usize = 0;
    proof {
        assert(a.deep_view().take(0) =~= Seq::<JVal>::empty());
    }
    while i < a.len()
        invariant
            0 <= i <= a.len(),
            a.deep_view().len() == a@.len(),
            dec_locations(a.deep_view().take(i as int)) == Some(out.deep_view()),
        decreases a@.len() - i,
    {
        match Location::decode(&a[i]) {
            Ok(l) => {
                proof {
                    lemma_dec_locations_push(a.deep_view().take(i as int), a.deep_view()[i as int]);
                    assert(a.deep_view().take(i + 1 as int) =~= a.deep_view().take(
                        i as int,
                    ).push(a.deep_view()[i as int]));
                }
                let ghost out0 = out.deep_view();
                let ghost lv = l.deep_view();
                out.push(l);
                proof {
                    assert(out.deep_view() =~~= out0.push(lv));
                }
                i = i + 1;
            },
            Err(e) => {
                proof {
                    lemma_dec_locations_none(a.deep_view(), i as int);
                }
                return Err(e);
            },
        }
    }
    proof {
        assert(a.deep_view().take(a.deep_view().len() as int) =~= a.deep_view());
    }
    Ok(out)
}

/// The wire shape of a conversation.
pub open spec fn enc_msgs(s: Seq<ChatMessageV>) -> Seq<JVal> {
    s.map_values(|m: ChatMessageV| enc_msg(m))
}

/// Strict decode of a conversation: every turn must decode.
pub open spec fn dec_msgs(a: Seq<JVal>) -> Option<Seq<ChatMessageV>>
    decreases a.len(),
{
    if a.len() == 0 {
        Some(Seq::empty())
    } else {
        match (dec_msg(a[0]), dec_msgs(a.drop_first())) {
            (Some(x), Some(r)) => Some(seq![x] + r),
            _ => None,
        }
    }
}

/// Extending a decodable list by a decodable element extends its decode.
pub proof fn lemma_dec_msgs_push(a: Seq<JVal>, x: JVal)
    requires
        dec_msgs(a) is Some,
        dec_msg(x) is Some,
    ensures
        dec_msgs(a.push(x)) == Some(dec_msgs(a)->Some_0.push(dec_msg(x)->Some_0)),
    decreases a.len(),
{
    let mx = dec_msg(x)->Some_0;
    if a.len() == 0 {
        assert(a.push(x)[0] == x);
        assert(a.push(x).drop_first() =~= Seq::<JVal>::empty());
        assert(seq![mx] + Seq::<ChatMessageV>::empty() =~= Seq::<ChatMessageV>::empty().push(mx));
    } else {
        assert(a.push(x)[0] == a[0]);
        assert(a.push(x).drop_first() =~= a.drop_first().push(x));
        lemma_dec_msgs_push(a.drop_first(), x);
        let rest = dec_msgs(a.drop_first())->Some_0;
        assert(seq![dec_msg(a[0])->Some_0] + rest.push(mx) =~= (seq![dec_msg(a[0])->Some_0]
            + rest).push(mx));
    }
}

/// One undecodable element fails the whole list.
pub proof fn lemma_dec_msgs_none(a: Seq<JVal>, i: int)
    requires
        0 <= i < a.len(),
        dec_msg(a[i]) is None,
    ensures
        dec_msgs(a) is None,
    decreases a.len(),
{
    if i > 0 {
        lemma_dec_msgs_none(a.drop_first(), i - 1);
    }
}

/// Decoding an encoded conversation gives the conversation back.
pub proof fn lemma_msgs_round_trip(s: Seq<ChatMessageV>)
    ensures
        dec_msgs(enc_msgs(s)) == Some(s),
    decreases s.len(),
{
    if s.len() == 0 {
        assert(enc_msgs(s).len() == 0);
        assert(dec_msgs(enc_msgs(s))->Some_0 =~= s);
    } else {
        lemma_msg_round_trip(s[0]);
        lemma_msgs_round_trip(s.drop_first());
        assert(enc_msgs(s)[0] == enc_msg(s[0]));
        assert(enc_msgs(s).drop_first() =~= enc_msgs(s.drop_first()));
        assert(seq![s[0]] + s.drop_first() =~= s);
    }
}

/// Strictly decodes every turn of a conversation array.
fn decode_msgs(a: &Vec<JsonValue>) -> (r: Result<Vec<ChatMessage>, MergeError>)
    ensures
        match r {
            Ok(ms) => dec_msgs(a.deep_view()) == Some(ms.deep_view()),
            Err(e) => e is SchemaMismatch && dec_msgs(a.deep_view()) is None,
        },
{
    let mut out: Vec<ChatMessage> = Vec::new();
    let mut i: usize = 0;
    proof {
        assert(a.deep_view().take(0) =~= Seq::<JVal>::empty());
    }
    while i < a.len()
        invariant
            0 <= i <= a.len(),
            a.deep_view().len() == a@.len(),
            dec_msgs(a.deep_view().take(i as int)) == Some(out.deep_view()),
        decreases a@.len() - i,
    {
        match ChatMessage::decode(&a[i]) {
            Ok(m) => {
                proof {
                    lemma_dec_msgs_push(a.deep_view().take(i as int), a.deep_view()[i as int]);
                    assert(a.deep_view().take(i + 1 as int) =~= a.deep_view().take(
                        i as int,
                    ).push(a.deep_view()[i as int]));
                }
                let ghost out0 = out.deep_view();
                let ghost mv = m.deep_view();
                out.push(m);
                proof {
                    assert(out.deep_view() =~~= out0.push(mv));
                }
                i = i + 1;
            },
            Err(e) => {
                proof {
                    lemma_dec_msgs_none(a.deep_view(), i as int);
                }
                return Err(e);
            },
        }
    }
    proof {
        assert(a.deep_view().take(a.deep_view().len() as int) =~= a.deep_view());
    }
    Ok(out)
}

/// Encodes every person of a list.
fn encode_persons(v: &Vec<Person>) -> (r: Vec<JsonValue>)
    ensures
        r.deep_view() == enc_persons(v.deep_view()),
{
    let mut out: Vec<JsonValue> = Vec::new();
    let mut i: usize = 0;
    while i < v.len()
        invariant
            0 <= i <= v.len(),
            out@.len() == i,
            forall|k: int| 0 <= k < i ==> (#[trigger] out@[k]).deep_view() == enc_person(
                v@[k].deep_view(),
            ),
        decreases v@.len() - i,
    {
        let pj = v[i].encode();
        let ghost jv = pj.deep_view();
        let ghost out0 = out@;
        out.push(pj);
        i = i + 1;
        proof {
            assert forall|k: int| 0 <= k < i implies (#[trigger] out@[k]).deep_view() == enc_person(
                v@[k].deep_view(),
            ) by {
                if k < i - 1 {
                    assert(out@[k] == out0[k]);
                } else {
                    assert(out@[k].deep_view() == jv);
                }
            }
        }
    }
    proof {
        assert forall|k: int| 0 <= k < out.deep_view().len() implies out.deep_view()[k]
            == enc_persons(v.deep_view())[k] by {
            assert(out.deep_view()[k] == out@[k].deep_view());
            assert(v.deep_view()[k] == v@[k].deep_view());
        }
        assert(out.deep_view() =~~= enc_persons(v.deep_view()));
    }
    out
}

/// Encodes every location of a list.
fn encode_locations(v: &Vec<Location>) -> (r: Vec<JsonValue>)
    ensures
        r.deep_view() == enc_locations(v.deep_view()),
{
    let mut out: Vec<JsonValue> = Vec::new();
    let mut i: usize = 0;
    while i < v.len()
        invariant
            0 <= i <= v.len(),
            out@.len() == i,
            forall|k: int| 0 <= k < i ==> (#[trigger] out@[k]).deep_view() == enc_location(
                v@[k].deep_view(),
            ),
        decreases v@.len() - i,
    {
        let lj = v[i].encode();
        let ghost jv = lj.deep_view();
        let ghost out0 = out@;
        out.push(lj);
        i = i + 1;
        proof {
            assert forall|k: int| 0 <= k < i implies (#[trigger] out@[k]).deep_view() == enc_location(
                v@[k].deep_view(),
            ) by {
                if k < i - 1 {
                    assert(out@[k] == out0[k]);
                } else {
                    assert(out@[k].deep_view() == jv);
                }
            }
        }
    }
    proof {
        assert forall|k: int| 0 <= k < out.deep_view().len() implies out.deep_view()[k]
            == enc_locations(v.deep_view())[k] by {
            assert(out.deep_view()[k] == out@[k].deep_view());
            assert(v.deep_view()[k] == v@[k].deep_view());
        }
        assert(out.deep_view() =~~= enc_locations(v.deep_view()));
    }
    out
}

/// Encodes every turn of a conversation.
fn encode_msgs(v: &Vec<ChatMessage>) -> (r: Vec<JsonValue>)
    ensures
        r.deep_view() == enc_msgs(v.deep_view()),
{
    let mut out: Vec<JsonValue> = Vec::new();
    let mut i: usize = 0;
    while i < v.len()
        invariant
            0 <= i <= v.len(),
            out@.len() == i,
            forall|k: int| 0 <= k < i ==> (#[trigger] out@[k]).deep_view() == enc_msg(
                v@[k].deep_view(),
            ),
        decreases v@.len() - i,
    {
        let mj = v[i].encode();
        let ghost jv = mj.deep_view();
        let ghost out0 = out@;
        out.push(mj);
        i = i + 1;
        proof {
            assert forall|k: int| 0 <= k < i implies (#[trigger] out@[k]).deep_view() == enc_msg(
                v@[k].deep_view(),
            ) by {
                if k < i - 1 {
                    assert(out@[k] == out0[k]);
                } else {
                    assert(out@[k].deep_view() == jv);
                }
            }
        }
    }
    proof {
        assert forall|k: int| 0 <= k < out.deep_view().len() implies out.deep_view()[k]
            == enc_msgs(v.deep_view())[k] by {
            assert(out.deep_view()[k] == out@[k].deep_view());
            assert(v.deep_view()[k] == v@[k].deep_view());
        }
        assert(out.deep_view() =~~= enc_msgs(v.deep_view()));
    }
    out
}

/// The wire shape of a whole extraction: one flat object, metadata fields at
/// the top level.
pub open spec fn enc_doc(d: DocumentDataV) -> JVal {
    JVal::Obj(
        seq![
            ("document"@, JVal::Str(d.document)),
            ("doctype"@, JVal::Str(d.metadata.doctype)),
            ("act_date"@, JVal::Str(d.metadata.act_date)),
            ("fact_date"@, JVal::Str(d.metadata.fact_date)),
            ("summary"@, enc_multi(d.metadata.summary)),
            ("persons"@, JVal::Arr(enc_persons(d.persons))),
            ("locations"@, JVal::Arr(enc_locations(d.locations))),
        ],
    )
}

/// Strict decode of a whole extraction: an object whose `document`, `doctype`,
/// `act_date` and `fact_date` fields are strings, whose `summary` decodes as a
/// four-language summary, and whose `persons` and `locations` are arrays of
/// decodable records.
pub open spec fn dec_doc(j: JVal) -> Option<DocumentDataV> {
    match j {
        JVal::Obj(o) => {
            let document = dec_str(lookup(o, "document"@));
            let doctype = dec_str(lookup(o, "doctype"@));
            let act_date = dec_str(lookup(o, "act_date"@));
            let fact_date = dec_str(lookup(o, "fact_date"@));
            let summary = match lookup(o, "summary"@) {
                Some(v) => dec_multi(v),
                None => None,
            };
            let persons = match lookup(o, "persons"@) {
                Some(JVal::Arr(a)) => dec_persons(a),
                _ => None,
            };
            let locations = match lookup(o, "locations"@) {
                Some(JVal::Arr(a)) => dec_locations(a),
                _ => None,
            };
            if document is Some && doctype is Some && act_date is Some && fact_date is Some
                && summary is Some && persons is Some && locations is Some {
                Some(
                    DocumentDataV {
                        document: document->Some_0,
                        metadata: MetadataV {
                            doctype: doctype->Some_0,
                            act_date: act_date->Some_0,
                            fact_date: fact_date->Some_0,
                            summary: summary->Some_0,
                        },
                        persons: persons->Some_0,
                        locations: locations->Some_0,
                    },
                )
            } else {
                None
            }
        },
        _ => None,
    }
}

impl DocumentData {
    /// Encodes the extraction as its flat wire object.
    pub fn encode(&self) -> (r: JsonValue)
        ensures
            r.deep_view() == enc_doc(self.deep_view()),
    {
        let parr = encode_persons(&self.persons);
        let larr = encode_locations(&self.locations);
        let mut fields: Vec<(String, JsonValue)> = Vec::new();
        fields.push((String::from_str("document"), JsonValue::Str(self.document.clone())));
        fields.push((String::from_str("doctype"), JsonValue::Str(self.metadata.doctype.clone())));
        fields.push(
            (String::from_str("act_date"), JsonValue::Str(self.metadata.act_date.clone())),
        );
        fields.push(
            (String::from_str("fact_date"), JsonValue::Str(self.metadata.fact_date.clone())),
        );
        fields.push((String::from_str("summary"), self.metadata.summary.encode()));
        proof {
            lemma_arr_elems(parr);
            lemma_arr_elems(larr);
        }
        fields.push((String::from_str("persons"), JsonValue::Arr(parr)));
        fields.push((String::from_str("locations"), JsonValue::Arr(larr)));
        let r = JsonValue::Obj(fields);
        proof {
            lemma_obj_fields(r->Obj_0);
            assert(r.deep_view()->Obj_0 =~~= enc_doc(self.deep_view())->Obj_0);
        }
        r
    }

    /// Strictly decodes an extraction; rejects anything that is not of the
    /// schema's shape.
    pub fn decode(j: &JsonValue) -> (r: Result<DocumentData, MergeError>)
        ensures
            match r {
                Ok(d) => dec_doc(j.deep_view()) == Some(d.deep_view()),
                Err(e) => e is SchemaMismatch && dec_doc(j.deep_view()) is None,
            },
    {
        match j {
            JsonValue::Obj(o) => {
                proof {
                    lemma_obj_fields(*o);
                }
                let document = get_str(o, &String::from_str("document"));
                let doctype = get_str(o, &String::from_str("doctype"));
                let act_date = get_str(o, &String::from_str("act_date"));
                let fact_date = get_str(o, &String::from_str("fact_date"));
                let (document, doctype, act_date, fact_date) = match (
                    document,
                    doctype,
                    act_date,
                    fact_date,
                ) {
                    (Some(a), Some(b), Some(c), Some(d)) => (a, b, c, d),
                    _ => {
                        return Err(MergeError::SchemaMismatch);
                    },
                };
                let summary = match lookup_field(o, &String::from_str("summary")) {
                    Some(v) => match MultiLingual::decode(v) {
                        Ok(m) => m,
                        Err(e) => {
                            return Err(e);
                        },
                    },
                    None => {
                        return Err(MergeError::SchemaMismatch);
                    },
                };
                let persons = match lookup_field(o, &String::from_str("persons")) {
                    Some(v) => match v {
                        JsonValue::Arr(a) => {
                            proof {
                                lemma_arr_elems(*a);
                            }
                            match decode_persons(a) {
                                Ok(ps) => ps,
                                Err(e) => {
                                    return Err(e);
                                },
                            }
                        },
                        _ => {
                            return Err(MergeError::SchemaMismatch);
                        },
                    },
                    None => {
                        return Err(MergeError::SchemaMismatch);
                    },
                };
                let locations = match lookup_field(o, &String::from_str("locations")) {
                    Some(v) => match v {
                        JsonValue::Arr(a) => {
                            proof {
                                lemma_arr_elems(*a);
                            }
                            match decode_locations(a) {
                                Ok(ls) => ls,
                                Err(e) => {
                                    return Err(e);
                                },
                            }
                        },
                        _ => {
                            return Err(MergeError::SchemaMismatch);
                        },
                    },
                    None => {
                        return Err(MergeError::SchemaMismatch);
                    },
                };
                let d = DocumentData {
                    document,
                    metadata: Metadata { doctype, act_date, fact_date, summary },
                    persons,
                    locations,
                };
                proof {
                    assert(dec_doc(j.deep_view())->Some_0 =~~= d.deep_view());
                }
                Ok(d)
            },
            _ => Err(MergeError::SchemaMismatch),
        }
    }
}

/// The seven top-level keys differ pairwise.
proof fn lemma_doc_keys_distinct()
    ensures
        "document"@ != "doctype"@,
        "document"@ != "act_date"@,
        "document"@ != "fact_date"@,
        "document"@ != "summary"@,
        "document"@ != "persons"@,
        "document"@ != "locations"@,
        "doctype"@ != "act_date"@,
        "doctype"@ != "fact_date"@,
        "doctype"@ != "summary"@,
        "doctype"@ != "persons"@,
        "doctype"@ != "locations"@,
        "act_date"@ != "fact_date"@,
        "act_date"@ != "summary"@,
        "act_date"@ != "persons"@,
        "act_date"@ != "locations"@,
        "fact_date"@ != "summary"@,
        "fact_date"@ != "persons"@,
        "fact_date"@ != "locations"@,
        "summary"@ != "persons"@,
        "summary"@ != "locations"@,
        "persons"@ != "locations"@,
{
    reveal_strlit("document");
    reveal_strlit("doctype");
    reveal_strlit("act_date");
    reveal_strlit("fact_date");
    reveal_strlit("summary");
    reveal_strlit("persons");
    reveal_strlit("locations");
    assert("document"@.len() == 8);
    assert("doctype"@.len() == 7);
    assert("act_date"@.len() == 8);
    assert("fact_date"@.len() == 9);
    assert("summary"@.len() == 7);
    assert("persons"@.len() == 7);
    assert("locations"@.len() == 9);
    assert("document"@[0] != "act_date"@[0]);
    assert("doctype"@[0] != "summary"@[0]);
    assert("doctype"@[0] != "persons"@[0]);
    assert("summary"@[0] != "persons"@[0]);
    assert("fact_date"@[0] != "locations"@[0]);
}

/// Decoding an encoded extraction gives the extraction back.
pub proof fn lemma_doc_round_trip(d: DocumentDataV)
    ensures
        dec_doc(enc_doc(d)) == Some(d),
{
    lemma_doc_keys_distinct();
    let o = enc_doc(d)->Obj_0;
    lemma_lookup_at(o, "document"@, 0);
    lemma_lookup_at(o, "doctype"@, 1);
    lemma_lookup_at(o, "act_date"@, 2);
    lemma_lookup_at(o, "fact_date"@, 3);
    lemma_lookup_at(o, "summary"@, 4);
    lemma_lookup_at(o, "persons"@, 5);
    lemma_lookup_at(o, "locations"@, 6);
    lemma_multi_round_trip(d.metadata.summary);
    lemma_persons_round_trip(d.persons);
    lemma_locations_round_trip(d.locations);
    assert(dec_doc(enc_doc(d))->Some_0 =~~= d);
}

/// The wire shape of the whole application state.
pub open spec fn enc_state(s: ApplicationStateV) -> JVal {
    JVal::Obj(
        seq![
            ("document_data"@, enc_doc(s.document_data)),
            ("conversation"@, JVal::Arr(enc_msgs(s.conversation))),
        ],
    )
}

/// Strict decode of the whole application state.
pub open spec fn dec_state(j: JVal) -> Option<ApplicationStateV> {
    match j {
        JVal::Obj(o) => {
            let dd = match lookup(o, "document_data"@) {
                Some(v) => dec_doc(v),
                None => None,
            };
            let conv = match lookup(o, "conversation"@) {
                Some(JVal::Arr(a)) => dec_msgs(a),
                _ => None,
            };
            if dd is Some && conv is Some {
                Some(ApplicationStateV { document_data: dd->Some_0, conversation: conv->Some_0 })
            } else {
                None
            }
        },
        _ => None,
    }
}

impl ApplicationState {
    /// Encodes the state as its wire object.
    pub fn encode(&self) -> (r: JsonValue)
        ensures
            r.deep_view() == enc_state(self.deep_view()),
    {
        let conv = encode_msgs(&self.conversation);
        let mut fields: Vec<(String, JsonValue)> = Vec::new();
        fields.push((String::from_str("document_data"), self.document_data.encode()));
        proof {
            lemma_arr_elems(conv);
        }
        fields.push((String::from_str("conversation"), JsonValue::Arr(conv)));
        let r = JsonValue::Obj(fields);
        proof {
            lemma_obj_fields(r->Obj_0);
            assert(r.deep_view()->Obj_0 =~~= enc_state(self.deep_view())->Obj_0);
        }
        r
    }

    /// Strictly decodes an application state.
    pub fn decode(j: &JsonValue) -> (r: Result<ApplicationState, MergeError>)
        ensures
            match r {
                Ok(s) => dec_state(j.deep_view()) == Some(s.deep_view()),
                Err(e) => e is SchemaMismatch && dec_state(j.deep_view()) is None,
            },
    {
        match j {
            JsonValue::Obj(o) => {
                proof {
                    lemma_obj_fields(*o);
                }
                let document_data = match lookup_field(o, &String::from_str("document_data")) {
                    Some(v) => match DocumentData::decode(v) {
                        Ok(d) => d,
                        Err(e) => {
                            return Err(e);
                        },
                    },
                    None => {
                        return Err(MergeError::SchemaMismatch);
                    },
                };
                let conversation = match lookup_field(o, &String::from_str("conversation")) {
                    Some(v) => match v {
                        JsonValue::Arr(a) => {
                            proof {
                                lemma_arr_elems(*a);
                            }
                            match decode_msgs(a) {
                                Ok(ms) => ms,
                                Err(e) => {
                                    return Err(e);
                                },
                            }
                        },
                        _ => {
                            return Err(MergeError::SchemaMismatch);
                        },
                    },
                    None => {
                        return Err(MergeError::SchemaMismatch);
                    },
                };
                let s = ApplicationState { document_data, conversation };
                proof {
                    assert(dec_state(j.deep_view())->Some_0 =~~= s.deep_view());
                }
                Ok(s)
            },
            _ => Err(MergeError::SchemaMismatch),
        }
    }
}

/// Encoding then decoding an application state gives an equal state back: the
/// wire form is lossless for the schema.
pub proof fn lemma_state_round_trip(s: ApplicationStateV)
    ensures
        dec_state(enc_state(s)) == Some(s),
{
    reveal_strlit("document_data");
    reveal_strlit("conversation");
    assert("document_data"@.len() == 13);
    assert("conversation"@.len() == 12);
    let o = enc_state(s)->Obj_0;
    lemma_lookup_at(o, "document_data"@, 0);
    lemma_lookup_at(o, "conversation"@, 1);
    lemma_doc_round_trip(s.document_data);
    lemma_msgs_round_trip(s.conversation);
    assert(dec_state(enc_state(s))->Some_0 =~~= s);
}

/// An encoded summary can be handed to the JSON printer.
proof fn lemma_emit_multi(m: MultiLingualV)
    ensures
        crate::json::emittable(enc_multi(m)),
{
    lemma_multi_keys_distinct();
    let o = enc_multi(m)->Obj_0;
    assert(crate::json::emittable(JVal::Str(m.en)));
    assert(crate::json::emittable(JVal::Str(m.fr)));
    assert(crate::json::emittable(JVal::Str(m.nl)));
    assert(crate::json::emittable(JVal::Str(m.de)));
    assert(forall|i: int| 0 <= i < o.len() ==> crate::json::emittable(#[trigger] o[i].1));
}

/// An encoded person can be handed to the JSON printer.
proof fn lemma_emit_person(p: PersonV)
    ensures
        crate::json::emittable(enc_person(p)),
{
    lemma_person_keys_distinct();
    let o = enc_person(p)->Obj_0;
    assert(crate::json::emittable(JVal::Str(p.firstname)));
    assert(crate::json::emittable(JVal::Str(p.lastname)));
    assert(crate::json::emittable(JVal::Str(p.role)));
    assert(crate::json::emittable(JVal::Str(p.function)));
    assert(forall|i: int| 0 <= i < o.len() ==> crate::json::emittable(#[trigger] o[i].1));
}

/// An encoded location can be handed to the JSON printer.
proof fn lemma_emit_location(l: LocationV)
    ensures
        crate::json::emittable(enc_location(l)),
{
    reveal_strlit("name");
    reveal_strlit("loctype");
    assert("name"@.len() != "loctype"@.len());
    let o = enc_location(l)->Obj_0;
    assert(crate::json::emittable(JVal::Str(l.name)));
    assert(crate::json::emittable(JVal::Str(l.loctype)));
    assert(forall|i: int| 0 <= i < o.len() ==> crate::json::emittable(#[trigger] o[i].1));
}

/// An encoded turn can be handed to the JSON printer.
proof fn lemma_emit_msg(m: ChatMessageV)
    ensures
        crate::json::emittable(enc_msg(m)),
{
    reveal_strlit("role");
    reveal_strlit("content");
    assert("role"@.len() != "content"@.len());
    let o = enc_msg(m)->Obj_0;
    assert(crate::json::emittable(JVal::Str(role_text(m.role))));
    assert(crate::json::emittable(JVal::Str(m.content)));
    assert(forall|i: int| 0 <= i < o.len() ==> crate::json::emittable(#[trigger] o[i].1));
}

/// An encoded extraction can be handed to the JSON printer.
proof fn lemma_emit_doc(d: DocumentDataV)
    ensures
        crate::json::emittable(enc_doc(d)),
{
    lemma_doc_keys_distinct();
    lemma_emit_multi(d.metadata.summary);
    let ps = enc_persons(d.persons);
    assert forall|i: int| 0 <= i < ps.len() implies crate::json::emittable(#[trigger] ps[i]) by {
        lemma_emit_person(d.persons[i]);
    }
    let ls = enc_locations(d.locations);
    assert forall|i: int| 0 <= i < ls.len() implies crate::json::emittable(#[trigger] ls[i]) by {
        lemma_emit_location(d.locations[i]);
    }
    assert(crate::json::emittable(JVal::Arr(ps)));
    assert(crate::json::emittable(JVal::Arr(ls)));
    let o = enc_doc(d)->Obj_0;
    assert(crate::json::emittable(JVal::Str(d.document)));
    assert(crate::json::emittable(JVal::Str(d.metadata.doctype)));
    assert(crate::json::emittable(JVal::Str(d.metadata.act_date)));
    assert(crate::json::emittable(JVal::Str(d.metadata.fact_date)));
    assert(forall|i: int| 0 <= i < o.len() ==> crate::json::emittable(#[trigger] o[i].1));
}

/// An encoded application state can be handed to the JSON printer.
pub proof fn lemma_emit_state(s: ApplicationStateV)
    ensures
        crate::json::emittable(enc_state(s)),
{
    reveal_strlit("document_data");
    reveal_strlit("conversation");
    assert("document_data"@.len() != "conversation"@.len());
    lemma_emit_doc(s.document_data);
    let ms = enc_msgs(s.conversation);
    assert forall|i: int| 0 <= i < ms.len() implies crate::json::emittable(#[trigger] ms[i]) by {
        lemma_emit_msg(s.conversation[i]);
    }
    assert(crate::json::emittable(JVal::Arr(ms)));
    let o = enc_state(s)->Obj_0;
    assert(forall|i: int| 0 <= i < o.len() ==> crate::json::emittable(#[trigger] o[i].1));
}

impl ApplicationState {
    /// Pretty-prints the state's wire object as JSON text.
    pub fn to_json(&self) -> (r: String)
        ensures
            r@ == crate::json::pretty_text(enc_state(self.deep_view())),
    {
        let j = self.encode();
        proof {
            lemma_emit_state(self.deep_view());
        }
        crate::json::render_json(&j)
    }

    /// Parses JSON text and strictly decodes it as an application state.
    pub fn from_json(text: &str) -> (r: Result<ApplicationState, MergeError>)
        ensures
            match r {
                Ok(s) => crate::json::parsed_json(text@) matches Some(j) && dec_state(j) == Some(
                    s.deep_view(),
                ),
                Err(e) => {
                    &&& (e is MalformedModelOutput <==> crate::json::parsed_json(text@) is None)
                    &&& (e is SchemaMismatch <==> (crate::json::parsed_json(text@) matches Some(j)
                        && dec_state(j) is None))
                    &&& !(e is GatewayError)
                },
            },
    {
        match crate::json::parse_json(text) {
            Some(j) => ApplicationState::decode(&j),
            None => Err(MergeError::MalformedModelOutput),
        }
    }
}

} // verus!
