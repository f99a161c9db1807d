//! JSON values as plain data: what the rules read out of an answer and what
//! they put into one. Text in and out of this form is the caller's business.

use vstd::prelude::*;

use crate::text::same;

verus! {

/// A JSON value.
#[derive(Debug)]
pub enum Json {
    Null,
    Bool(bool),
    /// A whole number from zero up.
    Unsigned(u64),
    /// A whole number below zero.
    Negative(i64),
    /// Any other number; no rule reads it.
    Real,
    Text(String),
    List(Vec<Json>),
    /// Fields in the order they are written.
    Object(Vec<(String, Json)>),
}

/// What a JSON value means.
pub enum JsonModel {
    Null,
    Bool(bool),
    Int(int),
    Real,
    Text(Seq<char>),
    List(Seq<JsonModel>),
    Object(Seq<(Seq<char>, JsonModel)>),
}

impl Json {
    /// What this value means.
    pub open spec fn model(self) -> JsonModel
        decreases self,
    {
        match self {
            Json::Null => JsonModel::Null,
            Json::Bool(b) => JsonModel::Bool(b),
            Json::Unsigned(n) => JsonModel::Int(n as int),
            Json::Negative(n) => JsonModel::Int(n as int),
            Json::Real => JsonModel::Real,
            Json::Text(s) => JsonModel::Text(s@),
            Json::List(v) => JsonModel::List(
                Seq::new(
                    v@.len(),
                    |i: int|
                        if 0 <= i < v@.len() {
                            v@[i].model()
                        } else {
                            JsonModel::Null
                        },
                ),
            ),
            Json::Object(v) => JsonModel::Object(
                Seq::new(
                    v@.len(),
                    |i: int|
                        if 0 <= i < v@.len() {
                            (v@[i].0@, v@[i].1.model())
                        } else {
                            (Seq::empty(), JsonModel::Null)
                        },
                ),
            ),
        }
    }
}

/// What a list of values means.
pub open spec fn list_model(v: Seq<Json>) -> Seq<JsonModel> {
    Seq::new(v.len(), |i: int| v[i].model())
}

/// What a list of fields means.
pub open spec fn fields_model(v: Seq<(String, Json)>) -> Seq<(Seq<char>, JsonModel)> {
    Seq::new(v.len(), |i: int| (v[i].0@, v[i].1.model()))
}

/// The value of the first field called `key`.
pub open spec fn member(fields: Seq<(Seq<char>, JsonModel)>, key: Seq<char>) -> Option<JsonModel>
    decreases fields.len(),
{
    if fields.len() == 0 {
        None
    } else if fields[0].0 == key {
        Some(fields[0].1)
    } else {
        member(fields.skip(1), key)
    }
}

/// The value of the field `key`, if `v` is an object that has it.
pub open spec fn lookup(v: JsonModel, key: Seq<char>) -> Option<JsonModel> {
    match v {
        JsonModel::Object(fields) => member(fields, key),
        _ => None,
    }
}

/// The text of the field `key`, if it is text.
pub open spec fn lookup_text(v: JsonModel, key: Seq<char>) -> Option<Seq<char>> {
    match lookup(v, key) {
        Some(JsonModel::Text(s)) => Some(s),
        _ => None,
    }
}

/// The number in the field `key`, if it is a whole number that fits in 64 bits
/// with a sign.
pub open spec fn lookup_int(v: JsonModel, key: Seq<char>) -> Option<int> {
    match lookup(v, key) {
        Some(JsonModel::Int(n)) if i64::MIN <= n <= i64::MAX => Some(n),
        _ => None,
    }
}

/// An optional text as a JSON value.
pub open spec fn text_or_null(s: Option<String>) -> JsonModel {
    match s {
        Some(t) => JsonModel::Text(t@),
        None => JsonModel::Null,
    }
}

/// An optional number as a JSON value.
pub open spec fn int_or_null(n: Option<int>) -> JsonModel {
    match n {
        Some(v) => JsonModel::Int(v),
        None => JsonModel::Null,
    }
}

impl Json {
    /// A text value.
    pub fn text(s: &str) -> (r: Json)
        ensures
            r.model() == JsonModel::Text(s@),
    {
        Json::Text(s.to_owned())
    }

    /// A signed number.
    pub fn whole(n: i32) -> (r: Json)
        ensures
            r.model() == JsonModel::Int(n as int),
    {
        if n < 0 {
            Json::Negative(n as i64)
        } else {
            Json::Unsigned(n as u64)
        }
    }

    /// A text value, or null.
    pub fn opt_text(s: &Option<String>) -> (r: Json)
        ensures
            r.model() == text_or_null(*s),
    {
        match s {
            Some(t) => Json::text(t.as_str()),
            None => Json::Null,
        }
    }

    /// A number, or null.
    pub fn opt_i32(n: &Option<i32>) -> (r: Json)
        ensures
            r.model() == int_or_null(
                match *n {
                    Some(v) => Some(v as int),
                    None => None,
                },
            ),
    {
        match n {
            Some(v) => Json::whole(*v),
            None => Json::Null,
        }
    }

    /// A number, or null.
    pub fn opt_u64(n: &Option<u64>) -> (r: Json)
        ensures
            r.model() == int_or_null(
                match *n {
                    Some(v) => Some(v as int),
                    None => None,
                },
            ),
    {
        match n {
            Some(v) => Json::Unsigned(*v),
            None => Json::Null,
        }
    }

    /// An object of these fields.
    pub fn object(fields: Vec<(String, Json)>) -> (r: Json)
        ensures
            r.model() == JsonModel::Object(fields_model(fields@)),
    {
        let r = Json::Object(fields);
        assert(r.model()->Object_0 =~= fields_model(fields@));
        r
    }

    /// A list of these values.
    pub fn list(items: Vec<Json>) -> (r: Json)
        ensures
            r.model() == JsonModel::List(list_model(items@)),
    {
        let r = Json::List(items);
        assert(r.model()->List_0 =~= list_model(items@));
        r
    }

    /// The value of the field `key`.
    pub fn get(&self, key: &str) -> (r: Option<&Json>)
        ensures
            r is Some <==> lookup(self.model(), key@) is Some,
            r matches Some(v) ==> lookup(self.model(), key@) == Some(v.model()),
    {
        match self {
            Json::Object(fields) => {
                let ghost all = fields_model(fields@);
                proof {
                    assert(self.model()->Object_0 =~= all);
                    assert(all.skip(0) =~= all);
                }
                let mut i: usize = 0;
                while i < fields.len()
                    invariant
                        i <= fields@.len(),
                        all == fields_model(fields@),
                        self.model() == JsonModel::Object(all),
                        member(all, key@) == member(all.skip(i as int), key@),
                    decreases fields@.len() - i,
                {
                    proof {
                        assert(all.skip(i as int)[0] == (fields@[i as int].0@, fields@[i as int].1.model()));
                        assert(all.skip(i as int).skip(1) =~= all.skip(i + 1));
                    }
                    if same(fields[i].0.as_str(), key) {
                        return Some(&fields[i].1);
                    }
                    i += 1;
                }
                None
            },
            _ => None,
        }
    }

    /// The text of the field `key`.
    pub fn get_text(&self, key: &str) -> (r: Option<&str>)
        ensures
            r is Some <==> lookup_text(self.model(), key@) is Some,
            r matches Some(s) ==> lookup_text(self.model(), key@) == Some(s@),
    {
        match self.get(key) {
            Some(Json::Text(s)) => Some(s.as_str()),
            _ => None,
        }
    }

    /// The number in the field `key`.
    pub fn get_int(&self, key: &str) -> (r: Option<i64>)
        ensures
            r is Some <==> lookup_int(self.model(), key@) is Some,
            r matches Some(n) ==> lookup_int(self.model(), key@) == Some(n as int),
    {
        match self.get(key) {
            Some(Json::Unsigned(n)) => if *n <= i64::MAX as u64 {
                Some(*n as i64)
            } else {
                None
            },
            Some(Json::Negative(n)) => Some(*n),
            _ => None,
        }
    }
}

/// Appends a field.
pub fn push_field(fields: &mut Vec<(String, Json)>, key: &str, value: Json)
    ensures
        fields_model(final(fields)@) == fields_model(old(fields)@).push((key@, value.model())),
{
    fields.push((key.to_owned(), value));
    assert(fields_model(fields@) =~= fields_model(old(fields)@).push((key@, value.model())));
}

/// Appends a list item.
pub fn push_item(items: &mut Vec<Json>, value: Json)
    ensures
        list_model(final(items)@) == list_model(old(items)@).push(value.model()),
{
    items.push(value);
    assert(list_model(items@) =~= list_model(old(items)@).push(value.model()));
}

/// Fields that begin with the `type` of the object.
pub fn typed(kind: &str) -> (r: Vec<(String, Json)>)
    ensures
        fields_model(r@) == seq![("type"@, JsonModel::Text(kind@))],
{
    let mut fields: Vec<(String, Json)> = Vec::new();
    push_field(&mut fields, "type", Json::text(kind));
    assert(fields_model(fields@) =~= seq![("type"@, JsonModel::Text(kind@))]);
    fields
}

/// A field that was appended under a new name is found, and nothing else moves.
pub proof fn lemma_member_push(
    fields: Seq<(Seq<char>, JsonModel)>,
    key: Seq<char>,
    value: JsonModel,
    other: Seq<char>,
)
    ensures
        member(fields, other) is Some ==> member(fields.push((key, value)), other) == member(
            fields,
            other,
        ),
        member(fields, other) is None && other == key ==> member(
            fields.push((key, value)),
            other,
        ) == Some(value),
        member(fields, other) is None && other != key ==> member(
            fields.push((key, value)),
            other,
        ) is None,
    decreases fields.len(),
{
    let all = fields.push((key, value));
    if fields.len() == 0 {
        assert(all.skip(1) =~= Seq::<(Seq<char>, JsonModel)>::empty());
        assert(member(all.skip(1), other) is None);
    } else {
        lemma_member_push(fields.skip(1), key, value, other);
        assert(all.skip(1) =~= fields.skip(1).push((key, value)));
    }
}

/// The value of the first field called `key` from field `i` on.
pub open spec fn member_from(
    fields: Seq<(Seq<char>, JsonModel)>,
    key: Seq<char>,
    i: int,
) -> Option<JsonModel>
    decreases fields.len() - i,
{
    if i < 0 || i >= fields.len() {
        None
    } else if fields[i].0 == key {
        Some(fields[i].1)
    } else {
        member_from(fields, key, i + 1)
    }
}

proof fn lemma_member_after(fields: Seq<(Seq<char>, JsonModel)>, key: Seq<char>, i: int)
    requires
        0 <= i <= fields.len(),
    ensures
        member(fields.skip(i), key) == member_from(fields, key, i),
    decreases fields.len() - i,
{
    if i < fields.len() {
        lemma_member_after(fields, key, i + 1);
        assert(fields.skip(i).skip(1) =~= fields.skip(i + 1));
    }
}

/// A field is found by going through the fields one by one.
pub proof fn lemma_member_from(fields: Seq<(Seq<char>, JsonModel)>, key: Seq<char>)
    ensures
        member(fields, key) == member_from(fields, key, 0),
{
    lemma_member_after(fields, key, 0);
    assert(fields.skip(0) =~= fields);
}

/// The first field called `key` is the one that is found.
pub proof fn lemma_member_at(fields: Seq<(Seq<char>, JsonModel)>, key: Seq<char>, at: int)
    requires
        0 <= at < fields.len(),
        fields[at].0 == key,
        forall|i: int| 0 <= i < at ==> (#[trigger] fields[i]).0 != key,
    ensures
        member(fields, key) == Some(fields[at].1),
    decreases at,
{
    if at > 0 {
        assert(fields[0].0 != key);
        assert forall|i: int| 0 <= i < at - 1 implies (#[trigger] fields.skip(1)[i]).0 != key by {
            assert(fields.skip(1)[i] == fields[i + 1]);
        }
        lemma_member_at(fields.skip(1), key, at - 1);
    }
}

/// A name that no field has is not found.
pub proof fn lemma_member_absent(fields: Seq<(Seq<char>, JsonModel)>, key: Seq<char>)
    requires
        forall|i: int| 0 <= i < fields.len() ==> (#[trigger] fields[i]).0 != key,
    ensures
        member(fields, key) is None,
    decreases fields.len(),
{
    if fields.len() > 0 {
        assert forall|i: int| 0 <= i < fields.len() - 1 implies (#[trigger] fields.skip(1)[i]).0
            != key by {
            assert(fields.skip(1)[i] == fields[i + 1]);
        }
        lemma_member_absent(fields.skip(1), key);
    }
}

/// A field that is written only where there is a text.
pub open spec fn opt_text_field(key: Seq<char>, s: Option<String>) -> Seq<
    (Seq<char>, JsonModel),
> {
    match s {
        Some(t) => seq![(key, JsonModel::Text(t@))],
        None => Seq::empty(),
    }
}

/// A field that is written only where there is a number.
pub open spec fn opt_int_field(key: Seq<char>, n: Option<u64>) -> Seq<(Seq<char>, JsonModel)> {
    match n {
        Some(v) => seq![(key, JsonModel::Int(v as int))],
        None => Seq::empty(),
    }
}

/// Appends a text field, or nothing.
pub fn push_opt_text(fields: &mut Vec<(String, Json)>, key: &str, value: &Option<String>)
    ensures
        fields_model(final(fields)@) == fields_model(old(fields)@) + opt_text_field(key@, *value),
{
    if let Some(t) = value {
        push_field(fields, key, Json::text(t.as_str()));
    }
    assert(fields_model(fields@) =~= fields_model(old(fields)@) + opt_text_field(key@, *value));
}

/// Appends a number field, or nothing.
pub fn push_opt_u64(fields: &mut Vec<(String, Json)>, key: &str, value: &Option<u64>)
    ensures
        fields_model(final(fields)@) == fields_model(old(fields)@) + opt_int_field(key@, *value),
{
    if let Some(n) = value {
        push_field(fields, key, Json::Unsigned(*n));
    }
    assert(fields_model(fields@) =~= fields_model(old(fields)@) + opt_int_field(key@, *value));
}

/// A list of texts as a JSON value.
pub open spec fn texts_model(v: Seq<Seq<char>>) -> JsonModel {
    JsonModel::List(Seq::new(v.len(), |i: int| JsonModel::Text(v[i])))
}

/// A list of texts.
pub fn texts(v: &Vec<String>) -> (r: Json)
    ensures
        r.model() == texts_model(crate::text::views(v@)),
{
    let mut items: Vec<Json> = Vec::new();
    let mut i: usize = 0;
    let ghost all = texts_model(crate::text::views(v@))->List_0;
    assert(list_model(items@) =~= all.take(0));
    while i < v.len()
        invariant
            i <= v@.len(),
            all == texts_model(crate::text::views(v@))->List_0,
            list_model(items@) == all.take(i as int),
        decreases v@.len() - i,
    {
        push_item(&mut items, Json::text(v[i].as_str()));
        i += 1;
        assert(list_model(items@) =~= all.take(i as int));
    }
    assert(all.take(i as int) =~= all);
    Json::list(items)
}

} // verus!
