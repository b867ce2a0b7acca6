//! JSON values as trees, and the reading of their members.

use vstd::prelude::*;

verus! {

/// A JSON value over plain values. The members of an object keep their order.
pub ghost enum JsonModel {
    Null,
    Bool(bool),
    Int(int),
    Real(Seq<char>),
    Str(Seq<char>),
    Array(Seq<JsonModel>),
    Object(Seq<(Seq<char>, JsonModel)>),
}

/// A member of a JSON object.
#[derive(Debug)]
pub struct Member {
    /// Name of the member.
    pub key: String,
    /// Value of the member.
    pub value: Json,
}

/// A JSON value.
#[derive(Debug)]
pub enum Json {
    /// `null`.
    Null,
    /// `true` or `false`.
    Bool(bool),
    /// A whole number that fits 64 bits with a sign.
    Int(i64),
    /// Any other number, as it is written.
    Real(String),
    /// A text.
    Str(String),
    /// A list of values.
    Array(Vec<Json>),
    /// A record of named values, in their order.
    Object(Vec<Member>),
}

/// The values of a run of JSON values.
pub open spec fn views(items: Seq<Json>) -> Seq<JsonModel>
    decreases items,
{
    Seq::new(
        items.len(),
        |i: int|
            if 0 <= i < items.len() {
                items[i].view()
            } else {
                JsonModel::Null
            },
    )
}

/// The members of a run of members.
pub open spec fn member_views(members: Seq<Member>) -> Seq<(Seq<char>, JsonModel)>
    decreases members,
{
    Seq::new(
        members.len(),
        |i: int|
            if 0 <= i < members.len() {
                (members[i].key@, members[i].value.view())
            } else {
                (Seq::empty(), JsonModel::Null)
            },
    )
}

impl View for Json {
    type V = JsonModel;

    open spec fn view(&self) -> JsonModel
        decreases self,
    {
        match self {
            Json::Null => JsonModel::Null,
            Json::Bool(b) => JsonModel::Bool(*b),
            Json::Int(i) => JsonModel::Int(*i as int),
            Json::Real(s) => JsonModel::Real(s@),
            Json::Str(s) => JsonModel::Str(s@),
            Json::Array(items) => JsonModel::Array(views(items@)),
            Json::Object(members) => JsonModel::Object(member_views(members@)),
        }
    }
}

/// Whether a tree holds whole numbers only: no number in it is kept as text.
pub open spec fn whole_numbers(tree: JsonModel) -> bool
    decreases tree,
{
    match tree {
        JsonModel::Real(_) => false,
        JsonModel::Array(items) => forall|i: int|
            0 <= i < items.len() ==> whole_numbers(#[trigger] items[i]),
        JsonModel::Object(members) => whole_members(members),
        _ => true,
    }
}

/// Whether the values of a run of members hold whole numbers only.
pub open spec fn whole_members(members: Seq<(Seq<char>, JsonModel)>) -> bool
    decreases members,
{
    forall|i: int| 0 <= i < members.len() ==> whole_numbers((#[trigger] members[i]).1)
}

/// A run of members holds whole numbers only after one more was put exactly
/// where it did before and the value put does.
pub proof fn lemma_whole_put(members: Seq<(Seq<char>, JsonModel)>, key: Seq<char>, value: JsonModel)
    ensures
        whole_members(members.push((key, value))) <==> whole_members(members) && whole_numbers(
            value,
        ),
{
    let longer = members.push((key, value));
    if whole_members(longer) {
        assert forall|i: int| 0 <= i < members.len() implies whole_numbers(
            (#[trigger] members[i]).1,
        ) by {
            assert(longer[i] == members[i]);
        }
        assert(longer[members.len() as int] == (key, value));
    }
    if whole_members(members) && whole_numbers(value) {
        assert forall|i: int| 0 <= i < longer.len() implies whole_numbers(
            (#[trigger] longer[i]).1,
        ) by {
            if i < members.len() {
                assert(longer[i] == members[i]);
            }
        }
    }
}

/// The same where a member is put only if there is a value.
pub proof fn lemma_whole_put_opt(
    members: Seq<(Seq<char>, JsonModel)>,
    key: Seq<char>,
    value: Option<JsonModel>,
)
    requires
        whole_members(members),
        value matches Some(v) ==> whole_numbers(v),
    ensures
        whole_members(
            match value {
                Some(v) => members.push((key, v)),
                None => members,
            },
        ),
{
    if value is Some {
        lemma_whole_put(members, key, value->Some_0);
    }
}

/// The value of the last member of a given name, if there is one.
pub open spec fn lookup(members: Seq<(Seq<char>, JsonModel)>, key: Seq<char>) -> Option<JsonModel>
    decreases members.len(),
{
    if members.len() == 0 {
        None
    } else if members.last().0 == key {
        Some(members.last().1)
    } else {
        lookup(members.drop_last(), key)
    }
}

/// The value of an optional member: the last member of the name, unless
/// there is none or it is `null`.
pub open spec fn present(members: Seq<(Seq<char>, JsonModel)>, key: Seq<char>) -> Option<JsonModel> {
    match lookup(members, key) {
        Some(v) => if v is Null {
            None
        } else {
            Some(v)
        },
        None => None,
    }
}

/// What the reading of an optional member that is there gives: the value
/// read, or `None` where the member is not of its type.
pub open spec fn found<T>(read: Option<T>) -> Option<Option<T>> {
    match read {
        Some(x) => Some(Some(x)),
        None => None,
    }
}

/// The members with one more at the end.
pub open spec fn put(members: Seq<(Seq<char>, JsonModel)>, key: Seq<char>, value: JsonModel) -> Seq<
    (Seq<char>, JsonModel),
> {
    members.push((key, value))
}

/// The members with one more at the end where there is a value, and as
/// they are where there is none.
pub open spec fn put_opt(
    members: Seq<(Seq<char>, JsonModel)>,
    key: Seq<char>,
    value: Option<JsonModel>,
) -> Seq<(Seq<char>, JsonModel)> {
    match value {
        Some(v) => members.push((key, v)),
        None => members,
    }
}

/// What a lookup finds after a member was put.
pub broadcast proof fn lemma_lookup_put(
    members: Seq<(Seq<char>, JsonModel)>,
    key: Seq<char>,
    value: JsonModel,
    wanted: Seq<char>,
)
    ensures
        #[trigger] lookup(put(members, key, value), wanted) == if key == wanted {
            Some(value)
        } else {
            lookup(members, wanted)
        },
{
    assert(members.push((key, value)).drop_last() =~= members);
}

/// What a lookup finds after a member was put where there was a value.
pub broadcast proof fn lemma_lookup_put_opt(
    members: Seq<(Seq<char>, JsonModel)>,
    key: Seq<char>,
    value: Option<JsonModel>,
    wanted: Seq<char>,
)
    ensures
        #[trigger] lookup(put_opt(members, key, value), wanted) == if key == wanted
            && value is Some {
            value
        } else {
            lookup(members, wanted)
        },
{
    if value is Some {
        lemma_lookup_put(members, key, value->Some_0, wanted);
    }
}

/// A lookup among no members finds nothing.
pub broadcast proof fn lemma_lookup_empty(wanted: Seq<char>)
    ensures
        #[trigger] lookup(Seq::empty(), wanted) is None,
{
}

impl JsonModel {
    /// The value of the member of a given name, where this is an object
    /// that has one.
    pub open spec fn member(self, key: Seq<char>) -> Option<JsonModel> {
        match self {
            JsonModel::Object(members) => lookup(members, key),
            _ => None,
        }
    }

    /// The number, where this is a whole number from 0 to 255.
    pub open spec fn as_u8(self) -> Option<u8> {
        match self {
            JsonModel::Int(i) => if 0 <= i <= u8::MAX {
                Some(i as u8)
            } else {
                None
            },
            _ => None,
        }
    }

    /// The number, where this is a whole number that fits 32 bits unsigned.
    pub open spec fn as_u32(self) -> Option<u32> {
        match self {
            JsonModel::Int(i) => if 0 <= i <= u32::MAX {
                Some(i as u32)
            } else {
                None
            },
            _ => None,
        }
    }

    /// The number, where this is a whole number that fits 64 bits signed.
    pub open spec fn as_i64(self) -> Option<i64> {
        match self {
            JsonModel::Int(i) => if i64::MIN <= i <= i64::MAX {
                Some(i as i64)
            } else {
                None
            },
            _ => None,
        }
    }

    /// The truth value, where this is one.
    pub open spec fn as_bool(self) -> Option<bool> {
        match self {
            JsonModel::Bool(b) => Some(b),
            _ => None,
        }
    }

    /// The text, where this is one.
    pub open spec fn as_str(self) -> Option<Seq<char>> {
        match self {
            JsonModel::Str(s) => Some(s),
            _ => None,
        }
    }

    /// The items, where this is a list.
    pub open spec fn as_array(self) -> Option<Seq<JsonModel>> {
        match self {
            JsonModel::Array(items) => Some(items),
            _ => None,
        }
    }
}

/// A list of texts as a JSON value.
pub open spec fn encode_texts(texts: Seq<Seq<char>>) -> JsonModel {
    JsonModel::Array(Seq::new(texts.len(), |i: int| JsonModel::Str(texts[i])))
}

/// The list of texts that a JSON value is, if it is one.
pub open spec fn decode_texts(j: JsonModel) -> Option<Seq<Seq<char>>> {
    match j {
        JsonModel::Array(items) => if forall|i: int|
            0 <= i < items.len() ==> (#[trigger] items[i]).as_str() is Some {
            Some(Seq::new(items.len(), |i: int| items[i].as_str()->Some_0))
        } else {
            None
        },
        _ => None,
    }
}

/// A list of small numbers as a JSON value.
pub open spec fn encode_bytes(bytes: Seq<u8>) -> JsonModel {
    JsonModel::Array(Seq::new(bytes.len(), |i: int| JsonModel::Int(bytes[i] as int)))
}

/// The list of numbers from 0 to 255 that a JSON value is, if it is one.
pub open spec fn decode_bytes(j: JsonModel) -> Option<Seq<u8>> {
    match j {
        JsonModel::Array(items) => if forall|i: int|
            0 <= i < items.len() ==> (#[trigger] items[i]).as_u8() is Some {
            Some(Seq::new(items.len(), |i: int| items[i].as_u8()->Some_0))
        } else {
            None
        },
        _ => None,
    }
}

/// A list of texts is read back from its JSON value.
pub proof fn lemma_texts_round_trip(texts: Seq<Seq<char>>)
    ensures
        decode_texts(encode_texts(texts)) == Some(texts),
{
    assert(decode_texts(encode_texts(texts))->Some_0 =~= texts);
}

/// A list of small numbers is read back from its JSON value.
pub proof fn lemma_bytes_round_trip(bytes: Seq<u8>)
    ensures
        decode_bytes(encode_bytes(bytes)) == Some(bytes),
{
    assert(decode_bytes(encode_bytes(bytes))->Some_0 =~= bytes);
}

/// A list of texts, and a list of small numbers, hold whole numbers only.
pub proof fn lemma_whole_lists(texts: Seq<Seq<char>>, bytes: Seq<u8>)
    ensures
        whole_numbers(encode_texts(texts)),
        whole_numbers(encode_bytes(bytes)),
{
    reveal_with_fuel(whole_numbers, 2);
}

/// The texts of a run of strings.
pub open spec fn texts(strings: Seq<String>) -> Seq<Seq<char>> {
    Seq::new(strings.len(), |i: int| strings[i]@)
}

/// A number as JSON writes it: whole, or any other as its text.
#[derive(Debug, Clone, PartialEq, Eq)]
pub enum Number {
    /// A whole number that fits 64 bits with a sign.
    Int(i64),
    /// Any other number, as it is written.
    Real(String),
}

/// A number over plain values.
pub ghost enum NumberModel {
    Int(int),
    Real(Seq<char>),
}

impl View for Number {
    type V = NumberModel;

    open spec fn view(&self) -> NumberModel {
        match self {
            Number::Int(i) => NumberModel::Int(*i as int),
            Number::Real(s) => NumberModel::Real(s@),
        }
    }
}

impl NumberModel {
    /// The number as a JSON value.
    pub open spec fn encode(self) -> JsonModel {
        match self {
            NumberModel::Int(i) => JsonModel::Int(i),
            NumberModel::Real(s) => JsonModel::Real(s),
        }
    }

    /// The number that a JSON value is, if it is one.
    pub open spec fn decode(j: JsonModel) -> Option<NumberModel> {
        match j {
            JsonModel::Int(i) => Some(NumberModel::Int(i)),
            JsonModel::Real(s) => Some(NumberModel::Real(s)),
            _ => None,
        }
    }

    /// A number is read back from its JSON value.
    pub proof fn lemma_round_trip(self)
        ensures
            Self::decode(self.encode()) == Some(self),
            !(self.encode() is Null),
    {
    }
}

impl Number {
    /// This number as a JSON value.
    pub fn to_json(&self) -> (j: Json)
        ensures
            j@ == self@.encode(),
    {
        match self {
            Number::Int(i) => Json::Int(*i),
            Number::Real(s) => Json::Real(s.clone()),
        }
    }

    /// Reads a number from a JSON value.
    pub fn from_json(j: &Json) -> (r: Option<Number>)
        ensures
            match r {
                Some(n) => NumberModel::decode(j@) == Some(n@),
                None => NumberModel::decode(j@) is None,
            },
    {
        match j {
            Json::Int(i) => Some(Number::Int(*i)),
            Json::Real(s) => Some(Number::Real(s.clone())),
            _ => None,
        }
    }
}

/// Whether two texts are the same.
pub fn same_text(a: &str, b: &str) -> (same: bool)
    ensures
        same == (a@ == b@),
{
    a.to_owned() == b.to_owned()
}

/// A run of no members.
pub fn no_members() -> (members: Vec<Member>)
    ensures
        member_views(members@) == Seq::<(Seq<char>, JsonModel)>::empty(),
{
    let members: Vec<Member> = Vec::new();
    assert(member_views(members@) =~= Seq::<(Seq<char>, JsonModel)>::empty());
    members
}

/// Puts one more member at the end.
pub fn put_member(members: &mut Vec<Member>, key: &str, value: Json)
    ensures
        member_views(final(members)@) == put(member_views(old(members)@), key@, value@),
{
    let ghost model = value@;
    members.push(Member { key: key.to_owned(), value });
    assert(member_views(members@) =~= put(member_views(old(members)@), key@, model));
}

impl Json {
    /// Whether this is `null`.
    pub fn is_null(&self) -> (b: bool)
        ensures
            b == (self@ is Null),
    {
        match self {
            Json::Null => true,
            _ => false,
        }
    }

    /// Whether this is an object.
    pub fn is_object(&self) -> (b: bool)
        ensures
            b == (self@ is Object),
    {
        match self {
            Json::Object(_) => true,
            _ => false,
        }
    }

    /// A text as a JSON value.
    pub fn text(s: &str) -> (j: Json)
        ensures
            j@ == JsonModel::Str(s@),
    {
        Json::Str(s.to_owned())
    }

    /// The value of the last member of a given name, where this is an
    /// object that has one.
    pub fn get(&self, key: &str) -> (r: Option<&Json>)
        ensures
            match r {
                Some(v) => self@.member(key@) == Some(v@),
                None => self@.member(key@) is None,
            },
    {
        match self {
            Json::Object(members) => {
                let ghost all = member_views(members@);
                let mut i: usize = members.len();
                assert(all.take(i as int) =~= all);
                while i > 0
                    invariant
                        i <= members@.len(),
                        all == member_views(members@),
                        self@ == JsonModel::Object(all),
                        lookup(all, key@) == lookup(all.take(i as int), key@),
                    decreases i,
                {
                    assert(all.take(i as int).drop_last() =~= all.take(i as int - 1));
                    assert(all.take(i as int).last() == all[i as int - 1]);
                    assert(all[i as int - 1] == (
                        members@[i as int - 1].key@,
                        members@[i as int - 1].value@,
                    ));
                    if same_text(members[i - 1].key.as_str(), key) {
                        return Some(&members[i - 1].value);
                    }
                    i = i - 1;
                }
                assert(all.take(0) =~= Seq::empty());
                None
            },
            _ => None,
        }
    }

    /// The value of an optional member: the last member of the name, unless
    /// this is no object, there is no such member, or it is `null`.
    pub fn get_present(&self, key: &str) -> (r: Option<&Json>)
        ensures
            match r {
                Some(v) => self@ is Object && present(self@->Object_0, key@) == Some(v@),
                None => self@ is Object ==> present(self@->Object_0, key@) is None,
            },
    {
        match self.get(key) {
            Some(v) => if v.is_null() {
                None
            } else {
                Some(v)
            },
            None => None,
        }
    }

    /// The number, where this is a whole number from 0 to 255.
    pub fn as_u8(&self) -> (r: Option<u8>)
        ensures
            r == self@.as_u8(),
    {
        match self {
            Json::Int(i) => if 0 <= *i && *i <= 255 {
                Some(*i as u8)
            } else {
                None
            },
            _ => None,
        }
    }

    /// The number, where this is a whole number that fits 32 bits unsigned.
    pub fn as_u32(&self) -> (r: Option<u32>)
        ensures
            r == self@.as_u32(),
    {
        match self {
            Json::Int(i) => if 0 <= *i && *i <= 0xFFFF_FFFF {
                Some(*i as u32)
            } else {
                None
            },
            _ => None,
        }
    }

    /// The number, where this is a whole number that fits 64 bits signed.
    pub fn as_i64(&self) -> (r: Option<i64>)
        ensures
            r == self@.as_i64(),
    {
        match self {
            Json::Int(i) => Some(*i),
            _ => None,
        }
    }

    /// The truth value, where this is one.
    pub fn as_bool(&self) -> (r: Option<bool>)
        ensures
            r == self@.as_bool(),
    {
        match self {
            Json::Bool(b) => Some(*b),
            _ => None,
        }
    }

    /// The text, where this is one.
    pub fn as_str(&self) -> (r: Option<&str>)
        ensures
            match r {
                Some(s) => self@.as_str() == Some(s@),
                None => self@.as_str() is None,
            },
    {
        match self {
            Json::Str(s) => Some(s.as_str()),
            _ => None,
        }
    }

    /// A copy of the text, where this is one.
    pub fn as_string(&self) -> (r: Option<String>)
        ensures
            match r {
                Some(s) => self@.as_str() == Some(s@),
                None => self@.as_str() is None,
            },
    {
        match self {
            Json::Str(s) => Some(s.clone()),
            _ => None,
        }
    }

    /// The items, where this is a list.
    pub fn as_array(&self) -> (r: Option<&Vec<Json>>)
        ensures
            match r {
                Some(items) => self@.as_array() == Some(views(items@)),
                None => self@.as_array() is None,
            },
    {
        match self {
            Json::Array(items) => Some(items),
            _ => None,
        }
    }
}

/// A list of texts as a JSON value.
pub fn texts_to_json(strings: &Vec<String>) -> (j: Json)
    ensures
        j@ == encode_texts(texts(strings@)),
{
    let mut items: Vec<Json> = Vec::new();
    let mut i: usize = 0;
    while i < strings.len()
        invariant
            i <= strings@.len(),
            items@.len() == i,
            forall|k: int| 0 <= k < i ==> (#[trigger] items@[k])@ == JsonModel::Str(strings@[k]@),
        decreases strings@.len() - i,
    {
        items.push(Json::Str(strings[i].clone()));
        i = i + 1;
    }
    assert(views(items@) =~= Seq::new(
        texts(strings@).len(),
        |i: int| JsonModel::Str(texts(strings@)[i]),
    ));
    Json::Array(items)
}

/// Reads a list of texts from a JSON value.
pub fn texts_from_json(j: &Json) -> (r: Option<Vec<String>>)
    ensures
        match r {
            Some(strings) => decode_texts(j@) == Some(texts(strings@)),
            None => decode_texts(j@) is None,
        },
{
    match j {
        Json::Array(items) => {
            let ghost models = views(items@);
            let mut strings: Vec<String> = Vec::new();
            let mut i: usize = 0;
            while i < items.len()
                invariant
                    i <= items@.len(),
                    strings@.len() == i,
                    models == views(items@),
                    j@ == JsonModel::Array(models),
                    forall|k: int|
                        0 <= k < i ==> (#[trigger] models[k]).as_str() == Some(strings@[k]@),
                decreases items@.len() - i,
            {
                match items[i].as_string() {
                    Some(s) => {
                        assert(models[i as int] == items@[i as int]@);
                        strings.push(s);
                    },
                    None => {
                        assert(models[i as int] == items@[i as int]@);
                        assert(models[i as int].as_str() is None);
                        return None;
                    },
                }
                i = i + 1;
            }
            assert(decode_texts(j@)->Some_0 =~= texts(strings@));
            Some(strings)
        },
        _ => None,
    }
}

/// A list of small numbers as a JSON value.
pub fn bytes_to_json(bytes: &Vec<u8>) -> (j: Json)
    ensures
        j@ == encode_bytes(bytes@),
{
    let mut items: Vec<Json> = Vec::new();
    let mut i: usize = 0;
    while i < bytes.len()
        invariant
            i <= bytes@.len(),
            items@.len() == i,
            forall|k: int|
                0 <= k < i ==> (#[trigger] items@[k])@ == JsonModel::Int(bytes@[k] as int),
        decreases bytes@.len() - i,
    {
        items.push(Json::Int(bytes[i] as i64));
        i = i + 1;
    }
    assert(views(items@) =~= Seq::new(bytes@.len(), |i: int| JsonModel::Int(bytes@[i] as int)));
    Json::Array(items)
}

/// Reads a list of numbers from 0 to 255 from a JSON value.
pub fn bytes_from_json(j: &Json) -> (r: Option<Vec<u8>>)
    ensures
        match r {
            Some(bytes) => decode_bytes(j@) == Some(bytes@),
            None => decode_bytes(j@) is None,
        },
{
    match j {
        Json::Array(items) => {
            let ghost models = views(items@);
            let mut bytes: Vec<u8> = Vec::new();
            let mut i: usize = 0;
            while i < items.len()
                invariant
                    i <= items@.len(),
                    bytes@.len() == i,
                    models == views(items@),
                    j@ == JsonModel::Array(models),
                    forall|k: int| 0 <= k < i ==> (#[trigger] models[k]).as_u8() == Some(bytes@[k]),
                decreases items@.len() - i,
            {
                match items[i].as_u8() {
                    Some(b) => {
                        assert(models[i as int] == items@[i as int]@);
                        bytes.push(b);
                    },
                    None => {
                        assert(models[i as int] == items@[i as int]@);
                        assert(models[i as int].as_u8() is None);
                        return None;
                    },
                }
                i = i + 1;
            }
            assert(decode_bytes(j@)->Some_0 =~= bytes@);
            Some(bytes)
        },
        _ => None,
    }
}

} // verus!
