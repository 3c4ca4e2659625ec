//! JSON values as plain data, read and written through `serde_json`.
use vstd::prelude::*;

use crate::text;
use crate::text::same_text;

verus! {

/// `serde_json::Number`: a JSON number, carried through unchanged.
#[verifier::external_type_specification]
#[verifier::external_body]
pub struct ExNumber(serde_json::Number);

/// `serde_json::Value`: the tree that `serde_json` reads and writes.
#[verifier::external_type_specification]
#[verifier::external_body]
pub struct ExValue(serde_json::Value);

/// `serde_json::Map`: the members of an object in such a tree.
#[verifier::external_type_specification]
#[verifier::external_body]
#[verifier::reject_recursive_types(K)]
#[verifier::reject_recursive_types(V)]
pub struct ExMembers<K, V>(serde_json::Map<K, V>);

/// A JSON value. An object is a list of members in which a later member replaces an
/// earlier one with the same key.
#[derive(Debug)]
pub enum Json {
    Null,
    Bool(bool),
    Number(serde_json::Number),
    Str(String),
    Array(Vec<Json>),
    Object(Vec<(String, Json)>),
}

/// What a [`Json`] value says: an object is a map from its keys.
pub enum JsonModel {
    Null,
    Bool(bool),
    Number(serde_json::Number),
    Str(Seq<char>),
    Array(Seq<JsonModel>),
    Object(Map<Seq<char>, JsonModel>),
}

impl JsonModel {
    /// The member `key` of an object.
    pub open spec fn get(self, key: Seq<char>) -> Option<JsonModel> {
        match self {
            JsonModel::Object(m) => if m.dom().contains(key) {
                Some(m[key])
            } else {
                None
            },
            _ => None,
        }
    }

    /// The member `key` of an object, or null.
    pub open spec fn at(self, key: Seq<char>) -> JsonModel {
        match self.get(key) {
            Some(j) => j,
            None => JsonModel::Null,
        }
    }

    /// The text of a string.
    pub open spec fn as_str(self) -> Option<Seq<char>> {
        match self {
            JsonModel::Str(s) => Some(s),
            _ => None,
        }
    }

    /// The elements of an array.
    pub open spec fn as_array(self) -> Option<Seq<JsonModel>> {
        match self {
            JsonModel::Array(a) => Some(a),
            _ => None,
        }
    }

    /// The value of a boolean.
    pub open spec fn as_bool(self) -> Option<bool> {
        match self {
            JsonModel::Bool(b) => Some(b),
            _ => None,
        }
    }

    /// The unsigned integer that a value is.
    pub open spec fn as_u64(self) -> Option<u64> {
        match self {
            JsonModel::Number(number) => number_u64(number),
            _ => None,
        }
    }

    /// The text of the string member `key` of an object.
    pub open spec fn str_at(self, key: Seq<char>) -> Option<Seq<char>> {
        self.at(key).as_str()
    }

    /// The elements of the array member `key` of an object.
    pub open spec fn array_at(self, key: Seq<char>) -> Option<Seq<JsonModel>> {
        self.at(key).as_array()
    }
}

/// The values of a list of JSON values, in order.
pub open spec fn elements(items: Seq<Json>) -> Seq<JsonModel>
    decreases items,
{
    if items.len() == 0 {
        Seq::empty()
    } else {
        elements(items.drop_last()).push(items.last().view())
    }
}

/// The members of an object: of each key, the last one in the list.
pub open spec fn members(entries: Seq<(String, Json)>) -> Map<Seq<char>, JsonModel>
    decreases entries,
{
    if entries.len() == 0 {
        Map::empty()
    } else {
        members(entries.drop_last()).insert(entries.last().0@, entries.last().1.view())
    }
}

impl Json {
    /// What the value says.
    pub open spec fn view(&self) -> JsonModel
        decreases self,
    {
        match self {
            Json::Null => JsonModel::Null,
            Json::Bool(b) => JsonModel::Bool(*b),
            Json::Number(n) => JsonModel::Number(*n),
            Json::Str(s) => JsonModel::Str(s@),
            Json::Array(a) => JsonModel::Array(elements(a@)),
            Json::Object(o) => JsonModel::Object(members(o@)),
        }
    }
}

/// What a `serde_json::Value` holds.
pub uninterp spec fn value_json(value: serde_json::Value) -> JsonModel;

/// What the members of an object in such a tree hold.
pub uninterp spec fn map_members(
    map: serde_json::Map<String, serde_json::Value>,
) -> Map<Seq<char>, JsonModel>;

/// What `serde_json::from_str` makes of a text: the value that it holds, or the message of the
/// error.
pub uninterp spec fn json_parse(text: Seq<char>) -> Result<JsonModel, Seq<char>>;

/// What `serde_json::from_slice` makes of bytes: the value that they hold, or the message of the
/// error.
pub uninterp spec fn json_parse_bytes(bytes: Seq<u8>) -> Result<JsonModel, Seq<char>>;

/// The compact text that `serde_json::to_string` writes for a value.
pub uninterp spec fn json_text(json: JsonModel) -> Seq<char>;

/// The number that `serde_json::Number::from_i128` makes of an integer.
pub uninterp spec fn json_number(n: int) -> serde_json::Number;

/// Whether `serde_json` holds two numbers for equal.
pub uninterp spec fn same_number(a: serde_json::Number, b: serde_json::Number) -> bool;

/// A JSON integer.
pub open spec fn json_int(n: int) -> JsonModel {
    JsonModel::Number(json_number(n))
}

/// Two JSON values are equal: the same shape, with equal leaves.
pub open spec fn same_json(a: JsonModel, b: JsonModel) -> bool
    decreases a,
{
    match (a, b) {
        (JsonModel::Number(m), JsonModel::Number(n)) => same_number(m, n),
        (JsonModel::Array(x), JsonModel::Array(y)) => x.len() == y.len() && forall|i: int|
            0 <= i < x.len() ==> same_json(#[trigger] x[i], y[i]),
        (JsonModel::Object(m), JsonModel::Object(n)) => m.dom() == n.dom() && forall|
            k: Seq<char>,
        |
            m.dom().contains(k) ==> same_json(#[trigger] m[k], n[k]),
        _ => a == b,
    }
}

/// The `serde_json` tree as a [`Json`] value, node by node: the result holds what the tree
/// holds.
#[verifier::external_body]
fn json_of_value(value: serde_json::Value) -> (json: Json)
    ensures
        json@ == value_json(value),
{
    match value {
        serde_json::Value::Null => Json::Null,
        serde_json::Value::Bool(b) => Json::Bool(b),
        serde_json::Value::Number(n) => Json::Number(n),
        serde_json::Value::String(s) => Json::Str(s),
        serde_json::Value::Array(a) => Json::Array(a.into_iter().map(json_of_value).collect()),
        serde_json::Value::Object(o) => {
            Json::Object(o.into_iter().map(|(k, v)| (k, json_of_value(v))).collect())
        },
    }
}

/// A node of a `serde_json` tree, with the trees below it.
enum Node {
    Null,
    Bool(bool),
    Number(serde_json::Number),
    Str(String),
    Array(Vec<serde_json::Value>),
    Object(serde_json::Map<String, serde_json::Value>),
}

/// What some trees hold, in order.
spec fn values_json(values: Seq<serde_json::Value>) -> Seq<JsonModel> {
    values.map_values(|value: serde_json::Value| value_json(value))
}

/// What a node holds.
spec fn node_json(node: Node) -> JsonModel {
    match node {
        Node::Null => JsonModel::Null,
        Node::Bool(b) => JsonModel::Bool(b),
        Node::Number(n) => JsonModel::Number(n),
        Node::Str(s) => JsonModel::Str(s@),
        Node::Array(a) => JsonModel::Array(values_json(a@)),
        Node::Object(m) => JsonModel::Object(map_members(m)),
    }
}

/// No members at all.
spec fn no_members() -> Map<Seq<char>, JsonModel> {
    Map::empty()
}

/// `serde_json::Map::new`: a map without members.
#[verifier::external_body]
fn new_members() -> (map: serde_json::Map<String, serde_json::Value>)
    ensures
        map_members(map) == no_members(),
{
    serde_json::Map::new()
}

/// `serde_json::Map::insert`: adds a member, or gives the one of that key another value.
#[verifier::external_body]
fn insert_member(
    map: &mut serde_json::Map<String, serde_json::Value>,
    key: String,
    value: serde_json::Value,
)
    ensures
        map_members(*final(map)) == map_members(*old(map)).insert(key@, value_json(value)),
{
    map.insert(key, value);
}

/// A node as a `serde_json::Value`, variant by variant: the tree holds what the node holds.
#[verifier::external_body]
fn value_of_node(node: Node) -> (value: serde_json::Value)
    ensures
        value_json(value) == node_json(node),
{
    match node {
        Node::Null => serde_json::Value::Null,
        Node::Bool(b) => serde_json::Value::Bool(b),
        Node::Number(n) => serde_json::Value::Number(n),
        Node::Str(s) => serde_json::Value::String(s),
        Node::Array(a) => serde_json::Value::Array(a),
        Node::Object(m) => serde_json::Value::Object(m),
    }
}

/// A [`Json`] value as a `serde_json` tree: the tree holds what the value says.
fn value_of_json(json: &Json) -> (value: serde_json::Value)
    ensures
        value_json(value) == json@,
    decreases json,
{
    match json {
        Json::Null => value_of_node(Node::Null),
        Json::Bool(b) => value_of_node(Node::Bool(*b)),
        Json::Number(n) => value_of_node(Node::Number(n.clone())),
        Json::Str(s) => value_of_node(Node::Str(s.clone())),
        Json::Array(a) => {
            let mut values: Vec<serde_json::Value> = Vec::new();
            let mut i: usize = 0;
            assert(a@.take(0) =~= Seq::empty());
            assert(values_json(values@) =~= Seq::empty());
            while i < a.len()
                invariant
                    i <= a@.len(),
                    *json == Json::Array(*a),
                    values_json(values@) == elements(a@.take(i as int)),
                decreases a@.len() - i,
            {
                assert(decreases_to!(*json => json->Array_0));
                assert(decreases_to!(*a => a[i as int]));
                let ghost before = values@;
                let value = value_of_json(&a[i]);
                values.push(value);
                proof {
                    assert(values_json(values@) =~= values_json(before).push(value_json(value)));
                    assert(a@.take(i + 1).drop_last() =~= a@.take(i as int));
                }
                i += 1;
            }
            assert(a@.take(i as int) =~= a@);
            value_of_node(Node::Array(values))
        },
        Json::Object(o) => {
            let mut map = new_members();
            let mut i: usize = 0;
            assert(o@.take(0) =~= Seq::empty());
            while i < o.len()
                invariant
                    i <= o@.len(),
                    *json == Json::Object(*o),
                    map_members(map) == members(o@.take(i as int)),
                decreases o@.len() - i,
            {
                assert(decreases_to!(*json => json->Object_0));
                assert(decreases_to!(*o => o[i as int]));
                let value = value_of_json(&o[i].1);
                insert_member(&mut map, o[i].0.clone(), value);
                assert(o@.take(i + 1).drop_last() =~= o@.take(i as int));
                i += 1;
            }
            assert(o@.take(i as int) =~= o@);
            value_of_node(Node::Object(map))
        },
    }
}

/// `serde_json::from_str`: the value that a text holds, or the message of its error.
#[verifier::external_body]
fn value_from_str(text: &str) -> (value: Result<serde_json::Value, String>)
    ensures
        match value {
            Ok(v) => json_parse(text@) == Ok::<JsonModel, Seq<char>>(value_json(v)),
            Err(e) => json_parse(text@) == Err::<JsonModel, Seq<char>>(e@),
        },
{
    serde_json::from_str::<serde_json::Value>(text).map_err(|e| e.to_string())
}

/// `serde_json::from_slice`: the value that bytes hold, or the message of its error.
#[verifier::external_body]
fn value_from_slice(bytes: &[u8]) -> (value: Result<serde_json::Value, String>)
    ensures
        match value {
            Ok(v) => json_parse_bytes(bytes@) == Ok::<JsonModel, Seq<char>>(value_json(v)),
            Err(e) => json_parse_bytes(bytes@) == Err::<JsonModel, Seq<char>>(e@),
        },
{
    serde_json::from_slice::<serde_json::Value>(bytes).map_err(|e| e.to_string())
}

/// A string stands in a value, as itself or further down; keys do not count.
pub open spec fn holds_string(json: JsonModel, string: Seq<char>) -> bool
    decreases json,
{
    match json {
        JsonModel::Str(s) => s == string,
        JsonModel::Array(a) => exists|i: int|
            0 <= i < a.len() && holds_string(#[trigger] a[i], string),
        JsonModel::Object(m) => exists|key: Seq<char>|
            m.dom().contains(key) && holds_string(#[trigger] m[key], string),
        _ => false,
    }
}

/// What an element of an array holds, the array holds.
pub proof fn lemma_array_holds(items: Seq<JsonModel>, i: int, string: Seq<char>)
    requires
        0 <= i < items.len(),
        holds_string(items[i], string),
    ensures
        holds_string(JsonModel::Array(items), string),
{
    let array = JsonModel::Array(items);
    assert(array->Array_0[i] == items[i]);
    assert(exists|j: int| 0 <= j < items.len() && holds_string(#[trigger] items[j], string));
}

/// A string that JSON writes as it is: without quotes, backslashes and control characters.
pub open spec fn needs_no_escape(string: Seq<char>) -> bool {
    forall|i: int|
        0 <= i < string.len() ==> ' ' <= #[trigger] string[i] && string[i] != '"' && string[i]
            != '\\'
}

/// `serde_json::to_string` of a tree: its compact text. A tree of this kind always has one, and
/// the strings in it stand there as they are, unless they hold characters to be escaped.
#[verifier::external_body]
fn value_to_string(value: &serde_json::Value) -> (text: String)
    ensures
        text@ == json_text(value_json(*value)),
        forall|string: Seq<char>| #[trigger]
            holds_string(value_json(*value), string) && needs_no_escape(string) ==> text::has_part(
                text@,
                string,
            ),
{
    serde_json::to_string(value).unwrap_or_default()
}

/// `serde_json::Number::from_i128`: the number of an integer in the range of `i64` and `u64`.
#[verifier::external_body]
fn number_of(n: i128) -> (number: serde_json::Number)
    requires
        i64::MIN <= n <= u64::MAX,
    ensures
        number == json_number(n as int),
{
    serde_json::Number::from_i128(n).unwrap()
}

/// `==` of `serde_json::Number`.
#[verifier::external_body]
fn numbers_equal(a: &serde_json::Number, b: &serde_json::Number) -> (same: bool)
    ensures
        same == same_number(*a, *b),
{
    a == b
}

/// The unsigned integer that a number is, as `serde_json::Number::as_u64` tells.
pub uninterp spec fn number_u64(number: serde_json::Number) -> Option<u64>;

/// `serde_json::Number::as_u64`: the unsigned integer that a number is, if it is one.
#[verifier::external_body]
fn unsigned_of(number: &serde_json::Number) -> (n: Option<u64>)
    ensures
        n == number_u64(*number),
        forall|k: u64| *number == #[trigger] json_number(k as int) ==> n == Some(k),
{
    number.as_u64()
}

/// `clone` of `serde_json::Number`: the same number.
pub assume_specification[ <serde_json::Number as Clone>::clone ](
    number: &serde_json::Number,
) -> (copy: serde_json::Number)
    ensures
        copy == *number,
;

/// An array has as many values as its list, each in its place.
pub proof fn lemma_elements(items: Seq<Json>)
    ensures
        elements(items).len() == items.len(),
        forall|i: int| 0 <= i < items.len() ==> #[trigger] elements(items)[i] == items[i]@,
    decreases items,
{
    if items.len() > 0 {
        lemma_elements(items.drop_last());
        assert forall|i: int| 0 <= i < items.len() implies #[trigger] elements(items)[i]
            == items[i]@ by {
            if i < items.len() - 1 {
                assert(elements(items.drop_last())[i] == items.drop_last()[i]@);
            }
        }
    }
}

/// Adding a value to the list adds it to the array.
pub proof fn lemma_elements_push(items: Seq<Json>, item: Json)
    ensures
        elements(items.push(item)) == elements(items).push(item@),
{
    assert(items.push(item).drop_last() =~= items);
}

/// The values of two lists, one after the other.
pub proof fn lemma_elements_add(a: Seq<Json>, b: Seq<Json>)
    ensures
        elements(a + b) == elements(a) + elements(b),
{
    lemma_elements(a);
    lemma_elements(b);
    lemma_elements(a + b);
    assert(elements(a + b) =~= elements(a) + elements(b));
}

/// The position of the member `key` that counts.
pub open spec fn member_index(entries: Seq<(String, Json)>, key: Seq<char>) -> Option<int>
    decreases entries.len(),
{
    if entries.len() == 0 {
        None
    } else if entries.last().0@ == key {
        Some(entries.len() - 1)
    } else {
        member_index(entries.drop_last(), key)
    }
}

/// An object has a member exactly when the list holds one of that key, and it is the last one.
pub proof fn lemma_member_index(entries: Seq<(String, Json)>, key: Seq<char>)
    ensures
        members(entries).dom().finite(),
        match member_index(entries, key) {
            Some(i) => 0 <= i < entries.len() && entries[i].0@ == key && members(
                entries,
            ).dom().contains(key) && members(entries)[key] == entries[i].1@,
            None => !members(entries).dom().contains(key),
        },
    decreases entries.len(),
{
    if entries.len() > 0 {
        lemma_member_index(entries.drop_last(), key);
    }
}

/// The position of the member `key` that counts.
fn find_member(entries: &Vec<(String, Json)>, key: &str) -> (index: Option<usize>)
    ensures
        match index {
            Some(i) => member_index(entries@, key@) == Some(i as int) && i < entries@.len()
                && entries@[i as int].0@ == key@ && members(entries@).dom().contains(key@)
                && members(entries@)[key@] == entries@[i as int].1@,
            None => !members(entries@).dom().contains(key@),
        },
{
    proof {
        lemma_member_index(entries@, key@);
    }
    let mut i: usize = entries.len();
    assert(entries@.take(i as int) =~= entries@);
    while i > 0
        invariant
            i <= entries@.len(),
            member_index(entries@, key@) == member_index(entries@.take(i as int), key@),
        decreases i,
    {
        assert(entries@.take(i as int).drop_last() =~= entries@.take(i - 1));
        if same_text(entries[i - 1].0.as_str(), key) {
            proof {
                lemma_member_index(entries@, key@);
            }
            return Some(i - 1);
        }
        i -= 1;
    }
    None
}

/// Sets the member `key` of an object.
pub fn put(entries: &mut Vec<(String, Json)>, key: &str, value: Json)
    ensures
        members(final(entries)@) == members(old(entries)@).insert(key@, value@),
{
    let ghost before = entries@;
    entries.push((key.to_owned(), value));
    assert(entries@.drop_last() =~= before);
}

impl Json {
    /// A JSON string.
    pub fn text(text: &str) -> (json: Json)
        ensures
            json@ == JsonModel::Str(text@),
    {
        Json::Str(text.to_owned())
    }

    /// A JSON integer.
    pub fn integer(n: i128) -> (json: Json)
        requires
            i64::MIN <= n <= u64::MAX,
        ensures
            json@ == json_int(n as int),
    {
        Json::Number(number_of(n))
    }

    /// An object without members.
    pub fn object() -> (json: Json)
        ensures
            json@ == JsonModel::Object(Map::empty()),
    {
        let entries: Vec<(String, Json)> = Vec::new();
        Json::Object(entries)
    }

    /// An object with one more member, or with another value for it.
    pub fn with(self, key: &str, value: Json) -> (json: Json)
        requires
            self@ is Object,
        ensures
            json@ == JsonModel::Object(self@->Object_0.insert(key@, value@)),
    {
        match self {
            Json::Object(entries) => {
                let mut entries = entries;
                put(&mut entries, key, value);
                Json::Object(entries)
            },
            _ => self,
        }
    }

    /// An array of values that say the same as those of a list.
    pub fn array(items: &Vec<Json>) -> (json: Json)
        ensures
            json@ == JsonModel::Array(elements(items@)),
    {
        Json::Array(copy_all(items))
    }

    /// An array of one value.
    pub fn single(item: Json) -> (json: Json)
        ensures
            json@ == JsonModel::Array(seq![item@]),
    {
        let mut items: Vec<Json> = Vec::new();
        proof {
            lemma_elements_push(items@, item);
            assert(elements(items@) =~= Seq::empty());
            assert(Seq::<JsonModel>::empty().push(item@) =~= seq![item@]);
        }
        items.push(item);
        Json::Array(items)
    }

    /// An array without values.
    pub fn no_items() -> (json: Json)
        ensures
            json@ == JsonModel::Array(Seq::empty()),
    {
        let items: Vec<Json> = Vec::new();
        Json::Array(items)
    }

    /// A string, or null where there is none.
    pub fn optional_text(value: Option<&str>) -> (json: Json)
        ensures
            json@ == optional_str(text::text_option(value)),
    {
        match value {
            Some(t) => Json::text(t),
            None => Json::Null,
        }
    }

    /// The member `key` of an object.
    pub fn get(&self, key: &str) -> (member: Option<&Json>)
        ensures
            match member {
                Some(j) => self@.get(key@) == Some(j@),
                None => self@.get(key@) is None,
            },
    {
        match self {
            Json::Object(entries) => match find_member(entries, key) {
                Some(i) => Some(&entries[i].1),
                None => None,
            },
            _ => None,
        }
    }

    /// The text of a string.
    pub fn as_str(&self) -> (text: Option<&str>)
        ensures
            match text {
                Some(s) => self@.as_str() == Some(s@),
                None => self@.as_str() is None,
            },
    {
        match self {
            Json::Str(s) => Some(s.as_str()),
            _ => None,
        }
    }

    /// The elements of an array.
    pub fn as_array(&self) -> (items: Option<&Vec<Json>>)
        ensures
            match items {
                Some(a) => self@.as_array() == Some(elements(a@)),
                None => self@.as_array() is None,
            },
    {
        match self {
            Json::Array(a) => Some(a),
            _ => None,
        }
    }

    /// The value of a boolean.
    pub fn as_bool(&self) -> (value: Option<bool>)
        ensures
            value == self@.as_bool(),
    {
        match self {
            Json::Bool(b) => Some(*b),
            _ => None,
        }
    }

    /// The text of the string member `key` of an object.
    pub fn str_at(&self, key: &str) -> (text: Option<&str>)
        ensures
            match text {
                Some(s) => self@.str_at(key@) == Some(s@),
                None => self@.str_at(key@) is None,
            },
    {
        match self.get(key) {
            Some(j) => j.as_str(),
            None => None,
        }
    }

    /// The elements of the array member `key` of an object.
    pub fn array_at(&self, key: &str) -> (items: Option<&Vec<Json>>)
        ensures
            match items {
                Some(a) => self@.array_at(key@) == Some(elements(a@)),
                None => self@.array_at(key@) is None,
            },
    {
        match self.get(key) {
            Some(j) => j.as_array(),
            None => None,
        }
    }

    /// The unsigned integer that a value is, if it is one.
    pub fn as_u64(&self) -> (n: Option<u64>)
        ensures
            n == self@.as_u64(),
            forall|k: u64| self@ == #[trigger] json_int(k as int) ==> n == Some(k),
    {
        match self {
            Json::Number(number) => unsigned_of(number),
            _ => None,
        }
    }

    /// A value that says the same.
    pub fn copy(&self) -> (json: Json)
        ensures
            json@ == self@,
        decreases self,
    {
        match self {
            Json::Null => Json::Null,
            Json::Bool(b) => Json::Bool(*b),
            Json::Number(n) => Json::Number(n.clone()),
            Json::Str(s) => Json::Str(s.clone()),
            Json::Array(a) => {
                let mut items: Vec<Json> = Vec::new();
                let mut i: usize = 0;
                assert(a@.take(0) =~= Seq::empty());
                while i < a.len()
                    invariant
                        i <= a@.len(),
                        *self == Json::Array(*a),
                        elements(items@) == elements(a@.take(i as int)),
                    decreases a@.len() - i,
                {
                    assert(decreases_to!(*self => self->Array_0));
                    assert(decreases_to!(*a => a[i as int]));
                    let item = a[i].copy();
                    proof {
                        lemma_elements_push(items@, item);
                        assert(a@.take(i + 1).drop_last() =~= a@.take(i as int));
                    }
                    items.push(item);
                    i += 1;
                }
                assert(a@.take(i as int) =~= a@);
                Json::Array(items)
            },
            Json::Object(o) => {
                let mut entries: Vec<(String, Json)> = Vec::new();
                let mut i: usize = 0;
                assert(o@.take(0) =~= Seq::empty());
                while i < o.len()
                    invariant
                        i <= o@.len(),
                        *self == Json::Object(*o),
                        members(entries@) == members(o@.take(i as int)),
                    decreases o@.len() - i,
                {
                    assert(decreases_to!(*self => self->Object_0));
                    assert(decreases_to!(*o => o[i as int]));
                    let value = o[i].1.copy();
                    put(&mut entries, o[i].0.as_str(), value);
                    assert(o@.take(i + 1).drop_last() =~= o@.take(i as int));
                    i += 1;
                }
                assert(o@.take(i as int) =~= o@);
                Json::Object(entries)
            },
        }
    }

    /// Whether two values are equal.
    pub fn same_as(&self, other: &Json) -> (same: bool)
        ensures
            same == same_json(self@, other@),
        decreases self, 1nat,
    {
        match (self, other) {
            (Json::Null, Json::Null) => true,
            (Json::Bool(a), Json::Bool(b)) => *a == *b,
            (Json::Number(a), Json::Number(b)) => numbers_equal(a, b),
            (Json::Str(a), Json::Str(b)) => same_text(a.as_str(), b.as_str()),
            (Json::Array(a), Json::Array(b)) => {
                proof {
                    lemma_elements(a@);
                    lemma_elements(b@);
                }
                if a.len() != b.len() {
                    return false;
                }
                let mut i: usize = 0;
                while i < a.len()
                    invariant
                        i <= a@.len(),
                        a@.len() == b@.len(),
                        *self == Json::Array(*a),
                        *other == Json::Array(*b),
                        elements(a@).len() == a@.len(),
                        elements(b@).len() == b@.len(),
                        forall|j: int| 0 <= j < a@.len() ==> #[trigger] elements(a@)[j] == a@[j]@,
                        forall|j: int| 0 <= j < b@.len() ==> #[trigger] elements(b@)[j] == b@[j]@,
                        forall|j: int|
                            0 <= j < i ==> same_json(#[trigger] elements(a@)[j], elements(b@)[j]),
                    decreases a@.len() - i,
                {
                    if !a[i].same_as(&b[i]) {
                        assert(!same_json(elements(a@)[i as int], elements(b@)[i as int]));
                        return false;
                    }
                    i += 1;
                }
                true
            },
            (Json::Object(a), Json::Object(b)) => self.same_members(a, b),
            _ => false,
        }
    }

    /// Whether two objects, the first of which is `self`, have equal members.
    fn same_members(
        &self,
        a: &Vec<(String, Json)>,
        b: &Vec<(String, Json)>,
    ) -> (same: bool)
        requires
            *self == Json::Object(*a),
        ensures
            same == same_json(JsonModel::Object(members(a@)), JsonModel::Object(members(b@))),
        decreases self, 0nat,
    {
        let mut i: usize = 0;
        while i < a.len()
            invariant
                i <= a@.len(),
                *self == Json::Object(*a),
                forall|j: int|
                    #![trigger a@[j]]
                    0 <= j < i ==> members(b@).dom().contains(a@[j].0@) && same_json(
                        members(a@)[a@[j].0@],
                        members(b@)[a@[j].0@],
                    ),
            decreases a@.len() - i,
        {
            proof {
                lemma_member_index(a@, a@[i as int].0@);
                lemma_keys(a@, i as int);
            }
            match (find_member(a, a[i].0.as_str()), find_member(b, a[i].0.as_str())) {
                (Some(x), Some(y)) => {
                    assert(decreases_to!(*self => self->Object_0));
                    assert(decreases_to!(*a => a[x as int]));
                    if !a[x].1.same_as(&b[y].1) {
                        return false;
                    }
                },
                _ => {
                    return false;
                },
            }
            i += 1;
        }
        let mut k: usize = 0;
        while k < b.len()
            invariant
                k <= b@.len(),
                forall|j: int| 0 <= j < k ==> members(a@).dom().contains((#[trigger] b@[j]).0@),
            decreases b@.len() - k,
        {
            proof {
                lemma_keys(b@, k as int);
            }
            if find_member(a, b[k].0.as_str()).is_none() {
                return false;
            }
            k += 1;
        }
        proof {
            assert forall|key: Seq<char>| members(a@).dom().contains(key) implies members(
                b@,
            ).dom().contains(key) && same_json(members(a@)[key], members(b@)[key]) by {
                lemma_member_index(a@, key);
            }
            assert forall|key: Seq<char>| members(b@).dom().contains(key) implies members(
                a@,
            ).dom().contains(key) by {
                lemma_member_index(b@, key);
            }
            assert(members(a@).dom() =~= members(b@).dom());
        }
        true
    }
}

/// Every key in the list is a key of the object.
pub proof fn lemma_keys(entries: Seq<(String, Json)>, i: int)
    requires
        0 <= i < entries.len(),
    ensures
        members(entries).dom().contains(entries[i].0@),
    decreases entries.len(),
{
    if i < entries.len() - 1 {
        lemma_keys(entries.drop_last(), i);
    }
}

/// A list of values that say the same.
pub fn copy_all(items: &Vec<Json>) -> (copies: Vec<Json>)
    ensures
        elements(copies@) == elements(items@),
{
    let mut copies: Vec<Json> = Vec::new();
    let mut i: usize = 0;
    assert(items@.take(0) =~= Seq::empty());
    while i < items.len()
        invariant
            i <= items@.len(),
            elements(copies@) == elements(items@.take(i as int)),
        decreases items@.len() - i,
    {
        let item = items[i].copy();
        proof {
            lemma_elements_push(copies@, item);
            assert(items@.take(i + 1).drop_last() =~= items@.take(i as int));
        }
        copies.push(item);
        i += 1;
    }
    assert(items@.take(i as int) =~= items@);
    copies
}

impl Clone for Json {
    fn clone(&self) -> (json: Json)
        ensures
            json@ == self@,
    {
        self.copy()
    }
}

impl PartialEq for Json {
    fn eq(&self, other: &Json) -> (same: bool) {
        self.same_as(other)
    }
}

impl vstd::std_specs::cmp::PartialEqSpecImpl for Json {
    open spec fn obeys_eq_spec() -> bool {
        true
    }

    open spec fn eq_spec(&self, other: &Json) -> bool {
        same_json(self@, other@)
    }
}

/// A string, or null where there is none.
pub open spec fn optional_str(value: Option<Seq<char>>) -> JsonModel {
    match value {
        Some(t) => JsonModel::Str(t),
        None => JsonModel::Null,
    }
}

/// What the outcome of reading JSON says.
pub open spec fn json_result(result: Result<Json, String>) -> Result<JsonModel, Seq<char>> {
    match result {
        Ok(j) => Ok(j@),
        Err(e) => Err(e@),
    }
}

/// The value that a JSON text holds, or the message of the error.
pub fn parse_json(text: &str) -> (json: Result<Json, String>)
    ensures
        json_result(json) == json_parse(text@),
{
    match value_from_str(text) {
        Ok(value) => Ok(json_of_value(value)),
        Err(message) => Err(message),
    }
}

/// The value that the bytes of a JSON text hold, or the message of the error.
pub fn parse_json_bytes(bytes: &[u8]) -> (json: Result<Json, String>)
    ensures
        json_result(json) == json_parse_bytes(bytes@),
{
    match value_from_slice(bytes) {
        Ok(value) => Ok(json_of_value(value)),
        Err(message) => Err(message),
    }
}

/// The compact text of a JSON value. The strings in the value stand in it as they are, unless they
/// hold characters to be escaped.
pub fn json_string(json: &Json) -> (text: String)
    ensures
        text@ == json_text(json@),
        forall|string: Seq<char>| #[trigger]
            holds_string(json@, string) && needs_no_escape(string) ==> text::has_part(
                text@,
                string,
            ),
{
    value_to_string(&value_of_json(json))
}

/// What is found in a value: of an object its members by their keys, and nothing of any other; a member
/// that is missing counts as null.
pub proof fn law_members_are_found_by_key(
    members: Map<Seq<char>, JsonModel>,
    key: Seq<char>,
    text: Seq<char>,
    items: Seq<JsonModel>,
    flag: bool,
)
    ensures
        members.dom().contains(key) ==> JsonModel::Object(members).get(key) == Some(members[key])
            && JsonModel::Object(members).at(key) == members[key],
        !members.dom().contains(key) ==> JsonModel::Object(members).get(key) is None
            && JsonModel::Object(members).at(key) is Null,
        JsonModel::Str(text).get(key) is None,
        JsonModel::Array(items).get(key) is None,
        JsonModel::Null.get(key) is None,
        JsonModel::Object(members.insert(key, JsonModel::Str(text))).str_at(key) == Some(text),
        JsonModel::Object(members.insert(key, JsonModel::Array(items))).array_at(key) == Some(items),
        JsonModel::Str(text).as_str() == Some(text),
        JsonModel::Array(items).as_array() == Some(items),
        JsonModel::Bool(flag).as_bool() == Some(flag),
        !members.dom().contains(key) ==> JsonModel::Object(members).str_at(key) is None
            && JsonModel::Object(members).array_at(key) is None,
{
}

/// Of two members with one key the later counts, and it changes no other; a list of values says what each
/// of them says, in order.
pub proof fn law_later_members_replace_earlier(
    entries: Seq<(String, Json)>,
    entry: (String, Json),
    other: Seq<char>,
    items: Seq<Json>,
    item: Json,
)
    ensures
        members(entries.push(entry)).dom().contains(entry.0@),
        members(entries.push(entry))[entry.0@] == entry.1@,
        other != entry.0@ ==> members(entries.push(entry)).dom().contains(other) == members(
            entries,
        ).dom().contains(other) && (members(entries).dom().contains(other) ==> members(
            entries.push(entry),
        )[other] == members(entries)[other]),
        members(Seq::empty()) == Map::<Seq<char>, JsonModel>::empty(),
        elements(items.push(item)) == elements(items).push(item@),
        elements(Seq::empty()).len() == 0,
{
    assert(entries.push(entry).drop_last() =~= entries);
    assert(items.push(item).drop_last() =~= items);
}

/// Values are equal where they are alike: texts, booleans and nulls as they are, arrays item by item,
/// objects member by member.
pub proof fn law_equal_values_are_alike(a: JsonModel, b: JsonModel)
    ensures
        same_json(a, b) && a is Str ==> a == b,
        same_json(a, b) && a is Bool ==> a == b,
        same_json(a, b) && a is Null ==> b is Null,
        a == b && (a is Str || a is Bool || a is Null) ==> same_json(a, b),
        same_json(a, b) ==> (a is Array) == (b is Array) && (a is Object) == (b is Object) && (a is Number)
            == (b is Number),
        a is Array && b is Array ==> same_json(a, b) == (a->Array_0.len() == b->Array_0.len() && forall|
            i: int,
        |
            0 <= i < a->Array_0.len() ==> same_json(#[trigger] a->Array_0[i], b->Array_0[i])),
        a is Object && b is Object ==> same_json(a, b) == (a->Object_0.dom() == b->Object_0.dom()
            && forall|k: Seq<char>|
            a->Object_0.dom().contains(k) ==> same_json(#[trigger] a->Object_0[k], b->Object_0[k])),
{
}

} // verus!
