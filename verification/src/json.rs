//! JSON values.
//!
//! [`Json`] holds a JSON value as plain data, and [`JsonView`] is the tree that
//! it stands for. Reading and writing JSON text is left to `serde_json`; the
//! functions that call it are trusted and say so.
use vstd::prelude::*;
use vstd::utf8::*;

verus! {

/// Trusted: `serde_json::Value`, of which only [`value_tree`] is known.
#[verifier::external_type_specification]
#[verifier::external_body]
pub struct ExValue(serde_json::Value);

/// Trusted: `serde_json::Number`, of which only [`number_value`] is known.
#[verifier::external_type_specification]
#[verifier::external_body]
pub struct ExNumber(serde_json::Number);

/// Trusted: `serde_json::Map`, of which only [`map_members`] is known.
#[verifier::external_type_specification]
#[verifier::external_body]
#[verifier::reject_recursive_types(K)]
#[verifier::reject_recursive_types(V)]
pub struct ExMap<K, V>(serde_json::Map<K, V>);

/// A JSON number: an integer, or a number with a fraction or an exponent, given
/// by the text it is written as.
pub enum NumberView {
    Int(int),
    Real(Seq<char>),
}

/// A JSON value.
#[verifier::ext_equal]
pub enum JsonView {
    Null,
    Bool(bool),
    Number(NumberView),
    Str(Seq<char>),
    Array(Seq<JsonView>),
    Object(Map<Seq<char>, JsonView>),
}

/// A JSON value. An object lists its members; of two with the same name the
/// later one counts.
#[derive(Debug)]
pub enum Json {
    Null,
    Bool(bool),
    Number(serde_json::Number),
    Str(String),
    Array(Vec<Json>),
    Object(Vec<(String, Json)>),
}

/// The number that a `serde_json::Number` holds.
pub uninterp spec fn number_value(n: serde_json::Number) -> NumberView;

/// The tree that a `serde_json::Value` holds.
pub uninterp spec fn value_tree(v: serde_json::Value) -> JsonView;

/// The members that a `serde_json::Map` holds.
pub uninterp spec fn map_members(
    m: serde_json::Map<String, serde_json::Value>,
) -> Map<Seq<char>, JsonView>;

/// What `serde_json` reads from a text: a value, or the words of its complaint.
pub uninterp spec fn json_of_text(text: Seq<char>) -> Result<JsonView, Seq<char>>;

/// What `serde_json` reads from bytes: a value, or the words of its complaint.
pub uninterp spec fn json_of_bytes(bytes: Seq<u8>) -> Result<JsonView, Seq<char>>;

/// The compact text that `serde_json` writes for a value.
pub uninterp spec fn json_text(v: JsonView) -> Seq<char>;

/// The indented text that `serde_json` writes for a value.
pub uninterp spec fn json_pretty(v: JsonView) -> Seq<char>;

/// A value that was read.
pub open spec fn read_ok(v: JsonView) -> Result<JsonView, Seq<char>> {
    Ok(v)
}

/// A complaint of the reader.
pub open spec fn read_err(words: Seq<char>) -> Result<JsonView, Seq<char>> {
    Err(words)
}

/// The members of an empty object.
pub open spec fn no_members() -> Map<Seq<char>, JsonView> {
    Map::empty()
}

/// No two entries have the same name.
pub open spec fn names_distinct(entries: Seq<(Seq<char>, JsonView)>) -> bool {
    forall|i: int, j: int|
        0 <= i < j < entries.len() ==> (#[trigger] entries[i]).0 != (#[trigger] entries[j]).0
}

/// The members that a list of entries amounts to: the last entry of a name
/// counts.
pub open spec fn entries_map(entries: Seq<(Seq<char>, JsonView)>) -> Map<Seq<char>, JsonView>
    decreases entries.len(),
{
    if entries.len() == 0 {
        Map::empty()
    } else {
        entries_map(entries.drop_last()).insert(entries.last().0, entries.last().1)
    }
}

/// The tree that a value stands for.
pub open spec fn json_tree(json: Json) -> JsonView
    decreases json, 1nat,
{
    match json {
        Json::Null => JsonView::Null,
        Json::Bool(b) => JsonView::Bool(b),
        Json::Number(n) => JsonView::Number(number_value(n)),
        Json::Str(s) => JsonView::Str(s@),
        Json::Array(_) => JsonView::Array(item_trees(json)),
        Json::Object(_) => JsonView::Object(entries_map(entry_trees(json))),
    }
}

/// The trees of the items of an array.
pub open spec fn item_trees(json: Json) -> Seq<JsonView>
    decreases json, 0nat,
{
    match json {
        Json::Array(items) => Seq::new(
            items@.len(),
            |i: int|
                if 0 <= i < items@.len() {
                    json_tree(items@[i])
                } else {
                    JsonView::Null
                },
        ),
        _ => Seq::empty(),
    }
}

/// The entries of an object, with the trees of their values.
pub open spec fn entry_trees(json: Json) -> Seq<(Seq<char>, JsonView)>
    decreases json, 0nat,
{
    match json {
        Json::Object(entries) => Seq::new(
            entries@.len(),
            |i: int|
                if 0 <= i < entries@.len() {
                    (entries@[i].0@, json_tree(entries@[i].1))
                } else {
                    (Seq::empty(), JsonView::Null)
                },
        ),
        _ => Seq::empty(),
    }
}

impl View for Json {
    type V = JsonView;

    open spec fn view(&self) -> JsonView {
        json_tree(*self)
    }
}

/// The values of a sequence.
pub open spec fn json_views(items: Seq<Json>) -> Seq<JsonView> {
    Seq::new(items.len(), |i: int| items[i]@)
}

/// The entries of an object.
pub open spec fn entry_views(entries: Seq<(String, Json)>) -> Seq<(Seq<char>, JsonView)> {
    Seq::new(entries.len(), |i: int| (entries[i].0@, entries[i].1@))
}

/// An array stands for the sequence of its items.
pub proof fn lemma_array_view(items: Vec<Json>)
    ensures
        Json::Array(items)@ == JsonView::Array(json_views(items@)),
{
    assert(item_trees(Json::Array(items)) =~= json_views(items@));
}

/// An object stands for what its entries amount to.
pub proof fn lemma_object_view(entries: Vec<(String, Json)>)
    ensures
        Json::Object(entries)@ == JsonView::Object(entries_map(entry_views(entries@))),
{
    assert(entry_trees(Json::Object(entries)) =~= entry_views(entries@));
}

/// The member of a name, where the value is an object that has it.
pub open spec fn json_get(v: JsonView, key: Seq<char>) -> Option<JsonView> {
    match v {
        JsonView::Object(members) => if members.contains_key(key) {
            Some(members[key])
        } else {
            None
        },
        _ => None,
    }
}

/// The text, where the value is a string.
pub open spec fn json_str(v: JsonView) -> Option<Seq<char>> {
    match v {
        JsonView::Str(s) => Some(s),
        _ => None,
    }
}

/// The number, where the value is an integer that a `u64` can hold.
pub open spec fn json_u64(v: JsonView) -> Option<u64> {
    match v {
        JsonView::Number(NumberView::Int(i)) => if 0 <= i <= u64::MAX {
            Some(i as u64)
        } else {
            None
        },
        _ => None,
    }
}

/// The number, where the value is an integer that an `i64` can hold.
pub open spec fn json_i64(v: JsonView) -> Option<i64> {
    match v {
        JsonView::Number(NumberView::Int(i)) => if i64::MIN <= i <= i64::MAX {
            Some(i as i64)
        } else {
            None
        },
        _ => None,
    }
}

/// The text of a member, where it is there and a string.
pub open spec fn member_str(v: JsonView, key: Seq<char>) -> Option<Seq<char>> {
    match json_get(v, key) {
        Some(m) => json_str(m),
        None => None,
    }
}

/// The number of a member, where it is there and a `u64`.
pub open spec fn member_u64(v: JsonView, key: Seq<char>) -> Option<u64> {
    match json_get(v, key) {
        Some(m) => json_u64(m),
        None => None,
    }
}

/// An integer as a JSON value.
pub open spec fn json_int(i: int) -> JsonView {
    JsonView::Number(NumberView::Int(i))
}

/// A value without fractions that nests at most `depth` deep.
pub open spec fn plain_within(v: JsonView, depth: nat) -> bool
    decreases depth,
{
    match v {
        JsonView::Array(items) => depth > 0 && forall|i: int|
            0 <= i < items.len() ==> #[trigger] plain_within(items[i], (depth - 1) as nat),
        JsonView::Object(members) => depth > 0 && forall|k: Seq<char>|
            members.contains_key(k) ==> #[trigger] plain_within(members[k], (depth - 1) as nat),
        JsonView::Number(NumberView::Real(_)) => false,
        _ => true,
    }
}

/// Nesting depth up to which `serde_json` reads what it wrote.
pub open spec fn read_back_depth() -> nat {
    127
}

/// Trusted: `Clone` of `serde_json::Number` gives an equal number.
pub assume_specification[ <serde_json::Number as Clone>::clone ](
    n: &serde_json::Number,
) -> (r: serde_json::Number)
    ensures
        number_value(r) == number_value(*n),
;

/// Trusted: `serde_json::Number::as_u64` gives an integer in range, and nothing
/// for any other number.
pub assume_specification[ serde_json::Number::as_u64 ](n: &serde_json::Number) -> (r: Option<u64>)
    ensures
        r == json_u64(JsonView::Number(number_value(*n))),
;

/// Trusted: `serde_json::Number::as_i64` gives an integer in range, and nothing
/// for any other number.
pub assume_specification[ serde_json::Number::as_i64 ](n: &serde_json::Number) -> (r: Option<i64>)
    ensures
        r == json_i64(JsonView::Number(number_value(*n))),
;

/// Trusted: `serde_json::Number::from` of a `u64` is that integer.
#[verifier::external_body]
fn number_from_u64(n: u64) -> (r: serde_json::Number)
    ensures
        number_value(r) == NumberView::Int(n as int),
{
    serde_json::Number::from(n)
}

/// Trusted: `serde_json::Number::from` of an `i64` is that integer.
#[verifier::external_body]
fn number_from_i64(n: i64) -> (r: serde_json::Number)
    ensures
        number_value(r) == NumberView::Int(n as int),
{
    serde_json::Number::from(n)
}

/// One layer of a `serde_json::Value`.
enum Opened<'a> {
    Null,
    Bool(bool),
    Number(&'a serde_json::Number),
    Str(&'a String),
    Array(&'a Vec<serde_json::Value>),
    Object(&'a serde_json::Map<String, serde_json::Value>),
}

/// The trees of a sequence of `serde_json` values.
pub open spec fn value_trees(values: Seq<serde_json::Value>) -> Seq<JsonView> {
    Seq::new(values.len(), |i: int| value_tree(values[i]))
}

/// The entries of a list of borrowed names and `serde_json` values.
pub open spec fn borrowed_entries(
    entries: Seq<(&String, &serde_json::Value)>,
) -> Seq<(Seq<char>, JsonView)> {
    Seq::new(entries.len(), |i: int| (entries[i].0@, value_tree(*entries[i].1)))
}

/// Trusted: tells the variants of `serde_json::Value` apart and hands out what
/// each holds.
#[verifier::external_body]
fn open_value<'a>(v: &'a serde_json::Value) -> (r: Opened<'a>)
    ensures
        value_tree(*v) == match r {
            Opened::Null => JsonView::Null,
            Opened::Bool(b) => JsonView::Bool(b),
            Opened::Number(n) => JsonView::Number(number_value(*n)),
            Opened::Str(s) => JsonView::Str(s@),
            Opened::Array(items) => JsonView::Array(value_trees(items@)),
            Opened::Object(members) => JsonView::Object(map_members(*members)),
        },
{
    match v {
        serde_json::Value::Null => Opened::Null,
        serde_json::Value::Bool(b) => Opened::Bool(*b),
        serde_json::Value::Number(n) => Opened::Number(n),
        serde_json::Value::String(s) => Opened::Str(s),
        serde_json::Value::Array(items) => Opened::Array(items),
        serde_json::Value::Object(members) => Opened::Object(members),
    }
}

/// Trusted: `serde_json::Map::iter` walks the members, each name once.
#[verifier::external_body]
fn map_entries<'a>(m: &'a serde_json::Map<String, serde_json::Value>) -> (r: Vec<
    (&'a String, &'a serde_json::Value),
>)
    ensures
        entries_map(borrowed_entries(r@)) == map_members(*m),
        names_distinct(borrowed_entries(r@)),
{
    m.iter().collect()
}

/// Trusted: `serde_json::Map::new` is empty.
#[verifier::external_body]
fn map_new() -> (m: serde_json::Map<String, serde_json::Value>)
    ensures
        map_members(m) == no_members(),
{
    serde_json::Map::new()
}

/// Trusted: `serde_json::Map::insert` sets one member.
#[verifier::external_body]
fn map_insert(
    m: &mut serde_json::Map<String, serde_json::Value>,
    key: String,
    value: serde_json::Value,
)
    ensures
        map_members(*final(m)) == map_members(*old(m)).insert(key@, value_tree(value)),
{
    m.insert(key, value);
}

/// The parts of which a `serde_json::Value` is made.
enum Parts {
    Null,
    Bool(bool),
    Number(serde_json::Number),
    Str(String),
    Array(Vec<serde_json::Value>),
    Object(serde_json::Map<String, serde_json::Value>),
}

/// Trusted: makes a `serde_json::Value` of each variant from what it holds.
#[verifier::external_body]
fn close_value(parts: Parts) -> (v: serde_json::Value)
    ensures
        value_tree(v) == match parts {
            Parts::Null => JsonView::Null,
            Parts::Bool(b) => JsonView::Bool(b),
            Parts::Number(n) => JsonView::Number(number_value(n)),
            Parts::Str(s) => JsonView::Str(s@),
            Parts::Array(items) => JsonView::Array(value_trees(items@)),
            Parts::Object(members) => JsonView::Object(map_members(members)),
        },
{
    match parts {
        Parts::Null => serde_json::Value::Null,
        Parts::Bool(b) => serde_json::Value::Bool(b),
        Parts::Number(n) => serde_json::Value::Number(n),
        Parts::Str(s) => serde_json::Value::String(s),
        Parts::Array(items) => serde_json::Value::Array(items),
        Parts::Object(members) => serde_json::Value::Object(members),
    }
}

/// Trusted: `serde_json::from_str`. The contract names the result; it does not
/// say which texts are JSON.
#[verifier::external_body]
fn value_from_str(text: &str) -> (r: Result<serde_json::Value, String>)
    ensures
        match r {
            Ok(v) => json_of_text(text@) == read_ok(value_tree(v)),
            Err(e) => json_of_text(text@) == read_err(e@),
        },
{
    serde_json::from_str(text).map_err(|e| e.to_string())
}

/// Trusted: `serde_json::from_slice`. The contract names the result; it does
/// not say which bytes are JSON.
#[verifier::external_body]
fn value_from_slice(bytes: &[u8]) -> (r: Result<serde_json::Value, String>)
    ensures
        match r {
            Ok(v) => json_of_bytes(bytes@) == read_ok(value_tree(v)),
            Err(e) => json_of_bytes(bytes@) == read_err(e@),
        },
{
    serde_json::from_slice(bytes).map_err(|e| e.to_string())
}

/// Trusted: `serde_json::to_string` on a `Value`, which cannot fail: every name
/// is a string and every number finite. The contract names the text, and says
/// that the reader gives back what was written, up to its depth limit and
/// except for numbers with a fraction, which the reader may round.
#[verifier::external_body]
fn value_to_string(v: &serde_json::Value) -> (text: String)
    ensures
        text@ == json_text(value_tree(*v)),
        plain_within(value_tree(*v), read_back_depth()) ==> json_of_bytes(encode_utf8(text@))
            == read_ok(value_tree(*v)),
{
    serde_json::to_string(v).expect("a JSON value serializes")
}

/// Trusted: `serde_json::to_string_pretty` on a `Value`, which cannot fail. The
/// contract names the text.
#[verifier::external_body]
fn value_to_string_pretty(v: &serde_json::Value) -> (text: String)
    ensures
        text@ == json_pretty(value_tree(*v)),
{
    serde_json::to_string_pretty(v).expect("a JSON value serializes")
}

/// The compact text of one member.
pub open spec fn member_text(entry: (Seq<char>, JsonView)) -> Seq<char> {
    json_text(JsonView::Str(entry.0)) + ":"@ + json_text(entry.1)
}

/// The compact texts of members, with commas between them.
pub open spec fn members_text(entries: Seq<(Seq<char>, JsonView)>) -> Seq<char>
    decreases entries.len(),
{
    if entries.len() == 0 {
        Seq::empty()
    } else if entries.len() == 1 {
        member_text(entries[0])
    } else {
        members_text(entries.drop_last()) + ","@ + member_text(entries.last())
    }
}

/// The compact text of an object whose members are written in a given order.
pub open spec fn object_text(entries: Seq<(Seq<char>, JsonView)>) -> Seq<char> {
    "{"@ + members_text(entries) + "}"@
}

/// The entries of a list of names and `serde_json` values.
pub open spec fn value_entries(entries: Seq<(String, serde_json::Value)>) -> Seq<
    (Seq<char>, JsonView),
> {
    Seq::new(entries.len(), |i: int| (entries[i].0@, value_tree(entries[i].1)))
}

/// Whether the reader gives back an object that was written member by member.
pub open spec fn reads_back(entries: Seq<(Seq<char>, JsonView)>) -> bool {
    names_distinct(entries) && plain_within(
        JsonView::Object(entries_map(entries)),
        read_back_depth(),
    )
}

/// Trusted: `serde::Serializer::collect_map` on a `serde_json::Serializer`,
/// which writes the members in the order given and cannot fail on values. The
/// contract says how the texts of the members are put together, and that the
/// reader gives the object back, up to its depth limit and except for numbers
/// with a fraction.
#[verifier::external_body]
fn write_members(members: Vec<(String, serde_json::Value)>) -> (bytes: Vec<u8>)
    ensures
        bytes@ == encode_utf8(object_text(value_entries(members@))),
        reads_back(value_entries(members@)) ==> json_of_bytes(bytes@) == read_ok(
            JsonView::Object(entries_map(value_entries(members@))),
        ),
{
    let mut bytes: Vec<u8> = Vec::new();
    let mut writer = serde_json::Serializer::new(&mut bytes);
    serde::Serializer::collect_map(&mut writer, members).expect("a JSON object serializes");
    bytes
}

/// The entry of a name that no later entry repeats is the member.
proof fn lemma_entry_is_member(entries: Seq<(Seq<char>, JsonView)>, i: int)
    requires
        0 <= i < entries.len(),
        forall|j: int| i < j < entries.len() ==> (#[trigger] entries[j]).0 != entries[i].0,
    ensures
        entries_map(entries).contains_key(entries[i].0),
        entries_map(entries)[entries[i].0] == entries[i].1,
    decreases entries.len(),
{
    if i < entries.len() - 1 {
        let before = entries.drop_last();
        assert forall|j: int| i < j < before.len() implies (#[trigger] before[j]).0
            != before[i].0 by {
            assert(before[j] == entries[j]);
        }
        lemma_entry_is_member(before, i);
        assert(entries.last() == entries[entries.len() - 1]);
    }
}

/// A name that no entry has is no member.
proof fn lemma_no_entry_no_member(entries: Seq<(Seq<char>, JsonView)>, key: Seq<char>)
    requires
        forall|j: int| 0 <= j < entries.len() ==> (#[trigger] entries[j]).0 != key,
    ensures
        !entries_map(entries).contains_key(key),
    decreases entries.len(),
{
    if entries.len() > 0 {
        let before = entries.drop_last();
        assert forall|j: int| 0 <= j < before.len() implies (#[trigger] before[j]).0 != key by {
            assert(before[j] == entries[j]);
        }
        lemma_no_entry_no_member(before, key);
        assert(entries.last() == entries[entries.len() - 1]);
    }
}

/// The members of a list of entries are finitely many.
proof fn lemma_entries_finite(entries: Seq<(Seq<char>, JsonView)>)
    ensures
        entries_map(entries).dom().finite(),
    decreases entries.len(),
{
    if entries.len() > 0 {
        lemma_entries_finite(entries.drop_last());
    }
}

/// The value that a `serde_json::Value` holds.
fn json_from_value(v: &serde_json::Value) -> (r: Json)
    ensures
        r@ == value_tree(*v),
    decreases value_tree(*v),
{
    match open_value(v) {
        Opened::Null => Json::Null,
        Opened::Bool(b) => Json::Bool(b),
        Opened::Number(n) => Json::Number(n.clone()),
        Opened::Str(s) => Json::Str(s.clone()),
        Opened::Array(values) => {
            let ghost trees = value_trees(values@);
            let mut items: Vec<Json> = Vec::new();
            let mut i: usize = 0;
            while i < values.len()
                invariant
                    i <= values.len(),
                    trees == value_trees(values@),
                    value_tree(*v) == JsonView::Array(trees),
                    json_views(items@) == trees.subrange(0, i as int),
                decreases values.len() - i,
            {
                let ghost earlier = items@;
                proof {
                    assert(trees[i as int] == value_tree(values@[i as int]));
                    assert(decreases_to!(value_tree(*v) => value_tree(*v)->Array_0[i as int]));
                }
                let item = json_from_value(&values[i]);
                items.push(item);
                i += 1;
                proof {
                    assert(json_views(items@) =~= json_views(earlier).push(item@));
                    assert(trees.subrange(0, i as int) =~= trees.subrange(0, i - 1).push(trees[i - 1]));
                }
            }
            proof {
                lemma_array_view(items);
                assert(trees.subrange(0, i as int) =~= trees);
            }
            Json::Array(items)
        },
        Opened::Object(members) => {
            let listed = map_entries(members);
            let ghost trees = borrowed_entries(listed@);
            let mut entries: Vec<(String, Json)> = Vec::new();
            let mut i: usize = 0;
            proof {
                lemma_entries_finite(trees);
            }
            while i < listed.len()
                invariant
                    i <= listed.len(),
                    trees == borrowed_entries(listed@),
                    entries_map(trees).dom().finite(),
                    value_tree(*v) == JsonView::Object(entries_map(trees)),
                    entry_views(entries@) == trees.subrange(0, i as int),
                    names_distinct(trees),
                decreases listed.len() - i,
            {
                let ghost earlier = entries@;
                proof {
                    assert forall|j: int| i < j < trees.len() implies (#[trigger] trees[j]).0
                        != trees[i as int].0 by {
                        assert(trees[i as int].0 != trees[j].0);
                    }
                    lemma_entry_is_member(trees, i as int);
                    assert(trees[i as int].1 == value_tree(*listed@[i as int].1));
                    assert(decreases_to!(value_tree(*v) => value_tree(*v)->Object_0[trees[i as int].0]));
                }
                let (name, value) = listed[i];
                let item = json_from_value(value);
                entries.push((name.clone(), item));
                i += 1;
                proof {
                    assert(entry_views(entries@) =~= entry_views(earlier).push(
                        (entries@.last().0@, entries@.last().1@),
                    ));
                    assert(trees.subrange(0, i as int) =~= trees.subrange(0, i - 1).push(trees[i - 1]));
                }
            }
            proof {
                lemma_object_view(entries);
                assert(trees.subrange(0, i as int) =~= trees);
            }
            Json::Object(entries)
        },
    }
}

/// The `serde_json::Value` that holds a value.
fn json_to_value(json: &Json) -> (v: serde_json::Value)
    ensures
        value_tree(v) == json@,
    decreases json,
{
    match json {
        Json::Null => close_value(Parts::Null),
        Json::Bool(b) => close_value(Parts::Bool(*b)),
        Json::Number(n) => close_value(Parts::Number(n.clone())),
        Json::Str(s) => close_value(Parts::Str(s.clone())),
        Json::Array(items) => {
            let mut values: Vec<serde_json::Value> = Vec::new();
            let mut i: usize = 0;
            while i < items.len()
                invariant
                    i <= items.len(),
                    *json == Json::Array(*items),
                    value_trees(values@) == json_views(items@).subrange(0, i as int),
                decreases items.len() - i,
            {
                let ghost earlier = values@;
                proof {
                    assert(decreases_to!(*json => json->Array_0@[i as int]));
                }
                let value = json_to_value(&items[i]);
                values.push(value);
                i += 1;
                proof {
                    assert(value_trees(values@) =~= value_trees(earlier).push(value_tree(value)));
                    assert(json_views(items@).subrange(0, i as int) =~= json_views(items@).subrange(
                        0,
                        i - 1,
                    ).push(items@[i - 1]@));
                }
            }
            proof {
                lemma_array_view(*items);
                assert(json_views(items@).subrange(0, i as int) =~= json_views(items@));
            }
            close_value(Parts::Array(values))
        },
        Json::Object(entries) => {
            let mut members = map_new();
            let mut i: usize = 0;
            let ghost listed = entry_views(entries@);
            proof {
                assert(listed.subrange(0, 0) =~= Seq::empty());
            }
            while i < entries.len()
                invariant
                    i <= entries.len(),
                    *json == Json::Object(*entries),
                    listed == entry_views(entries@),
                    map_members(members) == entries_map(listed.subrange(0, i as int)),
                decreases entries.len() - i,
            {
                proof {
                    assert(decreases_to!(*json => json->Object_0@[i as int].1));
                }
                let entry = &entries[i];
                let value = json_to_value(&entry.1);
                map_insert(&mut members, entry.0.clone(), value);
                i += 1;
                proof {
                    assert(listed.subrange(0, i as int).drop_last() =~= listed.subrange(0, i - 1));
                    assert(listed.subrange(0, i as int).last() == listed[i - 1]);
                }
            }
            proof {
                lemma_object_view(*entries);
                assert(listed.subrange(0, i as int) =~= listed);
            }
            close_value(Parts::Object(members))
        },
    }
}

impl Clone for Json {
    fn clone(&self) -> (r: Self)
        ensures
            r@ == self@,
        decreases self,
    {
        match self {
            Json::Null => Json::Null,
            Json::Bool(b) => Json::Bool(*b),
            Json::Number(n) => Json::Number(n.clone()),
            Json::Str(s) => Json::Str(s.clone()),
            Json::Array(items) => {
                let mut copies: Vec<Json> = Vec::new();
                let mut i: usize = 0;
                while i < items.len()
                    invariant
                        i <= items.len(),
                        *self == Json::Array(*items),
                        json_views(copies@) == json_views(items@).subrange(0, i as int),
                    decreases items.len() - i,
                {
                    let ghost earlier = copies@;
                    proof {
                        assert(decreases_to!(*self => self->Array_0@[i as int]));
                    }
                    let copy = items[i].clone();
                    copies.push(copy);
                    i += 1;
                    proof {
                        assert(json_views(copies@) =~= json_views(earlier).push(copy@));
                        assert(json_views(items@).subrange(0, i as int) =~= json_views(
                            items@,
                        ).subrange(0, i - 1).push(items@[i - 1]@));
                    }
                }
                proof {
                    lemma_array_view(*items);
                    lemma_array_view(copies);
                    assert(json_views(items@).subrange(0, i as int) =~= json_views(items@));
                }
                Json::Array(copies)
            },
            Json::Object(entries) => {
                let mut copies: Vec<(String, Json)> = Vec::new();
                let mut i: usize = 0;
                while i < entries.len()
                    invariant
                        i <= entries.len(),
                        *self == Json::Object(*entries),
                        entry_views(copies@) == entry_views(entries@).subrange(0, i as int),
                    decreases entries.len() - i,
                {
                    let ghost earlier = copies@;
                    proof {
                        assert(decreases_to!(*self => self->Object_0@[i as int].1));
                    }
                    let entry = &entries[i];
                    copies.push((entry.0.clone(), entry.1.clone()));
                    i += 1;
                    proof {
                        assert(entry_views(copies@) =~= entry_views(earlier).push(
                            (copies@.last().0@, copies@.last().1@),
                        ));
                        assert(entry_views(entries@).subrange(0, i as int) =~= entry_views(
                            entries@,
                        ).subrange(0, i - 1).push(entry_views(entries@)[i - 1]));
                    }
                }
                proof {
                    lemma_object_view(*entries);
                    lemma_object_view(copies);
                    assert(entry_views(entries@).subrange(0, i as int) =~= entry_views(entries@));
                }
                Json::Object(copies)
            },
        }
    }
}

/// The view of a value that may be missing.
pub open spec fn owned_view(v: Option<Json>) -> Option<JsonView> {
    match v {
        Some(j) => Some(j@),
        None => None,
    }
}

/// The view of a borrowed value that may be missing.
pub open spec fn opt_json_view(v: Option<&Json>) -> Option<JsonView> {
    match v {
        Some(j) => Some(j@),
        None => None,
    }
}

impl Json {
    /// A non-negative integer.
    pub fn uint(n: u64) -> (r: Json)
        ensures
            r@ == json_int(n as int),
    {
        Json::Number(number_from_u64(n))
    }

    /// An integer.
    pub fn integer(n: i64) -> (r: Json)
        ensures
            r@ == json_int(n as int),
    {
        Json::Number(number_from_i64(n))
    }

    /// A string.
    pub fn str(s: &str) -> (r: Json)
        ensures
            r@ == JsonView::Str(s@),
    {
        Json::Str(s.to_owned())
    }

    /// An array.
    pub fn array(items: Vec<Json>) -> (r: Json)
        ensures
            r@ == JsonView::Array(json_views(items@)),
    {
        proof {
            lemma_array_view(items);
        }
        Json::Array(items)
    }

    /// The object without members.
    pub fn object() -> (r: Json)
        ensures
            r@ == JsonView::Object(Map::empty()),
    {
        let entries: Vec<(String, Json)> = Vec::new();
        proof {
            lemma_object_view(entries);
            assert(entry_views(entries@) =~= Seq::empty());
        }
        Json::Object(entries)
    }

    /// The object with one member set.
    pub fn put(self, key: &str, value: Json) -> (r: Json)
        requires
            self@ is Object,
        ensures
            r@ == JsonView::Object(self@->Object_0.insert(key@, value@)),
    {
        match self {
            Json::Object(entries) => {
                let mut entries = entries;
                let ghost before = entries;
                entries.push((key.to_owned(), value));
                proof {
                    lemma_object_view(before);
                    lemma_object_view(entries);
                    let listed = entry_views(entries@);
                    assert(listed.drop_last() =~= entry_views(before@));
                    assert(listed.last() == (key@, value@));
                }
                Json::Object(entries)
            },
            other => other,
        }
    }

    /// The member of a name.
    pub fn get(&self, key: &str) -> (r: Option<&Json>)
        ensures
            opt_json_view(r) == json_get(self@, key@),
    {
        match self {
            Json::Object(entries) => {
                let wanted: String = key.to_owned();
                let ghost listed = entry_views(entries@);
                proof {
                    lemma_object_view(*entries);
                }
                let mut i: usize = entries.len();
                while i > 0
                    invariant
                        i <= entries.len(),
                        wanted@ == key@,
                        listed == entry_views(entries@),
                        self@ == JsonView::Object(entries_map(listed)),
                        forall|j: int| i <= j < listed.len() ==> (#[trigger] listed[j]).0 != key@,
                    decreases i,
                {
                    i -= 1;
                    let entry = &entries[i];
                    assert(listed[i as int] == (entry.0@, entry.1@));
                    if entry.0 == wanted {
                        proof {
                            lemma_entry_is_member(listed, i as int);
                        }
                        return Some(&entry.1);
                    }
                }
                proof {
                    lemma_no_entry_no_member(listed, key@);
                }
                None
            },
            _ => None,
        }
    }

    /// The text, where the value is a string.
    pub fn as_str(&self) -> (r: Option<&str>)
        ensures
            crate::text::opt_str_view(r) == json_str(self@),
    {
        match self {
            Json::Str(s) => Some(s.as_str()),
            _ => None,
        }
    }

    /// The number, where the value is an integer that a `u64` can hold.
    pub fn as_u64(&self) -> (r: Option<u64>)
        ensures
            r == json_u64(self@),
    {
        match self {
            Json::Number(n) => n.as_u64(),
            _ => None,
        }
    }

    /// The number, where the value is an integer that an `i64` can hold.
    pub fn as_i64(&self) -> (r: Option<i64>)
        ensures
            r == json_i64(self@),
    {
        match self {
            Json::Number(n) => n.as_i64(),
            _ => None,
        }
    }

    /// The items, where the value is an array.
    pub fn as_array(&self) -> (r: Option<&Vec<Json>>)
        ensures
            match r {
                Some(items) => self@ == JsonView::Array(json_views(items@)),
                None => !(self@ is Array),
            },
    {
        match self {
            Json::Array(items) => {
                proof {
                    lemma_array_view(*items);
                }
                Some(items)
            },
            _ => None,
        }
    }

    /// Whether the value is `null`.
    pub fn is_null(&self) -> (r: bool)
        ensures
            r == (self@ is Null),
    {
        match self {
            Json::Null => true,
            _ => false,
        }
    }

    /// Whether the value is an object.
    pub fn is_object(&self) -> (r: bool)
        ensures
            r == (self@ is Object),
    {
        match self {
            Json::Object(_) => true,
            _ => false,
        }
    }

    /// The text of a member, where it is there and a string.
    pub fn get_str(&self, key: &str) -> (r: Option<&str>)
        ensures
            crate::text::opt_str_view(r) == member_str(self@, key@),
    {
        match self.get(key) {
            Some(v) => v.as_str(),
            None => None,
        }
    }

    /// The number of a member, where it is there and a `u64`.
    pub fn get_u64(&self, key: &str) -> (r: Option<u64>)
        ensures
            r == member_u64(self@, key@),
    {
        match self.get(key) {
            Some(v) => v.as_u64(),
            None => None,
        }
    }

    /// Reads a text.
    pub fn parse(text: &str) -> (r: Result<Json, String>)
        ensures
            match r {
                Ok(j) => json_of_text(text@) == read_ok(j@),
                Err(e) => json_of_text(text@) == read_err(e@),
            },
    {
        match value_from_str(text) {
            Ok(v) => Ok(json_from_value(&v)),
            Err(e) => Err(e),
        }
    }

    /// Reads bytes.
    pub fn parse_bytes(bytes: &[u8]) -> (r: Result<Json, String>)
        ensures
            match r {
                Ok(j) => json_of_bytes(bytes@) == read_ok(j@),
                Err(e) => json_of_bytes(bytes@) == read_err(e@),
            },
    {
        match value_from_slice(bytes) {
            Ok(v) => Ok(json_from_value(&v)),
            Err(e) => Err(e),
        }
    }

    /// The compact text. Reading it gives the value back.
    pub fn to_text(&self) -> (text: String)
        ensures
            text@ == json_text(self@),
            plain_within(self@, read_back_depth()) ==> json_of_bytes(encode_utf8(text@)) == read_ok(self@),
    {
        value_to_string(&json_to_value(self))
    }

    /// The compact text, in bytes, of an object whose members are written in the
    /// order given. Reading it gives the object back.
    pub fn ordered_bytes(members: &Vec<(String, Json)>) -> (bytes: Vec<u8>)
        ensures
            bytes@ == encode_utf8(object_text(entry_views(members@))),
            reads_back(entry_views(members@)) ==> json_of_bytes(bytes@) == read_ok(
                JsonView::Object(entries_map(entry_views(members@))),
            ),
    {
        let mut values: Vec<(String, serde_json::Value)> = Vec::new();
        let mut i: usize = 0;
        let ghost listed = entry_views(members@);
        while i < members.len()
            invariant
                i <= members@.len(),
                listed == entry_views(members@),
                value_entries(values@) == listed.subrange(0, i as int),
            decreases members@.len() - i,
        {
            let ghost earlier = value_entries(values@);
            let value = json_to_value(&members[i].1);
            values.push((members[i].0.clone(), value));
            i += 1;
            proof {
                assert(value_entries(values@) =~= earlier.push(listed[i - 1]));
                assert(listed.subrange(0, i as int) =~= listed.subrange(0, i - 1).push(
                    listed[i - 1],
                ));
            }
        }
        assert(listed.subrange(0, i as int) =~= listed);
        write_members(values)
    }

    /// The indented text.
    pub fn to_pretty(&self) -> (text: String)
        ensures
            text@ == json_pretty(self@),
    {
        value_to_string_pretty(&json_to_value(self))
    }
}

/// A member that was set is the member that is found, whatever stood there
/// before, and no other member changes. A value that is no object has none.
pub proof fn law_members_are_found(
    members: Map<Seq<char>, JsonView>,
    key: Seq<char>,
    value: JsonView,
    other: Seq<char>,
)
    ensures
        json_get(JsonView::Object(members.insert(key, value)), key) == Some(value),
        json_get(JsonView::Object(members.remove(key)), key) is None,
        other != key ==> json_get(JsonView::Object(members.insert(key, value)), other) == json_get(
            JsonView::Object(members),
            other,
        ),
        json_get(JsonView::Null, key) is None,
        json_get(JsonView::Str(other), key) is None,
        json_get(JsonView::Array(seq![JsonView::Object(members)]), key) is None,
{
}

/// A value is read as what it was made of: a text as a string, an integer as
/// each width that can hold it, and nothing as something else.
pub proof fn law_values_read_as_made(text: Seq<char>, i: int)
    ensures
        json_str(JsonView::Str(text)) == Some(text),
        json_str(json_int(i)) is None,
        json_u64(JsonView::Str(text)) is None,
        json_i64(JsonView::Str(text)) is None,
        0 <= i <= u64::MAX ==> json_u64(json_int(i)) == Some(i as u64),
        i < 0 || i > u64::MAX ==> json_u64(json_int(i)) is None,
        i64::MIN <= i <= i64::MAX ==> json_i64(json_int(i)) == Some(i as i64),
        i < i64::MIN || i > i64::MAX ==> json_i64(json_int(i)) is None,
{
}

/// The text and the number of a member are those of the value under its name.
pub proof fn law_members_read_as_made(
    members: Map<Seq<char>, JsonView>,
    key: Seq<char>,
    text: Seq<char>,
    n: u64,
)
    ensures
        member_str(JsonView::Object(members.insert(key, JsonView::Str(text))), key) == Some(text),
        member_str(JsonView::Object(members.insert(key, json_int(n as int))), key) is None,
        member_str(JsonView::Object(members.remove(key)), key) is None,
        member_u64(JsonView::Object(members.insert(key, json_int(n as int))), key) == Some(n),
        member_u64(JsonView::Object(members.insert(key, JsonView::Str(text))), key) is None,
        member_u64(JsonView::Object(members.remove(key)), key) is None,
{
}

/// Of two entries under one name the later one counts, and an entry under
/// another name takes nothing away.
pub proof fn law_later_entry_counts(
    entries: Seq<(Seq<char>, JsonView)>,
    key: Seq<char>,
    value: JsonView,
    other: Seq<char>,
)
    ensures
        entries_map(entries.push((key, value))).contains_key(key),
        entries_map(entries.push((key, value)))[key] == value,
        other != key ==> entries_map(entries.push((key, value))).contains_key(other)
            == entries_map(entries).contains_key(other),
        other != key && entries_map(entries).contains_key(other) ==> entries_map(
            entries.push((key, value)),
        )[other] == entries_map(entries)[other],
        entries_map(Seq::empty()) == Map::<Seq<char>, JsonView>::empty(),
{
    assert(entries.push((key, value)).drop_last() =~= entries);
}

/// Values are seen as they are, each in its place and none left out.
pub proof fn law_values_are_seen_in_place(items: Seq<Json>, i: int, v: Json)
    requires
        0 <= i < items.len(),
    ensures
        json_views(items).len() == items.len(),
        json_views(items)[i] == items[i]@,
        owned_view(Some(v)) == Some(v@),
        owned_view(None) is None,
        opt_json_view(Some(&v)) == Some(v@),
        opt_json_view(None) is None,
{
}

} // verus!
