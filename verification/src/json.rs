//! JSON documents: what the platforms send and what they are sent.
//!
//! `serde_json` reads and writes the text. Between the two a document is a
//! [`Json`], whose meaning is a [`JsonTree`].

use crate::text::{same_text, text_option};
use vstd::prelude::*;
use vstd::string::*;

verus! {

/// What a JSON document holds.
pub enum JsonTree {
    Null,
    Bool(bool),
    /// A number that is no fraction, is not negative and fits.
    Unsigned(u64),
    /// Any other number, as it is written.
    OtherNumber(Seq<char>),
    Text(Seq<char>),
    Array(Seq<JsonTree>),
    Object(Map<Seq<char>, JsonTree>),
}

impl JsonTree {
    /// The value under `key`; null where there is none.
    pub open spec fn field(self, key: Seq<char>) -> JsonTree {
        match self {
            JsonTree::Object(entries) if entries.contains_key(key) => entries[key],
            _ => JsonTree::Null,
        }
    }

    pub open spec fn as_str(self) -> Option<Seq<char>> {
        match self {
            JsonTree::Text(s) => Some(s),
            _ => None,
        }
    }

    pub open spec fn as_bool(self) -> Option<bool> {
        match self {
            JsonTree::Bool(b) => Some(b),
            _ => None,
        }
    }

    pub open spec fn as_u64(self) -> Option<u64> {
        match self {
            JsonTree::Unsigned(n) => Some(n),
            _ => None,
        }
    }

    /// Whether the document holds no number but unsigned ones and nests no
    /// deeper than `depth`.
    pub open spec fn plain(self, depth: nat) -> bool
        decreases depth,
    {
        match self {
            JsonTree::OtherNumber(_) => false,
            JsonTree::Array(items) => depth > 0 && forall|i: int|
                0 <= i < items.len() ==> (#[trigger] items[i]).plain((depth - 1) as nat),
            JsonTree::Object(entries) => depth > 0 && forall|key: Seq<char>| #[trigger]
                entries.contains_key(key) ==> entries[key].plain((depth - 1) as nat),
            _ => true,
        }
    }
}

/// The map that a list of entries writes: of two entries with one key the later
/// one counts.
pub open spec fn entry_map(entries: Seq<(Seq<char>, JsonTree)>) -> Map<Seq<char>, JsonTree>
    decreases entries.len(),
{
    if entries.len() == 0 {
        Map::empty()
    } else {
        entry_map(entries.drop_last()).insert(entries.last().0, entries.last().1)
    }
}

/// Whether no two of `entries` have one key.
pub open spec fn distinct_keys(entries: Seq<(Seq<char>, JsonTree)>) -> bool {
    forall|i: int, j: int|
        0 <= i < j < entries.len() ==> (#[trigger] entries[i]).0 != (#[trigger] entries[j]).0
}

/// The map of entries with distinct keys has each of them.
pub proof fn entry_map_holds(entries: Seq<(Seq<char>, JsonTree)>, i: int)
    requires
        distinct_keys(entries),
        0 <= i < entries.len(),
    ensures
        entry_map(entries).dom().finite(),
        entry_map(entries).contains_key(entries[i].0),
        entry_map(entries)[entries[i].0] == entries[i].1,
    decreases entries.len(),
{
    let front = entries.drop_last();
    if i < front.len() {
        assert(front[i] == entries[i]);
        assert(entries[i].0 != entries[entries.len() - 1].0);
        entry_map_holds(front, i);
    } else if front.len() > 0 {
        entry_map_holds(front, 0);
    } else {
        assert(entry_map(front) == Map::<Seq<char>, JsonTree>::empty());
    }
}

/// The map of entries has no key but theirs.
pub proof fn entry_map_misses(entries: Seq<(Seq<char>, JsonTree)>, key: Seq<char>)
    requires
        forall|i: int| 0 <= i < entries.len() ==> (#[trigger] entries[i]).0 != key,
    ensures
        !entry_map(entries).contains_key(key),
    decreases entries.len(),
{
    if entries.len() > 0 {
        let front = entries.drop_last();
        assert forall|i: int| 0 <= i < front.len() implies (#[trigger] front[i]).0 != key by {
            assert(front[i] == entries[i]);
        }
        entry_map_misses(front, key);
        assert(entries[entries.len() - 1].0 != key);
    }
}

/// What the items of an array hold.
pub open spec fn item_trees(items: Seq<Json>) -> Seq<JsonTree>
    decreases items,
{
    Seq::new(
        items.len(),
        |i: int|
            if 0 <= i < items.len() {
                items[i].tree()
            } else {
                JsonTree::Null
            },
    )
}

/// The keys of an object's entries and what the entries hold.
pub open spec fn entry_trees(entries: Seq<(String, Json)>) -> Seq<(Seq<char>, JsonTree)>
    decreases entries,
{
    Seq::new(
        entries.len(),
        |i: int|
            if 0 <= i < entries.len() {
                (entries[i].0@, entries[i].1.tree())
            } else {
                (Seq::empty(), JsonTree::Null)
            },
    )
}

/// A JSON document.
#[derive(Debug)]
pub enum Json {
    Null,
    Bool(bool),
    /// A number that is no fraction, is not negative and fits.
    Unsigned(u64),
    /// Any other number, as it is written.
    OtherNumber(String),
    Text(String),
    Array(Vec<Json>),
    /// The entries of an object: of two with one key the later one counts.
    Object(Vec<(String, Json)>),
}

impl View for Json {
    type V = JsonTree;

    open spec fn view(&self) -> JsonTree {
        self.tree()
    }
}

impl Json {
    /// What the document holds.
    pub open spec fn tree(self) -> JsonTree
        decreases self,
    {
        match self {
            Json::Null => JsonTree::Null,
            Json::Bool(b) => JsonTree::Bool(b),
            Json::Unsigned(n) => JsonTree::Unsigned(n),
            Json::OtherNumber(s) => JsonTree::OtherNumber(s@),
            Json::Text(s) => JsonTree::Text(s@),
            Json::Array(items) => JsonTree::Array(item_trees(items@)),
            Json::Object(entries) => JsonTree::Object(entry_map(entry_trees(entries@))),
        }
    }

    /// The value under `key`; null where there is none.
    pub fn field(&self, key: &str) -> (r: &Json)
        ensures
            r@ == self@.field(key@),
    {
        if let Json::Object(entries) = self {
            let ghost pairs = entry_trees(entries@);
            assert(self@ == JsonTree::Object(entry_map(pairs)));
            let mut i: usize = entries.len();
            assert(pairs.take(i as int) =~= pairs);
            while i > 0
                invariant
                    i <= entries@.len() == pairs.len(),
                    forall|k: int|
                        0 <= k < entries@.len() ==> #[trigger] pairs[k] == (
                            entries@[k].0@,
                            entries@[k].1.tree(),
                        ),
                    self@ == JsonTree::Object(entry_map(pairs)),
                    entry_map(pairs).contains_key(key@) == entry_map(
                        pairs.take(i as int),
                    ).contains_key(key@),
                    entry_map(pairs).contains_key(key@) ==> entry_map(pairs)[key@] == entry_map(
                        pairs.take(i as int),
                    )[key@],
                decreases i,
            {
                i = i - 1;
                assert(pairs.take(i + 1).drop_last() =~= pairs.take(i as int));
                assert(pairs.take(i + 1).last() == pairs[i as int]);
                if same_text(entries[i].0.as_str(), key) {
                    return &entries[i].1;
                }
            }
            assert(pairs.take(0) =~= Seq::empty());
        }
        &Json::Null
    }

    /// The text of a string.
    pub fn as_str(&self) -> (r: Option<&str>)
        ensures
            match r {
                Some(s) => self@.as_str() == Some(s@),
                None => self@.as_str() is None,
            },
    {
        match self {
            Json::Text(s) => Some(s.as_str()),
            _ => None,
        }
    }

    /// The value of a boolean.
    pub fn as_bool(&self) -> (r: Option<bool>)
        ensures
            r == self@.as_bool(),
    {
        match self {
            Json::Bool(b) => Some(*b),
            _ => None,
        }
    }

    /// The value of an unsigned number.
    pub fn as_u64(&self) -> (r: Option<u64>)
        ensures
            r == self@.as_u64(),
    {
        match self {
            Json::Unsigned(n) => Some(*n),
            _ => None,
        }
    }

    /// Whether the document is the string `word`.
    pub fn is_word(&self, word: &str) -> (r: bool)
        ensures
            r == (self@.as_str() == Some(word@)),
    {
        match self {
            Json::Text(s) => same_text(s.as_str(), word),
            _ => false,
        }
    }

    /// A copy of the text of a string.
    pub fn to_text(&self) -> (r: Option<String>)
        ensures
            text_option(r) == self@.as_str(),
    {
        match self {
            Json::Text(s) => Some(s.clone()),
            _ => None,
        }
    }

    /// Whether the document is null.
    pub fn is_null(&self) -> (r: bool)
        ensures
            r == (self@ is Null),
    {
        match self {
            Json::Null => true,
            _ => false,
        }
    }
}

/// A document as `serde_json` holds it.
#[verifier::external_type_specification]
#[verifier::external_body]
pub struct ExValue(serde_json::Value);

/// What a `serde_json::Value` holds. Its objects are maps without an order of
/// their own.
pub uninterp spec fn json_tree(value: serde_json::Value) -> JsonTree;

/// What `serde_json::from_str::<serde_json::Value>` makes of a text: the
/// document that the text writes, or the message of the error.
pub uninterp spec fn json_outcome(text: Seq<char>) -> Result<JsonTree, Seq<char>>;

/// Whether `text` reads as the document `tree`.
pub open spec fn reads_as(text: Seq<char>, tree: JsonTree) -> bool {
    json_outcome(text) is Ok && json_outcome(text)->Ok_0 == tree
}

/// The compact text that `serde_json` writes for a document.
pub uninterp spec fn json_text(tree: JsonTree) -> Seq<char>;

/// One level of a `serde_json::Value`.
enum Node<'a> {
    Null,
    Bool(bool),
    Unsigned(u64),
    OtherNumber(String),
    Text(String),
    Array(Vec<&'a serde_json::Value>),
    Object(Vec<(String, &'a serde_json::Value)>),
}

/// What the items behind `values` hold.
spec fn value_trees(values: Seq<&serde_json::Value>) -> Seq<JsonTree> {
    values.map_values(|value: &serde_json::Value| json_tree(*value))
}

/// The keys of `entries` and what the values behind them hold.
spec fn value_entries(entries: Seq<(String, &serde_json::Value)>) -> Seq<
    (Seq<char>, JsonTree),
> {
    entries.map_values(|entry: (String, &serde_json::Value)| (entry.0@, json_tree(*entry.1)))
}

/// Tells the variants of `serde_json::Value` apart and hands out what each
/// carries: `Number::as_u64` says which numbers are unsigned, `Number` writes
/// the others, an array gives its items in order, and an object gives each of
/// its keys once, with the value under it.
#[verifier::external_body]
fn unpack(value: &serde_json::Value) -> (node: Node<'_>)
    ensures
        json_tree(*value) == (match node {
            Node::Null => JsonTree::Null,
            Node::Bool(b) => JsonTree::Bool(b),
            Node::Unsigned(n) => JsonTree::Unsigned(n),
            Node::OtherNumber(s) => JsonTree::OtherNumber(s@),
            Node::Text(s) => JsonTree::Text(s@),
            Node::Array(items) => JsonTree::Array(value_trees(items@)),
            Node::Object(entries) => JsonTree::Object(entry_map(value_entries(entries@))),
        }),
        node matches Node::Object(entries) ==> distinct_keys(value_entries(entries@)),
{
    match value {
        serde_json::Value::Null => Node::Null,
        serde_json::Value::Bool(b) => Node::Bool(*b),
        serde_json::Value::Number(n) => match n.as_u64() {
            Some(u) => Node::Unsigned(u),
            None => Node::OtherNumber(n.to_string()),
        },
        serde_json::Value::String(s) => Node::Text(s.clone()),
        serde_json::Value::Array(items) => Node::Array(items.iter().collect()),
        serde_json::Value::Object(entries) => {
            Node::Object(entries.iter().map(|(k, v)| (k.clone(), v)).collect())
        },
    }
}

/// `serde_json::from_str` reads a text as a `serde_json::Value`. Its outcome
/// depends on the text alone.
#[verifier::external_body]
fn read_value(text: &str) -> (r: Result<serde_json::Value, String>)
    ensures
        match r {
            Ok(value) => reads_as(text@, json_tree(value)),
            Err(message) => json_outcome(text@) is Err && json_outcome(text@)->Err_0 == message@,
        },
{
    serde_json::from_str(text).map_err(|e: serde_json::Error| e.to_string())
}

/// A `serde_json::Value` in the making.
pub(crate) enum Part {
    Null,
    Unsigned(u64),
    Text(String),
    Object(Vec<(String, serde_json::Value)>),
}

/// The keys of `entries` and what their values hold.
pub(crate) open spec fn part_entries(entries: Seq<(String, serde_json::Value)>) -> Seq<
    (Seq<char>, JsonTree),
> {
    entries.map_values(|entry: (String, serde_json::Value)| (entry.0@, json_tree(entry.1)))
}

/// The variants of `serde_json::Value` as constructors: a number is made from
/// an unsigned one, and an object collects its entries, no two of which may have
/// one key.
#[verifier::external_body]
pub(crate) fn value_of(part: Part) -> (value: serde_json::Value)
    requires
        part matches Part::Object(entries) ==> distinct_keys(part_entries(entries@)),
    ensures
        json_tree(value) == (match part {
            Part::Null => JsonTree::Null,
            Part::Unsigned(n) => JsonTree::Unsigned(n),
            Part::Text(s) => JsonTree::Text(s@),
            Part::Object(entries) => JsonTree::Object(entry_map(part_entries(entries@))),
        }),
{
    match part {
        Part::Null => serde_json::Value::Null,
        Part::Unsigned(n) => serde_json::Value::from(n),
        Part::Text(s) => serde_json::Value::String(s),
        Part::Object(entries) => serde_json::Value::Object(entries.into_iter().collect()),
    }
}

/// `Display` of `serde_json::Value` writes the document as compact JSON, with
/// the entries of an object in the order of their keys. What it writes of a
/// document without fractions and negative numbers that nests less deeply
/// than the reader's limit, the reader gives back.
#[verifier::external_body]
pub(crate) fn value_text(value: &serde_json::Value) -> (r: String)
    ensures
        r@ == json_text(json_tree(*value)),
        json_tree(*value).plain(100) ==> reads_as(r@, json_tree(*value)),
{
    value.to_string()
}

impl Json {
    /// The document that `value` holds.
    pub fn from_value(value: &serde_json::Value) -> (r: Json)
        ensures
            r@ == json_tree(*value),
        decreases json_tree(*value),
    {
        match unpack(value) {
            Node::Null => Json::Null,
            Node::Bool(b) => Json::Bool(b),
            Node::Unsigned(n) => Json::Unsigned(n),
            Node::OtherNumber(s) => Json::OtherNumber(s),
            Node::Text(s) => Json::Text(s),
            Node::Array(values) => {
                let mut items: Vec<Json> = Vec::new();
                let mut i: usize = 0;
                while i < values.len()
                    invariant
                        i <= values@.len(),
                        json_tree(*value) == JsonTree::Array(value_trees(values@)),
                        item_trees(items@) == value_trees(values@).take(i as int),
                    decreases values@.len() - i,
                {
                    let ghost before = items@;
                    proof {
                        let whole = json_tree(*value);
                        assert(whole->Array_0[i as int] == json_tree(*values@[i as int]));
                        assert(decreases_to!(whole => whole->Array_0));
                        assert(decreases_to!(whole->Array_0 => whole->Array_0[i as int]));
                    }
                    items.push(Json::from_value(values[i]));
                    assert(item_trees(items@) =~= item_trees(before).push(
                        json_tree(*values@[i as int]),
                    ));
                    i = i + 1;
                    assert(value_trees(values@).take(i as int) =~= value_trees(values@).take(
                        i - 1,
                    ).push(json_tree(*values@[i - 1])));
                }
                assert(value_trees(values@).take(i as int) =~= value_trees(values@));
                Json::Array(items)
            },
            Node::Object(values) => {
                let mut entries: Vec<(String, Json)> = Vec::new();
                let mut i: usize = 0;
                while i < values.len()
                    invariant
                        i <= values@.len(),
                        json_tree(*value) == JsonTree::Object(entry_map(value_entries(values@))),
                        distinct_keys(value_entries(values@)),
                        entry_trees(entries@) == value_entries(values@).take(i as int),
                    decreases values@.len() - i,
                {
                    let ghost before = entries@;
                    proof {
                        let whole = json_tree(*value);
                        let pairs = value_entries(values@);
                        let key = pairs[i as int].0;
                        entry_map_holds(pairs, i as int);
                        assert(whole->Object_0[key] == json_tree(*values@[i as int].1));
                        assert(decreases_to!(whole => whole->Object_0));
                        assert(decreases_to!(whole->Object_0 => whole->Object_0[key]));
                    }
                    entries.push((values[i].0.clone(), Json::from_value(values[i].1)));
                    assert(entry_trees(entries@) =~= entry_trees(before).push(
                        value_entries(values@)[i as int],
                    ));
                    i = i + 1;
                    assert(value_entries(values@).take(i as int) =~= value_entries(values@).take(
                        i - 1,
                    ).push(value_entries(values@)[i - 1]));
                }
                assert(value_entries(values@).take(i as int) =~= value_entries(values@));
                Json::Object(entries)
            },
        }
    }
}

impl Json {
    /// The document that `text` writes, or the message of the error.
    pub fn parse(text: &str) -> (r: Result<Json, String>)
        ensures
            match r {
                Ok(document) => reads_as(text@, document@),
                Err(message) => json_outcome(text@) is Err && json_outcome(text@)->Err_0
                    == message@,
            },
    {
        match read_value(text) {
            Ok(value) => Ok(Json::from_value(&value)),
            Err(message) => Err(message),
        }
    }
}

/// A document, together with the means to write its fields as they were read.
pub struct Reply {
    document: Json,
    value: serde_json::Value,
}

impl Reply {
    /// The document and the value from which it came hold the same.
    #[verifier::type_invariant]
    spec fn consistent(self) -> bool {
        self.document@ == json_tree(self.value)
    }

    /// What was read.
    pub closed spec fn tree(self) -> JsonTree {
        self.document@
    }

    /// The document that `text` writes, or the message of the error.
    pub fn read(text: &str) -> (r: Result<Reply, String>)
        ensures
            match r {
                Ok(reply) => reads_as(text@, reply.tree()),
                Err(message) => json_outcome(text@) is Err && json_outcome(text@)->Err_0
                    == message@,
            },
    {
        match read_value(text) {
            Ok(value) => {
                let document = Json::from_value(&value);
                Ok(Reply { document, value })
            },
            Err(message) => Err(message),
        }
    }

    /// What was read.
    pub fn document(&self) -> (r: &Json)
        ensures
            r@ == self.tree(),
    {
        &self.document
    }

    /// The field under `key`, written as JSON.
    pub fn field_text(&self, key: &str) -> (r: String)
        ensures
            r@ == json_text(self.tree().field(key@)),
    {
        proof {
            use_type_invariant(self);
        }
        if let Node::Object(entries) = unpack(&self.value) {
            let ghost pairs = value_entries(entries@);
            let mut i: usize = 0;
            while i < entries.len()
                invariant
                    i <= entries@.len(),
                    pairs == value_entries(entries@),
                    distinct_keys(pairs),
                    self.tree() == JsonTree::Object(entry_map(pairs)),
                    forall|k: int| 0 <= k < i ==> (#[trigger] pairs[k]).0 != key@,
                decreases entries@.len() - i,
            {
                assert(pairs[i as int] == (entries@[i as int].0@, json_tree(*entries@[i as int].1)));
                if same_text(entries[i].0.as_str(), key) {
                    proof {
                        entry_map_holds(pairs, i as int);
                    }
                    return value_text(entries[i].1);
                }
                i = i + 1;
            }
            proof {
                entry_map_misses(pairs, key@);
            }
        }
        value_text(&value_of(Part::Null))
    }
}

/// Whether `text` is what `serde_json` writes for `tree` and reads as `tree`
/// again.
pub open spec fn writes(text: Seq<char>, tree: JsonTree) -> bool {
    text == json_text(tree) && reads_as(text, tree)
}

/// The text of a document to be sent.
pub(crate) fn payload_text(value: &serde_json::Value) -> (r: String)
    requires
        json_tree(*value).plain(100),
    ensures
        writes(r@, json_tree(*value)),
{
    value_text(value)
}

/// A string value.
pub(crate) fn text_value(text: &str) -> (r: serde_json::Value)
    ensures
        json_tree(r) == JsonTree::Text(text@),
{
    value_of(Part::Text(text.to_owned()))
}

/// An object with one entry.
pub(crate) fn object_of_one(key: &str, value: serde_json::Value) -> (r: serde_json::Value)
    ensures
        json_tree(r) == JsonTree::Object(map![key@ => json_tree(value)]),
{
    let entries = vec![(key.to_owned(), value)];
    proof {
        let pairs = part_entries(entries@);
        reveal_with_fuel(entry_map, 2);
        assert(pairs.drop_last() =~= Seq::empty());
    }
    value_of(Part::Object(entries))
}

/// An object with two entries.
pub(crate) fn object_of_two(
    first: (&str, serde_json::Value),
    second: (&str, serde_json::Value),
) -> (r: serde_json::Value)
    requires
        first.0@ != second.0@,
    ensures
        json_tree(r) == JsonTree::Object(
            map![first.0@ => json_tree(first.1), second.0@ => json_tree(second.1)],
        ),
{
    let entries = vec![(first.0.to_owned(), first.1), (second.0.to_owned(), second.1)];
    proof {
        let pairs = part_entries(entries@);
        reveal_with_fuel(entry_map, 3);
        assert(pairs.drop_last().drop_last() =~= Seq::empty());
    }
    value_of(Part::Object(entries))
}

/// An object with three entries.
pub(crate) fn object_of_three(
    first: (&str, serde_json::Value),
    second: (&str, serde_json::Value),
    third: (&str, serde_json::Value),
) -> (r: serde_json::Value)
    requires
        first.0@ != second.0@,
        first.0@ != third.0@,
        second.0@ != third.0@,
    ensures
        json_tree(r) == JsonTree::Object(
            map![
                first.0@ => json_tree(first.1),
                second.0@ => json_tree(second.1),
                third.0@ => json_tree(third.1),
            ],
        ),
{
    let entries = vec![
        (first.0.to_owned(), first.1),
        (second.0.to_owned(), second.1),
        (third.0.to_owned(), third.1),
    ];
    proof {
        let pairs = part_entries(entries@);
        reveal_with_fuel(entry_map, 4);
        assert(pairs.drop_last().drop_last().drop_last() =~= Seq::empty());
    }
    value_of(Part::Object(entries))
}

proof fn latest_entry_counts(entries: Seq<(Seq<char>, JsonTree)>, i: int)
    requires
        0 <= i < entries.len(),
        forall|j: int| i < j < entries.len() ==> (#[trigger] entries[j]).0 != entries[i].0,
    ensures
        entry_map(entries).contains_key(entries[i].0),
        entry_map(entries)[entries[i].0] == entries[i].1,
    decreases entries.len(),
{
    if i < entries.len() - 1 {
        let front = entries.drop_last();
        assert(front[i] == entries[i]);
        assert forall|j: int| i < j < front.len() implies (#[trigger] front[j]).0
            != front[i].0 by {
            assert(front[j] == entries[j]);
        }
        latest_entry_counts(front, i);
        assert(entries[entries.len() - 1].0 != entries[i].0);
    }
}

/// Looking up a key of an object gives the value of the last entry with that
/// key.
pub proof fn fields_are_their_last_entries(
    document: &Json,
    entries: Vec<(String, Json)>,
    i: int,
    key: &str,
    found: &Json,
)
    requires
        *document == Json::Object(entries),
        0 <= i < entries@.len(),
        entries@[i].0@ == key@,
        forall|j: int| i < j < entries@.len() ==> (#[trigger] entries@[j]).0@ != key@,
        call_ensures(Json::field, (document, key), found),
    ensures
        found@ == entries@[i].1@,
{
    let pairs = entry_trees(entries@);
    assert(pairs[i] == (entries@[i].0@, entries@[i].1@));
    assert forall|j: int| i < j < pairs.len() implies (#[trigger] pairs[j]).0 != pairs[i].0 by {
        assert(pairs[j].0 == entries@[j].0@);
    }
    latest_entry_counts(pairs, i);
    assert(document@ == JsonTree::Object(entry_map(pairs)));
}

/// Looking up a key that no entry has, or in anything but an object, gives null.
pub proof fn other_fields_are_null(document: &Json, key: &str, found: &Json)
    requires
        *document matches Json::Object(entries) ==> forall|j: int|
            0 <= j < entries@.len() ==> (#[trigger] entries@[j]).0@ != key@,
        call_ensures(Json::field, (document, key), found),
    ensures
        found@ == JsonTree::Null,
{
    if let Json::Object(entries) = *document {
        let pairs = entry_trees(entries@);
        assert forall|j: int| 0 <= j < pairs.len() implies (#[trigger] pairs[j]).0 != key@ by {
            assert(pairs[j].0 == entries@[j].0@);
        }
        entry_map_misses(pairs, key@);
        assert(document@ == JsonTree::Object(entry_map(pairs)));
    }
}

/// A document is read as what it is and as nothing else: a string gives its
/// text, a boolean its value, an unsigned number its value, and only null is
/// null.
pub proof fn documents_are_what_they_are(
    document: &Json,
    text: Option<&str>,
    copied: Option<String>,
    flag: Option<bool>,
    number: Option<u64>,
    null: bool,
)
    requires
        call_ensures(Json::as_str, (document,), text),
        call_ensures(Json::to_text, (document,), copied),
        call_ensures(Json::as_bool, (document,), flag),
        call_ensures(Json::as_u64, (document,), number),
        call_ensures(Json::is_null, (document,), null),
    ensures
        match *document {
            Json::Text(s) => text is Some && text->0@ == s@ && copied is Some && copied->0@ == s@,
            _ => text is None && copied is None,
        },
        match *document {
            Json::Bool(b) => flag == Some(b),
            _ => flag is None,
        },
        match *document {
            Json::Unsigned(n) => number == Some(n),
            _ => number is None,
        },
        null == (*document is Null),
{
    if copied is None {
        assert(text_option(copied) is None);
    }
}

/// What a field of a tree is: the value under the key of an object, and null for
/// everything else.
pub proof fn fields_of_trees(tree: JsonTree, key: Seq<char>)
    ensures
        match tree {
            JsonTree::Object(entries) => if entries.contains_key(key) {
                tree.field(key) == entries[key]
            } else {
                tree.field(key) == JsonTree::Null
            },
            _ => tree.field(key) == JsonTree::Null,
        },
        tree.as_str() == (match tree {
            JsonTree::Text(s) => Some(s),
            _ => None,
        }),
        tree.as_bool() == (match tree {
            JsonTree::Bool(b) => Some(b),
            _ => None,
        }),
        tree.as_u64() == (match tree {
            JsonTree::Unsigned(n) => Some(n),
            _ => None,
        }),
{
}

/// What is written for a document is read back as the same document.
pub proof fn what_is_written_is_read_back(text: Seq<char>, tree: JsonTree)
    requires
        writes(text, tree),
    ensures
        json_outcome(text) is Ok,
        json_outcome(text)->Ok_0 == tree,
        text == json_text(tree),
{
}

/// A tree is what its document is, with all items of an array in order.
pub proof fn trees_are_their_documents(document: Json, i: int)
    ensures
        match document {
            Json::Null => document@ == JsonTree::Null,
            Json::Bool(b) => document@ == JsonTree::Bool(b),
            Json::Unsigned(n) => document@ == JsonTree::Unsigned(n),
            Json::OtherNumber(s) => document@ == JsonTree::OtherNumber(s@),
            Json::Text(s) => document@ == JsonTree::Text(s@),
            Json::Array(items) => document@ matches JsonTree::Array(trees) && trees.len()
                == items@.len() && (0 <= i < trees.len() ==> trees[i] == items@[i]@),
            Json::Object(_) => document@ is Object,
        },
{
}

}
