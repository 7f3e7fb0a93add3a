//! JSON documents, read, built and printed through `serde_json`.
//!
//! A document is seen as a map from JSON pointers to what stands there: the pointer `""` is the
//! whole document, `"/data/user/id"` the member `id` of the member `user` of the member `data`,
//! `"/members/0"` the first item of the member `members`.
use crate::double;
use crate::text;
use vstd::prelude::*;

verus! {

/// What stands at one place of a JSON document.
pub enum JsonNode {
    /// `null`.
    Null,
    /// `true` or `false`.
    Bool(bool),
    /// A number, by the bits of the double that it is read as.
    Number(u64),
    /// A string.
    Text(Seq<char>),
    /// An array, by how many items it has.
    Array(nat),
    /// An object.
    Object,
}

/// `serde_json::Value`, opaque but for its contents, which `json_nodes` names.
#[verifier::external_type_specification]
#[verifier::external_body]
pub struct ExValue(serde_json::Value);

/// `serde_json::Error`, of which nothing is read.
#[verifier::external_type_specification]
#[verifier::external_body]
pub struct ExJsonError(serde_json::Error);

/// The contents of a value: every pointer that `Value::pointer` resolves in it, with what
/// stands there.
pub uninterp spec fn json_nodes(value: serde_json::Value) -> Map<Seq<char>, JsonNode>;

/// The contents of the value that `serde_json::from_slice` makes of a text, `None` where it
/// reports an error.
pub uninterp spec fn json_document(text: Seq<u8>) -> Option<Map<Seq<char>, JsonNode>>;

// ---- reading ----

/// The string at `pointer`, if a string stands there.
pub open spec fn text_at(doc: Map<Seq<char>, JsonNode>, pointer: Seq<char>) -> Option<Seq<char>> {
    if doc.contains_key(pointer) && doc[pointer] is Text {
        Some(doc[pointer]->Text_0)
    } else {
        None
    }
}

/// The truth value at `pointer`, if one stands there.
pub open spec fn bool_at(doc: Map<Seq<char>, JsonNode>, pointer: Seq<char>) -> Option<bool> {
    if doc.contains_key(pointer) && doc[pointer] is Bool {
        Some(doc[pointer]->Bool_0)
    } else {
        None
    }
}

/// The number at `pointer`, if one stands there, as the bits of a double.
pub open spec fn number_at(doc: Map<Seq<char>, JsonNode>, pointer: Seq<char>) -> Option<u64> {
    if doc.contains_key(pointer) && doc[pointer] is Number {
        Some(doc[pointer]->Number_0)
    } else {
        None
    }
}

/// How many items the array at `pointer` has, if an array stands there.
pub open spec fn length_at(doc: Map<Seq<char>, JsonNode>, pointer: Seq<char>) -> Option<nat> {
    if doc.contains_key(pointer) && doc[pointer] is Array {
        Some(doc[pointer]->Array_0)
    } else {
        None
    }
}

/// `serde_json::from_slice` to a `Value`: its result is the named document of the text.
#[verifier::external_body]
pub(crate) fn parse(text: &[u8]) -> (r: Result<serde_json::Value, serde_json::Error>)
    ensures
        match r {
            Ok(value) => json_document(text@) == Some(json_nodes(value)),
            Err(_) => json_document(text@) is None,
        },
{
    serde_json::from_slice(text)
}

/// `Value::pointer`, then `Value::as_str`: the string that stands at the pointer.
#[verifier::external_body]
pub(crate) fn get_text(value: &serde_json::Value, pointer: &str) -> (r: Option<String>)
    ensures
        match r {
            Some(s) => text_at(json_nodes(*value), pointer@) == Some(s@),
            None => text_at(json_nodes(*value), pointer@) is None,
        },
{
    value.pointer(pointer).and_then(|v| v.as_str()).map(String::from)
}

/// `Value::pointer`, then `Value::as_bool`: the truth value that stands at the pointer.
#[verifier::external_body]
pub(crate) fn get_bool(value: &serde_json::Value, pointer: &str) -> (r: Option<bool>)
    ensures
        r == bool_at(json_nodes(*value), pointer@),
{
    value.pointer(pointer).and_then(|v| v.as_bool())
}

/// `Value::pointer`, then `Value::as_f64`: the bits of the number that stands at the pointer.
#[verifier::external_body]
pub(crate) fn get_number(value: &serde_json::Value, pointer: &str) -> (r: Option<u64>)
    ensures
        r == number_at(json_nodes(*value), pointer@),
{
    value.pointer(pointer).and_then(|v| v.as_f64()).map(|x| x.to_bits())
}

/// `Value::pointer`, then `Value::as_array`: how many items the array at the pointer has.
#[verifier::external_body]
pub(crate) fn get_length(value: &serde_json::Value, pointer: &str) -> (r: Option<usize>)
    ensures
        match r {
            Some(n) => length_at(json_nodes(*value), pointer@) == Some(n as nat),
            None => length_at(json_nodes(*value), pointer@) is None,
        },
{
    value.pointer(pointer).and_then(|v| v.as_array()).map(|a| a.len())
}

// ---- building ----

/// A document that is one thing without parts.
pub open spec fn leaf(node: JsonNode) -> Map<Seq<char>, JsonNode> {
    Map::empty().insert(Seq::empty(), node)
}

/// Whether `pointer` leads to the member `key` of an object, or into it.
pub open spec fn leads_into(pointer: Seq<char>, key: Seq<char>) -> bool {
    let head = seq!['/'] + key;
    &&& pointer.len() >= head.len()
    &&& pointer.take(head.len() as int) == head
    &&& pointer.len() == head.len() || pointer[head.len() as int] == '/'
}

/// The object `parent` with `child` as its member `key`, in place of what stood there.
pub open spec fn with_member(
    parent: Map<Seq<char>, JsonNode>,
    key: Seq<char>,
    child: Map<Seq<char>, JsonNode>,
) -> Map<Seq<char>, JsonNode> {
    Map::new(
        |p: Seq<char>|
            if leads_into(p, key) {
                child.contains_key(p.skip(key.len() as int + 1))
            } else {
                parent.contains_key(p)
            },
        |p: Seq<char>|
            if leads_into(p, key) {
                child[p.skip(key.len() as int + 1)]
            } else {
                parent[p]
            },
    )
}

/// An array of strings.
pub open spec fn text_items(items: Seq<Seq<char>>) -> Map<Seq<char>, JsonNode> {
    Map::new(
        |p: Seq<char>|
            p.len() == 0 || exists|i: int|
                0 <= i < items.len() && p == #[trigger] item_pointer(i as nat),
        |p: Seq<char>|
            if p.len() == 0 {
                JsonNode::Array(items.len())
            } else {
                JsonNode::Text(
                    items[choose|i: int|
                        0 <= i < items.len() && p == #[trigger] item_pointer(i as nat)],
                )
            },
    )
}

/// The pointer to item `i` of an array.
pub open spec fn item_pointer(i: nat) -> Seq<char> {
    seq!['/'] + text::decimal(i)
}

/// Whether a key stands in a pointer as it is.
pub open spec fn is_plain_key(key: Seq<char>) -> bool {
    !key.contains('/') && !key.contains('~')
}

/// Whether printing loses nothing: no pointer is long, so the document is not deep, and every
/// number is a whole one below 65536.
pub open spec fn is_printable(doc: Map<Seq<char>, JsonNode>) -> bool {
    &&& forall|p: Seq<char>| #[trigger] doc.contains_key(p) ==> p.len() < 100
    &&& forall|p: Seq<char>| #[trigger]
        doc.contains_key(p) && doc[p] is Number ==> is_small_whole(doc[p]->Number_0)
}

/// Whether the bits of a double stand for a whole number below 65536.
pub open spec fn is_small_whole(bits: u64) -> bool {
    exists|n: nat| n <= 65535 && double::equals(bits, n)
}

/// `Value::Object` of a new `serde_json::Map`: an object without members.
#[verifier::external_body]
pub(crate) fn object() -> (r: serde_json::Value)
    ensures
        json_nodes(r) == leaf(JsonNode::Object),
{
    serde_json::Value::Object(serde_json::Map::new())
}

/// `Value::from` a string slice: a string.
#[verifier::external_body]
pub(crate) fn string(s: &str) -> (r: serde_json::Value)
    ensures
        json_nodes(r) == leaf(JsonNode::Text(s@)),
{
    serde_json::Value::from(s)
}

/// `Value::from` a `bool`: a truth value.
#[verifier::external_body]
pub(crate) fn truth(b: bool) -> (r: serde_json::Value)
    ensures
        json_nodes(r) == leaf(JsonNode::Bool(b)),
{
    serde_json::Value::from(b)
}

/// `Value::from` a `u16`: a number that is read as exactly `n`.
#[verifier::external_body]
pub(crate) fn whole(n: u16) -> (r: serde_json::Value)
    ensures
        json_nodes(r) == leaf(JsonNode::Number(double::of_whole(n as nat))),
{
    serde_json::Value::from(n)
}

/// `Value::from` a vector of strings: an array of strings.
#[verifier::external_body]
pub(crate) fn text_list(items: Vec<String>) -> (r: serde_json::Value)
    ensures
        json_nodes(r) == text_items(text::texts(items@)),
{
    serde_json::Value::from(items)
}

/// `Value`'s `IndexMut` by a string, which sets a member of an object.
#[verifier::external_body]
pub(crate) fn put(value: &mut serde_json::Value, key: &str, child: serde_json::Value)
    requires
        json_nodes(*old(value)).contains_key(Seq::empty()),
        json_nodes(*old(value))[Seq::empty()] is Object,
        is_plain_key(key@),
    ensures
        json_nodes(*final(value)) == with_member(json_nodes(*old(value)), key@, json_nodes(child)),
{
    value[key] = child;
}

/// `serde_json::to_vec` of a `Value`, which has no way to fail: what it prints is read back as
/// the same contents, where printing loses nothing.
#[verifier::external_body]
pub(crate) fn print(value: &serde_json::Value) -> (r: Result<Vec<u8>, serde_json::Error>)
    ensures
        r is Ok,
        is_printable(json_nodes(*value)) ==> json_document(r->Ok_0@) == Some(json_nodes(*value)),
{
    serde_json::to_vec(value)
}

// ---- what is built can be printed and read ----

/// Whether every pointer of a document is shorter than `n`.
pub open spec fn pointers_below(doc: Map<Seq<char>, JsonNode>, n: int) -> bool {
    forall|p: Seq<char>| #[trigger] doc.contains_key(p) ==> p.len() < n
}

/// A leaf prints without loss, if it is no number or a small whole one.
pub(crate) proof fn leaf_prints(node: JsonNode)
    requires
        node is Number ==> is_small_whole(node->Number_0),
    ensures
        is_printable(leaf(node)),
        pointers_below(leaf(node), 1),
{
}

/// A small whole number prints without loss.
pub(crate) proof fn whole_prints(n: nat)
    requires
        n <= 65535,
    ensures
        is_printable(leaf(JsonNode::Number(double::of_whole(n)))),
        pointers_below(leaf(JsonNode::Number(double::of_whole(n))), 1),
{
    double::of_whole_is_exact(n);
    leaf_prints(JsonNode::Number(double::of_whole(n)));
}

/// An object prints without loss, if the object before and the new member do and the pointers
/// stay short. It still is an object.
pub(crate) proof fn member_prints(
    parent: Map<Seq<char>, JsonNode>,
    key: Seq<char>,
    child: Map<Seq<char>, JsonNode>,
    n: int,
    m: int,
)
    requires
        parent.contains_key(Seq::empty()),
        is_printable(parent),
        is_printable(child),
        pointers_below(parent, n),
        pointers_below(child, m),
        m + key.len() + 1 <= n <= 100,
    ensures
        is_printable(with_member(parent, key, child)),
        pointers_below(with_member(parent, key, child), n),
        with_member(parent, key, child).contains_key(Seq::empty()),
        with_member(parent, key, child)[Seq::empty()] == parent[Seq::empty()],
{
    let doc = with_member(parent, key, child);
    assert forall|p: Seq<char>| #[trigger] doc.contains_key(p) implies p.len() < n && (
    doc[p] is Number ==> is_small_whole(doc[p]->Number_0)) by {
        if leads_into(p, key) {
            assert(child.contains_key(p.skip(key.len() as int + 1)));
        } else {
            assert(parent.contains_key(p));
        }
    }
    assert(!leads_into(Seq::empty(), key));
}

/// An array of up to ten strings prints without loss.
pub(crate) proof fn text_items_print(items: Seq<Seq<char>>)
    requires
        items.len() <= 10,
    ensures
        is_printable(text_items(items)),
        pointers_below(text_items(items), 3),
{
    let doc = text_items(items);
    assert forall|p: Seq<char>| #[trigger] doc.contains_key(p) implies p.len() < 3 && !(
    doc[p] is Number) by {
        if p.len() > 0 {
            let i = choose|i: int| 0 <= i < items.len() && p == #[trigger] item_pointer(i as nat);
            assert(text::decimal(i as nat).len() == 1);
        }
    }
}

/// What stands at a member of an object is what was put there.
pub proof fn member_reads_back(
    parent: Map<Seq<char>, JsonNode>,
    key: Seq<char>,
    child: Map<Seq<char>, JsonNode>,
    rest: Seq<char>,
)
    requires
        rest.len() == 0 || rest[0] == '/',
    ensures
        with_member(parent, key, child).contains_key(seq!['/'] + key + rest)
            == child.contains_key(rest),
        child.contains_key(rest) ==> with_member(parent, key, child)[seq!['/'] + key + rest]
            == child[rest],
{
    let p = seq!['/'] + key + rest;
    assert(p.take(key.len() as int + 1) == seq!['/'] + key);
    assert(p.skip(key.len() as int + 1) == rest);
    assert(leads_into(p, key));
}

/// A member under another key is left as it was.
pub proof fn other_members_stay(
    parent: Map<Seq<char>, JsonNode>,
    key: Seq<char>,
    child: Map<Seq<char>, JsonNode>,
    pointer: Seq<char>,
)
    requires
        !leads_into(pointer, key),
    ensures
        with_member(parent, key, child).contains_key(pointer) == parent.contains_key(pointer),
        parent.contains_key(pointer) ==> with_member(parent, key, child)[pointer]
            == parent[pointer],
{
}

} // verus!
