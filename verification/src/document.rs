//! Property-list documents: the tree that a window record's text denotes.

use crate::guard::{is_readable, readable, NESTING_LIMIT};
use plist::Value;
use std::io::Cursor;
use vstd::prelude::*;

verus! {

/// The mathematical content of a property-list value, as far as window
/// records use it.
pub enum Tree {
    /// An integer leaf.
    Integer(int),
    /// A real leaf, by the bit pattern of its IEEE 754 double.
    Real(u64),
    /// A string leaf.
    Text(Seq<char>),
    /// A key/value map, in the order in which the dictionary is walked. A
    /// reader lists a repeated key once, where it first stood, with the
    /// value that it last had.
    Dictionary(Seq<(Seq<char>, Tree)>),
    /// Any other value: boolean, date, data, array, identifier.
    Other,
}

/// One key of a dictionary with its value.
#[derive(Debug, PartialEq, Eq)]
pub struct Entry {
    pub key: String,
    pub value: Node,
}

/// A property-list value.
#[derive(Debug, PartialEq, Eq)]
pub enum Node {
    /// An integer leaf that fits a signed 64-bit integer.
    Signed(i64),
    /// An integer leaf held as an unsigned 64-bit integer.
    Unsigned(u64),
    /// A real leaf, by the bit pattern of its IEEE 754 double.
    Real(u64),
    /// A string leaf.
    Text(String),
    /// A key/value map, in the order in which the dictionary is walked. A
    /// reader lists a repeated key once, where it first stood, with the
    /// value that it last had.
    Dictionary(Vec<Entry>),
    /// Any other value: boolean, date, data, array, identifier.
    Other,
}

impl Node {
    /// The model of the first `n` entries of a dictionary, in order.
    pub open spec fn entries_view(entries: Vec<Entry>, n: nat) -> Seq<(Seq<char>, Tree)>
        decreases entries, n,
    {
        if n == 0 || n > entries@.len() {
            Seq::empty()
        } else {
            Node::entries_view(entries, (n - 1) as nat).push(
                (entries@[n - 1].key@, entries@[n - 1].value.view()),
            )
        }
    }
}

impl View for Node {
    type V = Tree;

    open spec fn view(&self) -> Tree
        decreases self, 0nat,
    {
        match self {
            Node::Signed(v) => Tree::Integer(*v as int),
            Node::Unsigned(v) => Tree::Integer(*v as int),
            Node::Real(bits) => Tree::Real(*bits),
            Node::Text(s) => Tree::Text(s@),
            Node::Dictionary(entries) => Tree::Dictionary(
                Node::entries_view(*entries, entries@.len()),
            ),
            Node::Other => Tree::Other,
        }
    }
}

/// The model of a dictionary lists its entries one for one, in order.
pub proof fn entries_view_content(entries: Vec<Entry>, n: nat)
    requires
        n <= entries@.len(),
    ensures
        Node::entries_view(entries, n).len() == n,
        forall|j: int|
            0 <= j < n ==> #[trigger] Node::entries_view(entries, n)[j] == (
                entries@[j].key@,
                entries@[j].value@,
            ),
    decreases n,
{
    if n > 0 {
        entries_view_content(entries, (n - 1) as nat);
        let shorter = Node::entries_view(entries, (n - 1) as nat);
        let last = (entries@[n - 1].key@, entries@[n - 1].value@);
        assert(Node::entries_view(entries, n) == shorter.push(last));
    } else {
        assert(Node::entries_view(entries, n) == Seq::<(Seq<char>, Tree)>::empty());
    }
}

/// The value of the first entry of `entries` whose key is `key`.
pub open spec fn find(entries: Seq<(Seq<char>, Tree)>, key: Seq<char>) -> Option<Tree>
    decreases entries.len(),
{
    if entries.len() == 0 {
        None
    } else if entries[0].0 == key {
        Some(entries[0].1)
    } else {
        find(entries.drop_first(), key)
    }
}

impl Tree {
    /// The value that this tree holds under `key`: that of the first entry
    /// with this key if the tree is a dictionary, nothing otherwise.
    pub open spec fn get(self, key: Seq<char>) -> Option<Tree> {
        match self {
            Tree::Dictionary(entries) => find(entries, key),
            _ => None,
        }
    }
}

impl Tree {
    /// How many dictionaries lie within one another in this tree, itself
    /// counted.
    pub open spec fn levels(self) -> nat
        decreases self, 0nat,
    {
        match self {
            Tree::Dictionary(entries) => 1 + Tree::deepest(entries, entries.len()),
            _ => 0,
        }
    }

    /// The most levels among the first `n` values of `entries`.
    pub open spec fn deepest(entries: Seq<(Seq<char>, Tree)>, n: nat) -> nat
        decreases entries, n,
    {
        if n == 0 || n > entries.len() {
            0
        } else {
            let before = Tree::deepest(entries, (n - 1) as nat);
            let last = entries[n - 1].1.levels();
            if last > before {
                last
            } else {
                before
            }
        }
    }
}

/// Looking a key up skips the entries before the first one that bears it.
pub proof fn find_skips_other_keys(entries: Seq<(Seq<char>, Tree)>, key: Seq<char>, k: int)
    requires
        0 <= k <= entries.len(),
        forall|j: int| 0 <= j < k ==> (#[trigger] entries[j]).0 != key,
    ensures
        find(entries, key) == find(entries.subrange(k, entries.len() as int), key),
    decreases k,
{
    if k == 0 {
        assert(entries.subrange(0, entries.len() as int) =~= entries);
    } else {
        assert(entries[0].0 != key);
        let rest = entries.drop_first();
        assert forall|j: int| 0 <= j < k - 1 implies (#[trigger] rest[j]).0 != key by {
            assert(rest[j] == entries[j + 1]);
        }
        find_skips_other_keys(rest, key, k - 1);
        assert(rest.subrange(k - 1, rest.len() as int) =~= entries.subrange(
            k,
            entries.len() as int,
        ));
    }
}

impl Node {
    /// The value held under `key`: that of the first entry with this key if
    /// the node is a dictionary, nothing otherwise.
    pub fn get(&self, key: &str) -> (r: Option<&Node>)
        ensures
            match r {
                Some(node) => self@.get(key@) == Some(node@),
                None => self@.get(key@) is None,
            },
    {
        match self {
            Node::Dictionary(entries) => {
                let wanted: String = key.to_owned();
                let ghost model = self@->Dictionary_0;
                proof {
                    entries_view_content(*entries, entries@.len());
                }
                assert(self@ == Tree::Dictionary(model));
                assert(model.len() == entries@.len());
                let mut i: usize = 0;
                while i < entries.len()
                    invariant
                        i <= entries.len(),
                        wanted@ == key@,
                        self@ == Tree::Dictionary(model),
                        model.len() == entries@.len(),
                        forall|j: int|
                            0 <= j < entries@.len() ==> #[trigger] model[j] == (
                                entries@[j].key@,
                                entries@[j].value@,
                            ),
                        forall|j: int| 0 <= j < i ==> (#[trigger] model[j]).0 != key@,
                    decreases entries.len() - i,
                {
                    if entries[i].key == wanted {
                        proof {
                            find_skips_other_keys(model, key@, i as int);
                        }
                        return Some(&entries[i].value);
                    }
                    i = i + 1;
                }
                proof {
                    find_skips_other_keys(model, key@, i as int);
                    assert(model.subrange(i as int, model.len() as int).len() == 0);
                }
                None
            },
            _ => None,
        }
    }
}

/// A value of the `plist` crate, as its readers build it.
#[verifier::external_type_specification]
#[verifier::external_body]
pub struct ExValue(plist::Value);

/// The reason the `plist` crate gives for rejecting a text.
#[verifier::external_type_specification]
#[verifier::external_body]
pub struct ExError(plist::Error);

/// What `plist::from_reader` makes of `text`: the tree of the property list
/// that the text holds in any encoding the crate reads, or `None` where the
/// crate rejects the text.
pub uninterp spec fn parsed_tree(text: Seq<char>) -> Option<Tree>;

/// The content of a `plist::Value` as a tree: integers by their value, reals
/// by their bits, strings by their characters, dictionaries by their entries
/// in iteration order, and every other variant as `Tree::Other`.
pub uninterp spec fn tree_of(value: plist::Value) -> Tree;

/// Hands the UTF-8 bytes of `text` to `plist::from_reader`, asking for a
/// `plist::Value`. The text is readable: on a text that names a date
/// element the call can panic, and on one that nests without bound, or is
/// in the binary encoding, it can exhaust the stack.
///
/// Assumed: on a readable text the call returns; its outcome is a function
/// of the text alone, which `parsed_tree` names; and the value nests no more
/// dictionaries than the text can open levels, each dictionary stemming from
/// one `{` or one element named `dict`.
#[verifier::external_body]
fn read_value(text: &str) -> (r: Result<plist::Value, plist::Error>)
    requires
        readable(text@),
    ensures
        match r {
            Ok(value) => parsed_tree(text@) == Some(tree_of(value)) && tree_of(value).levels()
                <= NESTING_LIMIT,
            Err(_) => parsed_tree(text@) is None,
        },
{
    plist::from_reader(Cursor::new(text.as_bytes()))
}

/// Copies a `plist::Value` into a `Node`, variant by variant, descending
/// into dictionaries through `plist::Dictionary::iter`, one call for each
/// level. The value nests within the limit, so the descent is short.
///
/// Assumed: the copy has the content that `tree_of` names.
#[verifier::external_body]
fn node_of(value: &plist::Value) -> (node: Node)
    requires
        tree_of(*value).levels() <= NESTING_LIMIT,
    ensures
        node@ == tree_of(*value),
{
    match value {
        Value::Integer(i) => match (i.as_signed(), i.as_unsigned()) {
            (Some(v), _) => Node::Signed(v),
            (None, Some(v)) => Node::Unsigned(v),
            (None, None) => Node::Other,
        },
        Value::Real(r) => Node::Real(r.to_bits()),
        Value::String(s) => Node::Text(s.clone()),
        Value::Dictionary(d) => Node::Dictionary(
            d.iter().map(|(k, v)| Entry { key: k.clone(), value: node_of(v) }).collect(),
        ),
        _ => Node::Other,
    }
}

/// The document that a text holds: the tree that the reader makes of it,
/// where the text is readable and the reader accepts it.
pub open spec fn document_in(text: Seq<char>) -> Option<Tree> {
    if readable(text) {
        parsed_tree(text)
    } else {
        None
    }
}

/// Reads the property list that `text` holds. `None` where the text holds
/// none, or is turned away unread.
pub fn parse_document(text: &str) -> (r: Option<Node>)
    ensures
        match r {
            Some(node) => document_in(text@) == Some(node@),
            None => document_in(text@) is None,
        },
{
    if !is_readable(text) {
        return None;
    }
    match read_value(text) {
        Ok(value) => Some(node_of(&value)),
        Err(_) => None,
    }
}

} // verus!
