//! The listing of one snapshot: which windows survive, in which order, and
//! which are skipped.

use crate::descriptor::{decode_node, decode_tree, CGWindow, DecodeError, Descriptor};
use crate::document::{document_in, parse_document, Node, Tree};
use vstd::prelude::*;

verus! {

/// Why a snapshot could not be taken at all.
#[derive(Clone, Copy, Debug, PartialEq, Eq, Structural)]
pub enum PlatformError {
    /// The window server refused to list its windows.
    Unavailable,
}

/// What one snapshot of the window server holds: for each of its elements,
/// in the server's order, the description of the element, or `None` where
/// the server gave none.
#[derive(Clone, Debug, PartialEq, Eq)]
pub struct Snapshot {
    pub descriptions: Vec<Option<String>>,
}

/// An element of a snapshot that gave no descriptor.
#[derive(Clone, Copy, Debug, PartialEq, Eq, Structural)]
pub struct Skipped {
    /// Position of the element in the snapshot, from 0.
    pub position: usize,
    /// Why it gave no descriptor.
    pub reason: DecodeError,
}

/// The outcome of listing one snapshot.
#[derive(Clone, Debug, PartialEq, Eq)]
pub struct Enumeration {
    /// The descriptors of the elements that decode, in snapshot order.
    pub windows: Vec<CGWindow>,
    /// For each descriptor, the position in the snapshot of its element.
    pub positions: Vec<usize>,
    /// The elements that do not decode, in snapshot order.
    pub skipped: Vec<Skipped>,
}

/// The document that a description holds. An absent or empty description
/// holds none.
pub open spec fn document_of(description: Option<Seq<char>>) -> Option<Tree> {
    match description {
        Some(text) => if text.len() == 0 {
            None
        } else {
            document_in(text)
        },
        None => None,
    }
}

/// The documents that the descriptions of a snapshot hold, one for one.
pub open spec fn documents_of(descriptions: Seq<Option<Seq<char>>>) -> Seq<Option<Tree>> {
    descriptions.map_values(|d: Option<Seq<char>>| document_of(d))
}

/// What an element gives: the descriptor of its document, or the reason it
/// has none. An element without document counts as malformed.
pub open spec fn outcome(document: Option<Tree>) -> Result<Descriptor, DecodeError> {
    match document {
        Some(tree) => decode_tree(tree),
        None => Err(DecodeError::Malformed),
    }
}

/// The descriptors of a snapshot: those of the elements that decode, in
/// snapshot order, each with its position in this sequence as its index.
pub open spec fn kept(documents: Seq<Option<Tree>>) -> Seq<Descriptor>
    decreases documents.len(),
{
    if documents.len() == 0 {
        Seq::empty()
    } else {
        let before = kept(documents.drop_last());
        match outcome(documents.last()) {
            Ok(descriptor) => before.push(descriptor.at(before.len())),
            Err(_) => before,
        }
    }
}

/// The elements of a snapshot that do not decode, in snapshot order, each
/// with its position in the snapshot and the reason.
pub open spec fn dropped(documents: Seq<Option<Tree>>) -> Seq<Skipped>
    decreases documents.len(),
{
    if documents.len() == 0 {
        Seq::empty()
    } else {
        let before = dropped(documents.drop_last());
        match outcome(documents.last()) {
            Ok(_) => before,
            Err(reason) => before.push(
                Skipped { position: (documents.len() - 1) as usize, reason },
            ),
        }
    }
}

/// The models of a vector of descriptors.
pub open spec fn descriptors(windows: Seq<CGWindow>) -> Seq<Descriptor> {
    windows.map_values(|w: CGWindow| w@)
}

/// The model of an optional document.
pub open spec fn tree(document: Option<Node>) -> Option<Tree> {
    match document {
        Some(node) => Some(node@),
        None => None,
    }
}

/// The models of a vector of optional documents.
pub open spec fn trees(documents: Seq<Option<Node>>) -> Seq<Option<Tree>> {
    documents.map_values(|d: Option<Node>| tree(d))
}

/// The model of an optional description.
pub open spec fn text(description: Option<String>) -> Option<Seq<char>> {
    match description {
        Some(s) => Some(s@),
        None => None,
    }
}

/// The models of a vector of optional descriptions.
pub open spec fn texts(descriptions: Seq<Option<String>>) -> Seq<Option<Seq<char>>> {
    descriptions.map_values(|d: Option<String>| text(d))
}

impl View for Snapshot {
    type V = Seq<Option<Seq<char>>>;

    open spec fn view(&self) -> Seq<Option<Seq<char>>> {
        texts(self.descriptions@)
    }
}

/// The characters of each string of a vector.
pub open spec fn strings(items: Seq<String>) -> Seq<Seq<char>> {
    items.map_values(|s: String| s@)
}

/// The positions, in ascending order, of the elements of a snapshot that
/// decode.
pub open spec fn survivors(documents: Seq<Option<Tree>>) -> Seq<int>
    decreases documents.len(),
{
    if documents.len() == 0 {
        Seq::empty()
    } else {
        let before = survivors(documents.drop_last());
        match outcome(documents.last()) {
            Ok(_) => before.push(documents.len() - 1),
            Err(_) => before,
        }
    }
}

/// The positions of a vector as integers.
pub open spec fn integers(positions: Seq<usize>) -> Seq<int> {
    positions.map_values(|p: usize| p as int)
}

impl Enumeration {
    /// Whether this is the listing of the snapshot with these documents.
    pub open spec fn lists(self, documents: Seq<Option<Tree>>) -> bool {
        &&& descriptors(self.windows@) == kept(documents)
        &&& integers(self.positions@) == survivors(documents)
        &&& self.skipped@ == dropped(documents)
    }
}

/// Lists a snapshot from the documents of its elements, `None` standing for
/// an element without document.
pub fn enumerate_documents(documents: &Vec<Option<Node>>) -> (r: Enumeration)
    ensures
        r.lists(trees(documents@)),
{
    let ghost all = trees(documents@);
    let mut windows: Vec<CGWindow> = Vec::new();
    let mut positions: Vec<usize> = Vec::new();
    let mut skipped: Vec<Skipped> = Vec::new();
    let mut i: usize = 0;
    assert(all.subrange(0, 0) =~= Seq::empty());
    assert(descriptors(windows@) =~= kept(all.subrange(0, 0)));
    assert(integers(positions@) =~= survivors(all.subrange(0, 0)));
    while i < documents.len()
        invariant
            i <= documents.len(),
            all == trees(documents@),
            windows@.len() <= i,
            descriptors(windows@) == kept(all.subrange(0, i as int)),
            integers(positions@) == survivors(all.subrange(0, i as int)),
            skipped@ == dropped(all.subrange(0, i as int)),
        decreases documents.len() - i,
    {
        let ghost seen = all.subrange(0, i as int);
        let ghost next = all.subrange(0, i + 1);
        assert(next.drop_last() =~= seen);
        assert(next.last() == all[i as int]);
        let decoded = match &documents[i] {
            Some(node) => decode_node(node),
            None => Err(DecodeError::Malformed),
        };
        match decoded {
            Ok(window) => {
                let mut window = window;
                window.index = windows.len();
                let ghost before = windows@;
                windows.push(window);
                assert(descriptors(windows@) =~= descriptors(before).push(window@));
                let ghost found = positions@;
                positions.push(i);
                assert(integers(positions@) =~= integers(found).push(i as int));
            },
            Err(reason) => {
                skipped.push(Skipped { position: i, reason });
            },
        }
        i = i + 1;
    }
    assert(all.subrange(0, i as int) =~= all);
    Enumeration { windows, positions, skipped }
}

/// Reads the document of each element of a snapshot. An element whose
/// description is absent, empty or not a property list has none.
pub fn read_documents(snapshot: &Snapshot) -> (r: Vec<Option<Node>>)
    ensures
        trees(r@) == documents_of(snapshot@),
{
    let descriptions = &snapshot.descriptions;
    let mut documents: Vec<Option<Node>> = Vec::new();
    let mut i: usize = 0;
    while i < descriptions.len()
        invariant
            i <= descriptions.len(),
            descriptions == &snapshot.descriptions,
            documents@.len() == i,
            forall|j: int|
                0 <= j < i ==> tree(#[trigger] documents@[j]) == document_of(
                    text(descriptions@[j]),
                ),
        decreases descriptions.len() - i,
    {
        let document = match &descriptions[i] {
            Some(s) => if s.as_str().is_empty() {
                None
            } else {
                parse_document(s.as_str())
            },
            None => None,
        };
        assert(tree(document) == document_of(text(descriptions@[i as int])));
        documents.push(document);
        i = i + 1;
    }
    assert(trees(documents@) =~= documents_of(snapshot@));
    documents
}

/// Lists a snapshot: decodes the description of each element in turn,
/// keeps the descriptors of those that decode and records the others.
pub fn enumerate(snapshot: &Snapshot) -> (r: Enumeration)
    ensures
        r.lists(documents_of(snapshot@)),
{
    let documents = read_documents(snapshot);
    enumerate_documents(&documents)
}

/// Lists the windows of a snapshot, or hands on the error where none could
/// be taken. The list holds one descriptor for each element whose
/// description decodes, in snapshot order, indexed from 0 without gaps.
pub fn list_windows(snapshot: Result<Snapshot, PlatformError>) -> (r: Result<
    Vec<CGWindow>,
    PlatformError,
>)
    ensures
        match snapshot {
            Ok(taken) => r matches Ok(windows) && descriptors(windows@) == kept(
                documents_of(taken@),
            ),
            Err(e) => r == Err::<Vec<CGWindow>, PlatformError>(e),
        },
{
    match snapshot {
        Ok(taken) => Ok(enumerate(&taken).windows),
        Err(e) => Err(e),
    }
}

/// The descriptions found at `positions`, in the order of `positions`. A
/// position outside the snapshot or without description gives none.
pub open spec fn picked(descriptions: Seq<Option<Seq<char>>>, positions: Seq<int>) -> Seq<
    Seq<char>,
>
    decreases positions.len(),
{
    if positions.len() == 0 {
        Seq::empty()
    } else {
        let before = picked(descriptions, positions.drop_last());
        let p = positions.last();
        if 0 <= p < descriptions.len() && descriptions[p] is Some {
            before.push(descriptions[p]->0)
        } else {
            before
        }
    }
}

/// Copies the descriptions found at `positions`, in the order of
/// `positions`. A position outside the snapshot or without description
/// gives none.
pub fn pick_texts(snapshot: &Snapshot, positions: &Vec<usize>) -> (found: Vec<String>)
    ensures
        strings(found@) == picked(snapshot@, integers(positions@)),
{
    let ghost places = integers(positions@);
    let descriptions = &snapshot.descriptions;
    let mut found: Vec<String> = Vec::new();
    let mut k: usize = 0;
    assert(places.subrange(0, 0) =~= Seq::empty());
    assert(strings(found@) =~= picked(snapshot@, places.subrange(0, 0)));
    while k < positions.len()
        invariant
            k <= positions.len(),
            descriptions == &snapshot.descriptions,
            places == integers(positions@),
            strings(found@) == picked(snapshot@, places.subrange(0, k as int)),
        decreases positions.len() - k,
    {
        let ghost seen = places.subrange(0, k as int);
        let ghost next = places.subrange(0, k + 1);
        assert(next.drop_last() =~= seen);
        assert(next.last() == positions@[k as int] as int);
        let position = positions[k];
        if position < descriptions.len() {
            assert(snapshot@[position as int] == text(descriptions@[position as int]));
            match &descriptions[position] {
                Some(s) => {
                    let ghost before = found@;
                    found.push(s.clone());
                    assert(strings(found@) =~= strings(before).push(s@));
                },
                None => {},
            }
        }
        k = k + 1;
    }
    assert(places.subrange(0, k as int) =~= places);
    found
}

/// Lists the raw descriptions of the windows of a snapshot, or hands on the
/// error where none could be taken. The list holds the description of each
/// element that decodes, in snapshot order: text for text what
/// `list_windows` gives as descriptors.
pub fn list_window_texts(snapshot: Result<Snapshot, PlatformError>) -> (r: Result<
    Vec<String>,
    PlatformError,
>)
    ensures
        match snapshot {
            Ok(taken) => r matches Ok(found) && strings(found@) == picked(
                taken@,
                survivors(documents_of(taken@)),
            ),
            Err(e) => r == Err::<Vec<String>, PlatformError>(e),
        },
{
    match snapshot {
        Ok(taken) => {
            let listing = enumerate(&taken);
            Ok(pick_texts(&taken, &listing.positions))
        },
        Err(e) => Err(e),
    }
}

/// Every element of a snapshot is either kept or skipped: of `n` elements
/// of which `m` do not decode, `n - m` descriptors are listed.
pub proof fn listing_accounts_for_every_element(documents: Seq<Option<Tree>>)
    ensures
        kept(documents).len() + dropped(documents).len() == documents.len(),
        kept(documents).len() == survivors(documents).len(),
    decreases documents.len(),
{
    if documents.len() > 0 {
        listing_accounts_for_every_element(documents.drop_last());
    }
}

/// The indices of a listing are its positions: 0, 1, 2 and so on, without
/// gaps.
pub proof fn listing_indices_are_dense(documents: Seq<Option<Tree>>)
    ensures
        forall|k: int|
            0 <= k < kept(documents).len() ==> (#[trigger] kept(documents)[k]).index == k,
    decreases documents.len(),
{
    if documents.len() > 0 {
        listing_indices_are_dense(documents.drop_last());
    }
}

/// A listing follows the order of the snapshot: its `k`-th descriptor is
/// that of the `k`-th element that decodes, and these elements stand at
/// ascending positions.
pub proof fn listing_keeps_snapshot_order(documents: Seq<Option<Tree>>)
    ensures
        survivors(documents).len() == kept(documents).len(),
        forall|k: int|
            0 <= k < survivors(documents).len() ==> 0 <= (#[trigger] survivors(documents)[k])
                < documents.len(),
        forall|j: int, k: int|
            0 <= j < k < survivors(documents).len() ==> survivors(documents)[j] < survivors(
                documents,
            )[k],
        forall|k: int|
            0 <= k < survivors(documents).len() ==> outcome(
                documents[survivors(documents)[k]],
            ) == Ok::<Descriptor, DecodeError>((#[trigger] kept(documents)[k]).at(0)),
    decreases documents.len(),
{
    if documents.len() > 0 {
        let shorter = documents.drop_last();
        listing_keeps_snapshot_order(shorter);
        listing_indices_are_dense(documents);
        assert forall|k: int| 0 <= k < survivors(documents).len() implies outcome(
            documents[survivors(documents)[k]],
        ) == Ok::<Descriptor, DecodeError>((#[trigger] kept(documents)[k]).at(0)) by {
            if k < survivors(shorter).len() {
                assert(survivors(documents)[k] == survivors(shorter)[k]);
                assert(kept(documents)[k] == kept(shorter)[k]);
                assert(documents[survivors(shorter)[k]] == shorter[survivors(shorter)[k]]);
            } else {
                let descriptor = outcome(documents.last())->Ok_0;
                assert(descriptor.index == 0);
                assert(descriptor.at(kept(shorter).len()).at(0) == descriptor);
            }
        }
    }
}

/// An element is listed exactly if it decodes: the positions of the
/// survivors are those of the elements whose outcome is a descriptor.
pub proof fn survivors_are_the_decodable(documents: Seq<Option<Tree>>, position: int)
    requires
        0 <= position < documents.len(),
    ensures
        survivors(documents).contains(position) <==> outcome(documents[position]) is Ok,
    decreases documents.len(),
{
    let shorter = documents.drop_last();
    let last = documents.len() - 1;
    listing_keeps_snapshot_order(shorter);
    if position < last {
        survivors_are_the_decodable(shorter, position);
        assert(documents[position] == shorter[position]);
        if survivors(shorter).contains(position) {
            let k = choose|k: int|
                0 <= k < survivors(shorter).len() && survivors(shorter)[k] == position;
            assert(survivors(documents)[k] == position);
        }
        if survivors(documents).contains(position) {
            let k = choose|k: int|
                0 <= k < survivors(documents).len() && survivors(documents)[k] == position;
            assert(survivors(shorter)[k] == position);
        }
    } else {
        if outcome(documents.last()) is Ok {
            assert(survivors(documents)[survivors(shorter).len() as int] == position);
        } else {
            if survivors(documents).contains(position) {
                let k = choose|k: int|
                    0 <= k < survivors(documents).len() && survivors(documents)[k] == position;
                assert(survivors(shorter)[k] < shorter.len());
            }
        }
    }
}

/// The skipped elements are recorded in snapshot order, each at its position
/// and with the error that decoding it gives.
pub proof fn skipped_keep_snapshot_order(documents: Seq<Option<Tree>>)
    requires
        documents.len() <= usize::MAX,
    ensures
        forall|k: int|
            0 <= k < dropped(documents).len() ==> 0 <= (#[trigger] dropped(
                documents,
            )[k]).position < documents.len() && outcome(
                documents[dropped(documents)[k].position as int],
            ) == Err::<Descriptor, DecodeError>(dropped(documents)[k].reason),
        forall|j: int, k: int|
            0 <= j < k < dropped(documents).len() ==> dropped(documents)[j].position < dropped(
                documents,
            )[k].position,
    decreases documents.len(),
{
    if documents.len() > 0 {
        let shorter = documents.drop_last();
        skipped_keep_snapshot_order(shorter);
        assert forall|k: int| 0 <= k < dropped(documents).len() implies 0 <= (#[trigger] dropped(
            documents,
        )[k]).position < documents.len() && outcome(
            documents[dropped(documents)[k].position as int],
        ) == Err::<Descriptor, DecodeError>(dropped(documents)[k].reason) by {
            if k < dropped(shorter).len() {
                assert(dropped(documents)[k] == dropped(shorter)[k]);
                assert(documents[dropped(shorter)[k].position as int]
                    == shorter[dropped(shorter)[k].position as int]);
            }
        }
        assert forall|j: int, k: int| 0 <= j < k < dropped(documents).len() implies dropped(
            documents,
        )[j].position < dropped(documents)[k].position by {
            assert(dropped(documents)[j] == dropped(shorter)[j]);
            if k < dropped(shorter).len() {
                assert(dropped(documents)[k] == dropped(shorter)[k]);
            }
        }
    }
}

/// An element that does not decode leaves no trace in the list of
/// descriptors: the listing is that of the snapshot without the element.
pub proof fn undecodable_element_is_excluded(documents: Seq<Option<Tree>>, position: int)
    requires
        0 <= position < documents.len(),
        outcome(documents[position]) is Err,
    ensures
        kept(documents) == kept(documents.remove(position)),
    decreases documents.len(),
{
    let last = documents.len() - 1;
    if position == last {
        assert(documents.remove(position) =~= documents.drop_last());
    } else {
        let without = documents.remove(position);
        undecodable_element_is_excluded(documents.drop_last(), position);
        assert(without.drop_last() =~= documents.drop_last().remove(position));
        assert(without.last() == documents.last());
    }
}

/// Listing is repeatable: two snapshots with the same descriptions in the
/// same order give the same descriptors, indices included, and skip the
/// same elements.
pub proof fn same_snapshot_gives_same_listing(
    first: Seq<Option<Seq<char>>>,
    second: Seq<Option<Seq<char>>>,
)
    requires
        first.len() == second.len(),
        forall|i: int| 0 <= i < first.len() ==> first[i] == second[i],
    ensures
        kept(documents_of(first)) == kept(documents_of(second)),
        dropped(documents_of(first)) == dropped(documents_of(second)),
{
    assert(first =~= second);
}

/// A window's descriptor depends on the snapshot only through its index:
/// where two snapshots hold the same document, at whatever positions, the
/// descriptors listed for it agree in every field but the index.
pub proof fn same_window_differs_only_in_index(
    first: Seq<Option<Tree>>,
    second: Seq<Option<Tree>>,
    j: int,
    k: int,
)
    requires
        0 <= j < kept(first).len(),
        0 <= k < kept(second).len(),
        first[survivors(first)[j]] == second[survivors(second)[k]],
    ensures
        kept(first)[j].at(0) == kept(second)[k].at(0),
{
    listing_keeps_snapshot_order(first);
    listing_keeps_snapshot_order(second);
}

/// The texts listed for a snapshot stand one for one beside its
/// descriptors: the `k`-th text is the description of the `k`-th element
/// that decodes.
pub proof fn texts_match_descriptors(descriptions: Seq<Option<Seq<char>>>)
    ensures
        picked(descriptions, survivors(documents_of(descriptions))).len() == kept(
            documents_of(descriptions),
        ).len(),
        forall|k: int|
            0 <= k < survivors(documents_of(descriptions)).len() ==> descriptions[survivors(
                documents_of(descriptions),
            )[k]] == Some(
                #[trigger] picked(descriptions, survivors(documents_of(descriptions)))[k],
            ),
{
    let documents = documents_of(descriptions);
    let places = survivors(documents);
    listing_keeps_snapshot_order(documents);
    assert forall|k: int| 0 <= k < places.len() implies descriptions[#[trigger] places[k]]
        is Some by {
        assert(outcome(documents[places[k]]) == Ok::<Descriptor, DecodeError>(
            kept(documents)[k].at(0),
        ));
        assert(documents[places[k]] == document_of(descriptions[places[k]]));
    }
    picked_all(descriptions, places);
}

/// Where every position holds a description, picking yields one text for
/// each position.
proof fn picked_all(descriptions: Seq<Option<Seq<char>>>, positions: Seq<int>)
    requires
        forall|k: int|
            0 <= k < positions.len() ==> 0 <= (#[trigger] positions[k]) < descriptions.len()
                && descriptions[positions[k]] is Some,
    ensures
        picked(descriptions, positions).len() == positions.len(),
        forall|k: int|
            0 <= k < positions.len() ==> descriptions[positions[k]] == Some(
                #[trigger] picked(descriptions, positions)[k],
            ),
    decreases positions.len(),
{
    if positions.len() > 0 {
        let shorter = positions.drop_last();
        assert forall|k: int| 0 <= k < shorter.len() implies 0 <= (#[trigger] shorter[k])
            < descriptions.len() && descriptions[shorter[k]] is Some by {
            assert(shorter[k] == positions[k]);
        }
        picked_all(descriptions, shorter);
        assert(positions.last() == positions[positions.len() - 1]);
        assert forall|k: int| 0 <= k < positions.len() implies descriptions[positions[k]]
            == Some(#[trigger] picked(descriptions, positions)[k]) by {
            if k < shorter.len() {
                assert(shorter[k] == positions[k]);
                assert(picked(descriptions, positions)[k] == picked(descriptions, shorter)[k]);
            }
        }
    }
}

} // verus!
