//! What a path designates in a document, stated over the model.
//!
//! A path is a sequence of segments. Each segment picks one child of the node
//! reached so far: in a mapping the entry with that key, in a sequence the first
//! element whose `id` field equals the segment read as an integer. [`walk`]
//! follows a path and gives the location of its target, [`node_at`] reads the
//! node at a location and [`with_node_at`] replaces it. The proof functions
//! below state what holds of them for every document and path.

use vstd::prelude::*;
use crate::decimal::decimal_i64;
use crate::value::JsonView;

verus! {

/// The key under which an element of a sequence carries its logical id.
pub open spec fn id_key() -> Seq<char> {
    "id"@
}

/// The id that stands for a segment that is no integer.
pub open spec fn no_id() -> i64 {
    -1i64
}

/// The id that a segment addresses: its decimal value where it has one that
/// fits in 64 bits, and `no_id()` otherwise.
pub open spec fn segment_id(segment: Seq<char>) -> i64 {
    match decimal_i64(segment) {
        Some(id) => id,
        None => no_id(),
    }
}

/// `i` is the position of the first entry with key `key`.
pub open spec fn is_first_key(entries: Seq<(Seq<char>, JsonView)>, key: Seq<char>, i: int) -> bool {
    &&& 0 <= i < entries.len()
    &&& entries[i].0 == key
    &&& forall|j: int| 0 <= j < i ==> (#[trigger] entries[j]).0 != key
}

/// The position of the first entry with key `key`, if there is one.
pub open spec fn key_index(entries: Seq<(Seq<char>, JsonView)>, key: Seq<char>) -> Option<int> {
    if exists|i: int| is_first_key(entries, key, i) {
        Some(choose|i: int| is_first_key(entries, key, i))
    } else {
        None
    }
}

/// The logical id of an element: the value of its `id` field, where the
/// element is a mapping and that field is an integer that fits in 64 bits.
pub open spec fn id_of(element: JsonView) -> Option<i64> {
    match element {
        JsonView::Mapping(entries) => match key_index(entries, id_key()) {
            Some(i) => match entries[i].1 {
                JsonView::Number(n) => n.spec_as_i64(),
                _ => None,
            },
            None => None,
        },
        _ => None,
    }
}

/// `i` is the position of the first element whose id is `target`.
pub open spec fn is_first_id(items: Seq<JsonView>, target: i64, i: int) -> bool {
    &&& 0 <= i < items.len()
    &&& id_of(items[i]) == Some(target)
    &&& forall|j: int| 0 <= j < i ==> id_of(#[trigger] items[j]) != Some(target)
}

/// The position of the first element whose id is `target`, if there is one.
pub open spec fn id_index(items: Seq<JsonView>, target: i64) -> Option<int> {
    if exists|i: int| is_first_id(items, target, i) {
        Some(choose|i: int| is_first_id(items, target, i))
    } else {
        None
    }
}

/// The position of the child of `node` that `segment` designates.
pub open spec fn child_index(node: JsonView, segment: Seq<char>) -> Option<int> {
    match node {
        JsonView::Sequence(items) => id_index(items, segment_id(segment)),
        JsonView::Mapping(entries) => key_index(entries, segment),
        _ => None,
    }
}

/// The child of `node` at position `i`.
pub open spec fn child(node: JsonView, i: int) -> JsonView {
    match node {
        JsonView::Sequence(items) => items[i],
        JsonView::Mapping(entries) => entries[i].1,
        _ => JsonView::Null,
    }
}

/// `node` with the child at position `i` replaced by `new`.
pub open spec fn with_child(node: JsonView, i: int, new: JsonView) -> JsonView {
    match node {
        JsonView::Sequence(items) => JsonView::Sequence(items.update(i, new)),
        JsonView::Mapping(entries) => JsonView::Mapping(entries.update(i, (entries[i].0, new))),
        _ => node,
    }
}

/// Whether `node` has a child at position `i`.
pub open spec fn has_child(node: JsonView, i: int) -> bool {
    match node {
        JsonView::Sequence(items) => 0 <= i < items.len(),
        JsonView::Mapping(entries) => 0 <= i < entries.len(),
        _ => false,
    }
}

/// Whether `location` leads from `node` to a node of the tree.
pub open spec fn is_location(node: JsonView, location: Seq<int>) -> bool
    decreases location.len(),
{
    location.len() == 0 || (has_child(node, location[0]) && is_location(
        child(node, location[0]),
        location.skip(1),
    ))
}

/// Follows `path` down from `node`. `Ok` holds the positions of the children
/// passed on the way to the target, `Err` the index in `path` of the first
/// segment that designates nothing.
pub open spec fn walk(node: JsonView, path: Seq<Seq<char>>) -> Result<Seq<int>, int>
    decreases path.len(),
{
    if path.len() == 0 {
        Ok(Seq::empty())
    } else {
        match child_index(node, path[0]) {
            Some(i) => match walk(child(node, i), path.skip(1)) {
                Ok(rest) => Ok(seq![i] + rest),
                Err(k) => Err(k + 1),
            },
            None => Err(0),
        }
    }
}

/// The node reached from `node` through the children at `location`.
pub open spec fn node_at(node: JsonView, location: Seq<int>) -> JsonView
    decreases location.len(),
{
    if location.len() == 0 {
        node
    } else {
        node_at(child(node, location[0]), location.skip(1))
    }
}

/// `node` with the node at `location` replaced by `new`.
pub open spec fn with_node_at(node: JsonView, location: Seq<int>, new: JsonView) -> JsonView
    decreases location.len(),
{
    if location.len() == 0 {
        new
    } else {
        with_child(
            node,
            location[0],
            with_node_at(child(node, location[0]), location.skip(1), new),
        )
    }
}

/// The node that `path` designates in `node`, or the segment at which the
/// path leaves the document.
pub open spec fn lookup(node: JsonView, path: Seq<Seq<char>>) -> Result<JsonView, Seq<char>> {
    match walk(node, path) {
        Ok(location) => Ok(node_at(node, location)),
        Err(k) => Err(path[k]),
    }
}

/// Two positions that are both the first with a key are one position.
pub proof fn lemma_first_key_unique(
    entries: Seq<(Seq<char>, JsonView)>,
    key: Seq<char>,
    i: int,
    j: int,
)
    requires
        is_first_key(entries, key, i),
        is_first_key(entries, key, j),
    ensures
        i == j,
{
}

/// Two positions that are both the first with an id are one position.
pub proof fn lemma_first_id_unique(items: Seq<JsonView>, target: i64, i: int, j: int)
    requires
        is_first_id(items, target, i),
        is_first_id(items, target, j),
    ensures
        i == j,
{
}

/// A walk that succeeds passes one child for each segment, and one that fails
/// does so at a segment of the path.
pub proof fn lemma_walk_bounds(node: JsonView, path: Seq<Seq<char>>)
    ensures
        match walk(node, path) {
            Ok(location) => location.len() == path.len(),
            Err(k) => 0 <= k < path.len(),
        },
    decreases path.len(),
{
    if path.len() > 0 {
        if let Some(i) = child_index(node, path[0]) {
            lemma_walk_bounds(child(node, i), path.skip(1));
        }
    }
}

/// Where the first segment designates the child at `i`, the walk goes on
/// from that child with the rest of the path.
pub proof fn lemma_walk_through(node: JsonView, path: Seq<Seq<char>>, i: int)
    requires
        path.len() > 0,
        child_index(node, path[0]) == Some(i),
    ensures
        match walk(child(node, i), path.skip(1)) {
            Ok(rest) => {
                &&& walk(node, path) == Ok::<Seq<int>, int>(seq![i] + rest)
                &&& node_at(node, seq![i] + rest) == node_at(child(node, i), rest)
                &&& forall|new: JsonView|
                    with_node_at(node, seq![i] + rest, new) == with_child(
                        node,
                        i,
                        #[trigger] with_node_at(child(node, i), rest, new),
                    )
            },
            Err(k) => walk(node, path) == Err::<Seq<int>, int>(k + 1),
        },
{
    match walk(child(node, i), path.skip(1)) {
        Ok(rest) => {
            assert((seq![i] + rest).skip(1) =~= rest);
        },
        Err(_) => {},
    }
}

/// The position that a segment designates is that of a child: in a
/// sequence the first element with the segment's id, in a mapping the first
/// entry with the segment as its key.
pub proof fn lemma_child_index_in_range(node: JsonView, segment: Seq<char>)
    ensures
        match child_index(node, segment) {
            Some(i) => has_child(node, i) && match node {
                JsonView::Sequence(items) => is_first_id(items, segment_id(segment), i),
                JsonView::Mapping(entries) => is_first_key(entries, segment, i),
                _ => false,
            },
            None => true,
        },
{
}

/// Putting back the child that is there changes nothing.
pub proof fn lemma_with_same_child(node: JsonView, i: int)
    requires
        has_child(node, i),
    ensures
        with_child(node, i, child(node, i)) == node,
{
    match node {
        JsonView::Sequence(items) => {
            assert(items.update(i, items[i]) =~= items);
        },
        JsonView::Mapping(entries) => {
            assert(entries.update(i, (entries[i].0, entries[i].1)) =~= entries);
        },
        _ => {},
    }
}

/// Reading is idempotent. Where `path` exists in `document`, the document
/// with the resolved node left as it is found is the same document, so
/// resolving `path` again gives an equal node.
pub proof fn lemma_read_is_idempotent(document: JsonView, path: Seq<Seq<char>>)
    requires
        walk(document, path) is Ok,
    ensures
        ({
            let location = walk(document, path)->Ok_0;
            let again = with_node_at(document, location, node_at(document, location));
            &&& again == document
            &&& lookup(again, path) == lookup(document, path)
        }),
    decreases path.len(),
{
    if path.len() > 0 {
        let i = child_index(document, path[0])->Some_0;
        lemma_child_index_in_range(document, path[0]);
        lemma_walk_through(document, path, i);
        lemma_read_is_idempotent(child(document, i), path.skip(1));
        lemma_with_same_child(document, i);
    }
}

/// A walk that succeeds ends at a node of the tree.
pub proof fn lemma_walk_is_location(node: JsonView, path: Seq<Seq<char>>)
    requires
        walk(node, path) is Ok,
    ensures
        is_location(node, walk(node, path)->Ok_0),
    decreases path.len(),
{
    if path.len() > 0 {
        let i = child_index(node, path[0])->Some_0;
        lemma_child_index_in_range(node, path[0]);
        lemma_walk_through(node, path, i);
        lemma_walk_is_location(child(node, i), path.skip(1));
        let rest = walk(child(node, i), path.skip(1))->Ok_0;
        assert((seq![i] + rest).skip(1) =~= rest);
    }
}

/// Every node of a well-formed tree is well formed.
pub proof fn lemma_node_at_wf(node: JsonView, location: Seq<int>)
    requires
        node.wf(),
        is_location(node, location),
    ensures
        node_at(node, location).wf(),
    decreases location.len(),
{
    if location.len() > 0 {
        lemma_node_at_wf(child(node, location[0]), location.skip(1));
    }
}

/// Replacing a node of a well-formed tree by a well-formed node leaves the
/// tree well formed.
pub proof fn lemma_with_node_at_wf(node: JsonView, location: Seq<int>, new: JsonView)
    requires
        node.wf(),
        new.wf(),
        is_location(node, location),
    ensures
        with_node_at(node, location, new).wf(),
    decreases location.len(),
{
    if location.len() > 0 {
        lemma_with_node_at_wf(child(node, location[0]), location.skip(1), new);
    }
}

/// What is written at a location is what is read there afterwards.
pub proof fn lemma_write_then_read(node: JsonView, location: Seq<int>, new: JsonView)
    requires
        is_location(node, location),
    ensures
        is_location(with_node_at(node, location, new), location),
        node_at(with_node_at(node, location, new), location) == new,
    decreases location.len(),
{
    if location.len() > 0 {
        lemma_write_then_read(child(node, location[0]), location.skip(1), new);
    }
}

/// No two elements of `items` have the same id.
pub open spec fn has_unique_ids(items: Seq<JsonView>) -> bool {
    forall|i: int, j: int|
        0 <= i < j < items.len() && id_of(#[trigger] items[i]) is Some ==> id_of(items[i])
            != id_of(#[trigger] items[j])
}

/// In a sequence whose elements have unique ids, a segment resolves to the
/// element whose id it denotes, at whatever position that element stands.
pub proof fn lemma_id_designates_element(items: Seq<JsonView>, i: int, segment: Seq<char>)
    requires
        has_unique_ids(items),
        0 <= i < items.len(),
        id_of(items[i]) == Some(segment_id(segment)),
    ensures
        lookup(JsonView::Sequence(items), seq![segment]) == Ok::<JsonView, Seq<char>>(items[i]),
{
    let target = segment_id(segment);
    assert forall|j: int| 0 <= j < i implies id_of(#[trigger] items[j]) != Some(target) by {}
    assert(is_first_id(items, target, i));
    let found = choose|k: int| is_first_id(items, target, k);
    lemma_first_id_unique(items, target, i, found);
    let node = JsonView::Sequence(items);
    let path = seq![segment];
    lemma_walk_through(node, path, i);
}

/// Reordering the elements of a sequence with unique ids does not change
/// what a segment resolves to.
pub proof fn lemma_order_is_immaterial(
    items: Seq<JsonView>,
    reordered: Seq<JsonView>,
    segment: Seq<char>,
)
    requires
        has_unique_ids(items),
        has_unique_ids(reordered),
        items.to_multiset() == reordered.to_multiset(),
    ensures
        lookup(JsonView::Sequence(items), seq![segment]) == lookup(
            JsonView::Sequence(reordered),
            seq![segment],
        ),
{
    let target = segment_id(segment);
    items.to_multiset_ensures();
    reordered.to_multiset_ensures();
    if exists|i: int| 0 <= i < items.len() && id_of(#[trigger] items[i]) == Some(target) {
        let i = choose|i: int| 0 <= i < items.len() && id_of(#[trigger] items[i]) == Some(target);
        assert(reordered.to_multiset().count(items[i]) > 0);
        let j = choose|j: int| 0 <= j < reordered.len() && reordered[j] == items[i];
        lemma_id_designates_element(items, i, segment);
        lemma_id_designates_element(reordered, j, segment);
    } else {
        assert forall|j: int| 0 <= j < reordered.len() implies id_of(#[trigger] reordered[j])
            != Some(target) by {
            assert(items.to_multiset().count(reordered[j]) > 0);
        }
        lemma_no_id_designates_nothing(items, segment);
        lemma_no_id_designates_nothing(reordered, segment);
    }
}

/// In a sequence that holds no element with the id that a segment denotes,
/// the segment designates nothing.
pub proof fn lemma_no_id_designates_nothing(items: Seq<JsonView>, segment: Seq<char>)
    requires
        forall|i: int|
            0 <= i < items.len() ==> id_of(#[trigger] items[i]) != Some(segment_id(segment)),
    ensures
        lookup(JsonView::Sequence(items), seq![segment]) == Err::<JsonView, Seq<char>>(segment),
{
}

/// The empty path designates the node itself: resolving it returns the whole
/// document, and what is written through it replaces the whole document.
pub proof fn lemma_empty_path(document: JsonView, new: JsonView)
    ensures
        walk(document, Seq::empty()) == Ok::<Seq<int>, int>(Seq::empty()),
        lookup(document, Seq::empty()) == Ok::<JsonView, Seq<char>>(document),
        with_node_at(document, Seq::empty(), new) == new,
{
}

/// In a mapping that has no entry with the first segment as its key, the path
/// leaves the document at that segment.
pub proof fn lemma_missing_key(entries: Seq<(Seq<char>, JsonView)>, path: Seq<Seq<char>>)
    requires
        path.len() > 0,
        forall|i: int| 0 <= i < entries.len() ==> (#[trigger] entries[i]).0 != path[0],
    ensures
        walk(JsonView::Mapping(entries), path) == Err::<Seq<int>, int>(0),
        lookup(JsonView::Mapping(entries), path) == Err::<JsonView, Seq<char>>(path[0]),
{
}

/// Whether a node is a scalar: null, a boolean, a number or a string.
pub open spec fn is_scalar(node: JsonView) -> bool {
    node is Null || node is Bool || node is Number || node is String
}

/// A scalar has no children: a path that is not empty leaves the document at
/// its first segment.
pub proof fn lemma_scalar_has_no_children(node: JsonView, path: Seq<Seq<char>>)
    requires
        is_scalar(node),
        path.len() > 0,
    ensures
        walk(node, path) == Err::<Seq<int>, int>(0),
        lookup(node, path) == Err::<JsonView, Seq<char>>(path[0]),
{
}

} // verus!
