//! The document tree and its mathematical model.
//!
//! A document is a tree of [`Json`] nodes. Contracts speak of its model, a
//! [`JsonView`]: the same tree with mathematical sequences in place of vectors
//! and strings. A tree is well formed when no mapping in it holds a key twice
//! and every number in it is.

use vstd::prelude::*;
use crate::number::JsonNumber;

verus! {

/// One node of a document, and with the nodes below it a document.
#[derive(Debug, PartialEq, Eq)]
pub enum Json {
    Null,
    Bool(bool),
    Number(JsonNumber),
    String(String),
    /// An ordered list of nodes.
    Sequence(Vec<Json>),
    /// Keys with their nodes, in the order in which they were inserted. In a
    /// well-formed tree no key occurs twice.
    Mapping(Vec<(String, Json)>),
}

/// The mathematical model of a node: the same tree over sequences.
pub enum JsonView {
    Null,
    Bool(bool),
    Number(JsonNumber),
    String(Seq<char>),
    Sequence(Seq<JsonView>),
    Mapping(Seq<(Seq<char>, JsonView)>),
}

impl Json {
    /// The model of the node.
    pub open spec fn model(self) -> JsonView
        decreases self,
    {
        match self {
            Json::Null => JsonView::Null,
            Json::Bool(b) => JsonView::Bool(b),
            Json::Number(n) => JsonView::Number(n),
            Json::String(s) => JsonView::String(s@),
            Json::Sequence(items) => JsonView::Sequence(
                Seq::new(
                    items@.len(),
                    |i: int|
                        if 0 <= i < items@.len() {
                            items@[i].model()
                        } else {
                            JsonView::Null
                        },
                ),
            ),
            Json::Mapping(entries) => JsonView::Mapping(
                Seq::new(
                    entries@.len(),
                    |i: int|
                        if 0 <= i < entries@.len() {
                            (entries@[i].0@, entries@[i].1.model())
                        } else {
                            (Seq::empty(), JsonView::Null)
                        },
                ),
            ),
        }
    }
}

impl View for Json {
    type V = JsonView;

    open spec fn view(&self) -> JsonView {
        self.model()
    }
}

/// The models of the nodes in `items`, in order.
pub open spec fn items_view(items: Seq<Json>) -> Seq<JsonView> {
    Seq::new(items.len(), |i: int| items[i]@)
}

/// The keys and the models of the nodes in `entries`, in order.
pub open spec fn entries_view(entries: Seq<(String, Json)>) -> Seq<(Seq<char>, JsonView)> {
    Seq::new(entries.len(), |i: int| (entries[i].0@, entries[i].1@))
}

/// The model of a sequence node is the sequence of its elements' models.
pub proof fn lemma_view_sequence(items: Vec<Json>)
    ensures
        Json::Sequence(items)@ == JsonView::Sequence(items_view(items@)),
{
    assert(Json::Sequence(items)@->Sequence_0 =~= items_view(items@));
}

/// The model of a mapping node is the sequence of its entries' models.
pub proof fn lemma_view_mapping(entries: Vec<(String, Json)>)
    ensures
        Json::Mapping(entries)@ == JsonView::Mapping(entries_view(entries@)),
{
    assert(Json::Mapping(entries)@->Mapping_0 =~= entries_view(entries@));
}

impl JsonView {
    /// No two entries of `entries` have the same key.
    pub open spec fn distinct_keys(entries: Seq<(Seq<char>, JsonView)>) -> bool {
        forall|i: int, j: int|
            0 <= i < j < entries.len() ==> (#[trigger] entries[i]).0 != (#[trigger] entries[j]).0
    }

    /// Every number in the tree is well formed and no mapping in it holds a
    /// key twice.
    pub open spec fn wf(self) -> bool
        decreases self,
    {
        match self {
            JsonView::Number(n) => n.wf(),
            JsonView::Sequence(items) => forall|i: int|
                0 <= i < items.len() ==> (#[trigger] items[i]).wf(),
            JsonView::Mapping(entries) => {
                &&& JsonView::distinct_keys(entries)
                &&& forall|i: int| 0 <= i < entries.len() ==> (#[trigger] entries[i]).1.wf()
            },
            _ => true,
        }
    }
}

impl Json {
    /// Decides whether no two entries of `entries` have the same key.
    pub fn has_distinct_keys(entries: &Vec<(String, Json)>) -> (r: bool)
        ensures
            r == JsonView::distinct_keys(entries_view(entries@)),
    {
        let ghost model = entries_view(entries@);
        let mut upper: usize = 0;
        while upper < entries.len()
            invariant
                upper <= entries.len(),
                model == entries_view(entries@),
                forall|i: int, j: int|
                    0 <= i < j < upper ==> (#[trigger] model[i]).0 != (#[trigger] model[j]).0,
            decreases entries.len() - upper,
        {
            let mut lower: usize = 0;
            while lower < upper
                invariant
                    lower <= upper < entries.len(),
                    model == entries_view(entries@),
                    forall|i: int|
                        0 <= i < lower ==> (#[trigger] model[i]).0 != model[upper as int].0,
                decreases upper - lower,
            {
                if entries[lower].0 == entries[upper].0 {
                    assert(model[lower as int].0 == model[upper as int].0);
                    return false;
                }
                lower += 1;
            }
            upper += 1;
        }
        true
    }

    /// Decides whether the tree is well formed.
    pub fn is_well_formed(&self) -> (r: bool)
        ensures
            r == self@.wf(),
        decreases self,
    {
        match self {
            Json::Number(n) => n.is_well_formed(),
            Json::Sequence(items) => {
                proof {
                    lemma_view_sequence(*items);
                }
                let mut index: usize = 0;
                while index < items.len()
                    invariant
                        index <= items.len(),
                        self == Json::Sequence(*items),
                        self@ == JsonView::Sequence(items_view(items@)),
                        forall|i: int| 0 <= i < index ==> (#[trigger] items@[i])@.wf(),
                    decreases items.len() - index,
                {
                    if !items[index].is_well_formed() {
                        assert(self@->Sequence_0 == items_view(items@));
                        assert(!items_view(items@)[index as int].wf());
                        return false;
                    }
                    index += 1;
                }
                assert(forall|i: int|
                    0 <= i < items_view(items@).len() ==> (#[trigger] items_view(items@)[i]).wf());
                true
            },
            Json::Mapping(entries) => {
                proof {
                    lemma_view_mapping(*entries);
                }
                if !Self::has_distinct_keys(entries) {
                    return false;
                }
                let mut index: usize = 0;
                while index < entries.len()
                    invariant
                        index <= entries.len(),
                        self == Json::Mapping(*entries),
                        self@ == JsonView::Mapping(entries_view(entries@)),
                        forall|i: int| 0 <= i < index ==> (#[trigger] entries@[i]).1@.wf(),
                    decreases entries.len() - index,
                {
                    if !entries[index].1.is_well_formed() {
                        assert(!entries_view(entries@)[index as int].1.wf());
                        return false;
                    }
                    index += 1;
                }
                assert(forall|i: int|
                    0 <= i < entries_view(entries@).len() ==> (#[trigger] entries_view(
                        entries@,
                    )[i]).1.wf());
                true
            },
            _ => true,
        }
    }
}

impl Clone for Json {
    /// A copy of the tree, with the same model.
    fn clone(&self) -> (r: Json)
        ensures
            r@ == self@,
        decreases self,
    {
        match self {
            Json::Null => Json::Null,
            Json::Bool(b) => Json::Bool(*b),
            Json::Number(n) => Json::Number(n.clone()),
            Json::String(s) => Json::String(s.clone()),
            Json::Sequence(items) => {
                let mut out: Vec<Json> = Vec::new();
                let mut index: usize = 0;
                while index < items.len()
                    invariant
                        index <= items.len(),
                        self == Json::Sequence(*items),
                        out@.len() == index,
                        forall|j: int| 0 <= j < index ==> (#[trigger] out@[j])@ == items@[j]@,
                    decreases items.len() - index,
                {
                    proof {
                        assert(decreases_to!(*self => self->Sequence_0));
                    }
                    out.push(items[index].clone());
                    index += 1;
                }
                proof {
                    lemma_view_sequence(*items);
                    lemma_view_sequence(out);
                    assert(items_view(out@) =~= items_view(items@));
                }
                Json::Sequence(out)
            },
            Json::Mapping(entries) => {
                let mut out: Vec<(String, Json)> = Vec::new();
                let mut index: usize = 0;
                while index < entries.len()
                    invariant
                        index <= entries.len(),
                        self == Json::Mapping(*entries),
                        out@.len() == index,
                        forall|j: int|
                            0 <= j < index ==> (#[trigger] out@[j]).0@ == entries@[j].0@
                                && out@[j].1@ == entries@[j].1@,
                    decreases entries.len() - index,
                {
                    proof {
                        assert(decreases_to!(*self => self->Mapping_0));
                    }
                    let key = entries[index].0.clone();
                    out.push((key, entries[index].1.clone()));
                    index += 1;
                }
                proof {
                    lemma_view_mapping(*entries);
                    lemma_view_mapping(out);
                    assert(entries_view(out@) =~= entries_view(entries@));
                }
                Json::Mapping(out)
            },
        }
    }
}

} // verus!
