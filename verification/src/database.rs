//! The document store and the path resolver.

use vstd::prelude::*;
use crate::configuration;
use crate::decimal::parse_i64;
use crate::errors::{Errors, LoadError};
use crate::json::{parse, parsed_text, print, printed_text};
use crate::path::{
    child, id_index, id_key, id_of, is_first_id, is_first_key, key_index, lemma_first_id_unique,
    lemma_first_key_unique, lemma_walk_bounds, lemma_walk_through,
    node_at, segment_id, walk, with_node_at,
};
use crate::value::{entries_view, items_view, lemma_view_mapping, lemma_view_sequence, Json};

verus! {

/// A store of one document. The whole document is held in memory, every
/// operation works on it there, and `flush` gives the text of the whole
/// document to be written back.
#[derive(Debug)]
pub struct Database {
    configuration: Option<configuration::Database>,
    data: Json,
}

impl Database {
    /// The document that the store holds.
    pub closed spec fn spec_data(&self) -> Json {
        self.data
    }

    /// The configuration that the store was last loaded with.
    pub closed spec fn spec_configuration(&self) -> Option<configuration::Database> {
        self.configuration
    }

    /// A store that holds the null document and has no configuration.
    pub fn new() -> (database: Database)
        ensures
            database.spec_configuration() is None,
            database.spec_data() == Json::Null,
    {
        Database { configuration: None, data: Json::Null }
    }

    /// The document that the store holds.
    pub fn data(&self) -> (r: &Json)
        ensures
            *r == self.spec_data(),
    {
        &self.data
    }

    /// The document that the store holds, to be changed in place.
    pub fn data_mut(&mut self) -> (r: &mut Json)
        ensures
            *r == old(self).spec_data(),
            final(self).spec_data() == *final(r),
            final(self).spec_configuration() == old(self).spec_configuration(),
    {
        &mut self.data
    }

    /// The configuration that the store was last loaded with.
    pub fn configuration(&self) -> (r: Option<&configuration::Database>)
        ensures
            match r {
                Some(c) => self.spec_configuration() == Some(*c),
                None => self.spec_configuration() is None,
            },
    {
        self.configuration.as_ref()
    }

    /// Binds the configuration and loads the document from the contents of
    /// the file that the configuration names: `None` where the file could not
    /// be read. The configuration is bound whether or not the load succeeds.
    pub fn load(
        &mut self,
        configuration: &configuration::Database,
        contents: Option<&str>,
    ) -> (r: Result<(), LoadError>)
        ensures
            final(self).spec_configuration() == Some(*configuration),
            Self::loaded(old(self).spec_data(), contents, final(self).spec_data(), r),
    {
        self.configuration = Some(configuration::Database { path: configuration.path.clone() });
        self.open(contents)
    }

    /// What loading makes of a store that holds `before`. A file that could
    /// not be read, an empty file and a text that is no document are refused,
    /// each with its own error, and leave the store as it was. Any other text
    /// replaces the whole document by the one it denotes, which is well formed.
    pub open spec fn loaded(
        before: Json,
        contents: Option<&str>,
        after: Json,
        r: Result<(), LoadError>,
    ) -> bool {
        match contents {
            None => r == Err::<(), LoadError>(LoadError::Unreadable) && after == before,
            Some(text) => if text@.len() == 0 {
                r == Err::<(), LoadError>(LoadError::Empty) && after == before
            } else {
                match parsed_text(text@) {
                    Some(document) => r is Ok && after@ == document && after@.wf(),
                    None => r == Err::<(), LoadError>(LoadError::Malformed) && after == before,
                }
            },
        }
    }

    /// Loads the document from the contents of the backing file: `None` where
    /// the file could not be read. Nothing can be resolved before this has
    /// succeeded once.
    pub fn open(&mut self, contents: Option<&str>) -> (r: Result<(), LoadError>)
        ensures
            final(self).spec_configuration() == old(self).spec_configuration(),
            Self::loaded(old(self).spec_data(), contents, final(self).spec_data(), r),
    {
        match contents {
            None => Err(LoadError::Unreadable),
            Some(text) => if text.is_empty() {
                Err(LoadError::Empty)
            } else {
                self.accept(parse(text))
            },
        }
    }

    /// Takes over a document that was read, or passes the error on and keeps
    /// the document that the store holds.
    pub fn accept(&mut self, parsed: Result<Json, LoadError>) -> (r: Result<(), LoadError>)
        ensures
            final(self).spec_configuration() == old(self).spec_configuration(),
            match parsed {
                Ok(document) => r is Ok && final(self).spec_data() == document,
                Err(e) => r == Err::<(), LoadError>(e) && final(self).spec_data() == old(
                    self,
                ).spec_data(),
            },
    {
        match parsed {
            Ok(document) => {
                self.data = document;
                Ok(())
            },
            Err(e) => Err(e),
        }
    }

    /// The compact text of the whole document, to be written over the backing
    /// file in the steps of [`crate::flush::FlushStep`]; `None` where the
    /// document cannot be put into text. The store is left as it is, whatever
    /// becomes of the file.
    pub fn flush(&mut self) -> (r: Option<String>)
        requires
            old(self).spec_data()@.wf(),
        ensures
            *final(self) == *old(self),
            match r {
                Some(text) => printed_text(old(self).spec_data()@) == Some(text@),
                None => printed_text(old(self).spec_data()@) is None,
            },
    {
        print(&self.data)
    }

    /// The position of the first entry of `entries` whose key is `key`.
    pub fn find_key(entries: &Vec<(String, Json)>, key: &String) -> (r: Option<usize>)
        ensures
            match r {
                Some(i) => key_index(entries_view(entries@), key@) == Some(i as int),
                None => key_index(entries_view(entries@), key@) is None,
            },
    {
        let ghost model = entries_view(entries@);
        let mut index: usize = 0;
        while index < entries.len()
            invariant
                index <= entries.len(),
                model == entries_view(entries@),
                forall|j: int| 0 <= j < index ==> (#[trigger] model[j]).0 != key@,
            decreases entries.len() - index,
        {
            if entries[index].0 == *key {
                proof {
                    lemma_first_key_unique(
                        model,
                        key@,
                        index as int,
                        choose|i: int| is_first_key(model, key@, i),
                    );
                }
                return Some(index);
            }
            index += 1;
        }
        None
    }

    /// The position of the first element of `vec` whose logical id is
    /// `target`. An element that is no mapping, or has no `id` field that is
    /// an integer of 64 bits, has no id and is passed over.
    pub fn find_index(vec: &Vec<Json>, target: &i64) -> (r: Option<usize>)
        ensures
            match r {
                Some(i) => id_index(items_view(vec@), *target) == Some(i as int),
                None => id_index(items_view(vec@), *target) is None,
            },
    {
        let ghost model = items_view(vec@);
        let key = "id".to_owned();
        let mut index: usize = 0;
        while index < vec.len()
            invariant
                index <= vec.len(),
                model == items_view(vec@),
                key@ == id_key(),
                forall|j: int| 0 <= j < index ==> id_of(#[trigger] model[j]) != Some(*target),
            decreases vec.len() - index,
        {
            let id = Self::id_under(&vec[index], &key);
            if id == Some(*target) {
                proof {
                    lemma_first_id_unique(
                        model,
                        *target,
                        index as int,
                        choose|i: int| is_first_id(model, *target, i),
                    );
                }
                return Some(index);
            }
            index += 1;
        }
        None
    }

    /// The logical id of an element of a sequence: the value of its `id`
    /// field, where the element is a mapping and the field an integer that
    /// fits in 64 bits.
    pub fn element_id(element: &Json) -> (r: Option<i64>)
        ensures
            r == id_of(element@),
    {
        let key = "id".to_owned();
        Self::id_under(element, &key)
    }

    /// The logical id of `element`, read under `key`, which is the key `id`.
    fn id_under(element: &Json, key: &String) -> (r: Option<i64>)
        requires
            key@ == id_key(),
        ensures
            r == id_of(element@),
    {
        match element {
            Json::Mapping(entries) => {
                proof {
                    lemma_view_mapping(*entries);
                }
                match Self::find_key(entries, key) {
                    Some(i) => match &entries[i].1 {
                        Json::Number(n) => n.as_i64(),
                        _ => None,
                    },
                    None => None,
                }
            },
            _ => None,
        }
    }

    /// Resolves a path: follows `keys` down from `json_object`, one segment for
    /// each level, and returns the node that the path designates, to be read
    /// or changed in place. In a mapping a segment is taken as a key; in a
    /// sequence it is read as an integer and designates the first element with
    /// that logical id; a scalar has no children. The empty path designates
    /// `json_object` itself.
    ///
    /// The segments are taken out of `keys` as they are followed. Where a
    /// segment designates nothing, the error names it, the segments after it
    /// stay in `keys`, and the document is as it was.
    pub fn get_object<'a>(keys: &mut Vec<String>, json_object: &'a mut Json) -> (r: Result<
        &'a mut Json,
        Errors,
    >)
        ensures
            match r {
                Ok(node) => {
                    &&& walk(old(json_object)@, old(keys).deep_view()) matches Ok(location)
                    &&& node@ == node_at(old(json_object)@, location)
                    &&& final(json_object)@ == with_node_at(
                        old(json_object)@,
                        location,
                        final(node)@,
                    )
                    &&& final(keys)@.len() == 0
                },
                Err(Errors::NotFound(segment)) => {
                    &&& walk(old(json_object)@, old(keys).deep_view()) matches Err(k)
                    &&& 0 <= k < old(keys)@.len()
                    &&& segment@ == old(keys)@[k]@
                    &&& final(keys)@ == old(keys)@.skip(k + 1)
                    &&& final(json_object)@ == old(json_object)@
                },
            },
        decreases old(keys)@.len(),
    {
        let ghost path = keys.deep_view();
        let ghost document = json_object@;
        if keys.len() == 0 {
            return Ok(json_object);
        }
        let key = keys.remove(0);
        let ghost rest = keys@;
        proof {
            assert(keys.deep_view() =~= path.skip(1));
        }
        match json_object {
            Json::Sequence(array) => {
                proof {
                    lemma_view_sequence(*array);
                }
                let ghost items = array@;
                let id = Self::decide_id(&key);
                match Self::find_index(array, &id) {
                    Some(idx) => {
                        let ghost array_after = *final(array);
                        let element = &mut array[idx];
                        let ghost element_after = *final(element);
                        let r = Self::get_object(keys, element);
                        proof {
                            lemma_view_sequence(array_after);
                            assert(items_view(array_after@) =~= items_view(items).update(
                                idx as int,
                                element_after@,
                            ));
                            lemma_walk_through(document, path, idx as int);
                            lemma_walk_bounds(child(document, idx as int), path.skip(1));
                            if let Err(k) = walk(child(document, idx as int), path.skip(1)) {
                                assert(items_view(array_after@) =~= items_view(items));
                            }
                        }
                        r
                    },
                    None => Err(Errors::NotFound(key)),
                }
            },
            Json::Mapping(entries) => {
                proof {
                    lemma_view_mapping(*entries);
                }
                let ghost pairs = entries@;
                match Self::find_key(entries, &key) {
                    Some(idx) => {
                        let ghost entries_after = *final(entries);
                        let element = &mut entries[idx].1;
                        let ghost element_after = *final(element);
                        let r = Self::get_object(keys, element);
                        proof {
                            lemma_view_mapping(entries_after);
                            assert(entries_view(entries_after@) =~= entries_view(pairs).update(
                                idx as int,
                                (pairs[idx as int].0@, element_after@),
                            ));
                            lemma_walk_through(document, path, idx as int);
                            lemma_walk_bounds(child(document, idx as int), path.skip(1));
                            if let Err(k) = walk(child(document, idx as int), path.skip(1)) {
                                assert(entries_view(entries_after@) =~= entries_view(pairs));
                            }
                        }
                        r
                    },
                    None => Err(Errors::NotFound(key)),
                }
            },
            _ => Err(Errors::NotFound(key)),
        }
    }

    /// The id that a segment addresses in a sequence: the segment read as a
    /// decimal integer, or -1 where it is none that fits in 64 bits.
    pub fn decide_id(val: &String) -> (r: i64)
        ensures
            r == segment_id(val@),
    {
        match parse_i64(val.as_str()) {
            Some(parsed) => parsed,
            None => -1,
        }
    }
}

} // verus!
