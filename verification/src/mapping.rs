//! Mappings from identifier to record: the records of one file, and the
//! records of a whole run.

use vstd::prelude::*;
use vstd::hash_map::StringHashMap;
use vstd::string::StringExecFns;
use crate::record::{valid_identifier, Record, RecordModel};
use crate::text::views_of;

verus! {

/// A mapping from identifier to record, as a mathematical map.
pub type Mapping = Map<Seq<char>, RecordModel>;

/// Whether every record of `mapping` stands under its own identifier, and
/// that identifier is valid.
pub open spec fn valid_mapping(mapping: Mapping) -> bool {
    forall|k: Seq<char>| #[trigger]
        mapping.contains_key(k) ==> mapping[k].identifier == k && valid_identifier(k)
}

/// The record kept for an identifier after another record for it was seen:
/// the time moves to the newer of the two, and nothing else changes.
pub open spec fn newer(kept: RecordModel, seen: RecordModel) -> RecordModel {
    if seen.timestamp > kept.timestamp {
        RecordModel { timestamp: seen.timestamp, ..kept }
    } else {
        kept
    }
}

/// `mapping` after the record `seen` of another file was merged into it.
pub open spec fn merged_record(mapping: Mapping, seen: RecordModel) -> Mapping {
    if mapping.contains_key(seen.identifier) {
        mapping.insert(seen.identifier, newer(mapping[seen.identifier], seen))
    } else {
        mapping.insert(seen.identifier, seen)
    }
}

/// `kept` after the records of the mapping `seen` were merged into it.
pub open spec fn merged(kept: Mapping, seen: Mapping) -> Mapping {
    Map::new(
        |k: Seq<char>| kept.contains_key(k) || seen.contains_key(k),
        |k: Seq<char>|
            if kept.contains_key(k) {
                if seen.contains_key(k) {
                    newer(kept[k], seen[k])
                } else {
                    kept[k]
                }
            } else {
                seen[k]
            },
    )
}

/// The part of `seen` under the first `count` identifiers of `order`.
pub open spec fn leading_part(seen: Mapping, order: Seq<Seq<char>>, count: int) -> Mapping {
    seen.restrict(Set::new(|k: Seq<char>| order.subrange(0, count).contains(k)))
}

/// Tells the identifiers that `kept` has no record for.
pub open spec fn absent_from(kept: Mapping) -> spec_fn(Seq<char>) -> bool {
    |k: Seq<char>| !kept.contains_key(k)
}

/// Merging one more record equals merging a mapping that holds it too.
pub proof fn lemma_merged_step(kept: Mapping, seen: Mapping, record: RecordModel)
    requires
        !seen.contains_key(record.identifier),
    ensures
        merged(kept, seen.insert(record.identifier, record)) == merged_record(
            merged(kept, seen),
            record,
        ),
{
    assert(merged(kept, seen.insert(record.identifier, record)) =~= merged_record(
        merged(kept, seen),
        record,
    ));
}

/// A mapping from identifier to record. Each record stands under its own
/// identifier. The identifiers are kept in the order in which they first came
/// in.
pub struct RecordMap {
    map: StringHashMap<Record>,
    keys: Vec<String>,
}

impl View for RecordMap {
    type V = Mapping;

    closed spec fn view(&self) -> Mapping {
        Map::new(|k: Seq<char>| self.map@.contains_key(k), |k: Seq<char>| self.map@[k]@)
    }
}

impl RecordMap {
    /// The identifiers in the order in which they first came in.
    pub closed spec fn order(&self) -> Seq<Seq<char>> {
        views_of(self.keys@)
    }

    /// The invariant of the type.
    pub closed spec fn wf(&self) -> bool {
        &&& self.order().no_duplicates()
        &&& forall|k: Seq<char>| self.order().contains(k) <==> self.map@.contains_key(k)
        &&& forall|k: Seq<char>| #[trigger]
            self.map@.contains_key(k) ==> self.map@[k]@.identifier == k && valid_identifier(k)
    }

    /// What the invariant says of the view and of the order.
    pub proof fn lemma_wf(&self)
        requires
            self.wf(),
        ensures
            valid_mapping(self@),
            self@.dom().finite(),
            self.order().no_duplicates(),
            self.order().len() == self@.len(),
            forall|k: Seq<char>| self.order().contains(k) <==> self@.contains_key(k),
    {
        let order = self.order();
        assert(order.to_set() =~= self@.dom());
        order.unique_seq_to_set();
        assert(self@.dom().finite());
    }

    /// The empty mapping.
    pub fn new() -> (made: RecordMap)
        ensures
            made.wf(),
            made@ == Map::<Seq<char>, RecordModel>::empty(),
            made.order() == Seq::<Seq<char>>::empty(),
    {
        let made = RecordMap { map: StringHashMap::new(), keys: Vec::new() };
        assert(made@ =~= Map::<Seq<char>, RecordModel>::empty());
        assert(made.order() =~= Seq::<Seq<char>>::empty());
        made
    }

    /// The number of records.
    pub fn len(&self) -> (count: usize)
        requires
            self.wf(),
        ensures
            count == self@.len(),
    {
        proof {
            self.lemma_wf();
        }
        self.keys.len()
    }

    /// Whether there is a record for `identifier`.
    pub fn contains_key(&self, identifier: &str) -> (found: bool)
        ensures
            found == self@.contains_key(identifier@),
    {
        self.map.contains_key(identifier)
    }

    /// The record for `identifier`, if there is one.
    pub fn get(&self, identifier: &str) -> (found: Option<&Record>)
        ensures
            found is Some <==> self@.contains_key(identifier@),
            found matches Some(record) ==> record@ == self@[identifier@],
    {
        self.map.get(identifier)
    }

    /// Puts `record` under its identifier, in place of any record that stood
    /// there.
    pub fn insert(&mut self, record: Record)
        requires
            old(self).wf(),
        ensures
            final(self).wf(),
            final(self)@ == old(self)@.insert(record@.identifier, record@),
            final(self).order() == if old(self)@.contains_key(record@.identifier) {
                old(self).order()
            } else {
                old(self).order().push(record@.identifier)
            },
    {
        let key = String::from_str(record.identifier());
        if !self.map.contains_key(record.identifier()) {
            let ghost before = self.keys@;
            self.keys.push(key.clone());
            assert(views_of(self.keys@) =~= views_of(before).push(key@));
        }
        self.map.insert(key, record);
        assert(final(self)@ =~= old(self)@.insert(record@.identifier, record@));
        proof {
            let order = self.order();
            let past = old(self).order();
            assert(order.no_duplicates()) by {
                if !old(self)@.contains_key(record@.identifier) {
                    assert(!past.contains(record@.identifier));
                    assert forall|i: int, j: int|
                        0 <= i < order.len() && 0 <= j < order.len() && i != j implies order[i]
                        != order[j] by {
                        if i < past.len() {
                            assert(past.contains(order[i]));
                        }
                        if j < past.len() {
                            assert(past.contains(order[j]));
                        }
                    }
                }
            }
            assert forall|k: Seq<char>| #[trigger]
                self.map@.contains_key(k) implies self.map@[k]@.identifier == k
                && valid_identifier(k) by {
                if k != record@.identifier {
                    assert(old(self).map@.contains_key(k));
                }
            }
            assert forall|k: Seq<char>| order.contains(k) <==> self.map@.contains_key(k) by {
                if old(self)@.contains_key(record@.identifier) {
                } else {
                    let past = old(self).order();
                    if order.contains(k) {
                        let i = choose|i: int| 0 <= i < order.len() && order[i] == k;
                        if i < past.len() {
                            assert(past[i] == k);
                            assert(past.contains(k));
                        }
                    }
                    if self.map@.contains_key(k) {
                        if k == record@.identifier {
                            assert(order[past.len() as int] == k);
                        } else {
                            assert(past.contains(k));
                            let i = choose|i: int| 0 <= i < past.len() && past[i] == k;
                            assert(order[i] == k);
                        }
                    }
                }
            }
        }
    }

    /// Merges a record of another file: where its identifier is new, the
    /// record comes in as it is; where it is known, the record that is kept
    /// moves to the time of `record` if that is newer, and keeps its slug.
    pub fn merge_record(&mut self, record: &Record)
        requires
            old(self).wf(),
        ensures
            final(self).wf(),
            final(self)@ == merged_record(old(self)@, record@),
            final(self).order() == if old(self)@.contains_key(record@.identifier) {
                old(self).order()
            } else {
                old(self).order().push(record@.identifier)
            },
    {
        let update: Option<Record> = match self.map.get(record.identifier()) {
            None => Some(record.clone()),
            Some(kept) => {
                if record.timestamp() > kept.timestamp() {
                    Some(kept.at(record.timestamp()))
                } else {
                    None
                }
            },
        };
        match update {
            Some(changed) => {
                self.insert(changed);
            },
            None => {
                assert(self@ =~= merged_record(self@, record@));
            },
        }
    }

    /// Merges the records of another file, each as `merge_record` does. The
    /// identifiers that are new come in behind those that were there, in the
    /// order that they have in `seen`.
    pub fn merge(&mut self, seen: &RecordMap)
        requires
            old(self).wf(),
            seen.wf(),
        ensures
            final(self).wf(),
            final(self)@ == merged(old(self)@, seen@),
            final(self).order() == old(self).order() + seen.order().filter(
                absent_from(old(self)@),
            ),
    {
        let count = seen.keys.len();
        let mut i: usize = 0;
        proof {
            assert(leading_part(seen@, seen.order(), 0) =~= Map::<Seq<char>, RecordModel>::empty());
            assert(merged(self@, Map::<Seq<char>, RecordModel>::empty()) =~= self@);
            reveal(Seq::filter);
            assert(seen.order().subrange(0, 0).filter(absent_from(self@)) =~= Seq::<
                Seq<char>,
            >::empty());
            assert(self.order() + Seq::<Seq<char>>::empty() =~= self.order());
        }
        while i < count
            invariant
                i <= count,
                count == seen.keys.len(),
                seen.wf(),
                self.wf(),
                self@ == merged(old(self)@, leading_part(seen@, seen.order(), i as int)),
                self.order() == old(self).order() + seen.order().subrange(0, i as int).filter(
                    absent_from(old(self)@),
                ),
            decreases count - i,
        {
            let key = seen.keys[i].as_str();
            let ghost order = seen.order();
            let ghost part = leading_part(seen@, order, i as int);
            proof {
                assert(order[i as int] == key@);
                assert(order.contains(key@));
                assert(!order.subrange(0, i as int).contains(key@)) by {
                    if order.subrange(0, i as int).contains(key@) {
                        let j = choose|j: int|
                            0 <= j < i && order.subrange(0, i as int)[j] == key@;
                        assert(order[j] == order[i as int]);
                    }
                }
            }
            match seen.map.get(key) {
                Some(record) => {
                    self.merge_record(record);
                    proof {
                        assert(record@.identifier == key@);
                        assert(leading_part(seen@, order, i + 1) =~= part.insert(key@, record@)) by {
                            assert(order.subrange(0, i + 1) =~= order.subrange(0, i as int).push(
                                key@,
                            ));
                            assert forall|k: Seq<char>|
                                order.subrange(0, i + 1).contains(k) <==> (order.subrange(
                                    0,
                                    i as int,
                                ).contains(k) || k == key@) by {
                                if order.subrange(0, i as int).contains(k) {
                                    let j = choose|j: int|
                                        0 <= j < i && order.subrange(0, i as int)[j] == k;
                                    assert(order.subrange(0, i + 1)[j] == k);
                                }
                                if k == key@ {
                                    assert(order.subrange(0, i + 1)[i as int] == k);
                                }
                            }
                        }
                        lemma_merged_step(old(self)@, part, record@);
                        let fresh = absent_from(old(self)@);
                        let head = order.subrange(0, i as int);
                        assert(order.subrange(0, i + 1).drop_last() =~= head);
                        assert(order.subrange(0, i + 1).filter(fresh) == if fresh(key@) {
                            head.filter(fresh).push(key@)
                        } else {
                            head.filter(fresh)
                        }) by {
                            reveal(Seq::filter);
                        }
                        assert(!part.contains_key(key@));
                        if fresh(key@) {
                            assert(self.order() =~= old(self).order() + head.filter(fresh).push(
                                key@,
                            ));
                        }
                    }
                },
                None => {
                    assert(false);
                },
            }
            i += 1;
        }
        proof {
            assert(seen.order().subrange(0, count as int) =~= seen.order());
            assert(leading_part(seen@, seen.order(), count as int) =~= seen@);
        }
    }

    /// The records, in the order in which their identifiers first came in.
    pub fn records(&self) -> (all: Vec<Record>)
        requires
            self.wf(),
        ensures
            all.len() == self.order().len(),
            forall|i: int|
                0 <= i < all.len() ==> (#[trigger] all[i])@ == self@[self.order()[i]]
                    && all[i]@.identifier == self.order()[i],
    {
        let mut all: Vec<Record> = Vec::new();
        let mut i: usize = 0;
        while i < self.keys.len()
            invariant
                i <= self.keys.len(),
                self.wf(),
                all.len() == i,
                forall|j: int|
                    0 <= j < i ==> (#[trigger] all[j])@ == self@[self.order()[j]]
                        && all[j]@.identifier == self.order()[j],
            decreases self.keys.len() - i,
        {
            let key = self.keys[i].as_str();
            assert(self.order()[i as int] == key@);
            assert(self.order().contains(key@));
            match self.map.get(key) {
                Some(record) => {
                    all.push(record.clone());
                },
                None => {
                    assert(false);
                },
            }
            i += 1;
        }
        all
    }
}

} // verus!
