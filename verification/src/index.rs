//! Secondary indices: for each structured field, a mapping from field
//! value to the ascending list of message positions carrying it.
//!
//! The maps are association lists with distinct keys; positions are
//! appended in one pass over the file, so every list is ascending by
//! construction.  The indices are an accelerator: filtering never
//! depends on them.

use vstd::prelude::*;

use crate::codec::{lemma_message_model, LogLevel};
use crate::dlt_file::DltFile;
use crate::error::Error;
use crate::filter::engine::{lemma_seq_has_push, seq_has, strictly_ascending};
use crate::text::str_eq;

verus! {

/// Whether a string-keyed association list holds a key.
pub open spec fn assoc_has_key(entries: Seq<(String, Vec<usize>)>, key: Seq<char>) -> bool {
    exists|k: int| 0 <= k < entries.len() && (#[trigger] entries[k].0)@ == key
}

/// The position list under a key, empty for an unknown key.
pub open spec fn assoc_lookup(entries: Seq<(String, Vec<usize>)>, key: Seq<char>) -> Seq<usize> {
    if assoc_has_key(entries, key) {
        let k = choose|k: int| 0 <= k < entries.len() && (#[trigger] entries[k].0)@ == key;
        entries[k].1@
    } else {
        Seq::empty()
    }
}

/// Whether the keys of a string-keyed association list are distinct.
pub open spec fn assoc_keys_distinct(entries: Seq<(String, Vec<usize>)>) -> bool {
    forall|i: int, j: int|
        0 <= i < j < entries.len() ==> (#[trigger] entries[i].0)@ != (#[trigger] entries[j].0)@
}

/// Every list of the association list is strictly ascending with all
/// positions below `bound`.
pub open spec fn assoc_wf(entries: Seq<(String, Vec<usize>)>, bound: int) -> bool {
    &&& assoc_keys_distinct(entries)
    &&& forall|k: int| 0 <= k < entries.len() ==> strictly_ascending((#[trigger] entries[k].1)@)
    &&& forall|k: int, j: int|
        0 <= k < entries.len() && 0 <= j < entries[k].1@.len() ==> (#[trigger] entries[k].1@[j])
            < bound
}

/// With distinct keys, the list looked up under an entry's key is that
/// entry's list.
proof fn lemma_lookup_entry(entries: Seq<(String, Vec<usize>)>, k: int)
    requires
        assoc_keys_distinct(entries),
        0 <= k < entries.len(),
    ensures
        assoc_lookup(entries, entries[k].0@) == entries[k].1@,
{
    assert(assoc_has_key(entries, entries[k].0@));
    let k0 = choose|k0: int|
        0 <= k0 < entries.len() && (#[trigger] entries[k0].0)@ == entries[k].0@;
    assert(k0 == k);
}

/// Whether a level-keyed association list holds a key.
pub open spec fn level_has_key(entries: Seq<(LogLevel, Vec<usize>)>, key: LogLevel) -> bool {
    exists|k: int| 0 <= k < entries.len() && (#[trigger] entries[k].0) == key
}

/// The position list under a level, empty for an unknown level.
pub open spec fn level_lookup(entries: Seq<(LogLevel, Vec<usize>)>, key: LogLevel) -> Seq<usize> {
    if level_has_key(entries, key) {
        let k = choose|k: int| 0 <= k < entries.len() && (#[trigger] entries[k].0) == key;
        entries[k].1@
    } else {
        Seq::empty()
    }
}

/// Whether the keys of a level-keyed association list are distinct.
pub open spec fn level_keys_distinct(entries: Seq<(LogLevel, Vec<usize>)>) -> bool {
    forall|i: int, j: int|
        0 <= i < j < entries.len() ==> (#[trigger] entries[i].0) != (#[trigger] entries[j].0)
}

/// Every list of the level-keyed association list is strictly ascending
/// with all positions below `bound`.
pub open spec fn level_wf(entries: Seq<(LogLevel, Vec<usize>)>, bound: int) -> bool {
    &&& level_keys_distinct(entries)
    &&& forall|k: int| 0 <= k < entries.len() ==> strictly_ascending((#[trigger] entries[k].1)@)
    &&& forall|k: int, j: int|
        0 <= k < entries.len() && 0 <= j < entries[k].1@.len() ==> (#[trigger] entries[k].1@[j])
            < bound
}

/// With distinct keys, the list looked up under an entry's level is that
/// entry's list.
proof fn lemma_level_lookup_entry(entries: Seq<(LogLevel, Vec<usize>)>, k: int)
    requires
        level_keys_distinct(entries),
        0 <= k < entries.len(),
    ensures
        level_lookup(entries, entries[k].0) == entries[k].1@,
{
    assert(level_has_key(entries, entries[k].0));
    let k0 = choose|k0: int| 0 <= k0 < entries.len() && (#[trigger] entries[k0].0) == entries[k].0;
    assert(k0 == k);
}

/// Appends `pos` to the list under `key`, creating the entry if absent.
fn insert_position(entries: &mut Vec<(String, Vec<usize>)>, key: String, pos: usize)
    requires
        assoc_wf(old(entries)@, pos as int),
    ensures
        assoc_wf(final(entries)@, pos + 1),
        forall|key2: Seq<char>|
            #[trigger] assoc_lookup(final(entries)@, key2) == (if key2 == key@ {
                assoc_lookup(old(entries)@, key2).push(pos)
            } else {
                assoc_lookup(old(entries)@, key2)
            }),
{
    let ghost orig = entries@;
    let n = entries.len();
    let mut k: usize = 0;
    while k < n
        invariant
            k <= n,
            n == entries@.len(),
            entries@ == orig,
            orig == old(entries)@,
            assoc_wf(orig, pos as int),
            forall|k2: int| 0 <= k2 < k ==> (#[trigger] entries@[k2].0)@ != key@,
        decreases n - k,
    {
        if str_eq(entries[k].0.as_str(), key.as_str()) {
            entries[k].1.push(pos);
            proof {
                assert(entries@ =~= orig.update(
                    k as int,
                    (orig[k as int].0, entries@[k as int].1),
                ));
                assert(entries@[k as int].1@ == orig[k as int].1@.push(pos));
                assert(assoc_keys_distinct(entries@));
                assert forall|key2: Seq<char>| #[trigger] assoc_lookup(entries@, key2) == (if key2
                    == key@ {
                    assoc_lookup(orig, key2).push(pos)
                } else {
                    assoc_lookup(orig, key2)
                }) by {
                    if key2 == key@ {
                        lemma_lookup_entry(orig, k as int);
                        lemma_lookup_entry(entries@, k as int);
                    } else {
                        if assoc_has_key(orig, key2) {
                            let k2 = choose|k2: int|
                                0 <= k2 < orig.len() && (#[trigger] orig[k2].0)@ == key2;
                            assert((entries@[k2].0)@ == key2);
                            lemma_lookup_entry(orig, k2);
                            lemma_lookup_entry(entries@, k2);
                        } else {
                            assert(!assoc_has_key(entries@, key2));
                        }
                    }
                }
                assert(assoc_wf(entries@, pos + 1));
            }
            return ;
        }
        k = k + 1;
    }
    entries.push((key, vec![pos]));
    proof {
        let last = entries@.len() - 1;
        assert(entries@[last].0@ == key@);
        assert(entries@[last].1@ =~= Seq::<usize>::empty().push(pos));
        assert(assoc_keys_distinct(entries@)) by {
            assert(forall|k2: int| 0 <= k2 < last ==> (#[trigger] entries@[k2].0)@ != key@);
        }
        assert forall|key2: Seq<char>| #[trigger] assoc_lookup(entries@, key2) == (if key2 == key@ {
            assoc_lookup(orig, key2).push(pos)
        } else {
            assoc_lookup(orig, key2)
        }) by {
            if key2 == key@ {
                assert(!assoc_has_key(orig, key2));
                lemma_lookup_entry(entries@, last);
            } else {
                if assoc_has_key(orig, key2) {
                    let k2 = choose|k2: int|
                        0 <= k2 < orig.len() && (#[trigger] orig[k2].0)@ == key2;
                    assert((entries@[k2].0)@ == key2);
                    lemma_lookup_entry(orig, k2);
                    lemma_lookup_entry(entries@, k2);
                } else {
                    assert(!assoc_has_key(entries@, key2)) by {
                        assert forall|k2: int|
                            0 <= k2 < entries@.len() implies (#[trigger] entries@[k2].0)@
                            != key2 by {
                            if k2 < last {
                                assert(entries@[k2] == orig[k2]);
                            }
                        }
                    }
                }
            }
        }
        assert(assoc_wf(entries@, pos + 1));
    }
}

/// Appends `pos` to the list under `level`, creating the entry if
/// absent.
fn insert_level_position(entries: &mut Vec<(LogLevel, Vec<usize>)>, level: LogLevel, pos: usize)
    requires
        level_wf(old(entries)@, pos as int),
    ensures
        level_wf(final(entries)@, pos + 1),
        forall|key2: LogLevel|
            #[trigger] level_lookup(final(entries)@, key2) == (if key2 == level {
                level_lookup(old(entries)@, key2).push(pos)
            } else {
                level_lookup(old(entries)@, key2)
            }),
{
    let ghost orig = entries@;
    let n = entries.len();
    let mut k: usize = 0;
    while k < n
        invariant
            k <= n,
            n == entries@.len(),
            entries@ == orig,
            orig == old(entries)@,
            level_wf(orig, pos as int),
            forall|k2: int| 0 <= k2 < k ==> (#[trigger] entries@[k2].0) != level,
        decreases n - k,
    {
        if entries[k].0 == level {
            entries[k].1.push(pos);
            proof {
                assert(entries@ =~= orig.update(
                    k as int,
                    (orig[k as int].0, entries@[k as int].1),
                ));
                assert(entries@[k as int].1@ == orig[k as int].1@.push(pos));
                assert(level_keys_distinct(entries@));
                assert forall|key2: LogLevel| #[trigger] level_lookup(entries@, key2) == (if key2
                    == level {
                    level_lookup(orig, key2).push(pos)
                } else {
                    level_lookup(orig, key2)
                }) by {
                    if key2 == level {
                        lemma_level_lookup_entry(orig, k as int);
                        lemma_level_lookup_entry(entries@, k as int);
                    } else {
                        if level_has_key(orig, key2) {
                            let k2 = choose|k2: int|
                                0 <= k2 < orig.len() && (#[trigger] orig[k2].0) == key2;
                            assert((entries@[k2].0) == key2);
                            lemma_level_lookup_entry(orig, k2);
                            lemma_level_lookup_entry(entries@, k2);
                        } else {
                            assert(!level_has_key(entries@, key2));
                        }
                    }
                }
                assert(level_wf(entries@, pos + 1));
            }
            return ;
        }
        k = k + 1;
    }
    entries.push((level, vec![pos]));
    proof {
        let last = entries@.len() - 1;
        assert(entries@[last].0 == level);
        assert(entries@[last].1@ =~= Seq::<usize>::empty().push(pos));
        assert(level_keys_distinct(entries@)) by {
            assert(forall|k2: int| 0 <= k2 < last ==> (#[trigger] entries@[k2].0) != level);
        }
        assert forall|key2: LogLevel| #[trigger] level_lookup(entries@, key2) == (if key2 == level {
            level_lookup(orig, key2).push(pos)
        } else {
            level_lookup(orig, key2)
        }) by {
            if key2 == level {
                assert(!level_has_key(orig, key2));
                lemma_level_lookup_entry(entries@, last);
            } else {
                if level_has_key(orig, key2) {
                    let k2 = choose|k2: int|
                        0 <= k2 < orig.len() && (#[trigger] orig[k2].0) == key2;
                    assert((entries@[k2].0) == key2);
                    lemma_level_lookup_entry(orig, k2);
                    lemma_level_lookup_entry(entries@, k2);
                } else {
                    assert(!level_has_key(entries@, key2)) by {
                        assert forall|k2: int|
                            0 <= k2 < entries@.len() implies (#[trigger] entries@[k2].0)
                            != key2 by {
                            if k2 < last {
                                assert(entries@[k2] == orig[k2]);
                            }
                        }
                    }
                }
            }
        }
        assert(level_wf(entries@, pos + 1));
    }
}

/// Secondary indices over one file: field value to ascending positions.
pub struct Index {
    app_id_index: Vec<(String, Vec<usize>)>,
    context_id_index: Vec<(String, Vec<usize>)>,
    log_level_index: Vec<(LogLevel, Vec<usize>)>,
    ecu_id_index: Vec<(String, Vec<usize>)>,
}

impl Index {
    /// The keys of every map are distinct.
    #[verifier::type_invariant]
    spec fn wf(self) -> bool {
        &&& assoc_keys_distinct(self.app_id_index@)
        &&& assoc_keys_distinct(self.context_id_index@)
        &&& level_keys_distinct(self.log_level_index@)
        &&& assoc_keys_distinct(self.ecu_id_index@)
    }

    /// The keys of the application-identifier map, in entry order.
    pub closed spec fn spec_app_keys(self) -> Seq<Seq<char>> {
        self.app_id_index@.map_values(|e: (String, Vec<usize>)| e.0@)
    }

    /// The keys of the context-identifier map, in entry order.
    pub closed spec fn spec_context_keys(self) -> Seq<Seq<char>> {
        self.context_id_index@.map_values(|e: (String, Vec<usize>)| e.0@)
    }

    /// The keys of the ECU-identifier map, in entry order.
    pub closed spec fn spec_ecu_keys(self) -> Seq<Seq<char>> {
        self.ecu_id_index@.map_values(|e: (String, Vec<usize>)| e.0@)
    }

    /// The positions indexed under an application identifier.
    pub closed spec fn spec_app_positions(self, key: Seq<char>) -> Seq<usize> {
        assoc_lookup(self.app_id_index@, key)
    }

    /// The positions indexed under a context identifier.
    pub closed spec fn spec_context_positions(self, key: Seq<char>) -> Seq<usize> {
        assoc_lookup(self.context_id_index@, key)
    }

    /// The positions indexed under a log level.
    pub closed spec fn spec_level_positions(self, key: LogLevel) -> Seq<usize> {
        level_lookup(self.log_level_index@, key)
    }

    /// The positions indexed under an ECU identifier.
    pub closed spec fn spec_ecu_positions(self, key: Seq<char>) -> Seq<usize> {
        assoc_lookup(self.ecu_id_index@, key)
    }

    /// Completeness against a file: every position list is ascending, and
    /// holds exactly the positions whose message carries the key.
    pub open spec fn spec_complete(self, f: DltFile) -> bool {
        &&& forall|key: Seq<char>| strictly_ascending(#[trigger] self.spec_app_positions(key))
        &&& forall|key: Seq<char>| strictly_ascending(#[trigger] self.spec_context_positions(key))
        &&& forall|key: LogLevel| strictly_ascending(#[trigger] self.spec_level_positions(key))
        &&& forall|key: Seq<char>| strictly_ascending(#[trigger] self.spec_ecu_positions(key))
        &&& forall|key: Seq<char>, i: int|
            #[trigger] seq_has(self.spec_app_positions(key), i) <==> 0 <= i < f.spec_count()
                && f.spec_msg_ok(i) && f.spec_msg(i).app_id == Some(key)
        &&& forall|key: Seq<char>, i: int|
            #[trigger] seq_has(self.spec_context_positions(key), i) <==> 0 <= i < f.spec_count()
                && f.spec_msg_ok(i) && f.spec_msg(i).context_id == Some(key)
        &&& forall|key: LogLevel, i: int|
            #[trigger] seq_has(self.spec_level_positions(key), i) <==> 0 <= i < f.spec_count()
                && f.spec_msg_ok(i) && f.spec_msg(i).log_level == Some(key)
        &&& forall|key: Seq<char>, i: int|
            #[trigger] seq_has(self.spec_ecu_positions(key), i) <==> 0 <= i < f.spec_count()
                && f.spec_msg_ok(i) && f.spec_msg(i).ecu_id == key
    }

    /// Builds the secondary indices of a file in one pass over its
    /// messages.  Fails with the position of the first message that does
    /// not parse; succeeds exactly when every message parses.
    pub fn new(file: &DltFile) -> (r: Result<Index, Error>)
        ensures
            r is Ok <==> forall|i: int|
                0 <= i < file.spec_count() ==> #[trigger] file.spec_msg_ok(i),
            r matches Ok(ix) ==> ix.spec_complete(*file),
            r matches Err(e) ==> (e matches Error::Format { index } && index
                < file.spec_count() && !file.spec_msg_ok(index as int) && forall|j: int|
                0 <= j < index ==> #[trigger] file.spec_msg_ok(j)),
    {
        let count = file.message_count();
        let mut app_id_index: Vec<(String, Vec<usize>)> = Vec::new();
        let mut context_id_index: Vec<(String, Vec<usize>)> = Vec::new();
        let mut log_level_index: Vec<(LogLevel, Vec<usize>)> = Vec::new();
        let mut ecu_id_index: Vec<(String, Vec<usize>)> = Vec::new();
        let mut i: usize = 0;
        while i < count
            invariant
                i <= count,
                count == file.spec_count(),
                assoc_wf(app_id_index@, i as int),
                assoc_wf(context_id_index@, i as int),
                level_wf(log_level_index@, i as int),
                assoc_wf(ecu_id_index@, i as int),
                forall|j: int| 0 <= j < i ==> #[trigger] file.spec_msg_ok(j),
                forall|key: Seq<char>, j: int|
                    #[trigger] seq_has(assoc_lookup(app_id_index@, key), j) <==> 0 <= j < i
                        && file.spec_msg(j).app_id == Some(key),
                forall|key: Seq<char>, j: int|
                    #[trigger] seq_has(assoc_lookup(context_id_index@, key), j) <==> 0 <= j < i
                        && file.spec_msg(j).context_id == Some(key),
                forall|key: LogLevel, j: int|
                    #[trigger] seq_has(level_lookup(log_level_index@, key), j) <==> 0 <= j < i
                        && file.spec_msg(j).log_level == Some(key),
                forall|key: Seq<char>, j: int|
                    #[trigger] seq_has(assoc_lookup(ecu_id_index@, key), j) <==> 0 <= j < i
                        && file.spec_msg(j).ecu_id == key,
            decreases count - i,
        {
            let message = match file.get_message(i) {
                Ok(m) => m,
                Err(_) => {
                    assert(!file.spec_msg_ok(i as int));
                    return Err(Error::Format { index: i });
                },
            };
            proof {
                lemma_message_model(message, file.spec_msg_bytes(i as int));
            }
            let ghost model = file.spec_msg(i as int);
            let ghost apps0 = app_id_index@;
            let ghost ctxs0 = context_id_index@;
            let ghost levels0 = log_level_index@;
            let ghost ecus0 = ecu_id_index@;

            let ecu_id = message.ecu_id();
            insert_position(&mut ecu_id_index, ecu_id, i);
            if let Some(app_id) = message.app_id() {
                insert_position(&mut app_id_index, app_id, i);
            }
            if let Some(context_id) = message.context_id() {
                insert_position(&mut context_id_index, context_id, i);
            }
            if let Some(log_level) = message.log_level() {
                insert_level_position(&mut log_level_index, log_level, i);
            }
            proof {
                assert forall|key: Seq<char>, j: int|
                    #[trigger] seq_has(assoc_lookup(ecu_id_index@, key), j) <==> (0 <= j < i + 1
                        && file.spec_msg(j).ecu_id == key) by {
                    lemma_seq_has_push(assoc_lookup(ecus0, key), i, j);
                }
                assert forall|key: Seq<char>, j: int|
                    #[trigger] seq_has(assoc_lookup(app_id_index@, key), j) <==> (0 <= j < i + 1
                        && file.spec_msg(j).app_id == Some(key)) by {
                    if model.app_id matches Some(a) && a == key {
                        lemma_seq_has_push(assoc_lookup(apps0, key), i, j);
                    }
                }
                assert forall|key: Seq<char>, j: int|
                    #[trigger] seq_has(assoc_lookup(context_id_index@, key), j) <==> (0 <= j < i + 1
                        && file.spec_msg(j).context_id == Some(key)) by {
                    if model.context_id matches Some(a) && a == key {
                        lemma_seq_has_push(assoc_lookup(ctxs0, key), i, j);
                    }
                }
                assert forall|key: LogLevel, j: int|
                    #[trigger] seq_has(level_lookup(log_level_index@, key), j) <==> (0 <= j < i + 1
                        && file.spec_msg(j).log_level == Some(key)) by {
                    if model.log_level matches Some(a) && a == key {
                        lemma_seq_has_push(level_lookup(levels0, key), i, j);
                    }
                }
            }
            i = i + 1;
        }
        let ix = Index { app_id_index, context_id_index, log_level_index, ecu_id_index };
        proof {
            assert forall|key: Seq<char>| strictly_ascending(
                #[trigger] ix.spec_app_positions(key),
            ) by {
                lemma_lookup_ascending(ix.app_id_index@, key, count as int);
            }
            assert forall|key: Seq<char>| strictly_ascending(
                #[trigger] ix.spec_context_positions(key),
            ) by {
                lemma_lookup_ascending(ix.context_id_index@, key, count as int);
            }
            assert forall|key: LogLevel| strictly_ascending(
                #[trigger] ix.spec_level_positions(key),
            ) by {
                lemma_level_lookup_ascending(ix.log_level_index@, key, count as int);
            }
            assert forall|key: Seq<char>| strictly_ascending(
                #[trigger] ix.spec_ecu_positions(key),
            ) by {
                lemma_lookup_ascending(ix.ecu_id_index@, key, count as int);
            }
        }
        Ok(ix)
    }

    /// All application identifiers seen in the file.
    pub fn app_ids(&self) -> (r: Vec<String>)
        ensures
            r@.len() == self.spec_app_keys().len(),
            forall|k: int| 0 <= k < r@.len() ==> (#[trigger] r@[k])@ == self.spec_app_keys()[k],
    {
        collect_keys(&self.app_id_index)
    }

    /// All context identifiers seen in the file.
    pub fn context_ids(&self) -> (r: Vec<String>)
        ensures
            r@.len() == self.spec_context_keys().len(),
            forall|k: int| 0 <= k < r@.len() ==> (#[trigger] r@[k])@ == self.spec_context_keys()[k],
    {
        collect_keys(&self.context_id_index)
    }

    /// All ECU identifiers seen in the file.
    pub fn ecu_ids(&self) -> (r: Vec<String>)
        ensures
            r@.len() == self.spec_ecu_keys().len(),
            forall|k: int| 0 <= k < r@.len() ==> (#[trigger] r@[k])@ == self.spec_ecu_keys()[k],
    {
        collect_keys(&self.ecu_id_index)
    }

    /// The ascending positions of the messages carrying an application
    /// identifier; empty for an unknown identifier.
    pub fn messages_by_app_id(&self, app_id: &str) -> (r: Vec<usize>)
        ensures
            r@ == self.spec_app_positions(app_id@),
    {
        proof {
            use_type_invariant(&*self);
        }
        lookup_positions(&self.app_id_index, app_id)
    }

    /// The ascending positions of the messages carrying a context
    /// identifier; empty for an unknown identifier.
    pub fn messages_by_context_id(&self, context_id: &str) -> (r: Vec<usize>)
        ensures
            r@ == self.spec_context_positions(context_id@),
    {
        proof {
            use_type_invariant(&*self);
        }
        lookup_positions(&self.context_id_index, context_id)
    }

    /// The ascending positions of the messages carrying a log level;
    /// empty for an unseen level.
    pub fn messages_by_log_level(&self, log_level: LogLevel) -> (r: Vec<usize>)
        ensures
            r@ == self.spec_level_positions(log_level),
    {
        proof {
            use_type_invariant(&*self);
        }
        let n = self.log_level_index.len();
        let mut k: usize = 0;
        while k < n
            invariant
                k <= n,
                n == self.log_level_index@.len(),
                level_keys_distinct(self.log_level_index@),
                forall|k2: int| 0 <= k2 < k ==> (#[trigger] self.log_level_index@[k2].0)
                    != log_level,
            decreases n - k,
        {
            if self.log_level_index[k].0 == log_level {
                proof {
                    lemma_level_lookup_entry(self.log_level_index@, k as int);
                }
                return clone_positions(&self.log_level_index[k].1);
            }
            k = k + 1;
        }
        assert(!level_has_key(self.log_level_index@, log_level));
        Vec::new()
    }

    /// The ascending positions of the messages carrying an ECU
    /// identifier; empty for an unknown identifier.
    pub fn messages_by_ecu_id(&self, ecu_id: &str) -> (r: Vec<usize>)
        ensures
            r@ == self.spec_ecu_positions(ecu_id@),
    {
        proof {
            use_type_invariant(&*self);
        }
        lookup_positions(&self.ecu_id_index, ecu_id)
    }
}

/// The union property of the application-identifier index: some list
/// holds position `i` exactly when the message there exposes an
/// application identifier (each list being ascending by
/// `spec_complete`).
pub proof fn lemma_app_index_union(ix: Index, f: DltFile)
    requires
        ix.spec_complete(f),
    ensures
        forall|i: int|
            0 <= i < f.spec_count() && #[trigger] f.spec_msg_ok(i) ==> ((exists|key: Seq<char>|
                seq_has(#[trigger] ix.spec_app_positions(key), i)) <==> f.spec_msg(i).app_id
                is Some),
{
    assert forall|i: int| 0 <= i < f.spec_count() && #[trigger] f.spec_msg_ok(i) implies ((exists|
        key: Seq<char>,
    |
        seq_has(#[trigger] ix.spec_app_positions(key), i)) <==> f.spec_msg(i).app_id is Some) by {
        if f.spec_msg(i).app_id is Some {
            let a = f.spec_msg(i).app_id->Some_0;
            assert(seq_has(ix.spec_app_positions(a), i));
        }
        if exists|key: Seq<char>| seq_has(#[trigger] ix.spec_app_positions(key), i) {
            let key = choose|key: Seq<char>| seq_has(#[trigger] ix.spec_app_positions(key), i);
            assert(f.spec_msg(i).app_id == Some(key));
        }
    }
}

/// The lists under every entry's key are ascending when the entry lists
/// are.
proof fn lemma_lookup_ascending(entries: Seq<(String, Vec<usize>)>, key: Seq<char>, bound: int)
    requires
        assoc_wf(entries, bound),
    ensures
        strictly_ascending(assoc_lookup(entries, key)),
{
    if assoc_has_key(entries, key) {
        let k = choose|k: int| 0 <= k < entries.len() && (#[trigger] entries[k].0)@ == key;
        assert(strictly_ascending(entries[k].1@));
    }
}

/// The lists under every level are ascending when the entry lists are.
proof fn lemma_level_lookup_ascending(entries: Seq<(LogLevel, Vec<usize>)>, key: LogLevel, bound: int)
    requires
        level_wf(entries, bound),
    ensures
        strictly_ascending(level_lookup(entries, key)),
{
    if level_has_key(entries, key) {
        let k = choose|k: int| 0 <= k < entries.len() && (#[trigger] entries[k].0) == key;
        assert(strictly_ascending(entries[k].1@));
    }
}

/// The keys of a string-keyed association list, in entry order.
fn collect_keys(entries: &Vec<(String, Vec<usize>)>) -> (r: Vec<String>)
    ensures
        r@.len() == entries@.len(),
        forall|k: int| 0 <= k < r@.len() ==> (#[trigger] r@[k])@ == entries@[k].0@,
{
    let n = entries.len();
    let mut out: Vec<String> = Vec::new();
    let mut k: usize = 0;
    while k < n
        invariant
            k <= n,
            n == entries@.len(),
            out@.len() == k,
            forall|k2: int| 0 <= k2 < k ==> (#[trigger] out@[k2])@ == entries@[k2].0@,
        decreases n - k,
    {
        out.push(entries[k].0.clone());
        k = k + 1;
    }
    out
}

/// The list under a key, cloned; empty for an unknown key.
fn lookup_positions(entries: &Vec<(String, Vec<usize>)>, key: &str) -> (r: Vec<usize>)
    requires
        assoc_keys_distinct(entries@),
    ensures
        r@ == assoc_lookup(entries@, key@),
{
    let n = entries.len();
    let mut k: usize = 0;
    while k < n
        invariant
            k <= n,
            n == entries@.len(),
            assoc_keys_distinct(entries@),
            forall|k2: int| 0 <= k2 < k ==> (#[trigger] entries@[k2].0)@ != key@,
        decreases n - k,
    {
        if str_eq(entries[k].0.as_str(), key) {
            proof {
                lemma_lookup_entry(entries@, k as int);
            }
            return clone_positions(&entries[k].1);
        }
        k = k + 1;
    }
    assert(!assoc_has_key(entries@, key@));
    Vec::new()
}

/// A copy of a position list.
fn clone_positions(v: &Vec<usize>) -> (r: Vec<usize>)
    ensures
        r@ == v@,
{
    let n = v.len();
    let mut out: Vec<usize> = Vec::new();
    let mut k: usize = 0;
    while k < n
        invariant
            k <= n,
            n == v@.len(),
            out@ =~= v@.take(k as int),
        decreases n - k,
    {
        out.push(v[k]);
        k = k + 1;
    }
    proof {
        assert(v@.take(n as int) =~= v@);
    }
    out
}

} // verus!
