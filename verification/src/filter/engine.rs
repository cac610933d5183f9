//! The filter engine: evaluates criteria over every indexed message of a
//! file and returns the surviving positions in ascending order.

use vstd::prelude::*;

use crate::codec::{lemma_message_model, spec_model_of};
use crate::dlt_file::DltFile;
use crate::filter::criteria::{spec_criteria_matches, spec_empty_criteria, CriteriaModel,
    FilterCriteria};

verus! {

/// Whether a position sequence holds the value `i`.
pub open spec fn seq_has(s: Seq<usize>, i: int) -> bool {
    exists|k: int| 0 <= k < s.len() && s[k] == i
}

/// Membership in a pushed sequence: the old members, plus the new value.
pub proof fn lemma_seq_has_push(s: Seq<usize>, x: usize, i: int)
    ensures
        seq_has(s.push(x), i) <==> (seq_has(s, i) || x == i),
{
    if seq_has(s, i) {
        let k = choose|k: int| 0 <= k < s.len() && s[k] == i;
        assert(s.push(x)[k] == i);
    }
    if x == i {
        assert(s.push(x)[s.len() as int] == i);
    }
    if seq_has(s.push(x), i) && x != i {
        let k = choose|k: int| 0 <= k < s.push(x).len() && s.push(x)[k] == i;
        assert(s[k] == i);
    }
}

/// Whether a position sequence is strictly ascending.
pub open spec fn strictly_ascending(s: Seq<usize>) -> bool {
    forall|k: int| 0 <= k && k + 1 < s.len() ==> #[trigger] s[k] < s[k + 1]
}

/// Whether the filter keeps position `i` of a file: with no constraints
/// every position survives; otherwise the message must parse and satisfy
/// the criteria.
pub open spec fn spec_filter_accepts(f: DltFile, c: CriteriaModel, i: int) -> bool {
    if c == spec_empty_criteria() {
        true
    } else {
        f.spec_msg_ok(i) && spec_criteria_matches(c, f.spec_msg(i))
    }
}

/// Whether `s` is exactly the ascending sequence of positions of `f`
/// that the criteria keep.
pub open spec fn spec_filter_result(f: DltFile, c: CriteriaModel, s: Seq<usize>) -> bool {
    &&& strictly_ascending(s)
    &&& forall|k: int|
        0 <= k < s.len() ==> #[trigger] s[k] < f.spec_count() && spec_filter_accepts(
            f,
            c,
            s[k] as int,
        )
    &&& forall|i: int| 0 <= i < f.spec_count() && spec_filter_accepts(f, c, i) ==> seq_has(s, i)
}

/// A strictly ascending sequence grows across any two indices.
proof fn lemma_ascending_at(s: Seq<usize>, k: int, l: int)
    requires
        strictly_ascending(s),
        0 <= k <= l < s.len(),
    ensures
        s[k] <= s[l],
    decreases l - k,
{
    if k < l {
        lemma_ascending_at(s, k, l - 1);
    }
}

/// In a strictly ascending sequence, the entry at `k` is at least `k`.
proof fn lemma_ascending_lower(s: Seq<usize>, k: int)
    requires
        strictly_ascending(s),
        0 <= k < s.len(),
    ensures
        s[k] >= k,
    decreases k,
{
    if k > 0 {
        lemma_ascending_lower(s, k - 1);
    }
}

/// Two strictly ascending position sequences with the same members are
/// the same sequence.
pub proof fn lemma_ascending_unique(s1: Seq<usize>, s2: Seq<usize>)
    requires
        strictly_ascending(s1),
        strictly_ascending(s2),
        forall|i: int| seq_has(s1, i) <==> seq_has(s2, i),
    ensures
        s1 == s2,
    decreases s1.len(),
{
    if s1.len() == 0 {
        if s2.len() > 0 {
            assert(seq_has(s2, s2[0] as int));
            let k = choose|k: int| 0 <= k < s1.len() && s1[k] == s2[0] as int;
            assert(false);
        }
        assert(s1 =~= s2);
    } else {
        assert(seq_has(s1, s1[0] as int));
        if s2.len() == 0 {
            let k = choose|k: int| 0 <= k < s2.len() && s2[k] == s1[0] as int;
            assert(false);
        }
        assert(s1[0] == s2[0]) by {
            let k1 = choose|k: int| 0 <= k < s2.len() && s2[k] == s1[0] as int;
            lemma_ascending_at(s2, 0, k1);
            assert(seq_has(s2, s2[0] as int));
            let k2 = choose|k: int| 0 <= k < s1.len() && s1[k] == s2[0] as int;
            lemma_ascending_at(s1, 0, k2);
        }
        let t1 = s1.subrange(1, s1.len() as int);
        let t2 = s2.subrange(1, s2.len() as int);
        assert forall|i: int| seq_has(t1, i) <==> seq_has(t2, i) by {
            lemma_tail_members(s1, i);
            lemma_tail_members(s2, i);
        }
        lemma_ascending_unique(t1, t2);
        assert(s1.len() == s2.len());
        assert forall|j: int| 0 <= j < s1.len() implies s1[j] == s2[j] by {
            if j >= 1 {
                assert(s1[j] == t1[j - 1]);
                assert(s2[j] == t2[j - 1]);
            }
        }
        assert(s1 =~= s2);
    }
}

/// Membership in the tail of a strictly ascending sequence: the members
/// other than the head.
proof fn lemma_tail_members(s: Seq<usize>, i: int)
    requires
        strictly_ascending(s),
        s.len() > 0,
    ensures
        seq_has(s.subrange(1, s.len() as int), i) <==> (seq_has(s, i) && i != s[0] as int),
{
    let t = s.subrange(1, s.len() as int);
    if seq_has(t, i) {
        let k = choose|k: int| 0 <= k < t.len() && t[k] == i;
        assert(s[k + 1] == i);
        lemma_ascending_at(s, 1, k + 1);
        assert(s[0] < s[1]);
        assert(s[0] < s[k + 1]);
    }
    if seq_has(s, i) && i != s[0] as int {
        let k = choose|k: int| 0 <= k < s.len() && s[k] == i;
        assert(k >= 1);
        assert(t[k - 1] == i);
        assert(seq_has(t, i));
    }
}

/// Any two sequences that are each exactly the filter result of the same
/// criteria over the same file are the same sequence: the filter result
/// is uniquely determined.
pub proof fn lemma_filter_result_unique(
    f: DltFile,
    c: CriteriaModel,
    s1: Seq<usize>,
    s2: Seq<usize>,
)
    requires
        spec_filter_result(f, c, s1),
        spec_filter_result(f, c, s2),
    ensures
        s1 == s2,
{
    assert forall|i: int| seq_has(s1, i) <==> seq_has(s2, i) by {
        if seq_has(s1, i) {
            let k = choose|k: int| 0 <= k < s1.len() && s1[k] == i;
        }
        if seq_has(s2, i) {
            let k = choose|k: int| 0 <= k < s2.len() && s2[k] == i;
        }
    }
    lemma_ascending_unique(s1, s2);
}

/// With no constraints the filter keeps everything: the result of empty
/// criteria is exactly the position sequence 0, 1, ... up to the
/// message count.
pub proof fn lemma_empty_filter_all(f: DltFile, s: Seq<usize>)
    requires
        spec_filter_result(f, spec_empty_criteria(), s),
    ensures
        s.len() == f.spec_count(),
        forall|k: int| 0 <= k < s.len() ==> (#[trigger] s[k]) == k,
{
    if f.spec_count() > 0 {
        lemma_empty_filter_prefix(f, s, f.spec_count() - 1);
        assert(s[f.spec_count() - 1] == f.spec_count() - 1);
    }
    if s.len() > f.spec_count() {
        let k = f.spec_count();
        assert(0 <= k < s.len());
        assert(s[k] < f.spec_count());
        lemma_ascending_lower(s, k);
        assert(false);
    }
}

/// Every position below `k + 1` sits at its own index in the result of
/// the empty criteria.
proof fn lemma_empty_filter_prefix(f: DltFile, s: Seq<usize>, k: int)
    requires
        spec_filter_result(f, spec_empty_criteria(), s),
        0 <= k < f.spec_count(),
    ensures
        forall|j: int| 0 <= j <= k ==> j < s.len() && (#[trigger] s[j]) == j,
    decreases k,
{
    if k > 0 {
        lemma_empty_filter_prefix(f, s, k - 1);
    }
    assert(spec_filter_accepts(f, spec_empty_criteria(), k));
    assert(seq_has(s, k));
    let idx = choose|idx: int| 0 <= idx < s.len() && s[idx] == k;
    lemma_ascending_lower(s, idx);
    assert(idx <= k);
    if idx < k {
        assert(s[idx] == idx);
        assert(false);
    }
}

/// Filter engine holding the criteria it evaluates.
pub struct FilterEngine {
    criteria: FilterCriteria,
}

impl FilterEngine {
    /// The content of the held criteria.
    pub closed spec fn spec_criteria(self) -> CriteriaModel {
        self.criteria.spec_view()
    }

    /// An engine over the given criteria.
    pub fn new(criteria: FilterCriteria) -> (r: FilterEngine)
        ensures
            r.spec_criteria() == criteria.spec_view(),
    {
        FilterEngine { criteria }
    }

    /// Evaluates the criteria over every indexed position of a file and
    /// returns the survivors in ascending order.  Messages that fail to
    /// parse are skipped, never aborting the pass; with no constraints
    /// every position survives.
    pub fn apply(&self, file: &DltFile) -> (r: Vec<usize>)
        ensures
            spec_filter_result(*file, self.spec_criteria(), r@),
    {
        let count = file.message_count();
        if self.criteria.is_empty() {
            return all_positions(count);
        }
        let mut out: Vec<usize> = Vec::new();
        let mut i: usize = 0;
        while i < count
            invariant
                i <= count,
                count == file.spec_count(),
                self.spec_criteria() != spec_empty_criteria(),
                strictly_ascending(out@),
                forall|k: int|
                    0 <= k < out@.len() ==> #[trigger] out@[k] < i && spec_filter_accepts(
                        *file,
                        self.spec_criteria(),
                        out@[k] as int,
                    ),
                forall|j: int|
                    0 <= j < i && spec_filter_accepts(*file, self.spec_criteria(), j) ==> seq_has(
                        out@,
                        j,
                    ),
            decreases count - i,
        {
            let ghost prev = out@;
            match file.get_message(i) {
                Ok(message) => {
                    proof {
                        lemma_message_model(message, file.spec_msg_bytes(i as int));
                    }
                    if self.matches(&message) {
                        out.push(i);
                    }
                },
                Err(_) => {},
            }
            proof {
                if spec_filter_accepts(*file, self.spec_criteria(), i as int) {
                    assert(out@[out@.len() - 1] == i);
                    assert(seq_has(out@, i as int));
                }
                assert forall|j: int|
                    0 <= j < i + 1 && spec_filter_accepts(
                        *file,
                        self.spec_criteria(),
                        j,
                    ) implies seq_has(out@, j) by {
                    if j < i {
                        assert(seq_has(prev, j));
                        let k = choose|k: int| 0 <= k < prev.len() && prev[k] == j;
                        assert(out@[k] == j);
                    }
                }
            }
            i = i + 1;
        }
        out
    }

    /// Evaluates the criteria over a list of already-parsed messages and
    /// returns the matching positions in ascending order.
    pub fn apply_to_messages(&self, messages: &Vec<crate::codec::DltMessage>) -> (r: Vec<usize>)
        ensures
            strictly_ascending(r@),
            forall|k: int|
                0 <= k < r@.len() ==> #[trigger] r@[k] < messages@.len()
                    && (self.spec_criteria() == spec_empty_criteria() || spec_criteria_matches(
                    self.spec_criteria(),
                    spec_model_of(messages@[r@[k] as int]),
                )),
            forall|j: int|
                0 <= j < messages@.len() && (self.spec_criteria() == spec_empty_criteria()
                    || spec_criteria_matches(
                    self.spec_criteria(),
                    spec_model_of(messages@[j]),
                )) ==> seq_has(r@, j),
    {
        let count = messages.len();
        if self.criteria.is_empty() {
            return all_positions(count);
        }
        let mut out: Vec<usize> = Vec::new();
        let mut i: usize = 0;
        while i < count
            invariant
                i <= count,
                count == messages@.len(),
                self.spec_criteria() != spec_empty_criteria(),
                strictly_ascending(out@),
                forall|k: int|
                    0 <= k < out@.len() ==> #[trigger] out@[k] < i && spec_criteria_matches(
                        self.spec_criteria(),
                        spec_model_of(messages@[out@[k] as int]),
                    ),
                forall|j: int|
                    0 <= j < i && spec_criteria_matches(
                        self.spec_criteria(),
                        spec_model_of(messages@[j]),
                    ) ==> seq_has(out@, j),
            decreases count - i,
        {
            let ghost prev = out@;
            if self.matches(&messages[i]) {
                out.push(i);
            }
            proof {
                if spec_criteria_matches(self.spec_criteria(), spec_model_of(messages@[i as int])) {
                    assert(out@[out@.len() - 1] == i);
                    assert(seq_has(out@, i as int));
                }
                assert forall|j: int|
                    0 <= j < i + 1 && spec_criteria_matches(
                        self.spec_criteria(),
                        spec_model_of(messages@[j]),
                    ) implies seq_has(out@, j) by {
                    if j < i {
                        assert(seq_has(prev, j));
                        let k = choose|k: int| 0 <= k < prev.len() && prev[k] == j;
                        assert(out@[k] == j);
                    }
                }
            }
            i = i + 1;
        }
        out
    }

    /// Whether a message satisfies the held criteria.
    pub fn matches(&self, message: &crate::codec::DltMessage) -> (r: bool)
        ensures
            r == spec_criteria_matches(self.spec_criteria(), spec_model_of(*message)),
    {
        self.criteria.matches(message)
    }

    /// The held criteria.
    pub fn criteria(&self) -> (r: &FilterCriteria)
        ensures
            r.spec_view() == self.spec_criteria(),
    {
        &self.criteria
    }

    /// Replaces the held criteria.
    pub fn set_criteria(&mut self, criteria: FilterCriteria)
        ensures
            final(self).spec_criteria() == criteria.spec_view(),
    {
        self.criteria = criteria;
    }

    /// Removes every constraint from the held criteria.
    pub fn clear(&mut self)
        ensures
            final(self).spec_criteria() == spec_empty_criteria(),
    {
        self.criteria.clear();
    }
}

/// The ascending vector `0..count`.
fn all_positions(count: usize) -> (r: Vec<usize>)
    ensures
        r@.len() == count,
        forall|k: int| 0 <= k < count ==> #[trigger] r@[k] == k,
        strictly_ascending(r@),
        forall|i: int| 0 <= i < count ==> seq_has(r@, i),
{
    let mut out: Vec<usize> = Vec::new();
    let mut i: usize = 0;
    while i < count
        invariant
            i <= count,
            out@.len() == i,
            forall|k: int| 0 <= k < i ==> #[trigger] out@[k] == k,
        decreases count - i,
    {
        out.push(i);
        i = i + 1;
    }
    proof {
        assert forall|i: int| 0 <= i < count implies seq_has(out@, i) by {
            assert(out@[i] == i);
        }
    }
    out
}

} // verus!
