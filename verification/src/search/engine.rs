//! The search engine: a compiled pattern, its source string, and the
//! case-sensitivity mode, with search passes over files and position
//! lists.

use vstd::prelude::*;

use crate::codec::{lemma_message_model, spec_model_of, DltMessage, MsgModel};
use crate::dlt_file::DltFile;
use crate::error::Error;
use crate::filter::engine::{seq_has, strictly_ascending};
use crate::pattern::{
    re_pattern, regex_is_match, regex_new, spec_effective_pattern, spec_regex_accepts,
    spec_regex_compiles, effective_pattern,
};

verus! {

/// Whether a message model is a hit for the compiled pattern `p`: the
/// pattern matches its payload text, its application or context
/// identifier, or its ECU identifier.
pub open spec fn spec_search_hit(p: Seq<char>, m: MsgModel) -> bool {
    ||| (m.text matches Some(t) && spec_regex_accepts(p, t))
    ||| (m.app_id matches Some(a) && spec_regex_accepts(p, a))
    ||| (m.context_id matches Some(x) && spec_regex_accepts(p, x))
    ||| spec_regex_accepts(p, m.ecu_id)
}

/// Whether position `i` of a file is a hit: its message parses and is a
/// hit for the pattern.
pub open spec fn spec_position_hit(f: DltFile, p: Seq<char>, i: int) -> bool {
    &&& 0 <= i < f.spec_count()
    &&& f.spec_msg_ok(i)
    &&& spec_search_hit(p, f.spec_msg(i))
}

/// Whether `s` is exactly the ascending sequence of positions of `f`
/// that are hits for the pattern.
pub open spec fn spec_search_result(f: DltFile, p: Seq<char>, s: Seq<usize>) -> bool {
    &&& strictly_ascending(s)
    &&& forall|k: int| 0 <= k < s.len() ==> spec_position_hit(f, p, #[trigger] s[k] as int)
    &&& forall|i: int| spec_position_hit(f, p, i) ==> seq_has(s, i)
}

/// Search engine: compiled pattern, original source, case mode.
pub struct SearchEngine {
    pattern: regex::Regex,
    source: String,
    case_sensitive: bool,
}

impl SearchEngine {
    /// The compiled pattern string (the source, with the inline
    /// case-insensitive flag prefixed in case-insensitive mode).
    pub closed spec fn spec_pattern(self) -> Seq<char> {
        re_pattern(&self.pattern)
    }

    /// The pattern source as the user supplied it.
    pub closed spec fn spec_source(self) -> Seq<char> {
        self.source@
    }

    /// The case-sensitivity mode.
    pub closed spec fn spec_case_sensitive(self) -> bool {
        self.case_sensitive
    }

    /// The compiled pattern is the effective pattern of source and mode.
    pub open spec fn spec_wf(self) -> bool {
        self.spec_pattern() == spec_effective_pattern(self.spec_source(), self.spec_case_sensitive())
    }

    /// A case-sensitive engine over the given pattern; fails exactly when
    /// the pattern does not compile.
    pub fn new(pattern: &str) -> (r: Result<SearchEngine, Error>)
        ensures
            r is Ok <==> spec_regex_compiles(spec_effective_pattern(pattern@, true)),
            r matches Ok(e) ==> e.spec_source() == pattern@ && e.spec_case_sensitive()
                && e.spec_wf(),
            r matches Err(e) ==> e == Error::RegexCompile,
    {
        Self::with_case_sensitivity(pattern, true)
    }

    /// An engine over the given pattern and case mode; fails exactly when
    /// the effective pattern does not compile.
    pub fn with_case_sensitivity(pattern: &str, case_sensitive: bool) -> (r: Result<
        SearchEngine,
        Error,
    >)
        ensures
            r is Ok <==> spec_regex_compiles(spec_effective_pattern(pattern@, case_sensitive)),
            r matches Ok(e) ==> e.spec_source() == pattern@ && e.spec_case_sensitive()
                == case_sensitive && e.spec_wf(),
            r matches Err(e) ==> e == Error::RegexCompile,
    {
        let effective = effective_pattern(pattern, case_sensitive);
        match regex_new(effective.as_str()) {
            Some(re) => Ok(
                SearchEngine { pattern: re, source: pattern.to_owned(), case_sensitive },
            ),
            None => Err(Error::RegexCompile),
        }
    }

    /// Searches every indexed position of a file; returns the hits in
    /// ascending order, skipping messages that fail to parse.
    pub fn search(&self, file: &DltFile) -> (r: Vec<usize>)
        ensures
            spec_search_result(*file, self.spec_pattern(), r@),
    {
        let count = file.message_count();
        let mut out: Vec<usize> = Vec::new();
        let mut i: usize = 0;
        while i < count
            invariant
                i <= count,
                count == file.spec_count(),
                strictly_ascending(out@),
                forall|k: int|
                    0 <= k < out@.len() ==> #[trigger] out@[k] < i && spec_position_hit(
                        *file,
                        self.spec_pattern(),
                        out@[k] as int,
                    ),
                forall|j: int|
                    0 <= j < i && spec_position_hit(*file, self.spec_pattern(), j) ==> seq_has(
                        out@,
                        j,
                    ),
            decreases count - i,
        {
            let ghost prev = out@;
            match file.get_message(i) {
                Ok(message) => {
                    proof {
                        lemma_message_model(message, file.spec_msg_bytes(i as int));
                    }
                    if self.matches(&message) {
                        out.push(i);
                    }
                },
                Err(_) => {},
            }
            proof {
                if spec_position_hit(*file, self.spec_pattern(), i as int) {
                    assert(out@[out@.len() - 1] == i);
                    assert(seq_has(out@, i as int));
                }
                assert forall|j: int|
                    0 <= j < i + 1 && spec_position_hit(
                        *file,
                        self.spec_pattern(),
                        j,
                    ) implies seq_has(out@, j) by {
                    if j < i {
                        assert(seq_has(prev, j));
                        let k = choose|k: int| 0 <= k < prev.len() && prev[k] == j;
                        assert(out@[k] == j);
                    }
                }
            }
            i = i + 1;
        }
        out
    }

    /// Searches a list of already-parsed messages; returns the matching
    /// positions in ascending order.
    pub fn search_in_messages(&self, messages: &Vec<DltMessage>) -> (r: Vec<usize>)
        ensures
            strictly_ascending(r@),
            forall|k: int|
                0 <= k < r@.len() ==> #[trigger] r@[k] < messages@.len() && spec_search_hit(
                    self.spec_pattern(),
                    spec_model_of(messages@[r@[k] as int]),
                ),
            forall|j: int|
                0 <= j < messages@.len() && spec_search_hit(
                    self.spec_pattern(),
                    spec_model_of(messages@[j]),
                ) ==> seq_has(r@, j),
    {
        let count = messages.len();
        let mut out: Vec<usize> = Vec::new();
        let mut i: usize = 0;
        while i < count
            invariant
                i <= count,
                count == messages@.len(),
                strictly_ascending(out@),
                forall|k: int|
                    0 <= k < out@.len() ==> #[trigger] out@[k] < i && spec_search_hit(
                        self.spec_pattern(),
                        spec_model_of(messages@[out@[k] as int]),
                    ),
                forall|j: int|
                    0 <= j < i && spec_search_hit(
                        self.spec_pattern(),
                        spec_model_of(messages@[j]),
                    ) ==> seq_has(out@, j),
            decreases count - i,
        {
            let ghost prev = out@;
            if self.matches(&messages[i]) {
                out.push(i);
            }
            proof {
                if spec_search_hit(self.spec_pattern(), spec_model_of(messages@[i as int])) {
                    assert(out@[out@.len() - 1] == i);
                    assert(seq_has(out@, i as int));
                }
                assert forall|j: int|
                    0 <= j < i + 1 && spec_search_hit(
                        self.spec_pattern(),
                        spec_model_of(messages@[j]),
                    ) implies seq_has(out@, j) by {
                    if j < i {
                        assert(seq_has(prev, j));
                        let k = choose|k: int| 0 <= k < prev.len() && prev[k] == j;
                        assert(out@[k] == j);
                    }
                }
            }
            i = i + 1;
        }
        out
    }

    /// Searches the messages at the given positions of a file; keeps, in
    /// order, exactly the positions that are hits.
    pub fn search_in_indices(&self, file: &DltFile, indices: &Vec<usize>) -> (r: Vec<usize>)
        ensures
            r@ == indices@.filter(
                (|idx: usize| spec_position_hit(*file, self.spec_pattern(), idx as int)),
            ),
    {
        let ghost pred = (|idx: usize| spec_position_hit(*file, self.spec_pattern(), idx as int));
        let count = indices.len();
        let mut out: Vec<usize> = Vec::new();
        let mut i: usize = 0;
        proof {
            assert(indices@.take(0int) =~= Seq::<usize>::empty());
            reveal_with_fuel(Seq::filter, 2);
        }
        while i < count
            invariant
                i <= count,
                count == indices@.len(),
                out@ == indices@.take(i as int).filter(pred),
                pred == (|idx: usize| spec_position_hit(*file, self.spec_pattern(), idx as int)),
            decreases count - i,
        {
            let idx = indices[i];
            let ghost prev = out@;
            match file.get_message(idx) {
                Ok(message) => {
                    proof {
                        lemma_message_model(message, file.spec_msg_bytes(idx as int));
                    }
                    if self.matches(&message) {
                        out.push(idx);
                    }
                },
                Err(_) => {},
            }
            proof {
                let taken = indices@.take(i as int);
                let taken1 = indices@.take(i + 1);
                assert(taken1 =~= taken.push(indices@[i as int]));
                assert(taken1.drop_last() =~= taken);
                reveal(Seq::filter);
                if pred(indices@[i as int]) {
                    assert(taken1.filter(pred) =~= taken.filter(pred).push(indices@[i as int]));
                } else {
                    assert(taken1.filter(pred) =~= taken.filter(pred));
                }
            }
            i = i + 1;
        }
        proof {
            assert(indices@.take(count as int) =~= indices@);
        }
        out
    }

    /// Whether a message is a hit: the pattern matches its payload text,
    /// its application or context identifier, or its ECU identifier.
    pub fn matches(&self, message: &DltMessage) -> (r: bool)
        ensures
            r == spec_search_hit(self.spec_pattern(), spec_model_of(*message)),
    {
        if let Some(text) = &message.payload_text {
            if regex_is_match(&self.pattern, text.as_str()) {
                return true;
            }
        }
        if let Some(app_id) = message.app_id() {
            if regex_is_match(&self.pattern, app_id.as_str()) {
                return true;
            }
        }
        if let Some(ctx_id) = message.context_id() {
            if regex_is_match(&self.pattern, ctx_id.as_str()) {
                return true;
            }
        }
        let ecu_id = message.ecu_id();
        if regex_is_match(&self.pattern, ecu_id.as_str()) {
            return true;
        }
        false
    }

    /// The compiled pattern.
    pub fn pattern(&self) -> (r: &regex::Regex)
        ensures
            re_pattern(r) == self.spec_pattern(),
    {
        &self.pattern
    }

    /// The pattern source as the user supplied it.
    pub fn source(&self) -> (r: &String)
        ensures
            r@ == self.spec_source(),
    {
        &self.source
    }

    /// Replaces the pattern, keeping the case mode; fails exactly when
    /// the new effective pattern does not compile, changing nothing.
    pub fn set_pattern(&mut self, pattern: &str) -> (r: Result<(), Error>)
        ensures
            r is Ok <==> spec_regex_compiles(
                spec_effective_pattern(pattern@, old(self).spec_case_sensitive()),
            ),
            r is Ok ==> final(self).spec_source() == pattern@ && final(self).spec_case_sensitive()
                == old(self).spec_case_sensitive() && final(self).spec_wf(),
            r is Err ==> *final(self) == *old(self),
            r matches Err(e) ==> e == Error::RegexCompile,
    {
        let case_sensitive = self.case_sensitive;
        self.set_pattern_with_case_sensitivity(pattern, case_sensitive)
    }

    /// Replaces the pattern and the case mode together; fails exactly
    /// when the new effective pattern does not compile, changing nothing.
    pub fn set_pattern_with_case_sensitivity(
        &mut self,
        pattern: &str,
        case_sensitive: bool,
    ) -> (r: Result<(), Error>)
        ensures
            r is Ok <==> spec_regex_compiles(spec_effective_pattern(pattern@, case_sensitive)),
            r is Ok ==> final(self).spec_source() == pattern@ && final(self).spec_case_sensitive()
                == case_sensitive && final(self).spec_wf(),
            r is Err ==> *final(self) == *old(self),
            r matches Err(e) ==> e == Error::RegexCompile,
    {
        let effective = effective_pattern(pattern, case_sensitive);
        match regex_new(effective.as_str()) {
            Some(re) => {
                self.pattern = re;
                self.source = pattern.to_owned();
                self.case_sensitive = case_sensitive;
                Ok(())
            },
            None => Err(Error::RegexCompile),
        }
    }

    /// The case-sensitivity mode.
    pub fn is_case_sensitive(&self) -> (r: bool)
        ensures
            r == self.spec_case_sensitive(),
    {
        self.case_sensitive
    }

    /// Switches the case mode, recompiling the stored source under the
    /// new mode; fails exactly when that recompilation fails, changing
    /// nothing.
    pub fn set_case_sensitive(&mut self, case_sensitive: bool) -> (r: Result<(), Error>)
        ensures
            r is Ok <==> spec_regex_compiles(
                spec_effective_pattern(old(self).spec_source(), case_sensitive),
            ),
            r is Ok ==> final(self).spec_source() == old(self).spec_source(),
            r is Ok ==> final(self).spec_case_sensitive() == case_sensitive,
            r is Ok ==> final(self).spec_wf(),
            r is Err ==> *final(self) == *old(self),
            r matches Err(e) ==> e == Error::RegexCompile,
    {
        let source = self.source.clone();
        self.set_pattern_with_case_sensitivity(source.as_str(), case_sensitive)
    }
}

} // verus!
