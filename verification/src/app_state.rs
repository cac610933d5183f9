//! The session: open files with their indices, the active criteria and
//! search state, and the navigation operations the user drives.
//!
//! All user-observable state lives here; the engines produce fresh
//! results that the session installs wholesale.

use vstd::prelude::*;
use vstd::string::StringExecFns;

use crate::codec::{message_matches, DltMessage};
use crate::dlt_file::DltFile;
use crate::error::Error;
use crate::filter::criteria::{spec_empty_criteria, CriteriaModel, FilterCriteria};
use crate::filter::engine::{seq_has, spec_filter_result, strictly_ascending, FilterEngine};
use crate::index::Index;
use crate::pattern::{spec_effective_pattern, spec_regex_compiles};
use crate::search::engine::{spec_position_hit, SearchEngine};
use crate::text::{pop_char, push_char, usize_to_string};

verus! {

/// What the main area shows.
#[derive(Debug, Clone, Copy, PartialEq, Eq, Structural)]
pub enum ViewMode {
    /// A scrollable list of messages.
    List,
    /// One message in full.
    Detail,
    /// The key-binding help.
    Help,
}

/// How keystrokes are interpreted.
#[derive(Debug, Clone, Copy, PartialEq, Eq, Structural)]
pub enum InputMode {
    /// Keys are commands.
    Normal,
    /// Keys edit a search pattern.
    Search,
    /// Keys edit a filter pattern.
    Filter,
}

/// The session state.
pub struct App {
    files: Vec<(DltFile, Index)>,
    current_file_idx: usize,
    filter: FilterCriteria,
    filter_engine: FilterEngine,
    filtered_messages: Vec<usize>,
    selected_message_idx: usize,
    view_mode: ViewMode,
    input_mode: InputMode,
    search_engine: Option<SearchEngine>,
    search_source: Option<String>,
    search_results: Vec<usize>,
    current_search_idx: usize,
    case_sensitive_search: bool,
    command_input: String,
    status_message: String,
    should_exit: bool,
}

impl App {
    /// The open files with their secondary indices.
    pub closed spec fn spec_files_view(self) -> Seq<(DltFile, Index)> {
        self.files@
    }

    /// The number of open files.
    pub open spec fn spec_file_count(self) -> int {
        self.spec_files_view().len() as int
    }

    /// The open file at a position.
    pub open spec fn spec_file(self, i: int) -> DltFile {
        self.spec_files_view()[i].0
    }

    /// The secondary index at a position.
    pub open spec fn spec_index(self, i: int) -> Index {
        self.spec_files_view()[i].1
    }

    /// The current file selector.
    pub closed spec fn spec_current(self) -> int {
        self.current_file_idx as int
    }

    /// The held criteria value.
    pub closed spec fn spec_criteria(self) -> CriteriaModel {
        self.filter.spec_view()
    }

    /// The criteria the filter engine evaluates.
    pub closed spec fn spec_engine_criteria(self) -> CriteriaModel {
        self.filter_engine.spec_criteria()
    }

    /// The current filter result.
    pub closed spec fn spec_filtered(self) -> Seq<usize> {
        self.filtered_messages@
    }

    /// The selection cursor into the filter result.
    pub closed spec fn spec_selected(self) -> int {
        self.selected_message_idx as int
    }

    /// The view mode.
    pub closed spec fn spec_view_mode(self) -> ViewMode {
        self.view_mode
    }

    /// The input mode.
    pub closed spec fn spec_input_mode(self) -> InputMode {
        self.input_mode
    }

    /// The compiled search pattern, when a search engine exists.
    pub closed spec fn spec_search_pattern(self) -> Option<Seq<char>> {
        match self.search_engine {
            Some(e) => Some(e.spec_pattern()),
            None => None,
        }
    }

    /// The search pattern source as last entered.
    pub closed spec fn spec_search_source(self) -> Option<Seq<char>> {
        match self.search_source {
            Some(s) => Some(s@),
            None => None,
        }
    }

    /// The search hits, as cursors into the filter result.
    pub closed spec fn spec_results(self) -> Seq<usize> {
        self.search_results@
    }

    /// The search cursor into the hits.
    pub closed spec fn spec_cursor(self) -> int {
        self.current_search_idx as int
    }

    /// The case-sensitivity mode of searches.
    pub closed spec fn spec_case_sensitive(self) -> bool {
        self.case_sensitive_search
    }

    /// The pending command-line input.
    pub closed spec fn spec_command_input(self) -> Seq<char> {
        self.command_input@
    }

    /// The status line.
    pub closed spec fn spec_status(self) -> Seq<char> {
        self.status_message@
    }

    /// Whether the session should end.
    pub closed spec fn spec_should_exit(self) -> bool {
        self.should_exit
    }
}

/// Whether `results` is exactly the ascending sequence of cursors into
/// `filtered` whose message is a search hit for `p` in `f`.
pub open spec fn spec_hits_exact(
    f: DltFile,
    p: Seq<char>,
    filtered: Seq<usize>,
    results: Seq<usize>,
) -> bool {
    &&& strictly_ascending(results)
    &&& forall|k: int|
        0 <= k < results.len() ==> (#[trigger] results[k]) < filtered.len() && spec_position_hit(
            f,
            p,
            filtered[results[k] as int] as int,
        )
    &&& forall|j: int|
        0 <= j < filtered.len() && spec_position_hit(f, p, filtered[j] as int) ==> seq_has(
            results,
            j,
        )
}

/// The effect of a successful search for `pattern` on the session: a
/// fresh engine over the pattern and the current case mode, hits
/// recomputed over the unchanged filter result, the search cursor reset,
/// and the selection moved to the first hit if there is one.
pub open spec fn spec_search_outcome(pre: App, post: App, pattern: Seq<char>) -> bool {
    spec_search_outcome_mode(pre, post, pattern, pre.spec_case_sensitive())
}

/// As `spec_search_outcome`, under an explicitly given case mode.
pub open spec fn spec_search_outcome_mode(
    pre: App,
    post: App,
    pattern: Seq<char>,
    case_sensitive: bool,
) -> bool {
    let p = spec_effective_pattern(pattern, case_sensitive);
    &&& post.spec_search_pattern() == Some(p)
    &&& post.spec_search_source() == Some(pattern)
    &&& post.spec_filtered() == pre.spec_filtered()
    &&& post.spec_cursor() == 0
    &&& ((pre.spec_file_count() == 0 || pre.spec_current() >= pre.spec_file_count())
        ==> post.spec_results() == Seq::<usize>::empty())
    &&& ((pre.spec_file_count() > 0 && pre.spec_current() < pre.spec_file_count())
        ==> spec_hits_exact(
        pre.spec_file(pre.spec_current()),
        p,
        pre.spec_filtered(),
        post.spec_results(),
    ))
    &&& post.spec_selected() == (if post.spec_results().len() > 0 {
        post.spec_results()[0] as int
    } else {
        pre.spec_selected()
    })
    &&& spec_same_files(pre, post)
    &&& post.spec_case_sensitive() == case_sensitive
}

/// Everything but the input mode, the command buffer and the status
/// line agrees between two session states.
pub open spec fn spec_same_core(a: App, b: App) -> bool {
    &&& b.spec_files_view() == a.spec_files_view()
    &&& b.spec_current() == a.spec_current()
    &&& b.spec_criteria() == a.spec_criteria()
    &&& b.spec_engine_criteria() == a.spec_engine_criteria()
    &&& b.spec_filtered() == a.spec_filtered()
    &&& b.spec_selected() == a.spec_selected()
    &&& b.spec_view_mode() == a.spec_view_mode()
    &&& b.spec_search_pattern() == a.spec_search_pattern()
    &&& b.spec_search_source() == a.spec_search_source()
    &&& b.spec_results() == a.spec_results()
    &&& b.spec_cursor() == a.spec_cursor()
    &&& b.spec_case_sensitive() == a.spec_case_sensitive()
    &&& b.spec_should_exit() == a.spec_should_exit()
}

/// The open files, the selector and the criteria agree between two
/// session states.
pub open spec fn spec_same_files(a: App, b: App) -> bool {
    &&& b.spec_files_view() == a.spec_files_view()
    &&& b.spec_current() == a.spec_current()
    &&& b.spec_criteria() == a.spec_criteria()
    &&& b.spec_engine_criteria() == a.spec_engine_criteria()
}

/// The search state agrees between two session states.
pub open spec fn spec_same_search(a: App, b: App) -> bool {
    &&& b.spec_search_pattern() == a.spec_search_pattern()
    &&& b.spec_search_source() == a.spec_search_source()
    &&& b.spec_results() == a.spec_results()
    &&& b.spec_cursor() == a.spec_cursor()
}

/// The wrapped successor of a search cursor.
pub open spec fn spec_next_cursor(c: int, n: int) -> int {
    if c + 1 >= n {
        0
    } else {
        c + 1
    }
}

/// The wrapped predecessor of a search cursor.
pub open spec fn spec_prev_cursor(c: int, n: int) -> int {
    if c == 0 {
        n - 1
    } else {
        c - 1
    }
}

/// The cursor after `k` wrapped advances.
pub open spec fn spec_iterate_next(c: int, n: int, k: nat) -> int
    decreases k,
{
    if k == 0 {
        c
    } else {
        spec_iterate_next(spec_next_cursor(c, n), n, (k - 1) as nat)
    }
}

/// Advancing a cursor once per hit returns it to where it started: the
/// wrap-around law of `next_search_result`.
pub proof fn lemma_next_match_wraps(c: int, n: int)
    requires
        0 <= c < n,
    ensures
        spec_iterate_next(c, n, n as nat) == c,
{
    lemma_iterate_next_shifts(c, n, (n - c) as nat);
    assert(spec_iterate_next(c, n, (n - c) as nat) == 0);
    lemma_iterate_next_split(c, n, (n - c) as nat, c as nat);
    lemma_iterate_next_shifts(0, n, c as nat);
}

/// While no wrap occurs, `k` advances add `k`.
proof fn lemma_iterate_next_shifts(c: int, n: int, k: nat)
    requires
        0 <= c < n,
        c + k <= n,
    ensures
        spec_iterate_next(c, n, k) == (if c + k < n {
            c + k
        } else {
            0int
        }),
    decreases k,
{
    if k > 0 {
        if c + 1 < n {
            lemma_iterate_next_shifts(c + 1, n, (k - 1) as nat);
        } else {
            lemma_iterate_next_shifts(0, n, (k - 1) as nat);
        }
    }
}

/// Advancing `a + b` times is advancing `a` times, then `b` times.
proof fn lemma_iterate_next_split(c: int, n: int, a: nat, b: nat)
    ensures
        spec_iterate_next(c, n, a + b) == spec_iterate_next(spec_iterate_next(c, n, a), n, b),
    decreases a,
{
    if a > 0 {
        lemma_iterate_next_split(spec_next_cursor(c, n), n, (a - 1) as nat, b);
    }
}

impl App {
    /// A fresh session: no files, no constraints, list view, normal
    /// input mode, case-sensitive search.
    pub fn new() -> (r: App)
        ensures
            r.spec_file_count() == 0,
            r.spec_criteria() == spec_empty_criteria(),
            r.spec_engine_criteria() == spec_empty_criteria(),
            r.spec_filtered() == Seq::<usize>::empty(),
            r.spec_selected() == 0,
            r.spec_view_mode() == ViewMode::List,
            r.spec_input_mode() == InputMode::Normal,
            r.spec_search_pattern() is None,
            r.spec_search_source() is None,
            r.spec_results() == Seq::<usize>::empty(),
            r.spec_cursor() == 0,
            r.spec_case_sensitive(),
            r.spec_command_input() == Seq::<char>::empty(),
            r.spec_status() == Seq::<char>::empty(),
            !r.spec_should_exit(),
    {
        let filter = FilterCriteria::new();
        let filter_engine = FilterEngine::new(filter.clone());
        App {
            files: Vec::new(),
            current_file_idx: 0,
            filter,
            filter_engine,
            filtered_messages: Vec::new(),
            selected_message_idx: 0,
            view_mode: ViewMode::List,
            input_mode: InputMode::Normal,
            search_engine: None,
            search_source: None,
            search_results: Vec::new(),
            current_search_idx: 0,
            case_sensitive_search: true,
            command_input: String::new(),
            status_message: String::new(),
            should_exit: false,
        }
    }

    /// Adds an open file and its freshly built secondary index; the
    /// first file becomes current and the filter result is computed for
    /// it.  Fails, changing nothing, when a message of the file does not
    /// parse while the index is built.
    pub fn load_file(&mut self, file: DltFile) -> (r: Result<(), Error>)
        ensures
            r is Ok <==> forall|i: int|
                0 <= i < file.spec_count() ==> #[trigger] file.spec_msg_ok(i),
            r is Err ==> *final(self) == *old(self),
            r matches Err(e) ==> (e matches Error::Format { index } && index < file.spec_count()
                && !file.spec_msg_ok(index as int)),
            r is Ok ==> {
                &&& final(self).spec_file_count() == old(self).spec_file_count() + 1
                &&& final(self).spec_file(old(self).spec_file_count()) == file
                &&& final(self).spec_index(old(self).spec_file_count()).spec_complete(file)
                &&& forall|i: int|
                    0 <= i < old(self).spec_file_count() ==> #[trigger] final(self).spec_file(i)
                        == old(self).spec_file(i) && final(self).spec_index(i) == old(
                        self,
                    ).spec_index(i)
                &&& final(self).spec_criteria() == old(self).spec_criteria()
                &&& final(self).spec_engine_criteria() == old(self).spec_engine_criteria()
                &&& final(self).spec_view_mode() == old(self).spec_view_mode()
                &&& final(self).spec_input_mode() == old(self).spec_input_mode()
                &&& final(self).spec_status() == old(self).spec_status()
                &&& final(self).spec_command_input() == old(self).spec_command_input()
                &&& final(self).spec_case_sensitive() == old(self).spec_case_sensitive()
                &&& final(self).spec_should_exit() == old(self).spec_should_exit()
                &&& (old(self).spec_file_count() > 0 ==> final(self).spec_results() == old(
                    self,
                ).spec_results() && final(self).spec_cursor() == old(self).spec_cursor())
                &&& (old(self).spec_file_count() == 0 ==> final(self).spec_results()
                    == Seq::<usize>::empty() && final(self).spec_cursor() == 0)
                &&& final(self).spec_current() == (if old(self).spec_file_count() == 0 {
                    0int
                } else {
                    old(self).spec_current()
                })
                &&& (old(self).spec_file_count() == 0 ==> spec_filter_result(
                    file,
                    old(self).spec_engine_criteria(),
                    final(self).spec_filtered(),
                ) && final(self).spec_selected() == 0)
                &&& (old(self).spec_file_count() > 0 ==> final(self).spec_filtered() == old(self).spec_filtered() && final(self).spec_selected() == old(self).spec_selected())
            },
    {
        let index = match Index::new(&file) {
            Ok(ix) => ix,
            Err(e) => {
                return Err(e);
            },
        };
        let first = self.files.len() == 0;
        self.files.push((file, index));
        if first {
            self.current_file_idx = 0;
            self.apply_filter();
        }
        Ok(())
    }

    /// Recomputes the filter result for the current file from the
    /// engine's criteria, resets the selection, and clears the search
    /// hits.
    pub fn apply_filter(&mut self)
        ensures
            final(self).spec_selected() == 0,
            final(self).spec_results() == Seq::<usize>::empty(),
            final(self).spec_cursor() == 0,
            (old(self).spec_file_count() == 0 || old(self).spec_current() >= old(self).spec_file_count()) ==> final(self).spec_filtered() == Seq::<usize>::empty(),
            (old(self).spec_file_count() > 0 && old(self).spec_current() < old(self).spec_file_count()) ==> spec_filter_result(
                old(self).spec_file(old(self).spec_current()),
                old(self).spec_engine_criteria(),
                final(self).spec_filtered(),
            ),
            final(self).spec_files_view() == old(self).spec_files_view(),
            final(self).spec_current() == old(self).spec_current(),
            final(self).spec_criteria() == old(self).spec_criteria(),
            final(self).spec_engine_criteria() == old(self).spec_engine_criteria(),
            final(self).spec_search_pattern() == old(self).spec_search_pattern(),
            final(self).spec_search_source() == old(self).spec_search_source(),
            final(self).spec_case_sensitive() == old(self).spec_case_sensitive(),
            final(self).spec_view_mode() == old(self).spec_view_mode(),
            final(self).spec_input_mode() == old(self).spec_input_mode(),
            final(self).spec_command_input() == old(self).spec_command_input(),
            final(self).spec_status() == old(self).spec_status(),
            final(self).spec_should_exit() == old(self).spec_should_exit(),
    {
        self.selected_message_idx = 0;
        self.search_results = Vec::new();
        self.current_search_idx = 0;
        if self.files.len() == 0 || self.current_file_idx >= self.files.len() {
            self.filtered_messages = Vec::new();
            return ;
        }
        let result = self.filter_engine.apply(&self.files[self.current_file_idx].0);
        self.filtered_messages = result;
    }

    /// The message under the selection cursor, freshly parsed; absent
    /// when there is no file, the filter result is empty, or its bytes
    /// no longer parse.
    pub fn selected_message(&self) -> (r: Option<DltMessage>)
        ensures
            ({
                let f = self.spec_file(self.spec_current());
                let pos = self.spec_filtered()[self.spec_selected()] as int;
                let have = self.spec_file_count() > 0 && self.spec_current()
                    < self.spec_file_count() && self.spec_filtered().len() > 0
                    && self.spec_selected() < self.spec_filtered().len() && pos < f.spec_count();
                &&& (r is Some <==> have && f.spec_msg_ok(pos))
                &&& (r matches Some(m) ==> message_matches(m, f.spec_msg_bytes(pos)))
            }),
    {
        if self.files.len() == 0 || self.current_file_idx >= self.files.len()
            || self.filtered_messages.len() == 0
            || self.selected_message_idx >= self.filtered_messages.len() {
            return None;
        }
        let idx = self.filtered_messages[self.selected_message_idx];
        match self.files[self.current_file_idx].0.get_message(idx) {
            Ok(m) => Some(m),
            Err(_) => None,
        }
    }

    /// Recomputes the search hits over the current filter result from
    /// the current search engine; positions that fail to parse are
    /// skipped.  Resets the search cursor and moves the selection to the
    /// first hit, if any.
    fn recompute_search_hits(&mut self)
        ensures
            final(self).spec_cursor() == 0,
            (old(self).spec_file_count() == 0 || old(self).spec_current() >= old(self).spec_file_count() || old(self).spec_search_pattern() is None) ==> final(self).spec_results() == Seq::<usize>::empty(),
            (old(self).spec_file_count() > 0 && old(self).spec_current() < old(self).spec_file_count() && old(self).spec_search_pattern() is Some) ==> spec_hits_exact(
                old(self).spec_file(old(self).spec_current()),
                old(self).spec_search_pattern()->Some_0,
                old(self).spec_filtered(),
                final(self).spec_results(),
            ),
            final(self).spec_selected() == (if final(self).spec_results().len() > 0 {
                final(self).spec_results()[0] as int
            } else {
                old(self).spec_selected()
            }),
            final(self).spec_filtered() == old(self).spec_filtered(),
            final(self).spec_files_view() == old(self).spec_files_view(),
            final(self).spec_current() == old(self).spec_current(),
            final(self).spec_criteria() == old(self).spec_criteria(),
            final(self).spec_engine_criteria() == old(self).spec_engine_criteria(),
            final(self).spec_search_pattern() == old(self).spec_search_pattern(),
            final(self).spec_search_source() == old(self).spec_search_source(),
            final(self).spec_case_sensitive() == old(self).spec_case_sensitive(),
            final(self).spec_view_mode() == old(self).spec_view_mode(),
            final(self).spec_input_mode() == old(self).spec_input_mode(),
            final(self).spec_command_input() == old(self).spec_command_input(),
            final(self).spec_status() == old(self).spec_status(),
            final(self).spec_should_exit() == old(self).spec_should_exit(),
    {
        self.current_search_idx = 0;
        self.search_results = Vec::new();
        if self.files.len() == 0 || self.current_file_idx >= self.files.len() {
            return ;
        }
        let engine = match &self.search_engine {
            Some(e) => e,
            None => {
                return ;
            },
        };
        let file = &self.files[self.current_file_idx].0;
        let ghost p = engine.spec_pattern();
        let ghost filtered = self.filtered_messages@;
        let count = self.filtered_messages.len();
        let mut out: Vec<usize> = Vec::new();
        let mut k: usize = 0;
        while k < count
            invariant
                k <= count,
                count == filtered.len(),
                filtered == self.filtered_messages@,
                p == engine.spec_pattern(),
                strictly_ascending(out@),
                forall|k2: int|
                    0 <= k2 < out@.len() ==> (#[trigger] out@[k2]) < k && spec_position_hit(
                        *file,
                        p,
                        filtered[out@[k2] as int] as int,
                    ),
                forall|j: int|
                    0 <= j < k && spec_position_hit(*file, p, filtered[j] as int) ==> seq_has(
                        out@,
                        j,
                    ),
            decreases count - k,
        {
            let ghost prev = out@;
            let idx = self.filtered_messages[k];
            match file.get_message(idx) {
                Ok(message) => {
                    proof {
                        crate::codec::lemma_message_model(message, file.spec_msg_bytes(idx as int));
                    }
                    if engine.matches(&message) {
                        out.push(k);
                    }
                },
                Err(_) => {},
            }
            proof {
                if spec_position_hit(*file, p, filtered[k as int] as int) {
                    assert(out@[out@.len() - 1] == k);
                    assert(seq_has(out@, k as int));
                }
                assert forall|j: int|
                    0 <= j < k + 1 && spec_position_hit(
                        *file,
                        p,
                        filtered[j] as int,
                    ) implies seq_has(out@, j) by {
                    if j < k {
                        assert(seq_has(prev, j));
                        let k2 = choose|k2: int| 0 <= k2 < prev.len() && prev[k2] == j;
                        assert(out@[k2] == j);
                    }
                }
            }
            k = k + 1;
        }
        if out.len() > 0 {
            self.selected_message_idx = out[0];
        }
        self.search_results = out;
    }

    /// Builds the status line reporting how many hits a pattern had.
    fn search_status(found: usize, pattern: &str) -> (r: String)
        ensures
            r@ == spec_search_status(found as nat, pattern@),
    {
        if found == 0 {
            let mut s = String::from_str("No matches found for '");
            s.append(pattern);
            s.append("'");
            proof {
                assert(s@ =~= spec_search_status(found as nat, pattern@));
            }
            s
        } else {
            let n = usize_to_string(found);
            let mut s = String::from_str("Found ");
            s.append(n.as_str());
            s.append(" matches for '");
            s.append(pattern);
            s.append("'");
            proof {
                assert(s@ =~= spec_search_status(found as nat, pattern@));
            }
            s
        }
    }

    /// Searches the current filter result for a pattern under the
    /// current case mode.  On success the hits, cursor, selection and
    /// status line are replaced; a pattern that does not compile leaves
    /// the session unchanged.
    pub fn search(&mut self, pattern: &str) -> (r: Result<(), Error>)
        ensures
            r is Ok <==> spec_regex_compiles(
                spec_effective_pattern(pattern@, old(self).spec_case_sensitive()),
            ),
            r is Err ==> *final(self) == *old(self),
            r matches Err(e) ==> e == Error::RegexCompile,
            r is Ok ==> spec_search_outcome(*old(self), *final(self), pattern@),
            r is Ok ==> final(self).spec_status() == spec_search_status(
                final(self).spec_results().len(),
                pattern@,
            ),
            r is Ok ==> final(self).spec_view_mode() == old(self).spec_view_mode()
                && final(self).spec_input_mode() == old(self).spec_input_mode()
                && final(self).spec_command_input() == old(self).spec_command_input()
                && final(self).spec_should_exit() == old(self).spec_should_exit()
                && final(self).spec_criteria() == old(self).spec_criteria()
                && final(self).spec_engine_criteria() == old(self).spec_engine_criteria(),
    {
        let engine = match SearchEngine::with_case_sensitivity(
            pattern,
            self.case_sensitive_search,
        ) {
            Ok(e) => e,
            Err(e) => {
                return Err(e);
            },
        };
        self.search_engine = Some(engine);
        self.search_source = Some(pattern.to_owned());
        self.recompute_search_hits();
        let found = self.search_results.len();
        self.status_message = Self::search_status(found, pattern);
        Ok(())
    }

    /// Advances the search cursor with wrap-around and moves the
    /// selection to the hit under it; without hits, nothing changes.
    pub fn next_search_result(&mut self)
        ensures
            final(self).spec_results() == old(self).spec_results(),
            final(self).spec_filtered() == old(self).spec_filtered(),
            spec_same_files(*old(self), *final(self)),
            final(self).spec_search_pattern() == old(self).spec_search_pattern(),
            final(self).spec_search_source() == old(self).spec_search_source(),
            final(self).spec_view_mode() == old(self).spec_view_mode(),
            final(self).spec_input_mode() == old(self).spec_input_mode(),
            final(self).spec_status() == old(self).spec_status(),
            final(self).spec_command_input() == old(self).spec_command_input(),
            final(self).spec_case_sensitive() == old(self).spec_case_sensitive(),
            final(self).spec_should_exit() == old(self).spec_should_exit(),
            old(self).spec_results().len() == 0 ==> *final(self) == *old(self),
            old(self).spec_results().len() > 0 ==> final(self).spec_cursor() == spec_next_cursor(
                old(self).spec_cursor(),
                old(self).spec_results().len() as int,
            ) && final(self).spec_selected() == final(self).spec_results()[final(self).spec_cursor()] as int,
    {
        let n = self.search_results.len();
        if n == 0 {
            return ;
        }
        if self.current_search_idx >= n - 1 {
            self.current_search_idx = 0;
        } else {
            self.current_search_idx = self.current_search_idx + 1;
        }
        self.selected_message_idx = self.search_results[self.current_search_idx];
    }

    /// Retreats the search cursor with wrap-around and moves the
    /// selection to the hit under it; without hits, nothing changes.
    pub fn prev_search_result(&mut self)
        ensures
            final(self).spec_results() == old(self).spec_results(),
            final(self).spec_filtered() == old(self).spec_filtered(),
            spec_same_files(*old(self), *final(self)),
            final(self).spec_search_pattern() == old(self).spec_search_pattern(),
            final(self).spec_search_source() == old(self).spec_search_source(),
            final(self).spec_view_mode() == old(self).spec_view_mode(),
            final(self).spec_input_mode() == old(self).spec_input_mode(),
            final(self).spec_status() == old(self).spec_status(),
            final(self).spec_command_input() == old(self).spec_command_input(),
            final(self).spec_case_sensitive() == old(self).spec_case_sensitive(),
            final(self).spec_should_exit() == old(self).spec_should_exit(),
            old(self).spec_results().len() == 0 ==> *final(self) == *old(self),
            (old(self).spec_results().len() > 0 && old(self).spec_cursor() < old(self).spec_results().len()) ==> final(self).spec_cursor() == spec_prev_cursor(
                old(self).spec_cursor(),
                old(self).spec_results().len() as int,
            ) && final(self).spec_selected() == final(self).spec_results()[final(self).spec_cursor()] as int,
    {
        let n = self.search_results.len();
        if n == 0 {
            return ;
        }
        if self.current_search_idx == 0 || self.current_search_idx >= n {
            self.current_search_idx = n - 1;
        } else {
            self.current_search_idx = self.current_search_idx - 1;
        }
        self.selected_message_idx = self.search_results[self.current_search_idx];
    }

    /// Moves the selection one message up, stopping at the top.
    pub fn move_up(&mut self)
        ensures
            final(self).spec_selected() == (if old(self).spec_selected() > 0 {
                old(self).spec_selected() - 1
            } else {
                0int
            }),
            final(self).spec_filtered() == old(self).spec_filtered(),
            spec_same_files(*old(self), *final(self)),
            spec_same_search(*old(self), *final(self)),
            final(self).spec_view_mode() == old(self).spec_view_mode(),
            final(self).spec_input_mode() == old(self).spec_input_mode(),
            final(self).spec_status() == old(self).spec_status(),
            final(self).spec_command_input() == old(self).spec_command_input(),
            final(self).spec_case_sensitive() == old(self).spec_case_sensitive(),
            final(self).spec_should_exit() == old(self).spec_should_exit(),
    {
        if self.selected_message_idx > 0 {
            self.selected_message_idx = self.selected_message_idx - 1;
        }
    }

    /// Moves the selection one message down, stopping at the bottom.
    pub fn move_down(&mut self)
        ensures
            final(self).spec_selected() == (if old(self).spec_filtered().len() > 0 && old(self).spec_selected() + 1 < old(self).spec_filtered().len() {
                old(self).spec_selected() + 1
            } else {
                old(self).spec_selected()
            }),
            final(self).spec_filtered() == old(self).spec_filtered(),
            spec_same_files(*old(self), *final(self)),
            spec_same_search(*old(self), *final(self)),
            final(self).spec_view_mode() == old(self).spec_view_mode(),
            final(self).spec_input_mode() == old(self).spec_input_mode(),
            final(self).spec_status() == old(self).spec_status(),
            final(self).spec_command_input() == old(self).spec_command_input(),
            final(self).spec_case_sensitive() == old(self).spec_case_sensitive(),
            final(self).spec_should_exit() == old(self).spec_should_exit(),
    {
        let len = self.filtered_messages.len();
        if len > 0 && self.selected_message_idx < len - 1 {
            self.selected_message_idx = self.selected_message_idx + 1;
        }
    }

    /// Moves the selection to the first message.
    pub fn move_to_top(&mut self)
        ensures
            final(self).spec_selected() == 0,
            final(self).spec_filtered() == old(self).spec_filtered(),
            spec_same_files(*old(self), *final(self)),
            spec_same_search(*old(self), *final(self)),
            final(self).spec_view_mode() == old(self).spec_view_mode(),
            final(self).spec_input_mode() == old(self).spec_input_mode(),
            final(self).spec_status() == old(self).spec_status(),
            final(self).spec_command_input() == old(self).spec_command_input(),
            final(self).spec_case_sensitive() == old(self).spec_case_sensitive(),
            final(self).spec_should_exit() == old(self).spec_should_exit(),
    {
        self.selected_message_idx = 0;
    }

    /// Moves the selection to the last message.
    pub fn move_to_bottom(&mut self)
        ensures
            final(self).spec_selected() == (if old(self).spec_filtered().len() > 0 {
                old(self).spec_filtered().len() - 1
            } else {
                old(self).spec_selected()
            }),
            final(self).spec_filtered() == old(self).spec_filtered(),
            spec_same_files(*old(self), *final(self)),
            spec_same_search(*old(self), *final(self)),
            final(self).spec_view_mode() == old(self).spec_view_mode(),
            final(self).spec_input_mode() == old(self).spec_input_mode(),
            final(self).spec_status() == old(self).spec_status(),
            final(self).spec_command_input() == old(self).spec_command_input(),
            final(self).spec_case_sensitive() == old(self).spec_case_sensitive(),
            final(self).spec_should_exit() == old(self).spec_should_exit(),
    {
        if self.filtered_messages.len() > 0 {
            self.selected_message_idx = self.filtered_messages.len() - 1;
        }
    }

    /// Selects the next open file with wrap-around and recomputes the
    /// filter result; with fewer than two files, nothing changes.
    pub fn next_file(&mut self)
        ensures
            old(self).spec_file_count() <= 1 ==> *final(self) == *old(self),
            old(self).spec_file_count() > 1 ==> final(self).spec_current() == spec_next_cursor(
                old(self).spec_current(),
                old(self).spec_file_count(),
            ) && spec_filter_result(
                old(self).spec_file(final(self).spec_current()),
                old(self).spec_engine_criteria(),
                final(self).spec_filtered(),
            ) && final(self).spec_selected() == 0,
    {
        if self.files.len() > 1 {
            self.selected_message_idx = 0;
            self.current_search_idx = 0;
            self.search_results = Vec::new();
            self.filtered_messages = Vec::new();
            if self.current_file_idx >= self.files.len() - 1 {
                self.current_file_idx = 0;
            } else {
                self.current_file_idx = self.current_file_idx + 1;
            }
            self.apply_filter();
        }
    }

    /// Selects the previous open file with wrap-around and recomputes
    /// the filter result; with fewer than two files, nothing changes.
    pub fn prev_file(&mut self)
        ensures
            old(self).spec_file_count() <= 1 ==> *final(self) == *old(self),
            (old(self).spec_file_count() > 1 && old(self).spec_current() < old(self).spec_file_count()) ==> final(self).spec_current() == spec_prev_cursor(
                old(self).spec_current(),
                old(self).spec_file_count(),
            ) && spec_filter_result(
                old(self).spec_file(final(self).spec_current()),
                old(self).spec_engine_criteria(),
                final(self).spec_filtered(),
            ) && final(self).spec_selected() == 0,
    {
        if self.files.len() > 1 {
            self.selected_message_idx = 0;
            self.current_search_idx = 0;
            self.search_results = Vec::new();
            self.filtered_messages = Vec::new();
            if self.current_file_idx == 0 {
                self.current_file_idx = self.files.len() - 1;
            } else {
                self.current_file_idx = self.current_file_idx - 1;
            }
            self.apply_filter();
        }
    }

    /// Switches between list and detail view; help returns to the list.
    pub fn toggle_view_mode(&mut self)
        ensures
            final(self).spec_view_mode() == (match old(self).spec_view_mode() {
                ViewMode::List => ViewMode::Detail,
                ViewMode::Detail => ViewMode::List,
                ViewMode::Help => ViewMode::List,
            }),
            spec_same_files(*old(self), *final(self)),
            spec_same_search(*old(self), *final(self)),
            final(self).spec_filtered() == old(self).spec_filtered(),
            final(self).spec_selected() == old(self).spec_selected(),
            final(self).spec_input_mode() == old(self).spec_input_mode(),
            final(self).spec_status() == old(self).spec_status(),
            final(self).spec_command_input() == old(self).spec_command_input(),
            final(self).spec_case_sensitive() == old(self).spec_case_sensitive(),
            final(self).spec_should_exit() == old(self).spec_should_exit(),
    {
        self.view_mode = match self.view_mode {
            ViewMode::List => ViewMode::Detail,
            ViewMode::Detail => ViewMode::List,
            ViewMode::Help => ViewMode::List,
        };
    }

    /// Shows the help view.
    pub fn show_help(&mut self)
        ensures
            final(self).spec_view_mode() == ViewMode::Help,
            spec_same_files(*old(self), *final(self)),
            spec_same_search(*old(self), *final(self)),
            final(self).spec_filtered() == old(self).spec_filtered(),
            final(self).spec_selected() == old(self).spec_selected(),
            final(self).spec_input_mode() == old(self).spec_input_mode(),
            final(self).spec_status() == old(self).spec_status(),
            final(self).spec_command_input() == old(self).spec_command_input(),
            final(self).spec_case_sensitive() == old(self).spec_case_sensitive(),
            final(self).spec_should_exit() == old(self).spec_should_exit(),
    {
        self.view_mode = ViewMode::Help;
    }

    /// Enters search-input mode with an empty buffer.
    pub fn enter_search_mode(&mut self)
        ensures
            final(self).spec_input_mode() == InputMode::Search,
            final(self).spec_command_input() == Seq::<char>::empty(),
            final(self).spec_status() == "Search: "@,
            spec_same_core(*old(self), *final(self)),
    {
        self.input_mode = InputMode::Search;
        self.command_input = String::new();
        let prompt: &str = "Search: ";
        self.status_message = prompt.to_owned();
    }

    /// Leaves search-input mode, clearing buffer and status.
    pub fn exit_search_mode(&mut self)
        ensures
            final(self).spec_input_mode() == InputMode::Normal,
            final(self).spec_command_input() == Seq::<char>::empty(),
            final(self).spec_status() == Seq::<char>::empty(),
            spec_same_core(*old(self), *final(self)),
    {
        self.input_mode = InputMode::Normal;
        self.command_input = String::new();
        self.status_message = String::new();
    }

    /// Enters filter-input mode with an empty buffer.
    pub fn enter_filter_mode(&mut self)
        ensures
            final(self).spec_input_mode() == InputMode::Filter,
            final(self).spec_command_input() == Seq::<char>::empty(),
            final(self).spec_status() == "Filter: "@,
            spec_same_core(*old(self), *final(self)),
    {
        self.input_mode = InputMode::Filter;
        self.command_input = String::new();
        let prompt: &str = "Filter: ";
        self.status_message = prompt.to_owned();
    }

    /// Leaves filter-input mode, clearing buffer and status.
    pub fn exit_filter_mode(&mut self)
        ensures
            final(self).spec_input_mode() == InputMode::Normal,
            final(self).spec_command_input() == Seq::<char>::empty(),
            final(self).spec_status() == Seq::<char>::empty(),
            spec_same_core(*old(self), *final(self)),
    {
        self.input_mode = InputMode::Normal;
        self.command_input = String::new();
        self.status_message = String::new();
    }

    /// Replaces the criteria wholesale, pushes them into the filter
    /// engine, recomputes the filter result, clears the search hits and
    /// resets the selection.
    pub fn set_criteria(&mut self, criteria: FilterCriteria)
        ensures
            final(self).spec_criteria() == criteria.spec_view(),
            final(self).spec_engine_criteria() == criteria.spec_view(),
            final(self).spec_selected() == 0,
            final(self).spec_results() == Seq::<usize>::empty(),
            final(self).spec_cursor() == 0,
            ((old(self).spec_file_count() == 0 || old(self).spec_current() >= old(self).spec_file_count()) ==> final(self).spec_filtered() == Seq::<usize>::empty()),
            ((old(self).spec_file_count() > 0 && old(self).spec_current() < old(self).spec_file_count()) ==> spec_filter_result(
                old(self).spec_file(old(self).spec_current()),
                criteria.spec_view(),
                final(self).spec_filtered(),
            )),
            final(self).spec_files_view() == old(self).spec_files_view(),
            final(self).spec_current() == old(self).spec_current(),
            final(self).spec_search_pattern() == old(self).spec_search_pattern(),
            final(self).spec_search_source() == old(self).spec_search_source(),
            final(self).spec_view_mode() == old(self).spec_view_mode(),
            final(self).spec_input_mode() == old(self).spec_input_mode(),
            final(self).spec_status() == old(self).spec_status(),
            final(self).spec_command_input() == old(self).spec_command_input(),
            final(self).spec_case_sensitive() == old(self).spec_case_sensitive(),
            final(self).spec_should_exit() == old(self).spec_should_exit(),
    {
        self.filter_engine.set_criteria(criteria.clone());
        self.filter = criteria;
        self.apply_filter();
    }

    /// Replaces the text-pattern constraint of the criteria, pushes the
    /// new criteria into the filter engine, and recomputes the filter
    /// result and status line.  A pattern that does not compile leaves
    /// the session unchanged.
    pub fn apply_text_filter(&mut self, pattern: &str) -> (r: Result<(), Error>)
        ensures
            r is Ok <==> spec_regex_compiles(pattern@),
            r is Err ==> *final(self) == *old(self),
            r matches Err(e) ==> e == Error::RegexCompile,
            r is Ok ==> {
                &&& final(self).spec_criteria() == (CriteriaModel {
                    text_pattern: Some(pattern@),
                    ..old(self).spec_criteria()
                })
                &&& final(self).spec_engine_criteria() == final(self).spec_criteria()
                &&& final(self).spec_selected() == 0
                &&& final(self).spec_results() == Seq::<usize>::empty()
                &&& final(self).spec_cursor() == 0
                &&& ((old(self).spec_file_count() == 0 || old(self).spec_current() >= old(self).spec_file_count()) ==> final(self).spec_filtered() == Seq::<usize>::empty())
                &&& ((old(self).spec_file_count() > 0 && old(self).spec_current() < old(self).spec_file_count()) ==> spec_filter_result(
                    old(self).spec_file(old(self).spec_current()),
                    final(self).spec_criteria(),
                    final(self).spec_filtered(),
                ))
                &&& final(self).spec_status() == spec_filter_status(
                    final(self).spec_filtered().len(),
                    pattern@,
                )
                &&& final(self).spec_files_view() == old(self).spec_files_view()
                &&& final(self).spec_current() == old(self).spec_current()
                &&& final(self).spec_search_pattern() == old(self).spec_search_pattern()
                &&& final(self).spec_search_source() == old(self).spec_search_source()
                &&& final(self).spec_view_mode() == old(self).spec_view_mode()
                &&& final(self).spec_input_mode() == old(self).spec_input_mode()
                &&& final(self).spec_command_input() == old(self).spec_command_input()
                &&& final(self).spec_case_sensitive() == old(self).spec_case_sensitive()
                &&& final(self).spec_should_exit() == old(self).spec_should_exit()
            },
    {
        let updated = match self.filter.clone().with_text_pattern(pattern) {
            Ok(c) => c,
            Err(e) => {
                return Err(e);
            },
        };
        self.filter = updated;
        self.filter_engine.set_criteria(self.filter.clone());
        self.apply_filter();
        let shown = self.filtered_messages.len();
        self.status_message = Self::filter_status(shown, pattern);
        Ok(())
    }

    /// Builds the status line reporting how many messages a filter kept.
    fn filter_status(shown: usize, pattern: &str) -> (r: String)
        ensures
            r@ == spec_filter_status(shown as nat, pattern@),
    {
        if shown == 0 {
            let mut s = String::from_str("No messages match filter '");
            s.append(pattern);
            s.append("'");
            proof {
                assert(s@ =~= spec_filter_status(shown as nat, pattern@));
            }
            s
        } else {
            let n = usize_to_string(shown);
            let mut s = String::from_str("Showing ");
            s.append(n.as_str());
            s.append(" messages matching filter '");
            s.append(pattern);
            s.append("'");
            proof {
                assert(s@ =~= spec_filter_status(shown as nat, pattern@));
            }
            s
        }
    }

    /// The status line announcing the case mode.
    fn case_status(case_sensitive: bool) -> (r: String)
        ensures
            r@ == spec_case_status(case_sensitive),
    {
        if case_sensitive {
            let text: &str = "Search mode: case-sensitive";
            text.to_owned()
        } else {
            let text: &str = "Search mode: case-insensitive";
            text.to_owned()
        }
    }

    /// Flips the case-sensitivity mode.  With an active search pattern
    /// the search is re-run under the new mode; a pattern that does not
    /// recompile leaves the session unchanged.  Without an active
    /// pattern only the mode and the status line change.
    pub fn toggle_case_sensitivity(&mut self) -> (r: Result<(), Error>)
        ensures
            old(self).spec_search_source() matches Some(src) ==> (r is Ok
                <==> spec_regex_compiles(
                spec_effective_pattern(src, !old(self).spec_case_sensitive()),
            )),
            r is Err ==> *final(self) == *old(self),
            r matches Err(e) ==> e == Error::RegexCompile,
            r is Ok ==> final(self).spec_case_sensitive() == !old(self).spec_case_sensitive(),
            r is Ok ==> (old(self).spec_search_source() is None ==> final(self).spec_results()
                == old(self).spec_results() && final(self).spec_cursor() == old(self).spec_cursor()
                && final(self).spec_selected() == old(self).spec_selected() && final(self).spec_filtered() == old(self).spec_filtered() && final(self).spec_status()
                == spec_case_status(!old(self).spec_case_sensitive())
                && final(self).spec_files_view() == old(self).spec_files_view()
                && final(self).spec_current() == old(self).spec_current()
                && final(self).spec_criteria() == old(self).spec_criteria()
                && final(self).spec_engine_criteria() == old(self).spec_engine_criteria()
                && final(self).spec_search_pattern() == old(self).spec_search_pattern()
                && final(self).spec_search_source() == old(self).spec_search_source()
                && final(self).spec_view_mode() == old(self).spec_view_mode()
                && final(self).spec_input_mode() == old(self).spec_input_mode()
                && final(self).spec_command_input() == old(self).spec_command_input()
                && final(self).spec_should_exit() == old(self).spec_should_exit()),
            r is Ok ==> (old(self).spec_search_source() matches Some(src)
                ==> spec_search_outcome_mode(
                *old(self),
                *final(self),
                src,
                !old(self).spec_case_sensitive(),
            ) && final(self).spec_status() == spec_search_status(
                final(self).spec_results().len(),
                src,
            )),
    {
        let new_flag = !self.case_sensitive_search;
        let source = match &self.search_source {
            Some(s) => Some(s.clone()),
            None => None,
        };
        match source {
            Some(src) => {
                let engine = match SearchEngine::with_case_sensitivity(src.as_str(), new_flag) {
                    Ok(e) => e,
                    Err(e) => {
                        return Err(e);
                    },
                };
                self.case_sensitive_search = new_flag;
                self.search_engine = Some(engine);
                self.recompute_search_hits();
                let found = self.search_results.len();
                self.status_message = Self::search_status(found, src.as_str());
                Ok(())
            },
            None => {
                self.case_sensitive_search = new_flag;
                self.status_message = Self::case_status(new_flag);
                Ok(())
            },
        }
    }

    /// Feeds one key to the search prompt: enter runs the search over
    /// the buffer and leaves the prompt, backspace edits, escape
    /// abandons, anything else extends the buffer.
    pub fn handle_search_input(&mut self, key: char)
        ensures
            (key == '\n' || key == '\r') ==> {
                &&& final(self).spec_input_mode() == InputMode::Normal
                &&& final(self).spec_command_input().len() == 0
                &&& final(self).spec_status().len() == 0
                &&& ((old(self).spec_command_input().len() > 0 && spec_regex_compiles(
                    spec_effective_pattern(
                        old(self).spec_command_input(),
                        old(self).spec_case_sensitive(),
                    ),
                )) ==> spec_search_outcome(
                    *old(self),
                    *final(self),
                    old(self).spec_command_input(),
                ))
                &&& ((old(self).spec_command_input().len() == 0 || !spec_regex_compiles(
                    spec_effective_pattern(
                        old(self).spec_command_input(),
                        old(self).spec_case_sensitive(),
                    ),
                )) ==> final(self).spec_results() == old(self).spec_results() && final(self).spec_search_pattern() == old(self).spec_search_pattern() && final(self).spec_selected() == old(self).spec_selected())
            },
            (key == '\u{8}' || key == '\u{7f}') ==> final(self).spec_command_input() == (if old(self).spec_command_input().len() > 0 {
                old(self).spec_command_input().drop_last()
            } else {
                old(self).spec_command_input()
            }) && final(self).spec_input_mode() == old(self).spec_input_mode(),
            key == '\u{1b}' ==> final(self).spec_input_mode() == InputMode::Normal && final(self).spec_command_input().len() == 0 && final(self).spec_results() == old(self).spec_results(),
            (key != '\n' && key != '\r' && key != '\u{8}' && key != '\u{7f}' && key
                != '\u{1b}') ==> final(self).spec_command_input() == old(self).spec_command_input().push(key) && final(self).spec_input_mode() == old(self).spec_input_mode() && final(self).spec_status() == old(self).spec_status(),
            final(self).spec_files_view() == old(self).spec_files_view(),
            final(self).spec_current() == old(self).spec_current(),
            final(self).spec_criteria() == old(self).spec_criteria(),
            final(self).spec_engine_criteria() == old(self).spec_engine_criteria(),
            final(self).spec_case_sensitive() == old(self).spec_case_sensitive(),
            final(self).spec_view_mode() == old(self).spec_view_mode(),
            final(self).spec_should_exit() == old(self).spec_should_exit(),
    {
        if key == '\n' || key == '\r' {
            let pattern = self.command_input.clone();
            if !pattern.as_str().is_empty() {
                let _ = self.search(pattern.as_str());
            }
            self.exit_search_mode();
        } else if key == '\u{8}' || key == '\u{7f}' {
            let _ = pop_char(&mut self.command_input);
        } else if key == '\u{1b}' {
            self.exit_search_mode();
        } else {
            push_char(&mut self.command_input, key);
        }
    }

    /// Feeds one key to the filter prompt: enter applies the buffer as a
    /// text filter and leaves the prompt, backspace edits, escape
    /// abandons, anything else extends the buffer.
    pub fn handle_filter_input(&mut self, key: char)
        ensures
            (key == '\n' || key == '\r') ==> {
                &&& final(self).spec_input_mode() == InputMode::Normal
                &&& final(self).spec_command_input().len() == 0
                &&& final(self).spec_status().len() == 0
                &&& ((old(self).spec_command_input().len() > 0 && spec_regex_compiles(
                    old(self).spec_command_input(),
                )) ==> final(self).spec_criteria() == (CriteriaModel {
                    text_pattern: Some(old(self).spec_command_input()),
                    ..old(self).spec_criteria()
                }) && final(self).spec_engine_criteria() == final(self).spec_criteria() && ((old(self).spec_file_count() > 0 && old(self).spec_current() < old(self).spec_file_count()) ==> spec_filter_result(
                    old(self).spec_file(old(self).spec_current()),
                    final(self).spec_criteria(),
                    final(self).spec_filtered(),
                )))
                &&& ((old(self).spec_command_input().len() == 0 || !spec_regex_compiles(
                    old(self).spec_command_input(),
                )) ==> final(self).spec_criteria() == old(self).spec_criteria() && final(self).spec_filtered() == old(self).spec_filtered())
            },
            (key == '\u{8}' || key == '\u{7f}') ==> final(self).spec_command_input() == (if old(self).spec_command_input().len() > 0 {
                old(self).spec_command_input().drop_last()
            } else {
                old(self).spec_command_input()
            }) && final(self).spec_input_mode() == old(self).spec_input_mode(),
            key == '\u{1b}' ==> final(self).spec_input_mode() == InputMode::Normal && final(self).spec_command_input().len() == 0 && final(self).spec_criteria() == old(self).spec_criteria(),
            (key != '\n' && key != '\r' && key != '\u{8}' && key != '\u{7f}' && key
                != '\u{1b}') ==> final(self).spec_command_input() == old(self).spec_command_input().push(key) && final(self).spec_input_mode() == old(self).spec_input_mode() && final(self).spec_status() == old(self).spec_status(),
            final(self).spec_files_view() == old(self).spec_files_view(),
            final(self).spec_current() == old(self).spec_current(),
            final(self).spec_case_sensitive() == old(self).spec_case_sensitive(),
            final(self).spec_view_mode() == old(self).spec_view_mode(),
            final(self).spec_should_exit() == old(self).spec_should_exit(),
    {
        if key == '\n' || key == '\r' {
            let pattern = self.command_input.clone();
            if !pattern.as_str().is_empty() {
                let _ = self.apply_text_filter(pattern.as_str());
            }
            self.exit_filter_mode();
        } else if key == '\u{8}' || key == '\u{7f}' {
            let _ = pop_char(&mut self.command_input);
        } else if key == '\u{1b}' {
            self.exit_filter_mode();
        } else {
            push_char(&mut self.command_input, key);
        }
    }

    /// The number of open files.
    pub fn file_count(&self) -> (r: usize)
        ensures
            r == self.spec_file_count(),
    {
        self.files.len()
    }

    /// The current file selector.
    pub fn current_file_index(&self) -> (r: usize)
        ensures
            r == self.spec_current(),
    {
        self.current_file_idx
    }

    /// The currently selected file, if the selector is valid.
    pub fn current_file(&self) -> (r: Option<&DltFile>)
        ensures
            r is Some <==> self.spec_current() < self.spec_file_count(),
            r matches Some(f) ==> *f == self.spec_file(self.spec_current()),
    {
        if self.current_file_idx < self.files.len() {
            Some(&self.files[self.current_file_idx].0)
        } else {
            None
        }
    }

    /// The secondary index of the currently selected file, if the
    /// selector is valid.
    pub fn current_secondary_index(&self) -> (r: Option<&Index>)
        ensures
            r is Some <==> self.spec_current() < self.spec_file_count(),
            r matches Some(ix) ==> *ix == self.spec_index(self.spec_current()),
    {
        if self.current_file_idx < self.files.len() {
            Some(&self.files[self.current_file_idx].1)
        } else {
            None
        }
    }

    /// The held criteria.
    pub fn criteria(&self) -> (r: &FilterCriteria)
        ensures
            r.spec_view() == self.spec_criteria(),
    {
        &self.filter
    }

    /// The current filter result: matching positions, ascending.
    pub fn filtered_positions(&self) -> (r: &Vec<usize>)
        ensures
            r@ == self.spec_filtered(),
    {
        &self.filtered_messages
    }

    /// The selection cursor into the filter result.
    pub fn selected_index(&self) -> (r: usize)
        ensures
            r == self.spec_selected(),
    {
        self.selected_message_idx
    }

    /// The view mode.
    pub fn view_mode(&self) -> (r: ViewMode)
        ensures
            r == self.spec_view_mode(),
    {
        self.view_mode
    }

    /// The input mode.
    pub fn input_mode(&self) -> (r: InputMode)
        ensures
            r == self.spec_input_mode(),
    {
        self.input_mode
    }

    /// The compiled search pattern, when a search is active.
    pub fn search_pattern(&self) -> (r: Option<&regex::Regex>)
        ensures
            r is Some <==> self.spec_search_pattern() is Some,
            r matches Some(re) ==> Some(crate::pattern::re_pattern(re))
                == self.spec_search_pattern(),
    {
        match &self.search_engine {
            Some(e) => Some(e.pattern()),
            None => None,
        }
    }

    /// The search pattern source as last entered.
    pub fn search_source(&self) -> (r: Option<&String>)
        ensures
            r is Some <==> self.spec_search_source() is Some,
            r matches Some(s) ==> Some(s@) == self.spec_search_source(),
    {
        match &self.search_source {
            Some(s) => Some(s),
            None => None,
        }
    }

    /// The search hits, as cursors into the filter result, ascending.
    pub fn search_hits(&self) -> (r: &Vec<usize>)
        ensures
            r@ == self.spec_results(),
    {
        &self.search_results
    }

    /// The search cursor into the hits.
    pub fn search_cursor(&self) -> (r: usize)
        ensures
            r == self.spec_cursor(),
    {
        self.current_search_idx
    }

    /// The case-sensitivity mode of searches.
    pub fn is_case_sensitive(&self) -> (r: bool)
        ensures
            r == self.spec_case_sensitive(),
    {
        self.case_sensitive_search
    }

    /// The pending command-line input.
    pub fn command_input(&self) -> (r: &String)
        ensures
            r@ == self.spec_command_input(),
    {
        &self.command_input
    }

    /// The status line.
    pub fn status_message(&self) -> (r: &String)
        ensures
            r@ == self.spec_status(),
    {
        &self.status_message
    }

    /// Whether the session should end.
    pub fn should_exit(&self) -> (r: bool)
        ensures
            r == self.spec_should_exit(),
    {
        self.should_exit
    }

    /// Requests the session to end.
    pub fn exit(&mut self)
        ensures
            final(self).spec_should_exit(),
            spec_same_files(*old(self), *final(self)),
            spec_same_search(*old(self), *final(self)),
            final(self).spec_filtered() == old(self).spec_filtered(),
            final(self).spec_selected() == old(self).spec_selected(),
            final(self).spec_view_mode() == old(self).spec_view_mode(),
            final(self).spec_input_mode() == old(self).spec_input_mode(),
            final(self).spec_status() == old(self).spec_status(),
            final(self).spec_command_input() == old(self).spec_command_input(),
            final(self).spec_case_sensitive() == old(self).spec_case_sensitive(),
    {
        self.should_exit = true;
    }
}

/// The status line a search leaves: the hit count and the pattern, or a
/// no-match notice.
pub open spec fn spec_search_status(found: nat, pattern: Seq<char>) -> Seq<char> {
    if found == 0 {
        "No matches found for '"@ + pattern + "'"@
    } else {
        "Found "@ + crate::text::spec_decimal(found) + " matches for '"@ + pattern + "'"@
    }
}

/// The status line a text filter leaves: the kept count and the
/// pattern, or a no-match notice.
pub open spec fn spec_filter_status(shown: nat, pattern: Seq<char>) -> Seq<char> {
    if shown == 0 {
        "No messages match filter '"@ + pattern + "'"@
    } else {
        "Showing "@ + crate::text::spec_decimal(shown) + " messages matching filter '"@ + pattern
            + "'"@
    }
}

/// The status line announcing the case mode.
pub open spec fn spec_case_status(case_sensitive: bool) -> Seq<char> {
    if case_sensitive {
        "Search mode: case-sensitive"@
    } else {
        "Search mode: case-insensitive"@
    }
}

} // verus!
