//! Application settings: the values persisted between runs.  Reading and
//! writing the configuration file is the application rim's concern; the
//! recent-file bookkeeping lives here.

use vstd::prelude::*;

use crate::text::str_eq;

verus! {

/// Persisted settings.
#[derive(Debug)]
pub struct Settings {
    /// Event-loop tick rate in milliseconds.
    pub tick_rate: u64,
    /// Default log-level filter.
    pub default_log_level: Option<String>,
    /// Default application-identifier filter.
    pub default_app_id: Option<String>,
    /// Default context-identifier filter.
    pub default_context_id: Option<String>,
    /// Recently opened files, most recent first.
    pub recent_files: Vec<String>,
    /// How many recent files are kept.
    pub max_recent_files: usize,
    /// Theme name.
    pub theme: String,
}

/// A sequence with every occurrence of one value removed.
pub open spec fn spec_without(files: Seq<Seq<char>>, path: Seq<char>) -> Seq<Seq<char>> {
    files.filter(|p: Seq<char>| p != path)
}

impl Settings {
    /// Moves a path to the front of the recent-files list, dropping any
    /// earlier occurrence and trimming the list to its maximum length.
    pub fn add_recent_file(&mut self, path: String)
        ensures
            ({
                let views = old(self).recent_files@.map_values(|p: String| p@);
                let kept = seq![path@] + spec_without(views, path@);
                let trimmed = if kept.len() > old(self).max_recent_files {
                    kept.take(old(self).max_recent_files as int)
                } else {
                    kept
                };
                final(self).recent_files@.map_values(|p: String| p@) == trimmed
            }),
            final(self).tick_rate == old(self).tick_rate,
            final(self).default_log_level == old(self).default_log_level,
            final(self).default_app_id == old(self).default_app_id,
            final(self).default_context_id == old(self).default_context_id,
            final(self).max_recent_files == old(self).max_recent_files,
            final(self).theme == old(self).theme,
    {
        let ghost views = self.recent_files@.map_values(|p: String| p@);
        let mut kept: Vec<String> = Vec::new();
        kept.push(path.clone());
        let n = self.recent_files.len();
        let mut i: usize = 0;
        proof {
        assert(views.take(0int) =~= Seq::<Seq<char>>::empty());
            reveal_with_fuel(Seq::filter, 2);
            assert(kept@.map_values(|p: String| p@) =~= seq![path@] + spec_without(
                views.take(0int),
                path@,
            ));
        }
        while i < n
            invariant
                i <= n,
                n == self.recent_files@.len(),
                views == self.recent_files@.map_values(|p: String| p@),
                kept@.map_values(|p: String| p@) =~= seq![path@] + spec_without(
                    views.take(i as int),
                    path@,
                ),
            decreases n - i,
        {
            let candidate = &self.recent_files[i];
            let ghost kept0 = kept@;
            if !str_eq(candidate.as_str(), path.as_str()) {
                kept.push(candidate.clone());
            }
            proof {
                let taken = views.take(i as int);
                let taken1 = views.take(i + 1);
                assert(taken1 =~= taken.push(views[i as int]));
                assert(taken1.drop_last() =~= taken);
                reveal(Seq::filter);
                let pred = (|p: Seq<char>| p != path@);
                if pred(views[i as int]) {
                    assert(taken1.filter(pred) =~= taken.filter(pred).push(views[i as int]));
                    assert(kept@.map_values(|p: String| p@) =~= kept0.map_values(
                        |p: String| p@,
                    ).push(views[i as int]));
                } else {
                    assert(taken1.filter(pred) =~= taken.filter(pred));
                }
                assert(kept@.map_values(|p: String| p@) =~= seq![path@] + spec_without(
                    taken1,
                    path@,
                ));
            }
            i = i + 1;
        }
        proof {
            assert(views.take(n as int) =~= views);
        }
        if kept.len() > self.max_recent_files {
            kept.truncate(self.max_recent_files);
            proof {
                assert(kept@.map_values(|p: String| p@) =~= (seq![path@] + spec_without(
                    views,
                    path@,
                )).take(self.max_recent_files as int));
            }
        }
        self.recent_files = kept;
    }
}

impl Default for Settings {
    /// The out-of-the-box settings.
    fn default() -> (r: Settings)
        ensures
            r.tick_rate == 250,
            r.default_log_level is None,
            r.default_app_id is None,
            r.default_context_id is None,
            r.recent_files@.len() == 0,
            r.max_recent_files == 10,
            r.theme@ == "default"@,
    {
        Settings {
            tick_rate: 250,
            default_log_level: None,
            default_app_id: None,
            default_context_id: None,
            recent_files: Vec::new(),
            max_recent_files: 10,
            theme: default_theme_name(),
        }
    }
}

/// The name of the default theme.
fn default_theme_name() -> (r: String)
    ensures
        r@ == "default"@,
{
    let theme: &str = "default";
    theme.to_owned()
}

} // verus!
