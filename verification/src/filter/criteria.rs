//! Filter criteria: an immutable conjunction of optional constraints on
//! a message's structured fields and payload text.

use vstd::prelude::*;

use crate::codec::{spec_model_of, DltMessage, LogLevel, MessageType, MsgModel, Timestamp};
use crate::error::Error;
use crate::pattern::{re_pattern, regex_is_match, regex_new, spec_regex_accepts,
    spec_regex_compiles};
use crate::text::str_eq;

verus! {

/// Filter criteria over DLT messages.  Every constraint is optional; a
/// message must satisfy all that are present.
#[derive(Debug)]
pub struct FilterCriteria {
    /// Required application identifier.
    pub app_id: Option<String>,
    /// Required context identifier.
    pub context_id: Option<String>,
    /// Required log level.
    pub log_level: Option<LogLevel>,
    /// Inclusive instant range the message timestamp must fall in.
    pub time_range: Option<(Timestamp, Timestamp)>,
    /// Required message class.
    pub message_type: Option<MessageType>,
    /// Pattern the payload text must match.
    pub text_pattern: Option<regex::Regex>,
}

/// The mathematical content of a criteria value.
pub struct CriteriaModel {
    /// Required application identifier.
    pub app_id: Option<Seq<char>>,
    /// Required context identifier.
    pub context_id: Option<Seq<char>>,
    /// Required log level.
    pub log_level: Option<LogLevel>,
    /// Inclusive instant range, in microseconds since the epoch.
    pub time_range: Option<(u64, u64)>,
    /// Required message class.
    pub message_type: Option<MessageType>,
    /// Pattern string the payload text must match.
    pub text_pattern: Option<Seq<char>>,
}

/// The model with no constraints.
pub open spec fn spec_empty_criteria() -> CriteriaModel {
    CriteriaModel {
        app_id: None,
        context_id: None,
        log_level: None,
        time_range: None,
        message_type: None,
        text_pattern: None,
    }
}

/// Whether a message model satisfies every present constraint.
pub open spec fn spec_criteria_matches(c: CriteriaModel, m: MsgModel) -> bool {
    &&& (c.app_id matches Some(a) ==> m.app_id == Some(a))
    &&& (c.context_id matches Some(x) ==> m.context_id == Some(x))
    &&& (c.log_level matches Some(l) ==> m.log_level == Some(l))
    &&& (c.time_range matches Some(r) ==> r.0 <= m.timestamp <= r.1)
    &&& (c.message_type matches Some(t) ==> m.message_type == t)
    &&& (c.text_pattern matches Some(p) ==> m.text matches Some(t) && spec_regex_accepts(p, t))
}

impl FilterCriteria {
    /// The mathematical content of this criteria value.
    pub open spec fn spec_view(self) -> CriteriaModel {
        CriteriaModel {
            app_id: match self.app_id {
                Some(s) => Some(s@),
                None => None,
            },
            context_id: match self.context_id {
                Some(s) => Some(s@),
                None => None,
            },
            log_level: self.log_level,
            time_range: match self.time_range {
                Some(r) => Some((r.0.micros_since_epoch, r.1.micros_since_epoch)),
                None => None,
            },
            message_type: self.message_type,
            text_pattern: match self.text_pattern {
                Some(re) => Some(re_pattern(&re)),
                None => None,
            },
        }
    }

    /// A criteria value with no constraints.
    pub fn new() -> (r: FilterCriteria)
        ensures
            r.spec_view() == spec_empty_criteria(),
    {
        FilterCriteria {
            app_id: None,
            context_id: None,
            log_level: None,
            time_range: None,
            message_type: None,
            text_pattern: None,
        }
    }

    /// Whether a message satisfies every present constraint.
    pub fn matches(&self, message: &DltMessage) -> (r: bool)
        ensures
            r == spec_criteria_matches(self.spec_view(), spec_model_of(*message)),
    {
        if let Some(app_id) = &self.app_id {
            match message.app_id() {
                Some(id) => {
                    if !str_eq(id.as_str(), app_id.as_str()) {
                        return false;
                    }
                },
                None => {
                    return false;
                },
            }
        }
        if let Some(context_id) = &self.context_id {
            match message.context_id() {
                Some(id) => {
                    if !str_eq(id.as_str(), context_id.as_str()) {
                        return false;
                    }
                },
                None => {
                    return false;
                },
            }
        }
        if let Some(log_level) = &self.log_level {
            match message.log_level() {
                Some(level) => {
                    if level != *log_level {
                        return false;
                    }
                },
                None => {
                    return false;
                },
            }
        }
        if let Some(range) = &self.time_range {
            let timestamp = message.timestamp();
            if timestamp.micros_since_epoch < range.0.micros_since_epoch
                || timestamp.micros_since_epoch > range.1.micros_since_epoch {
                return false;
            }
        }
        if let Some(message_type) = &self.message_type {
            if message.message_type() != *message_type {
                return false;
            }
        }
        if let Some(pattern) = &self.text_pattern {
            match &message.payload_text {
                Some(text) => {
                    if !regex_is_match(pattern, text.as_str()) {
                        return false;
                    }
                },
                None => {
                    return false;
                },
            }
        }
        true
    }

    /// Adds an application-identifier constraint.
    pub fn with_app_id(self, app_id: String) -> (r: Self)
        ensures
            r.spec_view() == (CriteriaModel { app_id: Some(app_id@), ..self.spec_view() }),
    {
        FilterCriteria { app_id: Some(app_id), ..self }
    }

    /// Adds a context-identifier constraint.
    pub fn with_context_id(self, context_id: String) -> (r: Self)
        ensures
            r.spec_view() == (CriteriaModel { context_id: Some(context_id@), ..self.spec_view() }),
    {
        FilterCriteria { context_id: Some(context_id), ..self }
    }

    /// Adds a log-level constraint.
    pub fn with_log_level(self, log_level: LogLevel) -> (r: Self)
        ensures
            r.spec_view() == (CriteriaModel { log_level: Some(log_level), ..self.spec_view() }),
    {
        FilterCriteria { log_level: Some(log_level), ..self }
    }

    /// Adds an inclusive time-range constraint.
    pub fn with_time_range(self, start: Timestamp, end: Timestamp) -> (r: Self)
        ensures
            r.spec_view() == (CriteriaModel {
                time_range: Some((start.micros_since_epoch, end.micros_since_epoch)),
                ..self.spec_view()
            }),
    {
        FilterCriteria { time_range: Some((start, end)), ..self }
    }

    /// Adds a message-class constraint.
    pub fn with_message_type(self, message_type: MessageType) -> (r: Self)
        ensures
            r.spec_view() == (CriteriaModel {
                message_type: Some(message_type),
                ..self.spec_view()
            }),
    {
        FilterCriteria { message_type: Some(message_type), ..self }
    }

    /// Adds a payload-text pattern constraint; fails exactly when the
    /// pattern does not compile, leaving nothing changed.
    pub fn with_text_pattern(self, pattern: &str) -> (r: Result<Self, Error>)
        ensures
            r is Ok <==> spec_regex_compiles(pattern@),
            r matches Ok(c) ==> c.spec_view() == (CriteriaModel {
                text_pattern: Some(pattern@),
                ..self.spec_view()
            }),
            r matches Err(e) ==> e == Error::RegexCompile,
    {
        match regex_new(pattern) {
            Some(re) => Ok(FilterCriteria { text_pattern: Some(re), ..self }),
            None => Err(Error::RegexCompile),
        }
    }

    /// Removes every constraint.
    pub fn clear(&mut self)
        ensures
            final(self).spec_view() == spec_empty_criteria(),
    {
        self.app_id = None;
        self.context_id = None;
        self.log_level = None;
        self.time_range = None;
        self.message_type = None;
        self.text_pattern = None;
    }

    /// Whether no constraint is present.
    pub fn is_empty(&self) -> (r: bool)
        ensures
            r == (self.spec_view() == spec_empty_criteria()),
    {
        let r = self.app_id.is_none() && self.context_id.is_none() && self.log_level.is_none()
            && self.time_range.is_none() && self.message_type.is_none()
            && self.text_pattern.is_none();
        proof {
            if r {
                assert(self.spec_view() == spec_empty_criteria());
            } else {
                assert(self.spec_view() != spec_empty_criteria());
            }
        }
        r
    }
}

impl Default for FilterCriteria {
    /// A criteria value with no constraints.
    fn default() -> (r: Self)
        ensures
            r.spec_view() == spec_empty_criteria(),
    {
        FilterCriteria::new()
    }
}

impl Clone for FilterCriteria {
    /// A clone has the same mathematical content.
    fn clone(&self) -> (r: Self)
        ensures
            r.spec_view() == self.spec_view(),
    {
        FilterCriteria {
            app_id: match &self.app_id {
                Some(s) => Some(s.clone()),
                None => None,
            },
            context_id: match &self.context_id {
                Some(s) => Some(s.clone()),
                None => None,
            },
            log_level: self.log_level,
            time_range: self.time_range,
            message_type: self.message_type,
            text_pattern: match &self.text_pattern {
                Some(re) => Some(re.clone()),
                None => None,
            },
        }
    }
}

} // verus!
