//! Configuration of the stage, and the build-time errors it can raise.

use vstd::prelude::*;

verus! {

/// How metric tag values are exposed to the script: one string per tag, or
/// the full array of values.
#[derive(Clone, Copy, Debug, PartialEq, Eq, Structural)]
pub enum MetricTagValues {
    Single,
    Full,
}

impl Default for MetricTagValues {
    /// A single value per tag.
    fn default() -> (r: MetricTagValues)
        ensures
            r == MetricTagValues::Single,
    {
        MetricTagValues::Single
    }
}

/// The time zone applied to timestamp conversions without an explicit zone:
/// the system's local zone, or a zone named in the TZ database.
#[derive(Debug, PartialEq)]
pub enum TimeZone {
    Local,
    Named(String),
}

impl Clone for TimeZone {
    /// A copy equal to the original.
    fn clone(&self) -> (r: TimeZone)
        ensures
            r == *self,
    {
        match self {
            TimeZone::Local => TimeZone::Local,
            TimeZone::Named(name) => TimeZone::Named(name.clone()),
        }
    }
}

impl Default for TimeZone {
    /// The system's local zone.
    fn default() -> (r: TimeZone)
        ensures
            r == TimeZone::Local,
    {
        TimeZone::Local
    }
}

/// Configuration of one instance of the stage.
#[derive(Debug)]
pub struct RemapConfig {
    /// The script to execute for each event; required if `file` is missing.
    pub source: Option<String>,
    /// Path of a file holding the script; required if `source` is missing.
    pub file: Option<String>,
    /// How metric tag values are exposed to the script.
    pub metric_tag_values: MetricTagValues,
    /// A per-instance override of the pipeline's time zone.
    pub timezone: Option<TimeZone>,
    /// Drops any event that encounters an error during processing instead of
    /// forwarding the original, unmodified event.
    pub drop_on_error: bool,
    /// Drops any event whose processing is aborted by the script instead of
    /// forwarding the original, unmodified event.
    pub drop_on_abort: bool,
    /// Reroutes dropped events to a named output instead of discarding them,
    /// annotated with the reason they were dropped.
    pub reroute_dropped: bool,
}

impl Clone for RemapConfig {
    /// A copy equal to the original.
    fn clone(&self) -> (r: RemapConfig)
        ensures
            r == *self,
    {
        RemapConfig {
            source: match &self.source {
                Some(s) => Some(s.clone()),
                None => None,
            },
            file: match &self.file {
                Some(s) => Some(s.clone()),
                None => None,
            },
            metric_tag_values: self.metric_tag_values,
            timezone: match &self.timezone {
                Some(tz) => Some(tz.clone()),
                None => None,
            },
            drop_on_error: self.drop_on_error,
            drop_on_abort: self.drop_on_abort,
            reroute_dropped: self.reroute_dropped,
        }
    }
}

impl Default for RemapConfig {
    /// No script, no file, and every policy switched off.
    fn default() -> (r: RemapConfig)
        ensures
            r.source is None,
            r.file is None,
            r.metric_tag_values == MetricTagValues::Single,
            r.timezone is None,
            !r.drop_on_error,
            !r.drop_on_abort,
            !r.reroute_dropped,
    {
        RemapConfig {
            source: None,
            file: None,
            metric_tag_values: MetricTagValues::Single,
            timezone: None,
            drop_on_error: false,
            drop_on_abort: false,
            reroute_dropped: false,
        }
    }
}

/// A failure to build the stage from its configuration.
#[derive(Debug, PartialEq)]
pub enum BuildError {
    /// Neither or both of `source` and `file` were given.
    SourceAndOrFile,
    /// The script file could not be opened.
    FileOpenFailed { path: String, error: String },
    /// The script file could not be read.
    FileReadFailed { path: String, error: String },
}

impl BuildError {
    /// A human-readable description of the failure.
    pub fn message(&self) -> (r: String)
        ensures
            match self {
                BuildError::SourceAndOrFile => r@
                    == "must provide exactly one of `source` or `file` configuration"@,
                BuildError::FileOpenFailed { path, error } => r@ == "Could not open vrl program "@
                    + path@ + ": "@ + error@,
                BuildError::FileReadFailed { path, error } => r@ == "Could not read vrl program "@
                    + path@ + ": "@ + error@,
            },
    {
        match self {
            BuildError::SourceAndOrFile => {
                "must provide exactly one of `source` or `file` configuration".to_owned()
            },
            BuildError::FileOpenFailed { path, error } => {
                let mut m = "Could not open vrl program ".to_owned();
                m.append(path.as_str());
                m.append(": ");
                m.append(error.as_str());
                m
            },
            BuildError::FileReadFailed { path, error } => {
                let mut m = "Could not read vrl program ".to_owned();
                m.append(path.as_str());
                m.append(": ");
                m.append(error.as_str());
                m
            },
        }
    }
}

/// Where the script's text comes from: inline configuration text, or a file
/// that the surrounding program must read.
#[derive(Debug, PartialEq)]
pub enum SourceInput {
    Text(String),
    FilePath(String),
}

impl RemapConfig {
    /// The script input this configuration names. Exactly one of `source` and
    /// `file` must be present; anything else is a build error.
    pub fn source_input(&self) -> (r: Result<SourceInput, BuildError>)
        ensures
            match (self.source, self.file) {
                (Some(s), None) => r == Ok::<SourceInput, BuildError>(SourceInput::Text(s)),
                (None, Some(p)) => r == Ok::<SourceInput, BuildError>(SourceInput::FilePath(p)),
                _ => r == Err::<SourceInput, BuildError>(BuildError::SourceAndOrFile),
            },
    {
        match (&self.source, &self.file) {
            (Some(s), None) => Ok(SourceInput::Text(s.clone())),
            (None, Some(p)) => Ok(SourceInput::FilePath(p.clone())),
            _ => Err(BuildError::SourceAndOrFile),
        }
    }
}

} // verus!
