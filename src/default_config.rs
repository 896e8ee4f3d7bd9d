use vstd::prelude::*;

use crate::config::{Config, ConfigModel};
use crate::parser::SearchMode;
use crate::ErrorKind;

verus! {

/// What a builder has gathered so far.
pub struct PartialModel {
    pub query: Option<Seq<char>>,
    pub filename: Option<Seq<char>>,
    pub help: bool,
    pub search_mode: SearchMode,
}

impl PartialModel {
    /// Nothing gathered yet: no query, no file name, no help, case-insensitive.
    pub open spec fn fresh() -> PartialModel {
        PartialModel {
            query: None,
            filename: None,
            help: false,
            search_mode: SearchMode::CaseInsensitive,
        }
    }

    pub open spec fn with_help(self, help: bool) -> PartialModel {
        PartialModel { help, ..self }
    }

    pub open spec fn with_query(self, query: Seq<char>) -> PartialModel {
        PartialModel { query: Some(query), ..self }
    }

    pub open spec fn with_filename(self, filename: Seq<char>) -> PartialModel {
        PartialModel { filename: Some(filename), ..self }
    }

    /// The value of a case-sensitivity flag: exactly `true` turns case
    /// sensitivity on, anything else leaves the mode as it was.
    pub open spec fn with_case_value(self, value: Seq<char>) -> PartialModel {
        if value == "true"@ {
            PartialModel { search_mode: SearchMode::CaseSensitive, ..self }
        } else {
            self
        }
    }

    /// The finished configuration, or why there is none: a query must be set
    /// and non-empty, then a file name likewise.
    pub open spec fn finish(self) -> Result<ConfigModel, ErrorKind> {
        if self.query is None || self.query->0.len() == 0 {
            Err(ErrorKind::QueryEmpty)
        } else if self.filename is None || self.filename->0.len() == 0 {
            Err(ErrorKind::FilenameEmpty)
        } else {
            Ok(
                ConfigModel {
                    query: self.query->0,
                    filename: self.filename->0,
                    help: self.help,
                    search_mode: self.search_mode,
                },
            )
        }
    }
}

/// The text of an optional string.
pub open spec fn opt_text(o: Option<String>) -> Option<Seq<char>> {
    match o {
        Some(s) => Some(s@),
        None => None,
    }
}

/// Gathers the parts of a configuration while the command line is read.
#[derive(Debug)]
pub struct DefaultConfig {
    query: Option<String>,
    filename: Option<String>,
    help: bool,
    search_mode: SearchMode,
}

impl View for DefaultConfig {
    type V = PartialModel;

    closed spec fn view(&self) -> PartialModel {
        PartialModel {
            query: opt_text(self.query),
            filename: opt_text(self.filename),
            help: self.help,
            search_mode: self.search_mode,
        }
    }
}

impl DefaultConfig {
    /// An empty builder.
    pub fn new() -> (r: DefaultConfig)
        ensures
            r@ == PartialModel::fresh(),
    {
        DefaultConfig { query: None, filename: None, help: false, search_mode: SearchMode::CaseInsensitive }
    }

    pub fn set_help(&mut self, new: bool)
        ensures
            final(self)@ == old(self)@.with_help(new),
    {
        self.help = new;
    }

    /// Takes the query when one is given; `None` changes nothing.
    pub fn set_query(&mut self, new: Option<&String>)
        ensures
            final(self)@ == match new {
                Some(s) => old(self)@.with_query(s@),
                None => old(self)@,
            },
    {
        if let Some(b) = new {
            self.query = Some(b.clone());
        }
    }

    /// Takes the file name when one is given; `None` changes nothing.
    pub fn set_file(&mut self, new: Option<&String>)
        ensures
            final(self)@ == match new {
                Some(s) => old(self)@.with_filename(s@),
                None => old(self)@,
            },
    {
        if let Some(b) = new {
            self.filename = Some(b.clone());
        }
    }

    /// Turns case sensitivity on when given exactly `true`; anything else,
    /// or nothing, changes nothing.
    pub fn set_case_sensitive(&mut self, new: Option<&String>)
        ensures
            final(self)@ == match new {
                Some(s) => old(self)@.with_case_value(s@),
                None => old(self)@,
            },
    {
        if let Some(b) = new {
            if same_text(b.as_str(), "true") {
                self.search_mode = SearchMode::CaseSensitive;
            }
        }
    }

    /// The configuration gathered, or which part of it is missing.
    pub fn into_config(self) -> (r: Result<Config, ErrorKind>)
        ensures
            crate::config::outcome(r) == self@.finish(),
    {
        let query = match self.query {
            Some(q) => q,
            None => return Err(ErrorKind::QueryEmpty),
        };
        if query.as_str().is_empty() {
            return Err(ErrorKind::QueryEmpty);
        }
        let filename = match self.filename {
            Some(f) => f,
            None => return Err(ErrorKind::FilenameEmpty),
        };
        if filename.as_str().is_empty() {
            return Err(ErrorKind::FilenameEmpty);
        }
        Ok(Config::new(filename, query, self.help, self.search_mode))
    }
}

/// Whether two texts are the same, character for character.
pub fn same_text(a: &str, b: &str) -> (r: bool)
    ensures
        r == (a@ == b@),
{
    let a_owned: String = a.to_owned();
    let b_owned: String = b.to_owned();
    a_owned.eq(&b_owned)
}

} // verus!
