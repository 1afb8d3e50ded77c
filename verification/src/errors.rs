//! The error taxonomy: argument errors abort before any file is touched;
//! configuration errors abort before walking begins. Every value renders to
//! one human-readable line.

use vstd::prelude::*;

verus! {

/// A malformed invocation, found while the options are assembled.
#[derive(Debug, PartialEq, Eq)]
pub enum ArgumentError {
    Conflict { message: String },
}

/// What is wrong with one field of a rule table.
#[derive(Debug, PartialEq, Eq)]
pub enum SpecificFieldError {
    /// The field is present but has the wrong shape.
    FieldType { expected: String, actual: String },
    /// A required field is absent.
    MissingField,
    /// A file-type glob cannot be compiled.
    InvalidGlob { glob: String, message: String },
    /// The search pattern is rejected by the pattern engine.
    Pattern { message: String },
}

/// A field error together with the field it concerns; the field name carries
/// the owning rule's name as a prefix for diagnostics.
#[derive(Debug, PartialEq, Eq)]
pub struct FieldError {
    pub field: String,
    pub error: SpecificFieldError,
}

/// What is wrong with the configuration document as a whole.
#[derive(Debug, PartialEq, Eq)]
pub enum SpecificConfigError {
    Field(FieldError),
    Io { message: String },
    Syntax { message: String },
}

/// A configuration error, optionally tagged with the file it came from.
#[derive(Debug, PartialEq, Eq)]
pub struct ConfigError {
    pub file: Option<String>,
    pub error: SpecificConfigError,
}

/// Any error that aborts a run.
#[derive(Debug, PartialEq, Eq)]
pub enum Error {
    Argument(ArgumentError),
    Config(ConfigError),
}

/// The one-line text of a field error's specific part.
pub open spec fn spec_render_specific_field(e: SpecificFieldError) -> Seq<char> {
    match e {
        SpecificFieldError::FieldType { expected, actual } => "Incorrect type: expected '"@
            + expected@ + "', actual '"@ + actual@ + "'"@,
        SpecificFieldError::MissingField => "Missing field"@,
        SpecificFieldError::InvalidGlob { glob, message } => "Invalid glob '"@ + glob@ + "': "@
            + message@,
        SpecificFieldError::Pattern { message } => "Invalid pattern: "@ + message@,
    }
}

/// The one-line text of a field error.
pub open spec fn spec_render_field(e: FieldError) -> Seq<char> {
    e.field@ + ": "@ + spec_render_specific_field(e.error)
}

/// The one-line text of a configuration error's specific part.
pub open spec fn spec_render_specific_config(e: SpecificConfigError) -> Seq<char> {
    match e {
        SpecificConfigError::Field(f) => spec_render_field(f),
        SpecificConfigError::Io { message } => message@,
        SpecificConfigError::Syntax { message } => message@,
    }
}

/// The one-line text of a configuration error, led by the file it came from.
pub open spec fn spec_render_config(e: ConfigError) -> Seq<char> {
    match e.file {
        Some(file) => file@ + ": "@ + spec_render_specific_config(e.error),
        None => spec_render_specific_config(e.error),
    }
}

/// The one-line text of any error.
pub open spec fn spec_render_error(e: Error) -> Seq<char> {
    match e {
        Error::Argument(a) => match a {
            ArgumentError::Conflict { message } => message@,
        },
        Error::Config(c) => spec_render_config(c),
    }
}

impl SpecificFieldError {
    /// One line of text describing this error.
    pub fn render(&self) -> (r: String)
        ensures
            r@ == spec_render_specific_field(*self),
    {
        match self {
            SpecificFieldError::FieldType { expected, actual } => {
                let mut s = "Incorrect type: expected '".to_owned();
                s.append(expected.as_str());
                s.append("', actual '");
                s.append(actual.as_str());
                s.append("'");
                s
            },
            SpecificFieldError::MissingField => "Missing field".to_owned(),
            SpecificFieldError::InvalidGlob { glob, message } => {
                let mut s = "Invalid glob '".to_owned();
                s.append(glob.as_str());
                s.append("': ");
                s.append(message.as_str());
                s
            },
            SpecificFieldError::Pattern { message } => {
                let mut s = "Invalid pattern: ".to_owned();
                s.append(message.as_str());
                s
            },
        }
    }
}

impl FieldError {
    /// Pair a field name with what is wrong with the field.
    pub fn new(field: &str, error: SpecificFieldError) -> (r: FieldError)
        ensures
            r.field@ == field@,
            r.error == error,
    {
        FieldError { field: field.to_owned(), error }
    }

    /// Prefix the field name with its context, most often the owning rule's
    /// name, so that diagnostics name both.
    pub fn prefix(self, pre: &str) -> (r: FieldError)
        ensures
            r.field@ == pre@ + "."@ + self.field@,
            r.error == self.error,
    {
        let mut field = pre.to_owned();
        field.append(".");
        field.append(self.field.as_str());
        FieldError { field, error: self.error }
    }

    /// One line of text describing this error.
    pub fn render(&self) -> (r: String)
        ensures
            r@ == spec_render_field(*self),
    {
        let mut s = self.field.clone();
        s.append(": ");
        let specific = self.error.render();
        s.append(specific.as_str());
        s
    }
}

impl ConfigError {
    /// Wrap a field error as a configuration error.
    pub fn from_field(error: FieldError) -> (r: ConfigError)
        ensures
            r == (ConfigError { file: None, error: SpecificConfigError::Field(error) }),
    {
        ConfigError { file: None, error: SpecificConfigError::Field(error) }
    }

    /// Wrap an unreadable file's description as a configuration error.
    pub fn from_io(message: String) -> (r: ConfigError)
        ensures
            r == (ConfigError { file: None, error: SpecificConfigError::Io { message } }),
    {
        ConfigError { file: None, error: SpecificConfigError::Io { message } }
    }

    /// Wrap malformed document text's description as a configuration error.
    pub fn from_syntax(message: String) -> (r: ConfigError)
        ensures
            r == (ConfigError { file: None, error: SpecificConfigError::Syntax { message } }),
    {
        ConfigError { file: None, error: SpecificConfigError::Syntax { message } }
    }

    /// Tag this error with the configuration file it came from.
    pub fn add_path(self, file: Option<String>) -> (r: ConfigError)
        ensures
            r.file == file,
            r.error == self.error,
    {
        ConfigError { file, error: self.error }
    }

    /// One line of text describing this error.
    pub fn render(&self) -> (r: String)
        ensures
            r@ == spec_render_config(*self),
    {
        let specific = match &self.error {
            SpecificConfigError::Field(f) => f.render(),
            SpecificConfigError::Io { message } => message.clone(),
            SpecificConfigError::Syntax { message } => message.clone(),
        };
        match &self.file {
            Some(file) => {
                let mut s = file.clone();
                s.append(": ");
                s.append(specific.as_str());
                s
            },
            None => specific,
        }
    }
}

impl Error {
    /// One line of text describing this error.
    pub fn render(&self) -> (r: String)
        ensures
            r@ == spec_render_error(*self),
    {
        match self {
            Error::Argument(a) => match a {
                ArgumentError::Conflict { message } => message.clone(),
            },
            Error::Config(c) => c.render(),
        }
    }
}

} // verus!
