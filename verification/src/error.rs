//! The library's error type: a stable code, an exit status and a
//! suggestion for each failure class.
//!
//! Codes E001–E007 are stable strings that are never removed or repurposed;
//! E099 carries errors that have no class of their own.

use vstd::prelude::*;

use crate::text::lit;

verus! {

#[verifier::external_type_specification]
#[verifier::external_body]
pub struct ExIoError(std::io::Error);

#[verifier::external_type_specification]
#[verifier::external_body]
pub struct ExIoErrorKind(std::io::ErrorKind);

/// The failure classes of the tool.
///
/// | Code  | Domain                    | Exit code |
/// |-------|---------------------------|-----------|
/// | E001  | Configuration             | 2         |
/// | E002  | I/O                       | 3         |
/// | E003  | Profile                   | 2         |
/// | E004  | Glossary                  | 1         |
/// | E005  | Translation / Provider    | 4         |
/// | E006  | Validation                | 1         |
/// | E007  | State                     | 70        |
/// | E099  | Unclassified              | 70        |
#[derive(Debug)]
pub enum Error {
    Config(String),
    Io(std::io::Error),
    ProfileNotFound { name: String },
    Glossary(String),
    Provider { kind: String, detail: String },
    Validation { message: String },
    State(String),
    Other(String),
}

pub type Result<T> = core::result::Result<T, Error>;

/// The stable code of each failure class.
pub open spec fn error_code(e: Error) -> Seq<char> {
    match e {
        Error::Config(_) => "E001"@,
        Error::Io(_) => "E002"@,
        Error::ProfileNotFound { .. } => "E003"@,
        Error::Glossary(_) => "E004"@,
        Error::Provider { .. } => "E005"@,
        Error::Validation { .. } => "E006"@,
        Error::State(_) => "E007"@,
        Error::Other(_) => "E099"@,
    }
}

/// The process exit status of each failure class.
pub open spec fn error_exit_code(e: Error) -> i32 {
    match e {
        Error::Config(_) => 2,
        Error::Io(_) => 3,
        Error::ProfileNotFound { .. } => 2,
        Error::Glossary(_) => 1,
        Error::Provider { .. } => 4,
        Error::Validation { .. } => 1,
        Error::State(_) => 70,
        Error::Other(_) => 70,
    }
}

/// The suggestion shown with each failure class.
pub open spec fn error_suggestion(e: Error) -> Option<Seq<char>> {
    match e {
        Error::Config(_) => Some("Run 'cipher doctor' for configuration diagnostics."@),
        Error::Io(_) => Some("Check that the path exists and is readable and writable."@),
        Error::ProfileNotFound { .. } => Some("Run 'cipher profile list' to see available profiles."@),
        Error::Glossary(_) => Some("Check the glossary JSON format (book/glossary.json)."@),
        Error::Provider { .. } => Some("Run 'cipher profile test' to check your API key and model settings."@),
        Error::Validation { .. } => Some("Fix the reported issue and try again."@),
        Error::State(_) => Some("This looks like an internal error — rerun with --verbose and report it."@),
        Error::Other(_) => None,
    }
}

/// The displayed message of every failure class but I/O, whose text
/// includes the operating system's own message.
pub open spec fn error_message(e: Error) -> Seq<char> {
    match e {
        Error::Config(m) => "config error: "@ + m@,
        Error::Io(_) => "I/O error: "@,
        Error::ProfileNotFound { name } => "profile '"@ + name@ + "' not found"@,
        Error::Glossary(m) => "glossary error: "@ + m@,
        Error::Provider { kind, detail } => kind@ + " request failed: "@ + detail@,
        Error::Validation { message } => message@,
        Error::State(m) => "state error: "@ + m@,
        Error::Other(m) => m@,
    }
}

/// The text that an I/O error made by `io::Error::new` displays: the text
/// of its payload. (Errors of the operating system display a text that
/// follows the locale; this name is only ever said of errors made by `new`.)
pub uninterp spec fn io_message_of(e: std::io::Error) -> Option<Seq<char>>;

/// The displayed text of an `std::io::Error` (its `Display`). For an error
/// made by `io::Error::new` that is its payload's text; of other errors
/// nothing is stated, as their text follows the locale.
#[verifier::external_body]
fn io_error_text(e: &std::io::Error) -> (r: String)
    ensures
        io_message_of(*e) is Some ==> r@ == io_message_of(*e)->0,
{
    format!("{e}")
}

/// The kind of an I/O error, as `std::io::Error::kind` reports it.
pub uninterp spec fn io_kind_of(e: std::io::Error) -> std::io::ErrorKind;

/// `std::io::Error::kind`: the result is the error's kind, a function of
/// the error alone.
#[verifier::external_body]
fn io_error_kind(e: &std::io::Error) -> (k: std::io::ErrorKind)
    ensures
        k == io_kind_of(*e),
{
    e.kind()
}

/// `std::io::Error::new` with a message: its documentation says the new
/// error has the given kind and holds the message as its payload, which is
/// what it displays.
#[verifier::external_body]
fn io_error_new(kind: std::io::ErrorKind, message: String) -> (r: std::io::Error)
    ensures
        io_kind_of(r) == kind,
        io_message_of(r) == Some(message@),
{
    std::io::Error::new(kind, message)
}

/// `e` has the kind of `source` and displays `context`, `": "`, then the
/// text of `source` (stated when `source` was made by `io::Error::new`).
pub open spec fn io_with_context(e: std::io::Error, context: Seq<char>, source: std::io::Error) -> bool {
    let prefix = context + ": "@;
    &&& io_kind_of(e) == io_kind_of(source)
    &&& io_message_of(e) is Some
    &&& io_message_of(e)->0.len() >= prefix.len()
    &&& io_message_of(e)->0.take(prefix.len() as int) == prefix
    &&& io_message_of(source) is Some ==> io_message_of(e)->0 == prefix + io_message_of(source)->0
}

impl Error {
    pub fn code(&self) -> (r: &'static str)
        ensures
            r@ == error_code(*self),
    {
        match self {
            Error::Config(_) => "E001",
            Error::Io(_) => "E002",
            Error::ProfileNotFound { .. } => "E003",
            Error::Glossary(_) => "E004",
            Error::Provider { .. } => "E005",
            Error::Validation { .. } => "E006",
            Error::State(_) => "E007",
            Error::Other(_) => "E099",
        }
    }

    pub fn exit_code(&self) -> (r: i32)
        ensures
            r == error_exit_code(*self),
    {
        match self {
            Error::Config(_) => 2,
            Error::Io(_) => 3,
            Error::ProfileNotFound { .. } => 2,
            Error::Glossary(_) => 1,
            Error::Provider { .. } => 4,
            Error::Validation { .. } => 1,
            Error::State(_) => 70,
            Error::Other(_) => 70,
        }
    }

    pub fn suggestion(&self) -> (r: Option<&'static str>)
        ensures
            match r {
                Some(s) => error_suggestion(*self) == Some(s@),
                None => error_suggestion(*self) is None,
            },
    {
        match self {
            Error::Config(_) => Some("Run 'cipher doctor' for configuration diagnostics."),
            Error::Io(_) => Some("Check that the path exists and is readable and writable."),
            Error::ProfileNotFound { .. } => Some("Run 'cipher profile list' to see available profiles."),
            Error::Glossary(_) => Some("Check the glossary JSON format (book/glossary.json)."),
            Error::Provider { .. } => Some("Run 'cipher profile test' to check your API key and model settings."),
            Error::Validation { .. } => Some("Fix the reported issue and try again."),
            Error::State(_) => Some("This looks like an internal error — rerun with --verbose and report it."),
            Error::Other(_) => None,
        }
    }

    /// The displayed message: validation errors show bare, the others name
    /// their class.
    pub fn to_string(&self) -> (r: String)
        ensures
            !(*self is Io) ==> r@ == error_message(*self),
            *self is Io ==> r@.len() >= error_message(*self).len() && r@.take(
                error_message(*self).len() as int,
            ) == error_message(*self),
            *self matches Error::Io(e) ==> (io_message_of(e) is Some ==> r@ == error_message(*self) + io_message_of(
                e,
            )->0),
    {
        match self {
            Error::Config(m) => {
                let mut r = lit("config error: ");
                r.append(m.as_str());
                r
            },
            Error::Io(e) => {
                let mut r = lit("I/O error: ");
                let t = io_error_text(e);
                r.append(t.as_str());
                assert(r@.take("I/O error: "@.len() as int) =~= "I/O error: "@);
                r
            },
            Error::ProfileNotFound { name } => {
                let mut r = lit("profile '");
                r.append(name.as_str());
                r.append("' not found");
                r
            },
            Error::Glossary(m) => {
                let mut r = lit("glossary error: ");
                r.append(m.as_str());
                r
            },
            Error::Provider { kind, detail } => {
                let mut r = kind.clone();
                r.append(" request failed: ");
                r.append(detail.as_str());
                r
            },
            Error::Validation { message } => message.clone(),
            Error::State(m) => {
                let mut r = lit("state error: ");
                r.append(m.as_str());
                r
            },
            Error::Other(m) => m.clone(),
        }
    }

    /// An I/O error with the kind of `source` whose message is `context`,
    /// `": "` and the displayed text of `source` (E002). That text is stated
    /// when `source` was itself made by `io::Error::new`; the text of an
    /// operating-system error follows the locale and is not.
    pub fn io(context: &str, source: std::io::Error) -> (r: Error)
        ensures
            r matches Error::Io(e) && io_with_context(e, context@, source),
    {
        let kind = io_error_kind(&source);
        let mut message = lit(context);
        message.append(": ");
        let text = io_error_text(&source);
        message.append(text.as_str());
        proof {
            let prefix = context@ + ": "@;
            assert(message@ == prefix + text@);
            assert(message@.take(prefix.len() as int) =~= prefix);
        }
        Error::Io(io_error_new(kind, message))
    }
}

impl Error {
    /// The error for JSON that could not be written or read, from the JSON
    /// library's description of the failure (E007).
    pub fn json(description: &str) -> (r: Error)
        ensures
            r matches Error::State(m) && m@ == "JSON error: "@ + description@,
    {
        let mut m = lit("JSON error: ");
        m.append(description);
        Error::State(m)
    }
}

impl From<std::io::Error> for Error {
    fn from(e: std::io::Error) -> (r: Error) {
        Error::Io(e)
    }
}

impl vstd::std_specs::convert::FromSpecImpl<std::io::Error> for Error {
    open spec fn obeys_from_spec() -> bool {
        true
    }

    open spec fn from_spec(e: std::io::Error) -> Error {
        Error::Io(e)
    }
}

} // verus!
