use vstd::prelude::*;

use display_interface::DisplayError;
use procfs::ProcError;
use anyhow::Error as AnyhowError;
use std::path::PathBuf;

use crate::sensor::ReadError;
use crate::text::{num_text, push_digits};

verus! {

#[verifier::external_type_specification]
#[verifier::external_body]
pub struct ExAnyhowError(AnyhowError);

#[verifier::external_type_specification]
pub struct ExDisplayError(DisplayError);

#[verifier::external_type_specification]
#[verifier::external_body]
pub struct ExPathBuf(PathBuf);

#[verifier::external_type_specification]
#[verifier::external_body]
pub struct ExIoError(std::io::Error);

#[verifier::external_type_specification]
pub struct ExInternalError(procfs::InternalError);

#[verifier::external_type_specification]
pub struct ExProcError(ProcError);

/// Relies on the `Display` impl of `anyhow::Error`, for its message. That text is the
/// wrapped error's own, which may come from the system, so nothing is claimed of it.
#[verifier::external_body]
fn anyhow_text(e: &AnyhowError) -> String {
    e.to_string()
}

/// Relies on the `Display` impl of `std::io::Error`, for its message.
#[verifier::external_body]
fn io_error_text(e: &std::io::Error) -> String {
    e.to_string()
}

/// What `Path::to_str` gives for `p`: its text, or `None` where it is not valid Unicode.
pub uninterp spec fn path_text_of(p: PathBuf) -> Option<Seq<char>>;

/// Relies on `Path::to_str`: the path as text where it is valid Unicode.
#[verifier::external_body]
fn path_text(p: &PathBuf) -> (r: Option<String>)
    ensures
        match r {
            Some(s) => path_text_of(*p) == Some(s@),
            None => path_text_of(*p) is None,
        },
{
    p.to_str().map(String::from)
}

/// Kinds of display-bus failure.
#[derive(Clone, Copy, Debug, PartialEq, Eq, Structural)]
pub enum DisplayFault {
    BusWrite,
    ChipSelect,
    DataCommand,
    DataFormatNotImplemented,
    InvalidFormat,
    OutOfBounds,
    ResetSignal,
    Unknown,
}

/// The kind of a display-bus error.
pub open spec fn display_fault_of(e: DisplayError) -> DisplayFault {
    match e {
        DisplayError::BusWriteError => DisplayFault::BusWrite,
        DisplayError::CSError => DisplayFault::ChipSelect,
        DisplayError::DCError => DisplayFault::DataCommand,
        DisplayError::DataFormatNotImplemented => DisplayFault::DataFormatNotImplemented,
        DisplayError::InvalidFormatError => DisplayFault::InvalidFormat,
        DisplayError::OutOfBoundsError => DisplayFault::OutOfBounds,
        DisplayError::RSError => DisplayFault::ResetSignal,
        _ => DisplayFault::Unknown,
    }
}

pub open spec fn display_label(k: DisplayFault) -> Seq<char> {
    match k {
        DisplayFault::BusWrite => "BusWriteError"@,
        DisplayFault::ChipSelect => "CSError"@,
        DisplayFault::DataCommand => "DCError"@,
        DisplayFault::DataFormatNotImplemented => "DataFormatNotImplemented"@,
        DisplayFault::InvalidFormat => "InvalidFormatError"@,
        DisplayFault::OutOfBounds => "OutOfBoundsError"@,
        DisplayFault::ResetSignal => "RSError"@,
        DisplayFault::Unknown => "unknown"@,
    }
}

/// The message of a display-bus failure.
pub open spec fn display_message(k: DisplayFault) -> Seq<char> {
    "DisplayError: "@ + display_label(k)
}

impl DisplayFault {
    pub fn from_display_error(e: &DisplayError) -> (r: DisplayFault)
        ensures
            r == display_fault_of(*e),
    {
        match e {
            DisplayError::BusWriteError => DisplayFault::BusWrite,
            DisplayError::CSError => DisplayFault::ChipSelect,
            DisplayError::DCError => DisplayFault::DataCommand,
            DisplayError::DataFormatNotImplemented => DisplayFault::DataFormatNotImplemented,
            DisplayError::InvalidFormatError => DisplayFault::InvalidFormat,
            DisplayError::OutOfBoundsError => DisplayFault::OutOfBounds,
            DisplayError::RSError => DisplayFault::ResetSignal,
            _ => DisplayFault::Unknown,
        }
    }

    pub fn label(self) -> (r: &'static str)
        ensures
            r@ == display_label(self),
    {
        match self {
            DisplayFault::BusWrite => "BusWriteError",
            DisplayFault::ChipSelect => "CSError",
            DisplayFault::DataCommand => "DCError",
            DisplayFault::DataFormatNotImplemented => "DataFormatNotImplemented",
            DisplayFault::InvalidFormat => "InvalidFormatError",
            DisplayFault::OutOfBounds => "OutOfBoundsError",
            DisplayFault::ResetSignal => "RSError",
            DisplayFault::Unknown => "unknown",
        }
    }
}

/// A process-metrics failure, with what its message shows as text. A path is `None` where
/// the failure names none, and `Some(None)` where it is not valid Unicode.
#[derive(Clone, Debug, PartialEq, Eq)]
pub enum ProcFault {
    Incomplete(Option<Option<String>>),
    Internal(String),
    Io(String, Option<Option<String>>),
    NotFound(Option<Option<String>>),
    Other(String),
    Unknown,
}

/// How a path shows in a message: `---` where there is none, `???` where it is not text.
pub open spec fn path_label(p: Option<Option<String>>) -> Seq<char> {
    match p {
        None => "---"@,
        Some(None) => "???"@,
        Some(Some(s)) => s@,
    }
}

pub open spec fn proc_detail(f: ProcFault) -> Seq<char> {
    match f {
        ProcFault::Incomplete(p) => "Incomplete: at "@ + path_label(p),
        ProcFault::Internal(s) => "InternalError: "@ + s@,
        ProcFault::Io(s, p) => "IO: "@ + s@ + " at "@ + path_label(p),
        ProcFault::NotFound(p) => "NotFound: at "@ + path_label(p),
        ProcFault::Other(m) => "Other: "@ + m@,
        ProcFault::Unknown => "unknown"@,
    }
}

/// The message of a process-metrics failure.
pub open spec fn proc_message(f: ProcFault) -> Seq<char> {
    "ProcError: "@ + proc_detail(f)
}

/// The text that procfs shows for an internal error: where it arose, and its message.
pub open spec fn internal_text(e: procfs::InternalError) -> Seq<char> {
    "bug at "@ + e.file@ + seq![':'] + num_text(e.line as nat, 10, 1)
        + " (please report this procfs bug)\n"@ + e.msg@
}

fn internal_error_text(e: &procfs::InternalError) -> (r: String)
    ensures
        r@ == internal_text(*e),
{
    let mut s = String::from_str("bug at ").concat(e.file);
    s.push(':');
    push_digits(&mut s, e.line as u64, 10, 1);
    s.append(" (please report this procfs bug)\n");
    s.append(e.msg.as_str());
    s
}

/// Whether the fault gives the text of the error's path, `Some(None)` where that path is not
/// text, and no path where the error has none.
pub open spec fn same_path(p: Option<PathBuf>, q: Option<Option<String>>) -> bool {
    match (p, q) {
        (None, None) => true,
        (Some(path), Some(None)) => path_text_of(path) is None,
        (Some(path), Some(Some(text))) => path_text_of(path) == Some(text@),
        _ => false,
    }
}

/// Whether `f` is the kind of `e`, with the text of its path, of its internal error, or its
/// own message where `e` is `Other`. (The text of an I/O error comes from the system and is
/// left open.)
pub open spec fn describes(f: ProcFault, e: ProcError) -> bool {
    match e {
        ProcError::Incomplete(p) => f matches ProcFault::Incomplete(q) && same_path(p, q),
        ProcError::InternalError(ie) => f matches ProcFault::Internal(s) && s@
            == internal_text(ie),
        ProcError::Io(_, p) => f matches ProcFault::Io(_, q) && same_path(p, q),
        ProcError::NotFound(p) => f matches ProcFault::NotFound(q) && same_path(p, q),
        ProcError::Other(m) => f matches ProcFault::Other(s) && s@ == m@,
        _ => f is Unknown,
    }
}

/// Text of an optional path: `Some(None)` where it is not valid Unicode.
fn optional_path_text(p: &Option<PathBuf>) -> (r: Option<Option<String>>)
    ensures
        same_path(*p, r),
{
    match p {
        None => None,
        Some(path) => Some(path_text(path)),
    }
}

impl ProcFault {
    pub fn from_proc_error(e: &ProcError) -> (r: ProcFault)
        ensures
            describes(r, *e),
    {
        match e {
            ProcError::Incomplete(p) => ProcFault::Incomplete(optional_path_text(p)),
            ProcError::InternalError(ie) => ProcFault::Internal(internal_error_text(ie)),
            ProcError::Io(ioe, p) => ProcFault::Io(io_error_text(ioe), optional_path_text(p)),
            ProcError::NotFound(p) => ProcFault::NotFound(optional_path_text(p)),
            ProcError::Other(m) => ProcFault::Other(m.clone()),
            _ => ProcFault::Unknown,
        }
    }
}

/// How a path shows in a message: `---` where there is none, `???` where it is not text.
pub fn pathbuf_to_string(path: Option<Option<String>>) -> (r: String)
    ensures
        r@ == path_label(path),
{
    match path {
        None => String::from_str("---"),
        Some(None) => String::from_str("???"),
        Some(Some(s)) => s,
    }
}

fn proc_detail_text(f: ProcFault) -> (r: String)
    ensures
        r@ == proc_detail(f),
{
    match f {
        ProcFault::Incomplete(p) => String::from_str("Incomplete: at ").concat(
            pathbuf_to_string(p).as_str(),
        ),
        ProcFault::Internal(s) => String::from_str("InternalError: ").concat(s.as_str()),
        ProcFault::Io(s, p) => String::from_str("IO: ").concat(s.as_str()).concat(" at ").concat(
            pathbuf_to_string(p).as_str(),
        ),
        ProcFault::NotFound(p) => String::from_str("NotFound: at ").concat(
            pathbuf_to_string(p).as_str(),
        ),
        ProcFault::Other(m) => String::from_str("Other: ").concat(m.as_str()),
        ProcFault::Unknown => String::from_str("unknown"),
    }
}

/// The message of a failed sensor read.
pub open spec fn read_message(e: ReadError) -> Seq<char> {
    match e {
        ReadError::Io => "IO: the value could not be read"@,
        ReadError::InvalidData => "InvalidData: the value is not a number"@,
    }
}

/// The error behind an `Error`, kept as it came.
pub enum Cause {
    /// An error of any other source.
    Other(AnyhowError),
    /// A display-bus error.
    Display(DisplayError),
    /// A process-metrics error.
    Proc(ProcError),
    /// A failed sensor read, with no outside error behind it.
    Sensor(ReadError),
}

/// One error for every failure of the panel: a message, and the error that caused it.
pub struct Error {
    msg: String,
    source: Cause,
}

fn read_message_text(e: ReadError) -> (r: String)
    ensures
        r@ == read_message(e),
{
    match e {
        ReadError::Io => String::from_str("IO: the value could not be read"),
        ReadError::InvalidData => String::from_str("InvalidData: the value is not a number"),
    }
}

impl Error {
    pub closed spec fn message(&self) -> Seq<char> {
        self.msg@
    }

    pub closed spec fn source_error(&self) -> Cause {
        self.source
    }

    pub fn new(msg: &str, src: AnyhowError) -> (r: Error)
        ensures
            r.message() == msg@,
            r.source_error() == Cause::Other(src),
    {
        Error { msg: String::from_str(msg), source: Cause::Other(src) }
    }

    pub fn msg(&self) -> (r: &str)
        ensures
            r@ == self.message(),
    {
        self.msg.as_str()
    }

    /// The error that caused this one.
    pub fn cause(&self) -> (r: &Cause)
        ensures
            *r == self.source_error(),
    {
        &self.source
    }

    /// The text shown for the error.
    pub fn to_string(&self) -> (r: String)
        ensures
            r@ == "Error: "@ + self.message(),
    {
        String::from_str("Error: ").concat(self.msg.as_str())
    }

    /// An error caused by `value`, with its text as the message. That text comes from outside
    /// (for an I/O error, from the system), so only the cause is stated.
    pub fn from_anyhow(value: AnyhowError) -> (r: Error)
        ensures
            r.source_error() == Cause::Other(value),
    {
        Error { msg: anyhow_text(&value), source: Cause::Other(value) }
    }

    /// Splits the error into its message and its cause.
    pub fn into_parts(self) -> (r: (String, Cause))
        ensures
            r.0@ == self.message(),
            r.1 == self.source_error(),
    {
        (self.msg, self.source)
    }

    /// An error for a failed sensor read with no outside error behind it.
    pub fn from_read_error(e: ReadError) -> (r: Error)
        ensures
            r.message() == read_message(e),
            r.source_error() == Cause::Sensor(e),
    {
        Error { msg: read_message_text(e), source: Cause::Sensor(e) }
    }

    /// An error for a failed sensor read, caused by `cause`, the outside error behind it; the
    /// message gives the kind of failure and then the text of `cause`.
    pub fn from_read_failure(e: ReadError, cause: AnyhowError) -> (r: Error)
        ensures
            exists|text: Seq<char>| r.message() == read_message(e) + ": "@ + text,
            r.source_error() == Cause::Other(cause),
    {
        let text = anyhow_text(&cause);
        let msg = read_message_text(e).concat(": ").concat(text.as_str());
        assert(msg@ == read_message(e) + ": "@ + text@);
        Error { msg, source: Cause::Other(cause) }
    }

    /// An error for the display-bus error `value`, caused by it.
    pub fn from_display_error(value: DisplayError) -> (r: Error)
        ensures
            r.message() == display_message(display_fault_of(value)),
            r.source_error() == Cause::Display(value),
    {
        let kind = DisplayFault::from_display_error(&value);
        let msg = String::from_str("DisplayError: ").concat(kind.label());
        Error { msg, source: Cause::Display(value) }
    }

    /// An error for the process-metrics failure `fault`, caused by `cause`.
    pub fn from_proc_fault(fault: ProcFault, cause: AnyhowError) -> (r: Error)
        ensures
            r.message() == proc_message(fault),
            r.source_error() == Cause::Other(cause),
    {
        let msg = String::from_str("ProcError: ").concat(proc_detail_text(fault).as_str());
        Error { msg, source: Cause::Other(cause) }
    }

    /// An error for the process-metrics failure `value`, caused by it.
    pub fn from_proc_error(value: ProcError) -> (r: Error)
        ensures
            exists|f: ProcFault| describes(f, value) && r.message() == proc_message(f),
            r.source_error() == Cause::Proc(value),
    {
        let fault = ProcFault::from_proc_error(&value);
        let ghost f = fault;
        let msg = String::from_str("ProcError: ").concat(proc_detail_text(fault).as_str());
        assert(describes(f, value) && msg@ == proc_message(f));
        let r = Error { msg, source: Cause::Proc(value) };
        assert(describes(f, value) && r.message() == proc_message(f));
        r
    }
}

/// Every kind of display-bus failure gives a message that is not empty and that no other
/// kind gives.
pub proof fn display_messages_are_specific(a: DisplayFault, b: DisplayFault)
    ensures
        display_message(a).len() > 0,
        display_message(a) == display_message(b) ==> a == b,
{
    reveal_strlit("DisplayError: ");
    reveal_strlit("BusWriteError");
    reveal_strlit("CSError");
    reveal_strlit("DCError");
    reveal_strlit("DataFormatNotImplemented");
    reveal_strlit("InvalidFormatError");
    reveal_strlit("OutOfBoundsError");
    reveal_strlit("RSError");
    reveal_strlit("unknown");
    if display_message(a) == display_message(b) {
        assert(display_message(a).skip(14) =~= display_label(a));
        assert(display_message(b).skip(14) =~= display_label(b));
        assert(display_label(a)[0] == display_label(b)[0]);
        assert(display_label(a).len() == display_label(b).len());
    }
}

/// Whether two process-metrics faults are of one kind.
pub open spec fn same_kind(f: ProcFault, g: ProcFault) -> bool {
    match (f, g) {
        (ProcFault::Incomplete(_), ProcFault::Incomplete(_)) => true,
        (ProcFault::Internal(_), ProcFault::Internal(_)) => true,
        (ProcFault::Io(_, _), ProcFault::Io(_, _)) => true,
        (ProcFault::NotFound(_), ProcFault::NotFound(_)) => true,
        (ProcFault::Other(_), ProcFault::Other(_)) => true,
        (ProcFault::Unknown, ProcFault::Unknown) => true,
        _ => false,
    }
}

/// Every process-metrics fault gives a message that is not empty, and faults of two kinds
/// never give the same message.
pub proof fn proc_messages_are_specific(f: ProcFault, g: ProcFault)
    ensures
        proc_message(f).len() > 0,
        proc_message(f) == proc_message(g) ==> same_kind(f, g),
{
    reveal_strlit("ProcError: ");
    reveal_strlit("Incomplete: at ");
    reveal_strlit("InternalError: ");
    reveal_strlit("IO: ");
    reveal_strlit("NotFound: at ");
    reveal_strlit("Other: ");
    reveal_strlit("unknown");
    assert(proc_detail(f).len() >= 4);
    assert(proc_detail(g).len() >= 4);
    if proc_message(f) == proc_message(g) {
        assert(proc_message(f).skip(11) =~= proc_detail(f));
        assert(proc_message(g).skip(11) =~= proc_detail(g));
        assert(proc_detail(f)[0] == proc_detail(g)[0]);
        assert(proc_detail(f)[1] == proc_detail(g)[1]);
        assert(proc_detail(f)[2] == proc_detail(g)[2]);
    }
}

} // verus!
