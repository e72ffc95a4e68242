use vstd::prelude::*;
use vstd::string::*;

verus! {

#[verifier::external_type_specification]
#[verifier::external_body]
pub struct ExBacktrace(std::backtrace::Backtrace);

/// Relies on std::backtrace::Backtrace::capture: records the call stack when
/// the environment asks for it, otherwise an empty trace.
#[verifier::external_body]
fn capture_backtrace() -> std::backtrace::Backtrace {
    std::backtrace::Backtrace::capture()
}

/// What caused an error.
#[derive(Debug, Clone, Copy, PartialEq, Eq, Structural)]
pub enum ErrorKind {
    /// A known-unsupported branch.
    NotImplemented,
    /// An argument that the operation cannot accept.
    InvalidArgument,
    /// Values of differing types where one type was required.
    TypeMismatch,
    /// Columns or batches whose shapes disagree.
    SchemaMismatch,
    /// A missing column or catalog entry.
    Lookup,
    /// A failure of a source or sink.
    Io,
    /// A failed numeric or format conversion.
    Conversion,
    /// Anything else.
    Other,
}

/// The error of every fallible operation: a kind, a message, an optional
/// underlying error and the call stack where it was made.
#[derive(Debug)]
pub struct RayexecError {
    pub kind: ErrorKind,
    /// Message for the error.
    pub msg: String,
    /// Source of the error.
    pub source: Option<Box<RayexecError>>,
    /// Captured backtrace for the error.
    pub backtrace: std::backtrace::Backtrace,
}

pub type Result<T> = core::result::Result<T, RayexecError>;

impl RayexecError {
    /// An error with the given message and no source.
    pub fn new(msg: &str) -> (r: Self)
        ensures
            r.kind == ErrorKind::Other,
            r.msg@ == msg@,
            r.source is None,
    {
        Self::with_kind(ErrorKind::Other, msg)
    }

    /// An error of the given kind and message, with no source.
    pub fn with_kind(kind: ErrorKind, msg: &str) -> (r: Self)
        ensures
            r.kind == kind,
            r.msg@ == msg@,
            r.source is None,
    {
        RayexecError { kind, msg: String::from_str(msg), source: None, backtrace: capture_backtrace() }
    }

    /// An error with the given message caused by `source`; it keeps the kind
    /// of its source.
    pub fn with_source(msg: &str, source: RayexecError) -> (r: Self)
        ensures
            r.kind == source.kind,
            r.msg@ == msg@,
            r.source == Some(Box::new(source)),
    {
        let kind = source.kind;
        RayexecError {
            kind,
            msg: String::from_str(msg),
            source: Some(Box::new(source)),
            backtrace: capture_backtrace(),
        }
    }

    pub fn get_backtrace(&self) -> (r: &std::backtrace::Backtrace)
        ensures
            *r == self.backtrace,
    {
        &self.backtrace
    }

    /// This error as text: its message, then each source's after
    /// `\nError source: `.
    pub open spec fn display_text(&self) -> Seq<char>
        decreases *self,
    {
        match &self.source {
            Some(s) => self.msg@ + "\nError source: "@ + s.display_text(),
            None => self.msg@,
        }
    }

    /// This error as text: its message, then each source's after
    /// `\nError source: `.
    pub fn to_display_string(&self) -> (r: String)
        ensures
            r@ == self.display_text(),
        decreases *self,
    {
        let mut out = self.msg.clone();
        match &self.source {
            Some(s) => {
                out.append("\nError source: ");
                let rest = s.to_display_string();
                out.append(rest.as_str());
            },
            None => {},
        }
        out
    }

    /// The messages of this error and of its sources, outermost first.
    pub open spec fn message_chain(&self) -> Seq<Seq<char>>
        decreases *self,
    {
        match &self.source {
            Some(s) => seq![self.msg@] + s.message_chain(),
            None => seq![self.msg@],
        }
    }
}

/// Adds context to the error of a result.
pub trait ResultExt<T>: Sized {
    /// Wraps the error, if any, with a context message.
    fn context(self, msg: &str) -> Result<T>;

    /// Wraps the error, if any, with a context message that `f` makes; `f`
    /// is called only on an error.
    fn context_fn<F: Fn() -> String>(self, f: F) -> Result<T>
        requires
            f.requires(()),
    ;
}

impl<T> ResultExt<T> for Result<T> {
    fn context(self, msg: &str) -> (r: Result<T>)
        ensures
            self matches Ok(v) ==> r == Ok::<T, RayexecError>(v),
            self matches Err(e) ==> (r matches Err(w) && w.kind == e.kind && w.msg@ == msg@
                && w.source == Some(Box::new(e))),
    {
        with_context(self, msg)
    }

    fn context_fn<F: Fn() -> String>(self, f: F) -> (r: Result<T>)
        ensures
            self matches Ok(v) ==> r == Ok::<T, RayexecError>(v),
            self matches Err(e) ==> (r matches Err(w) && w.kind == e.kind && w.source == Some(
                Box::new(e),
            ) && exists|m: String| f.ensures((), m) && w.msg@ == m@),
    {
        match self {
            Ok(v) => Ok(v),
            Err(e) => {
                let msg = f();
                Err(RayexecError::with_source(msg.as_str(), e))
            },
        }
    }
}

/// Wraps the error of `res`, if any, with a context message; a success is
/// passed on unchanged.
pub fn with_context<T>(res: Result<T>, msg: &str) -> (r: Result<T>)
    ensures
        res matches Ok(v) ==> r == Ok::<T, RayexecError>(v),
        res matches Err(e) ==> r matches Err(w) && w.kind == e.kind && w.msg@ == msg@
            && w.source == Some(Box::new(e)),
{
    match res {
        Ok(v) => Ok(v),
        Err(e) => Err(RayexecError::with_source(msg, e)),
    }
}

} // verus!
