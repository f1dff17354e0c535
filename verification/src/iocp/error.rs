//! Errors of the IOCP driver, and how they are reported in one line.
use vstd::prelude::*;
use vstd::string::*;
use crate::text::{decimal, decimal_string, push_char};

verus! {

/// What went wrong inside the driver.
#[derive(Debug, Clone, Copy, PartialEq, Eq, Structural)]
pub enum IocpError {
    DriverInit,
    CompletionWait,
    Submission,
    Rio,
    ResolveFd,
    Socket,
    Win32,
    InvalidInput,
    InvalidState,
    Internal,
}

impl IocpError {
    /// The error in words.
    pub fn message(self) -> (s: &'static str)
        ensures
            s@ == (match self {
                IocpError::DriverInit => "IOCP driver initialization failed"@,
                IocpError::CompletionWait => "IOCP completion wait failed"@,
                IocpError::Submission => "IOCP operation submission failed"@,
                IocpError::Rio => "RIO operation failed"@,
                IocpError::ResolveFd => "failed to resolve IO handle"@,
                IocpError::Socket => "socket operation failed"@,
                IocpError::Win32 => "Win32 API call failed"@,
                IocpError::InvalidInput => "invalid input"@,
                IocpError::InvalidState => "invalid internal state"@,
                IocpError::Internal => "internal error"@,
            }),
    {
        match self {
            IocpError::DriverInit => "IOCP driver initialization failed",
            IocpError::CompletionWait => "IOCP completion wait failed",
            IocpError::Submission => "IOCP operation submission failed",
            IocpError::Rio => "RIO operation failed",
            IocpError::ResolveFd => "failed to resolve IO handle",
            IocpError::Socket => "socket operation failed",
            IocpError::Win32 => "Win32 API call failed",
            IocpError::InvalidInput => "invalid input",
            IocpError::InvalidState => "invalid internal state",
            IocpError::Internal => "internal error",
        }
    }
}

/// What went wrong in the RIO backend.
#[derive(Debug, Clone, Copy, PartialEq, Eq, Structural)]
pub enum RioError {
    LibraryLoad,
    BufferRegistration,
    CqCreation,
    RqCreation,
    Datapath,
    ResourceExhaustion,
    NotSupported,
    Internal,
}

impl RioError {
    /// The error in words.
    pub fn message(self) -> (s: &'static str)
        ensures
            s@ == (match self {
                RioError::LibraryLoad => "RIO library or function pointers load failure"@,
                RioError::BufferRegistration => "failed to register memory buffer for RIO"@,
                RioError::CqCreation => "failed to create RIO completion queue"@,
                RioError::RqCreation => "failed to create RIO request queue"@,
                RioError::Datapath => "RIO datapath operation error"@,
                RioError::ResourceExhaustion => "RIO resource limit reached"@,
                RioError::NotSupported => "RIO not supported or initialized"@,
                RioError::Internal => "RIO internal inconsistency"@,
            }),
    {
        match self {
            RioError::LibraryLoad => "RIO library or function pointers load failure",
            RioError::BufferRegistration => "failed to register memory buffer for RIO",
            RioError::CqCreation => "failed to create RIO completion queue",
            RioError::RqCreation => "failed to create RIO request queue",
            RioError::Datapath => "RIO datapath operation error",
            RioError::ResourceExhaustion => "RIO resource limit reached",
            RioError::NotSupported => "RIO not supported or initialized",
            RioError::Internal => "RIO internal inconsistency",
        }
    }
}

/// Where an error came up.
#[derive(Debug, Clone, Copy, PartialEq, Eq, Structural)]
pub enum IocpErrorContext {
    CompletionWait,
    Rio,
}

impl IocpErrorContext {
    /// The context in words, in specifications.
    pub open spec fn text(self) -> Seq<char> {
        match self {
            IocpErrorContext::CompletionWait => "IOCP completion wait failed"@,
            IocpErrorContext::Rio => "RIO operation failed"@,
        }
    }

    /// The context in words.
    pub fn message(self) -> (s: &'static str)
        ensures
            s@ == self.text(),
    {
        match self {
            IocpErrorContext::CompletionWait => "IOCP completion wait failed",
            IocpErrorContext::Rio => "RIO operation failed",
        }
    }

    /// The error that stands for the context.
    pub fn error(self) -> (e: IocpError)
        ensures
            self is CompletionWait ==> e is CompletionWait,
            self is Rio ==> e is Rio,
    {
        match self {
            IocpErrorContext::CompletionWait => IocpError::CompletionWait,
            IocpErrorContext::Rio => IocpError::Rio,
        }
    }
}

/// A character as it appears in a report: line breaks are written as escapes.
pub open spec fn sanitized_char(c: char) -> Seq<char> {
    if c == '\n' {
        seq!['\\', 'n']
    } else if c == '\r' {
        seq!['\\', 'r']
    } else {
        seq![c]
    }
}

/// A text as it appears in a report.
pub open spec fn sanitized(s: Seq<char>) -> Seq<char>
    decreases s.len(),
{
    if s.len() == 0 {
        Seq::empty()
    } else {
        sanitized(s.drop_last()) + sanitized_char(s.last())
    }
}

/// Writes line breaks as escapes, so that a text fits on one line.
pub fn sanitize_field(s: &str) -> (r: String)
    ensures
        r@ == sanitized(s@),
{
    let n: usize = s.unicode_len();
    let mut r = String::new();
    let mut i: usize = 0;
    while i < n
        invariant
            n == s@.len(),
            i <= n,
            r@ == sanitized(s@.take(i as int)),
        decreases n - i,
    {
        let c: char = s.get_char(i);
        proof {
            assert(s@.take(i + 1).drop_last() =~= s@.take(i as int));
            assert(s@.take(i + 1).last() == c);
        }
        push_sanitized(&mut r, c);
        i = i + 1;
    }
    assert(s@.take(n as int) =~= s@);
    r
}

fn push_sanitized(r: &mut String, c: char)
    ensures
        final(r)@ == old(r)@ + sanitized_char(c),
{
    if c == '\n' {
        push_char(r, '\\');
        push_char(r, 'n');
        assert(r@ =~= old(r)@ + sanitized_char(c));
    } else if c == '\r' {
        push_char(r, '\\');
        push_char(r, 'r');
        assert(r@ =~= old(r)@ + sanitized_char(c));
    } else {
        push_char(r, c);
        assert(r@ =~= old(r)@ + sanitized_char(c));
    }
}

/// A sanitised text holds no line break.
pub proof fn sanitized_fits_on_one_line(s: Seq<char>)
    ensures
        !sanitized(s).contains('\n'),
        !sanitized(s).contains('\r'),
    decreases s.len(),
{
    if s.len() > 0 {
        sanitized_fits_on_one_line(s.drop_last());
        let a = sanitized(s.drop_last());
        let b = sanitized_char(s.last());
        assert forall|k: int| 0 <= k < (a + b).len() implies (a + b)[k] != '\n' && (a + b)[k]
            != '\r' by {
            if k < a.len() {
                assert(a.contains(a[k]));
            } else {
                assert((a + b)[k] == b[k - a.len()]);
            }
        }
    }
}

/// A text without line breaks is left as it is.
pub proof fn sanitizing_keeps_single_lines(s: Seq<char>)
    requires
        !s.contains('\n'),
        !s.contains('\r'),
    ensures
        sanitized(s) == s,
    decreases s.len(),
{
    if s.len() > 0 {
        let d = s.drop_last();
        assert(s.last() == s[s.len() - 1]);
        assert(s.contains(s.last()));
        assert forall|c: char| d.contains(c) implies s.contains(c) by {
            let k = d.index_of(c);
            assert(s[k] == c);
        }
        sanitizing_keeps_single_lines(d);
        assert(sanitized(s) =~= s);
    } else {
        assert(sanitized(s) =~= s);
    }
}

/// The report line of an error whose parts are written out.
pub open spec fn line_of(
    ctx: IocpErrorContext,
    detail: Seq<char>,
    source: Seq<char>,
    os_code: Seq<char>,
) -> Seq<char> {
    "context="@ + ctx.text() + "; detail="@ + sanitized(detail) + "; source="@ + source
        + "; os_error="@ + os_code
}

/// Writes the report line of an error whose source and system error number are
/// already written out.
pub fn report_line(ctx: IocpErrorContext, detail: &str, source: &str, os_code: &str) -> (r: String)
    ensures
        r@ == line_of(ctx, detail@, source@, os_code@),
{
    let mut r = String::from_str("context=");
    r.append(ctx.message());
    r.append("; detail=");
    r.append(sanitize_field(detail).as_str());
    r.append("; source=");
    r.append(source);
    r.append("; os_error=");
    r.append(os_code);
    r
}

/// Writes the report line of an error. What is not known is written as `none`.
pub fn structured_line(
    ctx: IocpErrorContext,
    detail: &str,
    source: Option<&str>,
    os_code: Option<i32>,
) -> (r: String)
    ensures
        r@ == line_of(
            ctx,
            detail@,
            match source {
                Some(s) => sanitized(s@),
                None => "none"@,
            },
            match os_code {
                Some(v) => decimal(v as int),
                None => "none"@,
            },
        ),
{
    let source: String = match source {
        Some(s) => sanitize_field(s),
        None => String::from_str("none"),
    };
    let os_code: String = match os_code {
        Some(v) => decimal_string(v),
        None => String::from_str("none"),
    };
    report_line(ctx, detail, source.as_str(), os_code.as_str())
}

/// What kind of failure the driver reports.
#[derive(Debug, Clone, Copy, PartialEq, Eq, Structural)]
pub enum DriverErrorKind {
    Submission,
    Completion,
    Registration,
    System,
    InvalidInput,
    InvalidState,
    Timeout,
    Internal,
}

} // verus!
