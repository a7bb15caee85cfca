//! The errors that the library reports, and the system errors that they come from.
use nix::errno::Errno;
use vstd::prelude::*;
use vstd::string::*;

verus! {

/// What kind of failure an [`IoError`] is.
#[derive(Clone, Copy, Debug, PartialEq, Eq, Structural)]
pub enum ErrorKind {
    /// The operation would have had to wait.
    WouldBlock,
    /// Any other failure.
    Other,
}

/// An input/output error, with the message that describes it.
#[derive(Debug, PartialEq, Eq)]
pub struct IoError {
    pub kind: ErrorKind,
    pub message: String,
}

/// An [`IoError`] with its message as a sequence of characters.
pub struct IoErrorView {
    pub kind: ErrorKind,
    pub message: Seq<char>,
}

impl View for IoError {
    type V = IoErrorView;

    open spec fn view(&self) -> IoErrorView {
        IoErrorView { kind: self.kind, message: self.message@ }
    }
}

#[verifier::external_type_specification]
#[verifier::external_body]
pub struct ExErrno(Errno);

/// Whether a system error is `EAGAIN`.
pub uninterp spec fn errno_is_again(e: Errno) -> bool;

/// The text that describes a system error.
pub uninterp spec fn errno_text(e: Errno) -> Seq<char>;

/// Calls `==` of `nix::errno::Errno`: the result says whether the error is `Errno::EAGAIN`.
#[verifier::external_body]
fn is_again(e: &Errno) -> (r: bool)
    ensures
        r == errno_is_again(*e),
{
    *e == Errno::EAGAIN
}

/// Calls `Display` of `nix::errno::Errno`: the result is the text of the error, which the
/// error alone decides.
#[verifier::external_body]
fn describe(e: &Errno) -> (r: String)
    ensures
        r@ == errno_text(*e),
{
    format!("{}", e)
}

impl IoErrorView {
    /// A failure that is not about waiting: `prefix` followed by the text of the system error.
    pub open spec fn of_text(prefix: Seq<char>, text: Seq<char>) -> IoErrorView {
        IoErrorView { kind: ErrorKind::Other, message: prefix + text }
    }

    /// A failed transfer: `blocked` if the system said to try again, else as any failure.
    pub open spec fn of_transfer(
        blocked: Seq<char>,
        prefix: Seq<char>,
        again: bool,
        text: Seq<char>,
    ) -> IoErrorView {
        if again {
            IoErrorView { kind: ErrorKind::WouldBlock, message: blocked }
        } else {
            IoErrorView::of_text(prefix, text)
        }
    }
}

impl IoError {
    /// An error of kind `Other` with the message `prefix` followed by `text`.
    pub fn of_text(prefix: &str, text: &str) -> (r: IoError)
        ensures
            r@ == IoErrorView::of_text(prefix@, text@),
    {
        IoError { kind: ErrorKind::Other, message: prefix.to_owned().concat(text) }
    }

    /// The error for a transfer that failed with a system error, which is `EAGAIN` where
    /// `again` says so and is described by `text`.
    pub fn of_transfer(blocked: &str, prefix: &str, again: bool, text: &str) -> (r: IoError)
        ensures
            r@ == IoErrorView::of_transfer(blocked@, prefix@, again, text@),
    {
        if again {
            IoError { kind: ErrorKind::WouldBlock, message: blocked.to_owned() }
        } else {
            IoError::of_text(prefix, text)
        }
    }

    /// The error for a failure that is not about waiting, caused by the system error `e`.
    pub fn described(prefix: &str, e: &Errno) -> (r: IoError)
        ensures
            r@ == IoErrorView::of_text(prefix@, errno_text(*e)),
    {
        let text = describe(e);
        IoError::of_text(prefix, text.as_str())
    }

    /// The error for a transfer that failed with the system error `e`.
    pub fn transfer(blocked: &str, prefix: &str, e: &Errno) -> (r: IoError)
        ensures
            r@ == IoErrorView::of_transfer(blocked@, prefix@, errno_is_again(*e), errno_text(*e)),
    {
        let again = is_again(e);
        let text = describe(e);
        IoError::of_transfer(blocked, prefix, again, text.as_str())
    }
}

} // verus!
