//! Error and result types for the library.

use vstd::prelude::*;
use vstd::string::*;

verus! {

/// Convenience alias used throughout the crate.
pub type Result<T> = core::result::Result<T, Error>;

/// Errors produced while discovering, controlling, or capturing from a device.
#[derive(Debug, Clone)]
pub enum Error {
    /// A USB operation (enumerate, open, claim, transfer) failed; holds the
    /// transport's own description of the failure.
    Usb(String),
    /// An I/O error, e.g. while reading the capture stream or writing output.
    Io(String),
    /// No device matched the requested criteria.
    NoDevice,
    /// More than one device matched and no selector was given.
    AmbiguousDevice,
    /// The device or backend does not support the requested operation.
    Unsupported(&'static str),
    /// The device returned data that did not match the expected protocol.
    Protocol(String),
}

/// What an [`Error`] says, with its text as a sequence of characters.
pub enum ErrorView {
    Usb(Seq<char>),
    Io(Seq<char>),
    NoDevice,
    AmbiguousDevice,
    Unsupported(Seq<char>),
    Protocol(Seq<char>),
}

impl View for Error {
    type V = ErrorView;

    open spec fn view(&self) -> ErrorView {
        match *self {
            Error::Usb(s) => ErrorView::Usb(s@),
            Error::Io(s) => ErrorView::Io(s@),
            Error::NoDevice => ErrorView::NoDevice,
            Error::AmbiguousDevice => ErrorView::AmbiguousDevice,
            Error::Unsupported(s) => ErrorView::Unsupported(s@),
            Error::Protocol(s) => ErrorView::Protocol(s@),
        }
    }
}

impl ErrorView {
    /// The human-readable description of the error.
    pub open spec fn text(self) -> Seq<char> {
        match self {
            ErrorView::Usb(s) => "USB error: "@ + s,
            ErrorView::Io(s) => "I/O error: "@ + s,
            ErrorView::NoDevice => "no matching magic USB device found"@,
            ErrorView::AmbiguousDevice =>
                "multiple devices match; select one (e.g. by serial number)"@,
            ErrorView::Unsupported(s) => "unsupported: "@ + s,
            ErrorView::Protocol(s) => "protocol error: "@ + s,
        }
    }
}

/// The description of an error starts with what kind of error it is and ends with its own
/// text, whole.
pub proof fn errors_say_what_they_are(t: Seq<char>)
    ensures
        ErrorView::Usb(t).text() == "USB error: "@ + t,
        ErrorView::Io(t).text() == "I/O error: "@ + t,
        ErrorView::Unsupported(t).text() == "unsupported: "@ + t,
        ErrorView::Protocol(t).text() == "protocol error: "@ + t,
        ErrorView::NoDevice.text() == "no matching magic USB device found"@,
        ErrorView::AmbiguousDevice.text()
            == "multiple devices match; select one (e.g. by serial number)"@,
{
}

impl Error {
    /// The human-readable description of the error.
    pub fn message(&self) -> (s: String)
        ensures
            s@ == self@.text(),
    {
        match self {
            Error::Usb(t) => "USB error: ".to_owned().concat(t.as_str()),
            Error::Io(t) => "I/O error: ".to_owned().concat(t.as_str()),
            Error::NoDevice => "no matching magic USB device found".to_owned(),
            Error::AmbiguousDevice =>
                "multiple devices match; select one (e.g. by serial number)".to_owned(),
            Error::Unsupported(t) => "unsupported: ".to_owned().concat(t),
            Error::Protocol(t) => "protocol error: ".to_owned().concat(t.as_str()),
        }
    }

    /// The same error again.
    pub(crate) fn copied(&self) -> (e: Error)
        ensures
            e@ == self@,
    {
        match self {
            Error::Usb(t) => Error::Usb(t.as_str().to_owned()),
            Error::Io(t) => Error::Io(t.as_str().to_owned()),
            Error::NoDevice => Error::NoDevice,
            Error::AmbiguousDevice => Error::AmbiguousDevice,
            Error::Unsupported(t) => Error::Unsupported(t),
            Error::Protocol(t) => Error::Protocol(t.as_str().to_owned()),
        }
    }
}

/// What a result holds: the contents of its value, or of its error.
pub open spec fn result_view<T: View>(r: Result<T>) -> core::result::Result<T::V, ErrorView> {
    match r {
        Ok(t) => Ok(t@),
        Err(e) => Err(e@),
    }
}

/// Whether `r` is a protocol error carrying exactly `text`.
pub open spec fn is_protocol_error<T>(r: Result<T>, text: Seq<char>) -> bool {
    r matches Err(e) && e@ == ErrorView::Protocol(text)
}

} // verus!
