//! What can go wrong around the jukebox, and how it is reported.

use vstd::prelude::*;
use vstd::string::StringExecFns;

verus! {

/// A failure of one of the jukebox's collaborators.
///
/// The collaborators' own error values stay with the code that talks to them;
/// a variant holds the text such a value gave for itself.
#[derive(Debug, PartialEq, Eq)]
pub enum Error {
    /// Reading or writing failed.
    Io(String),
    /// The hotspot could not be switched.
    Wifi(String),
    /// A track could not be decoded.
    Decoder(String),
    /// A track could not be played.
    Play(String),
    /// The audio output could not be opened.
    Stream(String),
    /// A channel was closed on the sending side.
    Recv,
    /// A file could not be opened.
    File(String),
    /// The card reader's USB connection failed.
    Rusb(String),
    /// A card identity could not be sent: the receiver is gone.
    Send(String),
    /// The lock around the library was poisoned.
    MutexPoison,
}

/// Mathematical model of an [`Error`].
pub enum ErrorView {
    Io(Seq<char>),
    Wifi(Seq<char>),
    Decoder(Seq<char>),
    Play(Seq<char>),
    Stream(Seq<char>),
    Recv,
    File(Seq<char>),
    Rusb(Seq<char>),
    Send(Seq<char>),
    MutexPoison,
}

impl View for Error {
    type V = ErrorView;

    open spec fn view(&self) -> ErrorView {
        match self {
            Error::Io(text) => ErrorView::Io(text@),
            Error::Wifi(text) => ErrorView::Wifi(text@),
            Error::Decoder(text) => ErrorView::Decoder(text@),
            Error::Play(text) => ErrorView::Play(text@),
            Error::Stream(text) => ErrorView::Stream(text@),
            Error::Recv => ErrorView::Recv,
            Error::File(text) => ErrorView::File(text@),
            Error::Rusb(text) => ErrorView::Rusb(text@),
            Error::Send(text) => ErrorView::Send(text@),
            Error::MutexPoison => ErrorView::MutexPoison,
        }
    }
}

impl ErrorView {
    /// Whether the control loop has to end on this failure.  A poisoned lock
    /// means that the library can no longer be trusted; every other failure is
    /// logged and the loop goes on with the next event.
    pub open spec fn ends_control_loop(self) -> bool {
        self is MutexPoison
    }

    /// The line that reports the error: what failed, then the failure's own text.
    pub open spec fn message(self) -> Seq<char> {
        match self {
            ErrorView::Io(text) => "IO error: "@ + text,
            ErrorView::Wifi(text) => "WiFi error: "@ + text,
            ErrorView::Decoder(text) => "Decoder error: "@ + text,
            ErrorView::Play(text) => "Play error: "@ + text,
            ErrorView::Stream(text) => "Stream error: "@ + text,
            ErrorView::Recv => "Receiver channel error"@,
            ErrorView::File(text) => "File error: "@ + text,
            ErrorView::Rusb(text) => "Rusb error: "@ + text,
            ErrorView::Send(text) => "Send error: "@ + text,
            ErrorView::MutexPoison => "Mutex poison error"@,
        }
    }
}

/// `text` behind `prefix`.
fn prefixed(prefix: &str, text: &String) -> (line: String)
    ensures
        line@ == prefix@ + text@,
{
    prefix.to_owned().concat(text.as_str())
}

impl Error {
    /// Whether the control loop has to end on this failure.
    pub fn ends_control_loop(&self) -> (fatal: bool)
        ensures
            fatal == self@.ends_control_loop(),
    {
        match self {
            Error::MutexPoison => true,
            _ => false,
        }
    }

    /// The line that reports the error.
    pub fn message(&self) -> (line: String)
        ensures
            line@ == self@.message(),
    {
        match self {
            Error::Io(text) => prefixed("IO error: ", text),
            Error::Wifi(text) => prefixed("WiFi error: ", text),
            Error::Decoder(text) => prefixed("Decoder error: ", text),
            Error::Play(text) => prefixed("Play error: ", text),
            Error::Stream(text) => prefixed("Stream error: ", text),
            Error::Recv => "Receiver channel error".to_owned(),
            Error::File(text) => prefixed("File error: ", text),
            Error::Rusb(text) => prefixed("Rusb error: ", text),
            Error::Send(text) => prefixed("Send error: ", text),
            Error::MutexPoison => "Mutex poison error".to_owned(),
        }
    }
}

} // verus!
