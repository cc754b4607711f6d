//! What can go wrong, in words.

use vstd::prelude::*;

use crate::text;

verus! {

/// An error of the library or of what surrounds it. Errors from outside are carried as
/// their text.
#[derive(Debug, PartialEq, Eq)]
pub enum Error {
    Io(String),
    WebSocket(String),
    Http(String),
    Serde(String),
    Mdns(String),
    Config(String),
    Clipboard(String),
    Protocol(String),
    Pairing(String),
    /// The store at that path is held by another process.
    StoreBusy(String),
    PayloadTooLarge { size: usize, max: usize },
}

/// The contents of an `Error`.
pub enum ErrorView {
    Io(Seq<char>),
    WebSocket(Seq<char>),
    Http(Seq<char>),
    Serde(Seq<char>),
    Mdns(Seq<char>),
    Config(Seq<char>),
    Clipboard(Seq<char>),
    Protocol(Seq<char>),
    Pairing(Seq<char>),
    StoreBusy(Seq<char>),
    PayloadTooLarge { size: usize, max: usize },
}

impl View for Error {
    type V = ErrorView;

    open spec fn view(&self) -> ErrorView {
        match *self {
            Error::Io(e) => ErrorView::Io(e@),
            Error::WebSocket(e) => ErrorView::WebSocket(e@),
            Error::Http(e) => ErrorView::Http(e@),
            Error::Serde(e) => ErrorView::Serde(e@),
            Error::Mdns(e) => ErrorView::Mdns(e@),
            Error::Config(e) => ErrorView::Config(e@),
            Error::Clipboard(e) => ErrorView::Clipboard(e@),
            Error::Protocol(e) => ErrorView::Protocol(e@),
            Error::Pairing(e) => ErrorView::Pairing(e@),
            Error::StoreBusy(e) => ErrorView::StoreBusy(e@),
            Error::PayloadTooLarge { size, max } => ErrorView::PayloadTooLarge { size, max },
        }
    }
}

impl ErrorView {
    /// What the error says.
    pub open spec fn text(self) -> Seq<char> {
        match self {
            ErrorView::Io(e) => "io error: "@ + e,
            ErrorView::WebSocket(e) => "websocket error: "@ + e,
            ErrorView::Http(e) => "http error: "@ + e,
            ErrorView::Serde(e) => "serde error: "@ + e,
            ErrorView::Mdns(e) => "mDNS error: "@ + e,
            ErrorView::Config(e) => "config error: "@ + e,
            ErrorView::Clipboard(e) => "clipboard backend unavailable: "@ + e,
            ErrorView::Protocol(e) => "invalid protocol message: "@ + e,
            ErrorView::Pairing(e) => "pairing failed: "@ + e,
            ErrorView::StoreBusy(e) => "store busy: "@ + e,
            ErrorView::PayloadTooLarge { size, max } => "payload too large: "@ + text::decimal_of(
                size as nat,
            ) + " bytes (max "@ + text::decimal_of(max as nat) + ")"@,
        }
    }
}

impl Error {
    /// What the error says.
    pub fn to_string(&self) -> (r: String)
        ensures
            r@ == self@.text(),
    {
        match self {
            Error::Io(e) => text::join("io error: ", e.as_str()),
            Error::WebSocket(e) => text::join("websocket error: ", e.as_str()),
            Error::Http(e) => text::join("http error: ", e.as_str()),
            Error::Serde(e) => text::join("serde error: ", e.as_str()),
            Error::Mdns(e) => text::join("mDNS error: ", e.as_str()),
            Error::Config(e) => text::join("config error: ", e.as_str()),
            Error::Clipboard(e) => text::join("clipboard backend unavailable: ", e.as_str()),
            Error::Protocol(e) => text::join("invalid protocol message: ", e.as_str()),
            Error::Pairing(e) => text::join("pairing failed: ", e.as_str()),
            Error::StoreBusy(e) => text::join("store busy: ", e.as_str()),
            Error::PayloadTooLarge { size, max } => {
                let mut r = "payload too large: ".to_owned();
                r.append(text::decimal(*size as u64).as_str());
                r.append(" bytes (max ");
                r.append(text::decimal(*max as u64).as_str());
                r.append(")");
                r
            },
        }
    }
}

/// What an error says is its sort and its reason; of what is too large, both sizes.
pub proof fn law_errors_in_words(e: Error, r: String)
    requires
        call_ensures(Error::to_string, (&e,), r),
    ensures
        e is Io ==> r@ == "io error: "@ + e->Io_0@,
        e is WebSocket ==> r@ == "websocket error: "@ + e->WebSocket_0@,
        e is Http ==> r@ == "http error: "@ + e->Http_0@,
        e is Serde ==> r@ == "serde error: "@ + e->Serde_0@,
        e is Mdns ==> r@ == "mDNS error: "@ + e->Mdns_0@,
        e is Config ==> r@ == "config error: "@ + e->Config_0@,
        e is Clipboard ==> r@ == "clipboard backend unavailable: "@ + e->Clipboard_0@,
        e is Protocol ==> r@ == "invalid protocol message: "@ + e->Protocol_0@,
        e is Pairing ==> r@ == "pairing failed: "@ + e->Pairing_0@,
        e is PayloadTooLarge ==> r@ == "payload too large: "@ + text::decimal_of(e->size as nat)
            + " bytes (max "@ + text::decimal_of(e->max as nat) + ")"@,
{
}

} // verus!
