//! The output sink: where the encoded table is sent.
//!
//! The sink decides; it does not transmit. Opening one reads the address and
//! keeps the destination, sending through one says which datagram has to
//! leave. The caller owns the socket.

use crate::error::{Error, ErrorView};
use crate::text::{chars_of, find_separator, has_separator, same_text, scheme_end};
use vstd::prelude::*;
use vstd::slice::slice_to_vec;
use vstd::string::StringExecFns;

verus! {

/// A destination for the encoded table.
#[derive(Debug, Clone, PartialEq, Eq)]
pub enum Output {
    /// No sink was opened: whatever is sent is dropped.
    Unopened,
    /// A connectionless datagram destination, as written after `udp://`.
    Udp(String),
}

/// The mathematical value of an [`Output`].
pub enum OutputView {
    Unopened,
    Udp(Seq<char>),
}

impl View for Output {
    type V = OutputView;

    open spec fn view(&self) -> OutputView {
        match self {
            Output::Unopened => OutputView::Unopened,
            Output::Udp(destination) => OutputView::Udp(destination@),
        }
    }
}

/// One datagram that has to leave: exactly these bytes, in one send, to this
/// destination.
#[derive(Debug, Clone, PartialEq, Eq)]
pub struct Datagram {
    pub destination: String,
    pub payload: Vec<u8>,
}

/// The mathematical value of a [`Datagram`].
pub struct DatagramView {
    pub destination: Seq<char>,
    pub payload: Seq<u8>,
}

impl View for Datagram {
    type V = DatagramView;

    open spec fn view(&self) -> DatagramView {
        DatagramView { destination: self.destination@, payload: self.payload@ }
    }
}

/// The scheme of an address: what stands before its first `://`, or all of it.
pub open spec fn scheme(address: Seq<char>) -> Seq<char> {
    address.take(scheme_end(address))
}

/// What follows the first `://` of an address.
pub open spec fn destination(address: Seq<char>) -> Seq<char>
    recommends
        has_separator(address),
{
    address.skip(scheme_end(address) + 3)
}

/// The message for an address whose scheme is not supported.
pub open spec fn unknown_output(address: Seq<char>) -> Seq<char> {
    "unknown output type ["@ + scheme(address) + "]"@
}

/// The sink that an address opens, or the reason why it opens none: only an
/// address with the scheme `udp` before a `://` opens one.
pub open spec fn opened(address: Seq<char>) -> Result<OutputView, ErrorView> {
    if has_separator(address) && scheme(address) == "udp"@ {
        Ok(OutputView::Udp(destination(address)))
    } else {
        Err(ErrorView::Custom(unknown_output(address)))
    }
}

/// Writes the message for the unsupported scheme `name`.
fn unknown_output_text(name: &str) -> (text: String)
    ensures
        text@ == "unknown output type ["@ + name@ + "]"@,
{
    String::from_str("unknown output type [").concat(name).concat("]")
}

impl Default for Output {
    fn default() -> (output: Output)
        ensures
            output@ == OutputView::Unopened,
    {
        Output::Unopened
    }
}

impl Output {
    /// Opens the sink that `addr` names, an address of the form
    /// `<scheme>://<destination>`. Only the scheme `udp` is known; any other
    /// scheme, and an address without `://`, is refused with a message that
    /// quotes the scheme.
    pub fn open(addr: &str) -> (output: Result<Output, Error>)
        ensures
            match output {
                Ok(sink) => opened(addr@) == Ok::<OutputView, ErrorView>(sink@),
                Err(fault) => opened(addr@) == Err::<OutputView, ErrorView>(fault@),
            },
    {
        let chars = chars_of(addr);
        let n = chars.len();
        match find_separator(&chars) {
            Some(i) => {
                let name = addr.substring_char(0, i);
                if same_text(name, "udp") {
                    let rest = addr.substring_char(i + 3, n);
                    assert(addr@.subrange(i + 3, n as int) == addr@.skip(i + 3));
                    Ok(Output::Udp(rest.to_owned()))
                } else {
                    Err(Error::Custom(unknown_output_text(name)))
                }
            },
            None => {
                assert(addr@.take(n as int) == addr@);
                Err(Error::Custom(unknown_output_text(addr)))
            },
        }
    }

    /// What has to leave when `data` is sent through this sink: one datagram
    /// with exactly these bytes, or nothing where no sink was opened.
    pub fn send(&self, data: &[u8]) -> (datagram: Option<Datagram>)
        ensures
            match self@ {
                OutputView::Unopened => datagram is None,
                OutputView::Udp(target) => datagram is Some && datagram->0@ == (DatagramView {
                    destination: target,
                    payload: data@,
                }),
            },
    {
        match self {
            Output::Unopened => None,
            Output::Udp(target) => Some(
                Datagram { destination: target.clone(), payload: slice_to_vec(data) },
            ),
        }
    }

    /// Whether a sink was opened.
    pub fn is_open(&self) -> (open: bool)
        ensures
            open == (self@ != OutputView::Unopened),
    {
        match self {
            Output::Unopened => false,
            _ => true,
        }
    }
}

} // verus!
