//! Per-connection state: the action being serviced, the accumulation
//! buffer, the write cursor, and the one-shot completion handle.

use vstd::prelude::*;

use crate::action::{encoded_bytes, HttpAction, HttpActionView};

verus! {

/// `eventual::Complete` is the producer side of a one-shot future; a value
/// of it is opaque here and is only consumed, by move, to deliver a result.
#[verifier::external_type_specification]
#[verifier::external_body]
#[verifier::reject_recursive_types(T)]
#[verifier::reject_recursive_types(E)]
pub struct ExComplete<T: Send + 'static, E: Send + 'static>(eventual::Complete<T, E>);

/// Why a fetch failed.  Every error is confined to the connection that
/// produced it: the dispatcher fulfills that connection's handle with the
/// failure and drops its table entry, and nothing else is touched.
#[derive(Clone, Copy, PartialEq, Eq, Structural, Debug)]
pub enum FetchError {
    /// The submitted string is not a URL this fetcher can service.
    Parse,
    /// The host did not resolve to any address.
    Resolution,
    /// The outbound TCP connection could not be opened.
    Connect,
    /// A read or write failed mid-transfer.
    Io,
}

impl FetchError {
    /// The human-readable reason delivered with a failure.
    pub fn reason(&self) -> (r: &'static str)
        ensures
            r@ == reason_of(*self),
    {
        match self {
            FetchError::Parse => "invalid url",
            FetchError::Resolution => "could not resolve host",
            FetchError::Connect => "connect failed",
            FetchError::Io => "io error",
        }
    }
}

/// The reason text for each failure kind.
pub open spec fn reason_of(e: FetchError) -> Seq<char> {
    match e {
        FetchError::Parse => "invalid url"@,
        FetchError::Resolution => "could not resolve host"@,
        FetchError::Connect => "connect failed"@,
        FetchError::Io => "io error"@,
    }
}

/// Where a connection stands in its lifecycle.  The two terminal outcomes,
/// completed and failed, are not listed: a connection that reaches either
/// leaves the table at that moment.
#[derive(Clone, Copy, PartialEq, Eq, Structural, Debug)]
pub enum ConnState {
    /// Resolution and connect are in flight.
    Connecting,
    /// Connected; the request has not started going out.
    AwaitingWrite,
    /// Part of the request may have gone out; `written` bytes are confirmed.
    Writing,
    /// The whole request went out; no response byte has arrived yet.
    AwaitingRead,
    /// Response bytes are arriving.
    Reading,
}

/// One in-flight fetch: the action it services, the producer side of its
/// completion handle, the bytes received so far, its lifecycle state, and
/// how many request bytes are confirmed written.
pub struct ClientInfo {
    pub action: HttpAction,
    pub complete: eventual::Complete<Box<Vec<u8>>, &'static str>,
    pub mut_buf: Vec<u8>,
    pub state: ConnState,
    pub written: usize,
}

/// The mathematical value of a [`ClientInfo`]: everything but the opaque
/// handle.
pub struct ClientView {
    pub action: HttpActionView,
    pub state: ConnState,
    pub buffered: Seq<u8>,
    pub written: nat,
}

impl View for ClientInfo {
    type V = ClientView;

    open spec fn view(&self) -> ClientView {
        ClientView {
            action: self.action@,
            state: self.state,
            buffered: self.mut_buf@,
            written: self.written as nat,
        }
    }
}

/// The total number of request bytes this connection has to send.
pub open spec fn total_to_write(c: ClientView) -> nat {
    encoded_bytes(c.action).len()
}

/// Per-connection well-formedness: the write cursor never passes the end of
/// the request, is still zero before writing starts, and has reached the
/// end once the connection awaits or reads the response.
pub open spec fn conn_wf(c: ClientView) -> bool {
    &&& c.written <= total_to_write(c)
    &&& (c.state is Connecting ==> c.written == 0)
    &&& (c.state is AwaitingWrite ==> c.written == 0)
    &&& (c.state is AwaitingRead ==> c.written == total_to_write(c))
    &&& (c.state is Reading ==> c.written == total_to_write(c))
}

impl ClientInfo {
    /// Append received bytes to the accumulation buffer; nothing else of the
    /// connection changes.
    pub fn add_to_buffer(&mut self, buf: Vec<u8>)
        ensures
            final(self)@ == (ClientView { buffered: old(self)@.buffered + buf@, ..old(self)@ }),
    {
        let mut b = buf;
        self.mut_buf.append(&mut b);
    }

    /// Relies on `eventual::Complete::complete`: delivers the accumulated
    /// bytes to the consumer side of the handle.  Taking `self` by move
    /// makes a second delivery on the same handle impossible.
    #[verifier::external_body]
    pub fn complete(self) {
        self.complete.complete(Box::new(self.mut_buf));
    }

    /// Deliver a failure on this connection's handle, consuming it.
    pub(crate) fn fail(self, e: FetchError) {
        fail_complete(self.complete, e.reason());
    }
}

/// Relies on `eventual::Complete::fail`: delivers the failure reason to the
/// consumer side of the handle.  Taking the handle by move makes a second
/// delivery impossible.
#[verifier::external_body]
pub(crate) fn fail_complete(c: eventual::Complete<Box<Vec<u8>>, &'static str>, reason: &'static str) {
    c.fail(reason);
}

} // verus!
