//! What the accept loop does with each socket.

use vstd::prelude::*;

use crate::metrics::{Event, EventView};
use crate::net::SocketAddr;
use crate::server::admission::{Admission, Permit};
use crate::text::{push_socket, socket_text};

verus! {

/// What becomes of an accepted socket.
#[derive(Debug, PartialEq, Eq)]
pub enum Accepted {
    /// Serve it, and release the permit when the connection ends.
    Serve(Permit),
    /// Send the event and close it.
    Reject(Event),
}

/// Admit a connection at accept time, counting it (and any per-IP budget) for its
/// whole lifetime. Over-limit connections are dropped now rather than after a
/// handshake, so a half-open flood cannot bypass the cap.
pub fn accept(admission: &mut Admission, peer: SocketAddr) -> (accepted: Accepted)
    requires
        old(admission).wf(),
    ensures
        final(admission).wf(),
        old(admission)@.admits(peer.spec_ip()) <==> accepted is Serve,
        match accepted {
            Accepted::Serve(permit) => permit.spec_ip() == peer.spec_ip() && final(admission)@
                == old(admission)@.admitted(peer.spec_ip()),
            Accepted::Reject(event) => final(admission)@ == old(admission)@ && event@
                == EventView::Log(
                "connection from "@ + socket_text(peer) + " rejected: limit reached"@,
            ),
        },
{
    match admission.try_admit(peer.ip()) {
        Some(permit) => Accepted::Serve(permit),
        None => {
            let mut text: String = "connection from ".to_owned();
            push_socket(&mut text, peer);
            text.append(" rejected: limit reached");
            Accepted::Reject(Event::Log(text))
        },
    }
}

/// How long to back off after a failed accept, in milliseconds, so that a
/// persistent error does not spin the loop.
pub const ACCEPT_BACKOFF_MS: u64 = 20;

/// The event that reports a failed accept. Such errors are transient: the loop
/// goes on after [`ACCEPT_BACKOFF_MS`].
pub fn accept_failed(error: &str) -> (event: Event)
    ensures
        event@ == EventView::Log("accept error: "@ + error@),
{
    let mut text: String = "accept error: ".to_owned();
    text.append(error);
    Event::Log(text)
}

/// Whether a loop ends when its shutdown channel has changed: on an explicit
/// request, or when the sender is gone.
pub fn stop_requested(sender_gone: bool, requested: bool) -> (stop: bool)
    ensures
        stop == (sender_gone || requested),
{
    sender_gone || requested
}

} // verus!
