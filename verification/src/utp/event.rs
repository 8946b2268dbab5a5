use vstd::prelude::*;
use crate::utp::packet::UtpPacket;

verus! {

/// What a stream is told: a packet came in, or it is to shut down.
#[derive(Debug)]
pub enum StreamEvent {
    Incoming(UtpPacket),
    Shutdown,
}

impl Clone for StreamEvent {
    fn clone(&self) -> (r: Self)
        ensures
            match (self, r) {
                (StreamEvent::Incoming(p), StreamEvent::Incoming(q)) => q@ == p@,
                (StreamEvent::Shutdown, StreamEvent::Shutdown) => true,
                _ => false,
            },
    {
        match self {
            StreamEvent::Incoming(p) => StreamEvent::Incoming(p.clone()),
            StreamEvent::Shutdown => StreamEvent::Shutdown,
        }
    }
}

/// What a socket is told: a packet to send to a peer, or a peer to shut down.
#[derive(Debug)]
pub enum SocketEvent<P> {
    Outgoing((UtpPacket, P)),
    Shutdown(P),
}

impl<P: Clone> Clone for SocketEvent<P> {
    fn clone(&self) -> (r: Self)
        ensures
            match (self, r) {
                (SocketEvent::Outgoing((p, _)), SocketEvent::Outgoing((q, _))) => q@ == p@,
                (SocketEvent::Shutdown(_), SocketEvent::Shutdown(_)) => true,
                _ => false,
            },
    {
        match self {
            SocketEvent::Outgoing((p, peer)) => SocketEvent::Outgoing((p.clone(), peer.clone())),
            SocketEvent::Shutdown(peer) => SocketEvent::Shutdown(peer.clone()),
        }
    }
}

} // verus!
