use vstd::prelude::*;
use crate::channel::{read_at, Received, Subscription};
use crate::streamdef::StreamsDef;

verus! {

/// One client's subscription to one stream, from the WebSocket upgrade to the
/// close.
pub struct SubscriberSession {
    pub subscription: Subscription,
}

impl SubscriberSession {
    /// Starts a session on `stream`: it will see only frames published from now
    /// on, and the stream counts one more live session.
    pub fn start(stream: &mut StreamsDef) -> (r: SubscriberSession)
        requires
            old(stream).wf(),
            old(stream).live() < u64::MAX,
        ensures
            final(stream).wf(),
            final(stream).url_spec() == old(stream).url_spec(),
            final(stream).channel_view() == old(stream).channel_view(),
            final(stream).live() == old(stream).live() + 1,
            final(stream).starts() == old(stream).starts() + 1,
            final(stream).stops() == old(stream).stops(),
            r.subscription.next == old(stream).channel_view().history.len(),
    {
        let subscription = stream.subscribe();
        stream.session_started();
        SubscriberSession { subscription }
    }

    /// The next thing to forward to the client: a frame (sent as its metadata
    /// text, then its binary payload), a lag to step over, or nothing yet.
    pub fn next(&mut self, stream: &StreamsDef) -> (r: Received)
        requires
            stream.wf(),
        ensures
            (r@, final(self).subscription.next as nat) == read_at(
                stream.channel_view(),
                old(self).subscription.next as nat,
            ),
    {
        stream.recv(&mut self.subscription)
    }

    /// Ends the session: the stream counts one live session less.
    pub fn stop(self, stream: &mut StreamsDef)
        requires
            old(stream).wf(),
            old(stream).live() > 0,
        ensures
            final(stream).wf(),
            final(stream).url_spec() == old(stream).url_spec(),
            final(stream).channel_view() == old(stream).channel_view(),
            final(stream).live() == old(stream).live() - 1,
            final(stream).starts() == old(stream).starts(),
            final(stream).stops() == old(stream).stops() + 1,
    {
        stream.session_stopped();
    }
}

/// A message from the client.
pub enum ClientMessage {
    Ping(Vec<u8>),
    Pong(Vec<u8>),
    Text(String),
    Binary(Vec<u8>),
    Close,
    /// A continuation frame or a frame that could not be read.
    Other,
}

/// The payload to answer with a pong, if the message asks for one: a ping is
/// answered with its own payload, anything else is ignored.
pub fn pong_for(msg: ClientMessage) -> (r: Option<Vec<u8>>)
    ensures
        match msg {
            ClientMessage::Ping(payload) => r == Some(payload),
            _ => r is None,
        },
{
    match msg {
        ClientMessage::Ping(payload) => Some(payload),
        _ => None,
    }
}

} // verus!
