use vstd::prelude::*;
use crate::channel::{keeps_newest, read_at, ChannelView, FrameChannel, Received, Subscription};
use crate::frame::DataFrame;

verus! {

/// How many frames each stream buffers for its subscribers.
pub const CHANNEL_CAPACITY: usize = 100;

/// `url::Url`, carried through unchanged to the RTSP client.
#[verifier::external_type_specification]
#[verifier::external_body]
pub struct ExUrl(url::Url);

/// One configured stream: its RTSP URL, the broadcast channel of its frames,
/// and the number of live subscriber sessions.
pub struct StreamsDef {
    url: url::Url,
    channel: FrameChannel,
    count: u64,
    starts: Ghost<nat>,
    stops: Ghost<nat>,
}

impl StreamsDef {
    /// The channel, the counter and the session tallies agree.
    pub closed spec fn wf(&self) -> bool {
        &&& self.channel.wf()
        &&& self.channel@.capacity == CHANNEL_CAPACITY
        &&& self.count == self.starts@ - self.stops@
    }

    /// A well-formed stream's channel has capacity 100 and keeps the newest
    /// frames.
    pub proof fn lemma_channel_shape(&self)
        requires
            self.wf(),
        ensures
            self.channel_view().capacity == CHANNEL_CAPACITY,
            keeps_newest(self.channel_view()),
    {
        self.channel.lemma_keeps_newest();
    }

    /// The stream's RTSP URL.
    pub closed spec fn url_spec(&self) -> url::Url {
        self.url
    }

    /// The stream's channel as plain values.
    pub closed spec fn channel_view(&self) -> ChannelView {
        self.channel@
    }

    /// The number of live sessions.
    pub closed spec fn live(&self) -> nat {
        self.count as nat
    }

    /// How many sessions have started on this stream.
    pub closed spec fn starts(&self) -> nat {
        self.starts@
    }

    /// How many sessions have stopped on this stream.
    pub closed spec fn stops(&self) -> nat {
        self.stops@
    }

    /// A stream with an empty channel of capacity 100 and no session.
    pub fn new(url: url::Url) -> (r: StreamsDef)
        ensures
            r.wf(),
            r.url_spec() == url,
            r.channel_view().capacity == CHANNEL_CAPACITY,
            r.channel_view().history.len() == 0,
            r.channel_view().retained == 0,
            keeps_newest(r.channel_view()),
            r.live() == 0,
            r.starts() == 0,
            r.stops() == 0,
    {
        StreamsDef {
            url,
            channel: FrameChannel::new(CHANNEL_CAPACITY),
            count: 0,
            starts: Ghost(0),
            stops: Ghost(0),
        }
    }

    /// The stream's RTSP URL.
    pub fn url(&self) -> (r: &url::Url)
        ensures
            *r == self.url_spec(),
    {
        &self.url
    }

    /// The number of live sessions.
    pub fn count(&self) -> (r: u64)
        ensures
            r == self.live(),
    {
        self.count
    }

    /// How many frames were published on this stream so far.
    pub fn published(&self) -> (r: u64)
        requires
            self.wf(),
        ensures
            r == self.channel_view().history.len(),
    {
        self.channel.published()
    }

    /// A subscription that sees only frames published after this call.
    pub fn subscribe(&self) -> (r: Subscription)
        requires
            self.wf(),
        ensures
            r.next == self.channel_view().history.len(),
    {
        self.channel.subscribe()
    }

    /// Publishes `frame` to every subscriber. Never waits: a subscriber that is
    /// a full buffer behind loses its oldest unread frame.
    pub fn publish(&mut self, frame: DataFrame)
        requires
            old(self).wf(),
            old(self).channel_view().history.len() < u64::MAX,
        ensures
            final(self).wf(),
            final(self).url_spec() == old(self).url_spec(),
            final(self).live() == old(self).live(),
            final(self).starts() == old(self).starts(),
            final(self).stops() == old(self).stops(),
            final(self).channel_view().capacity == CHANNEL_CAPACITY,
            keeps_newest(final(self).channel_view()),
            final(self).channel_view().history == old(self).channel_view().history.push(frame@),
            final(self).channel_view().retained == if old(self).channel_view().retained
                < CHANNEL_CAPACITY {
                old(self).channel_view().retained + 1
            } else {
                CHANNEL_CAPACITY as nat
            },
    {
        self.channel.publish(frame);
    }

    /// Reads the next frame for `sub`.
    pub fn recv(&self, sub: &mut Subscription) -> (r: Received)
        requires
            self.wf(),
        ensures
            (r@, final(sub).next as nat) == read_at(self.channel_view(), old(sub).next as nat),
    {
        self.channel.recv(sub)
    }

    /// Records that a subscriber session started.
    pub fn session_started(&mut self)
        requires
            old(self).wf(),
            old(self).live() < u64::MAX,
        ensures
            final(self).wf(),
            final(self).url_spec() == old(self).url_spec(),
            final(self).channel_view() == old(self).channel_view(),
            final(self).live() == old(self).live() + 1,
            final(self).starts() == old(self).starts() + 1,
            final(self).stops() == old(self).stops(),
    {
        self.count = self.count + 1;
        self.starts = Ghost(self.starts@ + 1);
    }

    /// Records that a subscriber session stopped.
    pub fn session_stopped(&mut self)
        requires
            old(self).wf(),
            old(self).live() > 0,
        ensures
            final(self).wf(),
            final(self).url_spec() == old(self).url_spec(),
            final(self).channel_view() == old(self).channel_view(),
            final(self).live() == old(self).live() - 1,
            final(self).starts() == old(self).starts(),
            final(self).stops() == old(self).stops() + 1,
    {
        self.count = self.count - 1;
        self.stops = Ghost(self.stops@ + 1);
    }
}

/// After any sequence of session starts and stops, the live count equals the
/// number of starts less the number of stops.
pub proof fn lemma_count_integrity(d: &StreamsDef)
    requires
        d.wf(),
    ensures
        d.live() == d.starts() - d.stops(),
        d.stops() <= d.starts(),
{
}

} // verus!
