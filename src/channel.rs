use vstd::prelude::*;
use std::collections::VecDeque;
use crate::frame::{DataFrame, FrameView};

verus! {

/// A bounded broadcast channel as plain values.
pub struct ChannelView {
    /// Every frame ever published, oldest first.
    pub history: Seq<FrameView>,
    /// How many of the newest frames are still buffered.
    pub retained: nat,
    /// How many frames the buffer holds at most.
    pub capacity: nat,
}

/// Sequence number of the oldest frame still buffered.
pub open spec fn oldest(ch: ChannelView) -> int {
    ch.history.len() - ch.retained
}

/// The buffer holds as many of the newest frames as it can: all of them while
/// fewer than `capacity` were published, else `capacity`.
pub open spec fn keeps_newest(ch: ChannelView) -> bool {
    ch.retained == if ch.history.len() < ch.capacity {
        ch.history.len()
    } else {
        ch.capacity
    }
}

/// What one read hands to a subscriber.
pub enum Delivery {
    Frame(FrameView),
    /// The subscriber fell behind the buffer; this many frames are lost.
    Lagged(nat),
    /// Nothing was published since the subscriber's last read.
    Empty,
}

/// One read by a subscriber whose next frame has sequence number `cursor`:
/// what it gets, and where its cursor stands afterwards.
pub open spec fn read_at(ch: ChannelView, cursor: nat) -> (Delivery, nat) {
    if cursor >= ch.history.len() {
        (Delivery::Empty, cursor)
    } else if cursor < oldest(ch) {
        (Delivery::Lagged((oldest(ch) - cursor) as nat), oldest(ch) as nat)
    } else {
        (Delivery::Frame(ch.history[cursor as int]), cursor + 1)
    }
}

/// The result of one read from a [`FrameChannel`].
pub enum Received {
    Frame(DataFrame),
    /// The subscriber fell behind the buffer; this many frames are lost and the
    /// next read continues with the oldest frame still buffered.
    Lagged(u64),
    /// Nothing new to read.
    Empty,
}

impl View for Received {
    type V = Delivery;

    open spec fn view(&self) -> Delivery {
        match self {
            Received::Frame(f) => Delivery::Frame(f@),
            Received::Lagged(n) => Delivery::Lagged(*n as nat),
            Received::Empty => Delivery::Empty,
        }
    }
}

/// A subscriber's read position in a [`FrameChannel`]: the sequence number of
/// the next frame it wants.
pub struct Subscription {
    pub next: u64,
}

/// A bounded broadcast channel of frames. Publishing never waits: when the
/// buffer is full the oldest frame is dropped, and a subscriber that had not
/// read it yet sees a lag on its next read.
pub struct FrameChannel {
    frames: VecDeque<DataFrame>,
    capacity: usize,
    published: u64,
    history: Ghost<Seq<FrameView>>,
}

impl View for FrameChannel {
    type V = ChannelView;

    closed spec fn view(&self) -> ChannelView {
        ChannelView {
            history: self.history@,
            retained: self.frames@.len(),
            capacity: self.capacity as nat,
        }
    }
}

impl FrameChannel {
    /// The buffer holds the newest `retained` frames of the history, at most
    /// `capacity` of them.
    pub closed spec fn wf(&self) -> bool {
        &&& self.capacity > 0
        &&& self.frames@.len() <= self.capacity
        &&& self.history@.len() == self.published
        &&& self.frames@.len() <= self.history@.len()
        &&& keeps_newest(self@)
        &&& forall|i: int|
            0 <= i < self.frames@.len() ==> #[trigger] self.frames@[i]@ == self.history@[self.history@.len()
                - self.frames@.len() + i]
    }

    /// An empty channel that buffers at most `capacity` frames.
    pub fn new(capacity: usize) -> (r: FrameChannel)
        requires
            capacity > 0,
        ensures
            r.wf(),
            r@.history == Seq::<FrameView>::empty(),
            r@.retained == 0,
            r@.capacity == capacity,
            keeps_newest(r@),
    {
        FrameChannel {
            frames: VecDeque::new(),
            capacity,
            published: 0,
            history: Ghost(Seq::empty()),
        }
    }

    /// A well-formed channel keeps the newest frames.
    pub proof fn lemma_keeps_newest(&self)
        requires
            self.wf(),
        ensures
            keeps_newest(self@),
    {
    }

    /// How many frames were published so far.
    pub fn published(&self) -> (r: u64)
        requires
            self.wf(),
        ensures
            r == self@.history.len(),
    {
        self.published
    }

    /// How many frames are buffered.
    pub fn buffered(&self) -> (r: usize)
        requires
            self.wf(),
        ensures
            r == self@.retained,
    {
        self.frames.len()
    }

    /// A subscription that sees only frames published after this call.
    pub fn subscribe(&self) -> (r: Subscription)
        requires
            self.wf(),
        ensures
            r.next == self@.history.len(),
    {
        Subscription { next: self.published }
    }

    /// Appends `frame` to the channel, dropping the oldest buffered frame when
    /// the buffer is full.
    pub fn publish(&mut self, frame: DataFrame)
        requires
            old(self).wf(),
            old(self)@.history.len() < u64::MAX,
        ensures
            final(self).wf(),
            keeps_newest(final(self)@),
            final(self)@.history == old(self)@.history.push(frame@),
            final(self)@.capacity == old(self)@.capacity,
            final(self)@.retained == if old(self)@.retained < old(self)@.capacity {
                old(self)@.retained + 1
            } else {
                old(self)@.capacity
            },
    {
        let ghost view = frame@;
        if self.frames.len() >= self.capacity {
            self.frames.pop_front();
        }
        self.frames.push_back(frame);
        self.published = self.published + 1;
        self.history = Ghost(self.history@.push(view));
        assert forall|i: int| 0 <= i < self.frames@.len() implies #[trigger] self.frames@[i]@
            == self.history@[self.history@.len() - self.frames@.len() + i] by {
            if i + 1 < self.frames@.len() {
                let j = if self.frames@.len() <= old(self).frames@.len() {
                    i + 1
                } else {
                    i
                };
                assert(self.frames@[i] == old(self).frames@[j]);
            }
        }
    }

    /// Reads the next frame for `sub`, or tells it that it lagged, or that
    /// nothing new was published.
    pub fn recv(&self, sub: &mut Subscription) -> (r: Received)
        requires
            self.wf(),
        ensures
            (r@, final(sub).next as nat) == read_at(self@, old(sub).next as nat),
    {
        let oldest = self.published - self.frames.len() as u64;
        if sub.next >= self.published {
            Received::Empty
        } else if sub.next < oldest {
            let lost = oldest - sub.next;
            sub.next = oldest;
            Received::Lagged(lost)
        } else {
            let i = (sub.next - oldest) as usize;
            let f = self.frames[i].duplicate();
            sub.next = sub.next + 1;
            Received::Frame(f)
        }
    }
}

/// Subscribers are isolated: whether a read lags depends only on the buffer and
/// on the reader's own cursor, never on other subscribers (reading leaves the
/// channel as it is, and publishing waits for no one). A reader at most
/// `capacity` frames behind the newest never lags, however far behind others
/// have fallen.
pub proof fn lemma_reader_isolation(ch: ChannelView, cursor: nat)
    requires
        keeps_newest(ch),
        ch.history.len() <= cursor + ch.capacity,
    ensures
        !(read_at(ch, cursor).0 is Lagged),
{
}

/// What a subscriber receives when it reads once in each of the channel
/// states `chs`, starting with its next frame at `cursor`; and its cursor at the
/// end.
pub open spec fn read_run(chs: Seq<ChannelView>, cursor: nat) -> (Seq<Delivery>, nat)
    decreases chs.len(),
{
    if chs.len() == 0 {
        (Seq::empty(), cursor)
    } else {
        let (d, next) = read_at(chs[0], cursor);
        let (rest, end) = read_run(chs.drop_first(), next);
        (seq![d] + rest, end)
    }
}

/// The frames among `ds`, in order.
pub open spec fn frames_in(ds: Seq<Delivery>) -> Seq<FrameView>
    decreases ds.len(),
{
    if ds.len() == 0 {
        Seq::empty()
    } else {
        match ds[0] {
            Delivery::Frame(f) => seq![f] + frames_in(ds.drop_first()),
            _ => frames_in(ds.drop_first()),
        }
    }
}

/// Whether `ds` holds a lag.
pub open spec fn any_lag(ds: Seq<Delivery>) -> bool {
    exists|i: int| 0 <= i < ds.len() && ds[i] is Lagged
}

/// Whether `h` is a prefix of `full`: publishing only appends.
pub open spec fn extends(full: Seq<FrameView>, h: Seq<FrameView>) -> bool {
    h.len() <= full.len() && forall|j: int| 0 <= j < h.len() ==> #[trigger] h[j] == full[j]
}

/// A subscriber that never lags receives, in order, exactly the published
/// frames from its starting point on, with none left out: a contiguous run of
/// the history. `chs` are the channel states at its reads, each a prefix of the
/// history `full`.
pub proof fn lemma_fifo_delivery(chs: Seq<ChannelView>, full: Seq<FrameView>, start: nat)
    requires
        start <= full.len(),
        forall|i: int| 0 <= i < chs.len() ==> extends(full, #[trigger] chs[i].history),
        !any_lag(read_run(chs, start).0),
    ensures
        start <= read_run(chs, start).1 <= full.len(),
        frames_in(read_run(chs, start).0) == full.subrange(
            start as int,
            read_run(chs, start).1 as int,
        ),
    decreases chs.len(),
{
    if chs.len() == 0 {
        assert(full.subrange(start as int, start as int) =~= Seq::<FrameView>::empty());
    } else {
        let (d, next) = read_at(chs[0], start);
        let (rest, end) = read_run(chs.drop_first(), next);
        let ds = seq![d] + rest;
        assert(ds[0] == d);
        assert(ds.drop_first() =~= rest);
        assert forall|i: int| 0 <= i < rest.len() implies !(#[trigger] rest[i] is Lagged) by {
            assert(ds[i + 1] == rest[i]);
        }
        assert(!(d is Lagged));
        assert(extends(full, chs[0].history));
        assert forall|i: int| 0 <= i < chs.drop_first().len() implies extends(
            full,
            #[trigger] chs.drop_first()[i].history,
        ) by {
            assert(chs.drop_first()[i] == chs[i + 1]);
        }
        lemma_fifo_delivery(chs.drop_first(), full, next);
        if let Delivery::Frame(f) = d {
            assert(f == full[start as int]);
            assert(full.subrange(start as int, end as int) =~= seq![f] + full.subrange(
                next as int,
                end as int,
            ));
        }
    }
}

} // verus!
