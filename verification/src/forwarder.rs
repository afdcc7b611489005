//! The outbound forwarder of an active session: it takes the payloads that
//! the registry queued for one user and has each written to that user's
//! connection, in the order in which they were received.
//!
//! Like the session, it decides and leaves the work to its driver: receiving
//! from the queue and writing to the connection. It never touches the
//! registry; taking the user out is the session's part.

use crate::text::text_of;
use vstd::prelude::*;

verus! {

/// What the driver reports to the forwarder.
#[derive(Debug, PartialEq, Eq)]
pub enum Feed {
    /// The queue gave a payload, or `None` once it is closed and empty.
    Received(Option<String>),
    /// A write to the connection ended, well or not.
    Written(bool),
    /// The session is over and the forwarder has to stop.
    Cancelled,
}

/// What the driver has to do next.
#[derive(Debug, PartialEq, Eq)]
pub enum Forward {
    /// Wait for the next payload of the queue.
    Receive,
    /// Write this payload to the connection as it is.
    Write(String),
    /// Stop for good.
    Stop,
}

/// A [`Feed`] with its payload as a character sequence.
pub enum FeedView {
    Received(Option<Seq<char>>),
    Written(bool),
    Cancelled,
}

/// A [`Forward`] with its payload as a character sequence.
pub enum ForwardView {
    Receive,
    Write(Seq<char>),
    Stop,
}

impl View for Feed {
    type V = FeedView;

    open spec fn view(&self) -> FeedView {
        match self {
            Feed::Received(payload) => FeedView::Received(text_of(*payload)),
            Feed::Written(done) => FeedView::Written(*done),
            Feed::Cancelled => FeedView::Cancelled,
        }
    }
}

impl View for Forward {
    type V = ForwardView;

    open spec fn view(&self) -> ForwardView {
        match self {
            Forward::Receive => ForwardView::Receive,
            Forward::Write(payload) => ForwardView::Write(payload@),
            Forward::Stop => ForwardView::Stop,
        }
    }
}

/// The forwarder's whole behaviour, from whether it is running and what was
/// reported to whether it runs on and what to do. While it runs, a received
/// payload is written unchanged and a finished write leads to the next
/// receive; a closed queue, a failed write or a cancellation stops it. Once
/// stopped it stays stopped.
pub open spec fn forward(running: bool, feed: FeedView) -> (bool, ForwardView) {
    if !running {
        (false, ForwardView::Stop)
    } else {
        match feed {
            FeedView::Received(Some(payload)) => (true, ForwardView::Write(payload)),
            FeedView::Written(true) => (true, ForwardView::Receive),
            _ => (false, ForwardView::Stop),
        }
    }
}

/// The forwarder of one session.
#[derive(Debug)]
pub struct Forwarder {
    running: bool,
}

impl Forwarder {
    /// Whether the forwarder still forwards.
    pub closed spec fn running(&self) -> bool {
        self.running
    }

    /// A forwarder that runs. Its driver starts by receiving.
    pub fn new() -> (forwarder: Self)
        ensures
            forwarder.running(),
    {
        Forwarder { running: true }
    }

    /// Whether the forwarder still forwards.
    pub fn is_running(&self) -> (running: bool)
        ensures
            running == self.running(),
    {
        self.running
    }

    /// Takes in `feed` and says what to do next.
    pub fn step(&mut self, feed: Feed) -> (next: Forward)
        ensures
            (final(self).running(), next@) == forward(old(self).running(), feed@),
    {
        if !self.running {
            return Forward::Stop;
        }
        match feed {
            Feed::Received(Some(payload)) => Forward::Write(payload),
            Feed::Written(true) => Forward::Receive,
            _ => {
                self.running = false;
                Forward::Stop
            },
        }
    }
}

/// A forwarder that has stopped never writes or receives again.
pub proof fn lemma_stopped_stays_stopped(feed: FeedView)
    ensures
        forward(false, feed) == (false, ForwardView::Stop),
{
}

/// A running forwarder writes exactly what it received, and stops on
/// anything that ends the connection or the queue.
pub proof fn lemma_forwards_verbatim(payload: Seq<char>)
    ensures
        forward(true, FeedView::Received(Some(payload))) == (true, ForwardView::Write(payload)),
        forward(true, FeedView::Received(None)) == (false, ForwardView::Stop),
        forward(true, FeedView::Written(false)) == (false, ForwardView::Stop),
        forward(true, FeedView::Cancelled) == (false, ForwardView::Stop),
{
}

} // verus!
