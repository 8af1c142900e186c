//! The fan-out loop: it reads the source connection and republishes each text
//! frame to every reader; it never waits on a reader.
use vstd::prelude::*;

verus! {

/// What one read of the source connection gave.
#[derive(Debug)]
pub enum SourceEvent {
    /// A text frame.
    Text(String),
    /// A binary frame.
    Binary(Vec<u8>),
    /// A ping, pong or other control frame, which the transport answers itself.
    KeepAlive,
    /// The peer closed the connection.
    Close,
    /// The read failed.
    Failed,
    /// The connection's stream of frames ended.
    Ended,
}

/// What the loop does with one event.
#[derive(Debug)]
pub enum PublisherAction {
    /// Send this text to every reader.
    Publish(String),
    /// Read on; readers see nothing.
    Skip,
    /// Close the channel and stop reading.
    Shutdown,
}

/// The event ends the source connection.
pub open spec fn ends_source(event: SourceEvent) -> bool {
    event is Close || event is Failed || event is Ended
}

/// The loop's state: whether the channel was closed.
pub struct Publisher {
    pub closed: bool,
}

impl Publisher {
    /// A publisher over a freshly opened connection.
    pub fn new() -> (r: Publisher)
        ensures
            !r.closed,
    {
        Publisher { closed: false }
    }

    /// Decides what to do with one event: text frames are published, control
    /// and binary frames skipped, and the end of the connection closes the
    /// channel for good.
    pub fn on_event(&mut self, event: SourceEvent) -> (r: PublisherAction)
        ensures
            final(self).closed == (old(self).closed || ends_source(event)),
            old(self).closed ==> r is Shutdown,
            !old(self).closed ==> match event {
                SourceEvent::Text(text) => r == PublisherAction::Publish(text),
                SourceEvent::Binary(_) => r is Skip,
                SourceEvent::KeepAlive => r is Skip,
                _ => r is Shutdown,
            },
    {
        if self.closed {
            return PublisherAction::Shutdown;
        }
        match event {
            SourceEvent::Text(text) => PublisherAction::Publish(text),
            SourceEvent::Binary(_) => PublisherAction::Skip,
            SourceEvent::KeepAlive => PublisherAction::Skip,
            _ => {
                self.closed = true;
                PublisherAction::Shutdown
            },
        }
    }
}

} // verus!
