//! The server's end of the debugger channel to the eZ80 thread.
//!
//! Nothing but the two calls on the channel adds to the log that a link keeps, so what a contract
//! says of the log, it says of the channel.

use std::sync::mpsc::{Receiver, Sender};

use vstd::prelude::*;

use crate::debugger::{DebugCmd, DebugResp, CMD_TIMEOUT_MS};

verus! {

/// `std::sync::mpsc::Sender`, carried through as it is.
#[verifier::external_type_specification]
#[verifier::external_body]
#[verifier::reject_recursive_types(T)]
pub struct ExSender<T>(std::sync::mpsc::Sender<T>);

/// `std::sync::mpsc::Receiver`, carried through as it is.
#[verifier::external_type_specification]
#[verifier::external_body]
#[verifier::reject_recursive_types(T)]
pub struct ExReceiver<T>(std::sync::mpsc::Receiver<T>);

/// What passed over the link.
pub enum LinkEvent {
    /// A command was handed to the channel.
    Posted(DebugCmd),
    /// A command could not be delivered: the receiving end is gone.
    Undelivered(DebugCmd),
    /// A response was taken from the channel.
    Heard(DebugResp),
    /// A wait of this many milliseconds brought no response.
    Silence { millis: u64 },
    /// A wait found the channel empty, with all its senders gone.
    Closed,
}

/// Why a wait brought no response.
#[derive(Clone, Copy, Debug, PartialEq, Eq, Structural)]
pub enum WaitError {
    /// The time ran out.
    TimedOut,
    /// The channel is empty, and all its senders are gone.
    Disconnected,
}

/// What a wait of `millis` milliseconds that brought `heard` counts as.
pub open spec fn wait_event(heard: Result<DebugResp, WaitError>, millis: u64) -> LinkEvent {
    match heard {
        Ok(resp) => LinkEvent::Heard(resp),
        Err(WaitError::TimedOut) => LinkEvent::Silence { millis },
        Err(WaitError::Disconnected) => LinkEvent::Closed,
    }
}

/// The two ends of the channel that the server holds, with the log of what passed over them.
pub struct DebugLink {
    tx: Sender<DebugCmd>,
    rx: Receiver<DebugResp>,
    log: Ghost<Seq<LinkEvent>>,
}

impl DebugLink {
    /// What passed over the link so far, in order: one event for each call on the channel.
    pub closed spec fn log(&self) -> Seq<LinkEvent> {
        self.log@
    }

    /// What passed since the link was as in `before`.
    pub open spec fn since(&self, before: &DebugLink) -> Seq<LinkEvent> {
        self.log().skip(before.log().len() as int)
    }

    /// The link goes on from `before`: nothing that passed is forgotten.
    pub open spec fn follows(&self, before: &DebugLink) -> bool {
        self.log() == before.log() + self.since(before)
    }

    /// A wait found the channel closed.
    pub open spec fn closed(&self) -> bool {
        self.log().contains(LinkEvent::Closed)
    }

    /// A link over the two ends of the channel.
    pub fn new(tx: Sender<DebugCmd>, rx: Receiver<DebugResp>) -> (link: DebugLink)
        ensures
            link.log() == Seq::<LinkEvent>::empty(),
    {
        DebugLink { tx, rx, log: Ghost(Seq::empty()) }
    }

    /// `std::sync::mpsc::Sender::send`: hands this one command to the channel, and says whether
    /// that succeeded. It fails only where the receiving end is gone, and the command is then
    /// never received. The contract claims that the log grows by just this. Whether the receiving
    /// end is there rests with the other thread, so nothing is said of that.
    #[verifier::external_body]
    pub(crate) fn post(&mut self, cmd: DebugCmd) -> (posted: bool)
        ensures
            final(self).log() == old(self).log().push(
                if posted {
                    LinkEvent::Posted(cmd)
                } else {
                    LinkEvent::Undelivered(cmd)
                },
            ),
    {
        self.tx.send(cmd).is_ok()
    }

    /// `std::sync::mpsc::Receiver::recv_timeout`: takes the next response from the channel,
    /// waiting up to `millis` milliseconds for it, and takes nothing else. The contract claims
    /// that the log grows by just this, and that a channel once found disconnected stays so: no
    /// response can ever be received on it again. What comes, and when, rests with the other
    /// thread, so nothing is said of that.
    #[verifier::external_body]
    pub(crate) fn wait(&mut self, millis: u64) -> (heard: Result<DebugResp, WaitError>)
        requires
            millis <= CMD_TIMEOUT_MS,
        ensures
            final(self).log() == old(self).log().push(wait_event(heard, millis)),
            old(self).closed() ==> (heard matches Err(e) && e is Disconnected),
    {
        match self.rx.recv_timeout(std::time::Duration::from_millis(millis)) {
            Ok(resp) => Ok(resp),
            Err(std::sync::mpsc::RecvTimeoutError::Timeout) => Err(WaitError::TimedOut),
            Err(std::sync::mpsc::RecvTimeoutError::Disconnected) => Err(WaitError::Disconnected),
        }
    }
}

/// A wait counts as what it brought: the response, a silence of the time that was waited, or a
/// closed channel.
pub proof fn law_wait_counts_as_what_it_brought(resp: DebugResp, millis: u64)
    ensures
        wait_event(Ok(resp), millis) == LinkEvent::Heard(resp),
        wait_event(Err(WaitError::TimedOut), millis) == (LinkEvent::Silence { millis }),
        wait_event(Err(WaitError::Disconnected), millis) == LinkEvent::Closed,
{
}

/// A link that goes on from another keeps its log as it was and adds to its end what passed since,
/// and a channel that was found closed stays so.
pub proof fn law_link_forgets_nothing(link: DebugLink, before: DebugLink)
    requires
        link.follows(&before),
    ensures
        before.log().len() + link.since(&before).len() == link.log().len(),
        forall|i: int| 0 <= i < before.log().len() ==> #[trigger] link.log()[i] == before.log()[i],
        forall|i: int|
            0 <= i < link.since(&before).len() ==> #[trigger] link.since(&before)[i]
                == link.log()[before.log().len() + i],
        before.closed() ==> link.closed(),
        link.closed() <==> exists|i: int|
            0 <= i < link.log().len() && #[trigger] link.log()[i] == LinkEvent::Closed,
{
    let n = before.log().len() as int;
    assert(link.log().len() == n + link.since(&before).len());
    assert forall|i: int| 0 <= i < n implies #[trigger] link.log()[i] == before.log()[i] by {
        assert((before.log() + link.since(&before))[i] == before.log()[i]);
    }
    if before.closed() {
        let i = choose|i: int| 0 <= i < n && before.log()[i] == LinkEvent::Closed;
        assert(link.log()[i] == LinkEvent::Closed);
    }
}

} // verus!
