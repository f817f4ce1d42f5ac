//! What both units do on the bus, whatever the hardware underneath.
//!
//! A unit rebroadcasts its state periodically, so the latest value wins: a
//! frame that the bus refuses because an older one of its kind still waits
//! replaces the older one, and where even that fails it is dropped without
//! notice.

use vstd::prelude::*;

verus! {

/// One of the three transmit mailboxes of the bus controller.
#[derive(Debug, Clone, Copy, PartialEq, Eq, Structural)]
pub enum Mailbox {
    Mailbox0,
    Mailbox1,
    Mailbox2,
}

/// How one attempt to hand a frame to the bus ended.
#[derive(Debug, Clone, Copy, PartialEq, Eq, Structural)]
pub enum Attempt {
    /// The frame waits in this mailbox.
    Queued(Mailbox),
    /// Every mailbox is taken.
    Busy,
}

/// What to do after the first attempt to send a frame.
#[derive(Debug, Clone, Copy, PartialEq, Eq, Structural)]
pub enum AfterFirst {
    /// Nothing more.
    Done,
    /// Cancel the frame that waits in this mailbox, then try once more.
    AbortAndRetry(Mailbox),
}

/// Where the last frame of one kind waits, as far as the unit knows.
#[derive(Debug, Clone, Copy, PartialEq, Eq, Structural)]
pub struct Pending {
    pub mailbox: Option<Mailbox>,
}

impl Pending {
    /// What follows the first attempt: a refused frame asks for the stale one
    /// to be cancelled where one is known, and for nothing more otherwise.
    pub open spec fn after_first(self, first: Attempt) -> AfterFirst {
        match (first, self.mailbox) {
            (Attempt::Busy, Some(stale)) => AfterFirst::AbortAndRetry(stale),
            _ => AfterFirst::Done,
        }
    }

    /// Where the frame waits once sending is over.  `second` is how the retry
    /// ended, and counts only where a retry was due.  A frame that was
    /// refused for good waits nowhere.
    pub open spec fn outcome(self, first: Attempt, second: Attempt) -> Pending {
        match first {
            Attempt::Queued(mailbox) => Pending { mailbox: Some(mailbox) },
            Attempt::Busy => match (self.mailbox, second) {
                (Some(_), Attempt::Queued(mailbox)) => Pending { mailbox: Some(mailbox) },
                _ => Pending { mailbox: None },
            },
        }
    }

    /// No frame waits.
    pub fn new() -> (pending: Self)
        ensures
            pending.mailbox is None,
    {
        Pending { mailbox: None }
    }

    /// Says what is to follow the first attempt to send a frame.
    pub fn first_attempt(&self, first: Attempt) -> (next: AfterFirst)
        ensures
            next == self.after_first(first),
    {
        match first {
            Attempt::Queued(_) => AfterFirst::Done,
            Attempt::Busy => match self.mailbox {
                Some(stale) => AfterFirst::AbortAndRetry(stale),
                None => AfterFirst::Done,
            },
        }
    }

    /// Remembers where the frame waits now that sending is over.  `second` is
    /// how the retry ended; where no retry was due it is not looked at.
    pub fn settle(&mut self, first: Attempt, second: Attempt)
        ensures
            *final(self) == old(self).outcome(first, second),
    {
        let mailbox = match first {
            Attempt::Queued(mailbox) => Some(mailbox),
            Attempt::Busy => match (self.mailbox, second) {
                (Some(_), Attempt::Queued(mailbox)) => Some(mailbox),
                _ => None,
            },
        };
        self.mailbox = mailbox;
    }
}

} // verus!
