//! The bounded message log.

use vstd::prelude::*;
use crate::color::Color;
use crate::config::MSG_HEIGHT;

verus! {

/// What the log holds after `entry` is added to `log`: once the log is
/// full, its oldest entry makes room for the new one.
pub open spec fn log_push(log: Seq<(Seq<char>, Color)>, entry: (Seq<char>, Color)) -> Seq<
    (Seq<char>, Color),
> {
    if log.len() == MSG_HEIGHT {
        log.drop_first().push(entry)
    } else {
        log.push(entry)
    }
}

/// The messages shown to the player, oldest first, each with its colour.
#[derive(Debug, PartialEq)]
pub struct MessageLog {
    messages: Vec<(String, Color)>,
}

impl View for MessageLog {
    type V = Seq<(Seq<char>, Color)>;

    closed spec fn view(&self) -> Seq<(Seq<char>, Color)> {
        Seq::new(self.messages@.len(), |i: int| (self.messages@[i].0@, self.messages@[i].1))
    }
}

impl MessageLog {
    /// An empty log.
    pub fn new() -> (log: MessageLog)
        ensures
            log@ == Seq::<(Seq<char>, Color)>::empty(),
    {
        let log = MessageLog { messages: Vec::new() };
        assert(log@ =~= Seq::<(Seq<char>, Color)>::empty());
        log
    }

    /// Appends a message, dropping the oldest one when the log is full.
    pub fn add(&mut self, message: String, color: Color)
        ensures
            final(self)@ == log_push(old(self)@, (message@, color)),
    {
        if self.messages.len() == MSG_HEIGHT {
            self.messages.remove(0);
        }
        self.messages.push((message, color));
        assert(self@ =~= log_push(old(self)@, (message@, color)));
    }

    /// The messages, oldest first.
    pub fn messages(&self) -> (m: &Vec<(String, Color)>)
        ensures
            m@.len() == self@.len(),
            forall|i: int| 0 <= i < m@.len() ==> (#[trigger] m@[i]).0@ == self@[i].0 && m@[i].1 == self@[i].1,
    {
        &self.messages
    }

    /// Number of messages in the log.
    pub fn len(&self) -> (n: usize)
        ensures
            n == self@.len(),
    {
        self.messages.len()
    }
}

/// A log that holds no more than its capacity stays so when a message is
/// added.
pub proof fn lemma_log_push_bounded(log: Seq<(Seq<char>, Color)>, entry: (Seq<char>, Color))
    requires
        log.len() <= MSG_HEIGHT,
    ensures
        log_push(log, entry).len() <= MSG_HEIGHT,
        log_push(log, entry).last() == entry,
{
}

} // verus!
