//! The sending end of a tokio channel, with a ghost record of every message
//! offered to it.
use vstd::prelude::*;
use tokio::sync::mpsc::Sender as MpscSender;

verus! {

#[verifier::external_type_specification]
#[verifier::external_body]
#[verifier::reject_recursive_types(T)]
pub struct ExChannelSender<T>(MpscSender<T>);

/// The sending end of a channel, and the messages offered to it so far.
#[verifier::reject_recursive_types(T)]
pub struct ChannelEnd<T> {
    sender: MpscSender<T>,
    offered: Ghost<Seq<T>>,
}

impl<T> ChannelEnd<T> {
    /// The messages offered to the channel through this end, oldest first.
    pub closed spec fn offered(&self) -> Seq<T> {
        self.offered@
    }

    /// An end that has offered nothing yet.
    pub fn new(sender: MpscSender<T>) -> (e: Self)
        ensures
            e.offered() == Seq::<T>::empty(),
    {
        ChannelEnd { sender, offered: Ghost(Seq::empty()) }
    }

    /// `tokio::sync::mpsc::Sender::try_send`: hands `value` to the channel
    /// without waiting. The record of offered messages grows by exactly the
    /// value handed over. Whether the channel took it depends on how full the
    /// channel is and on whether its receiver is still there, so nothing is
    /// said of the result. The call neither blocks nor panics.
    #[verifier::external_body]
    pub(crate) fn offer(&mut self, value: T) -> (taken: bool)
        ensures
            final(self).offered() == old(self).offered().push(value),
        no_unwind
    {
        self.sender.try_send(value).is_ok()
    }
}

} // verus!
