//! The inbox of the back office: the messages that await an answer.

use crate::bytes::copy_text;
use rand::seq::SliceRandom;
use vstd::prelude::*;

verus! {

/// A message that nobody has taken up yet. The id is the number that its
/// UUID stands for.
#[derive(Debug)]
pub struct PendingMessage {
    pub id: u128,
    pub name: String,
    pub email: String,
    pub message: String,
}

impl Clone for PendingMessage {
    fn clone(&self) -> (copy: PendingMessage)
        ensures
            copy.id == self.id,
            copy.name@ == self.name@,
            copy.email@ == self.email@,
            copy.message@ == self.message@,
    {
        PendingMessage {
            id: self.id,
            name: copy_text(self.name.as_str()),
            email: copy_text(self.email.as_str()),
            message: copy_text(self.message.as_str()),
        }
    }
}

/// `SliceRandom::shuffle` of the `rand` crate, with the generator that
/// `rand::rng` hands out: the messages are put into an order that chance
/// decides. Whatever the order, they are the same messages, each as often as
/// before.
#[verifier::external_body]
fn rand_shuffle(messages: &mut Vec<PendingMessage>)
    ensures
        final(messages)@.to_multiset() == old(messages)@.to_multiset(),
{
    messages.shuffle(&mut rand::rng());
}

/// Puts the pending messages into a chance order, so that those who work
/// through the inbox do not all start with the same message. No message is
/// lost, added or changed.
pub fn shuffle_pending(messages: &mut Vec<PendingMessage>)
    ensures
        final(messages)@.to_multiset() == old(messages)@.to_multiset(),
        final(messages)@.len() == old(messages)@.len(),
        forall|i: int|
            0 <= i < final(messages)@.len() ==> old(messages)@.contains(
                #[trigger] final(messages)@[i],
            ),
{
    let ghost before = messages@;
    rand_shuffle(messages);
    proof {
        before.to_multiset_ensures();
        messages@.to_multiset_ensures();
        assert forall|i: int| 0 <= i < messages@.len() implies before.contains(
            #[trigger] messages@[i],
        ) by {
            assert(messages@.contains(messages@[i]));
            assert(messages@.to_multiset().count(messages@[i]) > 0);
        }
    }
}

} // verus!
