//! The conversation history: an append-only log of messages that pairs
//! each user prompt with the reply to it.

use vstd::prelude::*;
use crate::context::{acknowledgment, context_messages, seed_text};
use crate::message::{Message, Role, message_of, MessageView};

verus! {

/// Whether `ms` alternates strictly: user prompts at even positions,
/// replies at odd ones, and every prompt answered.
pub open spec fn alternates(ms: Seq<MessageView>) -> bool {
    &&& ms.len() % 2 == 0
    &&& forall|i: int| 0 <= i < ms.len() ==> ((#[trigger] ms[i]).role == Role::User <==> i % 2 == 0)
}

/// The history after one turn: the prompt and its reply appended.
pub open spec fn after_turn(h: Seq<MessageView>, prompt: Seq<char>, reply: MessageView) -> Seq<
    MessageView,
> {
    h.push(message_of(Role::User, prompt)).push(reply)
}

/// The history after a sequence of turns, each a prompt and the text of
/// the assistant's reply.
pub open spec fn after_turns(h: Seq<MessageView>, turns: Seq<(Seq<char>, Seq<char>)>) -> Seq<
    MessageView,
>
    decreases turns.len(),
{
    if turns.len() == 0 {
        h
    } else {
        let (prompt, reply) = turns.last();
        after_turn(after_turns(h, turns.drop_last()), prompt, message_of(Role::Assistant, reply))
    }
}

/// Each successful turn adds exactly one prompt and one reply, and keeps
/// the history alternating; a history that is not empty stays so.
pub proof fn lemma_turns_grow(h: Seq<MessageView>, turns: Seq<(Seq<char>, Seq<char>)>)
    ensures
        after_turns(h, turns).len() == h.len() + 2 * turns.len(),
        h.len() > 0 ==> after_turns(h, turns).len() > 0,
        alternates(h) ==> alternates(after_turns(h, turns)),
    decreases turns.len(),
{
    if turns.len() > 0 {
        lemma_turns_grow(h, turns.drop_last());
        let before = after_turns(h, turns.drop_last());
        let (prompt, reply) = turns.last();
        lemma_turn_alternates(before, prompt, message_of(Role::Assistant, reply));
    }
}

/// One turn keeps the history alternating when its reply is not a prompt.
pub proof fn lemma_turn_alternates(h: Seq<MessageView>, prompt: Seq<char>, reply: MessageView)
    requires
        reply.role != Role::User,
    ensures
        alternates(h) ==> alternates(after_turn(h, prompt, reply)),
{
    if alternates(h) {
        let n = after_turn(h, prompt, reply);
        assert forall|i: int| 0 <= i < n.len() implies ((#[trigger] n[i]).role == Role::User <==> i
            % 2 == 0) by {
            if i < h.len() {
                assert(n[i] == h[i]);
            }
        }
    }
}

/// The messages of a conversation, in order.
pub struct History {
    messages: Vec<Message>,
}

impl View for History {
    type V = Seq<MessageView>;

    closed spec fn view(&self) -> Seq<MessageView> {
        self.messages@.map_values(|m: Message| m@)
    }
}

impl History {
    /// The invariant: the messages alternate between prompts and replies.
    pub open spec fn wf(&self) -> bool {
        alternates(self@)
    }

    /// An empty history.
    pub fn new() -> (r: History)
        ensures
            r.wf(),
            r@ == Seq::<MessageView>::empty(),
    {
        let r = History { messages: Vec::new() };
        assert(r@ =~= Seq::<MessageView>::empty());
        r
    }

    /// The history that a conversation opens with: the seed message made of
    /// the readable files' contents, and its acknowledgment.
    pub fn seeded(contents: &Vec<Option<String>>) -> (r: History)
        ensures
            r.wf(),
            r@ == seq![
                message_of(Role::User, seed_text(contents@)),
                message_of(Role::Assistant, acknowledgment()),
            ],
    {
        let (seed, ack) = context_messages(contents);
        let mut messages: Vec<Message> = Vec::new();
        messages.push(seed);
        messages.push(ack);
        let r = History { messages };
        assert(r@ =~= seq![
            message_of(Role::User, seed_text(contents@)),
            message_of(Role::Assistant, acknowledgment()),
        ]);
        r
    }

    /// The number of messages.
    pub fn len(&self) -> (r: usize)
        ensures
            r == self@.len(),
    {
        self.messages.len()
    }

    /// The messages, in order.
    pub fn messages(&self) -> (r: &Vec<Message>)
        ensures
            r@.map_values(|m: Message| m@) == self@,
    {
        &self.messages
    }

    /// Appends one turn: the user's prompt and the reply to it.
    pub fn push_turn(&mut self, prompt: String, reply: Message)
        requires
            old(self).wf(),
            reply.role != Role::User,
        ensures
            final(self).wf(),
            final(self)@ == after_turn(old(self)@, prompt@, reply@),
    {
        proof {
            lemma_turn_alternates(self@, prompt@, reply@);
        }
        let ghost reply_view = reply@;
        self.messages.push(Message::new(Role::User, prompt));
        self.messages.push(reply);
        assert(self@ =~= after_turn(old(self)@, prompt@, reply_view));
    }

    /// The messages that a request carries: the whole history followed by
    /// the new prompt.
    pub fn request_messages(&self, prompt: &str) -> (r: Vec<Message>)
        ensures
            r@.map_values(|m: Message| m@) == self@.push(message_of(Role::User, prompt@)),
    {
        let mut out: Vec<Message> = Vec::new();
        let mut i: usize = 0;
        while i < self.messages.len()
            invariant
                0 <= i <= self.messages@.len(),
                out@.len() == i,
                forall|j: int| 0 <= j < i ==> (#[trigger] out@[j])@ == self.messages@[j]@,
            decreases self.messages.len() - i,
        {
            out.push(self.messages[i].duplicate());
            i = i + 1;
        }
        out.push(Message::new(Role::User, String::from_str(prompt)));
        assert(out@.map_values(|m: Message| m@) =~= self@.push(message_of(Role::User, prompt@)));
        out
    }
}

} // verus!
