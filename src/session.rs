//! One conversation as a state machine. Between turns the session is idle;
//! a non-empty prompt starts a turn, whose reply arrives as fragments or as
//! a whole response and is appended to the history at once when the turn
//! ends. The caller performs the transport and the printing.

use vstd::prelude::*;
use crate::history::{after_turn, History};
use crate::input::{prompt_from_input, trimmed};
use crate::message::{Message, Role, message_of, MessageView};
use crate::request::{build_request, Request, SamplingConfig};
use crate::stream::{reconstruct, reconstructed_text, Fragment};
use crate::context::{acknowledgment, seed_text};

verus! {

/// Why a turn ended without a reply.
#[derive(Clone, Copy, Debug, PartialEq, Eq, Structural)]
pub enum TurnError {
    /// The response held no candidate completion.
    NoChoices,
}

/// Where a session stands.
pub enum Phase {
    /// Waiting for the next prompt.
    Idle,
    /// A request for `prompt` is out; `fragments` have arrived so far.
    AwaitingReply { prompt: String, fragments: Vec<Fragment> },
}

/// A conversation: its history, its phase and the settings of its requests.
pub struct Session {
    history: History,
    phase: Phase,
    config: SamplingConfig,
}

impl Session {
    /// The messages exchanged so far.
    pub closed spec fn conversation(&self) -> Seq<MessageView> {
        self.history@
    }

    /// Whether a turn is under way.
    pub closed spec fn awaiting(&self) -> bool {
        self.phase is AwaitingReply
    }

    /// The prompt of the turn under way.
    pub closed spec fn prompt(&self) -> Seq<char> {
        match self.phase {
            Phase::AwaitingReply { prompt, fragments } => prompt@,
            Phase::Idle => Seq::empty(),
        }
    }

    /// The fragments of the turn under way, in arrival order.
    pub closed spec fn received(&self) -> Seq<Fragment> {
        match self.phase {
            Phase::AwaitingReply { prompt, fragments } => fragments@,
            Phase::Idle => Seq::empty(),
        }
    }

    /// The settings of every request of this session.
    pub closed spec fn settings(&self) -> SamplingConfig {
        self.config
    }

    /// The invariant: the history alternates between prompts and replies.
    pub closed spec fn wf(&self) -> bool {
        self.history.wf()
    }

    /// A session seeded with the given file contents (`None` for a file that
    /// could not be read), idle.
    pub fn new(contents: &Vec<Option<String>>, config: SamplingConfig) -> (r: Session)
        ensures
            r.wf(),
            !r.awaiting(),
            r.settings() == config,
            r.conversation() == seq![
                message_of(Role::User, seed_text(contents@)),
                message_of(Role::Assistant, acknowledgment()),
            ],
    {
        Session { history: History::seeded(contents), phase: Phase::Idle, config }
    }

    /// The history so far.
    pub fn history(&self) -> (r: &History)
        ensures
            r@ == self.conversation(),
    {
        &self.history
    }

    /// Whether a turn is under way.
    pub fn is_awaiting(&self) -> (r: bool)
        ensures
            r == self.awaiting(),
    {
        match self.phase {
            Phase::AwaitingReply { .. } => true,
            Phase::Idle => false,
        }
    }

    /// Takes one entry of user input. Input that trims to nothing starts no
    /// turn and returns none. Otherwise the trimmed prompt starts a turn and
    /// the request to send is returned: the history with the prompt last.
    /// The history itself changes only when the turn ends.
    pub fn submit(&mut self, input: &str) -> (r: Option<Request>)
        requires
            old(self).wf(),
            !old(self).awaiting(),
        ensures
            final(self).wf(),
            final(self).conversation() == old(self).conversation(),
            final(self).settings() == old(self).settings(),
            trimmed(input@).len() == 0 ==> r is None && !final(self).awaiting(),
            trimmed(input@).len() > 0 ==> {
                &&& r is Some
                &&& r->0.messages@.map_values(|m: Message| m@) == old(self).conversation().push(
                    message_of(Role::User, trimmed(input@)),
                )
                &&& r->0.config == old(self).settings()
                &&& final(self).awaiting()
                &&& final(self).prompt() == trimmed(input@)
                &&& final(self).received() == Seq::<Fragment>::empty()
            },
    {
        match prompt_from_input(input) {
            None => None,
            Some(prompt) => {
                let request = build_request(&self.history, prompt.as_str(), self.config);
                self.phase = Phase::AwaitingReply { prompt, fragments: Vec::new() };
                Some(request)
            },
        }
    }

    /// Takes one fragment of the streamed reply and keeps it for the end of
    /// the turn. Returns the text to show at once: the fragment's text for
    /// content, none for a marker.
    pub fn receive(&mut self, f: Fragment) -> (r: Option<String>)
        requires
            old(self).awaiting(),
        ensures
            final(self).awaiting(),
            final(self).wf() == old(self).wf(),
            final(self).conversation() == old(self).conversation(),
            final(self).settings() == old(self).settings(),
            final(self).prompt() == old(self).prompt(),
            final(self).received() == old(self).received().push(f),
            match f {
                Fragment::Content { delta, response_index } => r == Some(delta),
                _ => r is None,
            },
    {
        match &mut self.phase {
            Phase::AwaitingReply { prompt, fragments } => {
                match f {
                    Fragment::Content { delta, response_index } => {
                        let shown = delta.clone();
                        fragments.push(Fragment::Content { delta, response_index });
                        Some(shown)
                    },
                    other => {
                        fragments.push(other);
                        None
                    },
                }
            },
            Phase::Idle => None,
        }
    }

    /// Ends a streamed turn once the stream has closed: the prompt and the
    /// reply reconstructed from all fragments are appended together. A
    /// stream without content still yields a reply, with empty text.
    pub fn finish(&mut self)
        requires
            old(self).wf(),
            old(self).awaiting(),
        ensures
            final(self).wf(),
            !final(self).awaiting(),
            final(self).settings() == old(self).settings(),
            final(self).conversation() == after_turn(
                old(self).conversation(),
                old(self).prompt(),
                message_of(Role::Assistant, reconstructed_text(old(self).received())),
            ),
    {
        let mut phase = Phase::Idle;
        std::mem::swap(&mut phase, &mut self.phase);
        match phase {
            Phase::AwaitingReply { prompt, fragments } => {
                let reply = reconstruct(&fragments);
                self.history.push_turn(prompt, reply);
            },
            Phase::Idle => {},
        }
    }

    /// Ends a turn with a whole response, given as its candidate
    /// completions. The first candidate's text becomes the reply and is
    /// appended with the prompt. Without candidates the turn adds nothing
    /// and `NoChoices` is returned; the session goes on either way.
    pub fn apply_reply(&mut self, choices: &Vec<Message>) -> (r: Result<(), TurnError>)
        requires
            old(self).wf(),
            old(self).awaiting(),
        ensures
            final(self).wf(),
            !final(self).awaiting(),
            final(self).settings() == old(self).settings(),
            choices@.len() == 0 ==> r == Err::<(), TurnError>(TurnError::NoChoices)
                && final(self).conversation() == old(self).conversation(),
            choices@.len() > 0 ==> r is Ok && final(self).conversation() == after_turn(
                old(self).conversation(),
                old(self).prompt(),
                message_of(Role::Assistant, choices@[0].content@),
            ),
    {
        let mut phase = Phase::Idle;
        std::mem::swap(&mut phase, &mut self.phase);
        if choices.len() == 0 {
            return Err(TurnError::NoChoices);
        }
        match phase {
            Phase::AwaitingReply { prompt, .. } => {
                let reply = Message::new(Role::Assistant, choices[0].content.clone());
                self.history.push_turn(prompt, reply);
            },
            Phase::Idle => {},
        }
        Ok(())
    }

    /// Drops the turn under way, as when its transport failed: the history
    /// keeps no part of it.
    pub fn abandon(&mut self)
        requires
            old(self).awaiting(),
        ensures
            !final(self).awaiting(),
            final(self).wf() == old(self).wf(),
            final(self).settings() == old(self).settings(),
            final(self).conversation() == old(self).conversation(),
    {
        self.phase = Phase::Idle;
    }
}

} // verus!
