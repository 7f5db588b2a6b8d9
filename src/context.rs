//! The seed context: the contents of local files, wrapped into a user
//! message and a canned acknowledgment that open every conversation.

use vstd::prelude::*;
use crate::message::{Message, Role, message_of};

verus! {

/// The instruction that precedes the files' contents in the seed message.
pub open spec fn context_prefix() -> Seq<char> {
    "Remember the following code. Don't do anything with it until my next prompt yet.\n\n---\n\n"@
}

/// What stands between the contents of two files.
pub open spec fn context_separator() -> Seq<char> {
    "\n\n---\n\n"@
}

/// The canned reply that answers the seed message.
pub open spec fn acknowledgment() -> Seq<char> {
    "Alright, I won't do anything with the code yet. Just let me know what you would like me to do with it."@
}

/// The texts of the files that could be read, in order; `None` stands for
/// a file that could not be read.
pub open spec fn readable(contents: Seq<Option<String>>) -> Seq<Seq<char>>
    decreases contents.len(),
{
    if contents.len() == 0 {
        Seq::empty()
    } else {
        let rest = readable(contents.drop_last());
        match contents.last() {
            Some(s) => rest.push(s@),
            None => rest,
        }
    }
}

/// The parts written one after the other with `sep` between each two.
pub open spec fn joined(parts: Seq<Seq<char>>, sep: Seq<char>) -> Seq<char>
    decreases parts.len(),
{
    if parts.len() == 0 {
        Seq::empty()
    } else if parts.len() == 1 {
        parts[0]
    } else {
        joined(parts.drop_last(), sep) + sep + parts.last()
    }
}

/// The text of the seed message for the given file contents.
pub open spec fn seed_text(contents: Seq<Option<String>>) -> Seq<char> {
    context_prefix() + joined(readable(contents), context_separator())
}

/// The contents of the readable files joined by the separator.
pub fn context_text(contents: &Vec<Option<String>>) -> (r: String)
    ensures
        r@ == joined(readable(contents@), context_separator()),
{
    let mut out = String::new();
    let mut any: bool = false;
    let mut i: usize = 0;
    while i < contents.len()
        invariant
            0 <= i <= contents.len(),
            out@ == joined(readable(contents@.take(i as int)), context_separator()),
            any == (readable(contents@.take(i as int)).len() > 0),
        decreases contents.len() - i,
    {
        proof {
            assert(contents@.take(i as int + 1).drop_last() == contents@.take(i as int));
        }
        match &contents[i] {
            Some(s) => {
                if any {
                    out.append("\n\n---\n\n");
                }
                out.append(s.as_str());
                any = true;
                proof {
                    let prev = readable(contents@.take(i as int));
                    assert(prev.push(s@).drop_last() == prev);
                }
            },
            None => {},
        }
        i = i + 1;
    }
    proof {
        assert(contents@.take(contents.len() as int) == contents@);
    }
    out
}

/// The two messages that seed a conversation: the user message that holds
/// the instruction and the readable files' contents, and the assistant's
/// acknowledgment. Files that could not be read contribute nothing.
pub fn context_messages(contents: &Vec<Option<String>>) -> (r: (Message, Message))
    ensures
        r.0@ == message_of(Role::User, seed_text(contents@)),
        r.1@ == message_of(Role::Assistant, acknowledgment()),
{
    let mut text = String::from_str(
        "Remember the following code. Don't do anything with it until my next prompt yet.\n\n---\n\n",
    );
    let body = context_text(contents);
    text.append(body.as_str());
    let ack = String::from_str(
        "Alright, I won't do anything with the code yet. Just let me know what you would like me to do with it.",
    );
    (Message::new(Role::User, text), Message::new(Role::Assistant, ack))
}

} // verus!
