//! Reading one prompt: raw bytes accumulate until two consecutive newlines,
//! and the text is trimmed before it becomes a turn.

use vstd::prelude::*;

verus! {

/// The text that a byte stands for: each byte is taken as the character
/// with the same code.
pub open spec fn latin1(bs: Seq<u8>) -> Seq<char> {
    bs.map_values(|b: u8| b as char)
}

/// Whether the two bytes at `i` and `i + 1` are both newlines.
pub open spec fn delimiter_at(bs: Seq<u8>, i: int) -> bool {
    0 <= i && i + 1 < bs.len() && bs[i] == 10u8 && bs[i + 1] == 10u8
}

/// Whether a newline pair starts anywhere before `n`.
pub open spec fn delimiter_before(bs: Seq<u8>, n: int) -> bool {
    exists|i: int| 0 <= i < n && #[trigger] delimiter_at(bs, i)
}

/// Appends one character to a string.
/// Relies on `String::push`, which appends the given char to the end.
#[verifier::external_body]
pub(crate) fn push_char(s: &mut String, c: char)
    ensures
        final(s)@ == old(s)@.push(c),
{
    s.push(c)
}

/// A prompt in the making: it takes bytes one at a time until two
/// consecutive newlines have been seen. The second newline completes it;
/// neither newline of that pair becomes part of the text.
pub struct DelimitedInput {
    text: String,
    pending_newline: bool,
    done: bool,
}

impl View for DelimitedInput {
    type V = Seq<char>;

    /// The text accumulated so far.
    closed spec fn view(&self) -> Seq<char> {
        if self.pending_newline {
            self.text@.push('\n')
        } else {
            self.text@
        }
    }
}

impl DelimitedInput {
    /// The internal invariant: the stored text never ends with a newline,
    /// since a trailing newline is held back until the next byte.
    pub closed spec fn wf(&self) -> bool {
        &&& (self.text@.len() > 0 ==> self.text@.last() != '\n')
        &&& (self.done ==> !self.pending_newline)
    }

    /// Whether the delimiter has been seen.
    pub closed spec fn is_done(&self) -> bool {
        self.done
    }

    /// An empty reader.
    pub fn new() -> (r: DelimitedInput)
        ensures
            r.wf(),
            r@ == Seq::<char>::empty(),
            !r.is_done(),
    {
        DelimitedInput { text: String::new(), pending_newline: false, done: false }
    }

    /// Whether the delimiter has been seen.
    pub fn finished(&self) -> (r: bool)
        ensures
            r == self.is_done(),
    {
        self.done
    }

    /// Takes one byte. Returns true when it completes the delimiter: the byte
    /// is a newline and the text so far ends with one. That newline is then
    /// removed and the reader is done; otherwise the byte's character is
    /// appended.
    pub fn push_byte(&mut self, b: u8) -> (done: bool)
        requires
            old(self).wf(),
            !old(self).is_done(),
        ensures
            final(self).wf(),
            done == (b == 10u8 && old(self)@.len() > 0 && old(self)@.last() == '\n'),
            done ==> final(self)@ == old(self)@.drop_last(),
            !done ==> final(self)@ == old(self)@.push(b as char),
            final(self).is_done() == done,
    {
        if b == 10u8 {
            if self.pending_newline {
                self.pending_newline = false;
                self.done = true;
                assert(old(self)@.drop_last() == self.text@);
                true
            } else {
                self.pending_newline = true;
                false
            }
        } else {
            if self.pending_newline {
                push_char(&mut self.text, '\n');
                self.pending_newline = false;
            }
            push_char(&mut self.text, b as char);
            false
        }
    }

    /// The text accumulated so far.
    pub fn into_text(self) -> (r: String)
        requires
            self.wf(),
        ensures
            r@ == self@,
    {
        let mut text = self.text;
        if self.pending_newline {
            push_char(&mut text, '\n');
        }
        text
    }
}

/// Reads `bytes` as a stream up to the first pair of consecutive newlines.
/// Returns the text before that pair and the number of bytes consumed,
/// the pair included; where no pair occurs, all of the bytes and their text.
pub fn read_until_delimiter(bytes: &[u8]) -> (r: (String, usize))
    ensures
        r.1 <= bytes@.len(),
        ({
            let (text, n) = r;
            if delimiter_before(bytes@, bytes@.len() as int) {
                &&& n >= 2
                &&& delimiter_at(bytes@, n - 2)
                &&& !delimiter_before(bytes@, n - 2)
                &&& text@ == latin1(bytes@.take(n - 2))
            } else {
                n == bytes@.len() && text@ == latin1(bytes@)
            }
        }),
{
    let mut reader = DelimitedInput::new();
    let mut i: usize = 0;
    while i < bytes.len()
        invariant
            0 <= i <= bytes@.len(),
            reader.wf(),
            !reader.is_done(),
            reader@ == latin1(bytes@.take(i as int)),
            !delimiter_before(bytes@, i as int - 1),
        decreases bytes.len() - i,
    {
        let ghost before = reader@;
        let done = reader.push_byte(bytes[i]);
        proof {
            assert(bytes@.take(i as int + 1) == bytes@.take(i as int).push(bytes@[i as int]));
            assert(latin1(bytes@.take(i as int + 1)) == before.push(bytes@[i as int] as char));
            if i > 0 {
                assert(before.last() == bytes@[i as int - 1] as char);
            }
            assert(done ==> delimiter_at(bytes@, i as int - 1));
            assert(!done ==> !delimiter_at(bytes@, i as int - 1));
            if done {
                assert(bytes@.take(i as int - 1) == bytes@.take(i as int).drop_last());
                assert(latin1(bytes@.take(i as int - 1)) == before.drop_last());
            }
        }
        i = i + 1;
        if done {
            return (reader.into_text(), i);
        }
    }
    proof {
        assert(bytes@.take(i as int) == bytes@);
        assert(!delimiter_before(bytes@, bytes@.len() as int)) by {
            if bytes@.len() > 0 {
                assert(!delimiter_at(bytes@, bytes@.len() - 1));
            }
        }
    }
    (reader.into_text(), i)
}


/// What `str::trim` leaves of a text.
pub uninterp spec fn trimmed(s: Seq<char>) -> Seq<char>;

/// Removes leading and trailing whitespace.
/// Relies on `str::trim`: its result is determined by the characters alone.
#[verifier::external_body]
fn trim_text(s: &str) -> (r: String)
    ensures
        r@ == trimmed(s@),
{
    s.trim().to_string()
}

/// A turn's prompt from already trimmed input: none where it is empty.
pub fn prompt_from_trimmed(t: String) -> (r: Option<String>)
    ensures
        t@.len() == 0 ==> r is None,
        t@.len() > 0 ==> r == Some(t),
{
    if t.as_str().is_empty() {
        None
    } else {
        Some(t)
    }
}

/// A turn's prompt from raw input: the trimmed text, or none where nothing
/// but whitespace was entered, in which case no request is issued.
pub fn prompt_from_input(input: &str) -> (r: Option<String>)
    ensures
        trimmed(input@).len() == 0 ==> r is None,
        trimmed(input@).len() > 0 ==> r is Some && r->0@ == trimmed(input@),
{
    prompt_from_trimmed(trim_text(input))
}

/// The API key held in a credential file's text: the text trimmed.
pub fn api_key_from_text(text: &str) -> (r: String)
    ensures
        r@ == trimmed(text@),
{
    trim_text(text)
}

} // verus!
