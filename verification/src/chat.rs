//! Chat lines waiting to be sent to the players.

use crate::text::{decimal_text, push_decimal, push_text};
use std::collections::VecDeque;
use vstd::prelude::*;

verus! {

/// A chat line: the timestamp in square brackets, the name of the player
/// who spoke, a colon, and what was said.
pub open spec fn chat_line(username: Seq<char>, message: Seq<char>, timestamp: u64) -> Seq<char> {
    seq!['['] + decimal_text(timestamp as nat) + seq![']', ' '] + username + seq![':', ' ']
        + message
}

/// Writes a chat line.
pub fn format_chat(username: &str, message: &str, timestamp: u64) -> (line: String)
    ensures
        line@ == chat_line(username@, message@, timestamp),
{
    let mut line = String::new();
    line.push('[');
    push_decimal(&mut line, timestamp);
    line.push(']');
    line.push(' ');
    push_text(&mut line, username);
    line.push(':');
    line.push(' ');
    push_text(&mut line, message);
    assert(line@ =~= chat_line(username@, message@, timestamp));
    line
}

/// The chat lines that wait to be sent, oldest first.
pub struct MessageQueue {
    messages: VecDeque<String>,
}

impl View for MessageQueue {
    type V = Seq<Seq<char>>;

    /// The waiting lines, oldest first.
    closed spec fn view(&self) -> Seq<Seq<char>> {
        self.messages@.map_values(|line: String| line@)
    }
}

impl MessageQueue {
    /// A queue with no line waiting.
    pub fn new() -> (queue: MessageQueue)
        ensures
            queue@ == Seq::<Seq<char>>::empty(),
    {
        let queue = MessageQueue { messages: VecDeque::new() };
        assert(queue@ =~= Seq::<Seq<char>>::empty());
        queue
    }

    /// Puts what a player said at the end of the queue, as a chat line.
    pub fn queue_chat(&mut self, username: &str, message: String, timestamp: u64)
        ensures
            final(self)@ == old(self)@.push(chat_line(username@, message@, timestamp)),
    {
        let line = format_chat(username, message.as_str(), timestamp);
        self.messages.push_back(line);
        assert(final(self)@ =~= old(self)@.push(chat_line(username@, message@, timestamp)));
    }

    /// Takes the oldest line off the queue.
    pub fn pop_front(&mut self) -> (line: Option<String>)
        ensures
            match line {
                Some(text) => old(self)@.len() > 0 && text@ == old(self)@[0] && final(self)@
                    == old(self)@.subrange(1, old(self)@.len() as int),
                None => old(self)@.len() == 0 && final(self)@ == old(self)@,
            },
    {
        let line = self.messages.pop_front();
        assert(final(self)@ =~= if old(self)@.len() > 0 {
            old(self)@.subrange(1, old(self)@.len() as int)
        } else {
            old(self)@
        });
        line
    }
}

} // verus!
