//! The message log: what happened, oldest first, each line with its colour.

use crate::color::Color;
use vstd::prelude::*;

verus! {

/// The ordered log of messages shown to the player.
#[derive(Debug, PartialEq, Eq)]
pub struct Messages {
    pub messages: Vec<(String, Color)>,
}

impl View for Messages {
    type V = Seq<(Seq<char>, Color)>;

    open spec fn view(&self) -> Seq<(Seq<char>, Color)> {
        self.messages@.map_values(|m: (String, Color)| (m.0@, m.1))
    }
}

impl Messages {
    /// An empty log.
    pub fn new() -> (log: Messages)
        ensures
            log@ == Seq::<(Seq<char>, Color)>::empty(),
    {
        Messages { messages: Vec::new() }
    }

    /// Appends `message`, to be shown in `color`, at the end of the log.
    pub fn add(&mut self, message: String, color: Color)
        ensures
            final(self)@ == old(self)@.push((message@, color)),
    {
        self.messages.push((message, color));
    }

    /// Appends the literal `message`, to be shown in `color`.
    pub fn add_str(&mut self, message: &str, color: Color)
        ensures
            final(self)@ == old(self)@.push((message@, color)),
    {
        self.add(String::from_str(message), color);
    }

    /// The number of messages in the log.
    pub fn len(&self) -> (n: usize)
        ensures
            n == self@.len(),
    {
        self.messages.len()
    }

    /// The text of message `i`, counted from the oldest.
    pub fn text(&self, i: usize) -> (s: String)
        requires
            i < self@.len(),
        ensures
            s@ == self@[i as int].0,
    {
        self.messages[i].0.clone()
    }

    /// The colour of message `i`, counted from the oldest.
    pub fn color(&self, i: usize) -> (c: Color)
        requires
            i < self@.len(),
        ensures
            c == self@[i as int].1,
    {
        self.messages[i].1
    }
}

} // verus!
