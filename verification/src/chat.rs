//! The interactive chat: what each key does to the line being typed and to
//! the conversation shown, and what a reply adds to it. Drawing and reading
//! the keys belong to the terminal.
use vstd::prelude::*;
use crate::cortex::decision::messages_view;
use crate::text::{chars_of, push_str, string_of, trim, trim_exec};
use crate::types::{message_view, ChatMessage};

verus! {

/// The first message of a chat.
pub const CHAT_WELCOME: &'static str = "Hi! I'm Wakey. Type a message and press Enter. Press 'q' to quit.";

/// A key pressed in the chat.
#[derive(Debug, Clone, Copy, PartialEq, Eq)]
pub enum ChatKey {
    Char(char),
    Enter,
    Backspace,
    /// Any other key.
    Other,
}

/// What the terminal does after a key.
#[derive(Debug, Clone, PartialEq, Eq)]
pub enum ChatAction {
    Nothing,
    /// Leave the chat.
    Quit,
    /// Ask the agent to answer this message.
    Send(String),
}

/// An action, with its text as characters.
pub enum ChatActionView {
    Nothing,
    Quit,
    Send(Seq<char>),
}

pub open spec fn chat_action_view(a: ChatAction) -> ChatActionView {
    match a {
        ChatAction::Nothing => ChatActionView::Nothing,
        ChatAction::Quit => ChatActionView::Quit,
        ChatAction::Send(t) => ChatActionView::Send(t@),
    }
}

/// The chat after a key, as (line being typed, conversation, waiting for a
/// reply, action): `q` quits; Enter sends a line that is not blank unless a
/// reply is awaited, clearing it and showing it as the user's message;
/// Backspace removes the last character; any other character is typed.
pub open spec fn chat_step_spec(
    input: Seq<char>,
    msgs: Seq<(Seq<char>, Seq<char>)>,
    waiting: bool,
    key: ChatKey,
) -> (Seq<char>, Seq<(Seq<char>, Seq<char>)>, bool, ChatActionView) {
    match key {
        ChatKey::Char(c) => if c == 'q' {
            (input, msgs, waiting, ChatActionView::Quit)
        } else {
            (input.push(c), msgs, waiting, ChatActionView::Nothing)
        },
        ChatKey::Enter => if trim(input).len() > 0 && !waiting {
            (
                Seq::empty(),
                msgs.push(("user"@, input)),
                true,
                ChatActionView::Send(input),
            )
        } else {
            (input, msgs, waiting, ChatActionView::Nothing)
        },
        ChatKey::Backspace => (
            if input.len() > 0 {
                input.drop_last()
            } else {
                input
            },
            msgs,
            waiting,
            ChatActionView::Nothing,
        ),
        ChatKey::Other => (input, msgs, waiting, ChatActionView::Nothing),
    }
}

/// The text shown for the agent's answer: the reply, or its error.
pub open spec fn reply_text(reply: Result<Seq<char>, Seq<char>>) -> Seq<char> {
    match reply {
        Ok(r) => r,
        Err(e) => "Error: "@ + e,
    }
}

/// The chat's state: the line being typed, the conversation shown and
/// whether a reply is awaited.
pub struct ChatState {
    input: Vec<char>,
    messages: Vec<ChatMessage>,
    waiting: bool,
}

impl ChatState {
    pub closed spec fn input_view(&self) -> Seq<char> {
        self.input@
    }

    pub closed spec fn messages_shown(&self) -> Seq<(Seq<char>, Seq<char>)> {
        messages_view(self.messages@)
    }

    pub closed spec fn is_waiting(&self) -> bool {
        self.waiting
    }

    /// A chat with an empty line and the welcome message.
    pub fn new() -> (r: Self)
        ensures
            r.input_view() == Seq::<char>::empty(),
            r.messages_shown() == seq![("assistant"@, CHAT_WELCOME@)],
            !r.is_waiting(),
    {
        let mut messages: Vec<ChatMessage> = Vec::new();
        messages.push(ChatMessage::assistant(CHAT_WELCOME));
        let r = ChatState { input: Vec::new(), messages, waiting: false };
        assert(r.messages_shown() =~= seq![("assistant"@, CHAT_WELCOME@)]);
        r
    }

    /// React to a key.
    pub fn on_key(&mut self, key: ChatKey) -> (r: ChatAction)
        ensures
            (
                final(self).input_view(),
                final(self).messages_shown(),
                final(self).is_waiting(),
                chat_action_view(r),
            ) == chat_step_spec(
                old(self).input_view(),
                old(self).messages_shown(),
                old(self).is_waiting(),
                key,
            ),
    {
        match key {
            ChatKey::Char(c) => {
                if c == 'q' {
                    ChatAction::Quit
                } else {
                    self.input.push(c);
                    ChatAction::Nothing
                }
            },
            ChatKey::Enter => {
                let t = trim_exec(&self.input);
                if t.len() > 0 && !self.waiting {
                    let line = string_of(&self.input);
                    let ghost before = self.messages_shown();
                    self.messages.push(ChatMessage::user(line.as_str()));
                    assert(self.messages_shown() =~= before.push(("user"@, line@)));
                    self.input = Vec::new();
                    self.waiting = true;
                    ChatAction::Send(line)
                } else {
                    ChatAction::Nothing
                }
            },
            ChatKey::Backspace => {
                if self.input.len() > 0 {
                    let _ = self.input.pop();
                    assert(self.input@ =~= old(self).input@.drop_last());
                }
                ChatAction::Nothing
            },
            ChatKey::Other => ChatAction::Nothing,
        }
    }

    /// Show the agent's answer (or its error) and stop waiting.
    pub fn on_reply(&mut self, reply: Result<String, String>)
        ensures
            final(self).input_view() == old(self).input_view(),
            final(self).messages_shown() == old(self).messages_shown().push(
                (
                    "assistant"@,
                    reply_text(
                        match reply {
                            Ok(r) => Ok(r@),
                            Err(e) => Err(e@),
                        },
                    ),
                ),
            ),
            !final(self).is_waiting(),
    {
        let text = match reply {
            Ok(r) => r,
            Err(e) => {
                let mut v = chars_of("Error: ");
                push_str(&mut v, e.as_str());
                string_of(&v)
            },
        };
        let ghost before = self.messages_shown();
        self.messages.push(ChatMessage::assistant(text.as_str()));
        assert(self.messages_shown() =~= before.push(("assistant"@, text@)));
        self.waiting = false;
    }

    /// The line being typed.
    pub fn input(&self) -> (r: String)
        ensures
            r@ == self.input_view(),
    {
        string_of(&self.input)
    }

    /// The conversation shown, oldest first.
    pub fn messages(&self) -> (r: &Vec<ChatMessage>)
        ensures
            messages_view(r@) == self.messages_shown(),
    {
        &self.messages
    }

    /// Whether a reply is awaited.
    pub fn waiting(&self) -> (r: bool)
        ensures
            r == self.is_waiting(),
    {
        self.waiting
    }
}

/// Law: a line is sent at most once, and only when no reply is awaited:
/// after it is sent the line is empty and a reply is awaited, so a second
/// Enter sends nothing until the reply arrives.
pub proof fn law_one_message_at_a_time(
    input: Seq<char>,
    msgs: Seq<(Seq<char>, Seq<char>)>,
    waiting: bool,
)
    ensures
        chat_step_spec(input, msgs, waiting, ChatKey::Enter).3 is Send ==> !waiting,
        ({
            let (i2, m2, w2, _) = chat_step_spec(input, msgs, waiting, ChatKey::Enter);
            chat_step_spec(i2, m2, w2, ChatKey::Enter).3 is Nothing
        }),
{
    let (i2, m2, w2, a) = chat_step_spec(input, msgs, waiting, ChatKey::Enter);
    if a is Send {
        assert(i2 == Seq::<char>::empty());
        assert(crate::text::trim_start(i2) == i2);
        assert(trim(i2).len() == 0);
    }
}

} // verus!
