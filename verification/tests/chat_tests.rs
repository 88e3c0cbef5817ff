use wakey::chat::{ChatAction, ChatKey, ChatState, CHAT_WELCOME};

fn type_text(chat: &mut ChatState, text: &str) {
    for c in text.chars() {
        assert_eq!(chat.on_key(ChatKey::Char(c)), ChatAction::Nothing);
    }
}

#[test]
fn a_chat_starts_with_the_welcome() {
    let chat = ChatState::new();
    assert_eq!(chat.messages().len(), 1);
    assert_eq!(chat.messages()[0].role, "assistant");
    assert_eq!(chat.messages()[0].content, CHAT_WELCOME);
    assert_eq!(chat.input(), "");
    assert!(!chat.waiting());
}

#[test]
fn enter_sends_the_line_once() {
    let mut chat = ChatState::new();
    type_text(&mut chat, "hello");
    assert_eq!(chat.on_key(ChatKey::Backspace), ChatAction::Nothing);
    assert_eq!(chat.input(), "hell");
    assert_eq!(chat.on_key(ChatKey::Enter), ChatAction::Send("hell".to_string()));
    assert!(chat.waiting());
    assert_eq!(chat.input(), "");
    assert_eq!(chat.messages()[1].content, "hell");
    type_text(&mut chat, "again");
    assert_eq!(chat.on_key(ChatKey::Enter), ChatAction::Nothing);
    chat.on_reply(Ok("Hi!".to_string()));
    assert!(!chat.waiting());
    assert_eq!(chat.messages()[2].role, "assistant");
    assert_eq!(chat.messages()[2].content, "Hi!");
    chat.on_reply(Err("timeout".to_string()));
    assert_eq!(chat.messages()[3].content, "Error: timeout");
}

#[test]
fn blank_lines_are_not_sent_and_q_quits() {
    let mut chat = ChatState::new();
    type_text(&mut chat, "  ");
    assert_eq!(chat.on_key(ChatKey::Enter), ChatAction::Nothing);
    assert_eq!(chat.on_key(ChatKey::Char('q')), ChatAction::Quit);
    assert_eq!(chat.on_key(ChatKey::Other), ChatAction::Nothing);
}
