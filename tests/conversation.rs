use libmoon::chat::{chat_title, Chat, ChatUpdate};
use libmoon::generation::{Generation, ProviderEvent, RunState};
use libmoon::message::{Message, OwnerType};
use libmoon::node::Node;

fn greeted(greetings: &[&str]) -> Chat {
    Chat::with_greetings(greetings.iter().map(|g| g.to_string()).collect())
}

fn texts(chat: &Chat) -> Vec<String> {
    chat.get_history().into_iter().map(|m| m.text).collect()
}

fn well_formed_path(chat: &Chat) -> bool {
    chat.get_history_structure()
        .iter()
        .all(|&(selected, count)| 1 <= selected && selected <= count)
}

#[test]
fn greetings_become_first_turn_alternatives() {
    let chat = greeted(&["Hi", "Hey", "Hello"]);
    assert_eq!(texts(&chat), vec!["Hi".to_string()]);
    assert_eq!(chat.get_history_structure(), vec![(1, 3)]);
    let h = chat.get_history();
    assert_eq!(h[0].owner, OwnerType::Char(0));
    assert_eq!(h[0].id(), 0);
}

#[test]
fn no_greetings_gives_empty_history() {
    let chat = greeted(&[]);
    assert!(chat.get_history().is_empty());
    assert!(chat.get_history_structure().is_empty());
}

#[test]
fn append_to_empty_root_is_a_no_op() {
    let mut chat = greeted(&[]);
    chat.append_to_last_message("lost");
    assert!(chat.get_history().is_empty());
    assert!(chat.get_history_structure().is_empty());
}

#[test]
fn retreat_and_advance_over_greetings() {
    let mut chat = greeted(&["Hi", "Hey"]);
    chat.previous(0);
    assert_eq!(texts(&chat), vec!["Hi".to_string()]);
    assert_eq!(chat.get_history_structure(), vec![(1, 2)]);

    assert!(!chat.next(0));
    assert_eq!(texts(&chat), vec!["Hey".to_string()]);
    assert_eq!(chat.get_history_structure(), vec![(2, 2)]);

    assert!(chat.next(0));
    let h = chat.get_history();
    assert_eq!(h.len(), 1);
    assert_eq!(h[0].text, "");
    assert_eq!(h[0].owner, OwnerType::Char(0));
    assert_eq!(chat.get_history_structure(), vec![(3, 3)]);
    assert!(well_formed_path(&chat));
}

#[test]
fn advance_opens_alternative_with_next_identity() {
    let mut chat = greeted(&["Hi"]);
    assert!(chat.next(0));
    assert_eq!(chat.get_history()[0].id(), 1);
    chat.previous(0);
    assert_eq!(texts(&chat), vec!["Hi".to_string()]);
    assert!(!chat.next(0));
    assert_eq!(chat.get_history()[0].id(), 1);
}

#[test]
fn edit_character_turn_owes_no_reply() {
    let mut chat = greeted(&["Hi"]);
    assert!(!chat.add_edit(0, "corrected".to_string()));
    let h = chat.get_history();
    assert_eq!(h.len(), 1);
    assert_eq!(h[0].text, "corrected");
    assert_eq!(h[0].owner, OwnerType::Char(0));
    assert_eq!(chat.get_history_structure(), vec![(2, 2)]);
}

#[test]
fn edit_user_turn_opens_reply() {
    let mut chat = greeted(&["Hi"]);
    chat.add_user_message("hello".to_string());
    chat.append_to_last_message("old reply");
    assert_eq!(chat.get_history_structure().len(), 3);

    assert!(chat.add_edit(1, "corrected".to_string()));
    let h = chat.get_history();
    assert_eq!(h.len(), 3);
    assert_eq!(h[1].text, "corrected");
    assert_eq!(h[1].owner, OwnerType::User);
    assert_eq!(h[2].text, "");
    assert_eq!(h[2].owner, OwnerType::Char(0));
    assert_eq!(chat.get_history_structure(), vec![(1, 1), (2, 2), (1, 1)]);

    chat.previous(1);
    assert_eq!(texts(&chat), vec!["Hi", "hello", "old reply"]);
}

#[test]
fn edit_text_is_trimmed() {
    let mut chat = greeted(&["Hi"]);
    chat.add_edit(0, "  spaced out \n".to_string());
    assert_eq!(texts(&chat), vec!["spaced out".to_string()]);
}

#[test]
fn remove_selected_second_alternative() {
    let mut chat = greeted(&["A", "B"]);
    assert!(!chat.next(0));
    assert_eq!(texts(&chat), vec!["B".to_string()]);
    chat.delete(0);
    assert_eq!(texts(&chat), vec!["A".to_string()]);
    assert_eq!(chat.get_history_structure(), vec![(1, 1)]);
}

#[test]
fn remove_only_alternative_truncates() {
    let mut chat = greeted(&["Hi"]);
    chat.add_user_message("hello".to_string());
    chat.delete(1);
    assert_eq!(texts(&chat), vec!["Hi".to_string()]);
    assert_eq!(chat.get_history_structure(), vec![(1, 1)]);
    assert!(well_formed_path(&chat));
}

#[test]
fn user_turn_round_trip() {
    let mut chat = greeted(&["Hi"]);
    chat.add_user_message("hello".to_string());
    let h = chat.get_history();
    assert_eq!(h.len(), 3);
    assert_eq!(h[1].owner, OwnerType::User);
    assert_eq!(h[1].text, "hello");
    assert_eq!(h[2].owner, OwnerType::Char(0));
    assert_eq!(h[2].text, "");
    assert_eq!(h[1].id(), 1);
    assert_eq!(h[2].id(), 2);
}

#[test]
fn user_turn_is_trimmed() {
    let mut chat = greeted(&["Hi"]);
    chat.add_user_message("   hello there \t\n".to_string());
    assert_eq!(chat.get_history()[1].text, "hello there");
}

#[test]
fn blank_user_turn_only_asks_for_reply() {
    let mut chat = greeted(&["Hi"]);
    chat.add_user_message("   ".to_string());
    let h = chat.get_history();
    assert_eq!(h.len(), 2);
    assert_eq!(h[1].owner, OwnerType::Char(0));
    assert_eq!(h[1].text, "");
}

#[test]
fn streaming_reply_end_to_end() {
    let mut chat = greeted(&["Hi"]);
    chat.add_user_message("Count to 3".to_string());
    let (mut run, first) = Generation::start();
    let mut updates = vec![first];
    let events = vec![
        ProviderEvent::Accepted,
        ProviderEvent::Fragment("1, ".to_string()),
        ProviderEvent::Fragment("2, ".to_string()),
        ProviderEvent::Fragment("3".to_string()),
        ProviderEvent::Ended,
    ];
    for event in events {
        if let Some(update) = run.on_event(&mut chat, event) {
            updates.push(update);
        }
    }
    let h = chat.get_history();
    assert_eq!(h.last().unwrap().text, "1, 2, 3");
    assert!(matches!(updates.last(), Some(ChatUpdate::StreamFinished)));
    assert!(matches!(updates[0], ChatUpdate::RequestSent));
    assert!(matches!(updates[1], ChatUpdate::MessageCreated));
    assert_eq!(updates.iter().filter(|u| matches!(u, ChatUpdate::StreamUpdate)).count(), 3);
    assert_eq!(run.state(), RunState::Done);
}

#[test]
fn failed_request_leaves_reply_empty() {
    let mut chat = greeted(&["Hi"]);
    chat.add_user_message("hello".to_string());
    let (mut run, _) = Generation::start();
    let update = run.on_event(&mut chat, ProviderEvent::Failed("offline".to_string()));
    match update {
        Some(ChatUpdate::Error(e)) => assert_eq!(e, "offline"),
        _ => panic!("expected an error update"),
    }
    assert_eq!(run.state(), RunState::Done);
    assert_eq!(chat.get_history().last().unwrap().text, "");
    assert!(run.on_event(&mut chat, ProviderEvent::Fragment("late".to_string())).is_none());
    assert_eq!(chat.get_history().last().unwrap().text, "");
}

#[test]
fn fragment_before_acceptance_is_ignored() {
    let mut chat = greeted(&["Hi"]);
    chat.add_user_message("hello".to_string());
    let (mut run, _) = Generation::start();
    assert!(run.on_event(&mut chat, ProviderEvent::Fragment("early".to_string())).is_none());
    assert_eq!(run.state(), RunState::Requested);
    assert_eq!(chat.get_history().last().unwrap().text, "");
}

#[test]
fn request_drops_pending_reply() {
    let mut chat = greeted(&["Hi"]);
    chat.add_user_message("hello".to_string());
    let request = chat.request_messages();
    assert_eq!(request.len(), 2);
    assert_eq!(request[0].role, llm::chat::ChatRole::Assistant);
    assert_eq!(request[0].content, "Hi");
    assert_eq!(request[1].role, llm::chat::ChatRole::User);
    assert_eq!(request[1].content, "hello");
    let history = chat.request_history();
    assert_eq!(history.len(), 2);
}

#[test]
fn node_push_extends_selected_path() {
    let mut node = Node::new();
    node.push(Message::from_user("a".to_string(), 0));
    node.push(Message::from_char(0, "b".to_string(), 1));
    let mut history = Vec::new();
    node.get_history(&mut history);
    assert_eq!(history.len(), 2);
    assert_eq!(history[1].text, "b");
    let mut structure = Vec::new();
    node.get_history_structure(&mut structure);
    assert_eq!(structure, vec![(1, 1), (1, 1)]);
}

#[test]
fn title_names_both_personas() {
    assert_eq!(chat_title("Ann", "Luna"), "Ann's chat with Luna");
}

#[test]
fn invariant_holds_along_a_session() {
    let mut chat = greeted(&["Hi", "Hey"]);
    chat.add_user_message("one".to_string());
    chat.next(2);
    chat.next(2);
    chat.previous(2);
    chat.add_edit(1, "two".to_string());
    chat.delete(2);
    chat.next(0);
    chat.delete(0);
    assert!(well_formed_path(&chat));
    assert_eq!(texts(&chat), vec!["Hi".to_string(), "two".to_string()]);
}
