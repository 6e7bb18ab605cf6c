use libmoon::message::{Message, OwnerType, Style};

fn runs(text: &str) -> Vec<(String, Style)> {
    Message::line(text)
}

#[test]
fn style_next_toggles_on_markers() {
    assert_eq!(Style::Normal.next('*'), (Style::Strong, false));
    assert_eq!(Style::Strong.next('*'), (Style::Normal, true));
    assert_eq!(Style::Normal.next('"'), (Style::Quote, false));
    assert_eq!(Style::Quote.next('\u{201D}'), (Style::Normal, true));
    assert_eq!(Style::Strong.next('\u{201C}'), (Style::StrongQuote, true));
    assert_eq!(Style::StrongQuote.next('*'), (Style::Quote, true));
    assert_eq!(Style::Quote.next('a'), (Style::Quote, false));
}

#[test]
fn line_splits_into_styled_runs() {
    assert_eq!(
        runs("He said \"hi\" *softly*."),
        vec![
            ("He said ".to_string(), Style::Normal),
            ("\"hi\"".to_string(), Style::Quote),
            (" ".to_string(), Style::Normal),
            ("*softly*".to_string(), Style::Strong),
            (".".to_string(), Style::Normal),
        ]
    );
}

#[test]
fn line_nested_styles() {
    assert_eq!(
        runs("*a \"b\" c*"),
        vec![
            ("*a \"".to_string(), Style::Strong),
            ("b\"".to_string(), Style::StrongQuote),
            (" c*".to_string(), Style::Strong),
        ]
    );
}

#[test]
fn line_of_nothing_has_no_runs() {
    assert!(runs("").is_empty());
}

#[test]
fn runs_give_the_line_back() {
    let text = "x *y* \"z\" \u{201C}w\u{201D} *unclosed";
    let joined: String = runs(text).into_iter().map(|(t, _)| t).collect();
    assert_eq!(joined, text);
}

#[test]
fn split_lines_like_str_split() {
    assert_eq!(Message::split_lines("a\nb"), vec!["a", "b"]);
    assert_eq!(Message::split_lines("a\n"), vec!["a", ""]);
    assert_eq!(Message::split_lines(""), vec![""]);
}

#[test]
fn clean_removes_images_and_blank_space() {
    let m = Message::from_char(0, "  Look ![cat](http://x/cat.png)  \n here \r\n\n  now ".to_string(), 0);
    assert_eq!(m.clean(), "Look here\n\nnow\n");
}

#[test]
fn spans_skip_empty_lines() {
    let m = Message::from_char(0, "Hi *there*\n\n\"bye\"".to_string(), 0);
    assert_eq!(
        m.spans(),
        vec![
            vec![("Hi ".to_string(), Style::Normal), ("*there*".to_string(), Style::Strong)],
            vec![("\"bye\"".to_string(), Style::Quote)],
        ]
    );
}

#[test]
fn message_constructors() {
    let u = Message::from_user("hey".to_string(), 4);
    assert_eq!(u.owner, OwnerType::User);
    assert_eq!(u.text, "hey");
    assert_eq!(u.id(), 4);
    let e = Message::empty_from_char(1, 5);
    assert_eq!(e.owner, OwnerType::Char(1));
    assert_eq!(e.text, "");
    let b = u.create_brother(6);
    assert_eq!(b.owner, OwnerType::User);
    assert_eq!(b.text, "");
    assert_eq!(b.id(), 6);
    let c = u.clone();
    assert_eq!(c.text, "hey");
    assert_eq!(c.id(), 4);
}

#[test]
fn owner_index() {
    assert_eq!(usize::from(OwnerType::User), 0);
    assert_eq!(usize::from(OwnerType::Char(0)), 1);
    assert_eq!(usize::from(OwnerType::Char(usize::MAX)), usize::MAX);
}

#[test]
fn chat_message_roles() {
    let u = Message::from_user("q".to_string(), 0).to_chat_message();
    assert_eq!(u.role, llm::chat::ChatRole::User);
    assert_eq!(u.content, "q");
    let c = Message::from_char(0, "a".to_string(), 1).to_chat_message();
    assert_eq!(c.role, llm::chat::ChatRole::Assistant);
    assert_eq!(c.content, "a");
    assert_eq!(c.message_type, llm::chat::MessageType::Text);
}
