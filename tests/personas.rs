use libmoon::persona::{most_recent, replace_names, square_crop, Basic, Card, CharData};

#[test]
fn replace_names_fills_both_placeholders() {
    assert_eq!(
        replace_names("{{char}} greets {{user}}; {{user}}!", "Luna", Some("Ann")),
        "Luna greets Ann; Ann!"
    );
    assert_eq!(replace_names("{{char}} greets {{user}}", "Luna", None), "Luna greets {{user}}");
}

#[test]
fn basic_persona() {
    let b = Basic::new("Luna", "You are {{char}}, talking to {{user}}.");
    assert_eq!(b.name(), "Luna");
    assert_eq!(b.system_prompt(Some("Ann")), "You are Luna, talking to Ann.");
    assert!(b.greetings(Some("Ann")).is_empty());
}

#[test]
fn card_greetings_first_then_alternates() {
    let mut card = Card::basic("Luna", "desc");
    card.data.first_mes = "Hello {{user}}".to_string();
    card.data.alternate_greetings = vec!["Hi from {{char}}".to_string()];
    assert_eq!(card.greetings(Some("Ann")), vec!["Hello Ann", "Hi from Luna"]);
}

#[test]
fn card_system_prompt_joins_non_empty_fields() {
    let mut card = Card::basic("Luna", "I am {{char}}");
    card.data.scenario = "with {{user}}".to_string();
    assert_eq!(card.system_prompt(Some("Ann")), "I am Luna/nwith Ann");
    card.data.system_prompt = "Rules".to_string();
    assert_eq!(card.system_prompt(None), "Rules/nI am Luna/nwith {{user}}");
}

#[test]
fn basic_card_has_one_empty_greeting() {
    let card = Card::basic("Luna", "d");
    assert_eq!(card.greetings(None), vec![""]);
    assert_eq!(card.name(), "Luna");
    assert_eq!(card.spec_name, "chara_card_v2");
}

#[test]
fn most_recent_picks_latest_last() {
    assert_eq!(most_recent(&vec![]), None);
    assert_eq!(most_recent(&vec![3, 9, 2]), Some(1));
    assert_eq!(most_recent(&vec![5, 1, 5]), Some(2));
    assert_eq!(most_recent(&vec![0]), Some(0));
}

#[test]
fn square_crop_centres() {
    assert_eq!(square_crop(100, 60), (20, 0, 60));
    assert_eq!(square_crop(30, 51), (0, 10, 30));
    assert_eq!(square_crop(7, 7), (0, 0, 7));
}
