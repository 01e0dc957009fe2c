use meme_bot::dispatch::{classify, dispatch, Command, DispatchAction};
use meme_bot::imgflip::ImgflipClient;

fn client_with_drake() -> ImgflipClient {
    let mut client = ImgflipClient::new("user".to_string(), "pass".to_string());
    client.registry.insert("drake", "181913649");
    client
}

#[test]
fn ping_gets_exactly_one_pong_reply() {
    let client = client_with_drake();
    match dispatch(&client, "!ping") {
        DispatchAction::Reply(s) => assert_eq!(s, "!Pong"),
        _ => panic!("expected a reply"),
    }
}

#[test]
fn unmatched_message_gets_no_reply() {
    let client = client_with_drake();
    assert!(matches!(dispatch(&client, "hello there"), DispatchAction::NoReply));
    assert!(matches!(dispatch(&client, ""), DispatchAction::NoReply));
    assert!(matches!(dispatch(&client, "ping"), DispatchAction::NoReply));
    assert!(matches!(dispatch(&client, "!pingg"), DispatchAction::NoReply));
}

#[test]
fn source_request_gets_the_fixed_reply() {
    let client = client_with_drake();
    match dispatch(&client, "!source") {
        DispatchAction::Reply(s) => {
            assert_eq!(s, "source available at: https://github.com/squidboylan/meme-bot")
        },
        _ => panic!("expected a reply"),
    }
    match dispatch(&client, "!sourcecode please") {
        DispatchAction::Reply(s) => {
            assert_eq!(s, "source available at: https://github.com/squidboylan/meme-bot")
        },
        _ => panic!("expected a reply"),
    }
}

#[test]
fn unknown_template_gets_a_not_found_reply_and_no_call() {
    let client = client_with_drake();
    match dispatch(&client, "!meme nonexistent\ntext") {
        DispatchAction::Reply(s) => assert_eq!(s, "meme not found: nonexistent"),
        _ => panic!("expected a not-found reply"),
    }
}

#[test]
fn known_template_gets_a_provider_call_with_id_and_texts() {
    let client = client_with_drake();
    match dispatch(&client, "!meme drake\nTop\nBottom") {
        DispatchAction::CallProvider { template_id, texts } => {
            assert_eq!(template_id, "181913649");
            assert_eq!(texts, vec!["Top".to_string(), "Bottom".to_string()]);
        },
        _ => panic!("expected a provider call"),
    }
}

#[test]
fn template_name_is_matched_case_insensitively_and_trimmed() {
    let client = client_with_drake();
    match dispatch(&client, "!meme  DRAKE \nTop") {
        DispatchAction::CallProvider { template_id, texts } => {
            assert_eq!(template_id, "181913649");
            assert_eq!(texts, vec!["Top".to_string()]);
        },
        _ => panic!("expected a provider call"),
    }
}

#[test]
fn bare_meme_command_lists_templates() {
    let client = client_with_drake();
    let expected = "Available meme templates: drake, \nuse the format: !meme <Name>\n<TEXT1>\n<TEXT2>\n...";
    match dispatch(&client, "!meme") {
        DispatchAction::Reply(s) => assert_eq!(s, expected),
        _ => panic!("expected the template list"),
    }
}

#[test]
fn single_line_meme_command_lists_templates() {
    let client = client_with_drake();
    let expected = "Available meme templates: drake, \nuse the format: !meme <Name>\n<TEXT1>\n<TEXT2>\n...";
    match dispatch(&client, "!meme drake") {
        DispatchAction::Reply(s) => assert_eq!(s, expected),
        _ => panic!("expected the template list"),
    }
}

#[test]
fn list_reply_names_every_template() {
    let mut client = ImgflipClient::new("user".to_string(), "pass".to_string());
    client.registry.insert("drake", "181913649");
    client.registry.insert("two-buttons", "87743020");
    let expected = "Available meme templates: drake, two-buttons, \nuse the format: !meme <Name>\n<TEXT1>\n<TEXT2>\n...";
    match dispatch(&client, "!meme") {
        DispatchAction::Reply(s) => assert_eq!(s, expected),
        _ => panic!("expected the template list"),
    }
}

#[test]
fn classify_parses_a_caption_request() {
    match classify("!meme drake\nTop\nBottom") {
        Command::Caption { name, texts } => {
            assert_eq!(name, "drake");
            assert_eq!(texts, vec!["Top".to_string(), "Bottom".to_string()]);
        },
        _ => panic!("expected a caption command"),
    }
}

#[test]
fn classify_takes_a_trailing_newline_as_a_single_line() {
    assert!(matches!(classify("!meme drake\n"), Command::ListMemes));
}
