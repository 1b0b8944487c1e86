use askbot::command::{handle_whisper, join_tags, parse_command, parse_whisper, Whisper};
use askbot::text::split_words;
use askbot::config::{
    bool_id, bool_true, channel_string, default_config, is_channel_string, BotConfig, Tag,
};
use askbot::gate::{gate_message, is_mod, sender_is_ignored, Public};
use askbot::relay::Action;
use askbot::setup::{config_file_name_ok, entered_tag, split_list, webhook_ok};

fn mod_config() -> BotConfig {
    let mut bc = BotConfig::default();
    bc.channel = "streamer".to_string();
    bc.mods = vec!["helper".to_string()];
    bc
}

#[test]
fn parsing_commands() {
    assert_eq!(
        parse_command("#add foo bar"),
        Whisper::Add("foo".to_string(), "bar".to_string())
    );
    assert_eq!(parse_command("#remove foo"), Whisper::Remove("foo".to_string()));
    assert_eq!(parse_command("#list"), Whisper::List);
    assert_eq!(parse_command("#add foo"), Whisper::Nothing);
    assert_eq!(parse_command("hello there"), Whisper::Nothing);
    assert_eq!(
        parse_command("  #add\tfoo   bar\n"),
        Whisper::Add("foo".to_string(), "bar".to_string())
    );
    assert_eq!(parse_command("#LIST"), Whisper::Nothing);
    assert_eq!(parse_command(""), Whisper::Nothing);
}

#[test]
fn words_split_at_any_white_space() {
    assert_eq!(split_words(" a\u{3000}b\u{a0}c  "), vec!["a", "b", "c"]);
    assert_eq!(split_words("   "), Vec::<String>::new());
}

#[test]
fn only_mods_and_owner_may_command() {
    let bc = mod_config();
    assert_eq!(parse_whisper(&bc, "helper", "#list"), Whisper::List);
    assert_eq!(parse_whisper(&bc, "streamer", "#list"), Whisper::List);
    assert_eq!(parse_whisper(&bc, "someone", "#list"), Whisper::Nothing);
}

#[test]
fn add_list_remove_round_trip() {
    let mut bc = mod_config();
    let before = bc.tags.clone();

    let reply = handle_whisper(&mut bc, "helper", "#add #test1 https://hook").unwrap();
    assert_eq!(reply.text, "Tag added: #test1");
    assert!(reply.changed);
    assert_eq!(reply.channel, "streamer");
    assert_eq!(reply.login, "helper");
    assert_eq!(
        bc.tags,
        vec![Tag::new(
            "#test1".to_string(),
            "https://hook".to_string(),
            String::new(),
            "channel".to_string()
        )]
    );

    let listing = handle_whisper(&mut bc, "helper", "#list").unwrap();
    assert!(listing.text.contains("#test1"));
    assert_eq!(listing.text, "Tags: #test1");
    assert!(!listing.changed);

    let reply = handle_whisper(&mut bc, "helper", "#remove #test1").unwrap();
    assert_eq!(reply.text, "Tag removed: #test1");
    assert!(reply.changed);
    assert_eq!(bc.tags, before);

    let listing = handle_whisper(&mut bc, "helper", "#list").unwrap();
    assert!(!listing.text.contains("#test1"));
    assert_eq!(listing.text, "Tags: ");
}

#[test]
fn removing_an_absent_phrase_still_replies_and_saves() {
    let mut bc = mod_config();
    handle_whisper(&mut bc, "helper", "#add #a hook-a");
    let before = bc.tags.clone();
    let reply = handle_whisper(&mut bc, "helper", "#remove #zzz").unwrap();
    assert_eq!(reply.text, "Tag removed: #zzz");
    assert!(reply.changed);
    assert_eq!(bc.tags, before);
}

#[test]
fn remove_takes_only_the_first_equal_phrase() {
    let mut bc = mod_config();
    handle_whisper(&mut bc, "helper", "#add #a one");
    handle_whisper(&mut bc, "helper", "#add #b two");
    handle_whisper(&mut bc, "helper", "#add #a three");
    handle_whisper(&mut bc, "helper", "#remove #a");
    assert_eq!(bc.tags.len(), 2);
    assert_eq!(bc.tags[0].webhook, "two");
    assert_eq!(bc.tags[1].webhook, "three");
    assert_eq!(join_tags(&bc.tags), "#b, #a");
}

#[test]
fn others_get_the_configured_response() {
    let mut bc = mod_config();
    assert!(handle_whisper(&mut bc, "someone", "#list").is_none());
    bc.whisper_response = "Please ask a mod".to_string();
    let reply = handle_whisper(&mut bc, "someone", "#add #x y").unwrap();
    assert_eq!(reply.text, "Please ask a mod");
    assert!(!reply.changed);
    assert!(bc.tags.is_empty());
}

#[test]
fn owner_needs_mods_to_be_set() {
    let mut bc = mod_config();
    bc.mods.clear();
    assert!(handle_whisper(&mut bc, "streamer", "#list").is_none());
}

#[test]
fn non_commands_of_mods_get_no_reply() {
    let mut bc = mod_config();
    assert!(handle_whisper(&mut bc, "helper", "hello there").is_none());
}

#[test]
fn deactivate_and_activate_by_broadcaster() {
    let mut bc = BotConfig::default();
    bc.tags.push(Tag::new("#a".to_string(), "hook".to_string(), String::new(), "channel".to_string()));
    let mut activated = true;
    let broadcaster = vec!["broadcaster".to_string()];
    let none: Vec<String> = vec![];

    let r = gate_message(&bc, &mut activated, "owner", "#DeActivate", &broadcaster);
    assert_eq!(r, Public::Toggled("deactivated".to_string()));
    assert!(!activated);

    assert_eq!(gate_message(&bc, &mut activated, "viewer", "#a ", &none), Public::Inactive);
    assert_eq!(gate_message(&bc, &mut activated, "viewer", "#activate", &none), Public::Inactive);
    assert!(!activated);

    let r = gate_message(&bc, &mut activated, "owner", "#activate", &broadcaster);
    assert_eq!(r, Public::Toggled("activated".to_string()));
    assert!(activated);

    assert_eq!(
        gate_message(&bc, &mut activated, "viewer", "#a ", &none),
        Public::Relay(vec![Action::Dispatch { webhook: "hook".to_string(), forum: false }])
    );
}

#[test]
fn ignored_sender_changes_nothing() {
    let mut bc = mod_config();
    bc.ignore = vec!["Nightbot".to_string()];
    bc.tags.push(Tag::new("#a".to_string(), "hook".to_string(), String::new(), "channel".to_string()));
    let moderator = vec!["moderator".to_string()];
    let mut activated = false;
    assert_eq!(gate_message(&bc, &mut activated, "nightbot", "#activate", &moderator), Public::Ignored);
    assert!(!activated);
    activated = true;
    assert_eq!(gate_message(&bc, &mut activated, "NIGHTBOT", "#a ", &moderator), Public::Ignored);
    assert!(activated);

    bc.mods.push("nightbot".to_string());
    bc.whisper_response = "hi".to_string();
    assert!(handle_whisper(&mut bc, "nightbot", "#add #b hook").is_none());
    assert_eq!(bc.tags.len(), 1);
}

#[test]
fn ignore_list_is_case_insensitive() {
    let mut bc = BotConfig::default();
    bc.ignore = vec!["StreamElements".to_string()];
    assert!(sender_is_ignored(&bc, "streamelements"));
    assert!(sender_is_ignored(&bc, "STREAMELEMENTS"));
    assert!(!sender_is_ignored(&bc, "someone"));
}

#[test]
fn badges_that_may_toggle() {
    assert!(is_mod(&vec!["subscriber".to_string(), "moderator".to_string()]));
    assert!(is_mod(&vec!["broadcaster".to_string()]));
    assert!(!is_mod(&vec!["vip".to_string()]));
    assert!(!is_mod(&vec![]));
}

#[test]
fn kinds_and_flags() {
    assert!(is_channel_string("channel"));
    assert!(!is_channel_string("forum"));
    assert_eq!(channel_string(), "channel");
    assert!(bool_id(&true));
    assert!(!bool_id(&false));
    assert!(bool_true());
}

#[test]
fn default_configuration() {
    let bc = default_config();
    assert_eq!(bc.key, "askbot");
    assert!(bc.use_reply);
    assert!(bc.tags.is_empty());
    assert!(bc.channel.is_empty());
}

#[test]
fn setup_rules() {
    assert!(config_file_name_ok("config.json"));
    assert!(config_file_name_ok("bot.yaml"));
    assert!(!config_file_name_ok("bot.toml"));
    assert!(webhook_ok(""));
    assert!(webhook_ok("https://discord.com/api/webhooks/1/abc"));
    assert!(!webhook_ok("https://example.org/hook"));
    assert_eq!(entered_tag("#a".to_string(), String::new()), None);
    assert_eq!(
        entered_tag("#a".to_string(), "hook".to_string()),
        Some(Tag::new("#a".to_string(), "hook".to_string(), String::new(), "channel".to_string()))
    );
    assert_eq!(split_list(" alice, bob ,carol"), vec!["alice", "bob", "carol"]);
    assert_eq!(split_list(""), vec![""]);
    assert_eq!(split_list("a,,b"), vec!["a", "", "b"]);
}
