use askbot::config::{BotConfig, Tag};
use askbot::delivery::{audit, find_url, msg, strip_title, thread_name, video_url, TITLE_MAX};
use askbot::relay::{feedback, mention, plan, plan_lowered, Action};

fn tag(phrase: &str, webhook: &str, reply: &str, kind: &str) -> Tag {
    Tag::new(phrase.to_string(), webhook.to_string(), reply.to_string(), kind.to_string())
}

#[test]
fn phrase_followed_by_space_or_at_end_dispatches() {
    let tags = vec![tag("#clip", "hook-a", "", "channel")];
    assert_eq!(
        plan("look #clip here", &tags),
        vec![Action::Dispatch { webhook: "hook-a".to_string(), forum: false }]
    );
    assert_eq!(
        plan("look at this #clip", &tags),
        vec![Action::Dispatch { webhook: "hook-a".to_string(), forum: false }]
    );
    assert_eq!(plan("#clipboard", &tags), vec![]);
    assert_eq!(plan("nothing to see", &tags), vec![]);
}

#[test]
fn matching_ignores_case_of_message_and_phrase() {
    let tags = vec![tag("#Clip", "hook-a", "", "forum")];
    assert_eq!(
        plan("LOOK #CLIP HERE", &tags),
        vec![Action::Dispatch { webhook: "hook-a".to_string(), forum: true }]
    );
    assert_eq!(plan("LOOK #CLIP HERE", &tags), plan("look #clip here", &tags));
}

#[test]
fn empty_phrase_never_matches() {
    let tags = vec![tag("", "hook-a", "reply", "channel")];
    assert_eq!(plan("anything at all ", &tags), vec![]);
    assert_eq!(plan("", &tags), vec![]);
}

#[test]
fn command_form_gets_only_the_canned_reply() {
    let tags = vec![tag("#faq", "hook-faq", "Read the FAQ", "channel")];
    assert_eq!(plan("!faq", &tags), vec![Action::Reply("Read the FAQ".to_string())]);
    assert_eq!(plan("!FAQ", &tags), vec![Action::Reply("Read the FAQ".to_string())]);
}

#[test]
fn command_form_without_canned_reply_does_not_match() {
    let tags = vec![tag("#faq", "hook-faq", "", "channel")];
    assert_eq!(plan("!faq", &tags), vec![]);
}

#[test]
fn mention_shape_says_reply_to_the_named_user() {
    let tags = vec![tag("#faq", "hook-faq", "Read the FAQ", "channel")];
    assert_eq!(plan("!faq @Someone", &tags), vec![Action::Say("@someone Read the FAQ".to_string())]);
    assert_eq!(plan("!faq\t@Someone", &tags), vec![Action::Say("@someone Read the FAQ".to_string())]);
}

#[test]
fn command_form_with_more_text_is_delivered() {
    let tags = vec![tag("#faq", "hook-faq", "Read the FAQ", "channel")];
    assert_eq!(
        plan("!faq please", &tags),
        vec![Action::Dispatch { webhook: "hook-faq".to_string(), forum: false }]
    );
}

#[test]
fn every_matching_tag_acts_in_list_order() {
    let tags = vec![
        tag("#a", "hook-a", "", "channel"),
        tag("#b", "hook-b", "", "forum"),
        tag("#c", "hook-c", "", "channel"),
    ];
    assert_eq!(
        plan("#b and #a ", &tags),
        vec![
            Action::Dispatch { webhook: "hook-a".to_string(), forum: false },
            Action::Dispatch { webhook: "hook-b".to_string(), forum: true },
        ]
    );
}

#[test]
fn plan_of_lowered_text_is_exact() {
    let tags = vec![tag("#a", "hook-a", "", "channel")];
    assert_eq!(
        plan_lowered("x #a", &tags),
        vec![Action::Dispatch { webhook: "hook-a".to_string(), forum: false }]
    );
    assert_eq!(plan_lowered("x #A", &tags), vec![]);
}

#[test]
fn mention_needs_two_words() {
    assert_eq!(mention("!faq @bob"), Some("@bob".to_string()));
    assert_eq!(mention("!faq @bob x"), None);
    assert_eq!(mention("faq @bob"), None);
    assert_eq!(mention("!faq bob"), None);
    assert_eq!(mention("!faq"), None);
    assert_eq!(mention("!faq "), None);
    assert_eq!(mention("!faq  @bob"), Some("@bob".to_string()));
    assert_eq!(mention("!faq\t@bob"), Some("@bob".to_string()));
    assert_eq!(mention(" !faq @bob\n"), Some("@bob".to_string()));
}

fn config_with_templates(use_reply: bool) -> BotConfig {
    let mut bc = BotConfig::default();
    bc.response_message_success = "got it".to_string();
    bc.response_message_failure = "failed".to_string();
    bc.use_reply = use_reply;
    bc
}

#[test]
fn one_failed_delivery_gives_one_failure_message() {
    let tags = vec![tag("#a", "hook-a", "", "channel"), tag("#b", "hook-b", "", "channel")];
    let actions = plan("#a #b", &tags);
    assert_eq!(actions.len(), 2);
    let outcomes = vec![true, false];
    let bc = config_with_templates(true);
    assert_eq!(feedback(&bc, "viewer", &outcomes), Some(Action::Reply("failed".to_string())));
}

#[test]
fn feedback_after_success_and_without_reply_mode() {
    let bc = config_with_templates(false);
    assert_eq!(
        feedback(&bc, "viewer", &vec![true, true]),
        Some(Action::Say("@viewer: got it".to_string()))
    );
    assert_eq!(
        feedback(&bc, "viewer", &vec![false]),
        Some(Action::Say("@viewer: failed".to_string()))
    );
}

#[test]
fn no_feedback_without_delivery_or_template() {
    let bc = config_with_templates(true);
    assert_eq!(feedback(&bc, "viewer", &vec![]), None);
    let mut quiet = config_with_templates(true);
    quiet.response_message_failure = String::new();
    assert_eq!(feedback(&quiet, "viewer", &vec![true, false]), None);
    assert_eq!(feedback(&quiet, "viewer", &vec![true]), Some(Action::Reply("got it".to_string())));
}

#[test]
fn title_with_space_is_cut_at_the_space() {
    let title = format!("{} {}", "a".repeat(60), "b".repeat(24));
    assert_eq!(title.chars().count(), 85);
    assert_eq!(strip_title(&title), format!("{}...", "a".repeat(60)));
}

#[test]
fn title_of_eighty_characters_is_unchanged() {
    let title = format!("{} {}", "a".repeat(40), "b".repeat(39));
    assert_eq!(title.chars().count(), TITLE_MAX);
    assert_eq!(strip_title(&title), title);
}

#[test]
fn title_without_space_is_cut_hard() {
    let title = "c".repeat(90);
    assert_eq!(strip_title(&title), format!("{}...", "c".repeat(80)));
}

#[test]
fn title_cut_counts_characters() {
    let title = "é".repeat(100);
    assert_eq!(strip_title(&title), format!("{}...", "é".repeat(80)));
    assert_eq!(strip_title("short"), "short");
}

#[test]
fn url_runs_to_the_next_white_space() {
    assert_eq!(find_url("see https://x.org/a b"), Some("https://x.org/a".to_string()));
    assert_eq!(find_url("see http://x.org"), Some("http://x.org".to_string()));
    assert_eq!(find_url("see https://x.org/a\tb"), Some("https://x.org/a".to_string()));
    assert_eq!(find_url("http\nx"), Some("http".to_string()));
    assert_eq!(find_url("no address"), None);
}

#[test]
fn video_address_is_looked_up_as_watch_page() {
    assert_eq!(
        video_url("watch https://www.youtube.com/embed/abc now"),
        Some("https://www.youtube.com/v/abc".to_string())
    );
    assert_eq!(video_url("https://youtu.be/xyz"), Some("https://youtu.be/xyz".to_string()));
    assert_eq!(video_url("https://example.org/embed/abc"), None);
    assert_eq!(video_url("nothing here"), None);
}

#[test]
fn thread_name_prefers_the_video_title() {
    assert_eq!(thread_name("some text", Some("A Title".to_string())), "[Youtube] A Title");
    assert_eq!(thread_name("some text", None), "some text");
    let long = "d".repeat(100);
    assert_eq!(thread_name(&long, None), format!("{}...", "d".repeat(80)));
}

#[test]
fn payload_has_no_avatar() {
    let m = msg("user".to_string(), "hello".to_string(), Some("thread".to_string()));
    assert_eq!(m.username, "user");
    assert_eq!(m.avatar_url, None);
    assert_eq!(m.content, "hello");
    assert_eq!(m.thread_name, Some("thread".to_string()));
}

#[test]
fn audit_goes_to_the_log_endpoint_if_set() {
    let mut bc = BotConfig::default();
    assert_eq!(audit(&bc, "activated"), None);
    bc.log_webhook = "log-hook".to_string();
    let (hook, payload) = audit(&bc, "activated").unwrap();
    assert_eq!(hook, "log-hook");
    assert_eq!(payload.username, "Askbot");
    assert_eq!(payload.content, "activated");
    assert_eq!(payload.thread_name, None);
}
