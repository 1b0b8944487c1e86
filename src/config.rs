//! The configuration: trigger phrases ("tags") with their endpoints, and the bot's settings.
use vstd::prelude::*;

use crate::text::{same_text, string_of};

verus! {

/// A tag as a value: its phrase, its endpoint, its canned reply and its target kind.
pub struct TagView {
    pub tag: Seq<char>,
    pub webhook: Seq<char>,
    pub description: Seq<char>,
    pub channel_type: Seq<char>,
}

/// A trigger: messages that contain `tag` are relayed to `webhook`.
#[derive(Debug, Clone, PartialEq, Eq)]
pub struct Tag {
    /// The trigger phrase; an empty phrase never matches.
    pub tag: String,
    /// The endpoint that matching messages are delivered to.
    pub webhook: String,
    /// The canned reply, sent when the phrase is invoked in command form.
    pub description: String,
    /// `"channel"` or `"forum"`; a forum endpoint wants a thread name with each message.
    pub channel_type: String,
}

impl View for Tag {
    type V = TagView;

    open spec fn view(&self) -> TagView {
        TagView {
            tag: self.tag@,
            webhook: self.webhook@,
            description: self.description@,
            channel_type: self.channel_type@,
        }
    }
}

/// The target kind of a plain channel endpoint.
pub open spec fn channel_kind() -> Seq<char> {
    seq!['c', 'h', 'a', 'n', 'n', 'e', 'l']
}

/// The target kind of a forum endpoint.
pub open spec fn forum_kind() -> Seq<char> {
    seq!['f', 'o', 'r', 'u', 'm']
}

/// Whether a target kind is the plain channel kind.
pub fn is_channel_string(s: &str) -> (r: bool)
    ensures
        r == (s@ == channel_kind()),
{
    let kind = channel_string();
    same_text(s, kind.as_str())
}

/// The plain channel kind, the default target kind of a tag.
pub fn channel_string() -> (r: String)
    ensures
        r@ == channel_kind(),
{
    let v: Vec<char> = vec!['c', 'h', 'a', 'n', 'n', 'e', 'l'];
    let r = string_of(&v);
    assert(v@ =~= channel_kind());
    r
}

/// Whether a target kind is the forum kind.
pub fn is_forum_string(s: &str) -> (r: bool)
    ensures
        r == (s@ == forum_kind()),
{
    let v: Vec<char> = vec!['f', 'o', 'r', 'u', 'm'];
    let kind = string_of(&v);
    assert(v@ =~= forum_kind());
    same_text(s, kind.as_str())
}

/// The identity on flags; a flag that is set need not be written out.
pub fn bool_id(a: &bool) -> (r: bool)
    ensures
        r == *a,
{
    *a
}

/// The default of the reply flag.
pub fn bool_true() -> (r: bool)
    ensures
        r,
{
    true
}

impl Tag {
    /// A tag with the given fields.
    pub fn new(tag: String, webhook: String, description: String, channel_type: String) -> (r: Tag)
        ensures
            r@ == (TagView { tag: tag@, webhook: webhook@, description: description@, channel_type: channel_type@ }),
    {
        Tag { tag, webhook, description, channel_type }
    }

    /// A tag with the given phrase and endpoint, no canned reply, and the channel kind.
    pub fn plain(tag: String, webhook: String) -> (r: Tag)
        ensures
            r@ == (TagView { tag: tag@, webhook: webhook@, description: Seq::empty(), channel_type: channel_kind() }),
    {
        Tag { tag, webhook, description: String::new(), channel_type: channel_string() }
    }

    /// A copy of this tag.
    pub fn duplicate(&self) -> (r: Tag)
        ensures
            r@ == self@,
    {
        Tag {
            tag: self.tag.clone(),
            webhook: self.webhook.clone(),
            description: self.description.clone(),
            channel_type: self.channel_type.clone(),
        }
    }
}

/// The tags of a list, as values.
pub open spec fn tags_view(tags: Seq<Tag>) -> Seq<TagView> {
    tags.map_values(|t: Tag| t@)
}

/// The texts of a list, as character sequences.
pub open spec fn texts_view(v: Seq<String>) -> Seq<Seq<char>> {
    v.map_values(|s: String| s@)
}

/// The configuration as a value.
pub struct ConfigView {
    pub channel: Seq<char>,
    pub username: Seq<char>,
    pub oauth_token: Seq<char>,
    pub tags: Seq<TagView>,
    pub key: Seq<char>,
    pub mods: Seq<Seq<char>>,
    pub log_webhook: Seq<char>,
    pub response_message_success: Seq<char>,
    pub response_message_failure: Seq<char>,
    pub whisper_response: Seq<char>,
    pub ignore: Seq<Seq<char>>,
    pub use_reply: bool,
}

/// The bot's configuration. Empty texts and lists stand for settings that are not made.
#[derive(Debug, Clone, Default)]
pub struct BotConfig {
    /// The channel the bot joins; its owner may always send commands.
    pub channel: String,
    pub username: String,
    pub oauth_token: String,
    /// The triggers, in order.
    pub tags: Vec<Tag>,
    /// The shared secret of the web front end.
    pub key: String,
    /// The users whose private messages are read as commands.
    pub mods: Vec<String>,
    /// Where changes and activation toggles are reported.
    pub log_webhook: String,
    /// Said after a message was delivered to every matching endpoint.
    pub response_message_success: String,
    /// Said after some delivery of a message failed.
    pub response_message_failure: String,
    /// The answer to private messages of users who may not send commands.
    pub whisper_response: String,
    /// Senders whose messages are dropped, compared without regard to case.
    pub ignore: Vec<String>,
    /// Answer in the message's thread, rather than with an `@mention`.
    pub use_reply: bool,
}

impl View for BotConfig {
    type V = ConfigView;

    open spec fn view(&self) -> ConfigView {
        ConfigView {
            channel: self.channel@,
            username: self.username@,
            oauth_token: self.oauth_token@,
            tags: tags_view(self.tags@),
            key: self.key@,
            mods: texts_view(self.mods@),
            log_webhook: self.log_webhook@,
            response_message_success: self.response_message_success@,
            response_message_failure: self.response_message_failure@,
            whisper_response: self.whisper_response@,
            ignore: texts_view(self.ignore@),
            use_reply: self.use_reply,
        }
    }
}

/// The key of a configuration that is written when none exists yet.
pub open spec fn default_key() -> Seq<char> {
    seq!['a', 's', 'k', 'b', 'o', 't']
}

/// The configuration written when none exists yet: no settings but the web front end's key
/// and answers in the message's thread.
pub fn default_config() -> (r: BotConfig)
    ensures
        r@ == (ConfigView {
            channel: seq![],
            username: seq![],
            oauth_token: seq![],
            tags: seq![],
            key: default_key(),
            mods: seq![],
            log_webhook: seq![],
            response_message_success: seq![],
            response_message_failure: seq![],
            whisper_response: seq![],
            ignore: seq![],
            use_reply: true,
        }),
{
    let key: Vec<char> = vec!['a', 's', 'k', 'b', 'o', 't'];
    assert(key@ =~= default_key());
    let r = BotConfig {
        channel: String::new(),
        username: String::new(),
        oauth_token: String::new(),
        tags: Vec::new(),
        key: string_of(&key),
        mods: Vec::new(),
        log_webhook: String::new(),
        response_message_success: String::new(),
        response_message_failure: String::new(),
        whisper_response: String::new(),
        ignore: Vec::new(),
        use_reply: true,
    };
    assert(r@.tags =~= seq![]);
    assert(r@.mods =~= seq![]);
    assert(r@.ignore =~= seq![]);
    r
}

} // verus!
