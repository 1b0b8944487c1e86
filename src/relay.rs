//! Classification of public chat messages against the tags, and the feedback that
//! follows delivery.
use vstd::prelude::*;

use crate::config::{
    forum_kind, is_forum_string, tags_view, texts_view, BotConfig, ConfigView, Tag, TagView,
};
use crate::text::{
    chars_of, contains, ends_with, has_text, lower_of, lowercase, occurs, push_char, same,
    split_words, starts_with, words,
};

verus! {

/// What the bot does for one matching tag, as a value.
pub enum ActionView {
    Reply(Seq<char>),
    Say(Seq<char>),
    Dispatch(Seq<char>, bool),
}

/// What the bot does for one matching tag.
#[derive(Debug, Clone, PartialEq, Eq)]
pub enum Action {
    /// Answer the originating message, in its thread, with this text.
    Reply(String),
    /// Say this text in the channel as a plain message.
    Say(String),
    /// Deliver the message to this endpoint; a forum endpoint wants a thread name.
    Dispatch { webhook: String, forum: bool },
}

impl View for Action {
    type V = ActionView;

    open spec fn view(&self) -> ActionView {
        match self {
            Action::Reply(s) => ActionView::Reply(s@),
            Action::Say(s) => ActionView::Say(s@),
            Action::Dispatch { webhook, forum } => ActionView::Dispatch(webhook@, *forum),
        }
    }
}

/// The actions of a list, as values.
pub open spec fn actions_view(v: Seq<Action>) -> Seq<ActionView> {
    v.map_values(|a: Action| a@)
}

/// The command form of a phrase: a leading `#` becomes `!`.
pub open spec fn command_form(p: Seq<char>) -> Seq<char> {
    if p.len() > 0 && p[0] == '#' {
        seq!['!'] + p.skip(1)
    } else {
        p
    }
}

/// The name that a message `!<word> @<name>` mentions: the message is exactly two words
/// separated by white space, the first opening with `!` and the second with `@`.
pub open spec fn mention_of(m: Seq<char>) -> Option<Seq<char>> {
    let w = words(m);
    if w.len() == 2 && w[0].len() > 0 && w[0][0] == '!' && w[1].len() > 0 && w[1][0] == '@' {
        Some(w[1])
    } else {
        None
    }
}

/// Whether the lowercased message `m` matches tag `t`: the lowercased phrase followed by a
/// space occurs in it, or it ends with the lowercased phrase, or it starts with the command
/// form of the phrase and the tag has a canned reply. A tag without phrase never matches.
pub open spec fn tag_matches(m: Seq<char>, t: TagView) -> bool {
    &&& t.tag.len() > 0
    &&& {
        ||| has_text(m, lower_of(t.tag).push(' '))
        ||| ends_with(m, lower_of(t.tag))
        ||| (starts_with(m, command_form(t.tag)) && t.description.len() > 0)
    }
}

/// What the bot does for tag `t` on the lowercased message `m`.
pub open spec fn tag_action(m: Seq<char>, t: TagView) -> Option<ActionView> {
    if !tag_matches(m, t) {
        None
    } else if m == command_form(t.tag) {
        Some(ActionView::Reply(t.description))
    } else if mention_of(m) is Some {
        Some(ActionView::Say(mention_of(m)->0 + seq![' '] + t.description))
    } else {
        Some(ActionView::Dispatch(t.webhook, t.channel_type == forum_kind()))
    }
}

/// The actions for the lowercased message `m`, tag by tag in list order.
pub open spec fn planned(m: Seq<char>, tags: Seq<TagView>) -> Seq<ActionView>
    decreases tags.len(),
{
    if tags.len() == 0 {
        seq![]
    } else {
        let rest = planned(m, tags.drop_last());
        match tag_action(m, tags.last()) {
            Some(a) => rest.push(a),
            None => rest,
        }
    }
}

/// The indices of the tags that the lowercased message `m` matches.
pub open spec fn matched(m: Seq<char>, tags: Seq<TagView>) -> Set<int> {
    Set::new(|i: int| 0 <= i < tags.len() && tag_matches(m, tags[i]))
}

fn command_chars(p: &Vec<char>) -> (r: Vec<char>)
    ensures
        r@ == command_form(p@),
{
    let mut r: Vec<char> = Vec::new();
    if p.len() > 0 && p[0] == '#' {
        r.push('!');
        let mut i: usize = 1;
        while i < p.len()
            invariant
                1 <= i <= p.len(),
                r@ == seq!['!'] + p@.subrange(1, i as int),
            decreases p.len() - i,
        {
            r.push(p[i]);
            assert(p@.subrange(1, i + 1) == p@.subrange(1, i as int).push(p@[i as int]));
            i = i + 1;
        }
        assert(p@.subrange(1, p.len() as int) == p@.skip(1));
    } else {
        let mut i: usize = 0;
        while i < p.len()
            invariant
                i <= p.len(),
                r@ == p@.take(i as int),
            decreases p.len() - i,
        {
            r.push(p[i]);
            assert(p@.take(i + 1) == p@.take(i as int).push(p@[i as int]));
            i = i + 1;
        }
        assert(p@.take(p.len() as int) == p@);
    }
    r
}

/// Whether a text opens with the character `c`.
fn opens_with(s: &str, c: char) -> (r: bool)
    ensures
        r == (s@.len() > 0 && s@[0] == c),
{
    let chars = chars_of(s);
    chars.len() > 0 && chars[0] == c
}

/// The name that a message of the shape `!<word> @<name>` mentions.
pub fn mention(m: &str) -> (r: Option<String>)
    ensures
        r is None ==> mention_of(m@) is None,
        r matches Some(b) ==> mention_of(m@) == Some(b@),
{
    let w = split_words(m);
    proof {
        if w.len() == 2 {
            assert(texts_view(w@)[0] == w@[0]@);
            assert(texts_view(w@)[1] == w@[1]@);
        }
    }
    if w.len() == 2 && opens_with(w[0].as_str(), '!') && opens_with(w[1].as_str(), '@') {
        Some(w[1].clone())
    } else {
        None
    }
}

fn ends_with_chars(s: &Vec<char>, p: &Vec<char>) -> (r: bool)
    ensures
        r == ends_with(s@, p@),
{
    if p.len() > s.len() {
        false
    } else {
        occurs(s, p, s.len() - p.len())
    }
}

/// What the bot does for `t` on the lowercased message `m`, given the name that `m`
/// mentions.
fn action_for(m: &Vec<char>, user: &Option<String>, t: &Tag) -> (r: Option<Action>)
    requires
        user is None ==> mention_of(m@) is None,
        user matches Some(b) ==> mention_of(m@) == Some(b@),
    ensures
        r is None ==> tag_action(m@, t@) is None,
        r matches Some(a) ==> tag_action(m@, t@) == Some(a@),
{
    let phrase = chars_of(t.tag.as_str());
    if phrase.len() == 0 {
        return None;
    }
    let lower = lowercase(t.tag.as_str());
    let lowered = chars_of(lower.as_str());
    let mut spaced = chars_of(lower.as_str());
    spaced.push(' ');
    let command = command_chars(&phrase);
    let matches = contains(m, &spaced) || ends_with_chars(m, &lowered) || (occurs(m, &command, 0)
        && !t.description.as_str().is_empty());
    if !matches {
        return None;
    }
    if same(m, &command) {
        return Some(Action::Reply(t.description.clone()));
    }
    match user {
        Some(user) => {
            let mut said = user.clone();
            push_char(&mut said, ' ');
            said.append(t.description.as_str());
            assert(said@ == user@ + seq![' '] + t.description@);
            Some(Action::Say(said))
        },
        None => {
            let forum = is_forum_string(t.channel_type.as_str());
            Some(Action::Dispatch { webhook: t.webhook.clone(), forum })
        },
    }
}

/// The actions for a message that was already lowercased, tag by tag in list order.
pub fn plan_lowered(text_lower: &str, tags: &Vec<Tag>) -> (r: Vec<Action>)
    ensures
        actions_view(r@) == planned(text_lower@, tags_view(tags@)),
{
    let m = chars_of(text_lower);
    let user = mention(text_lower);
    let mut r: Vec<Action> = Vec::new();
    for i in 0..tags.len()
        invariant
            m@ == text_lower@,
            user is None ==> mention_of(m@) is None,
            user matches Some(b) ==> mention_of(m@) == Some(b@),
            actions_view(r@) == planned(m@, tags_view(tags@).take(i as int)),
    {
        let ghost before = r@;
        let a = action_for(&m, &user, &tags[i]);
        proof {
            let prefix = tags_view(tags@).take(i + 1);
            assert(prefix.drop_last() == tags_view(tags@).take(i as int));
            assert(prefix.last() == tags@[i as int]@);
        }
        match a {
            Some(a) => {
                r.push(a);
                assert(actions_view(r@) == actions_view(before).push(r@.last()@));
            },
            None => {},
        }
    }
    assert(tags_view(tags@).take(tags.len() as int) == tags_view(tags@));
    r
}

/// The actions for a message: it is lowercased, then matched against the tags in order.
pub fn plan(message_text: &str, tags: &Vec<Tag>) -> (r: Vec<Action>)
    ensures
        actions_view(r@) == planned(lower_of(message_text@), tags_view(tags@)),
{
    let lower = lowercase(message_text);
    plan_lowered(lower.as_str(), tags)
}

/// Every delivery succeeded; so too where there was none.
pub open spec fn all_delivered(outcomes: Seq<bool>) -> bool {
    forall|i: int| 0 <= i < outcomes.len() ==> #[trigger] outcomes[i]
}

/// The message that reports on the deliveries of one chat message from `sender`: none where
/// nothing was delivered or the applicable template is empty; else the success or the
/// failure template, in the message's thread or after an `@mention` of the sender.
pub open spec fn feedback_of(c: ConfigView, sender: Seq<char>, outcomes: Seq<bool>) -> Option<
    ActionView,
> {
    if outcomes.len() == 0 {
        None
    } else {
        let template = if all_delivered(outcomes) {
            c.response_message_success
        } else {
            c.response_message_failure
        };
        if template.len() == 0 {
            None
        } else if c.use_reply {
            Some(ActionView::Reply(template))
        } else {
            Some(ActionView::Say(seq!['@'] + sender + seq![':', ' '] + template))
        }
    }
}

/// The message that reports on the deliveries of one chat message, given the outcome of
/// each delivery in turn.
pub fn feedback(bc: &BotConfig, sender: &str, outcomes: &Vec<bool>) -> (r: Option<Action>)
    ensures
        r is None <==> feedback_of(bc@, sender@, outcomes@) is None,
        r matches Some(a) ==> feedback_of(bc@, sender@, outcomes@) == Some(a@),
{
    if outcomes.len() == 0 {
        return None;
    }
    let mut success = true;
    for i in 0..outcomes.len()
        invariant
            success == all_delivered(outcomes@.take(i as int)),
    {
        assert(outcomes@.take(i + 1)[i as int] == outcomes@[i as int]);
        assert(all_delivered(outcomes@.take(i as int)) ==> (all_delivered(outcomes@.take(i + 1))
            == outcomes@[i as int]));
        success = success && outcomes[i];
    }
    assert(outcomes@.take(outcomes.len() as int) == outcomes@);
    let template = if success {
        &bc.response_message_success
    } else {
        &bc.response_message_failure
    };
    if template.as_str().is_empty() {
        return None;
    }
    if bc.use_reply {
        Some(Action::Reply(template.clone()))
    } else {
        let mut said = String::new();
        push_char(&mut said, '@');
        said.append(sender);
        push_char(&mut said, ':');
        push_char(&mut said, ' ');
        said.append(template.as_str());
        assert(said@ =~= seq!['@'] + sender@ + seq![':', ' '] + template@);
        Some(Action::Say(said))
    }
}

/// Which tags a message matches depends on the message only through its lowercase form,
/// and on each tag only through its phrase, its target kind and its canned reply: two
/// messages with one lowercase form, against two lists that agree in those fields, match
/// the same positions.
pub proof fn lemma_matching_depends_on_lowercase(
    t1: Seq<char>,
    t2: Seq<char>,
    l1: Seq<TagView>,
    l2: Seq<TagView>,
)
    requires
        lower_of(t1) == lower_of(t2),
        l1.len() == l2.len(),
        forall|i: int|
            0 <= i < l1.len() ==> (#[trigger] l1[i]).tag == l2[i].tag && l1[i].description
                == l2[i].description && l1[i].channel_type == l2[i].channel_type,
    ensures
        matched(lower_of(t1), l1) == matched(lower_of(t2), l2),
{
    assert forall|i: int| 0 <= i < l1.len() implies tag_matches(lower_of(t1), l1[i])
        == tag_matches(lower_of(t2), #[trigger] l2[i]) by {
        assert(l1[i].tag == l2[i].tag && l1[i].description == l2[i].description);
    }
    assert(matched(lower_of(t1), l1) =~= matched(lower_of(t2), l2));
}

/// A message that is exactly the command form of a tag's phrase is never delivered to that
/// tag's endpoint: where the tag has a canned reply, the reply answers the message in its
/// thread, and where it has none, the tag is passed over or answers with its empty reply.
pub proof fn lemma_command_form_only_replies(m: Seq<char>, t: TagView)
    requires
        m == command_form(t.tag),
    ensures
        tag_action(m, t) is None || tag_action(m, t) == Some(ActionView::Reply(t.description)),
        t.tag.len() > 0 && t.description.len() > 0 ==> tag_action(m, t) == Some(
            ActionView::Reply(t.description),
        ),
{
    if t.tag.len() > 0 && t.description.len() > 0 {
        assert(m.subrange(0, command_form(t.tag).len() as int) =~= command_form(t.tag));
        assert(starts_with(m, command_form(t.tag)));
    }
}

} // verus!
