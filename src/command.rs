//! Private commands: parsing, and their effect on the configuration.
use vstd::prelude::*;

use crate::config::{channel_kind, tags_view, texts_view, BotConfig, ConfigView, Tag, TagView};
use crate::gate::{ignored, sender_is_ignored};
use crate::text::{has_text, occurs_at, push_char, same_text, split_words, words};

verus! {

/// A private command, as a value.
pub enum CommandView {
    Add(Seq<char>, Seq<char>),
    Remove(Seq<char>),
    List,
    Nothing,
}

/// A private command.
#[derive(Debug, Clone, PartialEq, Eq)]
pub enum Whisper {
    /// Add a tag with this phrase and this endpoint.
    Add(String, String),
    /// Remove the first tag with this phrase.
    Remove(String),
    /// List the phrases of the tags.
    List,
    /// Not a command.
    Nothing,
}

impl View for Whisper {
    type V = CommandView;

    open spec fn view(&self) -> CommandView {
        match self {
            Whisper::Add(t, w) => CommandView::Add(t@, w@),
            Whisper::Remove(t) => CommandView::Remove(t@),
            Whisper::List => CommandView::List,
            Whisper::Nothing => CommandView::Nothing,
        }
    }
}

/// The command that a private message spells: `#list`, `#add <phrase> <endpoint>` or
/// `#remove <phrase>`, as whole words and nothing more.
pub open spec fn command_of(text: Seq<char>) -> CommandView {
    let w = words(text);
    if w.len() == 1 && w[0] == "#list"@ {
        CommandView::List
    } else if w.len() == 3 && w[0] == "#add"@ {
        CommandView::Add(w[1], w[2])
    } else if w.len() == 2 && w[0] == "#remove"@ {
        CommandView::Remove(w[1])
    } else {
        CommandView::Nothing
    }
}

/// The command that a private message spells.
pub fn parse_command(message_text: &str) -> (r: Whisper)
    ensures
        r@ == command_of(message_text@),
{
    let w = split_words(message_text);
    proof {
        if w.len() > 0 {
            assert(texts_view(w@)[0] == w@[0]@);
        }
        if w.len() > 2 {
            assert(texts_view(w@)[1] == w@[1]@);
            assert(texts_view(w@)[2] == w@[2]@);
        } else if w.len() > 1 {
            assert(texts_view(w@)[1] == w@[1]@);
        }
    }
    if w.len() == 1 && same_text(w[0].as_str(), "#list") {
        Whisper::List
    } else if w.len() == 3 && same_text(w[0].as_str(), "#add") {
        Whisper::Add(w[1].clone(), w[2].clone())
    } else if w.len() == 2 && same_text(w[0].as_str(), "#remove") {
        Whisper::Remove(w[1].clone())
    } else {
        Whisper::Nothing
    }
}

/// `login` may send commands: it is one of the mods, or the channel's owner.
pub open spec fn may_command(c: ConfigView, login: Seq<char>) -> bool {
    c.mods.contains(login) || login == c.channel
}

fn is_listed(list: &Vec<String>, login: &str) -> (r: bool)
    ensures
        r == texts_view(list@).contains(login@),
{
    let mut i: usize = 0;
    while i < list.len()
        invariant
            i <= list.len(),
            forall|j: int| 0 <= j < i ==> #[trigger] texts_view(list@)[j] != login@,
        decreases list.len() - i,
    {
        assert(texts_view(list@)[i as int] == list@[i as int]@);
        if same_text(list[i].as_str(), login) {
            return true;
        }
        i = i + 1;
    }
    false
}

fn may_command_exec(bc: &BotConfig, login: &str) -> (r: bool)
    ensures
        r == may_command(bc@, login@),
{
    is_listed(&bc.mods, login) || same_text(login, bc.channel.as_str())
}

/// The command in a private message from `login`; where `login` may not send commands,
/// none.
pub fn parse_whisper(bc: &BotConfig, login: &str, message_text: &str) -> (r: Whisper)
    ensures
        r@ == (if may_command(bc@, login@) {
            command_of(message_text@)
        } else {
            CommandView::Nothing
        }),
{
    if may_command_exec(bc, login) {
        parse_command(message_text)
    } else {
        Whisper::Nothing
    }
}

/// The phrases of the tags, in order.
pub open spec fn phrases(tags: Seq<TagView>) -> Seq<Seq<char>> {
    tags.map_values(|t: TagView| t.tag)
}

/// The texts of `ps` joined by `", "`.
pub open spec fn joined(ps: Seq<Seq<char>>) -> Seq<char>
    decreases ps.len(),
{
    if ps.len() == 0 {
        seq![]
    } else if ps.len() == 1 {
        ps[0]
    } else {
        joined(ps.drop_last()) + seq![',', ' '] + ps.last()
    }
}

/// The phrases of the tags, joined by `", "`.
pub fn join_tags(ts: &Vec<Tag>) -> (r: String)
    ensures
        r@ == joined(phrases(tags_view(ts@))),
{
    let mut r = String::new();
    for i in 0..ts.len()
        invariant
            r@ == joined(phrases(tags_view(ts@)).take(i as int)),
    {
        let ghost ps = phrases(tags_view(ts@));
        assert(ps.take(i + 1).drop_last() == ps.take(i as int));
        assert(ps.take(i + 1).last() == ts@[i as int].tag@);
        if i > 0 {
            push_char(&mut r, ',');
            push_char(&mut r, ' ');
        }
        r.append(ts[i].tag.as_str());
        proof {
            if i == 0 {
                assert(r@ =~= ps.take(1)[0]);
            }
        }
    }
    assert(phrases(tags_view(ts@)).take(ts.len() as int) == phrases(tags_view(ts@)));
    r
}

/// `i` is the index of the first tag with phrase `p`.
pub open spec fn first_with_phrase(tags: Seq<TagView>, p: Seq<char>, i: int) -> bool {
    0 <= i < tags.len() && tags[i].tag == p && forall|j: int| 0 <= j < i ==> #[trigger] tags[j].tag != p
}

/// The tags without the first one with phrase `p`; all of them where none has it.
pub open spec fn without_first(tags: Seq<TagView>, p: Seq<char>) -> Seq<TagView> {
    if exists|i: int| #[trigger] first_with_phrase(tags, p, i) {
        tags.remove(choose|i: int| #[trigger] first_with_phrase(tags, p, i))
    } else {
        tags
    }
}

/// The reply to a command, as a value: its text, and whether the configuration changed, so
/// that it is saved and the change reported.
pub struct ReplyView {
    pub text: Seq<char>,
    pub changed: bool,
}

/// One private message from `login`: the configuration afterwards, and the reply, if any.
pub open spec fn whisper_step(c: ConfigView, login: Seq<char>, text: Seq<char>) -> (ConfigView, Option<ReplyView>) {
    if ignored(c, login) {
        (c, None)
    } else if c.mods.len() > 0 && may_command(c, login) {
        match command_of(text) {
            CommandView::Add(p, w) => (
                ConfigView {
                    tags: c.tags.push(
                        TagView { tag: p, webhook: w, description: seq![], channel_type: channel_kind() },
                    ),
                    ..c
                },
                Some(ReplyView { text: "Tag added: "@ + p, changed: true }),
            ),
            CommandView::Remove(p) => (
                ConfigView { tags: without_first(c.tags, p), ..c },
                Some(ReplyView { text: "Tag removed: "@ + p, changed: true }),
            ),
            CommandView::List => (
                c,
                Some(ReplyView { text: "Tags: "@ + joined(phrases(c.tags)), changed: false }),
            ),
            CommandView::Nothing => (c, None),
        }
    } else if c.whisper_response.len() > 0 {
        (c, Some(ReplyView { text: c.whisper_response, changed: false }))
    } else {
        (c, None)
    }
}

/// The reply to a private message.
#[derive(Debug, Clone, PartialEq, Eq)]
pub struct WhisperReply {
    /// The channel through which the reply is sent.
    pub channel: String,
    /// Who the reply goes to.
    pub login: String,
    pub text: String,
    /// The configuration changed: it is to be saved, and the reply reported to the log
    /// endpoint.
    pub changed: bool,
}

fn position_of(tags: &Vec<Tag>, p: &str) -> (r: Option<usize>)
    ensures
        r is None ==> !exists|i: int| #[trigger] first_with_phrase(tags_view(tags@), p@, i),
        r matches Some(i) ==> first_with_phrase(tags_view(tags@), p@, i as int),
{
    let ghost tv = tags_view(tags@);
    let mut i: usize = 0;
    while i < tags.len()
        invariant
            i <= tags.len(),
            tv == tags_view(tags@),
            forall|j: int| 0 <= j < i ==> #[trigger] tv[j].tag != p@,
        decreases tags.len() - i,
    {
        assert(tv[i as int] == tags@[i as int]@);
        if same_text(tags[i].tag.as_str(), p) {
            return Some(i);
        }
        i = i + 1;
    }
    assert forall|k: int| !#[trigger] first_with_phrase(tv, p@, k) by {
        if 0 <= k < tv.len() {
            assert(tv[k].tag != p@);
        }
    }
    None
}

/// Takes one private message from `login`: where `login` is a mod or the channel's owner
/// (and the mods are set), carries out the command it spells and returns the reply; where
/// `login` may not send commands, answers with the configured response, if any. Messages of
/// ignored senders are dropped.
pub fn handle_whisper(bc: &mut BotConfig, login: &str, message_text: &str) -> (r: Option<WhisperReply>)
    ensures
        final(bc)@ == whisper_step(old(bc)@, login@, message_text@).0,
        r is None <==> whisper_step(old(bc)@, login@, message_text@).1 is None,
        r matches Some(reply) ==> {
            &&& whisper_step(old(bc)@, login@, message_text@).1 == Some(
                ReplyView { text: reply.text@, changed: reply.changed },
            )
            &&& reply.channel@ == old(bc).channel@
            &&& reply.login@ == login@
        },
{
    if sender_is_ignored(bc, login) {
        return None;
    }
    let mut to = String::new();
    to.append(login);
    assert(to@ =~= login@);
    if bc.mods.len() > 0 && may_command_exec(bc, login) {
        match parse_whisper(bc, login, message_text) {
            Whisper::Add(tag, webhook) => {
                let mut text = String::from_str("Tag added: ");
                text.append(tag.as_str());
                let ghost before = bc.tags@;
                let new_tag = Tag::plain(tag, webhook);
                bc.tags.push(new_tag);
                assert(tags_view(bc.tags@) == tags_view(before).push(new_tag@));
                Some(WhisperReply { channel: bc.channel.clone(), login: to, text, changed: true })
            },
            Whisper::Remove(tag) => {
                let mut text = String::from_str("Tag removed: ");
                text.append(tag.as_str());
                let ghost before = bc.tags@;
                match position_of(&bc.tags, tag.as_str()) {
                    Some(i) => {
                        bc.tags.remove(i);
                        assert(tags_view(bc.tags@) == tags_view(before).remove(i as int));
                        assert forall|k: int| #[trigger] first_with_phrase(tags_view(before), tag@, k)
                            implies k == i by {
                            if k < i {
                                assert(tags_view(before)[k].tag != tag@);
                            } else if k > i {
                                assert(tags_view(before)[i as int].tag != tag@);
                            }
                        }
                    },
                    None => {},
                }
                Some(WhisperReply { channel: bc.channel.clone(), login: to, text, changed: true })
            },
            Whisper::List => {
                let mut text = String::from_str("Tags: ");
                let joined = join_tags(&bc.tags);
                text.append(joined.as_str());
                Some(WhisperReply { channel: bc.channel.clone(), login: to, text, changed: false })
            },
            Whisper::Nothing => None,
        }
    } else if !bc.whisper_response.as_str().is_empty() {
        Some(
            WhisperReply {
                channel: bc.channel.clone(),
                login: to,
                text: bc.whisper_response.clone(),
                changed: false,
            },
        )
    } else {
        None
    }
}

proof fn lemma_occurs_in_longer(a: Seq<char>, b: Seq<char>, p: Seq<char>, i: int)
    requires
        occurs_at(b, p, i),
    ensures
        occurs_at(a + b, p, a.len() + i),
        occurs_at(b + a, p, i),
{
    assert((a + b).subrange(a.len() + i, a.len() + i + p.len()) =~= b.subrange(i, i + p.len()));
    assert((b + a).subrange(i, i + p.len()) =~= b.subrange(i, i + p.len()));
}

/// Each phrase occurs in the joined phrases.
proof fn lemma_joined_has_each(ps: Seq<Seq<char>>, k: int)
    requires
        0 <= k < ps.len(),
    ensures
        has_text(joined(ps), ps[k]),
    decreases ps.len(),
{
    if ps.len() == 1 {
        assert(ps[k].subrange(0, ps[k].len() as int) =~= ps[k]);
        assert(occurs_at(joined(ps), ps[k], 0));
    } else if k == ps.len() - 1 {
        let front = joined(ps.drop_last()) + seq![',', ' '];
        assert(ps.last().subrange(0, ps.last().len() as int) =~= ps.last());
        assert(occurs_at(ps.last(), ps.last(), 0));
        lemma_occurs_in_longer(front, ps.last(), ps.last(), 0);
        assert(joined(ps) == front + ps.last());
    } else {
        lemma_joined_has_each(ps.drop_last(), k);
        let i = choose|i: int| occurs_at(joined(ps.drop_last()), ps[k], i);
        lemma_occurs_in_longer(seq![',', ' '] + ps.last(), joined(ps.drop_last()), ps[k], i);
        assert(joined(ps) == joined(ps.drop_last()) + (seq![',', ' '] + ps.last()));
    }
}

/// For a user who may send commands and is not ignored: adding a tag whose phrase no tag has
/// yet, the listing that follows names the phrase; removing that phrase then leaves the
/// configuration as it was before the addition, so that the listing no longer holds the
/// phrase among the tags. Both changes reply and ask for the configuration to be saved.
pub proof fn lemma_add_list_remove(
    c: ConfigView,
    login: Seq<char>,
    p: Seq<char>,
    w: Seq<char>,
    add: Seq<char>,
    list: Seq<char>,
    remove: Seq<char>,
)
    requires
        !ignored(c, login),
        c.mods.len() > 0,
        may_command(c, login),
        !phrases(c.tags).contains(p),
        command_of(add) == CommandView::Add(p, w),
        command_of(list) == CommandView::List,
        command_of(remove) == CommandView::Remove(p),
    ensures
        ({
            let (c1, r1) = whisper_step(c, login, add);
            let (c2, r2) = whisper_step(c1, login, list);
            let (c3, r3) = whisper_step(c2, login, remove);
            &&& r1 == Some(ReplyView { text: "Tag added: "@ + p, changed: true })
            &&& r2 matches Some(r) && !r.changed && has_text(r.text, p)
            &&& c2 == c1
            &&& r3 == Some(ReplyView { text: "Tag removed: "@ + p, changed: true })
            &&& c3 == c
            &&& !phrases(c3.tags).contains(p)
        }),
{
    let t = TagView { tag: p, webhook: w, description: seq![], channel_type: channel_kind() };
    let c1 = whisper_step(c, login, add).0;
    assert(c1.tags == c.tags.push(t));
    let n = c.tags.len() as int;
    let ps = phrases(c1.tags);
    assert(ps[n] == p);
    lemma_joined_has_each(ps, n);
    let i = choose|i: int| occurs_at(joined(ps), p, i);
    lemma_occurs_in_longer("Tags: "@, joined(ps), p, i);
    assert forall|j: int| 0 <= j < n implies #[trigger] c1.tags[j].tag != p by {
        assert(c1.tags[j] == c.tags[j]);
        assert(phrases(c.tags)[j] == c.tags[j].tag);
    }
    assert(first_with_phrase(c1.tags, p, n));
    assert forall|k: int| #[trigger] first_with_phrase(c1.tags, p, k) implies k == n by {
        if k < n {
            assert(c1.tags[k].tag != p);
        }
    }
    assert(without_first(c1.tags, p) =~= c.tags);
}

/// For a user who may send commands and is not ignored, removing a phrase that no tag has
/// leaves the tags as they are, and still replies and asks for the configuration to be saved.
pub proof fn lemma_remove_absent(c: ConfigView, login: Seq<char>, p: Seq<char>, text: Seq<char>)
    requires
        !ignored(c, login),
        c.mods.len() > 0,
        may_command(c, login),
        !phrases(c.tags).contains(p),
        command_of(text) == CommandView::Remove(p),
    ensures
        whisper_step(c, login, text) == (c, Some(ReplyView { text: "Tag removed: "@ + p, changed: true })),
{
    assert forall|k: int| !#[trigger] first_with_phrase(c.tags, p, k) by {
        if 0 <= k < c.tags.len() {
            assert(phrases(c.tags)[k] == c.tags[k].tag);
        }
    }
    assert(without_first(c.tags, p) == c.tags);
    assert(ConfigView { tags: without_first(c.tags, p), ..c } == c);
}

} // verus!
