//! The activation gate: the ignore list, and the toggles that switch relaying off and on.
use vstd::prelude::*;

use crate::command::{whisper_step, ReplyView};
use crate::config::{texts_view, BotConfig, ConfigView};
use crate::relay::{actions_view, plan, planned, Action, ActionView};
use crate::text::{lower_of, lowercase, same_text};

verus! {

/// `login` is on the ignore list, compared without regard to case.
pub open spec fn ignored(c: ConfigView, login: Seq<char>) -> bool {
    exists|i: int| 0 <= i < c.ignore.len() && lower_of(#[trigger] c.ignore[i]) == lower_of(login)
}

/// Whether `sender` is on the ignore list, compared without regard to case.
pub fn sender_is_ignored(bc: &BotConfig, sender: &str) -> (r: bool)
    ensures
        r == ignored(bc@, sender@),
{
    let who = lowercase(sender);
    let mut i: usize = 0;
    while i < bc.ignore.len()
        invariant
            i <= bc.ignore.len(),
            who@ == lower_of(sender@),
            forall|j: int| 0 <= j < i ==> lower_of(#[trigger] bc@.ignore[j]) != lower_of(sender@),
        decreases bc.ignore.len() - i,
    {
        let entry = lowercase(bc.ignore[i].as_str());
        if same_text(entry.as_str(), who.as_str()) {
            assert(bc@.ignore[i as int] == bc.ignore@[i as int]@);
            return true;
        }
        assert(bc@.ignore[i as int] == bc.ignore@[i as int]@);
        i = i + 1;
    }
    false
}

/// A badge that lets its holder switch relaying off and on.
pub open spec fn privileged_badge(b: Seq<char>) -> bool {
    b == "moderator"@ || b == "broadcaster"@
}

/// The sender holds the moderator or the broadcaster badge.
pub open spec fn privileged(badges: Seq<Seq<char>>) -> bool {
    exists|i: int| 0 <= i < badges.len() && privileged_badge(#[trigger] badges[i])
}

/// Whether one of the badges, given by name, is the moderator or the broadcaster badge.
pub fn is_mod(badges: &Vec<String>) -> (r: bool)
    ensures
        r == privileged(texts_view(badges@)),
{
    let mut i: usize = 0;
    while i < badges.len()
        invariant
            i <= badges.len(),
            forall|j: int| 0 <= j < i ==> !privileged_badge(#[trigger] texts_view(badges@)[j]),
        decreases badges.len() - i,
    {
        assert(texts_view(badges@)[i as int] == badges@[i as int]@);
        if same_text(badges[i].as_str(), "moderator") || same_text(badges[i].as_str(), "broadcaster") {
            return true;
        }
        i = i + 1;
    }
    false
}

/// What becomes of a public message, as a value.
pub enum PublicView {
    Ignored,
    Toggled(Seq<char>),
    Inactive,
    Relay(Seq<ActionView>),
}

/// What becomes of a public message.
#[derive(Debug, Clone, PartialEq, Eq)]
pub enum Public {
    /// The sender is ignored: nothing happens.
    Ignored,
    /// Relaying was switched off or on; the text is reported to the log endpoint.
    Toggled(String),
    /// Relaying is off: nothing happens.
    Inactive,
    /// Relaying is on: these are the actions for the message, in order.
    Relay(Vec<Action>),
}

impl View for Public {
    type V = PublicView;

    open spec fn view(&self) -> PublicView {
        match self {
            Public::Ignored => PublicView::Ignored,
            Public::Toggled(s) => PublicView::Toggled(s@),
            Public::Inactive => PublicView::Inactive,
            Public::Relay(v) => PublicView::Relay(actions_view(v@)),
        }
    }
}

/// One public message from `sender`, with the given badges, taken while relaying is
/// `active`: whether relaying is on afterwards, and what becomes of the message.
pub open spec fn public_step(
    c: ConfigView,
    active: bool,
    sender: Seq<char>,
    text: Seq<char>,
    badges: Seq<Seq<char>>,
) -> (bool, PublicView) {
    if ignored(c, sender) {
        (active, PublicView::Ignored)
    } else if lower_of(text) == "#deactivate"@ && privileged(badges) {
        (false, PublicView::Toggled("deactivated"@))
    } else if lower_of(text) == "#activate"@ && privileged(badges) {
        (true, PublicView::Toggled("activated"@))
    } else if active {
        (active, PublicView::Relay(planned(lower_of(text), c.tags)))
    } else {
        (active, PublicView::Inactive)
    }
}

/// Takes one public message: drops it where the sender is ignored, switches relaying off or
/// on where a moderator or the broadcaster says so, and else, while relaying is on, plans the
/// actions for it.
pub fn gate_message(
    bc: &BotConfig,
    activated: &mut bool,
    sender: &str,
    message_text: &str,
    badges: &Vec<String>,
) -> (r: Public)
    ensures
        (*final(activated), r@) == public_step(bc@, *old(activated), sender@, message_text@, texts_view(badges@)),
{
    if sender_is_ignored(bc, sender) {
        return Public::Ignored;
    }
    let lower = lowercase(message_text);
    if same_text(lower.as_str(), "#deactivate") && is_mod(badges) {
        *activated = false;
        return Public::Toggled(String::from_str("deactivated"));
    }
    if same_text(lower.as_str(), "#activate") && is_mod(badges) {
        *activated = true;
        return Public::Toggled(String::from_str("activated"));
    }
    if *activated {
        Public::Relay(plan(message_text, &bc.tags))
    } else {
        Public::Inactive
    }
}

/// `sender` is not ignored, holds the moderator or the broadcaster badge, and says `word`,
/// in any case of letters.
pub open spec fn toggles(
    c: ConfigView,
    sender: Seq<char>,
    text: Seq<char>,
    badges: Seq<Seq<char>>,
    word: Seq<char>,
) -> bool {
    !ignored(c, sender) && lower_of(text) == word && privileged(badges)
}

/// A moderator or the broadcaster who is not ignored switches relaying off with
/// `#deactivate`; while it is off, no public message is relayed, and it stays off until such
/// a sender says `#activate`.
pub proof fn lemma_deactivation_holds(
    c: ConfigView,
    active: bool,
    sender: Seq<char>,
    text: Seq<char>,
    badges: Seq<Seq<char>>,
)
    ensures
        toggles(c, sender, text, badges, "#deactivate"@) ==> public_step(c, active, sender, text, badges)
            == (false, PublicView::Toggled("deactivated"@)),
        !active && !toggles(c, sender, text, badges, "#activate"@) ==> ({
            let (after, outcome) = public_step(c, active, sender, text, badges);
            !after && !(outcome is Relay)
        }),
{
}

/// A sender on the ignore list, in any case of letters, changes nothing: its public messages
/// are neither relayed nor read as toggles, and its private messages are neither read as
/// commands nor answered.
pub proof fn lemma_ignored_sender_changes_nothing(
    c: ConfigView,
    active: bool,
    sender: Seq<char>,
    text: Seq<char>,
    badges: Seq<Seq<char>>,
)
    requires
        ignored(c, sender),
    ensures
        public_step(c, active, sender, text, badges) == (active, PublicView::Ignored),
        whisper_step(c, sender, text) == (c, Option::<ReplyView>::None),
{
}

} // verus!
