//! What is delivered to an endpoint: the payload, and the thread name that a forum
//! endpoint wants with it.
use vstd::prelude::*;

use crate::config::BotConfig;
use crate::text::{
    chars_of, contains, find, find_text, first_at, has_text, is_white, is_white_char, occurs_at, replace,
    replaced, string_of,
};

verus! {

/// The longest thread name, in characters, before the ellipsis.
pub const TITLE_MAX: usize = 80;

/// A payload for an endpoint.
#[derive(Debug, Clone, PartialEq, Eq)]
pub struct Msg {
    pub username: String,
    pub avatar_url: Option<String>,
    pub content: String,
    pub thread_name: Option<String>,
}

/// The payload that `username` sends with `content`, under an optional thread name.
pub fn msg(username: String, content: String, thread_name: Option<String>) -> (r: Msg)
    ensures
        r.username@ == username@,
        r.avatar_url is None,
        r.content@ == content@,
        r.thread_name matches Some(t) ==> thread_name matches Some(u) && t@ == u@,
        r.thread_name is None <==> thread_name is None,
{
    Msg { username, avatar_url: None, content, thread_name }
}

pub open spec fn ellipsis() -> Seq<char> {
    seq!['.', '.', '.']
}

/// The index of the last space in `s`, or -1.
pub open spec fn last_space(s: Seq<char>) -> int
    decreases s.len(),
{
    if s.len() == 0 {
        -1
    } else if s.last() == ' ' {
        s.len() - 1
    } else {
        last_space(s.drop_last())
    }
}

/// A title cut to at most `TITLE_MAX` characters: a longer one is cut at the last space
/// among its first `TITLE_MAX` characters, or after them where there is none, and gets an
/// ellipsis.
pub open spec fn stripped(t: Seq<char>) -> Seq<char> {
    if t.len() <= TITLE_MAX {
        t
    } else {
        let head = t.take(TITLE_MAX as int);
        let cut = last_space(head);
        if cut >= 0 {
            head.take(cut) + ellipsis()
        } else {
            head + ellipsis()
        }
    }
}

proof fn lemma_last_space_bounds(s: Seq<char>)
    ensures
        -1 <= last_space(s) < s.len(),
        last_space(s) >= 0 ==> s[last_space(s)] == ' ',
    decreases s.len(),
{
    if s.len() > 0 && s.last() != ' ' {
        lemma_last_space_bounds(s.drop_last());
    }
}

fn push_ellipsis(v: &mut Vec<char>)
    ensures
        final(v)@ == old(v)@ + ellipsis(),
{
    v.push('.');
    v.push('.');
    v.push('.');
    assert(final(v)@ =~= old(v)@ + ellipsis());
}

/// A title cut to at most `TITLE_MAX` characters, with an ellipsis where it was cut.
pub fn strip_title(title: &str) -> (r: String)
    ensures
        r@ == stripped(title@),
{
    let t = chars_of(title);
    if t.len() <= TITLE_MAX {
        return string_of(&t);
    }
    let ghost head = t@.take(TITLE_MAX as int);
    let mut cut: Option<usize> = None;
    let mut i: usize = 0;
    while i < TITLE_MAX
        invariant
            i <= TITLE_MAX < t.len(),
            head == t@.take(TITLE_MAX as int),
            cut matches Some(c) ==> last_space(head.take(i as int)) == c,
            cut is None ==> last_space(head.take(i as int)) == -1,
        decreases TITLE_MAX - i,
    {
        assert(head.take(i + 1).drop_last() == head.take(i as int));
        if t[i] == ' ' {
            cut = Some(i);
        }
        i = i + 1;
    }
    assert(head.take(TITLE_MAX as int) == head);
    let end = match cut {
        Some(c) => c,
        None => TITLE_MAX,
    };
    proof {
        lemma_last_space_bounds(head);
    }
    let mut out: Vec<char> = Vec::new();
    let mut k: usize = 0;
    while k < end
        invariant
            end <= TITLE_MAX < t.len(),
            k <= end,
            out@ == t@.take(k as int),
        decreases end - k,
    {
        out.push(t[k]);
        assert(t@.take(k + 1) == t@.take(k as int).push(t@[k as int]));
        k = k + 1;
    }
    assert(head.take(end as int) == t@.take(end as int));
    push_ellipsis(&mut out);
    string_of(&out)
}

/// `i` is the index of the first white space character in `s`.
pub open spec fn first_white(s: Seq<char>, i: int) -> bool {
    0 <= i < s.len() && is_white(s[i]) && forall|j: int| 0 <= j < i ==> !is_white(#[trigger] s[j])
}

/// `s` up to its first white space character; all of it where it holds none.
pub open spec fn up_to_white(s: Seq<char>) -> Seq<char> {
    if exists|i: int| #[trigger] first_white(s, i) {
        s.take(choose|i: int| #[trigger] first_white(s, i))
    } else {
        s
    }
}

/// The first `http` address in `t`: from the first occurrence of `http` up to the next white
/// space.
pub open spec fn url_in(t: Seq<char>) -> Option<Seq<char>> {
    match find_text(t, seq!['h', 't', 't', 'p']) {
        Some(p) => Some(up_to_white(t.skip(p))),
        None => None,
    }
}

fn copy_range(t: &Vec<char>, from: usize, to: usize) -> (r: Vec<char>)
    requires
        from <= to <= t.len(),
    ensures
        r@ == t@.subrange(from as int, to as int),
{
    let mut r: Vec<char> = Vec::new();
    let mut k: usize = from;
    while k < to
        invariant
            from <= k <= to <= t.len(),
            r@ == t@.subrange(from as int, k as int),
        decreases to - k,
    {
        r.push(t[k]);
        assert(t@.subrange(from as int, k + 1) == t@.subrange(from as int, k as int).push(t@[k as int]));
        k = k + 1;
    }
    r
}

/// `s` up to its first white space character.
fn cut_at_white(s: &Vec<char>) -> (r: Vec<char>)
    ensures
        r@ == up_to_white(s@),
{
    let mut k: usize = 0;
    while k < s.len() && !is_white_char(s[k])
        invariant
            k <= s.len(),
            forall|j: int| 0 <= j < k ==> !is_white(#[trigger] s@[j]),
        decreases s.len() - k,
    {
        k = k + 1;
    }
    if k < s.len() {
        assert(first_white(s@, k as int));
        assert forall|i: int| #[trigger] first_white(s@, i) implies i == k by {
            if i < k {
            } else if i > k {
                assert(!is_white(s@[k as int]));
            }
        }
        copy_range(s, 0, k)
    } else {
        assert forall|i: int| !#[trigger] first_white(s@, i) by {}
        let r = copy_range(s, 0, s.len());
        assert(r@ =~= s@);
        r
    }
}

/// The first `http` address in a text, up to the next white space.
pub fn find_url(text: &str) -> (r: Option<String>)
    ensures
        r is None <==> url_in(text@) is None,
        r matches Some(u) ==> url_in(text@) == Some(u@),
{
    let t = chars_of(text);
    let http: Vec<char> = vec!['h', 't', 't', 'p'];
    assert(http@ =~= seq!['h', 't', 't', 'p']);
    match find(&t, &http) {
        None => None,
        Some(p) => {
            assert(first_at(t@, http@, p as int));
            assert(occurs_at(t@, http@, p as int));
            let rest = copy_range(&t, p, t.len());
            assert(rest@ == t@.skip(p as int));
            Some(string_of(&cut_at_white(&rest)))
        },
    }
}

pub open spec fn youtube() -> Seq<char> {
    seq!['y', 'o', 'u', 't', 'u', 'b', 'e']
}

pub open spec fn youtu_be() -> Seq<char> {
    seq!['y', 'o', 'u', 't', 'u', '.', 'b', 'e']
}

/// The video page whose title names the thread of a message: its first address, where that
/// points to a known video host, with an embedding address turned into a watch address.
pub open spec fn video_of(t: Seq<char>) -> Option<Seq<char>> {
    match url_in(t) {
        Some(u) => if has_text(u, youtube()) || has_text(u, youtu_be()) {
            Some(replaced(u, seq!['e', 'm', 'b', 'e', 'd'], seq!['v']))
        } else {
            None
        },
        None => None,
    }
}

/// The address whose page title names the thread of a message, if it points to a known
/// video host.
pub fn video_url(text: &str) -> (r: Option<String>)
    ensures
        r is None <==> video_of(text@) is None,
        r matches Some(u) ==> video_of(text@) == Some(u@),
{
    match find_url(text) {
        None => None,
        Some(url) => {
            let u = chars_of(url.as_str());
            let long: Vec<char> = vec!['y', 'o', 'u', 't', 'u', 'b', 'e'];
            let short: Vec<char> = vec!['y', 'o', 'u', 't', 'u', '.', 'b', 'e'];
            assert(long@ =~= youtube());
            assert(short@ =~= youtu_be());
            if contains(&u, &long) || contains(&u, &short) {
                let embed: Vec<char> = vec!['e', 'm', 'b', 'e', 'd'];
                let watch: Vec<char> = vec!['v'];
                let from = string_of(&embed);
                let to = string_of(&watch);
                assert(embed@ =~= seq!['e', 'm', 'b', 'e', 'd']);
                assert(watch@ =~= seq!['v']);
                Some(replace(url.as_str(), from.as_str(), to.as_str()))
            } else {
                None
            }
        },
    }
}

/// The tag that marks a title looked up on the video host.
pub open spec fn video_tag() -> Seq<char> {
    seq!['[', 'Y', 'o', 'u', 't', 'u', 'b', 'e', ']', ' ']
}

/// The thread name of a message: the title looked up for its video, tagged with its source,
/// or else the message itself; cut to length either way.
pub open spec fn thread_name_of(text: Seq<char>, title: Option<Seq<char>>) -> Seq<char> {
    match title {
        Some(t) => stripped(video_tag() + t),
        None => stripped(text),
    }
}

/// The thread name of a message, given the title that was looked up for its video, if any.
pub fn thread_name(text: &str, title: Option<String>) -> (r: String)
    ensures
        r@ == thread_name_of(text@, match title { Some(t) => Some(t@), None => None }),
{
    match title {
        Some(t) => {
            let tag: Vec<char> = vec!['[', 'Y', 'o', 'u', 't', 'u', 'b', 'e', ']', ' '];
            assert(tag@ =~= video_tag());
            let mut named = string_of(&tag);
            named.append(t.as_str());
            strip_title(named.as_str())
        },
        None => strip_title(text),
    }
}

/// The name under which the bot reports to the log endpoint.
pub open spec fn bot_name() -> Seq<char> {
    seq!['A', 's', 'k', 'b', 'o', 't']
}

/// The endpoint and payload that report `text` to the log endpoint, if one is set.
pub fn audit(bc: &BotConfig, text: &str) -> (r: Option<(String, Msg)>)
    ensures
        r is None <==> bc.log_webhook@.len() == 0,
        r matches Some(d) ==> {
            &&& d.0@ == bc.log_webhook@
            &&& d.1.username@ == bot_name()
            &&& d.1.avatar_url is None
            &&& d.1.content@ == text@
            &&& d.1.thread_name is None
        },
{
    if bc.log_webhook.as_str().is_empty() {
        return None;
    }
    let name: Vec<char> = vec!['A', 's', 'k', 'b', 'o', 't'];
    assert(name@ =~= bot_name());
    let mut content = String::new();
    content.append(text);
    assert(content@ =~= text@);
    Some((bc.log_webhook.clone(), msg(string_of(&name), content, None)))
}

} // verus!
