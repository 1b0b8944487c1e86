//! The rules of the interactive setup: which answers it takes, and how it reads a list.
use vstd::prelude::*;

use crate::config::{channel_kind, texts_view, Tag, TagView};
use crate::text::{chars_of, ends_with, is_white, is_white_char, occurs, starts_with, string_of};

verus! {

/// A configuration file is written as JSON or as YAML, told apart by its name.
pub fn config_file_name_ok(name: &str) -> (r: bool)
    ensures
        r == (ends_with(name@, ".yaml"@) || ends_with(name@, ".json"@)),
{
    let n = chars_of(name);
    let yaml = chars_of(".yaml");
    let json = chars_of(".json");
    (yaml.len() <= n.len() && occurs(&n, &yaml, n.len() - yaml.len())) || (json.len() <= n.len()
        && occurs(&n, &json, n.len() - json.len()))
}

/// An endpoint entered in the setup is empty or a Discord webhook.
pub fn webhook_ok(webhook: &str) -> (r: bool)
    ensures
        r == (webhook@.len() == 0 || starts_with(webhook@, "https://discord.com/api/webhooks/"@)),
{
    let w = chars_of(webhook);
    let prefix = chars_of("https://discord.com/api/webhooks/");
    w.len() == 0 || occurs(&w, &prefix, 0)
}

/// The tag entered in the setup, if an endpoint was entered for it.
pub fn entered_tag(tag: String, webhook: String) -> (r: Option<Tag>)
    ensures
        r is None <==> webhook@.len() == 0,
        r matches Some(t) ==> t@ == (TagView {
            tag: tag@,
            webhook: webhook@,
            description: seq![],
            channel_type: channel_kind(),
        }),
{
    if webhook.as_str().is_empty() {
        None
    } else {
        Some(Tag::plain(tag, webhook))
    }
}

/// `s` without white space at its start.
pub open spec fn trim_start(s: Seq<char>) -> Seq<char>
    decreases s.len(),
{
    if s.len() > 0 && is_white(s[0]) {
        trim_start(s.drop_first())
    } else {
        s
    }
}

/// `s` without white space at its end.
pub open spec fn trim_end(s: Seq<char>) -> Seq<char>
    decreases s.len(),
{
    if s.len() > 0 && is_white(s.last()) {
        trim_end(s.drop_last())
    } else {
        s
    }
}

/// `s` without white space at either end.
pub open spec fn trimmed(s: Seq<char>) -> Seq<char> {
    trim_end(trim_start(s))
}

/// Reading `s` from the left: the pieces before each comma so far, and the piece being read.
pub open spec fn comma_scan(s: Seq<char>) -> (Seq<Seq<char>>, Seq<char>)
    decreases s.len(),
{
    if s.len() == 0 {
        (seq![], seq![])
    } else {
        let (done, cur) = comma_scan(s.drop_last());
        if s.last() == ',' {
            (done.push(cur), seq![])
        } else {
            (done, cur.push(s.last()))
        }
    }
}

/// The pieces of `s` between commas, each without white space at its ends.
pub open spec fn list_items(s: Seq<char>) -> Seq<Seq<char>> {
    let (done, cur) = comma_scan(s);
    done.push(cur).map_values(|p: Seq<char>| trimmed(p))
}

fn trim_chars(s: &Vec<char>) -> (r: Vec<char>)
    ensures
        r@ == trimmed(s@),
{
    let mut a: usize = 0;
    assert(s@.skip(0) == s@);
    while a < s.len() && is_white_char(s[a])
        invariant
            a <= s.len(),
            trim_start(s@) == trim_start(s@.skip(a as int)),
        decreases s.len() - a,
    {
        assert(s@.skip(a as int).drop_first() == s@.skip(a + 1));
        a = a + 1;
    }
    assert(trim_start(s@) == s@.skip(a as int));
    let mut b: usize = s.len();
    while b > a && is_white_char(s[b - 1])
        invariant
            a <= b <= s.len(),
            trimmed(s@) == trim_end(s@.subrange(a as int, b as int)),
        decreases b,
    {
        assert(s@.subrange(a as int, b as int).drop_last() == s@.subrange(a as int, b - 1));
        b = b - 1;
    }
    assert(trim_end(s@.subrange(a as int, b as int)) == s@.subrange(a as int, b as int));
    let mut r: Vec<char> = Vec::new();
    let mut k: usize = a;
    while k < b
        invariant
            a <= k <= b <= s.len(),
            r@ == s@.subrange(a as int, k as int),
        decreases b - k,
    {
        r.push(s[k]);
        assert(s@.subrange(a as int, k + 1) == s@.subrange(a as int, k as int).push(s@[k as int]));
        k = k + 1;
    }
    r
}

/// The items of a comma-separated list, each without white space at its ends.
pub fn split_list(list: &str) -> (r: Vec<String>)
    ensures
        texts_view(r@) == list_items(list@),
{
    let s = chars_of(list);
    let mut done: Vec<Vec<char>> = Vec::new();
    let mut cur: Vec<char> = Vec::new();
    for i in 0..s.len()
        invariant
            s@ == list@,
            (done@.map_values(|v: Vec<char>| v@), cur@) == comma_scan(s@.take(i as int)),
    {
        assert(s@.take(i + 1).drop_last() == s@.take(i as int));
        assert(s@.take(i + 1).last() == s@[i as int]);
        if s[i] == ',' {
            let ghost piece = cur@;
            let ghost before = done@;
            done.push(cur);
            assert(done@.map_values(|v: Vec<char>| v@) == before.map_values(|v: Vec<char>| v@).push(piece));
            cur = Vec::new();
        } else {
            cur.push(s[i]);
        }
    }
    assert(s@.take(s.len() as int) == s@);
    let ghost before = done@;
    let ghost piece = cur@;
    done.push(cur);
    let ghost pieces = done@.map_values(|v: Vec<char>| v@);
    assert(pieces == before.map_values(|v: Vec<char>| v@).push(piece));
    let mut r: Vec<String> = Vec::new();
    for j in 0..done.len()
        invariant
            pieces == done@.map_values(|v: Vec<char>| v@),
            texts_view(r@) == pieces.take(j as int).map_values(|p: Seq<char>| trimmed(p)),
    {
        let item = string_of(&trim_chars(&done[j]));
        let ghost rv = r@;
        r.push(item);
        assert(texts_view(r@) == texts_view(rv).push(item@));
        assert(pieces.take(j + 1) == pieces.take(j as int).push(pieces[j as int]));
        assert(pieces.take(j + 1).map_values(|p: Seq<char>| trimmed(p)) =~= pieces.take(j as int).map_values(
            |p: Seq<char>| trimmed(p),
        ).push(trimmed(pieces[j as int])));
    }
    assert(pieces.take(done.len() as int) == pieces);
    r
}

} // verus!
