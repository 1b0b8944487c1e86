//! The web front end's operations on the configuration: one login flag per session, and
//! reading and editing the tags and the two response templates.
use vstd::prelude::*;

use crate::config::{tags_view, BotConfig, ConfigView, Tag, TagView};
use crate::text::same_text;

verus! {

/// The status of an answer.
#[derive(Debug, Clone, Copy, PartialEq, Eq, Structural)]
pub enum Status {
    Success,
    Created,
    Forbidden,
    NotFound,
}

impl Status {
    /// The HTTP status code.
    pub fn code(&self) -> (r: u16)
        ensures
            r == match *self {
                Status::Success => 200u16,
                Status::Created => 201u16,
                Status::Forbidden => 403u16,
                Status::NotFound => 404u16,
            },
    {
        match self {
            Status::Success => 200,
            Status::Created => 201,
            Status::Forbidden => 403,
            Status::NotFound => 404,
        }
    }
}

/// A named response template.
#[derive(Debug, Clone, PartialEq, Eq)]
pub struct Message {
    pub name: String,
    pub value: String,
}

/// The name of the success template.
pub open spec fn success_name() -> Seq<char> {
    "response_message_success"@
}

/// The name of the failure template.
pub open spec fn failure_name() -> Seq<char> {
    "response_message_failure"@
}

/// A request to the web front end, as a value.
pub enum RequestView {
    Login(Seq<char>),
    AddTag(TagView),
    GetTags,
    DeleteTag(usize),
    UpdateTag(usize, TagView),
    GetMessage(Seq<char>),
    SetMessage(Seq<char>, Seq<char>),
    GetMessages,
}

/// A request to the web front end.
#[derive(Debug, Clone, PartialEq, Eq)]
pub enum Request {
    /// Log the session in with this key.
    Login(String),
    /// Append this tag.
    AddTag(Tag),
    /// List the tags.
    GetTags,
    /// Remove the tag at this position.
    DeleteTag(usize),
    /// Replace the tag at this position.
    UpdateTag(usize, Tag),
    /// Read the template of this name.
    GetMessage(String),
    /// Set the template of this name to this text.
    SetMessage(String, String),
    /// Read both templates.
    GetMessages,
}

impl View for Request {
    type V = RequestView;

    open spec fn view(&self) -> RequestView {
        match self {
            Request::Login(k) => RequestView::Login(k@),
            Request::AddTag(t) => RequestView::AddTag(t@),
            Request::GetTags => RequestView::GetTags,
            Request::DeleteTag(i) => RequestView::DeleteTag(*i),
            Request::UpdateTag(i, t) => RequestView::UpdateTag(*i, t@),
            Request::GetMessage(n) => RequestView::GetMessage(n@),
            Request::SetMessage(n, v) => RequestView::SetMessage(n@, v@),
            Request::GetMessages => RequestView::GetMessages,
        }
    }
}

/// An answer of the web front end, as a value.
pub enum ResponseView {
    Status(Status),
    Tags(Seq<TagView>),
    Message(Seq<char>, Seq<char>),
    Messages(Seq<(Seq<char>, Seq<char>)>),
}

/// An answer of the web front end: a status alone, or a body with status `Success`.
#[derive(Debug, Clone, PartialEq, Eq)]
pub enum Response {
    Status(Status),
    Tags(Vec<Tag>),
    Message(Message),
    Messages(Vec<Message>),
}

impl View for Response {
    type V = ResponseView;

    open spec fn view(&self) -> ResponseView {
        match self {
            Response::Status(s) => ResponseView::Status(*s),
            Response::Tags(v) => ResponseView::Tags(tags_view(v@)),
            Response::Message(m) => ResponseView::Message(m.name@, m.value@),
            Response::Messages(v) => ResponseView::Messages(v@.map_values(|m: Message| (m.name@, m.value@))),
        }
    }
}

/// The template of a name, if the name is one of the two templates'.
pub open spec fn template_of(c: ConfigView, name: Seq<char>) -> Option<Seq<char>> {
    if name == success_name() {
        Some(c.response_message_success)
    } else if name == failure_name() {
        Some(c.response_message_failure)
    } else {
        None
    }
}

/// One request of a session that is `logged` in or not: the configuration afterwards,
/// whether the session is logged in afterwards, and the answer. Only a logged-in session
/// reads or edits anything; a position must be one of a tag.
pub open spec fn panel_step(c: ConfigView, logged: bool, q: RequestView) -> (ConfigView, bool, ResponseView) {
    match q {
        RequestView::Login(k) => if logged || k == c.key {
            (c, true, ResponseView::Status(Status::Success))
        } else {
            (c, false, ResponseView::Status(Status::Forbidden))
        },
        _ => if !logged {
            (c, false, ResponseView::Status(Status::Forbidden))
        } else {
            match q {
                RequestView::AddTag(t) => (
                    ConfigView { tags: c.tags.push(t), ..c },
                    true,
                    ResponseView::Status(Status::Created),
                ),
                RequestView::GetTags => (c, true, ResponseView::Tags(c.tags)),
                RequestView::DeleteTag(i) => if i < c.tags.len() {
                    (
                        ConfigView { tags: c.tags.remove(i as int), ..c },
                        true,
                        ResponseView::Status(Status::Success),
                    )
                } else {
                    (c, true, ResponseView::Status(Status::Forbidden))
                },
                RequestView::UpdateTag(i, t) => if i < c.tags.len() {
                    (
                        ConfigView { tags: c.tags.update(i as int, t), ..c },
                        true,
                        ResponseView::Status(Status::Success),
                    )
                } else {
                    (c, true, ResponseView::Status(Status::Forbidden))
                },
                RequestView::GetMessage(n) => match template_of(c, n) {
                    Some(v) => (c, true, ResponseView::Message(n, v)),
                    None => (c, true, ResponseView::Status(Status::NotFound)),
                },
                RequestView::SetMessage(n, v) => if n == success_name() {
                    (
                        ConfigView { response_message_success: v, ..c },
                        true,
                        ResponseView::Status(Status::Created),
                    )
                } else if n == failure_name() {
                    (
                        ConfigView { response_message_failure: v, ..c },
                        true,
                        ResponseView::Status(Status::Created),
                    )
                } else {
                    (c, true, ResponseView::Status(Status::NotFound))
                },
                RequestView::GetMessages => (
                    c,
                    true,
                    ResponseView::Messages(
                        seq![
                            (success_name(), c.response_message_success),
                            (failure_name(), c.response_message_failure),
                        ],
                    ),
                ),
                _ => (c, true, ResponseView::Status(Status::Forbidden)),
            }
        },
    }
}

/// The tag list changed, so that the configuration is to be saved.
pub open spec fn saves(q: RequestView, answer: ResponseView) -> bool {
    match q {
        RequestView::AddTag(_) => answer == ResponseView::Status(Status::Created),
        RequestView::DeleteTag(_) | RequestView::UpdateTag(_, _) => answer == ResponseView::Status(
            Status::Success,
        ),
        _ => false,
    }
}

/// Logs the session in where `key` is the configured key; a session that is logged in
/// stays so.
pub fn login(logged_in: &mut bool, key: &str, bc: &BotConfig) -> (r: Status)
    ensures
        (bc@, *final(logged_in), ResponseView::Status(r)) == panel_step(bc@, *old(logged_in), RequestView::Login(key@)),
{
    if *logged_in {
        Status::Success
    } else if same_text(key, bc.key.as_str()) {
        *logged_in = true;
        Status::Success
    } else {
        Status::Forbidden
    }
}

/// Appends a tag.
pub fn add_tag(logged_in: bool, tag: Tag, bc: &mut BotConfig) -> (r: Status)
    ensures
        (final(bc)@, logged_in, ResponseView::Status(r)) == panel_step(old(bc)@, logged_in, RequestView::AddTag(tag@)),
{
    if logged_in {
        let ghost before = bc.tags@;
        let ghost t = tag@;
        bc.tags.push(tag);
        assert(tags_view(bc.tags@) == tags_view(before).push(t));
        Status::Created
    } else {
        Status::Forbidden
    }
}

fn copy_tags(tags: &Vec<Tag>) -> (r: Vec<Tag>)
    ensures
        tags_view(r@) == tags_view(tags@),
{
    let mut r: Vec<Tag> = Vec::new();
    for i in 0..tags.len()
        invariant
            tags_view(r@) == tags_view(tags@).take(i as int),
    {
        let t = tags[i].duplicate();
        let ghost before = r@;
        r.push(t);
        assert(tags_view(r@) == tags_view(before).push(t@));
        assert(tags_view(tags@).take(i + 1) == tags_view(tags@).take(i as int).push(tags@[i as int]@));
    }
    assert(tags_view(tags@).take(tags.len() as int) == tags_view(tags@));
    r
}

/// The tags, in order.
pub fn get_tags(logged_in: bool, bc: &BotConfig) -> (r: Result<Vec<Tag>, Status>)
    ensures
        r is Ok <==> logged_in,
        r matches Ok(v) ==> tags_view(v@) == bc@.tags,
        r matches Err(s) ==> s == Status::Forbidden,
{
    if logged_in {
        Ok(copy_tags(&bc.tags))
    } else {
        Err(Status::Forbidden)
    }
}

/// Removes the tag at position `id`.
pub fn delete_tag(logged_in: bool, id: usize, bc: &mut BotConfig) -> (r: Status)
    ensures
        (final(bc)@, logged_in, ResponseView::Status(r)) == panel_step(old(bc)@, logged_in, RequestView::DeleteTag(id)),
{
    if logged_in && id < bc.tags.len() {
        let ghost before = bc.tags@;
        bc.tags.remove(id);
        assert(tags_view(bc.tags@) == tags_view(before).remove(id as int));
        Status::Success
    } else {
        Status::Forbidden
    }
}

/// Replaces the tag at position `id`.
pub fn update_tag(logged_in: bool, id: usize, tag: Tag, bc: &mut BotConfig) -> (r: Status)
    ensures
        (final(bc)@, logged_in, ResponseView::Status(r)) == panel_step(old(bc)@, logged_in, RequestView::UpdateTag(id, tag@)),
{
    if logged_in && id < bc.tags.len() {
        let ghost before = bc.tags@;
        let ghost t = tag@;
        bc.tags.set(id, tag);
        assert(tags_view(bc.tags@) == tags_view(before).update(id as int, t));
        Status::Success
    } else {
        Status::Forbidden
    }
}

fn template_name(name: &str) -> (r: u8)
    ensures
        r == 1 <==> name@ == success_name(),
        r == 2 <==> name@ == failure_name(),
        r == 0 <==> name@ != success_name() && name@ != failure_name(),
{
    proof {
        reveal_strlit("response_message_success");
        reveal_strlit("response_message_failure");
        assert(success_name()[17] != failure_name()[17]);
    }
    if same_text(name, "response_message_success") {
        1
    } else if same_text(name, "response_message_failure") {
        2
    } else {
        0
    }
}

/// The template of the given name.
pub fn get_message(logged_in: bool, name: String, bc: &BotConfig) -> (r: Result<Message, Status>)
    ensures
        r is Ok <==> logged_in && template_of(bc@, name@) is Some,
        r matches Ok(m) ==> m.name@ == name@ && template_of(bc@, name@) == Some(m.value@),
        r matches Err(s) ==> s == (if logged_in { Status::NotFound } else { Status::Forbidden }),
{
    if !logged_in {
        return Err(Status::Forbidden);
    }
    let which = template_name(name.as_str());
    if which == 1 {
        Ok(Message { name, value: bc.response_message_success.clone() })
    } else if which == 2 {
        Ok(Message { name, value: bc.response_message_failure.clone() })
    } else {
        Err(Status::NotFound)
    }
}

/// Sets the template of the given name.
pub fn set_message(logged_in: bool, name: &str, msg: String, bc: &mut BotConfig) -> (r: Status)
    ensures
        (final(bc)@, logged_in, ResponseView::Status(r)) == panel_step(old(bc)@, logged_in, RequestView::SetMessage(name@, msg@)),
{
    if !logged_in {
        return Status::Forbidden;
    }
    let which = template_name(name);
    if which == 1 {
        bc.response_message_success = msg;
        Status::Created
    } else if which == 2 {
        bc.response_message_failure = msg;
        Status::Created
    } else {
        Status::NotFound
    }
}

/// Both templates, success first.
pub fn get_messages(logged_in: bool, bc: &BotConfig) -> (r: Result<Vec<Message>, Status>)
    ensures
        r is Ok <==> logged_in,
        r matches Ok(v) ==> v@.map_values(|m: Message| (m.name@, m.value@)) == seq![
            (success_name(), bc@.response_message_success),
            (failure_name(), bc@.response_message_failure),
        ],
        r matches Err(s) ==> s == Status::Forbidden,
{
    if !logged_in {
        return Err(Status::Forbidden);
    }
    let mut v: Vec<Message> = Vec::new();
    v.push(Message { name: String::from_str("response_message_success"), value: bc.response_message_success.clone() });
    v.push(Message { name: String::from_str("response_message_failure"), value: bc.response_message_failure.clone() });
    assert(v@.map_values(|m: Message| (m.name@, m.value@)) =~= seq![
        (success_name(), bc@.response_message_success),
        (failure_name(), bc@.response_message_failure),
    ]);
    Ok(v)
}

/// The web front end: answers one request of a session against the configuration, and
/// says whether the configuration is to be saved.
pub fn rocket(bc: &mut BotConfig, logged_in: &mut bool, request: Request) -> (r: (Response, bool))
    ensures
        (final(bc)@, *final(logged_in), r.0@) == panel_step(old(bc)@, *old(logged_in), request@),
        r.1 == saves(request@, r.0@),
{
    let logged = *logged_in;
    let edits: u8 = match &request {
        Request::AddTag(_) => 1,
        Request::DeleteTag(_) | Request::UpdateTag(_, _) => 2,
        _ => 0,
    };
    let response = match request {
        Request::Login(key) => Response::Status(login(logged_in, key.as_str(), bc)),
        Request::AddTag(tag) => Response::Status(add_tag(logged, tag, bc)),
        Request::GetTags => match get_tags(logged, bc) {
            Ok(v) => Response::Tags(v),
            Err(s) => Response::Status(s),
        },
        Request::DeleteTag(id) => Response::Status(delete_tag(logged, id, bc)),
        Request::UpdateTag(id, tag) => Response::Status(update_tag(logged, id, tag, bc)),
        Request::GetMessage(name) => match get_message(logged, name, bc) {
            Ok(m) => Response::Message(m),
            Err(s) => Response::Status(s),
        },
        Request::SetMessage(name, msg) => Response::Status(set_message(logged, name.as_str(), msg, bc)),
        Request::GetMessages => match get_messages(logged, bc) {
            Ok(v) => Response::Messages(v),
            Err(s) => Response::Status(s),
        },
    };
    let save = match &response {
        Response::Status(s) => (edits == 1 && *s == Status::Created) || (edits == 2 && *s
            == Status::Success),
        _ => false,
    };
    (response, save)
}

} // verus!
