//! The message vocabulary: client identifiers, timestamps, post payloads,
//! the closed set of message bodies, and the envelope that carries them.

use vstd::prelude::*;

verus! {

/// A 128-bit per-connection identifier; the addressing unit for targeted
/// delivery. The zero value is reserved for the server itself.
#[derive(Clone, Copy, PartialEq, Eq, Structural, Hash, Debug)]
pub struct ClientId(pub u128);

impl ClientId {
    /// The reserved identifier of the server itself.
    pub fn nil() -> (r: ClientId)
        ensures
            r.0 == 0,
    {
        ClientId(0)
    }

    pub open spec fn is_nil_spec(&self) -> bool {
        self.0 == 0
    }

    /// Whether this is the reserved server identifier.
    #[verifier::when_used_as_spec(is_nil_spec)]
    pub fn is_nil(&self) -> (r: bool)
        ensures
            r == self.is_nil_spec(),
    {
        self.0 == 0
    }

    /// A fresh identifier for a new connection; never the reserved value.
    pub fn fresh() -> (r: ClientId)
        ensures
            !r.is_nil_spec(),
    {
        ClientId(fresh_u128())
    }
}

/// Relies on `uuid::Uuid::new_v4` and `Uuid::as_u128`: a version-4 identifier
/// from a random source. Its version bits are always set, so the value is
/// never zero.
#[verifier::external_body]
fn fresh_u128() -> (r: u128)
    ensures
        r != 0,
{
    uuid::Uuid::new_v4().as_u128()
}

/// A point in time, counted in milliseconds relative to the Unix epoch.
#[derive(Clone, Copy, PartialEq, Eq, Structural, Hash, Debug)]
pub struct Timestamp(pub i64);

impl Timestamp {
    /// The current wall-clock time.
    pub fn now() -> Timestamp {
        Timestamp(now_millis())
    }
}

/// Relies on `chrono::Utc::now` and `DateTime::timestamp_millis`: the current
/// time as milliseconds since the Unix epoch. Nothing is assumed of the
/// clock's value.
#[verifier::external_body]
fn now_millis() -> i64 {
    chrono::Utc::now().timestamp_millis()
}

/// Descriptive metadata of a post: its identifier, when it was posted, and
/// its title.
#[derive(Debug)]
pub struct PostHeader {
    pub id: ClientId,
    pub posted: Timestamp,
    pub title: String,
}

/// A full post: its header together with its content. The broker forwards
/// posts without inspecting them.
#[derive(Debug)]
pub struct Post {
    pub header: PostHeader,
    pub content: String,
}

/// The closed set of message bodies the broker understands.
///
/// `Query` fans out to every other client; `Post`, `Response` and `Get`
/// are delivered to the mailbox of their `target`; `Connected` is the
/// lifecycle notice a client receives when it joins; `Error` carries a
/// fault notice back to the offending client.
#[derive(Debug)]
pub enum MessageBody {
    Query(String),
    Connected(ClientId),
    Error { criminal: ClientId, error: String },
    Response { target: ClientId, posts: Vec<PostHeader> },
    Post { target: ClientId, post: Post },
    Get { target: ClientId, id: ClientId },
}

/// The envelope: who sent the message, when, and what it says.
#[derive(Debug)]
pub struct Message {
    pub sender: ClientId,
    pub time: Timestamp,
    pub body: MessageBody,
}

/// Mathematical value of a [`PostHeader`]: its title as a character sequence.
#[verifier::ext_equal]
pub struct PostHeaderView {
    pub id: ClientId,
    pub posted: Timestamp,
    pub title: Seq<char>,
}

/// Mathematical value of a [`Post`].
#[verifier::ext_equal]
pub struct PostView {
    pub header: PostHeaderView,
    pub content: Seq<char>,
}

/// Mathematical value of a [`MessageBody`].
#[verifier::ext_equal]
pub enum BodyView {
    Query(Seq<char>),
    Connected(ClientId),
    Error { criminal: ClientId, error: Seq<char> },
    Response { target: ClientId, posts: Seq<PostHeaderView> },
    Post { target: ClientId, post: PostView },
    Get { target: ClientId, id: ClientId },
}

/// Mathematical value of a [`Message`].
#[verifier::ext_equal]
pub struct MessageView {
    pub sender: ClientId,
    pub time: Timestamp,
    pub body: BodyView,
}

impl View for PostHeader {
    type V = PostHeaderView;

    open spec fn view(&self) -> PostHeaderView {
        PostHeaderView { id: self.id, posted: self.posted, title: self.title@ }
    }
}

impl View for Post {
    type V = PostView;

    open spec fn view(&self) -> PostView {
        PostView { header: self.header@, content: self.content@ }
    }
}

impl View for MessageBody {
    type V = BodyView;

    open spec fn view(&self) -> BodyView {
        match self {
            MessageBody::Query(s) => BodyView::Query(s@),
            MessageBody::Connected(id) => BodyView::Connected(*id),
            MessageBody::Error { criminal, error } => BodyView::Error {
                criminal: *criminal,
                error: error@,
            },
            MessageBody::Response { target, posts } => BodyView::Response {
                target: *target,
                posts: posts@.map_values(|p: PostHeader| p@),
            },
            MessageBody::Post { target, post } => BodyView::Post {
                target: *target,
                post: post@,
            },
            MessageBody::Get { target, id } => BodyView::Get { target: *target, id: *id },
        }
    }
}

impl View for Message {
    type V = MessageView;

    open spec fn view(&self) -> MessageView {
        MessageView { sender: self.sender, time: self.time, body: self.body@ }
    }
}

impl Clone for PostHeader {
    fn clone(&self) -> (r: Self)
        ensures
            r == *self,
    {
        PostHeader { id: self.id, posted: self.posted, title: self.title.clone() }
    }
}

impl Clone for Post {
    fn clone(&self) -> (r: Self)
        ensures
            r == *self,
    {
        Post { header: self.header.clone(), content: self.content.clone() }
    }
}

impl Clone for MessageBody {
    /// A clone carries the same value; for a `Response` the list of post
    /// headers is rebuilt, so equality holds of the values the fields
    /// denote.
    fn clone(&self) -> (r: Self)
        ensures
            r@ == self@,
    {
        match self {
            MessageBody::Query(s) => MessageBody::Query(s.clone()),
            MessageBody::Connected(id) => MessageBody::Connected(*id),
            MessageBody::Error { criminal, error } => MessageBody::Error {
                criminal: *criminal,
                error: error.clone(),
            },
            MessageBody::Response { target, posts } => {
                let copied = posts.clone();
                proof {
                    assert(copied@ =~= posts@);
                    assert(copied@.map_values(|p: PostHeader| p@) =~= posts@.map_values(
                        |p: PostHeader| p@,
                    ));
                }
                MessageBody::Response { target: *target, posts: copied }
            },
            MessageBody::Post { target, post } => MessageBody::Post {
                target: *target,
                post: post.clone(),
            },
            MessageBody::Get { target, id } => MessageBody::Get { target: *target, id: *id },
        }
    }
}

impl Clone for Message {
    fn clone(&self) -> (r: Self)
        ensures
            r@ == self@,
            r.sender == self.sender,
            r.time == self.time,
    {
        Message { sender: self.sender, time: self.time, body: self.body.clone() }
    }
}

impl Message {
    /// Builds a message in one step.
    pub fn new(sender: ClientId, time: Timestamp, body: MessageBody) -> (r: Message)
        ensures
            r.sender == sender,
            r.time == time,
            r.body == body,
    {
        Message { sender, time, body }
    }

    pub fn body(&self) -> (r: &MessageBody)
        ensures
            r == &self.body,
    {
        &self.body
    }

    pub fn sender(&self) -> (r: &ClientId)
        ensures
            r == &self.sender,
    {
        &self.sender
    }

    pub fn time(&self) -> (r: Timestamp)
        ensures
            r == self.time,
    {
        self.time
    }

    /// Starts a builder whose sender defaults to the server identifier and
    /// whose time defaults to the current wall clock.
    pub fn builder() -> (r: MessageBuilder<Partial>)
        ensures
            r.sender.is_nil_spec(),
    {
        MessageBuilder { sender: ClientId::nil(), time: Timestamp::now(), body: Partial }
    }
}

/// Marks the two stages of a [`MessageBuilder`]: with or without a body.
pub trait BuilderState {

}

/// Builder stage that already holds the required body.
pub struct Full(pub MessageBody);

/// Builder stage with no body yet; [`MessageBuilder::build`] is only
/// offered once a body was supplied.
pub struct Partial;

impl BuilderState for Full {

}

impl BuilderState for Partial {

}

/// Step-by-step construction of a [`Message`]. The stage type records
/// whether the mandatory body was supplied, so an incomplete message
/// cannot be built.
pub struct MessageBuilder<T: BuilderState> {
    pub sender: ClientId,
    pub time: Timestamp,
    pub body: T,
}

impl<T: BuilderState> MessageBuilder<T> {
    pub fn sender(self, id: ClientId) -> (r: MessageBuilder<T>)
        ensures
            r.sender == id,
            r.time == self.time,
            r.body == self.body,
    {
        MessageBuilder { sender: id, time: self.time, body: self.body }
    }

    pub fn time(self, time: Timestamp) -> (r: MessageBuilder<T>)
        ensures
            r.sender == self.sender,
            r.time == time,
            r.body == self.body,
    {
        MessageBuilder { sender: self.sender, time, body: self.body }
    }

    pub fn body(self, body: MessageBody) -> (r: MessageBuilder<Full>)
        ensures
            r.sender == self.sender,
            r.time == self.time,
            r.body == Full(body),
    {
        MessageBuilder { sender: self.sender, time: self.time, body: Full(body) }
    }
}

impl MessageBuilder<Full> {
    pub fn build(self) -> (r: Message)
        ensures
            r.sender == self.sender,
            r.time == self.time,
            r.body == self.body.0,
    {
        Message { sender: self.sender, time: self.time, body: self.body.0 }
    }
}

} // verus!
