//! A post on its way through moderation. The stage a post has reached is
//! part of its type, so that only the steps of that stage can be taken: a new
//! post can be published, a post awaiting moderation can be allowed or
//! denied, and a published post can be deleted.

use std::marker::PhantomData;
use vstd::prelude::*;

pub mod post;
pub mod user;

verus! {

/// Stage: written, not yet handed in.
pub struct New;

/// Stage: handed in, awaiting moderation.
#[derive(Clone)]
pub struct Unmoderated;

/// Stage: allowed and visible.
pub struct Published;

/// Stage: denied or taken down.
pub struct Deleted;

/// A post at stage `S`.
pub struct Post<S> {
    data: PostData,
    _state: PhantomData<S>,
}

struct PostData {
    id: post::Id,
    user_id: user::Id,
    title: post::Title,
    body: post::Body,
}

/// What a post says, whatever its stage.
pub ghost struct Content {
    pub id: u64,
    pub user_id: u64,
    pub title: Seq<char>,
    pub body: Seq<char>,
}

impl<S> View for Post<S> {
    type V = Content;

    closed spec fn view(&self) -> Content {
        Content {
            id: self.data.id.0,
            user_id: self.data.user_id.0,
            title: self.data.title.0@,
            body: self.data.body.0@,
        }
    }
}

impl<S: Clone> Clone for Post<S> {
    fn clone(&self) -> (copy: Self)
        ensures
            copy@ == self@,
    {
        Post {
            data: PostData {
                id: post::Id(self.data.id.0),
                user_id: user::Id(self.data.user_id.0),
                title: post::Title(self.data.title.0.clone()),
                body: post::Body(self.data.body.0.clone()),
            },
            _state: PhantomData,
        }
    }
}

impl Post<New> {
    /// A new post by `user_id`.
    pub fn new(id: post::Id, user_id: user::Id, title: post::Title, body: post::Body) -> (post:
        Self)
        ensures
            post@ == (Content { id: id.0, user_id: user_id.0, title: title.0@, body: body.0@ }),
    {
        Self { data: PostData { id, user_id, title, body }, _state: PhantomData }
    }

    /// Hands the post in for moderation.
    pub fn publish(self) -> (post: Post<Unmoderated>)
        ensures
            post@ == self@,
    {
        Post { data: self.data, _state: PhantomData }
    }
}

impl Post<Unmoderated> {
    /// The moderator lets the post through.
    pub fn allow(self) -> (post: Post<Published>)
        ensures
            post@ == self@,
    {
        Post { data: self.data, _state: PhantomData }
    }

    /// The moderator turns the post down.
    pub fn deny(self) -> (post: Post<Deleted>)
        ensures
            post@ == self@,
    {
        Post { data: self.data, _state: PhantomData }
    }
}

impl Post<Published> {
    /// Takes a visible post down.
    pub fn delete(self) -> (post: Post<Deleted>)
        ensures
            post@ == self@,
    {
        Post { data: self.data, _state: PhantomData }
    }
}

impl<S> Post<S> {
    /// The identifier of the post.
    pub fn id(&self) -> (id: u64)
        ensures
            id == self@.id,
    {
        self.data.id.0
    }

    /// The identifier of the author.
    pub fn user_id(&self) -> (id: u64)
        ensures
            id == self@.user_id,
    {
        self.data.user_id.0
    }

    /// The title of the post.
    pub fn title(&self) -> (title: &str)
        ensures
            title@ == self@.title,
    {
        self.data.title.0.as_str()
    }

    /// The text of the post.
    pub fn body(&self) -> (body: &str)
        ensures
            body@ == self@.body,
    {
        self.data.body.0.as_str()
    }
}

} // verus!
