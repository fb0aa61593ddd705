use crate::models::user::User;
use vstd::prelude::*;

verus! {

/// A post, the one entity the cache mirrors. The `user` field is a
/// transient, read-time enrichment: it is never persisted, and every row
/// read back from the cache carries `None` there.
#[allow(non_snake_case)]
#[derive(Clone, Debug)]
pub struct Post {
    pub id: u32,
    pub title: String,
    pub body: String,
    pub userId: u32,
    pub user: Option<User>,
}

impl Post {
    /// Builds a post from its parts, changing nothing.
    pub fn new(id: u32, title: String, body: String, userId: u32, user: Option<User>) -> (p: Post)
        ensures
            p.id == id,
            p.title == title,
            p.body == body,
            p.userId == userId,
            p.user == user,
    {
        Post { id, title, body, userId, user }
    }
}

} // verus!
