pub mod post;
pub mod user;

use crate::digits::{spec_u32_dec, u32_dec};
use vstd::prelude::*;

verus! {

/// The resources that the remote source exposes. A value picks one endpoint,
/// carrying the numeric identifier where the resource is a single entity.
pub enum Endpoints {
    GetPosts,
    GetPost(u32),
    GetTodos,
    GetUsers,
    GetUser(u32),
}

/// The URL an endpoint stands for: the fixed base of the remote source,
/// the resource path, and, for single entities, the decimal identifier.
pub open spec fn spec_base_url(endpoints: Endpoints) -> Seq<char> {
    match endpoints {
        Endpoints::GetPosts => "https://jsonplaceholder.typicode.com"@ + "/posts"@,
        Endpoints::GetPost(id) => "https://jsonplaceholder.typicode.com"@ + "/posts/"@
            + spec_u32_dec(id as nat),
        Endpoints::GetUsers => "https://jsonplaceholder.typicode.com"@ + "/users/"@,
        Endpoints::GetUser(id) => "https://jsonplaceholder.typicode.com"@ + "/users/"@
            + spec_u32_dec(id as nat),
        Endpoints::GetTodos => "https://jsonplaceholder.typicode.com"@ + "/todos/"@,
    }
}

impl Endpoints {
    /// Builds the request URL for an endpoint.
    pub fn base_url(endpoints: Endpoints) -> (r: String)
        ensures
            r@ == spec_base_url(endpoints),
    {
        match endpoints {
            Endpoints::GetPosts => {
                let mut s = String::from_str("https://jsonplaceholder.typicode.com");
                s.append("/posts");
                s
            },
            Endpoints::GetPost(id) => {
                let mut s = String::from_str("https://jsonplaceholder.typicode.com");
                s.append("/posts/");
                let d = u32_dec(id);
                s.append(d.as_str());
                s
            },
            Endpoints::GetUsers => {
                let mut s = String::from_str("https://jsonplaceholder.typicode.com");
                s.append("/users/");
                s
            },
            Endpoints::GetUser(id) => {
                let mut s = String::from_str("https://jsonplaceholder.typicode.com");
                s.append("/users/");
                let d = u32_dec(id);
                s.append(d.as_str());
                s
            },
            Endpoints::GetTodos => {
                let mut s = String::from_str("https://jsonplaceholder.typicode.com");
                s.append("/todos/");
                s
            },
        }
    }
}

} // verus!
