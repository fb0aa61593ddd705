use vstd::prelude::*;

verus! {

/// Geographic coordinates of an address, kept as the remote source sends
/// them: textual, never interpreted numerically.
#[derive(Clone, Debug)]
pub struct Geo {
    pub lat: String,
    pub lng: String,
}

/// A user's postal address as the remote source reports it.
#[derive(Clone, Debug)]
pub struct Address {
    pub street: String,
    pub suite: String,
    pub city: String,
    pub zipcode: String,
    pub geo: Geo,
}

/// The company a user belongs to.
#[allow(non_snake_case)]
#[derive(Clone, Debug)]
pub struct Company {
    pub name: String,
    pub catchPhrase: String,
    pub bs: String,
}

/// A user of the remote source. Users are entirely remote-sourced and never
/// cached locally; a value of this type only ever enriches a post at read
/// time.
#[derive(Clone, Debug)]
pub struct User {
    pub id: u32,
    pub name: String,
    pub username: String,
    pub email: String,
    pub address: Address,
    pub phone: String,
    pub website: String,
    pub company: Company,
}

} // verus!
