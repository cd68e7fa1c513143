use vstd::prelude::*;

verus! {

/// The request shape for creating a user: credentials plus a display name.
/// The password travels as plaintext here and is hashed before storage.
#[derive(Debug, Clone)]
pub struct UserRequest {
    pub username: String,
    pub password: String,
    pub name: String,
}

/// The request shape for logging a user in.
#[derive(Debug, Clone)]
pub struct UserLogin {
    pub username: String,
    pub password: String,
}

/// The request shape for creating a category.
#[derive(Debug, Clone)]
pub struct CategoryReq {
    pub name: String,
}

/// The request shape for creating a post.
#[derive(Debug, Clone)]
pub struct PostReq {
    pub title: String,
    pub text: String,
    pub categories: Vec<String>,
    pub uploader: String,
}

} // verus!
