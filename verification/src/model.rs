use vstd::prelude::*;

verus! {

/// One blog post. A post is immutable once stored: it is created with all
/// five fields and never changed. The `id` is the 128-bit value of the
/// post's UUID and is the sole lookup key; `created_at` is held as the
/// timestamp text exactly as it appeared on the wire and is echoed back
/// unchanged.
pub struct Post {
    pub id: u128,
    pub title: String,
    pub body: String,
    pub author: String,
    pub created_at: String,
}

/// The mathematical value of a [`Post`]: the id together with the four
/// texts as character sequences. Contracts throughout the crate speak of
/// this value.
pub struct PostV {
    pub id: u128,
    pub title: Seq<char>,
    pub body: Seq<char>,
    pub author: Seq<char>,
    pub created_at: Seq<char>,
}

/// The mathematical posts a vector of posts stands for.
pub open spec fn views_of(ps: Seq<Post>) -> Seq<PostV> {
    ps.map_values(|p: Post| p@)
}

impl View for Post {
    type V = PostV;

    open spec fn view(&self) -> PostV {
        PostV {
            id: self.id,
            title: self.title@,
            body: self.body@,
            author: self.author@,
            created_at: self.created_at@,
        }
    }
}

impl Post {
    /// Builds a post from its five fields.
    pub fn new(title: String, body: String, author: String, created_at: String, id: u128) -> (p:
        Post)
        ensures
            p@ == (PostV {
                id,
                title: title@,
                body: body@,
                author: author@,
                created_at: created_at@,
            }),
    {
        Post { id, title, body, author, created_at }
    }
}

impl Clone for Post {
    fn clone(&self) -> (r: Post)
        ensures
            r@ == self@,
    {
        Post {
            id: self.id,
            title: self.title.clone(),
            body: self.body.clone(),
            author: self.author.clone(),
            created_at: self.created_at.clone(),
        }
    }
}

} // verus!
