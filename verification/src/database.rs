use vstd::prelude::*;

use crate::model::{views_of, Post, PostV};

verus! {

/// The first post in `s` whose id is `id`, or `None` when no post has it.
/// This is the store's lookup semantics: a linear scan from the front.
pub open spec fn find_spec(s: Seq<PostV>, id: u128) -> Option<PostV>
    decreases s.len(),
{
    if s.len() == 0 {
        None
    } else if s[0].id == id {
        Some(s[0])
    } else {
        find_spec(s.drop_first(), id)
    }
}

/// The in-memory post store: an append-only sequence of posts in insertion
/// order. It performs no validation and no duplicate check; id uniqueness
/// is the caller's affair (ids are generated, never reused).
pub struct Database {
    posts: Vec<Post>,
}

impl View for Database {
    type V = Seq<PostV>;

    closed spec fn view(&self) -> Seq<PostV> {
        views_of(self.posts@)
    }
}

impl Database {
    /// An empty store.
    pub fn new() -> (d: Database)
        ensures
            d@ == Seq::<PostV>::empty(),
    {
        let d = Database { posts: Vec::new() };
        proof {
            assert(d@ =~= Seq::<PostV>::empty());
        }
        d
    }

    /// Appends `post` at the end of the sequence. Always succeeds; nothing
    /// already stored moves or changes.
    pub fn insert_post(&mut self, post: Post)
        ensures
            final(self)@ == old(self)@.push(post@),
    {
        let ghost prior = self@;
        let ghost pv = post@;
        self.posts.push(post);
        proof {
            assert(self@ =~= prior.push(pv));
        }
    }

    /// All posts, in insertion order.
    pub fn posts(&self) -> (r: &Vec<Post>)
        ensures
            views_of(r@) == self@,
    {
        &self.posts
    }

    /// Looks up the first post whose id is `id`.
    pub fn find_by_id(&self, id: u128) -> (r: Option<&Post>)
        ensures
            match r {
                Some(p) => find_spec(self@, id) == Some(p@),
                None => find_spec(self@, id) is None,
            },
    {
        let mut i: usize = 0;
        proof {
            assert(self@.skip(0) =~= self@);
        }
        while i < self.posts.len()
            invariant
                i <= self.posts.len(),
                find_spec(self@, id) == find_spec(self@.skip(i as int), id),
            decreases self.posts.len() - i,
        {
            if self.posts[i].id == id {
                proof {
                    assert(self@.skip(i as int)[0] == self@[i as int]);
                }
                return Some(&self.posts[i]);
            }
            proof {
                assert(self@.skip(i as int).drop_first() =~= self@.skip(i as int + 1));
            }
            i = i + 1;
        }
        proof {
            assert(self@.skip(i as int).len() == 0);
        }
        None
    }
}

impl Clone for Database {
    fn clone(&self) -> (r: Database)
        ensures
            r@ == self@,
    {
        let mut posts: Vec<Post> = Vec::new();
        let mut i: usize = 0;
        while i < self.posts.len()
            invariant
                i <= self.posts.len(),
                views_of(posts@) == self@.take(i as int),
            decreases self.posts.len() - i,
        {
            let ghost before = views_of(posts@);
            posts.push(self.posts[i].clone());
            proof {
                assert(views_of(posts@) =~= before.push(self@[i as int]));
                assert(before.push(self@[i as int]) =~= self@.take(i as int + 1));
            }
            i = i + 1;
        }
        let r = Database { posts };
        proof {
            assert(self@.take(i as int) =~= self@);
        }
        r
    }
}

/// A found post carries the id it was looked up by.
pub proof fn lemma_find_spec_id(s: Seq<PostV>, id: u128)
    ensures
        find_spec(s, id) matches Some(p) ==> p.id == id,
    decreases s.len(),
{
    if s.len() > 0 {
        lemma_find_spec_id(s.drop_first(), id);
    }
}

} // verus!
