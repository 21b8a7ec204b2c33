//! The `Post` entity: the sole record kind the service stores, with a
//! store-assigned integer id and two required text fields.

use vstd::prelude::*;

verus! {

/// Mathematical model of a post: its id and the character sequences of its
/// two text fields.
pub ghost struct PostView {
    pub id: int,
    pub title: Seq<char>,
    pub text: Seq<char>,
}

/// The models of a sequence of stored posts, in the same order.
pub open spec fn posts_view(s: Seq<Post>) -> Seq<PostView> {
    s.map_values(|p: Post| p@)
}

/// A stored post record. The `id` is assigned by the store on insert and is
/// immutable afterwards; `title` and `text` are required free-form text.
pub struct Post {
    pub id: i32,
    pub title: String,
    pub text: String,
}

impl View for Post {
    type V = PostView;

    open spec fn view(&self) -> PostView {
        PostView { id: self.id as int, title: self.title@, text: self.text@ }
    }
}

impl Post {
    /// Builds a post from its three fields.
    pub fn new(id: i32, title: String, text: String) -> (r: Post)
        ensures
            r@ == (PostView { id: id as int, title: title@, text: text@ }),
    {
        Post { id, title, text }
    }
}

impl Clone for Post {
    /// A clone carries the same id and the same field contents.
    fn clone(&self) -> (r: Self)
        ensures
            r@ == self@,
    {
        Post { id: self.id, title: self.title.clone(), text: self.text.clone() }
    }
}

} // verus!
