//! The post repository: an ordered table of posts with store-assigned ids,
//! offering paginated listing, insert, full-replace update and delete.
//!
//! The table keeps its rows in ascending id order, ids are assigned from a
//! strictly increasing counter and are never reused, so every listing is
//! ordered and an id freed by a delete does not come back.

use vstd::prelude::*;

use crate::post::{posts_view, Post, PostView};

verus! {

/// Mathematical model of the post table: the rows in storage order and the
/// id the next insert will receive.
pub ghost struct StoreView {
    pub posts: Seq<PostView>,
    pub next_id: int,
}

/// Some row of `posts` carries the id `id`.
pub open spec fn contains_id(posts: Seq<PostView>, id: int) -> bool {
    exists|i: int| 0 <= i < posts.len() && posts[i].id == id
}

/// The rows are in strictly ascending id order (so ids are also unique).
pub open spec fn sorted_by_id(posts: Seq<PostView>) -> bool {
    forall|i: int, j: int| 0 <= i < j < posts.len() ==> posts[i].id < posts[j].id
}

/// Well-formedness of the table: rows sorted by id, every id at least 1 and
/// below the id counter, and the counter itself in range for a store id.
pub open spec fn wf_store(s: StoreView) -> bool {
    &&& 1 <= s.next_id <= i32::MAX
    &&& sorted_by_id(s.posts)
    &&& forall|i: int| 0 <= i < s.posts.len() ==> 1 <= (#[trigger] s.posts[i]).id < s.next_id
}

/// Page `page` (1-based) of size `size` out of `posts`: the slice
/// `[(page-1)*size, page*size)`, clipped to the data. A page that starts at
/// or past the end is empty.
pub open spec fn page_slice(posts: Seq<PostView>, page: int, size: int) -> Seq<PostView>
    recommends
        page >= 1,
        size >= 1,
{
    let start = if (page - 1) * size <= posts.len() {
        (page - 1) * size
    } else {
        posts.len() as int
    };
    let end = if page * size <= posts.len() {
        page * size
    } else {
        posts.len() as int
    };
    posts.subrange(start, end)
}

/// The row an insert of `(title, text)` into the table `s` creates.
pub open spec fn inserted_post(s: StoreView, title: Seq<char>, text: Seq<char>) -> PostView {
    PostView { id: s.next_id, title, text }
}

/// The table after inserting `(title, text)`: the new row goes at the end
/// (it has the largest id) and the id counter moves on.
pub open spec fn spec_insert(s: StoreView, title: Seq<char>, text: Seq<char>) -> StoreView {
    StoreView { posts: s.posts.push(inserted_post(s, title, text)), next_id: s.next_id + 1 }
}

/// The table after a full-replace update of the row with id `id`: both text
/// fields of that row are replaced, every other row is untouched. Updating
/// an absent id changes nothing.
pub open spec fn spec_update(s: StoreView, id: int, title: Seq<char>, text: Seq<char>) -> StoreView {
    StoreView {
        posts: Seq::new(
            s.posts.len(),
            |i: int|
                if s.posts[i].id == id {
                    PostView { id, title, text }
                } else {
                    s.posts[i]
                },
        ),
        next_id: s.next_id,
    }
}

/// `posts` without the row carrying `id` (unchanged if no row carries it).
pub open spec fn remove_id(posts: Seq<PostView>, id: int) -> Seq<PostView> {
    if contains_id(posts, id) {
        posts.remove(choose|i: int| 0 <= i < posts.len() && posts[i].id == id)
    } else {
        posts
    }
}

/// The table after deleting the row with id `id`. The id counter does not
/// move back, so a deleted id is never reassigned.
pub open spec fn spec_delete(s: StoreView, id: int) -> StoreView {
    StoreView { posts: remove_id(s.posts, id), next_id: s.next_id }
}

/// The post table. Rows are held in ascending id order; `next_id` is the id
/// the next insert will be assigned.
pub struct PostStore {
    pub posts: Vec<Post>,
    pub next_id: i32,
}

impl View for PostStore {
    type V = StoreView;

    open spec fn view(&self) -> StoreView {
        StoreView { posts: posts_view(self.posts@), next_id: self.next_id as int }
    }
}

impl PostStore {
    /// The table's invariant; established by `new` and kept by every
    /// operation.
    pub open spec fn wf(&self) -> bool {
        wf_store(self@)
    }

    /// An empty table; the first insert will be assigned id 1.
    pub fn new() -> (r: PostStore)
        ensures
            r.wf(),
            r@.posts == Seq::<PostView>::empty(),
            r@.next_id == 1,
    {
        let r = PostStore { posts: Vec::new(), next_id: 1 };
        proof {
            assert(r@.posts =~= Seq::<PostView>::empty());
        }
        r
    }

    /// Inserts a new post. The store assigns it the next free id, which no
    /// earlier or current row has ever carried, and returns the stored row.
    pub fn insert(&mut self, title: String, text: String) -> (r: Post)
        requires
            old(self).wf(),
            old(self)@.next_id < i32::MAX,
        ensures
            final(self).wf(),
            final(self)@ == spec_insert(old(self)@, title@, text@),
            r@ == inserted_post(old(self)@, title@, text@),
            !contains_id(old(self)@.posts, r@.id),
    {
        let id = self.next_id;
        let post = Post { id, title, text };
        let stored = post.clone();
        self.posts.push(post);
        self.next_id = self.next_id + 1;
        proof {
            assert(final(self)@.posts =~= spec_insert(old(self)@, title@, text@).posts);
        }
        stored
    }

    /// Looks up the position of the row with id `id`, if any.
    fn find_index(&self, id: i32) -> (r: Option<usize>)
        requires
            self.wf(),
        ensures
            match r {
                Some(i) => i < self.posts@.len() && self@.posts[i as int].id == id,
                None => !contains_id(self@.posts, id as int),
            },
    {
        let n = self.posts.len();
        let mut i: usize = 0;
        while i < n
            invariant
                n == self.posts@.len(),
                i <= n,
                forall|j: int| 0 <= j < i ==> self@.posts[j].id != id,
            decreases n - i,
        {
            if self.posts[i].id == id {
                return Some(i);
            }
            i = i + 1;
        }
        None
    }

    /// Full-replace update of the row with id `id`: both text fields are
    /// replaced with the given values (omitted content is blanked, never
    /// merged). Returns the updated row, or `NotFound` if no row carries
    /// `id`, in which case the table is unchanged.
    pub fn update(&mut self, id: i32, title: String, text: String) -> (r: Result<
        Post,
        crate::errors::ServiceError,
    >)
        requires
            old(self).wf(),
        ensures
            final(self).wf(),
            final(self)@ == spec_update(old(self)@, id as int, title@, text@),
            contains_id(old(self)@.posts, id as int) ==> (match r {
                Ok(p) => p@ == (PostView { id: id as int, title: title@, text: text@ }),
                Err(_) => false,
            }),
            !contains_id(old(self)@.posts, id as int) ==> (r matches Err(e) && e
                == crate::errors::ServiceError::NotFound),
    {
        let found = self.find_index(id);
        match found {
            Some(i) => {
                let updated = Post { id, title, text };
                let stored = updated.clone();
                let _ = self.posts.remove(i);
                self.posts.insert(i, updated);
                proof {
                    let gi = i as int;
                    let pre = old(self)@.posts;
                    assert(forall|j: int|
                        0 <= j < pre.len() && j != gi ==> pre[j].id != id as int);
                    assert(final(self)@.posts =~= spec_update(
                        old(self)@,
                        id as int,
                        title@,
                        text@,
                    ).posts);
                }
                Ok(stored)
            },
            None => {
                proof {
                    assert(final(self)@.posts =~= spec_update(
                        old(self)@,
                        id as int,
                        title@,
                        text@,
                    ).posts);
                }
                Err(crate::errors::ServiceError::NotFound)
            },
        }
    }

    /// Deletes the row with id `id` and returns how many rows were affected:
    /// 1 if such a row existed, else 0. Deleting an absent id is not an
    /// error and leaves the table unchanged.
    pub fn delete_by_id(&mut self, id: i32) -> (r: u64)
        requires
            old(self).wf(),
        ensures
            final(self).wf(),
            final(self)@ == spec_delete(old(self)@, id as int),
            r == (if contains_id(old(self)@.posts, id as int) {
                1u64
            } else {
                0u64
            }),
            !contains_id(final(self)@.posts, id as int),
    {
        let found = self.find_index(id);
        match found {
            Some(i) => {
                let _ = self.posts.remove(i);
                proof {
                    let gi = i as int;
                    let pre = old(self)@.posts;
                    let ci = choose|k: int| 0 <= k < pre.len() && pre[k].id == id as int;
                    assert(pre[gi].id == id as int);
                    if ci != gi {
                        assert(pre[ci].id != pre[gi].id);
                    }
                    assert(ci == gi);
                    assert(final(self)@.posts =~= spec_delete(old(self)@, id as int).posts);
                    assert forall|k: int| 0 <= k < final(self)@.posts.len() implies (
                    #[trigger] final(self)@.posts[k]).id != id as int by {
                        if k < gi {
                            assert(final(self)@.posts[k] == pre[k]);
                        } else {
                            assert(final(self)@.posts[k] == pre[k + 1]);
                        }
                    }
                }
                1
            },
            None => {
                proof {
                    assert(final(self)@.posts =~= spec_delete(old(self)@, id as int).posts);
                }
                0
            },
        }
    }

    /// Lists page `page` (1-based) with `posts_per_page` rows per page, in
    /// ascending id order. A page past the end of the data is empty, never
    /// an error.
    pub fn list_page(&self, page: usize, posts_per_page: usize) -> (r: Vec<Post>)
        requires
            self.wf(),
            page >= 1,
            posts_per_page >= 1,
        ensures
            posts_view(r@) == page_slice(self@.posts, page as int, posts_per_page as int),
    {
        let n = self.posts.len();
        let mut r: Vec<Post> = Vec::new();
        let start_opt = (page - 1).checked_mul(posts_per_page);
        let ghost gstart = ((page - 1) * posts_per_page) as int;
        let ghost gend = (page * posts_per_page) as int;
        proof {
            assert((page as int) * (posts_per_page as int) == ((page as int) - 1) * (
            posts_per_page as int) + (posts_per_page as int)) by (nonlinear_arith);
            assert(gend == gstart + posts_per_page as int);
        }
        match start_opt {
            None => {
                proof {
                    assert(gstart > usize::MAX >= n);
                    assert(posts_view(r@) =~= page_slice(
                        self@.posts,
                        page as int,
                        posts_per_page as int,
                    ));
                }
                r
            },
            Some(start) => {
                if start >= n {
                    proof {
                        assert(posts_view(r@) =~= page_slice(
                            self@.posts,
                            page as int,
                            posts_per_page as int,
                        ));
                    }
                    return r;
                }
                let end = match start.checked_add(posts_per_page) {
                    None => n,
                    Some(e) => if e < n {
                        e
                    } else {
                        n
                    },
                };
                let mut i = start;
                while i < end
                    invariant
                        start <= i <= end <= n,
                        n == self.posts@.len(),
                        gstart == start as int,
                        end as int == (if gend <= n { gend } else { n as int }),
                        posts_view(r@) =~= posts_view(self.posts@).subrange(start as int, i as int),
                    decreases end - i,
                {
                    let ghost r_pre = r@;
                    let p = self.posts[i].clone();
                    let ghost px = p;
                    r.push(p);
                    proof {
                        assert(px@ == posts_view(self.posts@)[i as int]);
                        assert(r@ == r_pre.push(px));
                        let lhs = posts_view(r@);
                        let rhs = posts_view(self.posts@).subrange(start as int, i + 1);
                        assert(posts_view(r_pre) == posts_view(self.posts@).subrange(
                            start as int,
                            i as int,
                        ));
                        assert(posts_view(r_pre).len() == r_pre.len());
                        assert(r_pre.len() == i - start);
                        assert(lhs.len() == i + 1 - start);
                        assert(rhs.len() == i + 1 - start);
                        assert forall|j: int| 0 <= j < lhs.len() implies lhs[j] == rhs[j] by {
                            if j < i - start {
                                assert(lhs[j] == r_pre[j]@);
                                assert(posts_view(r_pre)[j] == posts_view(self.posts@).subrange(
                                    start as int,
                                    i as int,
                                )[j]);
                            } else {
                                assert(j == i - start);
                                assert(r@[j] == px);
                                assert(rhs[j] == posts_view(self.posts@)[i as int]);
                            }
                        }
                        assert(lhs =~= rhs);
                    }
                    i = i + 1;
                }
                proof {
                    assert(posts_view(r@) =~= page_slice(
                        self@.posts,
                        page as int,
                        posts_per_page as int,
                    ));
                }
                r
            },
        }
    }
}

} // verus!
