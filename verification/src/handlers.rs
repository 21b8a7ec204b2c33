//! The request handlers: each maps parsed HTTP input and the repository to
//! a status code and a response body. The surrounding HTTP layer only
//! parses bytes into plain values, calls one handler, and serializes the
//! returned body.

use vstd::prelude::*;

use crate::errors::{spec_status_of, status_of, ServiceError};
use crate::params::{parse_query, spec_page_of, spec_parse_query, spec_size_of};
use crate::post::{Post, PostView};
use crate::store::{
    contains_id, inserted_post, page_slice, spec_delete, spec_insert, spec_update, PostStore,
};

verus! {

/// A response body: nothing, one post, or a list of posts.
pub enum Body {
    Empty,
    One(Post),
    Many(Vec<Post>),
}

/// What a handler returns: an HTTP status code and a body.
pub struct Response {
    pub status: u16,
    pub body: Body,
}

/// `GET /`: lists one page of posts, ascending by id. A malformed query
/// string is the client's error (400); an accepted one always yields the
/// requested slice with status 200 — a page past the end is an empty list,
/// never an error.
pub fn handle_list(store: &PostStore, query: &[u8]) -> (r: Response)
    requires
        store.wf(),
    ensures
        spec_parse_query(query@) is None ==> r.status == 400 && r.body is Empty,
        spec_parse_query(query@) matches Some(p) ==> r.status == 200 && (r.body matches Body::Many(
            v,
        ) && crate::post::posts_view(v@) == page_slice(
            store@.posts,
            spec_page_of(p),
            spec_size_of(p),
        )),
{
    match parse_query(query) {
        Err(e) => Response { status: status_of(e), body: Body::Empty },
        Ok(params) => {
            proof {
                crate::params::lemma_parse_pieces_valid(
                    crate::params::ParamsView { page: None, posts_per_page: None },
                    query@,
                );
            }
            let page = params.page_or_default();
            let size = params.posts_per_page_or_default();
            let posts = store.list_page(page, size);
            Response { status: 200, body: Body::Many(posts) }
        },
    }
}

/// `POST /`: creates a post from the given fields (a client-supplied id is
/// ignored by the HTTP layer and never reaches this handler). The store
/// assigns a fresh id and the created post comes back with status 201.
pub fn handle_create(store: &mut PostStore, title: String, text: String) -> (r: Response)
    requires
        old(store).wf(),
        old(store)@.next_id < i32::MAX,
    ensures
        final(store).wf(),
        final(store)@ == spec_insert(old(store)@, title@, text@),
        r.status == 201,
        r.body matches Body::One(p) && p@ == inserted_post(old(store)@, title@, text@),
{
    let created = store.insert(title, text);
    Response { status: 201, body: Body::One(created) }
}

/// `POST /{id}`: full-replace update of the addressed post. Returns the
/// updated post with status 200, or 404 — and an unchanged table — when no
/// post carries `id`.
pub fn handle_update(store: &mut PostStore, id: i32, title: String, text: String) -> (r: Response)
    requires
        old(store).wf(),
    ensures
        final(store).wf(),
        final(store)@ == spec_update(old(store)@, id as int, title@, text@),
        contains_id(old(store)@.posts, id as int) ==> r.status == 200 && (r.body matches Body::One(
            p,
        ) && p@ == (PostView { id: id as int, title: title@, text: text@ })),
        !contains_id(old(store)@.posts, id as int) ==> r.status == spec_status_of(
            ServiceError::NotFound,
        ) && r.body is Empty,
{
    match store.update(id, title, text) {
        Ok(p) => Response { status: 200, body: Body::One(p) },
        Err(e) => Response { status: status_of(e), body: Body::Empty },
    }
}

/// `POST /delete/{id}`: deletes the addressed post. Always status 200 with
/// an empty body, whether or not a post carried `id`.
pub fn handle_delete(store: &mut PostStore, id: i32) -> (r: Response)
    requires
        old(store).wf(),
    ensures
        final(store).wf(),
        final(store)@ == spec_delete(old(store)@, id as int),
        !contains_id(final(store)@.posts, id as int),
        r.status == 200,
        r.body is Empty,
{
    let _affected = store.delete_by_id(id);
    Response { status: 200, body: Body::Empty }
}

/// `GET /hello`: the static liveness body, always served with status 200.
pub fn hello() -> (r: &'static str)
    ensures
        r@ == "Hello World!"@,
{
    "Hello World!"
}

} // verus!
