//! The laws the repository obeys, stated over the store's mathematical
//! model and proved once and for all. Each speaks about the spec-level
//! transitions that the executable operations are proven to implement.

use vstd::prelude::*;

use crate::post::PostView;
use crate::store::{
    contains_id, inserted_post, page_slice, remove_id, sorted_by_id, spec_delete, spec_insert,
    spec_update, wf_store, StoreView,
};

verus! {

/// Inserting a post and then listing the first page with room for the
/// whole table shows the new post, under an id no earlier row carries.
pub proof fn lemma_insert_then_listed(s: StoreView, title: Seq<char>, text: Seq<char>, n: int)
    requires
        wf_store(s),
        n >= s.posts.len() + 1,
    ensures
        !contains_id(s.posts, inserted_post(s, title, text).id),
        ({
            let pg = page_slice(spec_insert(s, title, text).posts, 1, n);
            exists|k: int|
                0 <= k < pg.len() && pg[k] == inserted_post(s, title, text)
        }),
{
    let s2 = spec_insert(s, title, text);
    let pg = page_slice(s2.posts, 1, n);
    assert(pg =~= s2.posts);
    let k = s.posts.len() as int;
    assert(pg[k] == inserted_post(s, title, text));
}

/// Every listed page is in ascending id order, whatever order the rows
/// were inserted in: the slice of a sorted table is sorted.
pub proof fn lemma_page_sorted(s: StoreView, page: int, size: int)
    requires
        wf_store(s),
        page >= 1,
        size >= 1,
    ensures
        sorted_by_id(page_slice(s.posts, page, size)),
{
    assert(page * size == (page - 1) * size + size) by (nonlinear_arith);
    let pg = page_slice(s.posts, page, size);
    assert forall|i: int, j: int| 0 <= i < j < pg.len() implies pg[i].id < pg[j].id by {
        let start = if (page - 1) * size <= s.posts.len() {
            (page - 1) * size
        } else {
            s.posts.len() as int
        };
        assert(pg[i] == s.posts[start + i]);
        assert(pg[j] == s.posts[start + j]);
    }
}

/// A page that starts at or past the end of the data is empty — the
/// listing itself never fails on such a page.
pub proof fn lemma_page_beyond_empty(s: StoreView, page: int, size: int)
    requires
        page >= 1,
        size >= 1,
        (page - 1) * size >= s.posts.len(),
    ensures
        page_slice(s.posts, page, size) == Seq::<PostView>::empty(),
{
    assert(page * size == (page - 1) * size + size) by (nonlinear_arith);
    assert(page_slice(s.posts, page, size) =~= Seq::<PostView>::empty());
}

/// After a full-replace update, any listed page that shows the updated id
/// shows exactly the new title and text — fields are replaced, never
/// merged, so nothing of the old row survives.
pub proof fn lemma_update_then_listed(
    s: StoreView,
    id: int,
    title: Seq<char>,
    text: Seq<char>,
    page: int,
    size: int,
)
    requires
        wf_store(s),
        page >= 1,
        size >= 1,
    ensures
        ({
            let pg = page_slice(spec_update(s, id, title, text).posts, page, size);
            forall|k: int|
                0 <= k < pg.len() && (#[trigger] pg[k]).id == id ==> pg[k] == (PostView {
                    id,
                    title,
                    text,
                })
        }),
{
    assert(page * size == (page - 1) * size + size) by (nonlinear_arith);
    let up = spec_update(s, id, title, text).posts;
    let pg = page_slice(up, page, size);
    assert forall|k: int| 0 <= k < pg.len() && (#[trigger] pg[k]).id == id implies pg[k]
        == (PostView { id, title, text }) by {
        let start = if (page - 1) * size <= up.len() {
            (page - 1) * size
        } else {
            up.len() as int
        };
        assert(pg[k] == up[start + k]);
    }
}

/// The id counter never moves backwards: an insert advances it and takes
/// its value as the new id, update and delete leave it alone. With every
/// row id below the counter, an id once freed by a delete is never
/// assigned again.
pub proof fn lemma_next_id_monotone(s: StoreView, id: int, title: Seq<char>, text: Seq<char>)
    ensures
        spec_insert(s, title, text).next_id == s.next_id + 1,
        inserted_post(s, title, text).id == s.next_id,
        spec_update(s, id, title, text).next_id == s.next_id,
        spec_delete(s, id).next_id == s.next_id,
{
}

/// Removing an id really removes it: no row of the table carries it
/// afterwards (ids are unique, so removing the one found row suffices).
pub proof fn lemma_remove_id_absent(posts: Seq<PostView>, id: int)
    requires
        sorted_by_id(posts),
    ensures
        !contains_id(remove_id(posts, id), id),
{
    if contains_id(posts, id) {
        let i = choose|i: int| 0 <= i < posts.len() && posts[i].id == id;
        let rm = posts.remove(i);
        assert forall|k: int| 0 <= k < rm.len() implies (#[trigger] rm[k]).id != id by {
            if k < i {
                assert(rm[k] == posts[k]);
            } else {
                assert(rm[k] == posts[k + 1]);
            }
        }
    }
}

/// After a delete, no listed page shows the deleted id any more; and the
/// delete of an id nothing carries reports zero affected rows (stated on
/// `PostStore::delete_by_id` itself) while the table is left unchanged.
pub proof fn lemma_delete_then_not_listed(s: StoreView, id: int, page: int, size: int)
    requires
        wf_store(s),
        page >= 1,
        size >= 1,
    ensures
        ({
            let pg = page_slice(spec_delete(s, id).posts, page, size);
            forall|k: int| 0 <= k < pg.len() ==> (#[trigger] pg[k]).id != id
        }),
        !contains_id(spec_delete(s, id).posts, id),
{
    assert(page * size == (page - 1) * size + size) by (nonlinear_arith);
    lemma_remove_id_absent(s.posts, id);
    let del = spec_delete(s, id).posts;
    let pg = page_slice(del, page, size);
    assert forall|k: int| 0 <= k < pg.len() implies (#[trigger] pg[k]).id != id by {
        let start = if (page - 1) * size <= del.len() {
            (page - 1) * size
        } else {
            del.len() as int
        };
        assert(pg[k] == del[start + k]);
        if del[start + k].id == id {
            assert(contains_id(del, id));
        }
    }
}

} // verus!
