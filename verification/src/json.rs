//! Verified JSON rendering of responses: a post as an object with the
//! fields `id`, `title`, `text`, a listing as an array of such objects.
//! The rendering is specified byte for byte over the entity's model, so
//! the HTTP layer only ships the bytes.

use vstd::prelude::*;
use vstd::utf8::encode_utf8;

use crate::handlers::Body;
use crate::post::{posts_view, Post, PostView};

verus! {

/// The decimal digits of `n`, most significant first; empty when `n <= 0`.
pub open spec fn spec_dec_digits(n: int) -> Seq<u8>
    decreases n,
{
    if n <= 0 {
        Seq::empty()
    } else {
        spec_dec_digits(n / 10).push((0x30 + n % 10) as u8)
    }
}

/// The decimal rendering of `n`: its digits, with a leading minus sign for
/// a negative value and a single `0` for zero.
pub open spec fn spec_dec_of(n: int) -> Seq<u8> {
    if n == 0 {
        seq![0x30u8]
    } else if n > 0 {
        spec_dec_digits(n)
    } else {
        seq![0x2du8] + spec_dec_digits(-n)
    }
}

/// The lower-case hex digit for `d` in `[0, 16)`.
pub open spec fn hex_digit(d: int) -> u8 {
    if d < 10 {
        (0x30 + d) as u8
    } else {
        (0x57 + d) as u8
    }
}

/// The JSON escape of one byte of UTF-8 text: quote and backslash get a
/// backslash, a control byte becomes a `\u00` escape, and every other
/// byte stands as it is (the bytes of a multi-byte character have their
/// high bit set and pass through unchanged).
pub open spec fn esc_byte(b: u8) -> Seq<u8> {
    if b == 0x22 {
        seq![0x5cu8, 0x22u8]
    } else if b == 0x5c {
        seq![0x5cu8, 0x5cu8]
    } else if b < 0x20 {
        seq![0x5cu8, 0x75u8, 0x30u8, 0x30u8, hex_digit(b as int / 16), hex_digit(b as int % 16)]
    } else {
        seq![b]
    }
}

/// The whole text escaped, byte by byte.
pub open spec fn spec_escape(s: Seq<u8>) -> Seq<u8>
    decreases s.len(),
{
    if s.len() == 0 {
        Seq::empty()
    } else {
        spec_escape(s.drop_last()) + esc_byte(s.last())
    }
}

/// The bytes `{"id":` that open a post object.
pub open spec fn lit_obj_id() -> Seq<u8> {
    seq![0x7bu8, 0x22u8, 0x69u8, 0x64u8, 0x22u8, 0x3au8]
}

/// The bytes `,"title":"` between the id and the title.
pub open spec fn lit_title() -> Seq<u8> {
    seq![0x2cu8, 0x22u8, 0x74u8, 0x69u8, 0x74u8, 0x6cu8, 0x65u8, 0x22u8, 0x3au8, 0x22u8]
}

/// The bytes `","text":"` between the title and the text.
pub open spec fn lit_text() -> Seq<u8> {
    seq![0x22u8, 0x2cu8, 0x22u8, 0x74u8, 0x65u8, 0x78u8, 0x74u8, 0x22u8, 0x3au8, 0x22u8]
}

/// The bytes `"}` that close a post object.
pub open spec fn lit_close() -> Seq<u8> {
    seq![0x22u8, 0x7du8]
}

/// The JSON object a post is rendered as:
/// `{"id":N,"title":"...","text":"..."}` with both texts escaped.
pub open spec fn spec_post_json(p: PostView) -> Seq<u8> {
    lit_obj_id() + spec_dec_of(p.id) + lit_title() + spec_escape(encode_utf8(p.title)) + lit_text()
        + spec_escape(encode_utf8(p.text)) + lit_close()
}

/// The comma-separated object renderings of the listed posts.
pub open spec fn spec_posts_json_items(ps: Seq<PostView>) -> Seq<u8>
    decreases ps.len(),
{
    if ps.len() == 0 {
        Seq::empty()
    } else if ps.len() == 1 {
        spec_post_json(ps[0])
    } else {
        spec_posts_json_items(ps.drop_last()) + seq![0x2cu8] + spec_post_json(ps.last())
    }
}

/// The JSON array a listing is rendered as.
pub open spec fn spec_posts_json(ps: Seq<PostView>) -> Seq<u8> {
    seq![0x5bu8] + spec_posts_json_items(ps) + seq![0x5du8]
}

/// Appends the given bytes.
fn push_bytes(out: &mut Vec<u8>, s: &[u8])
    ensures
        final(out)@ == old(out)@ + s@,
{
    let n = s.len();
    let mut i: usize = 0;
    while i < n
        invariant
            n == s@.len(),
            0 <= i <= n,
            out@ == old(out)@ + s@.subrange(0, i as int),
        decreases n - i,
    {
        out.push(s[i]);
        proof {
            assert(out@ =~= old(out)@ + s@.subrange(0, i + 1));
        }
        i = i + 1;
    }
    proof {
        assert(s@.subrange(0, n as int) =~= s@);
    }
}

/// Appends the decimal digits of `n` (nothing when `n` is zero).
fn push_dec_digits(out: &mut Vec<u8>, n: u64)
    ensures
        final(out)@ == old(out)@ + spec_dec_digits(n as int),
    decreases n,
{
    if n == 0 {
        proof {
            assert(out@ =~= old(out)@ + spec_dec_digits(0));
        }
    } else {
        push_dec_digits(out, n / 10);
        let d: u8 = 0x30 + (n % 10) as u8;
        out.push(d);
        proof {
            assert(out@ =~= old(out)@ + spec_dec_digits(n as int));
        }
    }
}

/// Appends the decimal rendering of `v`.
fn push_dec_i32(out: &mut Vec<u8>, v: i32)
    ensures
        final(out)@ == old(out)@ + spec_dec_of(v as int),
{
    if v == 0 {
        out.push(0x30);
        proof {
            assert(out@ =~= old(out)@ + spec_dec_of(0));
        }
    } else if v > 0 {
        push_dec_digits(out, v as u64);
    } else {
        out.push(0x2d);
        let m = -(v as i64);
        push_dec_digits(out, m as u64);
        proof {
            assert(out@ =~= old(out)@ + spec_dec_of(v as int));
        }
    }
}

/// Appends the given text bytes, JSON-escaped.
fn push_escaped(out: &mut Vec<u8>, s: &[u8])
    ensures
        final(out)@ == old(out)@ + spec_escape(s@),
{
    let n = s.len();
    let mut i: usize = 0;
    while i < n
        invariant
            n == s@.len(),
            0 <= i <= n,
            out@ == old(out)@ + spec_escape(s@.subrange(0, i as int)),
        decreases n - i,
    {
        let b = s[i];
        let ghost pre = s@.subrange(0, i as int);
        if b == 0x22 {
            out.push(0x5c);
            out.push(0x22);
        } else if b == 0x5c {
            out.push(0x5c);
            out.push(0x5c);
        } else if b < 0x20 {
            out.push(0x5c);
            out.push(0x75);
            out.push(0x30);
            out.push(0x30);
            let hi = b / 16;
            let lo = b % 16;
            let hd: u8 = if hi < 10 {
                0x30 + hi
            } else {
                0x57 + hi
            };
            let ld: u8 = if lo < 10 {
                0x30 + lo
            } else {
                0x57 + lo
            };
            out.push(hd);
            out.push(ld);
        } else {
            out.push(b);
        }
        proof {
            assert(s@.subrange(0, i + 1).drop_last() =~= pre);
            assert(s@.subrange(0, i + 1).last() == b);
            assert(out@ =~= old(out)@ + spec_escape(s@.subrange(0, i + 1)));
        }
        i = i + 1;
    }
    proof {
        assert(s@.subrange(0, n as int) =~= s@);
    }
}

/// The bytes `{"id":`.
fn lit_obj_id_bytes() -> (r: Vec<u8>)
    ensures
        r@ == lit_obj_id(),
{
    let mut v: Vec<u8> = Vec::new();
    v.push(0x7bu8);
    v.push(0x22u8);
    v.push(0x69u8);
    v.push(0x64u8);
    v.push(0x22u8);
    v.push(0x3au8);
    proof {
        assert(v@ =~= lit_obj_id());
    }
    v
}

/// The bytes `,"title":"`.
fn lit_title_bytes() -> (r: Vec<u8>)
    ensures
        r@ == lit_title(),
{
    let mut v: Vec<u8> = Vec::new();
    v.push(0x2cu8);
    v.push(0x22u8);
    v.push(0x74u8);
    v.push(0x69u8);
    v.push(0x74u8);
    v.push(0x6cu8);
    v.push(0x65u8);
    v.push(0x22u8);
    v.push(0x3au8);
    v.push(0x22u8);
    proof {
        assert(v@ =~= lit_title());
    }
    v
}

/// The bytes `","text":"`.
fn lit_text_bytes() -> (r: Vec<u8>)
    ensures
        r@ == lit_text(),
{
    let mut v: Vec<u8> = Vec::new();
    v.push(0x22u8);
    v.push(0x2cu8);
    v.push(0x22u8);
    v.push(0x74u8);
    v.push(0x65u8);
    v.push(0x78u8);
    v.push(0x74u8);
    v.push(0x22u8);
    v.push(0x3au8);
    v.push(0x22u8);
    proof {
        assert(v@ =~= lit_text());
    }
    v
}

/// The bytes `"}`.
fn lit_close_bytes() -> (r: Vec<u8>)
    ensures
        r@ == lit_close(),
{
    let mut v: Vec<u8> = Vec::new();
    v.push(0x22u8);
    v.push(0x7du8);
    proof {
        assert(v@ =~= lit_close());
    }
    v
}

/// Renders one post as its JSON object.
pub fn render_post_json(p: &Post) -> (r: Vec<u8>)
    ensures
        r@ == spec_post_json(p@),
{
    let mut out: Vec<u8> = Vec::new();
    let l1 = lit_obj_id_bytes();
    push_bytes(&mut out, l1.as_slice());
    push_dec_i32(&mut out, p.id);
    let l2 = lit_title_bytes();
    push_bytes(&mut out, l2.as_slice());
    push_escaped(&mut out, p.title.as_str().as_bytes());
    let l3 = lit_text_bytes();
    push_bytes(&mut out, l3.as_slice());
    push_escaped(&mut out, p.text.as_str().as_bytes());
    let l4 = lit_close_bytes();
    push_bytes(&mut out, l4.as_slice());
    proof {
        assert(out@ =~= spec_post_json(p@));
    }
    out
}

/// Renders a listing as its JSON array.
pub fn render_posts_json(ps: &Vec<Post>) -> (r: Vec<u8>)
    ensures
        r@ == spec_posts_json(posts_view(ps@)),
{
    let mut out: Vec<u8> = Vec::new();
    out.push(0x5bu8);
    let n = ps.len();
    let mut i: usize = 0;
    while i < n
        invariant
            n == ps@.len(),
            0 <= i <= n,
            out@ == seq![0x5bu8] + spec_posts_json_items(posts_view(ps@).subrange(0, i as int)),
        decreases n - i,
    {
        if i > 0 {
            out.push(0x2cu8);
        }
        let pj = render_post_json(&ps[i]);
        push_bytes(&mut out, pj.as_slice());
        proof {
            let whole = posts_view(ps@);
            assert(whole.subrange(0, i + 1).drop_last() =~= whole.subrange(0, i as int));
            assert(whole.subrange(0, i + 1).last() == ps@[i as int]@);
            assert(out@ =~= seq![0x5bu8] + spec_posts_json_items(whole.subrange(0, i + 1)));
        }
        i = i + 1;
    }
    out.push(0x5du8);
    proof {
        assert(posts_view(ps@).subrange(0, n as int) =~= posts_view(ps@));
        assert(out@ =~= spec_posts_json(posts_view(ps@)));
    }
    out
}

/// Renders a response body as the bytes the HTTP layer ships: nothing for
/// an empty body, one object, or one array.
pub fn render_body(b: &Body) -> (r: Vec<u8>)
    ensures
        b is Empty ==> r@ == Seq::<u8>::empty(),
        b matches Body::One(p) ==> r@ == spec_post_json(p@),
        b matches Body::Many(v) ==> r@ == spec_posts_json(posts_view(v@)),
{
    match b {
        Body::Empty => Vec::new(),
        Body::One(p) => render_post_json(p),
        Body::Many(v) => render_posts_json(v),
    }
}

} // verus!
