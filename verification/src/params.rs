//! The listing endpoint's query parameters and their grammar.
//!
//! A query string is `&`-separated pieces; a piece is a key, optionally
//! followed by `=` and a value. The keys `page` and `posts_per_page` take a
//! positive decimal number; each may appear at most once; every other key is
//! ignored. Anything else — a non-numeric, zero, out-of-range or empty
//! value, or a repeated key — is malformed and a client error.

use vstd::prelude::*;

use crate::errors::ServiceError;

verus! {

/// The listing endpoint's parameters, both optional: the 1-based page to
/// return and how many posts each page holds.
#[derive(Clone, Copy, Debug)]
pub struct Params {
    pub page: Option<usize>,
    pub posts_per_page: Option<usize>,
}

/// Mathematical model of `Params`.
pub ghost struct ParamsView {
    pub page: Option<int>,
    pub posts_per_page: Option<int>,
}

impl View for Params {
    type V = ParamsView;

    open spec fn view(&self) -> ParamsView {
        ParamsView {
            page: match self.page {
                Some(v) => Some(v as int),
                None => None,
            },
            posts_per_page: match self.posts_per_page {
                Some(v) => Some(v as int),
                None => None,
            },
        }
    }
}

/// An ASCII decimal digit.
pub open spec fn is_digit(b: u8) -> bool {
    0x30 <= b <= 0x39
}

/// Every byte of `s` is a decimal digit.
pub open spec fn all_digits(s: Seq<u8>) -> bool {
    forall|i: int| 0 <= i < s.len() ==> is_digit(#[trigger] s[i])
}

/// The number the decimal digit string `s` denotes.
pub open spec fn digits_val(s: Seq<u8>) -> int
    decreases s.len(),
{
    if s.len() == 0 {
        0
    } else {
        10 * digits_val(s.drop_last()) + (s.last() - 0x30)
    }
}

/// A parameter value parses as a positive integer when it is a nonempty
/// digit string whose value is at least 1 and fits the machine's word.
pub open spec fn spec_parse_pos(s: Seq<u8>) -> Option<int> {
    if s.len() >= 1 && all_digits(s) && 1 <= digits_val(s) && digits_val(s) <= usize::MAX {
        Some(digits_val(s))
    } else {
        None
    }
}

/// A path segment parses as a signed integer id when it is an optional
/// minus sign followed by a nonempty digit string whose value fits `i32`.
pub open spec fn spec_parse_i32(s: Seq<u8>) -> Option<int> {
    if s.len() >= 1 && s[0] == 0x2d {
        let d = s.subrange(1, s.len() as int);
        if d.len() >= 1 && all_digits(d) && -digits_val(d) >= i32::MIN {
            Some(-digits_val(d))
        } else {
            None
        }
    } else if s.len() >= 1 && all_digits(s) && digits_val(s) <= i32::MAX {
        Some(digits_val(s))
    } else {
        None
    }
}

/// The position of the first occurrence of `b` in `s`, or `s.len()`.
pub open spec fn first_byte(s: Seq<u8>, b: u8) -> int
    decreases s.len(),
{
    if s.len() == 0 {
        0
    } else if s[0] == b {
        0
    } else {
        1 + first_byte(s.drop_first(), b)
    }
}

/// What `first_byte` finds: a position within bounds, holding `b` unless it
/// is the end, with no earlier occurrence.
pub proof fn lemma_first_byte(s: Seq<u8>, b: u8)
    ensures
        0 <= first_byte(s, b) <= s.len(),
        first_byte(s, b) < s.len() ==> s[first_byte(s, b)] == b,
        forall|j: int| 0 <= j < first_byte(s, b) ==> s[j] != b,
    decreases s.len(),
{
    if s.len() == 0 {
    } else if s[0] == b {
    } else {
        lemma_first_byte(s.drop_first(), b);
        let f = first_byte(s, b);
        assert forall|j: int| 0 <= j < f implies s[j] != b by {
            if j > 0 {
                assert(s.drop_first()[j - 1] == s[j]);
            }
        }
        if f < s.len() {
            assert(s.drop_first()[f - 1] == s[f]);
        }
    }
}

/// The bytes of the key `page`.
pub open spec fn key_page() -> Seq<u8> {
    seq![0x70u8, 0x61u8, 0x67u8, 0x65u8]
}

/// The bytes of the key `posts_per_page`.
pub open spec fn key_posts_per_page() -> Seq<u8> {
    seq![
        0x70u8,
        0x6fu8,
        0x73u8,
        0x74u8,
        0x73u8,
        0x5fu8,
        0x70u8,
        0x65u8,
        0x72u8,
        0x5fu8,
        0x70u8,
        0x61u8,
        0x67u8,
        0x65u8,
    ]
}

/// Folds one `&`-separated piece into the parameters gathered so far.
/// `None` means the piece is malformed.
pub open spec fn apply_piece(acc: ParamsView, piece: Seq<u8>) -> Option<ParamsView> {
    if piece.len() == 0 {
        Some(acc)
    } else {
        let e = first_byte(piece, 0x3du8);
        let key = piece.subrange(0, e);
        let value = if e == piece.len() {
            Seq::<u8>::empty()
        } else {
            piece.subrange(e + 1, piece.len() as int)
        };
        if key == key_page() {
            if acc.page is Some {
                None
            } else {
                match spec_parse_pos(value) {
                    Some(v) => Some(ParamsView { page: Some(v), posts_per_page: acc.posts_per_page }),
                    None => None,
                }
            }
        } else if key == key_posts_per_page() {
            if acc.posts_per_page is Some {
                None
            } else {
                match spec_parse_pos(value) {
                    Some(v) => Some(ParamsView { page: acc.page, posts_per_page: Some(v) }),
                    None => None,
                }
            }
        } else {
            Some(acc)
        }
    }
}

/// Folds the whole query string, piece by piece, into parameters.
pub open spec fn parse_pieces(acc: ParamsView, q: Seq<u8>) -> Option<ParamsView>
    decreases q.len(),
    via parse_pieces_dec
{
    let k = first_byte(q, 0x26u8);
    match apply_piece(acc, q.subrange(0, k)) {
        None => None,
        Some(acc2) => if k == q.len() {
            Some(acc2)
        } else {
            parse_pieces(acc2, q.subrange(k + 1, q.len() as int))
        },
    }
}

#[via_fn]
proof fn parse_pieces_dec(acc: ParamsView, q: Seq<u8>) {
    lemma_first_byte(q, 0x26u8);
}

/// What a query string means: both parameters absent, then each piece
/// applied in order; `None` is a malformed query.
pub open spec fn spec_parse_query(q: Seq<u8>) -> Option<ParamsView> {
    parse_pieces(ParamsView { page: None, posts_per_page: None }, q)
}

/// A parameter that is present lies in `[1, usize::MAX]`.
pub open spec fn valid_params(p: ParamsView) -> bool {
    &&& (p.page matches Some(v) ==> 1 <= v <= usize::MAX)
    &&& (p.posts_per_page matches Some(v) ==> 1 <= v <= usize::MAX)
}

/// Parsing only ever yields valid parameters: a present value came through
/// `spec_parse_pos`, which admits `[1, usize::MAX]` alone.
pub proof fn lemma_parse_pieces_valid(acc: ParamsView, q: Seq<u8>)
    requires
        valid_params(acc),
    ensures
        parse_pieces(acc, q) matches Some(p) ==> valid_params(p),
    decreases q.len(),
{
    lemma_first_byte(q, 0x26u8);
    let k = first_byte(q, 0x26u8);
    match apply_piece(acc, q.subrange(0, k)) {
        None => {},
        Some(acc2) => {
            if k != q.len() {
                lemma_parse_pieces_valid(acc2, q.subrange(k + 1, q.len() as int));
            }
        },
    }
}

/// The requested page: the `page` parameter, or 1.
pub open spec fn spec_page_of(p: ParamsView) -> int {
    match p.page {
        Some(v) => v,
        None => 1,
    }
}

/// The requested page size: the `posts_per_page` parameter, or 25.
pub open spec fn spec_size_of(p: ParamsView) -> int {
    match p.posts_per_page {
        Some(v) => v,
        None => 25,
    }
}

impl Params {
    /// The requested page, defaulting to the first.
    pub fn page_or_default(&self) -> (r: usize)
        ensures
            r as int == spec_page_of(self@),
    {
        match self.page {
            Some(v) => v,
            None => 1,
        }
    }

    /// The requested page size, defaulting to 25 posts per page.
    pub fn posts_per_page_or_default(&self) -> (r: usize)
        ensures
            r as int == spec_size_of(self@),
    {
        match self.posts_per_page {
            Some(v) => v,
            None => 25,
        }
    }
}

/// Nonnegativity of a digit string's value.
proof fn lemma_digits_val_nonneg(s: Seq<u8>)
    requires
        all_digits(s),
    ensures
        digits_val(s) >= 0,
    decreases s.len(),
{
    if s.len() > 0 {
        assert(all_digits(s.drop_last())) by {
            assert(forall|i: int|
                0 <= i < s.len() - 1 ==> s.drop_last()[i] == #[trigger] s[i]);
        }
        lemma_digits_val_nonneg(s.drop_last());
    }
}

/// A digit string's value only grows as digits are appended: the value of a
/// prefix never exceeds the value of the whole.
proof fn lemma_digits_val_prefix(s: Seq<u8>, k: int)
    requires
        all_digits(s),
        0 <= k <= s.len(),
    ensures
        digits_val(s.subrange(0, k)) <= digits_val(s),
    decreases s.len() - k,
{
    if k == s.len() {
        assert(s.subrange(0, k) =~= s);
    } else {
        lemma_digits_val_prefix(s, k + 1);
        let t = s.subrange(0, k + 1);
        assert(t.drop_last() =~= s.subrange(0, k));
        assert(t.last() == s[k]);
        assert(all_digits(s.subrange(0, k))) by {
            assert(forall|i: int|
                0 <= i < k ==> s.subrange(0, k)[i] == #[trigger] s[i]);
        }
        lemma_digits_val_nonneg(s.subrange(0, k));
        assert(digits_val(t) == 10 * digits_val(s.subrange(0, k)) + (s[k] - 0x30));
        assert(digits_val(s.subrange(0, k)) <= digits_val(t));
    }
}

/// Parses a nonempty, all-digit, in-range, positive decimal value.
fn parse_pos(s: &[u8]) -> (r: Option<usize>)
    ensures
        match spec_parse_pos(s@) {
            Some(v) => r == Some(v as usize),
            None => r == None::<usize>,
        },
{
    let n = s.len();
    if n == 0 {
        return None;
    }
    let mut val: usize = 0;
    let mut i: usize = 0;
    while i < n
        invariant
            n == s@.len(),
            0 <= i <= n,
            all_digits(s@.subrange(0, i as int)),
            val as int == digits_val(s@.subrange(0, i as int)),
        decreases n - i,
    {
        let b = s[i];
        if b < 0x30 || b > 0x39 {
            return None;
        }
        let d = (b - 0x30) as usize;
        let ghost pre = s@.subrange(0, i as int);
        proof {
            assert(s@.subrange(0, i + 1).drop_last() =~= pre);
            assert(s@.subrange(0, i + 1).last() == s@[i as int]);
        }
        let m = match val.checked_mul(10) {
            Some(m) => m,
            None => {
                proof {
                    assert(all_digits(s@.subrange(0, i + 1)));
                    assert(digits_val(s@.subrange(0, i + 1)) == 10 * (val as int) + d);
                    lemma_digits_val_nonneg(s@.subrange(0, i + 1));
                    if all_digits(s@) {
                        lemma_digits_val_prefix(s@, i + 1);
                        assert(digits_val(s@) > usize::MAX);
                    }
                }
                return None;
            },
        };
        let v2 = match m.checked_add(d) {
            Some(v2) => v2,
            None => {
                proof {
                    assert(all_digits(s@.subrange(0, i + 1)));
                    assert(digits_val(s@.subrange(0, i + 1)) == 10 * (val as int) + d);
                    if all_digits(s@) {
                        lemma_digits_val_prefix(s@, i + 1);
                        assert(digits_val(s@) > usize::MAX);
                    }
                }
                return None;
            },
        };
        proof {
            assert(all_digits(s@.subrange(0, i + 1)));
            assert(digits_val(s@.subrange(0, i + 1)) == 10 * (val as int) + d);
        }
        val = v2;
        i = i + 1;
    }
    proof {
        assert(s@.subrange(0, n as int) =~= s@);
    }
    if val == 0 {
        return None;
    }
    Some(val)
}

/// Parses a path segment as a signed integer id. A malformed segment —
/// and nothing else — is rejected as a `Validation` error.
pub fn parse_path_id(s: &[u8]) -> (r: Result<i32, ServiceError>)
    ensures
        match spec_parse_i32(s@) {
            Some(v) => r matches Ok(id) && id as int == v,
            None => r matches Err(e) && e == ServiceError::Validation,
        },
{
    let n = s.len();
    if n == 0 {
        return Err(ServiceError::Validation);
    }
    let neg = s[0] == 0x2d;
    let start: usize = if neg {
        1
    } else {
        0
    };
    if start == n {
        return Err(ServiceError::Validation);
    }
    let ghost d = s@.subrange(start as int, n as int);
    let mut val: u64 = 0;
    let mut i: usize = start;
    while i < n
        invariant
            n == s@.len(),
            start <= i <= n,
            start < n,
            (if neg {
                start == 1 && s@[0] == 0x2d
            } else {
                start == 0 && (n > 0 ==> s@[0] != 0x2d)
            }),
            d == s@.subrange(start as int, n as int),
            all_digits(s@.subrange(start as int, i as int)),
            val as int == digits_val(s@.subrange(start as int, i as int)),
            val <= 0x8000_0000,
        decreases n - i,
    {
        let b = s[i];
        if b < 0x30 || b > 0x39 {
            proof {
                if neg {
                    assert(d[i - 1] == s@[i as int]);
                    assert(!is_digit(d[i - 1]));
                    assert(!all_digits(d));
                } else {
                    assert(!is_digit(s@[i as int]));
                    assert(!all_digits(s@));
                }
                assert(spec_parse_i32(s@) is None);
            }
            return Err(ServiceError::Validation);
        }
        let ghost pre = s@.subrange(start as int, i as int);
        proof {
            assert(s@.subrange(start as int, i + 1).drop_last() =~= pre);
            assert(s@.subrange(start as int, i + 1).last() == s@[i as int]);
        }
        val = 10 * val + ((b - 0x30) as u64);
        i = i + 1;
        if val > 0x8000_0000 {
            proof {
                let done = s@.subrange(start as int, i as int);
                assert(all_digits(done));
                assert(d.subrange(0, i - start) =~= done);
                if all_digits(d) {
                    lemma_digits_val_prefix(d, i - start);
                    assert(digits_val(d) > 0x8000_0000);
                }
                if !neg {
                    assert(d =~= s@);
                }
                assert(spec_parse_i32(s@) is None);
            }
            return Err(ServiceError::Validation);
        }
    }
    proof {
        assert(s@.subrange(start as int, n as int) =~= d);
    }
    if neg {
        let id = (-(val as i64)) as i32;
        Ok(id)
    } else {
        if val > 0x7fff_ffff {
            proof {
                assert(s@.subrange(0, n as int) =~= s@);
                assert(spec_parse_i32(s@) is None);
            }
            return Err(ServiceError::Validation);
        }
        proof {
            assert(s@.subrange(0, n as int) =~= s@);
        }
        Ok(val as i32)
    }
}

/// The position of the first occurrence of `b` in `s`, or `s.len()`.
fn find_byte(s: &[u8], b: u8) -> (r: usize)
    ensures
        r as int == first_byte(s@, b),
        r <= s@.len(),
        r < s@.len() ==> s@[r as int] == b,
        forall|j: int| 0 <= j < r ==> s@[j] != b,
{
    let n = s.len();
    let mut i: usize = 0;
    while i < n
        invariant
            n == s@.len(),
            0 <= i <= n,
            forall|j: int| 0 <= j < i ==> s@[j] != b,
        decreases n - i,
    {
        if s[i] == b {
            proof {
                lemma_first_byte(s@, b);
                let f = first_byte(s@, b);
                if f < i as int {
                    assert(s@[f] == b);
                }
                if f > i as int {
                    assert(s@[i as int] != b);
                }
            }
            return i;
        }
        i = i + 1;
    }
    proof {
        lemma_first_byte(s@, b);
        let f = first_byte(s@, b);
        if f < n as int {
            assert(s@[f] == b);
        }
    }
    n
}

/// Whether two byte strings hold the same bytes.
fn bytes_eq(a: &[u8], b: &[u8]) -> (r: bool)
    ensures
        r == (a@ == b@),
{
    let n = a.len();
    if n != b.len() {
        return false;
    }
    let mut i: usize = 0;
    while i < n
        invariant
            n == a@.len(),
            n == b@.len(),
            0 <= i <= n,
            forall|j: int| 0 <= j < i ==> a@[j] == b@[j],
        decreases n - i,
    {
        if a[i] != b[i] {
            return false;
        }
        i = i + 1;
    }
    proof {
        assert(a@ =~= b@);
    }
    true
}

/// The bytes of the key `page`, for comparison against an incoming key.
fn key_page_bytes() -> (r: Vec<u8>)
    ensures
        r@ == key_page(),
{
    let mut v: Vec<u8> = Vec::new();
    v.push(0x70u8);
    v.push(0x61u8);
    v.push(0x67u8);
    v.push(0x65u8);
    proof {
        assert(v@ =~= key_page());
    }
    v
}

/// The bytes of the key `posts_per_page`, for comparison against an
/// incoming key.
fn key_posts_per_page_bytes() -> (r: Vec<u8>)
    ensures
        r@ == key_posts_per_page(),
{
    let mut v: Vec<u8> = Vec::new();
    v.push(0x70u8);
    v.push(0x6fu8);
    v.push(0x73u8);
    v.push(0x74u8);
    v.push(0x73u8);
    v.push(0x5fu8);
    v.push(0x70u8);
    v.push(0x65u8);
    v.push(0x72u8);
    v.push(0x5fu8);
    v.push(0x70u8);
    v.push(0x61u8);
    v.push(0x67u8);
    v.push(0x65u8);
    proof {
        assert(v@ =~= key_posts_per_page());
    }
    v
}

/// Folds one piece into the parameters gathered so far.
fn apply_piece_exec(acc: Params, piece: &[u8]) -> (r: Option<Params>)
    ensures
        match apply_piece(acc@, piece@) {
            Some(v) => r matches Some(p) && p@ == v,
            None => r is None,
        },
{
    if piece.len() == 0 {
        return Some(acc);
    }
    let e = find_byte(piece, 0x3du8);
    let key = vstd::slice::slice_subrange(piece, 0, e);
    let value: &[u8] = if e == piece.len() {
        vstd::slice::slice_subrange(piece, e, e)
    } else {
        vstd::slice::slice_subrange(piece, e + 1, piece.len())
    };
    proof {
        if e == piece@.len() {
            assert(value@ =~= Seq::<u8>::empty());
        }
    }
    let kp = key_page_bytes();
    let kppp = key_posts_per_page_bytes();
    if bytes_eq(key, kp.as_slice()) {
        if acc.page.is_some() {
            return None;
        }
        match parse_pos(value) {
            Some(v) => Some(Params { page: Some(v), posts_per_page: acc.posts_per_page }),
            None => None,
        }
    } else if bytes_eq(key, kppp.as_slice()) {
        if acc.posts_per_page.is_some() {
            return None;
        }
        match parse_pos(value) {
            Some(v) => Some(Params { page: acc.page, posts_per_page: Some(v) }),
            None => None,
        }
    } else {
        Some(acc)
    }
}

/// Folds the whole query string, piece by piece, into parameters.
fn parse_pieces_exec(acc: Params, q: &[u8]) -> (r: Option<Params>)
    ensures
        match parse_pieces(acc@, q@) {
            Some(v) => r matches Some(p) && p@ == v,
            None => r is None,
        },
    decreases q@.len(),
{
    let k = find_byte(q, 0x26u8);
    let piece = vstd::slice::slice_subrange(q, 0, k);
    match apply_piece_exec(acc, piece) {
        None => None,
        Some(acc2) => {
            if k == q.len() {
                Some(acc2)
            } else {
                let rest = vstd::slice::slice_subrange(q, k + 1, q.len());
                parse_pieces_exec(acc2, rest)
            }
        },
    }
}

/// Parses the raw query string of the listing endpoint. A malformed query
/// — and nothing else — is rejected as a `Validation` error; an accepted
/// query yields parameters that are positive and fit the machine's word.
pub fn parse_query(q: &[u8]) -> (r: Result<Params, ServiceError>)
    ensures
        match spec_parse_query(q@) {
            Some(v) => r matches Ok(p) && p@ == v,
            None => r matches Err(e) && e == ServiceError::Validation,
        },
{
    let acc = Params { page: None, posts_per_page: None };
    match parse_pieces_exec(acc, q) {
        Some(p) => Ok(p),
        None => Err(ServiceError::Validation),
    }
}

} // verus!
