//! Byte-level text scanning: ASCII lowering, substring search, prefix and
//! suffix tests, and string equality.
//!
//! Contracts are stated over `spec_bytes`, the UTF-8 bytes of a string's
//! view, so that every scan is pinned to the exact byte sequence examined.

use vstd::prelude::*;
use vstd::slice::slice_subrange;
use vstd::string::StringSliceAdditionalSpecFns;

verus! {

/// ASCII lower case of one byte; other bytes pass through.
pub open spec fn spec_lower_byte(b: u8) -> u8 {
    if 65 <= b && b <= 90 {
        (b + 32) as u8
    } else {
        b
    }
}

/// ASCII lower case of a byte sequence.
pub open spec fn spec_lower_bytes(s: Seq<u8>) -> Seq<u8> {
    s.map_values(|b: u8| spec_lower_byte(b))
}

/// The needle `n` occurs in `h` at position `i`.
pub open spec fn match_at(h: Seq<u8>, n: Seq<u8>, i: int) -> bool {
    &&& 0 <= i
    &&& i + n.len() <= h.len()
    &&& forall|j: int| 0 <= j < n.len() ==> h[i + j] == n[j]
}

/// The needle `n` occurs somewhere in `h`.
pub open spec fn contains_bytes(h: Seq<u8>, n: Seq<u8>) -> bool {
    exists|i: int| match_at(h, n, i)
}

/// ASCII lower case of a byte slice.
pub fn lower_bytes(s: &[u8]) -> (r: Vec<u8>)
    ensures
        r@ == spec_lower_bytes(s@),
{
    let n = s.len();
    let mut out: Vec<u8> = Vec::new();
    let mut i: usize = 0;
    while i < n
        invariant
            n == s@.len(),
            i <= n,
            out@.len() == i,
            forall|k: int| 0 <= k < i ==> out@[k] == spec_lower_byte(s@[k]),
        decreases n - i,
    {
        let b = s[i];
        if 65 <= b && b <= 90 {
            out.push(b + 32);
        } else {
            out.push(b);
        }
        i = i + 1;
    }
    proof {
        assert(out@ =~= spec_lower_bytes(s@));
    }
    out
}

fn match_at_exec(h: &[u8], n: &[u8], i: usize) -> (r: bool)
    requires
        i + n@.len() <= h@.len(),
    ensures
        r == match_at(h@, n@, i as int),
{
    let len = n.len();
    let hl = h.len();
    let mut j: usize = 0;
    while j < len
        invariant
            len == n@.len(),
            hl == h@.len(),
            j <= len,
            i + len <= hl,
            forall|k: int| 0 <= k < j ==> h@[i + k] == n@[k],
        decreases len - j,
    {
        if h[i + j] != n[j] {
            return false;
        }
        j = j + 1;
    }
    true
}

/// Position of the first occurrence of `n` in `h`, if any.
pub fn find_bytes(h: &[u8], n: &[u8]) -> (r: Option<usize>)
    ensures
        match r {
            Some(i) => match_at(h@, n@, i as int) && forall|k: int|
                0 <= k < i ==> !match_at(h@, n@, k),
            None => !contains_bytes(h@, n@),
        },
{
    let hn = h.len();
    let nn = n.len();
    if nn > hn {
        return None;
    }
    let last = hn - nn;
    let mut i: usize = 0;
    while i <= last
        invariant
            hn == h@.len(),
            nn == n@.len(),
            last == hn - nn,
            i <= last + 1,
            forall|k: int| 0 <= k < i ==> !match_at(h@, n@, k),
        decreases last + 1 - i,
    {
        if match_at_exec(h, n, i) {
            return Some(i);
        }
        i = i + 1;
    }
    None
}

/// Index of the first occurrence of `n` in `h`, or -1.
pub open spec fn first_match(h: Seq<u8>, n: Seq<u8>) -> int
    decreases h.len(),
{
    if match_at(h, n, 0) {
        0
    } else if h.len() == 0 {
        -1
    } else {
        let r = first_match(h.drop_first(), n);
        if r < 0 {
            -1
        } else {
            r + 1
        }
    }
}

proof fn lemma_match_shift(h: Seq<u8>, n: Seq<u8>, k: int)
    requires
        h.len() > 0,
        0 <= k,
    ensures
        match_at(h.drop_first(), n, k) == match_at(h, n, k + 1),
{
    assert forall|j: int| 0 <= j < h.len() - 1 implies h.drop_first()[j] == h[j + 1] by {}
    if match_at(h.drop_first(), n, k) {
        assert forall|j: int| 0 <= j < n.len() implies h[k + 1 + j] == n[j] by {
            assert(h.drop_first()[k + j] == n[j]);
        }
    }
    if match_at(h, n, k + 1) {
        assert forall|j: int| 0 <= j < n.len() implies h.drop_first()[k + j] == n[j] by {
            assert(h[k + 1 + j] == n[j]);
        }
    }
}

proof fn lemma_first_match_none(h: Seq<u8>, n: Seq<u8>)
    requires
        !contains_bytes(h, n),
    ensures
        first_match(h, n) == -1,
    decreases h.len(),
{
    assert(!match_at(h, n, 0));
    if h.len() > 0 {
        assert(!contains_bytes(h.drop_first(), n)) by {
            if contains_bytes(h.drop_first(), n) {
                let k = choose|k: int| match_at(h.drop_first(), n, k);
                lemma_match_shift(h, n, k);
                assert(match_at(h, n, k + 1));
            }
        }
        lemma_first_match_none(h.drop_first(), n);
    }
}

proof fn lemma_first_match_at(h: Seq<u8>, n: Seq<u8>, i: int)
    requires
        match_at(h, n, i),
        forall|k: int| 0 <= k < i ==> !match_at(h, n, k),
    ensures
        first_match(h, n) == i,
    decreases h.len(),
{
    if i == 0 {
    } else {
        assert(!match_at(h, n, 0));
        assert(h.len() > 0);
        lemma_match_shift(h, n, i - 1);
        assert forall|k: int| 0 <= k < i - 1 implies !match_at(h.drop_first(), n, k) by {
            lemma_match_shift(h, n, k);
        }
        lemma_first_match_at(h.drop_first(), n, i - 1);
    }
}

/// Find the first occurrence of `n` in `h`, as the `first_match` position.
pub fn find_first_match(h: &[u8], n: &[u8]) -> (r: Option<usize>)
    ensures
        match r {
            Some(i) => first_match(h@, n@) == i && match_at(h@, n@, i as int),
            None => first_match(h@, n@) == -1,
        },
{
    match find_bytes(h, n) {
        Some(i) => {
            proof {
                lemma_first_match_at(h@, n@, i as int);
            }
            Some(i)
        }
        None => {
            proof {
                lemma_first_match_none(h@, n@);
            }
            None
        }
    }
}

/// Whether `n` occurs in `h`.
pub fn contains_sub(h: &[u8], n: &[u8]) -> (r: bool)
    ensures
        r == contains_bytes(h@, n@),
{
    match find_bytes(h, n) {
        Some(_) => true,
        None => false,
    }
}

/// Whether `h` begins with `n`.
pub fn starts_with_bytes(h: &[u8], n: &[u8]) -> (r: bool)
    ensures
        r == (n@.len() <= h@.len() && match_at(h@, n@, 0)),
{
    if n.len() > h.len() {
        return false;
    }
    match_at_exec(h, n, 0)
}

/// Whether `h` ends with `n`.
pub fn ends_with_bytes(h: &[u8], n: &[u8]) -> (r: bool)
    ensures
        r == (n@.len() <= h@.len() && match_at(h@, n@, h@.len() - n@.len())),
{
    if n.len() > h.len() {
        return false;
    }
    match_at_exec(h, n, h.len() - n.len())
}

/// Byte-wise equality of two slices.
pub fn bytes_eq(a: &[u8], b: &[u8]) -> (r: bool)
    ensures
        r == (a@ == b@),
{
    let n = a.len();
    if n != b.len() {
        proof {
            assert(a@.len() != b@.len());
        }
        return false;
    }
    let mut i: usize = 0;
    while i < n
        invariant
            n == a@.len(),
            n == b@.len(),
            i <= n,
            forall|k: int| 0 <= k < i ==> a@[k] == b@[k],
        decreases n - i,
    {
        if a[i] != b[i] {
            return false;
        }
        i = i + 1;
    }
    proof {
        assert(a@ =~= b@);
    }
    true
}

/// Whether two strings hold the same bytes.
pub fn str_eq(a: &str, b: &str) -> (r: bool)
    ensures
        r == (a.spec_bytes() == b.spec_bytes()),
{
    bytes_eq(a.as_bytes(), b.as_bytes())
}

/// Whether the bytes of `h` contain the bytes of `n`.
pub fn str_contains(h: &str, n: &str) -> (r: bool)
    ensures
        r == contains_bytes(h.spec_bytes(), n.spec_bytes()),
{
    contains_sub(h.as_bytes(), n.as_bytes())
}

/// Whether the bytes of `h` begin with the bytes of `n`.
pub fn str_starts_with(h: &str, n: &str) -> (r: bool)
    ensures
        r == (n.spec_bytes().len() <= h.spec_bytes().len() && match_at(
            h.spec_bytes(),
            n.spec_bytes(),
            0,
        )),
{
    starts_with_bytes(h.as_bytes(), n.as_bytes())
}

/// Whether the bytes of `h` end with the bytes of `n`.
pub fn str_ends_with(h: &str, n: &str) -> (r: bool)
    ensures
        r == (n.spec_bytes().len() <= h.spec_bytes().len() && match_at(
            h.spec_bytes(),
            n.spec_bytes(),
            h.spec_bytes().len() - n.spec_bytes().len(),
        )),
{
    ends_with_bytes(h.as_bytes(), n.as_bytes())
}

/// An ASCII whitespace byte: tab, line feed, vertical tab, form feed,
/// carriage return or space.
pub open spec fn is_ws(b: u8) -> bool {
    b == 9 || b == 10 || b == 11 || b == 12 || b == 13 || b == 32
}

/// The sequence with ASCII whitespace removed from both ends.
pub open spec fn spec_trim(s: Seq<u8>) -> Seq<u8>
    decreases s.len(),
{
    if s.len() > 0 && is_ws(s[0]) {
        spec_trim(s.drop_first())
    } else if s.len() > 0 && is_ws(s.last()) {
        spec_trim(s.drop_last())
    } else {
        s
    }
}

pub fn trim_ascii<'a>(s: &'a [u8]) -> (r: &'a [u8])
    ensures
        r@ == spec_trim(s@),
    decreases s@.len(),
{
    let n = s.len();
    if n > 0 && {
        let b = s[0];
        b == 9 || b == 10 || b == 11 || b == 12 || b == 13 || b == 32
    } {
        let rest = slice_subrange(s, 1, n);
        proof {
            assert(rest@ =~= s@.drop_first());
        }
        trim_ascii(rest)
    } else if n > 0 && {
        let b = s[n - 1];
        b == 9 || b == 10 || b == 11 || b == 12 || b == 13 || b == 32
    } {
        let rest = slice_subrange(s, 0, n - 1);
        proof {
            assert(rest@ =~= s@.drop_last());
        }
        trim_ascii(rest)
    } else {
        s
    }
}

} // verus!
