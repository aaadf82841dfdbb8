//! Byte-level text primitives shared by the stop-sequence, loader and chat logic.
//!
//! Rust's `str` operations (`find`, `contains`, `starts_with`, slicing) work on the
//! UTF-8 bytes of a string, so every contract here speaks of `encode_utf8(s@)`.
use vstd::prelude::*;
use vstd::string::*;
use vstd::utf8::*;

verus! {

broadcast use vstd::utf8::group_utf8_lib;

/// `needle` occurs in `hay` starting at byte `i`.
pub open spec fn occurs_at(hay: Seq<u8>, needle: Seq<u8>, i: int) -> bool {
    &&& 0 <= i
    &&& i + needle.len() <= hay.len()
    &&& hay.subrange(i, i + needle.len()) == needle
}

/// The first byte position at or after `start` where `needle` occurs in `hay`.
pub open spec fn find_from(hay: Seq<u8>, needle: Seq<u8>, start: int) -> Option<int>
    decreases hay.len() + 1 - start,
{
    if start < 0 || start + needle.len() > hay.len() {
        None
    } else if occurs_at(hay, needle, start) {
        Some(start)
    } else {
        find_from(hay, needle, start + 1)
    }
}

/// The first byte position where `needle` occurs in `hay` (what `str::find` returns).
pub open spec fn first_occurrence(hay: Seq<u8>, needle: Seq<u8>) -> Option<int> {
    find_from(hay, needle, 0)
}

/// `hay` begins with `prefix`.
pub open spec fn has_prefix(hay: Seq<u8>, prefix: Seq<u8>) -> bool {
    prefix.len() <= hay.len() && hay.subrange(0, prefix.len() as int) == prefix
}

/// `hay` ends with `suffix`.
pub open spec fn has_suffix(hay: Seq<u8>, suffix: Seq<u8>) -> bool {
    suffix.len() <= hay.len() && hay.subrange(hay.len() - suffix.len(), hay.len() as int)
        == suffix
}

/// What `find_from` returns, stated without recursion.
pub proof fn lemma_find_from(hay: Seq<u8>, needle: Seq<u8>, start: int)
    requires
        0 <= start,
    ensures
        match find_from(hay, needle, start) {
            Some(i) => start <= i && occurs_at(hay, needle, i) && forall|j: int|
                start <= j < i ==> !occurs_at(hay, needle, j),
            None => forall|j: int| start <= j ==> !occurs_at(hay, needle, j),
        },
    decreases hay.len() + 1 - start,
{
    if start + needle.len() > hay.len() {
    } else if occurs_at(hay, needle, start) {
    } else {
        lemma_find_from(hay, needle, start + 1);
    }
}

/// A match found by `first_occurrence` is the smallest one.
pub proof fn lemma_first_occurrence(hay: Seq<u8>, needle: Seq<u8>)
    ensures
        match first_occurrence(hay, needle) {
            Some(i) => occurs_at(hay, needle, i) && forall|j: int|
                0 <= j < i ==> !occurs_at(hay, needle, j),
            None => forall|j: int| !occurs_at(hay, needle, j),
        },
{
    lemma_find_from(hay, needle, 0);
}

/// The first byte of non-empty UTF-8 text starts a character.
pub proof fn lemma_first_byte_not_continuation(bytes: Seq<u8>)
    requires
        valid_utf8(bytes),
        bytes.len() > 0,
    ensures
        !is_continuation_byte(bytes[0]),
{
    assert(is_char_boundary(bytes, 0));
    is_char_boundary_iff_not_is_continuation_byte(bytes, 0);
}

/// A place where non-empty valid UTF-8 text occurs inside valid UTF-8 text is a
/// character boundary.
pub proof fn lemma_occurrence_is_boundary(hay: Seq<u8>, needle: Seq<u8>, i: int)
    requires
        valid_utf8(hay),
        valid_utf8(needle),
        needle.len() > 0,
        occurs_at(hay, needle, i),
    ensures
        is_char_boundary(hay, i),
{
    lemma_first_byte_not_continuation(needle);
    assert(hay[i] == hay.subrange(i, i + needle.len())[0]);
    is_char_boundary_iff_not_is_continuation_byte(hay, i);
}

/// Whether `hay` has `needle` at byte `start`.
pub fn bytes_match_at(hay: &[u8], needle: &[u8], start: usize) -> (b: bool)
    requires
        start + needle@.len() <= hay@.len(),
    ensures
        b == occurs_at(hay@, needle@, start as int),
{
    let n = needle.len();
    let h = hay.len();
    let mut k: usize = 0;
    while k < n
        invariant
            n == needle@.len(),
            h == hay@.len(),
            start + n <= hay@.len(),
            k <= n,
            forall|j: int| 0 <= j < k ==> hay@[start + j] == needle@[j],
        decreases n - k,
    {
        if hay[start + k] != needle[k] {
            assert(hay@.subrange(start as int, start + n)[k as int] != needle@[k as int]);
            return false;
        }
        k = k + 1;
    }
    assert(hay@.subrange(start as int, start + n) =~= needle@);
    true
}

/// The first position at or after `start` where `needle` occurs in `hay`.
pub fn find_bytes_from(hay: &[u8], needle: &[u8], start: usize) -> (r: Option<usize>)
    ensures
        match r {
            Some(i) => find_from(hay@, needle@, start as int) == Some(i as int),
            None => find_from(hay@, needle@, start as int) is None,
        },
{
    let h = hay.len();
    let n = needle.len();
    if n > h || start > h - n {
        return None;
    }
    let last = h - n;
    let mut pos: usize = start;
    loop
        invariant
            h == hay@.len(),
            n == needle@.len(),
            last == h - n,
            start <= pos <= last,
            find_from(hay@, needle@, start as int) == find_from(hay@, needle@, pos as int),
        decreases last - pos,
    {
        if bytes_match_at(hay, needle, pos) {
            return Some(pos);
        }
        if pos == last {
            assert(find_from(hay@, needle@, pos + 1) is None);
            return None;
        }
        pos = pos + 1;
    }
}

/// The first position of `needle` in `hay` (byte-level `find`).
pub fn find_bytes(hay: &[u8], needle: &[u8]) -> (r: Option<usize>)
    ensures
        match r {
            Some(i) => first_occurrence(hay@, needle@) == Some(i as int),
            None => first_occurrence(hay@, needle@) is None,
        },
{
    find_bytes_from(hay, needle, 0)
}

/// Whether `hay` contains `needle` (what `str::contains` answers).
pub fn str_contains(hay: &str, needle: &str) -> (b: bool)
    ensures
        b == first_occurrence(encode_utf8(hay@), encode_utf8(needle@)) is Some,
{
    let r = find_bytes(hay.as_bytes(), needle.as_bytes());
    r.is_some()
}

/// Whether `hay` begins with `prefix` (what `str::starts_with` answers).
pub fn str_starts_with(hay: &str, prefix: &str) -> (b: bool)
    ensures
        b == has_prefix(encode_utf8(hay@), encode_utf8(prefix@)),
{
    let h = hay.as_bytes();
    let p = prefix.as_bytes();
    if p.len() > h.len() {
        return false;
    }
    let b = bytes_match_at(h, p, 0);
    assert(h@.subrange(0, p@.len() as int) == h@.subrange(0int, 0int + p@.len()));
    b
}

/// Whether `hay` ends with the first `len` bytes of `pat`.
pub fn ends_with_prefix_of(hay: &[u8], pat: &[u8], len: usize) -> (b: bool)
    requires
        len <= pat@.len(),
    ensures
        b == has_suffix(hay@, pat@.subrange(0, len as int)),
{
    if len > hay.len() {
        return false;
    }
    let h = hay.len();
    let start = h - len;
    let mut k: usize = 0;
    while k < len
        invariant
            h == hay@.len(),
            start + len == hay@.len(),
            len <= pat@.len(),
            k <= len,
            forall|j: int| 0 <= j < k ==> hay@[start + j] == pat@[j],
        decreases len - k,
    {
        if hay[start + k] != pat[k] {
            assert(hay@.subrange(start as int, hay@.len() as int)[k as int] != pat@.subrange(
                0,
                len as int,
            )[k as int]);
            return false;
        }
        k = k + 1;
    }
    assert(hay@.subrange(start as int, hay@.len() as int) =~= pat@.subrange(0, len as int));
    true
}

/// The length of `s` in bytes.
pub fn byte_len(s: &str) -> (n: usize)
    ensures
        n == encode_utf8(s@).len(),
{
    s.as_bytes().len()
}

/// Whether two strings hold the same text.
pub fn same_text(a: &str, b: &str) -> (r: bool)
    ensures
        r == (a@ == b@),
{
    let x = String::from_str(a);
    let y = String::from_str(b);
    x == y
}

/// The text between two character boundaries of `s`.
pub fn substring_bytes(s: &str, start: usize, end: usize) -> (r: String)
    requires
        start <= end <= encode_utf8(s@).len(),
        is_char_boundary(encode_utf8(s@), start as int),
        is_char_boundary(encode_utf8(s@), end as int),
    ensures
        encode_utf8(r@) == encode_utf8(s@).subrange(start as int, end as int),
{
    let ghost all = encode_utf8(s@);
    let (head, _) = s.split_at(end);
    let ghost hb = encode_utf8(head@);
    assert(hb =~= all.subrange(0, end as int));
    assert(valid_utf8(hb)) by {
        valid_utf8_split(all, end as int);
    }
    assert(is_char_boundary(hb, start as int)) by {
        if start < end {
            is_char_boundary_iff_not_is_continuation_byte(all, start as int);
            is_char_boundary_iff_not_is_continuation_byte(hb, start as int);
            assert(hb[start as int] == all[start as int]);
        } else {
            is_char_boundary_start_end_of_seq(hb);
        }
    }
    let (_, tail) = head.split_at(start);
    assert(encode_utf8(tail@) =~= all.subrange(start as int, end as int));
    String::from_str(tail)
}

/// Encoding two texts one after the other gives the two encodings one after the other.
pub proof fn lemma_encode_concat(a: Seq<char>, b: Seq<char>)
    ensures
        encode_utf8(a + b) == encode_utf8(a) + encode_utf8(b),
    decreases a.len(),
{
    if a.len() == 0 {
        assert(a + b =~= b);
        assert(encode_utf8(a) =~= Seq::<u8>::empty());
        assert(encode_utf8(a) + encode_utf8(b) =~= encode_utf8(b));
    } else {
        assert((a + b).drop_first() =~= a.drop_first() + b);
        assert((a + b)[0] == a[0]);
        lemma_encode_concat(a.drop_first(), b);
        assert(encode_utf8(a + b) =~= encode_utf8(a) + encode_utf8(b));
    }
}

/// Where valid UTF-8 text `s` begins with valid UTF-8 text `p`, the end of `p`
/// is a character boundary of `s`.
pub proof fn lemma_valid_prefix_boundary(s: Seq<u8>, p: Seq<u8>)
    requires
        valid_utf8(s),
        valid_utf8(p),
        has_prefix(s, p),
    ensures
        is_char_boundary(s, p.len() as int),
    decreases p.len(),
{
    if p.len() > 0 {
        assert(s[0] == p[0]) by {
            assert(s.subrange(0, p.len() as int)[0] == s[0]);
        }
        let len = length_of_first_scalar(p);
        assert(length_of_first_scalar(s) == len);
        assert(1 <= len <= p.len());
        let ps = pop_first_scalar(s);
        let pp = pop_first_scalar(p);
        assert(ps.subrange(0, pp.len() as int) =~= pp) by {
            assert forall|j: int| 0 <= j < pp.len() implies ps[j] == pp[j] by {
                assert(ps[j] == s[j + len]);
                assert(pp[j] == p[j + len]);
                assert(s.subrange(0, p.len() as int)[j + len] == s[j + len]);
            }
        }
        lemma_valid_prefix_boundary(ps, pp);
    }
}

/// A character boundary of the rest of a text after one of its character
/// boundaries is a character boundary of the whole text.
pub proof fn lemma_boundary_in_rest(s: Seq<u8>, i: int, j: int)
    requires
        valid_utf8(s),
        0 <= i <= s.len(),
        is_char_boundary(s, i),
        is_char_boundary(s.subrange(i, s.len() as int), j),
        0 <= j <= s.len() - i,
    ensures
        is_char_boundary(s, i + j),
{
    let rest = s.subrange(i, s.len() as int);
    valid_utf8_split(s, i);
    if i + j == s.len() {
        is_char_boundary_start_end_of_seq(s);
    } else {
        is_char_boundary_iff_not_is_continuation_byte(rest, j);
        is_char_boundary_iff_not_is_continuation_byte(s, i + j);
        assert(rest[j] == s[i + j]);
    }
}

/// Both ends of an occurrence of non-empty valid UTF-8 text inside valid UTF-8
/// text are character boundaries.
pub proof fn lemma_occurrence_ends_are_boundaries(hay: Seq<u8>, needle: Seq<u8>, i: int)
    requires
        valid_utf8(hay),
        valid_utf8(needle),
        needle.len() > 0,
        occurs_at(hay, needle, i),
    ensures
        is_char_boundary(hay, i),
        is_char_boundary(hay, i + needle.len()),
{
    lemma_occurrence_is_boundary(hay, needle, i);
    let rest = hay.subrange(i, hay.len() as int);
    valid_utf8_split(hay, i);
    assert(rest.subrange(0, needle.len() as int) =~= hay.subrange(i, i + needle.len()));
    lemma_valid_prefix_boundary(rest, needle);
    lemma_boundary_in_rest(hay, i, needle.len() as int);
}

/// `s` from byte `pos` on, with every occurrence of `pat` (searched left to
/// right, not overlapping) removed.
pub open spec fn removed_from(s: Seq<u8>, pat: Seq<u8>, pos: int) -> Seq<u8>
    decreases s.len() - pos,
{
    if pat.len() == 0 || pos < 0 || pos > s.len() {
        s.subrange(pos, s.len() as int)
    } else {
        match find_from(s, pat, pos) {
            Some(i) => {
                proof {
                    lemma_find_from(s, pat, pos);
                }
                s.subrange(pos, i) + removed_from(s, pat, i + pat.len())
            },
            None => s.subrange(pos, s.len() as int),
        }
    }
}

/// `s` with every occurrence of `pat` removed (what `str::replace(pat, "")` gives).
pub open spec fn remove_all(s: Seq<u8>, pat: Seq<u8>) -> Seq<u8> {
    removed_from(s, pat, 0)
}

/// `s` with every occurrence of `pat` removed.
pub fn remove_pattern(s: &str, pat: &str) -> (r: String)
    ensures
        encode_utf8(r@) == remove_all(encode_utf8(s@), encode_utf8(pat@)),
{
    let bytes = s.as_bytes();
    let p = pat.as_bytes();
    let ghost b = encode_utf8(s@);
    let n = p.len();
    let len = bytes.len();
    if n == 0 {
        assert(b.subrange(0, b.len() as int) =~= b);
        return String::from_str(s);
    }
    let mut out = String::new();
    let mut pos: usize = 0;
    proof {
        is_char_boundary_start_end_of_seq(b);
    }
    loop
        invariant
            bytes@ == b,
            b == encode_utf8(s@),
            p@ == encode_utf8(pat@),
            n == p@.len(),
            n > 0,
            len == b.len(),
            pos <= len,
            is_char_boundary(b, pos as int),
            encode_utf8(out@) + removed_from(b, p@, pos as int) == remove_all(b, p@),
        decreases len - pos,
    {
        proof {
            lemma_find_from(b, p@, pos as int);
        }
        match find_bytes_from(bytes, p, pos) {
            Some(i) => {
                proof {
                    lemma_occurrence_ends_are_boundaries(b, p@, i as int);
                }
                let piece = substring_bytes(s, pos, i);
                let ghost before = out@;
                out.append(piece.as_str());
                proof {
                    lemma_encode_concat(before, piece@);
                    assert(encode_utf8(out@) + removed_from(b, p@, (i + n) as int) =~= encode_utf8(
                        before,
                    ) + removed_from(b, p@, pos as int));
                }
                pos = i + n;
            },
            None => {
                proof {
                    is_char_boundary_start_end_of_seq(b);
                }
                let piece = substring_bytes(s, pos, len);
                let ghost before = out@;
                out.append(piece.as_str());
                proof {
                    lemma_encode_concat(before, piece@);
                    assert(encode_utf8(out@) =~= encode_utf8(before) + removed_from(b, p@, pos as int));
                    assert(encode_utf8(out@) == remove_all(b, p@));
                }
                return out;
            },
        }
    }
}

} // verus!
