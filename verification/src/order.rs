//! Byte-wise lexicographic order on text (the order of `String`), and a sorted
//! set of names built with it.
use vstd::prelude::*;
use vstd::string::*;
use vstd::utf8::*;

use crate::text::same_text;

verus! {

broadcast use vstd::utf8::group_utf8_lib;

/// `a` comes before `b` when compared byte by byte from position `i` on.
pub open spec fn lex_lt_from(a: Seq<u8>, b: Seq<u8>, i: int) -> bool
    decreases a.len() - i,
{
    if i >= a.len() {
        i < b.len()
    } else if i >= b.len() {
        false
    } else if a[i] != b[i] {
        a[i] < b[i]
    } else {
        lex_lt_from(a, b, i + 1)
    }
}

/// `a` comes before `b` in byte-wise lexicographic order.
pub open spec fn lex_lt(a: Seq<u8>, b: Seq<u8>) -> bool {
    lex_lt_from(a, b, 0)
}

/// Text `a` sorts before text `b` (as `String`s compare).
pub open spec fn text_lt(a: Seq<char>, b: Seq<char>) -> bool {
    lex_lt(encode_utf8(a), encode_utf8(b))
}

/// Each name sorts strictly before the next.
pub open spec fn strictly_sorted(v: Seq<Seq<char>>) -> bool {
    forall|i: int, j: int| 0 <= i < j < v.len() ==> text_lt(#[trigger] v[i], #[trigger] v[j])
}

proof fn lemma_lex_irreflexive(a: Seq<u8>, i: int)
    requires
        0 <= i,
    ensures
        !lex_lt_from(a, a, i),
    decreases a.len() - i,
{
    if i < a.len() {
        lemma_lex_irreflexive(a, i + 1);
    }
}

proof fn lemma_lex_transitive(a: Seq<u8>, b: Seq<u8>, c: Seq<u8>, i: int)
    requires
        0 <= i,
        lex_lt_from(a, b, i),
        lex_lt_from(b, c, i),
    ensures
        lex_lt_from(a, c, i),
    decreases a.len() - i,
{
    if i < a.len() && i < b.len() && i < c.len() && a[i] == b[i] && b[i] == c[i] {
        lemma_lex_transitive(a, b, c, i + 1);
    }
}

proof fn lemma_lex_total(a: Seq<u8>, b: Seq<u8>, i: int)
    requires
        0 <= i <= a.len(),
        i <= b.len(),
        !lex_lt_from(a, b, i),
        !lex_lt_from(b, a, i),
    ensures
        a.len() == b.len(),
        forall|j: int| i <= j < a.len() ==> a[j] == b[j],
    decreases a.len() - i,
{
    if i < a.len() {
        lemma_lex_total(a, b, i + 1);
    }
}

/// The byte-wise order on text is a strict total order.
pub proof fn lemma_text_order(a: Seq<char>, b: Seq<char>, c: Seq<char>)
    ensures
        !text_lt(a, a),
        text_lt(a, b) && text_lt(b, c) ==> text_lt(a, c),
        a != b ==> text_lt(a, b) || text_lt(b, a),
{
    lemma_lex_irreflexive(encode_utf8(a), 0);
    if text_lt(a, b) && text_lt(b, c) {
        lemma_lex_transitive(encode_utf8(a), encode_utf8(b), encode_utf8(c), 0);
    }
    if !text_lt(a, b) && !text_lt(b, a) {
        lemma_lex_total(encode_utf8(a), encode_utf8(b), 0);
        assert(encode_utf8(a) =~= encode_utf8(b));
        assert(decode_utf8(encode_utf8(a)) == a);
        assert(decode_utf8(encode_utf8(b)) == b);
    }
}

/// Whether text `a` sorts before text `b`.
pub fn text_less(a: &str, b: &str) -> (r: bool)
    ensures
        r == text_lt(a@, b@),
{
    let x = a.as_bytes();
    let y = b.as_bytes();
    let mut i: usize = 0;
    while i < x.len() && i < y.len() && x[i] == y[i]
        invariant
            i <= x@.len(),
            lex_lt_from(x@, y@, 0) == lex_lt_from(x@, y@, i as int),
            forall|j: int| 0 <= j < i ==> x@[j] == y@[j],
        decreases x@.len() - i,
    {
        i = i + 1;
    }
    if i >= x.len() {
        i < y.len()
    } else if i >= y.len() {
        false
    } else {
        x[i] < y[i]
    }
}

/// The texts of a sequence of strings.
pub open spec fn texts(v: Seq<String>) -> Seq<Seq<char>> {
    v.map_values(|s: String| s@)
}

/// Adds `name` to the strictly sorted `names`, unless it is already there.
pub fn insert_sorted(names: &mut Vec<String>, name: String)
    requires
        strictly_sorted(texts(old(names)@)),
    ensures
        strictly_sorted(texts(final(names)@)),
        forall|t: Seq<char>|
            texts(final(names)@).contains(t) <==> (texts(old(names)@).contains(t) || t == name@),
{
    let ghost before = texts(names@);
    let n = names.len();
    let mut i: usize = 0;
    while i < n && text_less(names[i].as_str(), name.as_str())
        invariant
            n == names@.len(),
            texts(names@) == before,
            i <= n,
            forall|j: int| 0 <= j < i ==> text_lt(#[trigger] before[j], name@),
        decreases n - i,
    {
        i = i + 1;
    }
    if i < n && same_text(names[i].as_str(), name.as_str()) {
        proof {
            assert forall|t: Seq<char>| before.contains(t) <==> (before.contains(t) || t == name@) by {
                if t == name@ {
                    assert(before[i as int] == t);
                }
            }
        }
        return;
    }
    proof {
        if i < n {
            lemma_text_order(name@, before[i as int], name@);
            assert(text_lt(name@, before[i as int]));
        }
    }
    names.insert(i, name);
    proof {
        let after = texts(names@);
        assert(after =~= before.insert(i as int, name@));
        assert forall|a: int, b: int| 0 <= a < b < after.len() implies text_lt(
            #[trigger] after[a],
            #[trigger] after[b],
        ) by {
            if b == i {
                assert(after[a] == before[a]);
            } else if a == i {
                assert(after[b] == before[b - 1]);
                if b - 1 > i {
                    lemma_text_order(name@, before[i as int], before[b - 1]);
                }
            } else if a > i {
                assert(after[a] == before[a - 1]);
                assert(after[b] == before[b - 1]);
            } else if b > i {
                assert(after[a] == before[a]);
                assert(after[b] == before[b - 1]);
            } else {
                assert(after[a] == before[a]);
                assert(after[b] == before[b]);
            }
        }
        assert forall|t: Seq<char>| after.contains(t) <==> (before.contains(t) || t == name@) by {
            if after.contains(t) {
                let k = choose|k: int| 0 <= k < after.len() && after[k] == t;
                if k < i {
                    assert(before[k] == t);
                } else if k > i {
                    assert(before[k - 1] == t);
                }
            }
            if before.contains(t) {
                let k = choose|k: int| 0 <= k < before.len() && before[k] == t;
                if k < i {
                    assert(after[k] == t);
                } else {
                    assert(after[k + 1] == t);
                }
            }
            if t == name@ {
                assert(after[i as int] == t);
            }
        }
    }
}

/// Law: a set of names has exactly one strictly sorted listing, so the shard
/// list does not depend on the order the index names them in.
pub proof fn law_sorted_listing_is_unique(a: Seq<Seq<char>>, b: Seq<Seq<char>>)
    requires
        strictly_sorted(a),
        strictly_sorted(b),
        forall|t: Seq<char>| a.contains(t) <==> b.contains(t),
    ensures
        a == b,
    decreases a.len(),
{
    if a.len() == 0 {
        if b.len() > 0 {
            assert(b.contains(b[0]));
        }
        assert(a =~= b);
    } else {
        assert(a.contains(a[0]));
        assert(b.len() > 0);
        assert(b.contains(b[0]));
        let ja = choose|j: int| 0 <= j < b.len() && b[j] == a[0];
        let jb = choose|j: int| 0 <= j < a.len() && a[j] == b[0];
        if a[0] != b[0] {
            assert(ja > 0 && jb > 0);
            assert(text_lt(b[0], b[ja]));
            assert(text_lt(a[0], a[jb]));
            lemma_text_order(a[0], b[0], a[0]);
        }
        let ra = a.drop_first();
        let rb = b.drop_first();
        assert forall|t: Seq<char>| ra.contains(t) <==> rb.contains(t) by {
            if ra.contains(t) {
                let i = choose|i: int| 0 <= i < ra.len() && ra[i] == t;
                assert(a[i + 1] == t);
                assert(text_lt(a[0], t));
                lemma_text_order(a[0], a[0], a[0]);
                assert(t != b[0]);
                assert(b.contains(t));
                let j = choose|j: int| 0 <= j < b.len() && b[j] == t;
                assert(j != 0);
                assert(rb[j - 1] == t);
            }
            if rb.contains(t) {
                let i = choose|i: int| 0 <= i < rb.len() && rb[i] == t;
                assert(b[i + 1] == t);
                assert(text_lt(b[0], t));
                lemma_text_order(b[0], b[0], b[0]);
                assert(t != a[0]);
                assert(a.contains(t));
                let j = choose|j: int| 0 <= j < a.len() && a[j] == t;
                assert(j != 0);
                assert(ra[j - 1] == t);
            }
        }
        law_sorted_listing_is_unique(ra, rb);
        assert(a =~= seq![a[0]] + ra);
        assert(b =~= seq![b[0]] + rb);
    }
}

} // verus!
