//! Stop sequences: truncating generated text at the earliest stop string, and
//! holding back a tail that could still grow into one while streaming.
use vstd::prelude::*;
use vstd::string::*;
use vstd::utf8::*;

use crate::text::{
    lemma_encode_concat, lemma_first_byte_not_continuation, ends_with_prefix_of, find_bytes, first_occurrence, has_prefix, has_suffix, lemma_first_occurrence,
    lemma_occurrence_is_boundary, occurs_at, substring_bytes,
};

verus! {

broadcast use vstd::utf8::group_utf8_lib;

/// The UTF-8 bytes of each stop string.
pub open spec fn stop_bytes(stops: Seq<String>) -> Seq<Seq<u8>> {
    stops.map_values(|s: String| encode_utf8(s@))
}

/// The smaller of two optional positions, ignoring a missing one.
pub open spec fn min_position(a: Option<int>, b: Option<int>) -> Option<int> {
    match (a, b) {
        (Some(x), Some(y)) => Some(if x <= y { x } else { y }),
        (Some(x), None) => Some(x),
        (None, Some(y)) => Some(y),
        (None, None) => None,
    }
}

/// The earliest byte position at which any of `stops` occurs in `text`.
pub open spec fn earliest_stop(text: Seq<u8>, stops: Seq<Seq<u8>>) -> Option<int>
    decreases stops.len(),
{
    if stops.len() == 0 {
        None
    } else {
        min_position(
            earliest_stop(text, stops.drop_last()),
            first_occurrence(text, stops.last()),
        )
    }
}

/// `text` cut at its earliest stop sequence (unchanged when none occurs).
pub open spec fn truncate_at_stop(text: Seq<u8>, stops: Seq<Seq<u8>>) -> Seq<u8> {
    match earliest_stop(text, stops) {
        Some(i) => text.subrange(0, i),
        None => text,
    }
}

/// `text` ends with the first `k` bytes of `stop`, where those bytes are a
/// non-empty proper prefix of `stop` that ends on a character boundary.
pub open spec fn holds_prefix(text: Seq<u8>, stop: Seq<u8>, k: int) -> bool {
    &&& 0 < k < stop.len()
    &&& is_char_boundary(stop, k)
    &&& has_suffix(text, stop.subrange(0, k))
}

/// The longest `k < below` for which `text` ends with a held prefix of `stop` (0 if none).
pub open spec fn longest_held(text: Seq<u8>, stop: Seq<u8>, below: int) -> int
    decreases below,
{
    if below <= 1 {
        0
    } else if holds_prefix(text, stop, below - 1) {
        below - 1
    } else {
        longest_held(text, stop, below - 1)
    }
}

/// How many trailing bytes of `text` must be held back because they could be the
/// start of one of `stops`.
pub open spec fn hold_len(text: Seq<u8>, stops: Seq<Seq<u8>>) -> int
    decreases stops.len(),
{
    if stops.len() == 0 {
        0
    } else {
        let a = hold_len(text, stops.drop_last());
        let b = longest_held(text, stops.last(), stops.last().len() as int);
        if a >= b {
            a
        } else {
            b
        }
    }
}

/// Every element of `stops` is the encoding of some text.
pub open spec fn all_valid_utf8(stops: Seq<Seq<u8>>) -> bool {
    forall|k: int| 0 <= k < stops.len() ==> valid_utf8(#[trigger] stops[k])
}

pub proof fn lemma_stop_bytes_valid(stops: Seq<String>)
    ensures
        all_valid_utf8(stop_bytes(stops)),
{
    assert forall|k: int| 0 <= k < stop_bytes(stops).len() implies valid_utf8(
        #[trigger] stop_bytes(stops)[k],
    ) by {
        assert(stop_bytes(stops)[k] == encode_utf8(stops[k]@));
    }
}

/// The earliest stop really is the first place where any stop occurs.
pub proof fn lemma_earliest_stop(text: Seq<u8>, stops: Seq<Seq<u8>>)
    ensures
        match earliest_stop(text, stops) {
            Some(i) => {
                &&& exists|k: int| 0 <= k < stops.len() && occurs_at(text, #[trigger] stops[k], i)
                &&& forall|k: int, j: int|
                    0 <= k < stops.len() && 0 <= j < i ==> !#[trigger] occurs_at(text, stops[k], j)
            },
            None => forall|k: int, j: int|
                0 <= k < stops.len() ==> !#[trigger] occurs_at(text, stops[k], j),
        },
    decreases stops.len(),
{
    if stops.len() > 0 {
        let rest = stops.drop_last();
        let last = stops.len() - 1;
        lemma_earliest_stop(text, rest);
        lemma_first_occurrence(text, stops.last());
        assert(stops[last] == stops.last());
        assert forall|k: int| 0 <= k < rest.len() implies #[trigger] rest[k] == stops[k] by {}
        let r = earliest_stop(text, rest);
        let f = first_occurrence(text, stops.last());
        match earliest_stop(text, stops) {
            Some(i) => {
                if r is Some && (f is None || r->0 <= f->0) {
                    let a = r->0;
                    assert(i == a);
                    let ka = choose|k: int| 0 <= k < rest.len() && occurs_at(text, #[trigger] rest[k], a);
                    assert(occurs_at(text, stops[ka], i));
                } else {
                    assert(i == f->0);
                    assert(occurs_at(text, stops[last], i));
                }
                assert forall|k: int, j: int|
                    0 <= k < stops.len() && 0 <= j < i implies !#[trigger] occurs_at(text, stops[k], j) by {
                    if k < last {
                        assert(rest[k] == stops[k]);
                        if r is None {
                            assert(!occurs_at(text, rest[k], j));
                        } else {
                            assert(i <= r->0);
                            assert(!occurs_at(text, rest[k], j));
                        }
                    } else {
                        if f is Some {
                            assert(i <= f->0);
                        }
                    }
                }
            },
            None => {
                assert forall|k: int, j: int|
                    0 <= k < stops.len() implies !#[trigger] occurs_at(text, stops[k], j) by {
                    if k < last {
                        assert(rest[k] == stops[k]);
                        assert(!occurs_at(text, rest[k], j));
                    }
                }
            },
        }
    }
}

/// Where the earliest stop of valid UTF-8 stops falls inside valid UTF-8 text is a
/// character boundary.
proof fn lemma_earliest_stop_boundary(text: Seq<u8>, stops: Seq<Seq<u8>>)
    requires
        valid_utf8(text),
        all_valid_utf8(stops),
    ensures
        earliest_stop(text, stops) matches Some(i) ==> is_char_boundary(text, i),
{
    lemma_earliest_stop(text, stops);
    if let Some(i) = earliest_stop(text, stops) {
        let k = choose|k: int| 0 <= k < stops.len() && occurs_at(text, #[trigger] stops[k], i);
        if stops[k].len() == 0 {
            assert(occurs_at(text, stops[k], 0)) by {
                assert(text.subrange(0, 0) =~= stops[k]);
            }
            assert(i == 0);
        } else {
            lemma_occurrence_is_boundary(text, stops[k], i);
        }
    }
}

/// Cuts `text` at the earliest occurrence of any of `stops`, and says whether it did.
pub fn apply_stop_sequences(text: &str, stops: &[String]) -> (res: (String, bool))
    ensures
        match earliest_stop(encode_utf8(text@), stop_bytes(stops@)) {
            Some(i) => res.1 && encode_utf8(res.0@) == encode_utf8(text@).subrange(0, i),
            None => !res.1 && res.0@ == text@,
        },
{
    let bytes = text.as_bytes();
    let ghost tb = encode_utf8(text@);
    let mut best: Option<usize> = None;
    let mut k: usize = 0;
    while k < stops.len()
        invariant
            bytes@ == tb,
            tb == encode_utf8(text@),
            k <= stops@.len(),
            match best {
                Some(b) => earliest_stop(tb, stop_bytes(stops@).take(k as int)) == Some(b as int),
                None => earliest_stop(tb, stop_bytes(stops@).take(k as int)) is None,
            },
        decreases stops@.len() - k,
    {
        let found = find_bytes(bytes, stops[k].as_str().as_bytes());
        proof {
            let prefix = stop_bytes(stops@).take(k + 1);
            assert(prefix.drop_last() =~= stop_bytes(stops@).take(k as int));
            assert(prefix.last() == encode_utf8(stops@[k as int]@));
        }
        match found {
            Some(f) => {
                match best {
                    Some(b) => {
                        if f < b {
                            best = Some(f);
                        }
                    },
                    None => {
                        best = Some(f);
                    },
                }
            },
            None => {},
        }
        k = k + 1;
    }
    proof {
        assert(stop_bytes(stops@).take(stops@.len() as int) =~= stop_bytes(stops@));
        lemma_stop_bytes_valid(stops@);
        lemma_earliest_stop_boundary(tb, stop_bytes(stops@));
        is_char_boundary_start_end_of_seq(tb);
    }
    match best {
        Some(i) => {
            proof {
                lemma_find_bound(tb, stop_bytes(stops@), i);
            }
            (substring_bytes(text, 0, i), true)
        },
        None => (String::from_str(text), false),
    }
}

proof fn lemma_find_bound(text: Seq<u8>, stops: Seq<Seq<u8>>, i: usize)
    requires
        earliest_stop(text, stops) == Some(i as int),
    ensures
        i <= text.len(),
{
    lemma_earliest_stop(text, stops);
}

/// The longest held prefix of one stop string.
fn longest_held_prefix(text: &[u8], stop: &[u8]) -> (r: usize)
    requires
        valid_utf8(stop@),
    ensures
        r == longest_held(text@, stop@, stop@.len() as int),
{
    let n = stop.len();
    if n <= 1 {
        return 0;
    }
    let mut k: usize = n - 1;
    while k >= 1
        invariant
            n == stop@.len(),
            valid_utf8(stop@),
            k < n,
            longest_held(text@, stop@, n as int) == longest_held(text@, stop@, k + 1),
        decreases k,
    {
        let b = stop[k];
        let boundary = !(0x80u8 <= b && b <= 0xbfu8);
        proof {
            is_char_boundary_iff_not_is_continuation_byte(stop@, k as int);
        }
        if boundary && ends_with_prefix_of(text, stop, k) {
            return k;
        }
        k = k - 1;
    }
    0
}

/// How many bytes of `text` can be streamed now: everything except a tail that
/// might be the beginning of one of `stops`.
pub fn streamable_len(text: &str, stops: &[String]) -> (r: usize)
    ensures
        r == encode_utf8(text@).len() - hold_len(encode_utf8(text@), stop_bytes(stops@)),
{
    let bytes = text.as_bytes();
    let ghost tb = encode_utf8(text@);
    let mut hold: usize = 0;
    let mut k: usize = 0;
    while k < stops.len()
        invariant
            bytes@ == tb,
            k <= stops@.len(),
            hold == hold_len(tb, stop_bytes(stops@).take(k as int)),
            hold <= tb.len(),
        decreases stops@.len() - k,
    {
        let stop = stops[k].as_str().as_bytes();
        let held = longest_held_prefix(bytes, stop);
        proof {
            let prefix = stop_bytes(stops@).take(k + 1);
            assert(prefix.drop_last() =~= stop_bytes(stops@).take(k as int));
            assert(prefix.last() == encode_utf8(stops@[k as int]@));
            lemma_longest_held_bound(tb, stop@, stop@.len() as int);
        }
        if held > hold {
            hold = held;
        }
        k = k + 1;
    }
    proof {
        assert(stop_bytes(stops@).take(stops@.len() as int) =~= stop_bytes(stops@));
    }
    bytes.len() - hold
}

/// A held prefix is never longer than the text that ends with it.
proof fn lemma_longest_held_bound(text: Seq<u8>, stop: Seq<u8>, below: int)
    ensures
        0 <= longest_held(text, stop, below) <= text.len(),
        longest_held(text, stop, below) < below || longest_held(text, stop, below) == 0,
        longest_held(text, stop, below) > 0 ==> holds_prefix(
            text,
            stop,
            longest_held(text, stop, below),
        ),
    decreases below,
{
    if below > 1 && !holds_prefix(text, stop, below - 1) {
        lemma_longest_held_bound(text, stop, below - 1);
    }
}

/// The held-back length comes from one stop string (or is zero).
pub proof fn lemma_hold_len_witness(text: Seq<u8>, stops: Seq<Seq<u8>>)
    ensures
        0 <= hold_len(text, stops) <= text.len(),
        hold_len(text, stops) > 0 ==> exists|k: int|
            0 <= k < stops.len() && holds_prefix(text, #[trigger] stops[k], hold_len(text, stops)),
    decreases stops.len(),
{
    if stops.len() > 0 {
        let rest = stops.drop_last();
        lemma_hold_len_witness(text, rest);
        let last = stops.len() - 1;
        lemma_longest_held_bound(text, stops.last(), stops.last().len() as int);
        assert(stops[last] == stops.last());
        if hold_len(text, stops) > 0 {
            if hold_len(text, rest) >= longest_held(text, stops.last(), stops.last().len() as int) {
                let k = choose|k: int|
                    0 <= k < rest.len() && holds_prefix(text, #[trigger] rest[k], hold_len(text, rest));
                assert(rest[k] == stops[k]);
            }
        }
    }
}

/// Law: streaming never splits a character, and what it holds back is the start
/// of one of the stop strings. The length `streamable_len` returns is a character
/// boundary of the text, and the bytes after it are a non-empty proper prefix
/// (ending on a character boundary) of some stop string.
pub proof fn law_held_tail(text: Seq<char>, stops: Seq<String>)
    ensures
        ({
            let b = encode_utf8(text);
            let r = b.len() - hold_len(b, stop_bytes(stops));
            &&& 0 <= r <= b.len()
            &&& is_char_boundary(b, r)
            &&& r < b.len() ==> exists|k: int|
                0 <= k < stops.len() && holds_prefix(
                    b,
                    #[trigger] stop_bytes(stops)[k],
                    b.len() - r,
                )
        }),
{
    let b = encode_utf8(text);
    let sb = stop_bytes(stops);
    lemma_hold_len_witness(b, sb);
    lemma_stop_bytes_valid(stops);
    let h = hold_len(b, sb);
    let r = b.len() - h;
    if h == 0 {
        is_char_boundary_start_end_of_seq(b);
    } else {
        let k = choose|k: int| 0 <= k < sb.len() && holds_prefix(b, #[trigger] sb[k], h);
        let stop = sb[k];
        assert(valid_utf8(stop));
        lemma_first_byte_not_continuation(stop);
        assert(b.subrange(r, b.len() as int) == stop.subrange(0, h));
        assert(b[r] == b.subrange(r, b.len() as int)[0]);
        is_char_boundary_iff_not_is_continuation_byte(b, r);
    }
}

/// Text cut at its earliest occurrence of non-empty stop sequences contains none
/// of them.
pub proof fn lemma_truncation_stop_free(text: Seq<u8>, stops: Seq<Seq<u8>>)
    requires
        forall|k: int| 0 <= k < stops.len() ==> (#[trigger] stops[k]).len() > 0,
    ensures
        earliest_stop(truncate_at_stop(text, stops), stops) is None,
{
    let t = truncate_at_stop(text, stops);
    lemma_earliest_stop(text, stops);
    lemma_earliest_stop(t, stops);
    assert forall|k: int, j: int| 0 <= k < stops.len() implies !#[trigger] occurs_at(
        t,
        stops[k],
        j,
    ) by {
        if occurs_at(t, stops[k], j) {
            match earliest_stop(text, stops) {
                Some(i) => {
                    assert(t == text.subrange(0, i));
                    assert(text.subrange(j, j + stops[k].len()) =~= t.subrange(
                        j,
                        j + stops[k].len(),
                    ));
                    assert(occurs_at(text, stops[k], j));
                },
                None => {
                    assert(t == text);
                },
            }
        }
    }
}

/// A beginning of text that contains no stop sequence contains none either.
pub proof fn lemma_prefix_stop_free(text: Seq<u8>, prefix: Seq<u8>, stops: Seq<Seq<u8>>)
    requires
        earliest_stop(text, stops) is None,
        prefix.len() <= text.len(),
        text.subrange(0, prefix.len() as int) == prefix,
    ensures
        earliest_stop(prefix, stops) is None,
{
    lemma_earliest_stop(text, stops);
    lemma_earliest_stop(prefix, stops);
    assert forall|k: int, j: int| 0 <= k < stops.len() implies !#[trigger] occurs_at(
        prefix,
        stops[k],
        j,
    ) by {
        if occurs_at(prefix, stops[k], j) {
            assert(text.subrange(j, j + stops[k].len()) =~= prefix.subrange(
                j,
                j + stops[k].len(),
            ));
            assert(occurs_at(text, stops[k], j));
        }
    }
}

/// Law: once cut at its earliest stop sequence, text contains none of the stop
/// strings, so cutting again changes nothing. Stated for non-empty stop strings:
/// an empty stop string occurs in every text.
pub proof fn law_cut_text_is_stop_free(text: Seq<char>, stops: Seq<String>)
    requires
        forall|k: int| 0 <= k < stops.len() ==> (#[trigger] stops[k])@.len() > 0,
    ensures
        earliest_stop(truncate_at_stop(encode_utf8(text), stop_bytes(stops)), stop_bytes(stops))
            is None,
        truncate_at_stop(truncate_at_stop(encode_utf8(text), stop_bytes(stops)), stop_bytes(stops))
            == truncate_at_stop(encode_utf8(text), stop_bytes(stops)),
{
    let sb = stop_bytes(stops);
    assert forall|k: int| 0 <= k < sb.len() implies (#[trigger] sb[k]).len() > 0 by {
        assert(sb[k] == encode_utf8(stops[k]@));
        if sb[k].len() == 0 {
            assert(encode_utf8(stops[k]@) =~= encode_scalar(stops[k]@[0] as u32) + encode_utf8(
                stops[k]@.drop_first(),
            ));
        }
    }
    lemma_truncation_stop_free(encode_utf8(text), sb);
}

/// A held prefix of one stop string is at most the longest one held.
proof fn lemma_longest_held_at_least(text: Seq<u8>, stop: Seq<u8>, below: int, k: int)
    requires
        holds_prefix(text, stop, k),
        k < below,
    ensures
        longest_held(text, stop, below) >= k,
    decreases below,
{
    if below - 1 != k && !holds_prefix(text, stop, below - 1) {
        lemma_longest_held_at_least(text, stop, below - 1, k);
    }
}

/// A held prefix of any of the stop strings is at most the held-back length.
proof fn lemma_hold_len_at_least(text: Seq<u8>, stops: Seq<Seq<u8>>, j: int, k: int)
    requires
        0 <= j < stops.len(),
        holds_prefix(text, stops[j], k),
    ensures
        hold_len(text, stops) >= k,
    decreases stops.len(),
{
    let last = stops.len() - 1;
    if j == last {
        assert(stops[j] == stops.last());
        lemma_longest_held_at_least(text, stops.last(), stops.last().len() as int, k);
    } else {
        assert(stops.drop_last()[j] == stops[j]);
        lemma_hold_len_at_least(text, stops.drop_last(), j, k);
    }
}

/// Appending valid UTF-8 bytes to valid UTF-8 text grows the held-back length by
/// at most what was appended.
pub proof fn lemma_hold_len_after_append(t: Seq<u8>, d: Seq<u8>, stops: Seq<Seq<u8>>)
    requires
        valid_utf8(d),
        all_valid_utf8(stops),
    ensures
        hold_len(t + d, stops) <= hold_len(t, stops) + d.len(),
{
    let x = t + d;
    let h = hold_len(x, stops);
    lemma_hold_len_witness(x, stops);
    lemma_hold_len_witness(t, stops);
    if h > d.len() {
        let j = choose|j: int| 0 <= j < stops.len() && holds_prefix(x, #[trigger] stops[j], h);
        let stop = stops[j];
        let k = h - d.len();
        assert(valid_utf8(stop));
        assert(stop.subrange(0, k) =~= t.subrange(t.len() - k, t.len() as int)) by {
            assert forall|i: int| 0 <= i < k implies stop.subrange(0, k)[i] == t.subrange(
                t.len() - k,
                t.len() as int,
            )[i] by {
                assert(stop.subrange(0, h)[i] == x.subrange(x.len() - h, x.len() as int)[i]);
            }
        }
        if d.len() > 0 {
            lemma_first_byte_not_continuation(d);
            assert(stop[k] == d[0]) by {
                assert(stop.subrange(0, h)[k] == x.subrange(x.len() - h, x.len() as int)[k]);
            }
            is_char_boundary_iff_not_is_continuation_byte(stop, k);
        }
        assert(holds_prefix(t, stop, k));
        lemma_hold_len_at_least(t, stops, j, k);
    }
}

/// Law: appending text never shrinks how much of it may be streamed, so nothing
/// streamed ever has to be taken back: `streamable_len` of `t` followed by `d` is
/// at least `streamable_len` of `t`.
pub proof fn law_streamable_grows(t: Seq<char>, d: Seq<char>, stops: Seq<String>)
    ensures
        encode_utf8(t + d).len() - hold_len(encode_utf8(t + d), stop_bytes(stops))
            >= encode_utf8(t).len() - hold_len(encode_utf8(t), stop_bytes(stops)),
{
    lemma_encode_concat(t, d);
    lemma_stop_bytes_valid(stops);
    lemma_hold_len_after_append(encode_utf8(t), encode_utf8(d), stop_bytes(stops));
}

/// Bytes streamed from text without a stop sequence, up to its streamable
/// length, still begin that text after valid UTF-8 is appended and the result is
/// cut at its earliest stop sequence.
pub proof fn lemma_extension_keeps_prefix(p: Seq<u8>, a: Seq<u8>, sb: Seq<Seq<u8>>, emitted: Seq<u8>)
    requires
        valid_utf8(a),
        all_valid_utf8(sb),
        earliest_stop(p, sb) is None,
        has_prefix(p, emitted),
        emitted.len() <= p.len() - hold_len(p, sb),
    ensures
        has_prefix(truncate_at_stop(p + a, sb), emitted),
{
    let x = p + a;
    lemma_earliest_stop(x, sb);
    lemma_earliest_stop(p, sb);
    assert(x.subrange(0, p.len() as int) =~= p);
    match earliest_stop(x, sb) {
        None => {
            assert(x.subrange(0, emitted.len() as int) =~= p.subrange(0, emitted.len() as int));
        },
        Some(i) => {
            let k = choose|k: int| 0 <= k < sb.len() && occurs_at(x, #[trigger] sb[k], i);
            let stop = sb[k];
            if i < emitted.len() {
                if i + stop.len() <= p.len() {
                    assert(p.subrange(i, i + stop.len()) =~= x.subrange(i, i + stop.len()));
                    assert(occurs_at(p, stop, i));
                } else {
                    let m = p.len() - i;
                    assert(valid_utf8(stop));
                    assert(stop.subrange(0, m) =~= p.subrange(i, p.len() as int)) by {
                        assert forall|j: int| 0 <= j < m implies stop.subrange(0, m)[j]
                            == p.subrange(i, p.len() as int)[j] by {
                            assert(x.subrange(i, i + stop.len())[j] == x[i + j]);
                        }
                    }
                    assert(a.len() > 0);
                    lemma_first_byte_not_continuation(a);
                    assert(stop[m] == a[0]) by {
                        assert(x.subrange(i, i + stop.len())[m] == x[p.len() as int]);
                    }
                    is_char_boundary_iff_not_is_continuation_byte(stop, m);
                    assert(holds_prefix(p, stop, m));
                    lemma_hold_len_at_least(p, sb, k, m);
                }
            }
            let cut = x.subrange(0, i);
            assert(cut.subrange(0, emitted.len() as int) =~= p.subrange(0, emitted.len() as int));
        },
    }
}

/// Law: what was streamed from text that held no stop sequence stays at the
/// start of the text once more text is decoded after it. If `emitted` begins the
/// earlier decoding and reaches no further than its streamable length, then the
/// longer decoding, cut at its earliest stop sequence, still begins with
/// `emitted`: a stop sequence completed by the new text starts inside the part
/// that was held back.
pub proof fn law_extension_keeps_stream(
    prev: Seq<char>,
    added: Seq<char>,
    stops: Seq<String>,
    emitted: Seq<u8>,
)
    requires
        earliest_stop(encode_utf8(prev), stop_bytes(stops)) is None,
        has_prefix(encode_utf8(prev), emitted),
        emitted.len() <= encode_utf8(prev).len() - hold_len(
            encode_utf8(prev),
            stop_bytes(stops),
        ),
    ensures
        has_prefix(truncate_at_stop(encode_utf8(prev + added), stop_bytes(stops)), emitted),
{
    lemma_encode_concat(prev, added);
    lemma_stop_bytes_valid(stops);
    lemma_extension_keeps_prefix(encode_utf8(prev), encode_utf8(added), stop_bytes(stops), emitted);
}

/// Law: cutting at stop sequences keeps a beginning of the text. Where no stop
/// string occurs the text is kept whole; otherwise the cut falls where one of the
/// stop strings occurs, and none occurs anywhere before it.
pub proof fn law_stop_cut(text: Seq<char>, stops: Seq<String>)
    ensures
        has_prefix(encode_utf8(text), truncate_at_stop(encode_utf8(text), stop_bytes(stops))),
        (forall|k: int, j: int|
            0 <= k < stops.len() ==> !#[trigger] occurs_at(encode_utf8(text), stop_bytes(stops)[k], j))
            ==> truncate_at_stop(encode_utf8(text), stop_bytes(stops)) == encode_utf8(text),
        (exists|k: int, j: int|
            0 <= k < stops.len() && #[trigger] occurs_at(encode_utf8(text), stop_bytes(stops)[k], j))
            ==> {
            let c = truncate_at_stop(encode_utf8(text), stop_bytes(stops)).len() as int;
            &&& exists|k: int|
                0 <= k < stops.len() && occurs_at(encode_utf8(text), #[trigger] stop_bytes(stops)[k], c)
            &&& forall|k: int, j: int|
                0 <= k < stops.len() && 0 <= j < c ==> !#[trigger] occurs_at(
                    encode_utf8(text),
                    stop_bytes(stops)[k],
                    j,
                )
        },
{
    let t = encode_utf8(text);
    let sb = stop_bytes(stops);
    lemma_earliest_stop(t, sb);
    match earliest_stop(t, sb) {
        Some(i) => {
            assert(t.subrange(0, i).len() == i);
            assert(t.subrange(0, i) =~= t.subrange(0, i));
        },
        None => {
            assert(t.subrange(0, t.len() as int) =~= t);
        },
    }
}

} // verus!
