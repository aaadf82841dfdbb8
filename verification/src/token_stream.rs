//! Turning a stream of token ids into a stream of text pieces: a piece is
//! released once the decoded text grows and ends in a letter or digit.
use vstd::prelude::*;
use vstd::string::*;
use vstd::utf8::*;

use tokenizers::Tokenizer;

use crate::error::WaxError;
use crate::text::{byte_len, has_prefix, lemma_encode_concat, lemma_valid_prefix_boundary, substring_bytes};
use crate::tokenizer::{decode_ids, decoded_text};

verus! {

broadcast use vstd::utf8::group_utf8_lib;

/// What `char::is_alphanumeric` answers for `c` (Unicode `Alphabetic` or `Numeric`).
pub uninterp spec fn alphanumeric(c: char) -> bool;

/// Calls `char::is_alphanumeric`; the answer is `alphanumeric(c)`.
#[verifier::external_body]
fn is_alphanumeric(c: char) -> (b: bool)
    ensures
        b == alphanumeric(c),
{
    c.is_alphanumeric()
}

/// The message when a decoding does not extend the previous one at a character
/// boundary.
pub open spec fn split_error_text() -> Seq<char> {
    "decoded text does not extend the previous decoding"@
}

/// `r` is the text piece released when the text decoded so far was `prev` and is
/// now `text`; `require_alnum` asks that the new text end in a letter or digit.
pub open spec fn released_piece(
    prev: Seq<char>,
    text: Seq<char>,
    require_alnum: bool,
    r: Result<Option<String>, WaxError>,
) -> bool {
    let pb = encode_utf8(prev);
    let tb = encode_utf8(text);
    if tb.len() > pb.len() && (!require_alnum || alphanumeric(text.last())) {
        if is_char_boundary(tb, pb.len() as int) {
            r matches Ok(Some(d)) && encode_utf8(d@) == tb.subrange(
                pb.len() as int,
                tb.len() as int,
            )
        } else {
            r matches Err(WaxError::Tokenizer(m)) && m@ == split_error_text()
        }
    } else {
        r matches Ok(None)
    }
}

/// The text added to `prev` by `text`, when `text` is longer (and, if asked,
/// ends in a letter or digit).
pub fn released_text(prev: &str, text: &str, require_alnum: bool) -> (r: Result<
    Option<String>,
    WaxError,
>)
    ensures
        released_piece(prev@, text@, require_alnum, r),
{
    let prev_len = byte_len(prev);
    let text_len = byte_len(text);
    if text_len <= prev_len {
        return Ok(None);
    }
    if require_alnum {
        let n = text.unicode_len();
        if n == 0 {
            return Ok(None);
        }
        if !is_alphanumeric(text.get_char(n - 1)) {
            return Ok(None);
        }
    }
    if !text.is_char_boundary(prev_len) {
        return Err(WaxError::Tokenizer(String::from_str("decoded text does not extend the previous decoding")));
    }
    proof {
        is_char_boundary_start_end_of_seq(encode_utf8(text@));
    }
    Ok(Some(substring_bytes(text, prev_len, text_len)))
}

/// The state of a token stream, as the contracts see it.
pub struct TokenStreamModel {
    /// The tokenizer the ids are decoded with.
    pub tokenizer: Tokenizer,
    pub tokens: Seq<u32>,
    pub prev_index: int,
    pub current_index: int,
}

/// Decodes token ids incrementally.
pub struct TokenOutputStream {
    tokenizer: Tokenizer,
    tokens: Vec<u32>,
    prev_index: usize,
    current_index: usize,
}

impl View for TokenOutputStream {
    type V = TokenStreamModel;

    closed spec fn view(&self) -> TokenStreamModel {
        TokenStreamModel {
            tokenizer: self.tokenizer,
            tokens: self.tokens@,
            prev_index: self.prev_index as int,
            current_index: self.current_index as int,
        }
    }
}

/// The indices stay inside the token list.
pub open spec fn stream_indices_ok(m: TokenStreamModel) -> bool {
    0 <= m.prev_index <= m.current_index <= m.tokens.len()
}

/// The decoding of the tokens already released from, between the two indices
/// (the empty text when there are no tokens yet).
pub open spec fn released_decoding(m: TokenStreamModel) -> Result<Seq<char>, Seq<char>> {
    if m.tokens.len() == 0 {
        Ok(Seq::empty())
    } else {
        decoded_text(m.tokenizer, m.tokens.subrange(m.prev_index, m.current_index))
    }
}

/// The decoding of the tokens from the first index on.
pub open spec fn pending_decoding(m: TokenStreamModel) -> Result<Seq<char>, Seq<char>> {
    decoded_text(m.tokenizer, m.tokens.subrange(m.prev_index, m.tokens.len() as int))
}

/// `r` is the piece released between the decodings `prev` and `text` (see
/// `released_piece`), or the tokenizer error of whichever decoding failed first.
pub open spec fn piece_from_decodings(
    prev: Result<Seq<char>, Seq<char>>,
    text: Result<Seq<char>, Seq<char>>,
    require_alnum: bool,
    r: Result<Option<String>, WaxError>,
) -> bool {
    match prev {
        Err(m) => r matches Err(WaxError::Tokenizer(e)) && e@ == m,
        Ok(p) => match text {
            Err(m) => r matches Err(WaxError::Tokenizer(e)) && e@ == m,
            Ok(t) => released_piece(p, t, require_alnum, r),
        },
    }
}

impl TokenOutputStream {
    /// A stream with no tokens yet, decoding with `tokenizer`.
    pub fn new(tokenizer: Tokenizer) -> (s: Self)
        ensures
            s@.tokenizer == tokenizer,
            s@.tokens.len() == 0,
            s@.prev_index == 0,
            s@.current_index == 0,
    {
        TokenOutputStream { tokenizer, tokens: Vec::new(), prev_index: 0, current_index: 0 }
    }

    /// The tokens between the two indices, decoded (empty when there are no tokens).
    fn decode_prev(&self) -> (r: Result<String, WaxError>)
        requires
            stream_indices_ok(self@),
        ensures
            match released_decoding(self@) {
                Ok(t) => r matches Ok(s) && s@ == t,
                Err(m) => r matches Err(WaxError::Tokenizer(e)) && e@ == m,
            },
    {
        if self.tokens.len() == 0 {
            return Ok(String::new());
        }
        let window = &self.tokens.as_slice()[self.prev_index..self.current_index];
        match decode_ids(&self.tokenizer, window) {
            Ok(text) => Ok(text),
            Err(msg) => Err(WaxError::Tokenizer(msg)),
        }
    }

    /// Takes the next token id; releases the text it adds once the decoded text
    /// grows and ends in a letter or digit.
    pub fn next_token(&mut self, token: u32) -> (r: Result<Option<String>, WaxError>)
        requires
            stream_indices_ok(old(self)@),
            old(self)@.tokens.len() < usize::MAX,
        ensures
            stream_indices_ok(final(self)@),
            final(self)@.tokenizer == old(self)@.tokenizer,
            final(self)@.tokens == if released_decoding(old(self)@) is Err {
                old(self)@.tokens
            } else {
                old(self)@.tokens.push(token)
            },
            piece_from_decodings(
                released_decoding(old(self)@),
                pending_decoding((TokenStreamModel { tokens: old(self)@.tokens.push(token), ..old(self)@ })),
                true,
                r,
            ),
            r matches Ok(Some(_)) ==> final(self)@.prev_index == old(self)@.current_index
                && final(self)@.current_index == final(self)@.tokens.len(),
            !(r matches Ok(Some(_))) ==> final(self)@.prev_index == old(self)@.prev_index
                && final(self)@.current_index == old(self)@.current_index,
    {
        let ghost m = self@;
        let prev_text = match self.decode_prev() {
            Ok(t) => t,
            Err(e) => {
                return Err(e);
            },
        };
        self.tokens.push(token);
        let window = &self.tokens.as_slice()[self.prev_index..self.tokens.len()];
        assert(window@ == self@.tokens.subrange(m.prev_index, self@.tokens.len() as int));
        assert(self@ == (TokenStreamModel { tokens: m.tokens.push(token), ..m }));
        let text = match decode_ids(&self.tokenizer, window) {
            Ok(text) => text,
            Err(msg) => {
                return Err(WaxError::Tokenizer(msg));
            },
        };
        let released = released_text(prev_text.as_str(), text.as_str(), true);
        match released {
            Ok(Some(delta)) => {
                self.prev_index = self.current_index;
                self.current_index = self.tokens.len();
                Ok(Some(delta))
            },
            Ok(None) => Ok(None),
            Err(e) => Err(e),
        }
    }

    /// The text not released yet, if the decoded text grew.
    pub fn decode_rest(&self) -> (r: Result<Option<String>, WaxError>)
        requires
            stream_indices_ok(self@),
        ensures
            piece_from_decodings(released_decoding(self@), pending_decoding(self@), false, r),
    {
        let prev_text = match self.decode_prev() {
            Ok(t) => t,
            Err(e) => {
                return Err(e);
            },
        };
        let window = &self.tokens.as_slice()[self.prev_index..self.tokens.len()];
        assert(window@ == self@.tokens.subrange(self@.prev_index, self@.tokens.len() as int));
        let text = match decode_ids(&self.tokenizer, window) {
            Ok(text) => text,
            Err(msg) => {
                return Err(WaxError::Tokenizer(msg));
            },
        };
        released_text(prev_text.as_str(), text.as_str(), false)
    }
}

/// Law: when the new decoding extends the previous one and grows (ending in a
/// letter or digit when that is asked), the piece released is exactly the added
/// text; a decoding that does not grow releases nothing; a released piece is
/// never empty.
pub proof fn law_released_piece(
    prev: Seq<char>,
    text: Seq<char>,
    require_alnum: bool,
    r: Result<Option<String>, WaxError>,
)
    requires
        released_piece(prev, text, require_alnum, r),
    ensures
        has_prefix(encode_utf8(text), encode_utf8(prev)) && encode_utf8(text).len() > encode_utf8(
            prev,
        ).len() && (!require_alnum || alphanumeric(text.last())) ==> (r matches Ok(Some(d))
            && prev + d@ == text),
        encode_utf8(text).len() <= encode_utf8(prev).len() ==> r matches Ok(None),
        r matches Ok(Some(d)) ==> d@.len() > 0,
{
    let pb = encode_utf8(prev);
    let tb = encode_utf8(text);
    if has_prefix(tb, pb) && tb.len() > pb.len() && (!require_alnum || alphanumeric(text.last())) {
        lemma_valid_prefix_boundary(tb, pb);
        let d = r->Ok_0->Some_0;
        lemma_encode_concat(prev, d@);
        assert(pb + encode_utf8(d@) =~= tb);
        assert(decode_utf8(encode_utf8(prev + d@)) == prev + d@);
        assert(decode_utf8(tb) == text);
    }
    if r is Ok && r->Ok_0 is Some {
        let d = r->Ok_0->Some_0;
        if d@.len() == 0 {
            assert(encode_utf8(d@) =~= Seq::<u8>::empty());
        }
    }
}

} // verus!
