//! The token loop of the local captioning model: which part of the
//! sequence each step feeds, when generation stops, and which text a
//! streaming caller is handed after each token. The tensors, the sampling
//! and the tokenizer stay with the caller, which reports their results.
use vstd::prelude::*;
use vstd::utf8::{encode_utf8, is_char_boundary};

verus! {

/// Steps between two resynchronisations of the decoded length while
/// single tokens decode to text.
pub const RESYNC_INTERVAL: usize = 8;

/// The state of one generation.
pub struct TokenLoop {
    pub max_new_tokens: usize,
    pub eos_token_id: usize,
    pub use_kv_cache: bool,
    pub step: usize,
    pub idx_pos: usize,
    pub token_ids: Vec<u32>,
    pub last_decoded_len: usize,
    pub finished: bool,
}

/// The text handed out after a token: the token's own text when it
/// decodes to something, else what the full decode gained since the last
/// time, if anything.
pub open spec fn piece_out(
    last_piece: Option<Seq<char>>,
    full: Option<Seq<char>>,
    last_decoded_len: nat,
) -> Option<Seq<u8>> {
    if last_piece is Some && last_piece->0.len() > 0 {
        Some(encode_utf8(last_piece->0))
    } else {
        match full {
            Some(f) => if encode_utf8(f).len() > last_decoded_len {
                let part = encode_utf8(f).subrange(last_decoded_len as int, encode_utf8(f).len() as int);
                if part.len() > 0 {
                    Some(part)
                } else {
                    None
                }
            } else {
                None
            },
            None => None,
        }
    }
}

/// The decoded length remembered after a token.
pub open spec fn decoded_len_after(
    last_piece: Option<Seq<char>>,
    full: Option<Seq<char>>,
    last_decoded_len: nat,
    step: nat,
) -> nat {
    if last_piece is Some && last_piece->0.len() > 0 {
        if step % (RESYNC_INTERVAL as nat) == 0 && full is Some {
            encode_utf8(full->0).len()
        } else {
            last_decoded_len
        }
    } else {
        match full {
            Some(f) => if encode_utf8(f).len() > last_decoded_len {
                encode_utf8(f).len()
            } else {
                last_decoded_len
            },
            None => last_decoded_len,
        }
    }
}

impl TokenLoop {
    /// A generation of at most `max_new_tokens` tokens, stopping at
    /// `eos_token_id`.
    pub fn new(max_new_tokens: usize, eos_token_id: usize, use_kv_cache: bool) -> (r: Self)
        ensures
            r.max_new_tokens == max_new_tokens,
            r.eos_token_id == eos_token_id,
            r.use_kv_cache == use_kv_cache,
            r.step == 0,
            r.idx_pos == 0,
            r.token_ids@.len() == 0,
            r.last_decoded_len == 0,
            !r.finished,
    {
        TokenLoop {
            max_new_tokens,
            eos_token_id,
            use_kv_cache,
            step: 0,
            idx_pos: 0,
            token_ids: Vec::new(),
            last_decoded_len: 0,
            finished: false,
        }
    }

    /// Whether another step runs.
    pub fn is_running(&self) -> (r: bool)
        ensures
            r == (!self.finished && self.step < self.max_new_tokens),
    {
        !self.finished && self.step < self.max_new_tokens
    }

    /// The part of a sequence of `total_len` positions that this step
    /// feeds, as (number of positions, starting position in the cache):
    /// with a cache, after the first step, only the last position;
    /// otherwise all of it.
    pub fn context(&self, total_len: usize) -> (r: (usize, usize))
        ensures
            r == (if self.use_kv_cache && self.step > 0 {
                (1usize, self.idx_pos)
            } else {
                (total_len, 0usize)
            }),
    {
        if self.use_kv_cache && self.step > 0 {
            (1, self.idx_pos)
        } else {
            (total_len, 0)
        }
    }

    /// Records that `input_len` positions were fed.
    pub fn fed(&mut self, input_len: usize)
        requires
            old(self).idx_pos + input_len <= usize::MAX,
        ensures
            final(self).idx_pos == old(self).idx_pos + input_len,
            final(self).step == old(self).step,
            final(self).token_ids == old(self).token_ids,
            final(self).last_decoded_len == old(self).last_decoded_len,
            final(self).finished == old(self).finished,
            final(self).max_new_tokens == old(self).max_new_tokens,
            final(self).eos_token_id == old(self).eos_token_id,
            final(self).use_kv_cache == old(self).use_kv_cache,
    {
        self.idx_pos = self.idx_pos + input_len;
    }

    /// Takes the token sampled in the current step, which must still run
    /// and must not have taken one yet: the end-of-sequence token finishes
    /// the generation (and is not kept); any other is appended. Returns
    /// whether the token was kept. So at most one token is kept per step,
    /// and never more than `max_new_tokens` in all.
    pub fn accept(&mut self, token: u32) -> (kept: bool)
        requires
            !old(self).finished,
            old(self).step < old(self).max_new_tokens,
            old(self).token_ids@.len() <= old(self).step,
        ensures
            final(self).token_ids@.len() <= final(self).step + 1,
            final(self).token_ids@.len() <= final(self).max_new_tokens,
            kept == (token as int != old(self).eos_token_id as int),
            kept ==> final(self).token_ids@ == old(self).token_ids@.push(token) && final(self).finished
                == old(self).finished,
            !kept ==> final(self).token_ids == old(self).token_ids && final(self).finished,
            final(self).step == old(self).step,
            final(self).idx_pos == old(self).idx_pos,
            final(self).last_decoded_len == old(self).last_decoded_len,
            final(self).max_new_tokens == old(self).max_new_tokens,
            final(self).eos_token_id == old(self).eos_token_id,
            final(self).use_kv_cache == old(self).use_kv_cache,
    {
        if token as u64 == self.eos_token_id as u64 {
            self.finished = true;
            false
        } else {
            self.token_ids.push(token);
            true
        }
    }

    /// Ends a step that produced no streamed text.
    pub fn advance(&mut self)
        requires
            old(self).step < old(self).max_new_tokens,
        ensures
            final(self).step == old(self).step + 1,
            final(self).token_ids == old(self).token_ids,
            final(self).idx_pos == old(self).idx_pos,
            final(self).last_decoded_len == old(self).last_decoded_len,
            final(self).finished == old(self).finished,
            final(self).max_new_tokens == old(self).max_new_tokens,
            final(self).eos_token_id == old(self).eos_token_id,
            final(self).use_kv_cache == old(self).use_kv_cache,
    {
        self.step = self.step + 1;
    }

    /// Ends a streamed step, given the text of the kept token alone
    /// (`last_piece`) and of all tokens so far (`full`), when they decode;
    /// returns the text to hand to the caller.
    pub fn stream_step(&mut self, last_piece: Option<String>, full: Option<String>) -> (r: Option<String>)
        requires
            old(self).step < old(self).max_new_tokens,
            full is Some ==> encode_utf8(full->0@).len() <= usize::MAX,
            !(last_piece is Some && last_piece->0@.len() > 0) && full is Some && encode_utf8(full->0@).len()
                > old(self).last_decoded_len ==> is_char_boundary(
                encode_utf8(full->0@),
                old(self).last_decoded_len as int,
            ),
        ensures
            match r {
                Some(t) => piece_out(
                    match last_piece {
                        Some(p) => Some(p@),
                        None => None,
                    },
                    match full {
                        Some(f) => Some(f@),
                        None => None,
                    },
                    old(self).last_decoded_len as nat,
                ) == Some(encode_utf8(t@)),
                None => piece_out(
                    match last_piece {
                        Some(p) => Some(p@),
                        None => None,
                    },
                    match full {
                        Some(f) => Some(f@),
                        None => None,
                    },
                    old(self).last_decoded_len as nat,
                ) is None,
            },
            final(self).last_decoded_len as nat == decoded_len_after(
                match last_piece {
                    Some(p) => Some(p@),
                    None => None,
                },
                match full {
                    Some(f) => Some(f@),
                    None => None,
                },
                old(self).last_decoded_len as nat,
                old(self).step as nat,
            ),
            final(self).step == old(self).step + 1,
            final(self).token_ids == old(self).token_ids,
            final(self).idx_pos == old(self).idx_pos,
            final(self).finished == old(self).finished,
            final(self).max_new_tokens == old(self).max_new_tokens,
            final(self).eos_token_id == old(self).eos_token_id,
            final(self).use_kv_cache == old(self).use_kv_cache,
    {
        let emitted = match &last_piece {
            Some(p) => !p.as_str().is_empty(),
            None => false,
        };
        let out = if emitted {
            if self.step % RESYNC_INTERVAL == 0 {
                match &full {
                    Some(f) => {
                        self.last_decoded_len = f.as_str().len();
                    },
                    None => {},
                }
            }
            last_piece
        } else {
            match &full {
                Some(f) => {
                    let n = f.as_str().len();
                    if n > self.last_decoded_len {
                        let (_, part) = f.as_str().split_at(self.last_decoded_len);
                        self.last_decoded_len = n;
                        if part.is_empty() {
                            None
                        } else {
                            Some(part.to_owned())
                        }
                    } else {
                        None
                    }
                },
                None => None,
            }
        };
        self.step = self.step + 1;
        out
    }
}

} // verus!
