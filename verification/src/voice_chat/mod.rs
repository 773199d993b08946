//! Streaming voice replies: the checks on a request, the reply text handed to
//! speech synthesis, and the cutting of synthesized pieces into numbered
//! chunks, the last of which is marked. Talking to the language model, running
//! synthesis and delivering the chunks happen outside this library.

use vstd::prelude::*;
use crate::textops;
use crate::tts::wav::TtsPcm16Result;

verus! {

/// One chunk of the spoken reply.
#[derive(Debug, Clone)]
pub struct VoiceChunk {
    /// Position of the chunk in the stream, from 0.
    pub seq: u64,
    pub pcm16: Vec<i16>,
    /// Whether this is the final chunk of the reply.
    pub is_last: bool,
}

/// Errors of a voice chat.
#[derive(Debug)]
pub enum VoiceChatError {
    Llm(String),
    Tts(String),
    Canceled,
    Internal(String),
}

/// The checks made before a voice chat starts, in this order: not canceled,
/// a positive chunk length, and a speaker and both checkpoints that are not
/// blank.
pub fn check_request(
    canceled: bool,
    chunk_ms: u32,
    spk_id: &str,
    llm_ckpt: &str,
    flow_ckpt: &str,
) -> (r: Result<(), VoiceChatError>)
    ensures
        canceled ==> r matches Err(VoiceChatError::Canceled),
        !canceled && chunk_ms == 0 ==> (r matches Err(VoiceChatError::Internal(m)) && m@
            == "chunk_ms must be > 0"@),
        !canceled && chunk_ms > 0 && textops::all_ws(spk_id@) ==> (r matches Err(
            VoiceChatError::Internal(m),
        ) && m@ == "spk_id is empty"@),
        !canceled && chunk_ms > 0 && !textops::all_ws(spk_id@) && textops::all_ws(llm_ckpt@) ==> (
        r matches Err(VoiceChatError::Internal(m)) && m@ == "llm_ckpt is empty"@),
        !canceled && chunk_ms > 0 && !textops::all_ws(spk_id@) && !textops::all_ws(llm_ckpt@)
            && textops::all_ws(flow_ckpt@) ==> (r matches Err(VoiceChatError::Internal(m)) && m@
            == "flow_ckpt is empty"@),
        r is Ok <==> !canceled && chunk_ms > 0 && !textops::all_ws(spk_id@) && !textops::all_ws(
            llm_ckpt@,
        ) && !textops::all_ws(flow_ckpt@),
{
    if canceled {
        return Err(VoiceChatError::Canceled);
    }
    if chunk_ms == 0 {
        return Err(VoiceChatError::Internal("chunk_ms must be > 0".to_owned()));
    }
    if textops::is_blank(&textops::chars_of(spk_id)) {
        return Err(VoiceChatError::Internal("spk_id is empty".to_owned()));
    }
    if textops::is_blank(&textops::chars_of(llm_ckpt)) {
        return Err(VoiceChatError::Internal("llm_ckpt is empty".to_owned()));
    }
    if textops::is_blank(&textops::chars_of(flow_ckpt)) {
        return Err(VoiceChatError::Internal("flow_ckpt is empty".to_owned()));
    }
    Ok(())
}

/// Whether `n` bytes end at a character of `s` in UTF-8.
pub open spec fn on_char_boundary(s: Seq<char>, n: int) -> bool {
    exists|k: int| 0 <= k <= s.len() && textops::utf8_len(#[trigger] s.take(k)) == n
}

/// The text to speak: the model's reply, trimmed, and cut to at most
/// `max_text_len` bytes of UTF-8. The cut must fall between characters.
pub fn reply_text(reply: &str, max_text_len: usize) -> (r: String)
    requires
        textops::utf8_len(textops::trim(reply@)) <= max_text_len || on_char_boundary(
            textops::trim(reply@),
            max_text_len as int,
        ),
    ensures
        r@ == textops::prefix_within(textops::trim(reply@), max_text_len as int),
        textops::utf8_len(textops::trim(reply@)) <= max_text_len ==> r@ == textops::trim(reply@),
        forall|k: int|
            0 <= k <= textops::trim(reply@).len() && textops::utf8_len(
                #[trigger] textops::trim(reply@).take(k),
            ) == max_text_len ==> r@ == textops::trim(reply@).take(k),
{
    let t = textops::trim_vec(&textops::chars_of(reply));
    let cut = textops::prefix_within_vec(&t, max_text_len);
    proof {
        textops::lemma_prefix_within_len(t@, max_text_len as int);
        if textops::utf8_len(t@) <= max_text_len {
            assert(cut@ =~= t@) by {
                textops::lemma_prefix_within_fits(t@, max_text_len as int);
            }
        }
        assert forall|k: int|
            0 <= k <= t@.len() && textops::utf8_len(#[trigger] t@.take(k)) == max_text_len implies cut@
            == t@.take(k) by {
            textops::lemma_prefix_within_boundary(t@, k);
        }
    }
    textops::string_of(cut.as_slice())
}

/// Samples per chunk: `sample_rate * chunk_ms / 1000`, at least one.
pub open spec fn chunk_len_spec(sample_rate: u32, chunk_ms: u32) -> int {
    let n = sample_rate as int * chunk_ms as int / 1000;
    if n < 1 {
        1
    } else {
        n
    }
}

/// `chunk_len_spec` computed.
pub fn chunk_len(sample_rate: u32, chunk_ms: u32) -> (r: u64)
    ensures
        r == chunk_len_spec(sample_rate, chunk_ms),
        r >= 1,
{
    assert(sample_rate as u64 * chunk_ms as u64 <= 0xFFFF_FFFFu64 * 0xFFFF_FFFFu64) by (nonlinear_arith);
    let n = (sample_rate as u64) * (chunk_ms as u64) / 1000;
    if n < 1 {
        1
    } else {
        n
    }
}

/// Number of chunks of `n` samples that cover `len` samples.
pub open spec fn chunk_count(len: int, n: int) -> int {
    (len + n - 1) / n
}

/// The samples of the `k`-th chunk: `k*n .. min((k+1)*n, len)`.
pub open spec fn chunk_at(pcm: Seq<i16>, n: int, k: int) -> Seq<i16> {
    let end = if (k + 1) * n < pcm.len() {
        (k + 1) * n
    } else {
        pcm.len() as int
    };
    pcm.subrange(k * n, end)
}

/// `out` cuts `pcm` into chunks of `n` samples (the final one possibly
/// shorter), numbered from `first_seq`; when `last` holds, the final chunk is
/// marked as the end of the reply, and no other chunk is.
pub open spec fn chunks_of(out: Seq<VoiceChunk>, pcm: Seq<i16>, n: int, first_seq: int, last: bool) -> bool {
    &&& out.len() == chunk_count(pcm.len() as int, n)
    &&& forall|k: int|
        0 <= k < out.len() ==> {
            &&& (#[trigger] out[k]).seq == first_seq + k
            &&& out[k].pcm16@ == chunk_at(pcm, n, k)
            &&& out[k].is_last == (last && k == out.len() - 1)
        }
}

/// The samples of a run of chunks, in order.
pub open spec fn joined(c: Seq<VoiceChunk>) -> Seq<i16>
    decreases c.len(),
{
    if c.len() == 0 {
        Seq::empty()
    } else {
        joined(c.drop_last()) + c.last().pcm16@
    }
}

proof fn lemma_chunk_bounds(len: int, n: int, k: int)
    requires
        len >= 0,
        n >= 1,
        0 <= k,
    ensures
        k < chunk_count(len, n) <==> k * n < len,
        k * n + n == (k + 1) * n,
{
    assert(k * n + n == (k + 1) * n) by (nonlinear_arith);
    assert(k < (len + n - 1) / n ==> k * n < len) by (nonlinear_arith)
        requires
            len >= 0,
            n >= 1,
            k >= 0,
    ;
    assert(k * n < len ==> k < (len + n - 1) / n) by (nonlinear_arith)
        requires
            len >= 0,
            n >= 1,
            k >= 0,
    ;
}

/// The `pcm` samples in chunks of `n`, numbered from `first_seq`; the final
/// chunk is marked as the end of the reply when `last` holds.
pub fn split_into_chunks(pcm: &[i16], n: u64, first_seq: u64, last: bool) -> (out: Vec<VoiceChunk>)
    requires
        n >= 1,
        first_seq + pcm@.len() <= u64::MAX,
    ensures
        chunks_of(out@, pcm@, n as int, first_seq as int, last),
{
    let len = pcm.len();
    let mut out: Vec<VoiceChunk> = Vec::new();
    let mut start: usize = 0;
    proof {
        lemma_chunk_bounds(len as int, n as int, 0);
    }
    while start < len
        invariant
            len == pcm@.len(),
            n >= 1,
            first_seq + len <= u64::MAX,
            start <= len,
            out@.len() <= start,
            start < len ==> start == out@.len() * n,
            start < len ==> out@.len() < chunk_count(len as int, n as int),
            start == len ==> out@.len() == chunk_count(len as int, n as int),
            forall|k: int|
                0 <= k < out@.len() ==> {
                    &&& (#[trigger] out@[k]).seq == first_seq + k
                    &&& out@[k].pcm16@ == chunk_at(pcm@, n as int, k)
                    &&& out@[k].is_last == (last && k == chunk_count(len as int, n as int) - 1)
                },
        decreases len - start,
    {
        let k: usize = out.len();
        proof {
            lemma_chunk_bounds(len as int, n as int, k as int);
            lemma_chunk_bounds(len as int, n as int, k + 1);
        }
        let rem: usize = len - start;
        let end: usize = if (rem as u64) > n {
            start + (n as usize)
        } else {
            len
        };
        let mut piece: Vec<i16> = Vec::new();
        let mut i: usize = start;
        while i < end
            invariant
                start <= i <= end <= len,
                len == pcm@.len(),
                piece@ == pcm@.subrange(start as int, i as int),
            decreases end - i,
        {
            piece.push(pcm[i]);
            i = i + 1;
        }
        let is_last = last && end == len;
        let seq: u64 = first_seq + (k as u64);
        out.push(VoiceChunk { seq, pcm16: piece, is_last });
        proof {
            assert(piece@ == chunk_at(pcm@, n as int, k as int));
            assert(end == len <==> k + 1 == chunk_count(len as int, n as int));
        }
        start = end;
    }
    out
}

/// The chunks together hold exactly the samples that were cut.
pub proof fn lemma_chunks_join(out: Seq<VoiceChunk>, pcm: Seq<i16>, n: int, first_seq: int, last: bool)
    requires
        n >= 1,
        chunks_of(out, pcm, n, first_seq, last),
    ensures
        joined(out) == pcm,
{
    lemma_joined_prefix(out, pcm, n, first_seq, last, out.len() as int);
    assert(out.take(out.len() as int) =~= out);
    lemma_chunk_bounds(pcm.len() as int, n, out.len() as int);
    assert(pcm.subrange(0, pcm.len() as int) =~= pcm);
}

proof fn lemma_joined_prefix(out: Seq<VoiceChunk>, pcm: Seq<i16>, n: int, first_seq: int, last: bool, m: int)
    requires
        n >= 1,
        chunks_of(out, pcm, n, first_seq, last),
        0 <= m <= out.len(),
    ensures
        joined(out.take(m)) == pcm.subrange(
            0,
            if m * n < pcm.len() {
                m * n
            } else {
                pcm.len() as int
            },
        ),
    decreases m,
{
    if m == 0 {
        assert(m * n == 0);
        assert(out.take(0) =~= Seq::<VoiceChunk>::empty());
        assert(pcm.subrange(0, 0) =~= Seq::<i16>::empty());
    } else {
        lemma_joined_prefix(out, pcm, n, first_seq, last, m - 1);
        lemma_chunk_bounds(pcm.len() as int, n, m - 1);
        assert(out.take(m).drop_last() =~= out.take(m - 1));
        assert(out.take(m).last() == out[m - 1]);
        let k = m - 1;
        assert(out[k].pcm16@ == chunk_at(pcm, n, k));
        assert(k * n < pcm.len());
        let e = if m * n < pcm.len() {
            m * n
        } else {
            pcm.len() as int
        };
        assert(pcm.subrange(0, k * n) + pcm.subrange(k * n, e) =~= pcm.subrange(0, e));
    }
}

/// The synthesized pieces of a reply waiting to be sent as chunks. The newest
/// piece is held back until the next one arrives or synthesis ends, so that
/// the final chunk of the reply can be marked. Each piece is cut into chunks
/// of `chunk_ms` milliseconds at its own sample rate.
pub struct ChunkStream {
    /// Length of a chunk in milliseconds.
    pub chunk_ms: u32,
    /// Number of the next chunk to send.
    pub next_seq: u64,
    /// The piece held back.
    pub pending: Option<TtsPcm16Result>,
}

/// Samples held back by a stream.
pub open spec fn pending_len(s: &ChunkStream) -> int {
    match s.pending {
        Some(p) => p.pcm16@.len() as int,
        None => 0,
    }
}

/// The chunks of a piece sent by a stream that cuts `chunk_ms` milliseconds.
pub open spec fn piece_chunks(out: Seq<VoiceChunk>, p: TtsPcm16Result, chunk_ms: u32, first_seq: int, last: bool) -> bool {
    chunks_of(out, p.pcm16@, chunk_len_spec(p.sample_rate, chunk_ms), first_seq, last)
}

impl ChunkStream {
    /// A stream with nothing sent and nothing held back.
    pub fn new(chunk_ms: u32) -> (s: ChunkStream)
        ensures
            s.chunk_ms == chunk_ms,
            s.next_seq == 0,
            s.pending is None,
    {
        ChunkStream { chunk_ms, next_seq: 0, pending: None }
    }

    /// Cuts the held-back piece into chunks numbered on from `next_seq`.
    fn cut_pending(&mut self, p: TtsPcm16Result, last: bool) -> (out: Vec<VoiceChunk>)
        requires
            old(self).next_seq + p.pcm16@.len() <= u64::MAX,
        ensures
            final(self).chunk_ms == old(self).chunk_ms,
            final(self).pending == old(self).pending,
            final(self).next_seq == old(self).next_seq + out@.len(),
            piece_chunks(out@, p, old(self).chunk_ms, old(self).next_seq as int, last),
    {
        let n = chunk_len(p.sample_rate, self.chunk_ms);
        let out = split_into_chunks(p.pcm16.as_slice(), n, self.next_seq, last);
        proof {
            assert(out@.len() <= p.pcm16@.len()) by (nonlinear_arith)
                requires
                    out@.len() == chunk_count(p.pcm16@.len() as int, n as int),
                    n >= 1,
            ;
        }
        self.next_seq = self.next_seq + (out.len() as u64);
        out
    }

    /// Takes in a new piece: the piece held back until now is cut into
    /// chunks, none of them final, and the new piece is held back instead.
    pub fn push_piece(&mut self, piece: TtsPcm16Result) -> (out: Vec<VoiceChunk>)
        requires
            old(self).next_seq + pending_len(&*old(self)) <= u64::MAX,
        ensures
            final(self).chunk_ms == old(self).chunk_ms,
            final(self).pending == Some(piece),
            final(self).next_seq == old(self).next_seq + out@.len(),
            match old(self).pending {
                Some(p) => piece_chunks(out@, p, old(self).chunk_ms, old(self).next_seq as int, false),
                None => out@.len() == 0,
            },
    {
        let prev = self.pending.take();
        let out = match prev {
            Some(p) => self.cut_pending(p, false),
            None => Vec::new(),
        };
        self.pending = Some(piece);
        out
    }

    /// Synthesis has ended: the piece held back is cut into chunks, the final
    /// one marked as the end of the reply.
    pub fn finish(&mut self) -> (out: Vec<VoiceChunk>)
        requires
            old(self).next_seq + pending_len(&*old(self)) <= u64::MAX,
        ensures
            final(self).chunk_ms == old(self).chunk_ms,
            final(self).pending is None,
            final(self).next_seq == old(self).next_seq + out@.len(),
            match old(self).pending {
                Some(p) => piece_chunks(out@, p, old(self).chunk_ms, old(self).next_seq as int, true),
                None => out@.len() == 0,
            },
    {
        let prev = self.pending.take();
        match prev {
            Some(p) => self.cut_pending(p, true),
            None => Vec::new(),
        }
    }
}

/// The chunks of a run of calls, in the order they were sent.
pub open spec fn all_chunks(outs: Seq<Seq<VoiceChunk>>) -> Seq<VoiceChunk>
    decreases outs.len(),
{
    if outs.len() == 0 {
        Seq::empty()
    } else {
        all_chunks(outs.drop_last()) + outs.last()
    }
}

/// The samples of a run of pieces, in order.
pub open spec fn all_samples(pieces: Seq<TtsPcm16Result>) -> Seq<i16>
    decreases pieces.len(),
{
    if pieces.len() == 0 {
        Seq::empty()
    } else {
        all_samples(pieces.drop_last()) + pieces.last().pcm16@
    }
}

/// The samples of two runs of chunks, one after the other.
proof fn lemma_joined_append(a: Seq<VoiceChunk>, b: Seq<VoiceChunk>)
    ensures
        joined(a + b) == joined(a) + joined(b),
    decreases b.len(),
{
    if b.len() == 0 {
        assert(a + b =~= a);
        assert(joined(a) + joined(b) =~= joined(a));
    } else {
        assert((a + b).drop_last() =~= a + b.drop_last());
        assert((a + b).last() == b.last());
        lemma_joined_append(a, b.drop_last());
        assert(joined(a + b) =~= joined(a) + joined(b));
    }
}

/// `outs[i]` are the chunks a stream cutting `chunk_ms` milliseconds sends
/// for the `i`-th of `pieces`: numbered on from the chunks before, and the
/// final piece's cut as the end of the reply.
pub open spec fn stream_run(pieces: Seq<TtsPcm16Result>, chunk_ms: u32, outs: Seq<Seq<VoiceChunk>>) -> bool {
    &&& outs.len() == pieces.len()
    &&& forall|i: int|
        0 <= i < outs.len() ==> piece_chunks(
            #[trigger] outs[i],
            pieces[i],
            chunk_ms,
            all_chunks(outs.take(i)).len() as int,
            i == outs.len() - 1,
        )
}

proof fn lemma_stream_prefix(pieces: Seq<TtsPcm16Result>, chunk_ms: u32, outs: Seq<Seq<VoiceChunk>>, m: int)
    requires
        stream_run(pieces, chunk_ms, outs),
        0 <= m <= outs.len(),
    ensures
        forall|k: int|
            0 <= k < all_chunks(outs.take(m)).len() ==> (#[trigger] all_chunks(outs.take(m))[k]).seq
                == k,
        joined(all_chunks(outs.take(m))) == all_samples(pieces.take(m)),
        forall|k: int|
            0 <= k < all_chunks(outs.take(m)).len() && (#[trigger] all_chunks(outs.take(m))[k]).is_last
                ==> m == outs.len() && k == all_chunks(outs.take(m)).len() - 1
                && pieces[m - 1].pcm16@.len() > 0,
    decreases m,
{
    if m == 0 {
        assert(outs.take(0) =~= Seq::<Seq<VoiceChunk>>::empty());
        assert(pieces.take(0) =~= Seq::<TtsPcm16Result>::empty());
    } else {
        lemma_stream_prefix(pieces, chunk_ms, outs, m - 1);
        let i = m - 1;
        assert(outs.take(m).drop_last() =~= outs.take(i));
        assert(outs.take(m).last() == outs[i]);
        assert(pieces.take(m).drop_last() =~= pieces.take(i));
        assert(pieces.take(m).last() == pieces[i]);
        let prev = all_chunks(outs.take(i));
        let cur = outs[i];
        let f = all_chunks(outs.take(m));
        assert(f == prev + cur);
        let n = chunk_len_spec(pieces[i].sample_rate, chunk_ms);
        assert(piece_chunks(outs[i], pieces[i], chunk_ms, prev.len() as int, i == outs.len() - 1));
        lemma_chunks_join(cur, pieces[i].pcm16@, n, prev.len() as int, i == outs.len() - 1);
        lemma_joined_append(prev, cur);
        lemma_chunk_bounds(pieces[i].pcm16@.len() as int, n, 0);
        assert forall|k: int| 0 <= k < f.len() implies (#[trigger] f[k]).seq == k by {
            if k >= prev.len() {
                assert(f[k] == cur[k - prev.len()]);
            } else {
                assert(f[k] == prev[k]);
            }
        }
        assert forall|k: int| 0 <= k < f.len() && (#[trigger] f[k]).is_last implies m == outs.len()
            && k == f.len() - 1 && pieces[m - 1].pcm16@.len() > 0 by {
            if k >= prev.len() {
                assert(f[k] == cur[k - prev.len()]);
            } else {
                assert(f[k] == prev[k]);
            }
        }
    }
}

/// What a stream sends over a whole reply: the chunks are numbered 0, 1, 2,
/// ... without gaps; together they hold every piece's samples, in order; each
/// holds between one sample and one chunk length at its piece's rate; and the
/// last chunk sent, and no other, is marked as the end of the reply, provided
/// the final piece has samples.
pub proof fn lemma_stream_sends_all(pieces: Seq<TtsPcm16Result>, chunk_ms: u32, outs: Seq<Seq<VoiceChunk>>)
    requires
        stream_run(pieces, chunk_ms, outs),
    ensures
        forall|k: int| 0 <= k < all_chunks(outs).len() ==> (#[trigger] all_chunks(outs)[k]).seq == k,
        joined(all_chunks(outs)) == all_samples(pieces),
        forall|k: int|
            0 <= k < all_chunks(outs).len() ==> ((#[trigger] all_chunks(outs)[k]).is_last <==> (k
                == all_chunks(outs).len() - 1 && pieces.last().pcm16@.len() > 0)),
        forall|i: int, j: int|
            0 <= i < outs.len() && 0 <= j < outs[i].len() ==> 1 <= (#[trigger] outs[i][j]).pcm16@.len()
                <= chunk_len_spec(pieces[i].sample_rate, chunk_ms),
{
    let len = outs.len() as int;
    lemma_stream_prefix(pieces, chunk_ms, outs, len);
    assert(outs.take(len) =~= outs);
    assert(pieces.take(len) =~= pieces);
    let f = all_chunks(outs);
    if len > 0 {
        let i = len - 1;
        let prev = all_chunks(outs.take(i));
        assert(outs.drop_last() =~= outs.take(i));
        assert(f == prev + outs[i]);
        assert(piece_chunks(outs[i], pieces[i], chunk_ms, prev.len() as int, true));
        let n = chunk_len_spec(pieces[i].sample_rate, chunk_ms);
        lemma_chunk_bounds(pieces[i].pcm16@.len() as int, n, 0);
        if pieces.last().pcm16@.len() > 0 {
            let c = outs[i].len() - 1;
            assert(f[f.len() - 1] == outs[i][c]);
        }
    }
    assert forall|i: int, j: int| 0 <= i < outs.len() && 0 <= j < outs[i].len() implies 1 <= (
    #[trigger] outs[i][j]).pcm16@.len() <= chunk_len_spec(pieces[i].sample_rate, chunk_ms) by {
        let n = chunk_len_spec(pieces[i].sample_rate, chunk_ms);
        let plen = pieces[i].pcm16@.len() as int;
        assert(piece_chunks(outs[i], pieces[i], chunk_ms, all_chunks(outs.take(i)).len() as int, i == outs.len() - 1));
        lemma_chunk_bounds(plen, n, j);
    }
}

} // verus!
