use vstd::prelude::*;

verus! {

/// What a block's `i`-th frame holds when a waveform is played from `cursor`:
/// the waveform's sample there, or `silence` once the waveform has run out.
pub open spec fn block_frame<S>(wave: Seq<S>, cursor: int, i: int, silence: S) -> S {
    if cursor + i < wave.len() {
        wave[cursor + i]
    } else {
        silence
    }
}

/// Where the cursor stands after a block of `n` frames: `n` frames further on,
/// but never past the waveform's end.
pub open spec fn next_cursor(len: nat, cursor: nat, n: nat) -> nat {
    if cursor + n <= len {
        cursor + n
    } else {
        len
    }
}

/// Once the cursor has reached the end of the waveform, every frame of a
/// block is silence, whatever the block held before.
pub proof fn lemma_exhausted_block_silent<S>(wave: Seq<S>, cursor: int, i: int, silence: S)
    requires
        cursor >= wave.len(),
        i >= 0,
    ensures
        block_frame(wave, cursor, i, silence) == silence,
{
}

/// A chunk played block after block runs out: after `k` blocks of `n`
/// frames that reach past the waveform's end, the cursor stands at the end.
pub proof fn lemma_chunk_runs_out(len: nat, cursor: nat, n: nat, k: nat)
    requires
        cursor <= len,
        cursor + k * n >= len,
    ensures
        cursor_after(len, cursor, n, k) == len,
    decreases k,
{
    if k > 0 {
        assert((k - 1) * n + n == k * n) by (nonlinear_arith);
        lemma_chunk_runs_out(len, next_cursor(len, cursor, n), n, (k - 1) as nat);
    } else {
        assert(k * n == 0) by (nonlinear_arith)
            requires
                k == 0,
        ;
    }
}

/// The cursor after `k` blocks of `n` frames, starting from `cursor`.
pub open spec fn cursor_after(len: nat, cursor: nat, n: nat, k: nat) -> nat
    decreases k,
{
    if k == 0 {
        cursor
    } else {
        cursor_after(len, next_cursor(len, cursor, n), n, (k - 1) as nat)
    }
}

/// A waveform owned by the playback path, with a cursor over the samples
/// already emitted.
pub struct Chunk<S> {
    wave: Vec<S>,
    pos: usize,
}

impl<S: Copy> Chunk<S> {
    /// The samples the chunk owns.
    pub closed spec fn wave(&self) -> Seq<S> {
        self.wave@
    }

    /// How many samples have been emitted.
    pub closed spec fn cursor(&self) -> nat {
        self.pos as nat
    }

    /// The cursor never passes the end of the waveform.
    pub closed spec fn wf(&self) -> bool {
        self.pos <= self.wave@.len()
    }

    /// A chunk is exhausted once every sample has been emitted.
    pub open spec fn spec_exhausted(&self) -> bool {
        self.cursor() >= self.wave().len()
    }

    pub fn new(wave: Vec<S>) -> (r: Self)
        ensures
            r.wf(),
            r.wave() == wave@,
            r.cursor() == 0,
    {
        Chunk { wave, pos: 0 }
    }

    pub fn len(&self) -> (r: usize)
        ensures
            r == self.wave().len(),
    {
        self.wave.len()
    }

    pub fn position(&self) -> (r: usize)
        ensures
            r == self.cursor(),
    {
        self.pos
    }

    pub fn is_exhausted(&self) -> (r: bool)
        requires
            self.wf(),
        ensures
            r == self.spec_exhausted(),
    {
        self.pos >= self.wave.len()
    }

    /// Fills one block of output: the next samples of the waveform, then
    /// `silence` for every frame the waveform cannot cover. The cursor moves on
    /// by the whole block, stopping at the waveform's end.
    pub fn feed(&mut self, out: &mut [S], silence: S)
        requires
            old(self).wf(),
        ensures
            final(self).wf(),
            final(self).wave() == old(self).wave(),
            final(self).cursor() == next_cursor(
                old(self).wave().len(),
                old(self).cursor(),
                old(out)@.len(),
            ),
            final(out)@.len() == old(out)@.len(),
            forall|i: int|
                0 <= i < final(out)@.len() ==> #[trigger] final(out)@[i] == block_frame(
                    old(self).wave(),
                    old(self).cursor() as int,
                    i,
                    silence,
                ),
    {
        let n = out.len();
        let len = self.wave.len();
        let remaining = len - self.pos;
        let mut i: usize = 0;
        while i < n
            invariant
                i <= n,
                n == out@.len(),
                len == self.wave@.len(),
                self.pos <= len,
                remaining == len - self.pos,
                forall|k: int|
                    0 <= k < i ==> #[trigger] out@[k] == block_frame(
                        self.wave@,
                        self.pos as int,
                        k,
                        silence,
                    ),
            decreases n - i,
        {
            if i < remaining {
                out[i] = self.wave[self.pos + i];
            } else {
                out[i] = silence;
            }
            i = i + 1;
        }
        if n <= remaining {
            self.pos = self.pos + n;
        } else {
            self.pos = len;
        }
    }
}

} // verus!
