use vstd::prelude::*;
use crate::chunk::{block_frame, next_cursor, Chunk};

verus! {

/// A message from the control path to the audio path.
pub enum Msg<S> {
    Play(Chunk<S>),
    Stop,
}

/// A single-slot hand-off in which a newer message replaces one not yet taken.
pub struct Mailbox<T> {
    slot: Option<T>,
}

impl<T> Mailbox<T> {
    /// The message waiting to be taken, if any.
    pub closed spec fn pending(&self) -> Option<T> {
        self.slot
    }

    pub fn new() -> (r: Self)
        ensures
            r.pending() is None,
    {
        Mailbox { slot: None }
    }

    /// Leaves `m` in the slot, discarding a message that was not yet taken.
    pub fn post(&mut self, m: T)
        ensures
            final(self).pending() == Some(m),
    {
        self.slot = Some(m);
    }

    /// Takes the waiting message out of the slot.
    pub fn take(&mut self) -> (r: Option<T>)
        ensures
            r == old(self).pending(),
            final(self).pending() is None,
    {
        self.slot.take()
    }
}

/// The chunk that plays after `msg` has been applied to a voice playing
/// `current`: a `Play` replaces it, a `Stop` ends it, no message keeps it.
pub open spec fn apply_msg<S>(current: Option<Chunk<S>>, msg: Option<Msg<S>>) -> Option<Chunk<S>> {
    match msg {
        Some(Msg::Play(c)) => Some(c),
        Some(Msg::Stop) => None,
        None => current,
    }
}

/// The `i`-th frame of the block that a voice playing `current` renders.
pub open spec fn voice_frame<S: Copy>(current: Option<Chunk<S>>, i: int, silence: S) -> S {
    match current {
        Some(c) => block_frame(c.wave(), c.cursor() as int, i, silence),
        None => silence,
    }
}

/// A `Play` message carries a chunk whose cursor lies within its waveform.
pub open spec fn msg_wf<S: Copy>(msg: Option<Msg<S>>) -> bool {
    match msg {
        Some(Msg::Play(c)) => c.wf(),
        _ => true,
    }
}

/// The audio path's playback state: idle, or playing one chunk.
pub struct Voice<S> {
    current: Option<Chunk<S>>,
}

impl<S: Copy> Voice<S> {
    /// The chunk being played, if any.
    pub closed spec fn playing(&self) -> Option<Chunk<S>> {
        self.current
    }

    pub open spec fn wf(&self) -> bool {
        match self.playing() {
            Some(c) => c.wf(),
            None => true,
        }
    }

    pub fn new() -> (r: Self)
        ensures
            r.wf(),
            r.playing() is None,
    {
        Voice { current: None }
    }

    pub fn is_idle(&self) -> (r: bool)
        ensures
            r == (self.playing() is None),
    {
        self.current.is_none()
    }

    /// Applies one message: `Play` replaces whatever was playing, `Stop` ends it.
    pub fn handle(&mut self, msg: Msg<S>)
        ensures
            final(self).playing() == apply_msg(old(self).playing(), Some(msg)),
    {
        match msg {
            Msg::Play(c) => {
                self.current = Some(c);
            },
            Msg::Stop => {
                self.current = None;
            },
        }
    }

    /// One audio block: applies the message taken this block, if any, then
    /// fills `out` from the chunk being played, or with silence when idle.
    pub fn render(&mut self, msg: Option<Msg<S>>, out: &mut [S], silence: S)
        requires
            old(self).wf(),
            msg_wf(msg),
        ensures
            final(self).wf(),
            final(out)@.len() == old(out)@.len(),
            forall|i: int|
                0 <= i < final(out)@.len() ==> #[trigger] final(out)@[i] == voice_frame(
                    apply_msg(old(self).playing(), msg),
                    i,
                    silence,
                ),
            match apply_msg(old(self).playing(), msg) {
                Some(c) => final(self).playing() matches Some(d) && d.wave() == c.wave()
                    && d.cursor() == next_cursor(c.wave().len(), c.cursor(), old(out)@.len()),
                None => final(self).playing() is None,
            },
    {
        match msg {
            Some(m) => self.handle(m),
            None => {},
        }
        match &mut self.current {
            Some(c) => {
                c.feed(out, silence);
            },
            None => {
                let n = out.len();
                let mut i: usize = 0;
                while i < n
                    invariant
                        i <= n,
                        n == out@.len(),
                        forall|k: int| 0 <= k < i ==> #[trigger] out@[k] == silence,
                    decreases n - i,
                {
                    out[i] = silence;
                    i = i + 1;
                }
            },
        }
    }
}

/// A `Stop` silences the block in which it is taken, whatever was playing,
/// and every later block without a message is silent too: no sample of the
/// stopped chunk comes back.
pub proof fn lemma_stop_silences<S: Copy>(current: Option<Chunk<S>>, k: nat, i: int, silence: S)
    requires
        i >= 0,
    ensures
        voice_frame(apply_msg(current, Some(Msg::Stop)), i, silence) == silence,
        state_after_idle_blocks(apply_msg(current, Some(Msg::Stop)), k) is None,
        voice_frame(state_after_idle_blocks(apply_msg(current, Some(Msg::Stop)), k), i, silence)
            == silence,
    decreases k,
{
    if k > 0 {
        lemma_stop_silences(current, (k - 1) as nat, i, silence);
    }
}

/// What a voice plays after `k` blocks in which no message arrives, as far
/// as the choice of chunk goes.
pub open spec fn state_after_idle_blocks<S>(current: Option<Chunk<S>>, k: nat) -> Option<Chunk<S>>
    decreases k,
{
    if k == 0 {
        current
    } else {
        state_after_idle_blocks(apply_msg(current, None), (k - 1) as nat)
    }
}

/// Of two `Play` messages, only the later one is heard: the earlier chunk is
/// replaced outright and no frame of it reaches the output.
pub proof fn lemma_latest_play_wins<S: Copy>(
    current: Option<Chunk<S>>,
    first: Chunk<S>,
    second: Chunk<S>,
    i: int,
    silence: S,
)
    requires
        i >= 0,
    ensures
        apply_msg(apply_msg(current, Some(Msg::Play(first))), Some(Msg::Play(second))) == Some(
            second,
        ),
        voice_frame(
            apply_msg(apply_msg(current, Some(Msg::Play(first))), Some(Msg::Play(second))),
            i,
            silence,
        ) == block_frame(second.wave(), second.cursor() as int, i, silence),
{
}

} // verus!
