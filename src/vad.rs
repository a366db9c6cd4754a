use vstd::prelude::*;

verus! {

/// Largest magnitude of a squared 16-bit sample.
pub const SAMPLE_SQUARE_MAX: u64 = 1073741824;

/// Tuning of the segmenter. Samples are signed 16-bit PCM, so one full-scale
/// sample has energy `SAMPLE_SQUARE_MAX`.
#[derive(Debug, Clone, Copy)]
pub struct SegmenterConfig {
    /// Samples per analysis frame.
    pub frame_size: usize,
    /// A frame whose energy is above this counts as speech.
    pub energy_threshold: u64,
    /// Silent frames tolerated inside an utterance before it is emitted.
    pub silence_limit: usize,
    /// Accumulated speech of this many samples or more is emitted at once.
    pub max_buffer_samples: usize,
}

impl SegmenterConfig {
    pub open spec fn wf(&self) -> bool {
        &&& 0 < self.frame_size <= 1_000_000
        &&& self.silence_limit <= 1_000_000_000
        &&& self.max_buffer_samples <= 1_000_000_000
    }

    /// 20 ms frames at 16 kHz, an energy threshold of 0.01 of full scale
    /// squared, one second of tolerated silence and at most 20 s of speech.
    pub fn default_config() -> (r: SegmenterConfig)
        ensures
            r.wf(),
            r.frame_size == 320,
            r.energy_threshold == 10737418,
            r.silence_limit == 50,
            r.max_buffer_samples == 320000,
    {
        SegmenterConfig {
            frame_size: 320,
            energy_threshold: 10737418,
            silence_limit: 50,
            max_buffer_samples: 320000,
        }
    }
}

/// Short-time energy: the sum of the squared samples.
pub open spec fn energy(frame: Seq<i16>) -> int
    decreases frame.len(),
{
    if frame.len() == 0 {
        0
    } else {
        energy(frame.drop_last()) + frame.last() * frame.last()
    }
}

/// The segmenter's abstract state: buffered speech and the count of silent
/// frames seen since the last voiced one.
pub struct SegState {
    pub speech: Seq<i16>,
    pub silence: nat,
}

pub open spec fn idle() -> SegState {
    SegState { speech: Seq::empty(), silence: 0 }
}

/// One frame's transition: the next state and the utterances emitted (none
/// or one).
pub open spec fn frame_step(cfg: SegmenterConfig, s: SegState, frame: Seq<i16>) -> (
    SegState,
    Seq<Seq<i16>>,
) {
    if energy(frame) > cfg.energy_threshold {
        let speech = s.speech + frame;
        if speech.len() >= cfg.max_buffer_samples {
            (idle(), seq![speech])
        } else {
            (SegState { speech, silence: 0 }, Seq::empty())
        }
    } else if s.speech.len() == 0 {
        (s, Seq::empty())
    } else if s.silence + 1 < cfg.silence_limit {
        (SegState { speech: s.speech, silence: s.silence + 1 }, Seq::empty())
    } else {
        (idle(), seq![s.speech])
    }
}

/// Runs the frames in order, collecting the emitted utterances.
pub open spec fn run_frames(cfg: SegmenterConfig, s: SegState, frames: Seq<Seq<i16>>) -> (
    SegState,
    Seq<Seq<i16>>,
)
    decreases frames.len(),
{
    if frames.len() == 0 {
        (s, Seq::empty())
    } else {
        let prev = run_frames(cfg, s, frames.drop_last());
        let next = frame_step(cfg, prev.0, frames.last());
        (next.0, prev.1 + next.1)
    }
}

/// The whole frames that a stream holds, in order.
pub open spec fn frames_of(data: Seq<i16>, frame_size: nat) -> Seq<Seq<i16>>
    recommends
        frame_size > 0,
{
    Seq::new(
        data.len() / frame_size,
        |i: int| data.subrange(i * frame_size, i * frame_size + frame_size),
    )
}

/// The frames laid end to end.
pub open spec fn joined(frames: Seq<Seq<i16>>) -> Seq<i16>
    decreases frames.len(),
{
    if frames.len() == 0 {
        Seq::empty()
    } else {
        joined(frames.drop_last()) + frames.last()
    }
}

/// Frames laid end to end have the summed length.
pub proof fn lemma_joined_len(frames: Seq<Seq<i16>>, fs: nat)
    requires
        forall|q: int| 0 <= q < frames.len() ==> (#[trigger] frames[q]).len() == fs,
    ensures
        joined(frames).len() == frames.len() * fs,
    decreases frames.len(),
{
    if frames.len() > 0 {
        lemma_joined_len(frames.drop_last(), fs);
        assert((frames.len() - 1) * fs + fs == frames.len() * fs) by (nonlinear_arith);
    }
}

/// From idle, voiced frames that stay under the cap are only buffered.
proof fn lemma_voiced_prefix(cfg: SegmenterConfig, frames: Seq<Seq<i16>>, i: nat)
    requires
        cfg.wf(),
        i <= frames.len(),
        i * cfg.frame_size < cfg.max_buffer_samples,
        forall|q: int| 0 <= q < frames.len() ==> (#[trigger] frames[q]).len() == cfg.frame_size,
        forall|q: int| 0 <= q < i ==> energy(#[trigger] frames[q]) > cfg.energy_threshold,
    ensures
        run_frames(cfg, idle(), frames.take(i as int)) == (
            SegState { speech: joined(frames.take(i as int)), silence: 0 },
            Seq::<Seq<i16>>::empty(),
        ),
    decreases i,
{
    let fs = cfg.frame_size as nat;
    lemma_joined_len(frames.take(i as int), fs);
    if i == 0 {
        assert(joined(frames.take(0)) =~= idle().speech);
    } else {
        assert((i - 1) * fs <= i * fs) by (nonlinear_arith);
        lemma_voiced_prefix(cfg, frames, (i - 1) as nat);
        assert(frames.take(i as int).drop_last() =~= frames.take(i - 1));
        assert(Seq::<Seq<i16>>::empty() + Seq::<Seq<i16>>::empty() =~= Seq::<Seq<i16>>::empty());
    }
}

/// After `n` voiced frames, fewer than `silence_limit` silent ones are counted
/// and nothing is emitted.
proof fn lemma_silent_counting(cfg: SegmenterConfig, frames: Seq<Seq<i16>>, n: nat, i: nat)
    requires
        cfg.wf(),
        1 <= n < i <= frames.len(),
        i < n + cfg.silence_limit,
        n * cfg.frame_size < cfg.max_buffer_samples,
        forall|q: int| 0 <= q < frames.len() ==> (#[trigger] frames[q]).len() == cfg.frame_size,
        forall|q: int| 0 <= q < n ==> energy(#[trigger] frames[q]) > cfg.energy_threshold,
        forall|q: int| n <= q < frames.len() ==> energy(#[trigger] frames[q]) <= cfg.energy_threshold,
    ensures
        run_frames(cfg, idle(), frames.take(i as int)) == (
            SegState { speech: joined(frames.take(n as int)), silence: (i - n) as nat },
            Seq::<Seq<i16>>::empty(),
        ),
    decreases i,
{
    let fs = cfg.frame_size as nat;
    lemma_joined_len(frames.take(n as int), fs);
    assert(n * fs >= fs) by (nonlinear_arith)
        requires
            n >= 1,
    ;
    if i - 1 == n {
        lemma_voiced_prefix(cfg, frames, n);
    } else {
        lemma_silent_counting(cfg, frames, n, (i - 1) as nat);
    }
    assert(frames.take(i as int).drop_last() =~= frames.take(i - 1));
    assert(frames.take(i as int).last() == frames[i - 1]);
    assert(Seq::<Seq<i16>>::empty() + Seq::<Seq<i16>>::empty() =~= Seq::<Seq<i16>>::empty());
}

/// Once the silence limit is reached the buffered speech has been emitted,
/// and further silence emits nothing more.
proof fn lemma_after_emission(cfg: SegmenterConfig, frames: Seq<Seq<i16>>, n: nat, i: nat)
    requires
        cfg.wf(),
        1 <= n,
        n + 1 <= i <= frames.len(),
        n + cfg.silence_limit <= i,
        n * cfg.frame_size < cfg.max_buffer_samples,
        forall|q: int| 0 <= q < frames.len() ==> (#[trigger] frames[q]).len() == cfg.frame_size,
        forall|q: int| 0 <= q < n ==> energy(#[trigger] frames[q]) > cfg.energy_threshold,
        forall|q: int| n <= q < frames.len() ==> energy(#[trigger] frames[q]) <= cfg.energy_threshold,
    ensures
        run_frames(cfg, idle(), frames.take(i as int)) == (
            idle(),
            seq![joined(frames.take(n as int))],
        ),
    decreases i,
{
    let fs = cfg.frame_size as nat;
    lemma_joined_len(frames.take(n as int), fs);
    assert(n * fs >= fs) by (nonlinear_arith)
        requires
            n >= 1,
    ;
    assert(frames.take(i as int).drop_last() =~= frames.take(i - 1));
    assert(frames.take(i as int).last() == frames[i - 1]);
    if i - 1 == n {
        lemma_voiced_prefix(cfg, frames, n);
        assert(Seq::<Seq<i16>>::empty() + seq![joined(frames.take(n as int))] =~= seq![
            joined(frames.take(n as int)),
        ]);
    } else if i - 1 < n + cfg.silence_limit {
        lemma_silent_counting(cfg, frames, n, (i - 1) as nat);
        assert(Seq::<Seq<i16>>::empty() + seq![joined(frames.take(n as int))] =~= seq![
            joined(frames.take(n as int)),
        ]);
    } else {
        lemma_after_emission(cfg, frames, n, (i - 1) as nat);
        assert(seq![joined(frames.take(n as int))] + Seq::<Seq<i16>>::empty() =~= seq![
            joined(frames.take(n as int)),
        ]);
    }
}

/// `n` voiced frames followed by at least `silence_limit` silent ones (and at
/// least one) give exactly one utterance: the voiced frames, `n * frame_size`
/// samples long.
pub proof fn lemma_speech_then_silence(cfg: SegmenterConfig, frames: Seq<Seq<i16>>, n: nat)
    requires
        cfg.wf(),
        1 <= n < frames.len(),
        frames.len() - n >= cfg.silence_limit,
        n * cfg.frame_size < cfg.max_buffer_samples,
        forall|q: int| 0 <= q < frames.len() ==> (#[trigger] frames[q]).len() == cfg.frame_size,
        forall|q: int| 0 <= q < n ==> energy(#[trigger] frames[q]) > cfg.energy_threshold,
        forall|q: int| n <= q < frames.len() ==> energy(#[trigger] frames[q]) <= cfg.energy_threshold,
    ensures
        run_frames(cfg, idle(), frames).1 == seq![joined(frames.take(n as int))],
        joined(frames.take(n as int)).len() == n * cfg.frame_size,
{
    lemma_joined_len(frames.take(n as int), cfg.frame_size as nat);
    lemma_after_emission(cfg, frames, n, frames.len());
    assert(frames.take(frames.len() as int) =~= frames);
}

/// Uninterrupted speech is emitted as soon as the buffer reaches
/// `max_buffer_samples` (a whole number of frames), without waiting for
/// silence.
pub proof fn lemma_cap_emits_at_max(cfg: SegmenterConfig, frames: Seq<Seq<i16>>)
    requires
        cfg.wf(),
        frames.len() >= 1,
        frames.len() * cfg.frame_size == cfg.max_buffer_samples,
        forall|q: int| 0 <= q < frames.len() ==> (#[trigger] frames[q]).len() == cfg.frame_size,
        forall|q: int| 0 <= q < frames.len() ==> energy(#[trigger] frames[q]) > cfg.energy_threshold,
    ensures
        run_frames(cfg, idle(), frames) == (idle(), seq![joined(frames)]),
        joined(frames).len() == cfg.max_buffer_samples,
{
    let fs = cfg.frame_size as nat;
    let m = frames.len();
    lemma_joined_len(frames, fs);
    assert((m - 1) * fs < m * fs) by (nonlinear_arith)
        requires
            fs > 0,
            m >= 1,
    ;
    lemma_voiced_prefix(cfg, frames, (m - 1) as nat);
    assert(frames.drop_last() =~= frames.take(m - 1));
    assert(Seq::<Seq<i16>>::empty() + seq![joined(frames)] =~= seq![joined(frames)]);
}

/// Silence alone never produces an utterance.
pub proof fn lemma_silence_emits_nothing(cfg: SegmenterConfig, frames: Seq<Seq<i16>>)
    requires
        forall|q: int| 0 <= q < frames.len() ==> energy(#[trigger] frames[q]) <= cfg.energy_threshold,
    ensures
        run_frames(cfg, idle(), frames) == (idle(), Seq::<Seq<i16>>::empty()),
    decreases frames.len(),
{
    if frames.len() > 0 {
        lemma_silence_emits_nothing(cfg, frames.drop_last());
        assert(frames.last() == frames[frames.len() - 1]);
        assert(Seq::<Seq<i16>>::empty() + Seq::<Seq<i16>>::empty() =~= Seq::<Seq<i16>>::empty());
    }
}

/// Slices a continuous stream into utterances, by frame energy and trailing
/// silence. Samples that do not fill a frame wait for the next chunk.
pub struct VadChunker {
    config: SegmenterConfig,
    pending: Vec<i16>,
    speech: Vec<i16>,
    silence: usize,
}

impl VadChunker {
    pub closed spec fn config(&self) -> SegmenterConfig {
        self.config
    }

    /// Samples waiting for their frame to be completed.
    pub closed spec fn pending(&self) -> Seq<i16> {
        self.pending@
    }

    pub closed spec fn state(&self) -> SegState {
        SegState { speech: self.speech@, silence: self.silence as nat }
    }

    pub closed spec fn wf(&self) -> bool {
        &&& self.config.wf()
        &&& self.speech@.len() < self.config.max_buffer_samples || self.speech@.len() == 0
        &&& self.silence < self.config.silence_limit || self.silence == 0
        &&& self.speech@.len() == 0 ==> self.silence == 0
        &&& self.pending@.len() < self.config.frame_size
    }

    pub fn new(config: SegmenterConfig) -> (r: VadChunker)
        requires
            config.wf(),
        ensures
            r.wf(),
            r.config() == config,
            r.state() == idle(),
            r.pending() == Seq::<i16>::empty(),
    {
        let r = VadChunker { config, pending: Vec::new(), speech: Vec::new(), silence: 0 };
        assert(r.state().speech =~= idle().speech);
        r
    }

    /// Feeds a chunk of samples and returns the utterances completed by it.
    pub fn push(&mut self, chunk: &[i16]) -> (out: Vec<Vec<i16>>)
        requires
            old(self).wf(),
            old(self).pending().len() + chunk@.len() <= usize::MAX,
        ensures
            final(self).wf(),
            final(self).config() == old(self).config(),
            ({
                let all = old(self).pending() + chunk@;
                let fs = old(self).config().frame_size as nat;
                let res = run_frames(old(self).config(), old(self).state(), frames_of(all, fs));
                &&& final(self).state() == res.0
                &&& out@.len() == res.1.len()
                &&& forall|i: int| 0 <= i < out@.len() ==> (#[trigger] out@[i])@ == res.1[i]
                &&& final(self).pending() == all.subrange(((all.len() / fs) * fs) as int, all.len() as int)
            }),
    {
        let ghost s0 = self.state();
        let ghost cfg = self.config;
        let fs = self.config.frame_size;
        let mut all: Vec<i16> = Vec::new();
        let mut i: usize = 0;
        while i < self.pending.len()
            invariant
                i <= self.pending@.len(),
                all@ == self.pending@.subrange(0, i as int),
            decreases self.pending@.len() - i,
        {
            all.push(self.pending[i]);
            i += 1;
        }
        let mut i: usize = 0;
        while i < chunk.len()
            invariant
                i <= chunk@.len(),
                all@ == self.pending@ + chunk@.subrange(0, i as int),
            decreases chunk@.len() - i,
        {
            all.push(chunk[i]);
            i += 1;
        }
        assert(all@ =~= old(self).pending() + chunk@);
        let n = all.len();
        let ghost frames = frames_of(all@, fs as nat);
        let mut out: Vec<Vec<i16>> = Vec::new();
        let mut off: usize = 0;
        let ghost mut k: int = 0;
        assert(frames.take(0) =~= Seq::<Seq<i16>>::empty());
        while all.len() - off >= fs
            invariant
                self.config == cfg,
                cfg.wf(),
                fs == cfg.frame_size,
                frames == frames_of(all@, fs as nat),
                0 <= k,
                off == k * fs,
                off <= all@.len(),
                k <= frames.len(),
                n == all@.len(),
                self.speech@.len() < cfg.max_buffer_samples || self.speech@.len() == 0,
                self.silence < cfg.silence_limit || self.silence == 0,
                self.speech@.len() == 0 ==> self.silence == 0,
                ({
                    let res = run_frames(cfg, s0, frames.take(k));
                    &&& self.state() == res.0
                    &&& out@.len() == res.1.len()
                    &&& forall|j: int| 0 <= j < out@.len() ==> (#[trigger] out@[j])@ == res.1[j]
                }),
            decreases all@.len() - off,
        {
            proof {
                assert((k + 1) * fs == k * fs + fs) by (nonlinear_arith);
                vstd::arithmetic::div_mod::lemma_div_is_ordered(
                    (k + 1) * fs as int,
                    all@.len() as int,
                    fs as int,
                );
                vstd::arithmetic::div_mod::lemma_div_multiples_vanish(k + 1, fs as int);
            }
            let ghost frame = all@.subrange(off as int, off + fs);
            assert(frames[k] == frame);
            let e = frame_energy(&all, off, fs);
            let ghost before = self.state();
            assert(frames.take(k + 1).drop_last() =~= frames.take(k));
            assert(frames.take(k + 1).last() == frame);
            if e > self.config.energy_threshold {
                let mut j: usize = 0;
                while j < fs
                    invariant
                        0 <= j <= fs,
                        off + fs <= n,
                        n == all@.len(),
                        self.config == cfg,
                        self.silence == before.silence,
                        self.speech@ == before.speech + all@.subrange(off as int, off + j),
                    decreases fs - j,
                {
                    self.speech.push(all[off + j]);
                    j += 1;
                    assert(all@.subrange(off as int, off + j) =~= all@.subrange(
                        off as int,
                        off + j - 1,
                    ).push(all@[off + j - 1]));
                }
                self.silence = 0;
                if self.speech.len() >= self.config.max_buffer_samples {
                    let mut taken: Vec<i16> = Vec::new();
                    std::mem::swap(&mut self.speech, &mut taken);
                    out.push(taken);
                    assert(self.speech@ =~= idle().speech);
                }
            } else if self.speech.len() > 0 {
                self.silence = self.silence + 1;
                if self.silence >= self.config.silence_limit {
                    let mut taken: Vec<i16> = Vec::new();
                    std::mem::swap(&mut self.speech, &mut taken);
                    out.push(taken);
                    self.silence = 0;
                    assert(self.speech@ =~= idle().speech);
                }
            }
            off = off + fs;
            proof {
                k = k + 1;
            }
        }
        proof {
            vstd::arithmetic::div_mod::lemma_fundamental_div_mod_converse(
                all@.len() as int,
                fs as int,
                k,
                all@.len() - off,
            );
            assert(frames.take(k) =~= frames);
        }
        let mut rest: Vec<i16> = Vec::new();
        let mut i: usize = off;
        while i < all.len()
            invariant
                off <= i <= all@.len(),
                rest@ == all@.subrange(off as int, i as int),
            decreases all@.len() - i,
        {
            rest.push(all[i]);
            i += 1;
            assert(rest@ =~= all@.subrange(off as int, i as int));
        }
        self.pending = rest;
        out
    }
}

/// The energy of `data[off..off + len]`.
fn frame_energy(data: &Vec<i16>, off: usize, len: usize) -> (e: u64)
    requires
        off + len <= data@.len(),
        len <= 1_000_000,
    ensures
        e == energy(data@.subrange(off as int, off + len)),
{
    let n = data.len();
    let mut sum: u64 = 0;
    let mut j: usize = 0;
    while j < len
        invariant
            n == data@.len(),
            j <= len <= 1_000_000,
            off + len <= data@.len(),
            sum == energy(data@.subrange(off as int, off + j)),
            sum <= j * SAMPLE_SQUARE_MAX,
        decreases len - j,
    {
        let x = data[off + j] as i64;
        assert(0 <= x * x <= SAMPLE_SQUARE_MAX) by (nonlinear_arith)
            requires
                -32768 <= x <= 32767,
        ;
        let sq = x * x;
        assert(data@.subrange(off as int, off + j + 1).drop_last() =~= data@.subrange(
            off as int,
            off + j,
        ));
        sum = sum + sq as u64;
        j += 1;
    }
    sum
}

} // verus!
