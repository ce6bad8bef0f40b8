//! Voice-activity segmentation: the state machine that turns a stream of
//! 16 ms frames, each judged voiced or not, into utterances.
//!
//! ```text
//!   IDLE      + voiced     -> RECORDING (pre-roll + frame start the utterance)
//!   IDLE      + silent     -> IDLE      (frame goes to the pre-roll buffer)
//!   RECORDING + voiced     -> RECORDING (append, hangover counter back to 0)
//!   RECORDING + silent     -> RECORDING (append, ++hangover; pack when it
//!                                        reaches the hangover limit)
//! ```
//! While recording, a partial snapshot is emitted every `partial_emit_ms`
//! of frames, and the utterance is force-packed at `max_duration_ms`.
//! Packed utterances shorter than `min_duration_ms` are dropped.
//!
//! The voice detector itself scores frames with floating point and lives
//! with the application; this machine takes its verdict as a `bool`.
use crate::utterance::{lemma_preroll_keeps_most_recent, preroll_push_all, samples_to_ms, PreRollBuffer, Utterance, UtteranceBuilder, TARGET_SAMPLE_RATE_HZ};
use vstd::prelude::*;

verus! {

/// Frame size of the voice detector: 256 samples at 16 kHz.
pub const VAD_FRAME_SAMPLES: usize = 256;

/// Frame duration in milliseconds.
pub const VAD_FRAME_MS: u32 = 16;

/// Timing parameters of the segmentation state machine.
#[derive(Debug, Clone, Copy, PartialEq, Eq)]
pub struct VadConfig {
    /// Silence held in the recording state before the utterance is packed.
    pub hangover_ms: u32,
    /// Audio kept from before the onset of speech.
    pub pre_roll_ms: u32,
    /// Packed utterances shorter than this are dropped.
    pub min_duration_ms: u32,
    /// Utterances reaching this length are packed at once.
    pub max_duration_ms: u32,
    /// Interval between partial snapshots while recording; 0 disables them.
    pub partial_emit_ms: u32,
}

impl Default for VadConfig {
    fn default() -> (c: Self)
        ensures
            c.hangover_ms == 200,
            c.pre_roll_ms == 200,
            c.min_duration_ms == 200,
            c.max_duration_ms == 8_000,
            c.partial_emit_ms == 1_500,
    {
        VadConfig {
            hangover_ms: 200,
            pre_roll_ms: 200,
            min_duration_ms: 200,
            max_duration_ms: 8_000,
            partial_emit_ms: 1_500,
        }
    }
}

/// `ceil(a / b)`.
pub open spec fn ceil_div(a: nat, b: nat) -> nat {
    ((a + b - 1) as nat) / b
}

/// Number of frames that cover `ms` milliseconds.
pub open spec fn frames_for_ms(ms: nat) -> nat {
    ceil_div(ms, VAD_FRAME_MS as nat)
}

fn frames_for(ms: u32) -> (n: u32)
    ensures
        n == frames_for_ms(ms as nat),
{
    let q = ms / VAD_FRAME_MS;
    if ms % VAD_FRAME_MS == 0 {
        q
    } else {
        q + 1
    }
}

/// The abstract state of the machine.
pub struct VadModel {
    /// The utterance being recorded, as its sequence number and samples;
    /// `None` in the idle state.
    pub current: Option<(u64, Seq<i16>)>,
    /// Consecutive silent frames while recording.
    pub hangover_frames: u32,
    /// Frames since the last partial snapshot.
    pub frames_since_partial: u32,
    /// Sequence number the next utterance gets.
    pub seq: u64,
    /// Audio kept before onset.
    pub pre_roll: Seq<i16>,
    /// Silent frames that end an utterance.
    pub hangover_frames_max: u32,
    /// Frames between partial snapshots; 0 when they are off.
    pub partial_emit_frames: u32,
    pub min_duration_ms: u32,
    pub max_duration_ms: u32,
    pub pre_roll_capacity: nat,
    /// The configuration the machine was made with.
    pub config: VadConfig,
}

/// An utterance the machine hands out.
pub struct Emission {
    pub seq: u64,
    pub samples: Seq<i16>,
    pub partial: bool,
}

/// Packing: the utterance in progress is emitted as final unless it is
/// shorter than the minimum, and the machine goes idle.
pub open spec fn vad_pack(m: VadModel) -> (VadModel, Seq<Emission>) {
    let em = match m.current {
        Some((s, samples)) => if samples_to_ms(samples.len()) < m.min_duration_ms {
            Seq::<Emission>::empty()
        } else {
            seq![Emission { seq: s, samples: samples, partial: false }]
        },
        None => Seq::<Emission>::empty(),
    };
    (VadModel { current: None, hangover_frames: 0, frames_since_partial: 0, ..m }, em)
}

pub open spec fn saturating_inc(x: u32) -> u32 {
    if x == u32::MAX {
        x
    } else {
        (x + 1) as u32
    }
}

pub open spec fn next_seq(s: u64) -> u64 {
    if s == u64::MAX {
        0
    } else {
        (s + 1) as u64
    }
}

/// The state transition on one frame.
pub open spec fn vad_transition(m: VadModel, frame: Seq<i16>, voiced: bool) -> (
    VadModel,
    Seq<Emission>,
) {
    match m.current {
        None => if !voiced {
            (
                VadModel {
                    pre_roll: preroll_push_all(m.pre_roll, m.pre_roll_capacity, frame),
                    ..m
                },
                Seq::<Emission>::empty(),
            )
        } else {
            (
                VadModel {
                    current: Some((m.seq, m.pre_roll + frame)),
                    seq: next_seq(m.seq),
                    pre_roll: Seq::<i16>::empty(),
                    hangover_frames: 0,
                    frames_since_partial: 0,
                    ..m
                },
                Seq::<Emission>::empty(),
            )
        },
        Some((s, samples)) => if voiced {
            (
                VadModel {
                    current: Some((s, samples + frame)),
                    hangover_frames: 0,
                    frames_since_partial: saturating_inc(m.frames_since_partial),
                    ..m
                },
                Seq::<Emission>::empty(),
            )
        } else {
            let m2 = VadModel {
                current: Some((s, samples + frame)),
                hangover_frames: (m.hangover_frames + 1) as u32,
                frames_since_partial: saturating_inc(m.frames_since_partial),
                ..m
            };
            if m.hangover_frames + 1 >= m.hangover_frames_max {
                vad_pack(m2)
            } else {
                (m2, Seq::<Emission>::empty())
            }
        },
    }
}

/// A partial snapshot, when one is due.
pub open spec fn vad_partial(m: VadModel) -> (VadModel, Seq<Emission>) {
    match m.current {
        Some((s, samples)) => if m.partial_emit_frames > 0 && m.frames_since_partial
            >= m.partial_emit_frames {
            (
                VadModel { frames_since_partial: 0, ..m },
                seq![Emission { seq: s, samples: samples, partial: true }],
            )
        } else {
            (m, Seq::<Emission>::empty())
        },
        None => (m, Seq::<Emission>::empty()),
    }
}

/// Packing at the maximum duration.
pub open spec fn vad_force_pack(m: VadModel) -> (VadModel, Seq<Emission>) {
    match m.current {
        Some((s, samples)) => if samples_to_ms(samples.len()) >= m.max_duration_ms {
            vad_pack(m)
        } else {
            (m, Seq::<Emission>::empty())
        },
        None => (m, Seq::<Emission>::empty()),
    }
}

/// One frame: transition, then a partial snapshot if due, then packing at
/// the maximum duration; the emissions come out in that order.
pub open spec fn vad_step(m: VadModel, frame: Seq<i16>, voiced: bool) -> (
    VadModel,
    Seq<Emission>,
) {
    let (m1, e1) = vad_transition(m, frame, voiced);
    let (m2, e2) = vad_partial(m1);
    let (m3, e3) = vad_force_pack(m2);
    (m3, e1 + e2 + e3)
}

/// The `i`-th detector frame of a chunk.
pub open spec fn chunk_frame(chunk: Seq<i16>, i: int) -> Seq<i16> {
    chunk.subrange(i * VAD_FRAME_SAMPLES as int, (i + 1) * VAD_FRAME_SAMPLES as int)
}

/// Running the machine over the first `n` frames of a chunk, frame `i`
/// judged `voiced[i]`.
pub open spec fn vad_run(m: VadModel, chunk: Seq<i16>, voiced: Seq<bool>, n: nat) -> (
    VadModel,
    Seq<Emission>,
)
    decreases n,
{
    if n == 0 {
        (m, Seq::<Emission>::empty())
    } else {
        let (m1, e1) = vad_run(m, chunk, voiced, (n - 1) as nat);
        let (m2, e2) = vad_step(m1, chunk_frame(chunk, n - 1), voiced[n - 1]);
        (m2, e1 + e2)
    }
}

/// `u` is the utterance that emission `e` describes.
pub open spec fn utterance_is(u: Utterance, e: Emission) -> bool {
    &&& u.seq == e.seq
    &&& u.audio_pcm16_mono_16k@ == e.samples
    &&& u.is_partial == e.partial
    &&& u.duration_ms == samples_to_ms(e.samples.len())
}

pub open spec fn utterances_are(us: Seq<Utterance>, es: Seq<Emission>) -> bool {
    &&& us.len() == es.len()
    &&& forall|i: int| 0 <= i < us.len() ==> #[trigger] utterance_is(us[i], es[i])
}

/// `after` is `before` followed by utterances that the emissions `es` describe.
pub open spec fn extends_with(before: Seq<Utterance>, after: Seq<Utterance>, es: Seq<Emission>) -> bool {
    &&& after.len() == before.len() + es.len()
    &&& after.subrange(0, before.len() as int) == before
    &&& forall|i: int|
        0 <= i < es.len() ==> #[trigger] utterance_is(after[before.len() + i], es[i])
}

proof fn lemma_extends_trans(a: Seq<Utterance>, b: Seq<Utterance>, c: Seq<Utterance>, e1: Seq<Emission>, e2: Seq<Emission>)
    requires
        extends_with(a, b, e1),
        extends_with(b, c, e2),
    ensures
        extends_with(a, c, e1 + e2),
{
    assert(c.subrange(0, a.len() as int) =~= b.subrange(0, a.len() as int)) by {
        assert forall|i: int| 0 <= i < a.len() implies c[i] == b[i] by {
            assert(c.subrange(0, b.len() as int)[i] == c[i]);
        }
    }
    assert forall|i: int| 0 <= i < (e1 + e2).len() implies #[trigger] utterance_is(c[a.len() + i], (e1 + e2)[i]) by {
        if i < e1.len() {
            assert(c.subrange(0, b.len() as int)[a.len() + i] == c[a.len() + i]);
            assert(utterance_is(b[a.len() + i], e1[i]));
        } else {
            let j = i - e1.len();
            assert(utterance_is(c[b.len() + j], e2[j]));
        }
    }
}

proof fn lemma_extends_empty(a: Seq<Utterance>)
    ensures
        extends_with(a, a, Seq::<Emission>::empty()),
{
    assert(a.subrange(0, a.len() as int) =~= a);
}

enum VadState {
    Idle,
    Recording { hangover_frames: u32 },
}

/// The segmentation state machine.
pub struct VadFsm {
    config: VadConfig,
    hangover_frames_max: u32,
    partial_emit_frames: u32,
    frames_since_partial: u32,
    state: VadState,
    pre_roll: PreRollBuffer,
    current: Option<UtteranceBuilder>,
    seq: u64,
}

impl View for VadFsm {
    type V = VadModel;

    closed spec fn view(&self) -> VadModel {
        VadModel {
            current: match self.current {
                Some(b) => Some((b.spec_seq(), b.spec_samples())),
                None => None,
            },
            hangover_frames: match self.state {
                VadState::Idle => 0,
                VadState::Recording { hangover_frames } => hangover_frames,
            },
            frames_since_partial: self.frames_since_partial,
            seq: self.seq,
            pre_roll: self.pre_roll.spec_samples(),
            hangover_frames_max: self.hangover_frames_max,
            partial_emit_frames: self.partial_emit_frames,
            min_duration_ms: self.config.min_duration_ms,
            max_duration_ms: self.config.max_duration_ms,
            pre_roll_capacity: self.pre_roll.spec_capacity(),
            config: self.config,
        }
    }
}

impl VadFsm {
    /// The machine's own invariant.
    pub closed spec fn wf(&self) -> bool {
        &&& (self.state is Idle) <==> self.current.is_none()
        &&& match self.state {
            VadState::Idle => true,
            VadState::Recording { hangover_frames } => hangover_frames == 0 || hangover_frames
                < self.hangover_frames_max,
        }
    }

    /// A fresh idle machine for `config`.
    pub fn new(config: VadConfig) -> (fsm: Self)
        requires
            (config.pre_roll_ms as nat) * (TARGET_SAMPLE_RATE_HZ as nat) / 1000 <= usize::MAX,
        ensures
            fsm.wf(),
            fsm@.current.is_none(),
            fsm@.hangover_frames == 0,
            fsm@.frames_since_partial == 0,
            fsm@.seq == 0,
            fsm@.pre_roll == Seq::<i16>::empty(),
            fsm@.hangover_frames_max == frames_for_ms(config.hangover_ms as nat),
            fsm@.partial_emit_frames == (if config.partial_emit_ms == 0 {
                0
            } else {
                frames_for_ms(config.partial_emit_ms as nat)
            }),
            fsm@.min_duration_ms == config.min_duration_ms,
            fsm@.max_duration_ms == config.max_duration_ms,
            fsm@.pre_roll_capacity == (config.pre_roll_ms as nat) * (TARGET_SAMPLE_RATE_HZ as nat)
                / 1000,
            fsm@.config == config,
    {
        let hangover_frames_max = frames_for(config.hangover_ms);
        let partial_emit_frames = if config.partial_emit_ms == 0 {
            0
        } else {
            frames_for(config.partial_emit_ms)
        };
        VadFsm {
            pre_roll: PreRollBuffer::from_ms(config.pre_roll_ms),
            hangover_frames_max,
            partial_emit_frames,
            frames_since_partial: 0,
            config,
            state: VadState::Idle,
            current: None,
            seq: 0,
        }
    }

    /// Silent frames that end an utterance.
    pub fn hangover_frames_max(&self) -> (n: u32)
        ensures
            n == self@.hangover_frames_max,
    {
        self.hangover_frames_max
    }

    /// Sequence number the next utterance gets.
    pub fn seq(&self) -> (s: u64)
        ensures
            s == self@.seq,
    {
        self.seq
    }

    /// The configuration the machine was made with.
    pub fn config(&self) -> (c: VadConfig)
        ensures
            c == self@.config,
            c.min_duration_ms == self@.min_duration_ms,
            c.max_duration_ms == self@.max_duration_ms,
    {
        self.config
    }

    /// Back to idle: the utterance in progress and the pre-roll are dropped.
    pub fn reset(&mut self)
        requires
            old(self).wf(),
        ensures
            final(self).wf(),
            final(self)@ == (VadModel {
                current: None,
                hangover_frames: 0,
                pre_roll: Seq::<i16>::empty(),
                ..old(self)@
            }),
    {
        self.state = VadState::Idle;
        self.current = None;
        let _ = self.pre_roll.drain_to_vec();
    }

    fn pack(&mut self, out: &mut Vec<Utterance>)
        requires
            (old(self).state is Idle) <==> old(self).current.is_none(),
        ensures
            final(self).wf(),
            final(self)@ == vad_pack(old(self)@).0,
            extends_with(old(out)@, final(out)@, vad_pack(old(self)@).1),
    {
        let ghost out0 = out@;
        if let Some(builder) = self.current.take() {
            let dur_ms = builder.duration_ms();
            if dur_ms < self.config.min_duration_ms {
            } else {
                let utt = builder.build();
                out.push(utt);
            }
        }
        self.state = VadState::Idle;
        self.frames_since_partial = 0;
        proof {
            assert(out@.subrange(0, out0.len() as int) =~= out0);
            assert(self@ =~= vad_pack(old(self)@).0);
        }
    }

    fn transition(&mut self, frame: &[i16], voiced: bool, out: &mut Vec<Utterance>)
        requires
            old(self).wf(),
        ensures
            final(self).wf(),
            final(self)@ == vad_transition(old(self)@, frame@, voiced).0,
            extends_with(old(out)@, final(out)@, vad_transition(old(self)@, frame@, voiced).1),
    {
        proof {
            lemma_extends_empty(out@);
        }
        match self.state {
            VadState::Idle => {
                if !voiced {
                    self.pre_roll.push(frame);
                } else {
                    let onset_seq = self.seq;
                    let mut builder = UtteranceBuilder::new(onset_seq);
                    self.seq = if self.seq == u64::MAX {
                        0
                    } else {
                        self.seq + 1
                    };
                    let pre = self.pre_roll.drain_to_vec();
                    builder.append_slice(pre.as_slice());
                    builder.append_slice(frame);
                    self.current = Some(builder);
                    self.state = VadState::Recording { hangover_frames: 0 };
                    self.frames_since_partial = 0;
                }
            },
            VadState::Recording { hangover_frames } => {
                match self.current.take() {
                    Some(mut b) => {
                        b.append_slice(frame);
                        self.current = Some(b);
                    },
                    None => {},
                }
                self.frames_since_partial = self.frames_since_partial.saturating_add(1);
                if voiced {
                    self.state = VadState::Recording { hangover_frames: 0 };
                } else {
                    let h = hangover_frames + 1;
                    self.state = VadState::Recording { hangover_frames: h };
                    if h >= self.hangover_frames_max {
                        self.pack(out);
                    }
                }
            },
        }
        proof {
            assert(self@ =~= vad_transition(old(self)@, frame@, voiced).0);
        }
    }

    fn maybe_partial(&mut self, out: &mut Vec<Utterance>)
        requires
            old(self).wf(),
        ensures
            final(self).wf(),
            final(self)@ == vad_partial(old(self)@).0,
            extends_with(old(out)@, final(out)@, vad_partial(old(self)@).1),
    {
        let ghost out0 = out@;
        proof {
            lemma_extends_empty(out@);
        }
        if let VadState::Recording { .. } = self.state {
            if self.partial_emit_frames > 0 && self.frames_since_partial >= self.partial_emit_frames {
                match &self.current {
                    Some(b) => {
                        let p = b.snapshot_partial();
                        out.push(p);
                    },
                    None => {},
                }
                self.frames_since_partial = 0;
                proof {
                    assert(out@.subrange(0, out0.len() as int) =~= out0);
                }
            }
        }
        proof {
            assert(self@ =~= vad_partial(old(self)@).0);
        }
    }

    fn maybe_force_pack(&mut self, out: &mut Vec<Utterance>)
        requires
            old(self).wf(),
        ensures
            final(self).wf(),
            final(self)@ == vad_force_pack(old(self)@).0,
            extends_with(old(out)@, final(out)@, vad_force_pack(old(self)@).1),
    {
        proof {
            lemma_extends_empty(out@);
        }
        if let VadState::Recording { .. } = self.state {
            let due = match &self.current {
                Some(b) => b.duration_ms() >= self.config.max_duration_ms,
                None => false,
            };
            if due {
                self.pack(out);
            }
        }
    }

    /// Feeds one detector frame, judged `voiced` or not, and returns the
    /// utterances that this frame completes or snapshots, in order.
    pub fn step(&mut self, frame: &[i16], voiced: bool) -> (out: Vec<Utterance>)
        requires
            old(self).wf(),
        ensures
            final(self).wf(),
            final(self)@ == vad_step(old(self)@, frame@, voiced).0,
            utterances_are(out@, vad_step(old(self)@, frame@, voiced).1),
    {
        let mut out: Vec<Utterance> = Vec::new();
        let ghost o0 = out@;
        self.transition(frame, voiced, &mut out);
        let ghost o1 = out@;
        self.maybe_partial(&mut out);
        let ghost o2 = out@;
        self.maybe_force_pack(&mut out);
        proof {
            let (m1, e1) = vad_transition(old(self)@, frame@, voiced);
            let (m2, e2) = vad_partial(m1);
            let (m3, e3) = vad_force_pack(m2);
            lemma_extends_trans(o0, o1, o2, e1, e2);
            lemma_extends_trans(o0, o2, out@, e1 + e2, e3);
            assert forall|i: int| 0 <= i < out@.len() implies #[trigger] utterance_is(out@[i], (e1 + e2 + e3)[i]) by {
                assert(utterance_is(out@[0 + i], (e1 + e2 + e3)[i]));
            }
        }
        out
    }
}


impl VadFsm {
    /// Feeds a chunk of 16 kHz samples, frame by frame; `voiced[i]` is the
    /// detector's verdict on the `i`-th whole frame. A trailing partial
    /// frame is ignored. Returns the utterances in the order they arose.
    pub fn process_chunk(&mut self, chunk: &[i16], voiced: &[bool]) -> (out: Vec<Utterance>)
        requires
            old(self).wf(),
            voiced@.len() == chunk@.len() / (VAD_FRAME_SAMPLES as nat),
        ensures
            final(self).wf(),
            final(self)@ == vad_run(old(self)@, chunk@, voiced@, voiced@.len()).0,
            utterances_are(out@, vad_run(old(self)@, chunk@, voiced@, voiced@.len()).1),
    {
        let mut out: Vec<Utterance> = Vec::new();
        let n = voiced.len();
        let len = chunk.len();
        let mut i: usize = 0;
        while i < n
            invariant
                i <= n == voiced@.len(),
                len == chunk@.len(),
                n == chunk@.len() / (VAD_FRAME_SAMPLES as nat),
                self.wf(),
                self@ == vad_run(old(self)@, chunk@, voiced@, i as nat).0,
                utterances_are(out@, vad_run(old(self)@, chunk@, voiced@, i as nat).1),
            decreases n - i,
        {
            proof {
                assert((i + 1) * 256 <= n * 256 <= len) by (nonlinear_arith)
                    requires
                        i < n,
                        n == len / 256,
                ;
                assert(i * 256 <= (i + 1) * 256) by (nonlinear_arith);
            }
            let frame = &chunk[i * VAD_FRAME_SAMPLES..(i + 1) * VAD_FRAME_SAMPLES];
            let ghost before = out@;
            let mut emitted = self.step(frame, voiced[i]);
            out.append(&mut emitted);
            proof {
                let (m1, e1) = vad_run(old(self)@, chunk@, voiced@, i as nat);
                let (m2, e2) = vad_step(m1, chunk_frame(chunk@, i as int), voiced@[i as int]);
                assert(frame@ =~= chunk_frame(chunk@, i as int));
                assert forall|k: int| 0 <= k < out@.len() implies #[trigger] utterance_is(out@[k], (e1 + e2)[k]) by {
                    if k < before.len() {
                        assert(out@[k] == before[k]);
                    }
                }
            }
            i = i + 1;
        }
        out
    }
}

/// A final utterance is never shorter than the minimum duration: packing
/// drops the short ones.
pub proof fn lemma_final_utterances_meet_minimum(m: VadModel, frame: Seq<i16>, voiced: bool, i: int)
    requires
        0 <= i < vad_step(m, frame, voiced).1.len(),
        !vad_step(m, frame, voiced).1[i].partial,
    ensures
        samples_to_ms(vad_step(m, frame, voiced).1[i].samples.len()) >= m.min_duration_ms,
{
    let (m1, e1) = vad_transition(m, frame, voiced);
    let (m2, e2) = vad_partial(m1);
    let (m3, e3) = vad_force_pack(m2);
    let all = e1 + e2 + e3;
    if i < e1.len() {
        assert(all[i] == e1[i]);
    } else if i < e1.len() + e2.len() {
        assert(all[i] == e2[i - e1.len()]);
    } else {
        assert(all[i] == e3[i - e1.len() - e2.len()]);
    }
}

/// Silence while idle emits nothing and only feeds the pre-roll buffer.
pub proof fn lemma_idle_silence_stays_idle(m: VadModel, frame: Seq<i16>)
    requires
        m.current.is_none(),
    ensures
        vad_step(m, frame, false).1.len() == 0,
        vad_step(m, frame, false).0.current.is_none(),
        vad_step(m, frame, false).0.pre_roll == preroll_push_all(
            m.pre_roll,
            m.pre_roll_capacity,
            frame,
        ),
        vad_step(m, frame, false).0.seq == m.seq,
{
}

/// Speech onset starts an utterance that begins with the pre-roll and the
/// onset frame, under the current sequence number, and advances that number.
pub proof fn lemma_onset_keeps_pre_roll(m: VadModel, frame: Seq<i16>)
    requires
        m.current.is_none(),
        m.hangover_frames_max > 0,
        samples_to_ms((m.pre_roll + frame).len()) < m.max_duration_ms,
    ensures
        vad_step(m, frame, true).0.current == Some((m.seq, m.pre_roll + frame)),
        vad_step(m, frame, true).0.seq == next_seq(m.seq),
        vad_step(m, frame, true).0.pre_roll.len() == 0,
{
}

/// Every utterance emitted while recording carries the sequence number of
/// the utterance in progress: partial snapshots and the final share it.
pub proof fn lemma_emissions_share_current_seq(m: VadModel, frame: Seq<i16>, voiced: bool, i: int)
    requires
        m.current.is_some(),
        0 <= i < vad_step(m, frame, voiced).1.len(),
    ensures
        vad_step(m, frame, voiced).1[i].seq == m.current.unwrap().0,
{
    let (m1, e1) = vad_transition(m, frame, voiced);
    let (m2, e2) = vad_partial(m1);
    let (m3, e3) = vad_force_pack(m2);
    let all = e1 + e2 + e3;
    if i < e1.len() {
        assert(all[i] == e1[i]);
    } else if i < e1.len() + e2.len() {
        assert(all[i] == e2[i - e1.len()]);
    } else {
        assert(all[i] == e3[i - e1.len() - e2.len()]);
    }
}

// ---------------------------------------------------------------- laws over a run

/// The lowest sequence number a final utterance can still get: that of the
/// utterance in progress, else the next one.
pub open spec fn final_lo(m: VadModel) -> u64 {
    match m.current {
        Some((s, _)) => s,
        None => m.seq,
    }
}

/// What holds of the machine between frames: the pre-roll fits its
/// capacity, which holds less audio than the maximum duration; the
/// utterance in progress is shorter than the maximum and numbered just
/// before the next sequence number.
pub open spec fn run_inv(m: VadModel) -> bool {
    &&& m.pre_roll.len() <= m.pre_roll_capacity
    &&& m.pre_roll_capacity < 16 * m.max_duration_ms
    &&& m.max_duration_ms + VAD_FRAME_MS <= u32::MAX
    &&& match m.current {
        Some((s, samples)) => samples.len() / 16 < m.max_duration_ms && m.seq == s + 1,
        None => true,
    }
}

/// Emissions numbered from `lo` to `hi` in order: finals below `hi`, and
/// every emission after a final numbered above it.
pub open spec fn emissions_ordered(es: Seq<Emission>, lo: u64, hi: u64) -> bool {
    &&& forall|i: int| 0 <= i < es.len() ==> lo <= (#[trigger] es[i]).seq <= hi
    &&& forall|i: int| 0 <= i < es.len() && !(#[trigger] es[i]).partial ==> es[i].seq < hi
    &&& forall|i: int, j: int| 0 <= i < j < es.len() ==> (#[trigger] es[i]).seq <= (#[trigger] es[j]).seq
    &&& forall|i: int, j: int|
        0 <= i < j < es.len() && !(#[trigger] es[i]).partial ==> es[i].seq < (#[trigger] es[j]).seq
}

/// Every final emission lasts less than the maximum plus one frame.
pub open spec fn finals_within(es: Seq<Emission>, max_ms: u32) -> bool {
    forall|i: int|
        0 <= i < es.len() && !(#[trigger] es[i]).partial ==> samples_to_ms(es[i].samples.len()) < max_ms
            + VAD_FRAME_MS
}

proof fn lemma_ms_of_samples(n: nat)
    ensures
        (n * 1000) / 16000 == n / 16,
{
    assert((n * 1000) / 16000 == n / 16) by (nonlinear_arith);
}

proof fn lemma_ordered_concat(e1: Seq<Emission>, e2: Seq<Emission>, a: u64, b: u64, c: u64)
    requires
        a <= b <= c,
        emissions_ordered(e1, a, b),
        emissions_ordered(e2, b, c),
    ensures
        emissions_ordered(e1 + e2, a, c),
{
    let e = e1 + e2;
    assert forall|i: int| 0 <= i < e.len() implies a <= (#[trigger] e[i]).seq <= c by {
        if i < e1.len() {
            assert(e[i] == e1[i]);
        } else {
            assert(e[i] == e2[i - e1.len()]);
        }
    }
    assert forall|i: int| 0 <= i < e.len() && !(#[trigger] e[i]).partial implies e[i].seq < c by {
        if i < e1.len() {
            assert(e[i] == e1[i]);
        } else {
            assert(e[i] == e2[i - e1.len()]);
        }
    }
    assert forall|i: int, j: int| 0 <= i < j < e.len() implies (#[trigger] e[i]).seq <= (#[trigger] e[j]).seq
        && (!e[i].partial ==> e[i].seq < e[j].seq) by {
        if j < e1.len() {
            assert(e[i] == e1[i] && e[j] == e1[j]);
        } else if i >= e1.len() {
            assert(e[i] == e2[i - e1.len()] && e[j] == e2[j - e1.len()]);
        } else {
            assert(e[i] == e1[i] && e[j] == e2[j - e1.len()]);
        }
    }
}

proof fn lemma_within_concat(e1: Seq<Emission>, e2: Seq<Emission>, max_ms: u32)
    requires
        finals_within(e1, max_ms),
        finals_within(e2, max_ms),
    ensures
        finals_within(e1 + e2, max_ms),
{
    let e = e1 + e2;
    assert forall|i: int| 0 <= i < e.len() && !(#[trigger] e[i]).partial implies samples_to_ms(e[i].samples.len())
        < max_ms + VAD_FRAME_MS by {
        if i < e1.len() {
            assert(e[i] == e1[i]);
        } else {
            assert(e[i] == e2[i - e1.len()]);
        }
    }
}

/// One frame keeps `run_inv`, emits in order, and emits no final that
/// lasts the maximum plus a frame or more.
proof fn lemma_vad_step_laws(m: VadModel, frame: Seq<i16>, voiced: bool)
    requires
        run_inv(m),
        frame.len() == VAD_FRAME_SAMPLES,
        m.seq < u64::MAX,
    ensures
        ({
            let (m2, es) = vad_step(m, frame, voiced);
            &&& run_inv(m2)
            &&& final_lo(m) <= final_lo(m2)
            &&& emissions_ordered(es, final_lo(m), final_lo(m2))
            &&& finals_within(es, m.max_duration_ms)
            &&& m2.seq <= m.seq + 1
            &&& m2.max_duration_ms == m.max_duration_ms
            &&& m2.pre_roll_capacity == m.pre_roll_capacity
        }),
{
    let (m1, e1) = vad_transition(m, frame, voiced);
    let (m2, e2) = vad_partial(m1);
    let (m3, e3) = vad_force_pack(m2);
    match m.current {
        None => {
            if !voiced {
                lemma_preroll_keeps_most_recent(m.pre_roll, m.pre_roll_capacity, frame);
                assert(m3 == m1);
                assert(e1 + e2 + e3 =~= Seq::<Emission>::empty());
            } else {
                let samples = m.pre_roll + frame;
                lemma_ms_of_samples(samples.len());
                assert(samples.len() / 16 < m.max_duration_ms + 16) by (nonlinear_arith)
                    requires
                        samples.len() == m.pre_roll.len() + 256,
                        m.pre_roll.len() <= m.pre_roll_capacity,
                        m.pre_roll_capacity < 16 * m.max_duration_ms,
                ;
                assert(e1 + e2 =~= Seq::<Emission>::empty());
                assert(e1 + e2 + e3 =~= e3);
            }
        },
        Some((s, samples)) => {
            let grown = samples + frame;
            lemma_ms_of_samples(grown.len());
            assert(grown.len() / 16 == samples.len() / 16 + 16) by (nonlinear_arith)
                requires
                    grown.len() == samples.len() + 256,
            ;
            if voiced {
                assert(e1 =~= Seq::<Emission>::empty());
            } else if m.hangover_frames + 1 >= m.hangover_frames_max {
                assert(e2 =~= Seq::<Emission>::empty());
                assert(e3 =~= Seq::<Emission>::empty());
                assert(e1 + e2 + e3 =~= e1);
            } else {
                assert(e1 =~= Seq::<Emission>::empty());
            }
        },
    }
}

/// Over any run of whole frames from a machine in `run_inv`, as long as
/// sequence numbers do not wrap: the machine stays in `run_inv`; the
/// utterances come out numbered in order, each final numbered below every
/// utterance after it (so final numbers strictly increase, and a partial
/// snapshot comes before the final of its utterance), all numbered from
/// `final_lo` before the run up to `final_lo` after it, finals below it;
/// and every final utterance lasts less than the maximum duration plus one
/// frame. Chaining runs chains these bounds, since `final_lo` only grows.
pub proof fn lemma_vad_run_laws(m: VadModel, chunk: Seq<i16>, voiced: Seq<bool>, n: nat)
    requires
        run_inv(m),
        n * VAD_FRAME_SAMPLES <= chunk.len(),
        n <= voiced.len(),
        m.seq + n <= u64::MAX,
    ensures
        ({
            let (m2, es) = vad_run(m, chunk, voiced, n);
            &&& run_inv(m2)
            &&& final_lo(m) <= final_lo(m2)
            &&& emissions_ordered(es, final_lo(m), final_lo(m2))
            &&& finals_within(es, m.max_duration_ms)
            &&& m2.seq <= m.seq + n
            &&& m2.max_duration_ms == m.max_duration_ms
            &&& m2.pre_roll_capacity == m.pre_roll_capacity
        }),
    decreases n,
{
    if n == 0 {
        assert(emissions_ordered(Seq::<Emission>::empty(), final_lo(m), final_lo(m)));
    } else {
        let k = (n - 1) as nat;
        assert(k * VAD_FRAME_SAMPLES <= chunk.len()) by (nonlinear_arith)
            requires
                n * 256 <= chunk.len(),
                k + 1 == n,
        ;
        lemma_vad_run_laws(m, chunk, voiced, k);
        let (m1, e1) = vad_run(m, chunk, voiced, k);
        let frame = chunk_frame(chunk, k as int);
        assert(k * 256 + 256 <= chunk.len()) by (nonlinear_arith)
            requires
                n * 256 <= chunk.len(),
                k + 1 == n,
        ;
        assert(frame.len() == VAD_FRAME_SAMPLES);
        lemma_vad_step_laws(m1, frame, voiced[k as int]);
        let (m2, e2) = vad_step(m1, frame, voiced[k as int]);
        lemma_ordered_concat(e1, e2, final_lo(m), final_lo(m1), final_lo(m2));
        lemma_within_concat(e1, e2, m.max_duration_ms);
    }
}

/// A fresh machine (as `VadFsm::new` makes it) is in `run_inv` when the
/// pre-roll is shorter than the maximum duration and the maximum leaves
/// room for one more frame.
pub proof fn lemma_fresh_machine_in_run_inv(m: VadModel, config: VadConfig)
    requires
        m.current.is_none(),
        m.pre_roll == Seq::<i16>::empty(),
        m.max_duration_ms == config.max_duration_ms,
        m.pre_roll_capacity == (config.pre_roll_ms as nat) * (TARGET_SAMPLE_RATE_HZ as nat) / 1000,
        config.pre_roll_ms < config.max_duration_ms,
        config.max_duration_ms + VAD_FRAME_MS <= u32::MAX,
    ensures
        run_inv(m),
{
    assert((config.pre_roll_ms as nat) * 16000 / 1000 == config.pre_roll_ms * 16) by (nonlinear_arith);
}

/// Silence is counted only while it is unbroken: after any voiced frame
/// the machine's count of consecutive silent frames is 0, whether it was
/// idle or recording, and whatever silence came before; and a voiced frame
/// never ends an utterance for silence: a final it brings out has reached
/// the maximum duration.
pub proof fn lemma_voiced_frame_clears_silence(m: VadModel, frame: Seq<i16>)
    ensures
        vad_step(m, frame, true).0.hangover_frames == 0,
        forall|i: int|
            0 <= i < vad_step(m, frame, true).1.len() && !(#[trigger] vad_step(m, frame, true).1[i]).partial
                ==> samples_to_ms(vad_step(m, frame, true).1[i].samples.len()) >= m.max_duration_ms,
{
    let (m1, e1) = vad_transition(m, frame, true);
    let (m2, e2) = vad_partial(m1);
    let (m3, e3) = vad_force_pack(m2);
    assert(e1.len() == 0);
    let all = e1 + e2 + e3;
    assert forall|i: int| 0 <= i < all.len() && !(#[trigger] all[i]).partial implies samples_to_ms(all[i].samples.len())
        >= m.max_duration_ms by {
        if i < e2.len() {
            assert(all[i] == e2[i]);
        } else {
            assert(all[i] == e3[i - e2.len()]);
        }
    }
}

/// While recording, a silent frame adds one to the count of consecutive
/// silent frames; the utterance is packed for silence exactly when that
/// count reaches `hangover_frames_max`. Before then (and short of the
/// maximum duration) the utterance goes on and no final is emitted.
pub proof fn lemma_silence_packs_only_after_hangover(m: VadModel, frame: Seq<i16>)
    requires
        m.current.is_some(),
        m.hangover_frames < u32::MAX,
    ensures
        m.hangover_frames + 1 >= m.hangover_frames_max ==> vad_step(m, frame, false).0.current.is_none(),
        m.hangover_frames + 1 < m.hangover_frames_max && samples_to_ms((m.current.unwrap().1 + frame).len())
            < m.max_duration_ms ==> {
            &&& vad_step(m, frame, false).0.current == Some((m.current.unwrap().0, m.current.unwrap().1 + frame))
            &&& vad_step(m, frame, false).0.hangover_frames == m.hangover_frames + 1
            &&& forall|i: int| 0 <= i < vad_step(m, frame, false).1.len() ==> (#[trigger] vad_step(m, frame, false).1[i]).partial
        },
{
    let (m1, e1) = vad_transition(m, frame, false);
    let (m2, e2) = vad_partial(m1);
    let (m3, e3) = vad_force_pack(m2);
    if m.hangover_frames + 1 < m.hangover_frames_max && samples_to_ms((m.current.unwrap().1 + frame).len()) < m.max_duration_ms {
        assert(e1.len() == 0);
        assert(e3.len() == 0);
        assert(e1 + e2 + e3 =~= e2);
    }
}

} // verus!
