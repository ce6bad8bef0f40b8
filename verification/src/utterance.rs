//! Utterances: voice-bounded audio segments, the builder that accumulates
//! one while speech goes on, and the pre-roll buffer that keeps the audio
//! heard just before speech started.
use crate::clock::wall_clock_now;
use std::collections::VecDeque;
use std::time::SystemTime;
use uuid::Uuid;
use vstd::prelude::*;

verus! {

/// Sample rate of all audio handed to speech recognition (16 kHz mono PCM16).
pub const TARGET_SAMPLE_RATE_HZ: u32 = 16_000;

/// Channel count of all audio handed to speech recognition.
pub const TARGET_CHANNELS: u16 = 1;

/// Largest block the capture callback hands over at once, in samples.
pub const MAX_CALLBACK_BLOCK: usize = 4096;

#[verifier::external_type_specification]
#[verifier::external_body]
pub struct ExUuid(Uuid);

#[verifier::external_type_specification]
#[verifier::external_body]
pub struct ExInstant(std::time::Instant);

/// Calls `uuid::Uuid::new_v4`: a fresh random identifier. It rests on the
/// random number generator, so nothing is stated of it.
#[verifier::external_body]
fn fresh_uuid() -> (id: Uuid) {
    Uuid::new_v4()
}

/// Milliseconds of 16 kHz audio held in `n` samples, as the recorder
/// reports it: a `u32`, truncated as a cast truncates.
pub open spec fn samples_to_ms(n: nat) -> u32 {
    ((n * 1000) / (TARGET_SAMPLE_RATE_HZ as nat)) as u32
}

fn duration_ms_of(n: usize) -> (ms: u32)
    ensures
        ms == samples_to_ms(n as nat),
{
    let wide: u128 = (n as u128) * 1000 / (TARGET_SAMPLE_RATE_HZ as u128);
    #[verifier::truncate]
    (wide as u32)
}

/// A voice-bounded audio segment ready for speech recognition.
///
/// A final utterance (`is_partial == false`) is packed once speech ended or
/// ran too long; a partial one is a snapshot taken while speech goes on and
/// shares the `seq` of the final that follows it.
#[derive(Debug)]
pub struct Utterance {
    /// Fresh random identifier of this snapshot.
    pub id: Uuid,
    /// Sequence number within the recording session.
    pub seq: u64,
    /// Wall-clock time at which the segment started.
    pub started_at: SystemTime,
    /// Duration in milliseconds, derived from the sample count.
    pub duration_ms: u32,
    /// 16 kHz mono PCM16 samples: pre-roll, speech and hangover.
    pub audio_pcm16_mono_16k: Vec<i16>,
    /// True for snapshots taken while speech goes on.
    pub is_partial: bool,
}

impl Utterance {
    /// Number of samples in the segment.
    pub fn sample_count(&self) -> (n: usize)
        ensures
            n == self.audio_pcm16_mono_16k@.len(),
    {
        self.audio_pcm16_mono_16k.len()
    }
}

/// Accumulates the samples of the utterance in progress.
pub struct UtteranceBuilder {
    seq: u64,
    started_at: SystemTime,
    samples: Vec<i16>,
}

impl UtteranceBuilder {
    /// Sequence number of the utterance being built.
    pub closed spec fn spec_seq(&self) -> u64 {
        self.seq
    }

    /// Samples accumulated so far.
    pub closed spec fn spec_samples(&self) -> Seq<i16> {
        self.samples@
    }

    /// Wall-clock time at which the builder was started.
    pub closed spec fn spec_started_at(&self) -> SystemTime {
        self.started_at
    }

    /// Starts a new utterance with sequence number `seq`.
    pub fn new(seq: u64) -> (b: Self)
        ensures
            b.spec_seq() == seq,
            b.spec_samples() == Seq::<i16>::empty(),
    {
        UtteranceBuilder {
            seq,
            started_at: wall_clock_now(),
            samples: Vec::with_capacity((TARGET_SAMPLE_RATE_HZ as usize) * 5),
        }
    }

    /// Appends samples.
    pub fn append_slice(&mut self, frames: &[i16])
        ensures
            final(self).spec_seq() == old(self).spec_seq(),
            final(self).spec_started_at() == old(self).spec_started_at(),
            final(self).spec_samples() == old(self).spec_samples() + frames@,
    {
        let ghost before = self.samples@;
        self.samples.extend_from_slice(frames);
        proof {
            assert(self.samples@ =~= before + frames@);
        }
    }

    /// Duration in milliseconds of the samples accumulated so far.
    pub fn duration_ms(&self) -> (ms: u32)
        ensures
            ms == samples_to_ms(self.spec_samples().len()),
    {
        duration_ms_of(self.samples.len())
    }

    /// Number of samples accumulated so far.
    pub fn sample_count(&self) -> (n: usize)
        ensures
            n == self.spec_samples().len(),
    {
        self.samples.len()
    }

    /// Finalizes into a final utterance.
    pub fn build(self) -> (u: Utterance)
        ensures
            u.seq == self.spec_seq(),
            u.started_at == self.spec_started_at(),
            u.audio_pcm16_mono_16k@ == self.spec_samples(),
            u.duration_ms == samples_to_ms(self.spec_samples().len()),
            !u.is_partial,
    {
        let duration_ms = duration_ms_of(self.samples.len());
        Utterance {
            id: fresh_uuid(),
            seq: self.seq,
            started_at: self.started_at,
            duration_ms,
            audio_pcm16_mono_16k: self.samples,
            is_partial: false,
        }
    }

    /// Snapshots the audio so far as a partial utterance, keeping the builder.
    pub fn snapshot_partial(&self) -> (u: Utterance)
        ensures
            u.seq == self.spec_seq(),
            u.started_at == self.spec_started_at(),
            u.audio_pcm16_mono_16k@ == self.spec_samples(),
            u.duration_ms == samples_to_ms(self.spec_samples().len()),
            u.is_partial,
    {
        let duration_ms = duration_ms_of(self.samples.len());
        let samples = copy_samples(&self.samples);
        Utterance {
            id: fresh_uuid(),
            seq: self.seq,
            started_at: self.started_at,
            duration_ms,
            audio_pcm16_mono_16k: samples,
            is_partial: true,
        }
    }
}

fn copy_samples(v: &Vec<i16>) -> (r: Vec<i16>)
    ensures
        r@ == v@,
{
    let mut r: Vec<i16> = Vec::with_capacity(v.len());
    r.extend_from_slice(v.as_slice());
    proof {
        assert(r@ =~= v@);
    }
    r
}

/// Pushing one sample into a pre-roll buffer of capacity `cap`: a buffer
/// of capacity 0 keeps nothing; a full one lets its oldest sample go first.
pub open spec fn preroll_push_one(buf: Seq<i16>, cap: nat, s: i16) -> Seq<i16> {
    if cap == 0 {
        buf
    } else if buf.len() >= cap && buf.len() > 0 {
        buf.drop_first().push(s)
    } else {
        buf.push(s)
    }
}

/// Pushing a run of samples, one after another.
pub open spec fn preroll_push_all(buf: Seq<i16>, cap: nat, xs: Seq<i16>) -> Seq<i16>
    decreases xs.len(),
{
    if xs.len() == 0 {
        buf
    } else {
        preroll_push_one(preroll_push_all(buf, cap, xs.drop_last()), cap, xs.last())
    }
}

/// The last `n` items of `s` (all of `s` when it is shorter).
pub open spec fn last_n<T>(s: Seq<T>, n: nat) -> Seq<T> {
    if s.len() <= n {
        s
    } else {
        s.subrange(s.len() - n, s.len() as int)
    }
}

/// Rolling buffer of the most recent samples, prepended to an utterance
/// when speech starts so that its first sound is not lost.
pub struct PreRollBuffer {
    buf: VecDeque<i16>,
    capacity: usize,
}

impl PreRollBuffer {
    /// Samples held, oldest first.
    pub closed spec fn spec_samples(&self) -> Seq<i16> {
        self.buf@
    }

    /// The capacity the buffer was made with.
    pub closed spec fn spec_capacity(&self) -> nat {
        self.capacity as nat
    }

    /// An empty buffer holding at most `capacity_samples` samples.
    pub fn new(capacity_samples: usize) -> (p: Self)
        ensures
            p.spec_samples() == Seq::<i16>::empty(),
            p.spec_capacity() == capacity_samples,
    {
        PreRollBuffer { buf: VecDeque::with_capacity(capacity_samples), capacity: capacity_samples }
    }

    /// An empty buffer holding `ms` milliseconds of 16 kHz audio.
    pub fn from_ms(ms: u32) -> (p: Self)
        requires
            (ms as nat) * (TARGET_SAMPLE_RATE_HZ as nat) / 1000 <= usize::MAX,
        ensures
            p.spec_samples() == Seq::<i16>::empty(),
            p.spec_capacity() == (ms as nat) * (TARGET_SAMPLE_RATE_HZ as nat) / 1000,
    {
        let cap: u64 = (ms as u64) * (TARGET_SAMPLE_RATE_HZ as u64) / 1000;
        assert(cap <= u32::MAX * 16) by (nonlinear_arith)
            requires
                cap == (ms as u64) * 16000 / 1000,
                ms <= u32::MAX,
        ;
        Self::new(cap as usize)
    }

    /// The capacity in samples.
    pub fn capacity(&self) -> (c: usize)
        ensures
            c == self.spec_capacity(),
    {
        self.capacity
    }

    /// Pushes samples; when full, the oldest samples leave, so the buffer
    /// holds the most recent `capacity` samples of all it was given.
    pub fn push(&mut self, samples: &[i16])
        ensures
            final(self).spec_capacity() == old(self).spec_capacity(),
            final(self).spec_samples() == preroll_push_all(
                old(self).spec_samples(),
                old(self).spec_capacity(),
                samples@,
            ),
            old(self).spec_samples().len() <= old(self).spec_capacity() ==> final(self).spec_samples()
                == last_n(old(self).spec_samples() + samples@, old(self).spec_capacity()),
    {
        let mut i: usize = 0;
        while i < samples.len()
            invariant
                i <= samples@.len(),
                self.capacity == old(self).capacity,
                self.buf@ == preroll_push_all(
                    old(self).buf@,
                    self.capacity as nat,
                    samples@.subrange(0, i as int),
                ),
            decreases samples@.len() - i,
        {
            let s = samples[i];
            proof {
                let xs = samples@.subrange(0, i as int + 1);
                assert(xs.drop_last() =~= samples@.subrange(0, i as int));
                assert(xs.last() == s);
            }
            if self.capacity > 0 {
                if self.buf.len() >= self.capacity {
                    let _ = self.buf.pop_front();
                }
                self.buf.push_back(s);
            }
            i = i + 1;
        }
        proof {
            assert(samples@.subrange(0, samples@.len() as int) =~= samples@);
            if old(self).buf@.len() <= old(self).capacity {
                lemma_preroll_keeps_most_recent(old(self).buf@, old(self).capacity as nat, samples@);
            }
        }
    }

    /// Takes out all samples, oldest first, leaving the buffer empty.
    pub fn drain_to_vec(&mut self) -> (v: Vec<i16>)
        ensures
            v@ == old(self).spec_samples(),
            final(self).spec_samples() == Seq::<i16>::empty(),
            final(self).spec_capacity() == old(self).spec_capacity(),
    {
        let mut v: Vec<i16> = Vec::new();
        while self.buf.len() > 0
            invariant
                v@ + self.buf@ == old(self).buf@,
                self.capacity == old(self).capacity,
            decreases self.buf@.len(),
        {
            let ghost before = self.buf@;
            match self.buf.pop_front() {
                Some(s) => {
                    v.push(s);
                    proof {
                        assert(v@ + self.buf@ =~= old(self).buf@);
                    }
                },
                None => {},
            }
        }
        proof {
            assert(v@ =~= v@ + self.buf@);
        }
        v
    }

    /// Number of samples held.
    pub fn len(&self) -> (n: usize)
        ensures
            n == self.spec_samples().len(),
    {
        self.buf.len()
    }

    /// True when no sample is held.
    pub fn is_empty(&self) -> (b: bool)
        ensures
            b == (self.spec_samples().len() == 0),
    {
        self.buf.len() == 0
    }
}

/// Pushing into a buffer that holds at most `cap` samples keeps exactly the
/// most recent `cap` samples of everything pushed so far (none when `cap`
/// is 0).
pub proof fn lemma_preroll_keeps_most_recent(buf: Seq<i16>, cap: nat, xs: Seq<i16>)
    requires
        buf.len() <= cap,
    ensures
        preroll_push_all(buf, cap, xs) == last_n(buf + xs, cap),
    decreases xs.len(),
{
    if xs.len() == 0 {
        assert(buf + xs =~= buf);
    } else {
        let ys = xs.drop_last();
        lemma_preroll_keeps_most_recent(buf, cap, ys);
        let prev = last_n(buf + ys, cap);
        let all = buf + xs;
        assert(all =~= (buf + ys).push(xs.last()));
        if cap == 0 {
            assert(last_n(all, cap) =~= Seq::<i16>::empty());
            assert(prev =~= Seq::<i16>::empty());
        } else if (buf + ys).len() < cap {
            assert(preroll_push_all(buf, cap, xs) =~= last_n(all, cap));
        } else {
            assert(prev.len() == cap);
            assert(preroll_push_all(buf, cap, xs) =~= last_n(all, cap));
        }
    }
}

} // verus!
