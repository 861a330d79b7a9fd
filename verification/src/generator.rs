//! The oscillator: exact integer phases, block by block.

use vstd::prelude::*;
use vstd::arithmetic::div_mod::*;

verus! {

/// Phase of the sample with running index `index`, in units of
/// `1 / sampling_rate` of a full turn: the angle of that sample is
/// `2 * pi * phase_at(..) / sampling_rate`, which differs from
/// `2 * pi * frequency * index / sampling_rate` by whole turns only.
pub open spec fn phase_at(frequency: nat, sampling_rate: nat, index: nat) -> nat {
    (frequency * index) % sampling_rate
}

/// Mathematical state of a sine oscillator.
pub struct Oscillator {
    /// Frequency of the wave, in Hz.
    pub frequency: nat,
    /// Samples per second.
    pub sampling_rate: nat,
    /// Running sample index, modulo `sampling_rate`.
    pub step: nat,
}

impl Oscillator {
    /// The sampling rate is positive, the step lies below it, and all three
    /// fit in 32 bits.
    pub open spec fn wf(self) -> bool {
        &&& 0 < self.sampling_rate <= u32::MAX
        &&& self.frequency <= u32::MAX
        &&& self.step < self.sampling_rate
    }

    /// The oscillator at rest: step zero.
    pub open spec fn initial(frequency: nat, sampling_rate: nat) -> Oscillator {
        Oscillator { frequency, sampling_rate, step: 0 }
    }

    /// Phase of the `i`-th sample that comes next.
    pub open spec fn phase(self, i: nat) -> nat {
        phase_at(self.frequency, self.sampling_rate, self.step + i)
    }

    /// The next `len` phases.
    pub open spec fn block(self, len: nat) -> Seq<u32> {
        Seq::new(len, |i: int| self.phase(i as nat) as u32)
    }

    /// The state after `len` more samples.
    pub open spec fn advance(self, len: nat) -> Oscillator {
        Oscillator { step: (self.step + len) % self.sampling_rate, ..self }
    }
}

/// A source of sample blocks that keeps its place between calls.
pub trait WaveGenerator {
    /// Validity of the generator's state.
    spec fn wf(&self) -> bool;

    /// The block that the next call of `update` writes into a buffer of
    /// `len` elements.
    spec fn next_block(&self, len: nat) -> Seq<u32>;

    /// Overwrites all of `buffer` with the next block and returns it.
    fn update<'a>(&'a mut self, buffer: &'a mut [u32]) -> (out: &'a [u32])
        requires
            old(self).wf(),
        ensures
            final(self).wf(),
            final(buffer)@ == old(self).next_block(old(buffer)@.len()),
            out@ == final(buffer)@,
    ;
}

/// Sine oscillator of fixed frequency and sampling rate.
#[derive(Debug)]
pub struct SineWaveGenerator {
    frequency: u32,
    sampling_rate: u32,
    step: u32,
}

impl View for SineWaveGenerator {
    type V = Oscillator;

    closed spec fn view(&self) -> Oscillator {
        Oscillator {
            frequency: self.frequency as nat,
            sampling_rate: self.sampling_rate as nat,
            step: self.step as nat,
        }
    }
}

/// Why an oscillator could not be set up.
#[derive(Clone, Copy, Debug, PartialEq, Eq, Structural)]
pub enum ConfigError {
    /// The sampling rate is zero.
    ZeroSamplingRate,
}

impl SineWaveGenerator {
    /// An oscillator at step zero.
    pub fn new(frequency: u32, sampling_rate: u32) -> (generator: SineWaveGenerator)
        requires
            sampling_rate > 0,
        ensures
            generator@ == Oscillator::initial(frequency as nat, sampling_rate as nat),
            generator@.wf(),
    {
        SineWaveGenerator { frequency, sampling_rate, step: 0 }
    }

    /// As `new`, for any sampling rate: a rate of zero is reported.
    pub fn try_new(frequency: u32, sampling_rate: u32) -> (result: Result<
        SineWaveGenerator,
        ConfigError,
    >)
        ensures
            sampling_rate > 0 ==> result.is_ok() && result.unwrap()@.wf() && result.unwrap()@
                == Oscillator::initial(frequency as nat, sampling_rate as nat),
            sampling_rate == 0 ==> result matches Err(ConfigError::ZeroSamplingRate),
    {
        if sampling_rate == 0 {
            Err(ConfigError::ZeroSamplingRate)
        } else {
            Ok(SineWaveGenerator::new(frequency, sampling_rate))
        }
    }

    /// Frequency of the wave, in Hz.
    pub fn frequency(&self) -> (frequency: u32)
        ensures
            frequency == self@.frequency,
    {
        self.frequency
    }

    /// Samples per second.
    pub fn sampling_rate(&self) -> (sampling_rate: u32)
        ensures
            sampling_rate == self@.sampling_rate,
    {
        self.sampling_rate
    }

    /// Running sample index, modulo the sampling rate.
    pub fn step(&self) -> (step: u32)
        ensures
            step == self@.step,
    {
        self.step
    }
}

/// Length of a block that lasts ten milliseconds at the given sampling rate.
pub fn block_length(sampling_rate: u32) -> (len: usize)
    ensures
        len == sampling_rate / 100,
{
    (sampling_rate / 100) as usize
}

impl WaveGenerator for SineWaveGenerator {
    open spec fn wf(&self) -> bool {
        self@.wf()
    }

    open spec fn next_block(&self, len: nat) -> Seq<u32> {
        self@.block(len)
    }

    fn update<'a>(&'a mut self, buffer: &'a mut [u32]) -> (out: &'a [u32])
        ensures
            final(self)@ == old(self)@.advance(old(buffer)@.len()),
    {
        let rate: u64 = self.sampling_rate as u64;
        let frequency: u64 = self.frequency as u64;
        let len: usize = buffer.len();
        let delta: u64 = frequency % rate;
        proof {
            lemma_phase_step(self@, 0);
            assert(self.step as u64 * delta <= 0xffff_ffff * 0xffff_ffff) by (nonlinear_arith)
                requires
                    self.step as u64 <= 0xffff_ffff,
                    delta <= 0xffff_ffff,
            ;
        }
        let mut value: u64 = (self.step as u64 * delta) % rate;
        let mut i: usize = 0;
        while i < len
            invariant
                0 <= i <= len,
                len == buffer@.len(),
                rate == old(self)@.sampling_rate,
                delta == old(self)@.frequency % old(self)@.sampling_rate,
                old(self)@.wf(),
                value == old(self)@.phase(i as nat),
                forall|j: int| 0 <= j < i ==> buffer@[j] == old(self)@.phase(j as nat) as u32,
            decreases len - i,
        {
            buffer[i] = value as u32;
            proof {
                lemma_phase_step(old(self)@, i as nat);
            }
            value = (value + delta) % rate;
            i += 1;
        }
        let wrapped: u64 = (len as u64) % rate;
        proof {
            lemma_add_mod_noop_right(self.step as int, len as int, rate as int);
        }
        self.step = ((self.step as u64 + wrapped) % rate) as u32;
        assert(buffer@ =~= old(self)@.block(len as nat));
        buffer
    }
}

/// The phase of a sample follows from that of the one before it.
pub proof fn lemma_phase_step(g: Oscillator, i: nat)
    requires
        g.wf(),
    ensures
        g.phase(i + 1) == (g.phase(i) + g.frequency % g.sampling_rate) % g.sampling_rate,
        g.phase(0) == ((g.step * (g.frequency % g.sampling_rate)) % g.sampling_rate),
        g.phase(i) < g.sampling_rate,
{
    let f = g.frequency as int;
    let r = g.sampling_rate as int;
    let n = (g.step + i) as int;
    assert(f * (n + 1) == f * n + f) by (nonlinear_arith);
    lemma_add_mod_noop(f * n, f, r);
    lemma_mod_twice(f * n, r);
    lemma_add_mod_noop((f * n) % r, f % r, r);
    lemma_mod_twice(f, r);
    lemma_mul_mod_noop_right(g.step as int, f, r);
    assert(g.step * f == f * g.step) by (nonlinear_arith);
    assert(f * n >= 0) by (nonlinear_arith)
        requires f >= 0, n >= 0;
    lemma_mod_bound(f * n, r);
}

/// The phase is what is left of `frequency * index` once the whole turns,
/// each of `sampling_rate` units, are taken away.
pub proof fn lemma_phase_whole_turns(frequency: nat, sampling_rate: nat, index: nat)
    requires
        sampling_rate > 0,
    ensures
        phase_at(frequency, sampling_rate, index) < sampling_rate,
        frequency * index == sampling_rate * ((frequency * index) / sampling_rate) + phase_at(
            frequency,
            sampling_rate,
            index,
        ),
{
    lemma_fundamental_div_mod((frequency * index) as int, sampling_rate as int);
    lemma_mod_bound((frequency * index) as int, sampling_rate as int);
}

/// Two running indices that agree modulo the sampling rate have the same
/// phase.
pub proof fn lemma_phase_periodic(frequency: nat, sampling_rate: nat, a: nat, b: nat)
    requires
        sampling_rate > 0,
        a % sampling_rate == b % sampling_rate,
    ensures
        phase_at(frequency, sampling_rate, a) == phase_at(frequency, sampling_rate, b),
{
    let r = sampling_rate as int;
    lemma_mul_mod_noop_right(frequency as int, a as int, r);
    lemma_mul_mod_noop_right(frequency as int, b as int, r);
}

/// Phase continuity: a block of `first` samples followed by a block of
/// `second` samples is, sample for sample, the single block of
/// `first + second` samples.
pub proof fn lemma_blocks_join(g: Oscillator, first: nat, second: nat)
    requires
        g.wf(),
    ensures
        g.advance(first).wf(),
        g.block(first) + g.advance(first).block(second) == g.block(first + second),
{
    let r = g.sampling_rate;
    let joined = g.block(first) + g.advance(first).block(second);
    lemma_mod_bound((g.step + first) as int, r as int);
    assert forall|k: int| 0 <= k < first + second implies joined[k] == g.block(
        first + second,
    )[k] by {
        if k >= first {
            let j = (k - first) as nat;
            lemma_add_mod_noop_right(j as int, (g.step + first) as int, r as int);
            lemma_phase_periodic(g.frequency, r, g.advance(first).step + j, g.step + first + j);
        }
    }
    assert(joined =~= g.block(first + second));
}

/// Advancing in two parts is advancing by the sum.
pub proof fn lemma_advance_twice(g: Oscillator, first: nat, second: nat)
    requires
        g.wf(),
    ensures
        g.advance(first).advance(second) == g.advance(first + second),
{
    lemma_add_mod_noop_right(second as int, (g.step + first) as int, g.sampling_rate as int);
}

/// After `count` samples in all, however they were split into blocks, the
/// step is `count` modulo the sampling rate, and the samples that follow
/// are those with running indices `count`, `count + 1`, and so on.
pub proof fn lemma_state_after(frequency: nat, sampling_rate: nat, count: nat, i: nat)
    requires
        Oscillator::initial(frequency, sampling_rate).wf(),
    ensures
        Oscillator::initial(frequency, sampling_rate).advance(count).step == count % sampling_rate,
        Oscillator::initial(frequency, sampling_rate).advance(count).phase(i) == phase_at(
            frequency,
            sampling_rate,
            count + i,
        ),
{
    let r = sampling_rate as int;
    lemma_add_mod_noop_right(i as int, count as int, r);
    lemma_phase_periodic(frequency, sampling_rate, count % sampling_rate + i, count + i);
}

/// The samples of `count` blocks of one sample each, one after the other.
pub open spec fn one_by_one(g: Oscillator, count: nat) -> Seq<u32>
    decreases count,
{
    if count == 0 {
        Seq::empty()
    } else {
        g.block(1) + one_by_one(g.advance(1), (count - 1) as nat)
    }
}

/// Blocks of a single sample join as longer blocks do: `count` of them
/// are the block of `count` samples.
pub proof fn lemma_one_by_one(g: Oscillator, count: nat)
    requires
        g.wf(),
    ensures
        one_by_one(g, count) == g.block(count),
    decreases count,
{
    if count == 0 {
        assert(g.block(0) =~= Seq::empty());
    } else {
        lemma_blocks_join(g, 1, (count - 1) as nat);
        lemma_one_by_one(g.advance(1), (count - 1) as nat);
    }
}

} // verus!
