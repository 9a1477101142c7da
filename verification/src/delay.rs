//! Feedback delay line over a growable ring buffer.
//!
//! Each sample is written into the buffer together with a scaled copy of the
//! sample it displaced (`input + delayed * feedback`), producing a
//! recirculating echo; the output cross-fades the dry input against the
//! delayed sample.  Feedback is capped below one, so with saturated inputs
//! every buffer cell provably stays within [`CELL_MAX`].  Growing the delay
//! time reallocates the buffer, preserving the retained history in read
//! order; shrinking never shrinks the buffer.

use crate::fixed::{
    clamp_i64, clampi, div_q, divq, lemma_divq_le, lemma_mul_bound, ONE, SAMPLE_MAX,
    SAMPLE_RATE_MAX,
};
use crate::strutil::str_eq;
use vstd::arithmetic::div_mod::{
    lemma_div_is_ordered, lemma_div_pos_is_pos, lemma_mod_division_less_than_divisor,
};
use vstd::prelude::*;

verus! {

/// Largest feedback, just below 0.99 in Q16.16.
pub const FEEDBACK_MAX: i64 = 64880;

/// Longest delay time: 10 seconds, in Q16.16 seconds.
pub const DELAY_TIME_MAX: i64 = 10 * 65536;

/// Most samples a delay line can span: `DELAY_TIME_MAX * SAMPLE_RATE_MAX / ONE`.
pub const DELAY_SAMPLES_MAX: i64 = 3840000;

/// Bound every buffer cell provably stays within (2^43): with inputs
/// saturated to `SAMPLE_MAX` and feedback at most `FEEDBACK_MAX`, one
/// recirculation step keeps `SAMPLE_MAX + CELL_MAX * FEEDBACK_MAX / ONE`
/// below this.
pub const CELL_MAX: i64 = 0x800_0000_0000;

/// Ghost state of a delay line.
pub struct DelayModel {
    pub buffer: Seq<i64>,
    pub write_pos: int,
    pub delay_samples: int,
    pub feedback: int,
    pub mix: int,
    pub sample_rate: int,
}

impl DelayModel {
    /// Well-formedness: the buffer is strictly longer than the delay span
    /// (keeping the read and write cursors from overlapping), the cursor is
    /// in range, parameters are clamped, and every cell is bounded.
    pub open spec fn inv(self) -> bool {
        &&& 0 <= self.delay_samples < self.buffer.len()
        &&& self.buffer.len() <= DELAY_SAMPLES_MAX + 1
        &&& 0 <= self.write_pos < self.buffer.len()
        &&& 0 <= self.feedback <= FEEDBACK_MAX
        &&& 0 <= self.mix <= ONE
        &&& 1 <= self.sample_rate <= SAMPLE_RATE_MAX
        &&& forall|i: int|
            0 <= i < self.buffer.len() ==> -CELL_MAX <= #[trigger] self.buffer[i] <= CELL_MAX
    }
}

/// How many samples a delay time spans at a sample rate.
pub open spec fn delay_span(t: int, sample_rate: int) -> int {
    clampi(t, 0, DELAY_TIME_MAX as int) * sample_rate / (ONE as int)
}

/// One delay step: read the cell `delay_samples` behind the cursor, write
/// `input + delayed * feedback / ONE` over the cursor, advance it, and
/// cross-fade dry against delayed by the mix.
pub open spec fn delay_step(m: DelayModel, input: int) -> (DelayModel, int)
    recommends
        m.inv(),
{
    let x = clampi(input, -SAMPLE_MAX as int, SAMPLE_MAX as int);
    let len = m.buffer.len() as int;
    let read_pos = (m.write_pos + len - m.delay_samples) % len;
    let delayed = m.buffer[read_pos];
    let written = (x + divq(delayed * m.feedback, ONE as int)) as i64;
    let out = divq(x * (ONE - m.mix) + delayed * m.mix, ONE as int);
    (
        DelayModel {
            buffer: m.buffer.update(m.write_pos, written),
            write_pos: (m.write_pos + 1) % len,
            ..m
        },
        out,
    )
}

/// What changing the delay time does: the new span, and, where it reaches or
/// exceeds the current buffer, a grown buffer holding the old contents in
/// read order (oldest first) padded with zeroes, with the cursor rewound.
pub open spec fn delay_set_time(m: DelayModel, t: int) -> DelayModel
    recommends
        m.inv(),
{
    let nd = delay_span(t, m.sample_rate);
    if nd >= m.buffer.len() {
        DelayModel {
            buffer: Seq::new(
                (nd + 1) as nat,
                |i: int|
                    if i < m.buffer.len() {
                        m.buffer[(m.write_pos + i) % m.buffer.len() as int]
                    } else {
                        0i64
                    },
            ),
            write_pos: 0,
            delay_samples: nd,
            ..m
        }
    } else {
        DelayModel { delay_samples: nd, ..m }
    }
}

/// What `reset` does: every cell zeroed and the cursor rewound; parameters
/// and capacity are kept.
pub open spec fn delay_reset(m: DelayModel) -> DelayModel {
    DelayModel {
        buffer: Seq::new(m.buffer.len(), |i: int| 0i64),
        write_pos: 0,
        ..m
    }
}

/// What `set_parameter` does: the updated model and whether the name was
/// recognized.
pub open spec fn delay_param(m: DelayModel, name: Seq<char>, value: int) -> (DelayModel, bool) {
    if name == "time"@ {
        (delay_set_time(m, value), true)
    } else if name == "feedback"@ {
        (DelayModel { feedback: clampi(value, 0, FEEDBACK_MAX as int), ..m }, true)
    } else if name == "mix"@ {
        (DelayModel { mix: clampi(value, 0, ONE as int), ..m }, true)
    } else {
        (m, false)
    }
}

/// Feedback delay line, Q16.16.
pub struct Delay {
    buffer: Vec<i64>,
    write_pos: usize,
    delay_samples: usize,
    feedback: i64,
    mix: i64,
    sample_rate: u32,
}

impl View for Delay {
    type V = DelayModel;

    closed spec fn view(&self) -> DelayModel {
        DelayModel {
            buffer: self.buffer@,
            write_pos: self.write_pos as int,
            delay_samples: self.delay_samples as int,
            feedback: self.feedback as int,
            mix: self.mix as int,
            sample_rate: self.sample_rate as int,
        }
    }
}

impl Delay {
    /// A silent delay line spanning `delay_time` (Q16.16 seconds, clamped to
    /// `[0, 10 s]`) at `sample_rate` (clamped to `[1, SAMPLE_RATE_MAX]` Hz),
    /// with feedback clamped to `[0, 0.99)` and mix to `[0, 1]`.
    pub fn new(delay_time: i64, feedback: i64, mix: i64, sample_rate: u32) -> (r: Delay)
        ensures
            r@.inv(),
            r@.sample_rate == clampi(sample_rate as int, 1, SAMPLE_RATE_MAX as int),
            r@.delay_samples == delay_span(delay_time as int, r@.sample_rate),
            r@.buffer.len() == r@.delay_samples + 1,
            forall|i: int| 0 <= i < r@.buffer.len() ==> r@.buffer[i] == 0,
            r@.write_pos == 0,
            r@.feedback == clampi(feedback as int, 0, FEEDBACK_MAX as int),
            r@.mix == clampi(mix as int, 0, ONE as int),
    {
        let sr: u32 = if sample_rate < 1 {
            1
        } else if sample_rate > SAMPLE_RATE_MAX {
            SAMPLE_RATE_MAX
        } else {
            sample_rate
        };
        let t = clamp_i64(delay_time, 0, DELAY_TIME_MAX);
        proof {
            lemma_div_pos_is_pos(t * sr, ONE as int);
            lemma_mul_bound(t as int, sr as int, DELAY_TIME_MAX as int, SAMPLE_RATE_MAX as int);
            lemma_div_is_ordered(
                t * sr,
                DELAY_TIME_MAX * SAMPLE_RATE_MAX,
                ONE as int,
            );
        }
        let d: usize = (((t as u64) * (sr as u64)) / 65536u64) as usize;
        let mut buffer: Vec<i64> = Vec::new();
        let n: usize = d + 1;
        while buffer.len() < n
            invariant
                buffer@.len() <= n,
                forall|i: int| 0 <= i < buffer@.len() ==> buffer@[i] == 0,
            decreases n - buffer@.len(),
        {
            buffer.push(0);
        }
        Delay { buffer, write_pos: 0, delay_samples: d, feedback: clamp_i64(feedback, 0, FEEDBACK_MAX), mix: clamp_i64(mix, 0, ONE), sample_rate: sr }
    }

    /// Re-span the delay to `delay_time` (Q16.16 seconds, clamped).  Growing
    /// past the current buffer reallocates it, carrying the old contents
    /// over in read order so no retained echo is lost; shrinking only moves
    /// the read distance.
    pub fn set_delay_time(&mut self, delay_time: i64)
        requires
            old(self)@.inv(),
        ensures
            final(self)@.inv(),
            final(self)@ == delay_set_time(old(self)@, delay_time as int),
    {
        let t = clamp_i64(delay_time, 0, DELAY_TIME_MAX);
        proof {
            lemma_div_pos_is_pos(t * self.sample_rate, ONE as int);
            lemma_mul_bound(
                t as int,
                self.sample_rate as int,
                DELAY_TIME_MAX as int,
                SAMPLE_RATE_MAX as int,
            );
            lemma_div_is_ordered(
                t * self.sample_rate,
                DELAY_TIME_MAX * SAMPLE_RATE_MAX,
                ONE as int,
            );
        }
        let nd: usize = (((t as u64) * (self.sample_rate as u64)) / 65536u64) as usize;
        if nd >= self.buffer.len() {
            let olen = self.buffer.len();
            let mut nbuf: Vec<i64> = Vec::new();
            let mut i: usize = 0;
            while i < olen
                invariant
                    i <= olen,
                    olen == self.buffer@.len(),
                    olen <= DELAY_SAMPLES_MAX + 1,
                    self.write_pos < olen,
                    nbuf@.len() == i,
                    forall|j: int|
                        0 <= j < i ==> nbuf@[j] == self.buffer@[
                            (self.write_pos + j) % (olen as int)
                        ],
                decreases olen - i,
            {
                proof {
                    lemma_mod_division_less_than_divisor(
                        self.write_pos + i,
                        olen as int,
                    );
                }
                let rp: usize = (self.write_pos + i) % olen;
                let cell = self.buffer[rp];
                nbuf.push(cell);
                i = i + 1;
            }
            let nlen: usize = nd + 1;
            while nbuf.len() < nlen
                invariant
                    olen <= nbuf@.len() <= nlen,
                    olen == self.buffer@.len(),
                    self.write_pos < olen,
                    forall|j: int|
                        0 <= j < olen ==> nbuf@[j] == self.buffer@[
                            (self.write_pos + j) % (olen as int)
                        ],
                    forall|j: int| olen <= j < nbuf@.len() ==> nbuf@[j] == 0,
                decreases nlen - nbuf@.len(),
            {
                nbuf.push(0);
            }
            proof {
                let m = old(self)@;
                let target = delay_set_time(m, delay_time as int).buffer;
                assert forall|j: int| 0 <= j < nbuf@.len() implies nbuf@[j] == target[j] by {
                    if j < olen {
                        lemma_mod_division_less_than_divisor(m.write_pos + j, olen as int);
                    }
                }
                assert(nbuf@ =~= target);
            }
            self.buffer = nbuf;
            self.write_pos = 0;
        }
        self.delay_samples = nd;
        proof {
            let m = old(self)@;
            let b = self@.buffer;
            assert forall|i: int| 0 <= i < b.len() implies -CELL_MAX <= #[trigger] b[i]
                <= CELL_MAX by {
                if b.len() > m.buffer.len() && i < m.buffer.len() {
                    lemma_mod_division_less_than_divisor(
                        m.write_pos + i,
                        m.buffer.len() as int,
                    );
                }
            }
        }
    }

    /// Set the feedback, clamped to `[0, 0.99)`: recirculation below unity
    /// keeps the echo's energy bounded.
    pub fn set_feedback(&mut self, feedback: i64)
        ensures
            final(self)@ == (DelayModel {
                feedback: clampi(feedback as int, 0, FEEDBACK_MAX as int),
                ..old(self)@
            }),
    {
        self.feedback = clamp_i64(feedback, 0, FEEDBACK_MAX);
    }

    /// Set the dry/wet mix, clamped to `[0, 1]`.
    pub fn set_mix(&mut self, mix: i64)
        ensures
            final(self)@ == (DelayModel { mix: clampi(mix as int, 0, ONE as int), ..old(self)@ }),
    {
        self.mix = clamp_i64(mix, 0, ONE);
    }

    /// One delay step, exactly [`delay_step`] on the model.
    pub fn process(&mut self, input: i64) -> (out: i64)
        requires
            old(self)@.inv(),
        ensures
            final(self)@.inv(),
            (final(self)@, out as int) == delay_step(old(self)@, input as int),
    {
        let x = clamp_i64(input, -SAMPLE_MAX, SAMPLE_MAX);
        let len = self.buffer.len();
        proof {
            lemma_mod_division_less_than_divisor(
                self.write_pos + len - self.delay_samples,
                len as int,
            );
        }
        let read_pos: usize = (self.write_pos + len - self.delay_samples) % len;
        let delayed = self.buffer[read_pos];
        proof {
            lemma_mul_bound(delayed as int, self.feedback as int, CELL_MAX as int, FEEDBACK_MAX as int);
            lemma_divq_le(delayed * self.feedback, ONE as int, CELL_MAX * FEEDBACK_MAX);
            lemma_mul_bound(x as int, (ONE - self.mix) as int, SAMPLE_MAX as int, ONE as int);
            lemma_mul_bound(delayed as int, self.mix as int, CELL_MAX as int, ONE as int);
            lemma_divq_le(
                x * (ONE - self.mix) + delayed * self.mix,
                ONE as int,
                SAMPLE_MAX * ONE + CELL_MAX * ONE,
            );
        }
        let written: i64 = x + div_q(delayed * self.feedback, ONE);
        self.buffer[self.write_pos] = written;
        self.write_pos = (self.write_pos + 1) % len;
        proof {
            lemma_mod_division_less_than_divisor(old(self)@.write_pos + 1, len as int);
        }
        div_q(x * (ONE - self.mix) + delayed * self.mix, ONE)
    }

    /// Silence the line: zero every cell and rewind the cursor; parameters
    /// and capacity are kept.
    pub fn reset(&mut self)
        requires
            old(self)@.inv(),
        ensures
            final(self)@.inv(),
            final(self)@ == delay_reset(old(self)@),
    {
        let len = self.buffer.len();
        let mut i: usize = 0;
        while i < len
            invariant
                i <= len,
                len == self.buffer@.len(),
                forall|j: int| 0 <= j < i ==> self.buffer@[j] == 0,
                self.write_pos == old(self).write_pos,
                self.delay_samples == old(self).delay_samples,
                self.feedback == old(self).feedback,
                self.mix == old(self).mix,
                self.sample_rate == old(self).sample_rate,
            decreases len - i,
        {
            self.buffer[i] = 0;
            i = i + 1;
        }
        self.write_pos = 0;
        proof {
            assert(self@.buffer =~= delay_reset(old(self)@).buffer);
        }
    }

    /// Set a parameter by name: `"time"` (Q16.16 seconds), `"feedback"` or
    /// `"mix"`.  Unknown names change nothing and return `false`.
    pub fn set_parameter(&mut self, name: &str, value: i64) -> (recognized: bool)
        requires
            old(self)@.inv(),
        ensures
            final(self)@.inv(),
            (final(self)@, recognized) == delay_param(old(self)@, name@, value as int),
    {
        if str_eq(name, "time") {
            self.set_delay_time(value);
            true
        } else if str_eq(name, "feedback") {
            self.set_feedback(value);
            true
        } else if str_eq(name, "mix") {
            self.set_mix(value);
            true
        } else {
            false
        }
    }

    /// The effect's name.
    pub fn name(&self) -> (r: &'static str)
        ensures
            r@ == "Delay"@,
    {
        "Delay"
    }
}

} // verus!
