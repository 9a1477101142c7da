//! The effect capability and the ordered effects chain.
//!
//! An [`Effect`] is one of the three processors behind a common surface:
//! per-sample processing, reset, named parameters and a name.  An
//! [`EffectsChain`] owns an ordered sequence of effects and folds each
//! sample through them in insertion order; [`lemma_chain_run_first`] states
//! that this fold is exactly the composition of the effects' step functions.

use crate::delay::{delay_param, delay_reset, delay_step, Delay, DelayModel};
use crate::distortion::{dist_out, dist_param, Distortion, DistortionModel};
use crate::filter::{filter_param, filter_step, Filter, FilterModel};
use vstd::prelude::*;

verus! {

/// Ghost state of one effect.
pub enum EffectModel {
    Filter(FilterModel),
    Delay(DelayModel),
    Distortion(DistortionModel),
}

/// Well-formedness of one effect's state.
pub open spec fn effect_inv(e: EffectModel) -> bool {
    match e {
        EffectModel::Filter(m) => m.inv(),
        EffectModel::Delay(m) => m.inv(),
        EffectModel::Distortion(m) => m.inv(),
    }
}

/// One per-sample step of an effect: its new state and its output.
pub open spec fn effect_step(e: EffectModel, input: int) -> (EffectModel, int) {
    match e {
        EffectModel::Filter(m) => {
            let (m2, y) = filter_step(m, input);
            (EffectModel::Filter(m2), y)
        },
        EffectModel::Delay(m) => {
            let (m2, y) = delay_step(m, input);
            (EffectModel::Delay(m2), y)
        },
        EffectModel::Distortion(m) => (EffectModel::Distortion(m), dist_out(m, input)),
    }
}

/// What `reset` does to one effect's state.
pub open spec fn effect_reset(e: EffectModel) -> EffectModel {
    match e {
        EffectModel::Filter(m) => EffectModel::Filter(
            FilterModel { x1: 0, x2: 0, y1: 0, y2: 0, ..m },
        ),
        EffectModel::Delay(m) => EffectModel::Delay(delay_reset(m)),
        EffectModel::Distortion(m) => EffectModel::Distortion(m),
    }
}

/// What `set_parameter` does to one effect's state: the updated state and
/// whether the name was recognized.
pub open spec fn effect_set_param(e: EffectModel, name: Seq<char>, value: int) -> (
    EffectModel,
    bool,
) {
    match e {
        EffectModel::Filter(m) => {
            let (m2, ok) = filter_param(m, name, value);
            (EffectModel::Filter(m2), ok)
        },
        EffectModel::Delay(m) => {
            let (m2, ok) = delay_param(m, name, value);
            (EffectModel::Delay(m2), ok)
        },
        EffectModel::Distortion(m) => {
            let (m2, ok) = dist_param(m, name, value);
            (EffectModel::Distortion(m2), ok)
        },
    }
}

/// The name of one effect.
pub open spec fn effect_name(e: EffectModel) -> Seq<char> {
    match e {
        EffectModel::Filter(m) => "Filter"@,
        EffectModel::Delay(m) => "Delay"@,
        EffectModel::Distortion(m) => "Distortion"@,
    }
}

/// One audio effect: a filter, a delay or a distortion.
pub enum Effect {
    Filter(Filter),
    Delay(Delay),
    Distortion(Distortion),
}

impl View for Effect {
    type V = EffectModel;

    closed spec fn view(&self) -> EffectModel {
        match self {
            Effect::Filter(f) => EffectModel::Filter(f@),
            Effect::Delay(d) => EffectModel::Delay(d@),
            Effect::Distortion(d) => EffectModel::Distortion(d@),
        }
    }
}

impl Effect {
    /// Process one sample, exactly [`effect_step`] on the model.
    pub fn process(&mut self, input: i64) -> (out: i64)
        requires
            effect_inv(old(self)@),
        ensures
            effect_inv(final(self)@),
            (final(self)@, out as int) == effect_step(old(self)@, input as int),
    {
        match self {
            Effect::Filter(f) => f.process(input),
            Effect::Delay(d) => d.process(input),
            Effect::Distortion(d) => d.process(input),
        }
    }

    /// Reset the effect's running state; parameters are kept.
    pub fn reset(&mut self)
        requires
            effect_inv(old(self)@),
        ensures
            effect_inv(final(self)@),
            final(self)@ == effect_reset(old(self)@),
    {
        match self {
            Effect::Filter(f) => f.reset(),
            Effect::Delay(d) => d.reset(),
            Effect::Distortion(d) => d.reset(),
        }
    }

    /// Set a parameter by name, exactly [`effect_set_param`] on the model.
    pub fn set_parameter(&mut self, name: &str, value: i64) -> (recognized: bool)
        requires
            effect_inv(old(self)@),
        ensures
            effect_inv(final(self)@),
            (final(self)@, recognized) == effect_set_param(old(self)@, name@, value as int),
    {
        match self {
            Effect::Filter(f) => f.set_parameter(name, value),
            Effect::Delay(d) => d.set_parameter(name, value),
            Effect::Distortion(d) => d.set_parameter(name, value),
        }
    }

    /// The effect's name: `"Filter"`, `"Delay"` or `"Distortion"`.
    pub fn name(&self) -> (r: &'static str)
        ensures
            r@ == effect_name(self@),
    {
        match self {
            Effect::Filter(f) => f.name(),
            Effect::Delay(d) => d.name(),
            Effect::Distortion(d) => d.name(),
        }
    }
}

/// Well-formedness of a whole chain: every member well formed.
pub open spec fn chain_inv(s: Seq<EffectModel>) -> bool {
    forall|i: int| 0 <= i < s.len() ==> effect_inv(#[trigger] s[i])
}

/// Fold one sample through a sequence of effects in order: the updated
/// sequence and the final sample.
pub open spec fn chain_run(s: Seq<EffectModel>, input: int) -> (Seq<EffectModel>, int)
    decreases s.len(),
{
    if s.len() == 0 {
        (s, input)
    } else {
        let (pre, y) = chain_run(s.drop_last(), input);
        let (e2, z) = effect_step(s.last(), y);
        (pre.push(e2), z)
    }
}

/// Chain processing is function composition in insertion order: running a
/// non-empty chain equals stepping the first effect and running the rest of
/// the chain on its output.
pub proof fn lemma_chain_run_first(s: Seq<EffectModel>, input: int)
    requires
        s.len() > 0,
    ensures
        ({
            let (e2, y) = effect_step(s[0], input);
            let (rest, z) = chain_run(s.subrange(1, s.len() as int), y);
            chain_run(s, input) == (seq![e2] + rest, z)
        }),
    decreases s.len(),
{
    let (e2, y) = effect_step(s[0], input);
    if s.len() == 1 {
        assert(s.last() == s[0]);
        assert(s.drop_last() =~= Seq::<EffectModel>::empty());
        assert(s.subrange(1, 1) =~= Seq::<EffectModel>::empty());
        assert(chain_run(s.drop_last(), input) == (s.drop_last(), input));
        assert(chain_run(s.subrange(1, 1), y) == (s.subrange(1, 1), y));
        let (rest, z) = chain_run(s.subrange(1, 1), y);
        assert(chain_run(s, input).0 == s.drop_last().push(e2));
        assert(chain_run(s, input).1 == z);
        assert(seq![e2] + rest =~= s.drop_last().push(e2));
    } else {
        let t = s.drop_last();
        assert(t[0] == s[0]);
        lemma_chain_run_first(t, input);
        let (trest, tz) = chain_run(t.subrange(1, t.len() as int), y);
        assert(chain_run(t, input) == (seq![e2] + trest, tz));
        let tail = s.subrange(1, s.len() as int);
        assert(tail.drop_last() =~= t.subrange(1, t.len() as int));
        assert(tail.last() == s.last());
        let (rest, z) = chain_run(tail, y);
        assert(rest == trest.push(effect_step(s.last(), tz).0));
        assert(z == effect_step(s.last(), tz).1);
        assert(chain_run(s, input).0 == (seq![e2] + trest).push(effect_step(s.last(), tz).0));
        assert(chain_run(s, input).1 == effect_step(s.last(), tz).1);
        assert(seq![e2] + trest.push(effect_step(s.last(), tz).0) =~= (seq![e2] + trest).push(
            effect_step(s.last(), tz).0,
        ));
    }
}

/// An ordered, growable chain of effects.
pub struct EffectsChain {
    effects: Vec<Effect>,
}

impl View for EffectsChain {
    type V = Seq<EffectModel>;

    closed spec fn view(&self) -> Seq<EffectModel> {
        self.effects@.map_values(|e: Effect| e@)
    }
}

/// What `set_effect_parameter` does: delegate to the indexed effect, or
/// change nothing and answer `false` when the index is out of range.
pub open spec fn chain_param(s: Seq<EffectModel>, index: int, name: Seq<char>, value: int) -> (
    Seq<EffectModel>,
    bool,
) {
    if 0 <= index < s.len() {
        let (e2, ok) = effect_set_param(s[index], name, value);
        (s.update(index, e2), ok)
    } else {
        (s, false)
    }
}

impl EffectsChain {
    /// An empty chain.
    pub fn new() -> (r: EffectsChain)
        ensures
            r@ == Seq::<EffectModel>::empty(),
    {
        let r = EffectsChain { effects: Vec::new() };
        proof {
            assert(r@ =~= Seq::<EffectModel>::empty());
        }
        r
    }

    /// Append an effect; it processes after every effect already present.
    pub fn add_effect(&mut self, effect: Effect)
        ensures
            final(self)@ == old(self)@.push(effect@),
    {
        self.effects.push(effect);
        proof {
            assert(self@ =~= old(self)@.push(effect@));
        }
    }

    /// Remove the effect at `index`, shifting later effects down, and return
    /// `true`; an out-of-range index changes nothing and returns `false`.
    pub fn remove_effect(&mut self, index: usize) -> (removed: bool)
        ensures
            index < old(self)@.len() ==> removed && final(self)@ == old(self)@.remove(index as int),
            index >= old(self)@.len() ==> !removed && final(self)@ == old(self)@,
    {
        if index < self.effects.len() {
            self.effects.remove(index);
            proof {
                assert(self@ =~= old(self)@.remove(index as int));
            }
            true
        } else {
            false
        }
    }

    /// Fold one sample through every effect in insertion order, exactly
    /// [`chain_run`] on the model.
    pub fn process(&mut self, input: i64) -> (out: i64)
        requires
            chain_inv(old(self)@),
        ensures
            chain_inv(final(self)@),
            (final(self)@, out as int) == chain_run(old(self)@, input as int),
    {
        let ghost orig = self@;
        let mut output: i64 = input;
        let n = self.effects.len();
        let mut i: usize = 0;
        proof {
            assert(orig.subrange(0, 0) =~= Seq::<EffectModel>::empty());
        }
        while i < n
            invariant
                i <= n,
                n == self.effects@.len(),
                orig.len() == n,
                chain_inv(orig),
                self@ =~= chain_run(orig.subrange(0, i as int), input as int).0 + orig.subrange(
                    i as int,
                    n as int,
                ),
                chain_run(orig.subrange(0, i as int), input as int).0.len() == i,
                output == chain_run(orig.subrange(0, i as int), input as int).1,
                chain_inv(self@),
            decreases n - i,
        {
            let ghost pre = orig.subrange(0, i as int);
            let ghost run_i = chain_run(pre, input as int);
            let ghost eff_top = self.effects@;
            let ghost view_top = self@;
            proof {
                assert(view_top[i as int] == orig[i as int]);
                assert(effect_inv(view_top[i as int]));
                assert(view_top[i as int] == (eff_top[i as int])@);
            }
            let e = &mut self.effects[i];
            output = e.process(output);
            proof {
                assert(self.effects@ == eff_top.update(i as int, self.effects@[i as int]));
                assert((self.effects@[i as int])@ == effect_step(orig[i as int], run_i.1).0);
            }
            i = i + 1;
            proof {
                let pre2 = orig.subrange(0, i as int);
                assert(pre2.drop_last() =~= pre);
                assert(pre2.last() == orig[i - 1]);
                assert(chain_run(pre2, input as int) == (run_i.0.push(
                    effect_step(orig[i - 1], run_i.1).0,
                ), effect_step(orig[i - 1], run_i.1).1));
                let want = chain_run(pre2, input as int).0 + orig.subrange(i as int, n as int);
                assert forall|j: int| 0 <= j < n implies self@[j] == want[j] by {
                    assert(self@[j] == (self.effects@[j])@);
                    if j != i - 1 {
                        assert(self.effects@[j] == eff_top[j]);
                        assert(view_top[j] == (eff_top[j])@);
                        assert(view_top[j] == (run_i.0 + orig.subrange(i - 1, n as int))[j]);
                    }
                }
                assert(self@ =~= want);
                assert forall|j: int| 0 <= j < n implies effect_inv(#[trigger] self@[j]) by {
                    assert(self@[j] == (self.effects@[j])@);
                    if j != i - 1 {
                        assert(self.effects@[j] == eff_top[j]);
                        assert(view_top[j] == (eff_top[j])@);
                        assert(effect_inv(view_top[j]));
                    }
                }
            }
        }
        proof {
            assert(orig.subrange(0, n as int) =~= orig);
            assert(self@ =~= chain_run(orig, input as int).0);
        }
        output
    }

    /// Reset every member in order; the chain's shape and the effects'
    /// parameters are kept.
    pub fn reset_all(&mut self)
        requires
            chain_inv(old(self)@),
        ensures
            chain_inv(final(self)@),
            final(self)@.len() == old(self)@.len(),
            forall|i: int|
                0 <= i < old(self)@.len() ==> final(self)@[i] == effect_reset(
                    #[trigger] old(self)@[i],
                ),
    {
        let n = self.effects.len();
        let mut i: usize = 0;
        while i < n
            invariant
                i <= n,
                n == self.effects@.len(),
                old(self)@.len() == n,
                chain_inv(old(self)@),
                chain_inv(self@),
                forall|j: int|
                    0 <= j < i ==> self@[j] == effect_reset(#[trigger] old(self)@[j]),
                forall|j: int| i <= j < n ==> self@[j] == old(self)@[j],
            decreases n - i,
        {
            let ghost eff_top = self.effects@;
            let ghost view_top = self@;
            proof {
                assert(view_top[i as int] == old(self)@[i as int]);
                assert(effect_inv(view_top[i as int]));
                assert(view_top[i as int] == (eff_top[i as int])@);
            }
            let e = &mut self.effects[i];
            e.reset();
            proof {
                assert(self.effects@ == eff_top.update(i as int, self.effects@[i as int]));
                assert((self.effects@[i as int])@ == effect_reset(old(self)@[i as int]));
                assert forall|j: int| 0 <= j < n implies effect_inv(#[trigger] self@[j]) && (j < i
                    + 1 ==> self@[j] == effect_reset(old(self)@[j])) && (i + 1 <= j ==> self@[j]
                    == old(self)@[j]) by {
                    assert(self@[j] == (self.effects@[j])@);
                    if j != i {
                        assert(self.effects@[j] == eff_top[j]);
                        assert(view_top[j] == (eff_top[j])@);
                    }
                }
            }
            i = i + 1;
        }
    }

    /// Set a parameter on the effect at `effect_index`, exactly
    /// [`chain_param`] on the model: out-of-range indices change nothing and
    /// return `false`.
    pub fn set_effect_parameter(&mut self, effect_index: usize, param_name: &str, value: i64) -> (recognized:
        bool)
        requires
            chain_inv(old(self)@),
        ensures
            chain_inv(final(self)@),
            (final(self)@, recognized) == chain_param(
                old(self)@,
                effect_index as int,
                param_name@,
                value as int,
            ),
    {
        if effect_index < self.effects.len() {
            let r = self.effects[effect_index].set_parameter(param_name, value);
            proof {
                let (e2, ok) = effect_set_param(
                    old(self)@[effect_index as int],
                    param_name@,
                    value as int,
                );
                assert(self@ =~= old(self)@.update(effect_index as int, e2));
            }
            r
        } else {
            false
        }
    }

    /// How many effects the chain holds.
    pub fn count(&self) -> (n: usize)
        ensures
            n == self@.len(),
    {
        self.effects.len()
    }
}

} // verus!
