//! The automation timeline of an audio parameter: a default value plus a
//! time-ordered list of scheduling events, evaluated to a deterministic value
//! at any frame.
//!
//! Values are `i64` fixed-point; times are absolute frame indices.  Stepwise
//! sets take effect at and after their time; linear ramps interpolate from
//! the previous event's point (or the default at frame zero) to their own.
//! Inserting an event at or before an already scheduled time cancels the
//! scheduled tail from that time on — one deterministic truncation rule,
//! applied uniformly — so the event list is always strictly increasing in
//! time.

use crate::math::div_trunc;
use vstd::prelude::*;

verus! {

/// Largest frame index a scheduled event or a query may use.
pub const MAX_PARAM_TIME: u64 = 0x1_0000_0000_0000;

/// One scheduled automation event.
#[derive(Debug, Copy, Clone, PartialEq, Eq, Structural)]
pub enum AutomationEvent {
    /// The value becomes exactly `value` at and after `time`.
    SetValue {
        /// Target value.
        value: i64,
        /// Absolute frame the value takes effect.
        time: u64,
    },
    /// The value interpolates linearly from the previous event's point to
    /// `value` at `time`.
    LinearRamp {
        /// Target value reached at `time`.
        value: i64,
        /// Absolute frame the target is reached.
        time: u64,
    },
}

/// The scheduled time of an event.
pub open spec fn event_time(e: AutomationEvent) -> u64 {
    match e {
        AutomationEvent::SetValue { time, .. } => time,
        AutomationEvent::LinearRamp { time, .. } => time,
    }
}

/// The target value of an event.
pub open spec fn event_value(e: AutomationEvent) -> i64 {
    match e {
        AutomationEvent::SetValue { value, .. } => value,
        AutomationEvent::LinearRamp { value, .. } => value,
    }
}

/// Event times are strictly increasing and within range.
pub open spec fn events_wf(events: Seq<AutomationEvent>) -> bool {
    &&& forall|i: int, j: int|
        0 <= i < j < events.len() ==> event_time(#[trigger] events[i]) < event_time(
            #[trigger] events[j],
        )
    &&& forall|i: int|
        0 <= i < events.len() ==> event_time(#[trigger] events[i]) <= MAX_PARAM_TIME
}

/// The events scheduled strictly before frame `t`.
pub open spec fn keeps_before(t: u64) -> spec_fn(AutomationEvent) -> bool {
    |e: AutomationEvent| event_time(e) < t
}

/// Linear interpolation between `(t0, v0)` and `(t1, v1)` at `t`, the
/// quotient truncated toward zero.
pub open spec fn interp(t0: int, v0: int, t1: int, v1: int, t: int) -> int
    recommends
        t0 < t1,
{
    v0 + div_trunc((v1 - v0) * (t - t0), t1 - t0)
}

/// The value of the timeline at `t`, walking the events from the point
/// `(prev_t, prev_v)`.
pub open spec fn eval_events(
    prev_t: int,
    prev_v: i64,
    events: Seq<AutomationEvent>,
    t: int,
) -> int
    decreases events.len(),
{
    if events.len() == 0 {
        prev_v as int
    } else {
        let e = events[0];
        let te = event_time(e) as int;
        let ve = event_value(e);
        match e {
            AutomationEvent::SetValue { .. } => {
                if t < te {
                    prev_v as int
                } else {
                    eval_events(te, ve, events.subrange(1, events.len() as int), t)
                }
            },
            AutomationEvent::LinearRamp { .. } => {
                if t < te {
                    interp(prev_t, prev_v as int, te, ve as int, t)
                } else {
                    eval_events(te, ve, events.subrange(1, events.len() as int), t)
                }
            },
        }
    }
}

/// The value of a timeline with default `default` at `t`.
pub open spec fn timeline_value(default: i64, events: Seq<AutomationEvent>, t: int) -> int {
    eval_events(0, default, events, t)
}

/// How often a parameter is resolved: once per frame, or once per quantum.
/// This is a declared property of the parameter, not a runtime choice.
#[derive(Debug, Copy, Clone, PartialEq, Eq, Structural)]
pub enum AutomationRate {
    /// Resolved at every sample frame.
    ARate,
    /// Resolved once, at the quantum's first frame.
    KRate,
}

/// An audio parameter's automation timeline.
pub struct AudioParamTimeline {
    default_value: i64,
    automation_rate: AutomationRate,
    events: Vec<AutomationEvent>,
}

impl AudioParamTimeline {
    /// The default (initial) value.
    pub closed spec fn default_spec(&self) -> i64 {
        self.default_value
    }

    /// The scheduled events, in time order.
    pub closed spec fn events_spec(&self) -> Seq<AutomationEvent> {
        self.events@
    }

    /// Internal well-formedness.
    pub open spec fn wf(&self) -> bool {
        events_wf(self.events_spec())
    }

    /// The declared resolution rate.
    pub closed spec fn rate_spec(&self) -> AutomationRate {
        self.automation_rate
    }

    /// A timeline holding `default` with nothing scheduled, resolved at
    /// `rate`.
    pub fn new_with_rate(default: i64, rate: AutomationRate) -> (r: AudioParamTimeline)
        ensures
            r.wf(),
            r.default_spec() == default,
            r.rate_spec() == rate,
            r.events_spec() == Seq::<AutomationEvent>::empty(),
    {
        AudioParamTimeline { default_value: default, automation_rate: rate, events: Vec::new() }
    }

    /// A timeline holding `default` with nothing scheduled, resolved at every
    /// frame.
    pub fn new(default: i64) -> (r: AudioParamTimeline)
        ensures
            r.wf(),
            r.default_spec() == default,
            r.rate_spec() == AutomationRate::ARate,
            r.events_spec() == Seq::<AutomationEvent>::empty(),
    {
        Self::new_with_rate(default, AutomationRate::ARate)
    }

    /// The values this parameter takes over one quantum of `frames` frames
    /// starting at `t0`: one value per frame for an a-rate parameter, and the
    /// value at the quantum's first frame held for the whole quantum for a
    /// k-rate one.
    pub fn values_for_quantum(&self, t0: u64, frames: usize) -> (vs: Vec<i64>)
        requires
            self.wf(),
            t0 + frames <= MAX_PARAM_TIME + 1,
        ensures
            vs@.len() == frames,
            self.rate_spec() is ARate ==> forall|k: int|
                0 <= k < frames ==> vs@[k] as int == timeline_value(
                    self.default_spec(),
                    self.events_spec(),
                    t0 + k,
                ),
            self.rate_spec() is KRate ==> forall|k: int|
                0 <= k < frames ==> vs@[k] as int == timeline_value(
                    self.default_spec(),
                    self.events_spec(),
                    t0 as int,
                ),
    {
        let mut vs: Vec<i64> = Vec::new();
        if frames == 0 {
            return vs;
        }
        if matches!(self.automation_rate, AutomationRate::KRate) {
            let v = self.value_at(t0);
            let mut k: usize = 0;
            while k < frames
                invariant
                    self.wf(),
                    t0 <= MAX_PARAM_TIME,
                    frames > 0,
                    v as int == timeline_value(self.default_spec(), self.events_spec(), t0 as int),
                    0 <= k <= frames,
                    vs@.len() == k,
                    forall|j: int| 0 <= j < k ==> vs@[j] == v,
                decreases frames - k,
            {
                vs.push(v);
                k += 1;
            }
        } else {
            let mut k: usize = 0;
            while k < frames
                invariant
                    self.wf(),
                    t0 + frames <= MAX_PARAM_TIME + 1,
                    0 <= k <= frames,
                    vs@.len() == k,
                    forall|j: int|
                        0 <= j < k ==> vs@[j] as int == timeline_value(
                            self.default_spec(),
                            self.events_spec(),
                            t0 + j,
                        ),
                decreases frames - k,
            {
                let v = self.value_at(t0 + k as u64);
                vs.push(v);
                k += 1;
            }
        }
        vs
    }

    /// Set the value the timeline holds where no automation applies.
    pub fn set_value(&mut self, value: i64)
        requires
            old(self).wf(),
        ensures
            final(self).wf(),
            final(self).default_spec() == value,
            final(self).events_spec() == old(self).events_spec(),
    {
        self.default_value = value;
    }

    /// Drop every event scheduled at or after `t`.
    pub fn cancel_scheduled_values(&mut self, t: u64)
        requires
            old(self).wf(),
        ensures
            final(self).wf(),
            final(self).default_spec() == old(self).default_spec(),
            final(self).events_spec() == old(self).events_spec().filter(keeps_before(t)),
            forall|k: int|
                0 <= k < final(self).events_spec().len() ==> event_time(
                    #[trigger] final(self).events_spec()[k],
                ) < t,
    {
        let mut kept: Vec<AutomationEvent> = Vec::new();
        let mut i: usize = 0;
        while i < self.events.len()
            invariant
                old(self).wf(),
                self.events@ == old(self).events@,
                0 <= i <= self.events@.len(),
                kept@ == self.events@.take(i as int).filter(keeps_before(t)),
                events_wf(kept@),
                forall|k: int|
                    0 <= k < kept@.len() ==> event_time(#[trigger] kept@[k]) < t,
                forall|k: int, j: int|
                    0 <= k < kept@.len() && i <= j < self.events@.len() ==> event_time(
                        #[trigger] kept@[k],
                    ) < event_time(#[trigger] self.events@[j]),
            decreases self.events@.len() - i,
        {
            let e = self.events[i];
            proof {
                assert(self.events@.take(i + 1).drop_last() == self.events@.take(i as int));
                assert(self.events@.take(i + 1).last() == e);
                reveal(Seq::filter);
            }
            let keep = match e {
                AutomationEvent::SetValue { time, .. } => time < t,
                AutomationEvent::LinearRamp { time, .. } => time < t,
            };
            if keep {
                kept.push(e);
            }
            i += 1;
        }
        proof {
            assert(self.events@.take(self.events@.len() as int) == self.events@);
        }
        self.events = kept;
    }

    /// Schedule the value to become exactly `value` at and after frame `t`,
    /// cancelling everything scheduled at or after `t`.
    pub fn set_value_at_time(&mut self, value: i64, t: u64)
        requires
            old(self).wf(),
            t <= MAX_PARAM_TIME,
        ensures
            final(self).wf(),
            final(self).default_spec() == old(self).default_spec(),
            final(self).events_spec() == old(self).events_spec().filter(keeps_before(t)).push(
                AutomationEvent::SetValue { value, time: t },
            ),
    {
        self.cancel_scheduled_values(t);
        self.push_event(AutomationEvent::SetValue { value, time: t });
    }

    /// Schedule a linear ramp reaching `value` at frame `t`, cancelling
    /// everything scheduled at or after `t`.
    pub fn linear_ramp_to_value_at_time(&mut self, value: i64, t: u64)
        requires
            old(self).wf(),
            t <= MAX_PARAM_TIME,
        ensures
            final(self).wf(),
            final(self).default_spec() == old(self).default_spec(),
            final(self).events_spec() == old(self).events_spec().filter(keeps_before(t)).push(
                AutomationEvent::LinearRamp { value, time: t },
            ),
    {
        self.cancel_scheduled_values(t);
        self.push_event(AutomationEvent::LinearRamp { value, time: t });
    }

    /// Append an event whose time is past every scheduled one.
    fn push_event(&mut self, e: AutomationEvent)
        requires
            old(self).wf(),
            event_time(e) <= MAX_PARAM_TIME,
            forall|i: int|
                0 <= i < old(self).events_spec().len() ==> event_time(
                    #[trigger] old(self).events_spec()[i],
                ) < event_time(e),
        ensures
            final(self).wf(),
            final(self).default_spec() == old(self).default_spec(),
            final(self).events_spec() == old(self).events_spec().push(e),
    {
        self.events.push(e);
    }

    /// The timeline's value at frame `t`.
    pub fn value_at(&self, t: u64) -> (v: i64)
        requires
            self.wf(),
            t <= MAX_PARAM_TIME,
        ensures
            v as int == timeline_value(self.default_spec(), self.events_spec(), t as int),
    {
        let ghost all = self.events@;
        proof {
            assert(all.subrange(0, all.len() as int) == all);
        }
        let mut prev_t: u64 = 0;
        let mut prev_v: i64 = self.default_value;
        let mut i: usize = 0;
        while i < self.events.len()
            invariant
                self.wf(),
                t <= MAX_PARAM_TIME,
                all == self.events@,
                0 <= i <= all.len(),
                prev_t <= MAX_PARAM_TIME,
                i > 0 ==> prev_t == event_time(all[i - 1]) && prev_v == event_value(all[i - 1])
                    && prev_t <= t,
                i == 0 ==> prev_t == 0 && prev_v == self.default_value,
                timeline_value(self.default_spec(), all, t as int) == eval_events(
                    prev_t as int,
                    prev_v,
                    all.subrange(i as int, all.len() as int),
                    t as int,
                ),
            decreases all.len() - i,
        {
            let e = self.events[i];
            let te: u64;
            let ve: i64;
            let is_ramp: bool;
            match e {
                AutomationEvent::SetValue { value, time } => {
                    te = time;
                    ve = value;
                    is_ramp = false;
                },
                AutomationEvent::LinearRamp { value, time } => {
                    te = time;
                    ve = value;
                    is_ramp = true;
                },
            }
            proof {
                assert(all.subrange(i as int, all.len() as int)[0] == all[i as int]);
                assert(all.subrange(i as int, all.len() as int).subrange(
                    1,
                    all.subrange(i as int, all.len() as int).len() as int,
                ) == all.subrange(i + 1, all.len() as int));
            }
            if t < te {
                if is_ramp {
                    let v = interp_exec(prev_t, prev_v, te, ve, t);
                    return v;
                } else {
                    return prev_v;
                }
            }
            prev_t = te;
            prev_v = ve;
            i += 1;
        }
        proof {
            assert(all.subrange(all.len() as int, all.len() as int)
                == Seq::<AutomationEvent>::empty());
        }
        prev_v
    }
}

/// Linear interpolation between `(t0, v0)` and `(t1, v1)` at `t`, exactly as
/// [`interp`] states it.
fn interp_exec(t0: u64, v0: i64, t1: u64, v1: i64, t: u64) -> (v: i64)
    requires
        t0 <= t < t1,
        t1 <= MAX_PARAM_TIME,
    ensures
        v as int == interp(t0 as int, v0 as int, t1 as int, v1 as int, t as int),
{
    let dv: i128 = v1 as i128 - v0 as i128;
    let adv: u128 = if dv >= 0 {
        dv as u128
    } else {
        (-dv) as u128
    };
    proof {
        assert(adv * ((t - t0) as int) <= 0x2_0000_0000_0000_0000 * 0x1_0000_0000_0000)
            by (nonlinear_arith)
            requires
                0 <= adv as int <= 0x2_0000_0000_0000_0000,
                0 <= (t - t0) as int <= 0x1_0000_0000_0000,
        ;
    }
    let num: u128 = adv * ((t - t0) as u128);
    let den: u128 = (t1 - t0) as u128;
    let q: u128 = num / den;
    let signed: i128 = if dv >= 0 {
        q as i128
    } else {
        -(q as i128)
    };
    let result: i128 = v0 as i128 + signed;
    proof {
        vstd::arithmetic::div_mod::lemma_div_nonincreasing(num as int, den as int);
        let realnum = (v1 as int - v0 as int) * (t as int - t0 as int);
        let dt = t as int - t0 as int;
        assert(dv as int * dt == realnum);
        if dv >= 0 {
            assert(realnum >= 0 && num as int == realnum) by (nonlinear_arith)
                requires
                    dv >= 0,
                    dt >= 0,
                    realnum == dv as int * dt,
                    num as int == adv as int * dt,
                    adv == dv,
            ;
            assert(crate::math::abs_int(realnum) == num);
            assert(crate::math::abs_int(t1 as int - t0 as int) == den);
            assert(signed == div_trunc(realnum, t1 as int - t0 as int));
        } else {
            assert(realnum <= 0 && num as int == -realnum) by (nonlinear_arith)
                requires
                    dv < 0,
                    dt >= 0,
                    realnum == dv as int * dt,
                    num as int == adv as int * dt,
                    adv as int == -(dv as int),
            ;
            if realnum == 0 {
                assert(signed == div_trunc(realnum, t1 as int - t0 as int));
            } else {
                assert(signed == div_trunc(realnum, t1 as int - t0 as int));
            }
        }
        lemma_interp_between(v0 as int, v1 as int, t0 as int, t1 as int, t as int);
    }
    result as i64
}

/// For a query before the first event of a timeline whose first event is a
/// stepwise set, the timeline yields the default value.  (A timeline whose
/// first event is a ramp interpolates from the default toward it instead.)
pub proof fn lemma_value_before_first_event(default: i64, events: Seq<AutomationEvent>, t: int)
    requires
        events_wf(events),
        events.len() == 0 || (t < event_time(events[0]) && events[0] is SetValue),
    ensures
        timeline_value(default, events, t) == default,
{
}

proof fn lemma_eval_reaches_set_value(
    prev_t: int,
    prev_v: i64,
    events: Seq<AutomationEvent>,
    t: int,
    i: int,
)
    requires
        forall|a: int, b: int|
            0 <= a < b < events.len() ==> event_time(#[trigger] events[a]) < event_time(
                #[trigger] events[b],
            ),
        0 <= i < events.len(),
        events[i] is SetValue,
        event_time(events[i]) <= t,
        i + 1 < events.len() ==> t < event_time(events[i + 1]) && events[i + 1] is SetValue,
    ensures
        eval_events(prev_t, prev_v, events, t) == event_value(events[i]),
    decreases i,
{
    let e = events[0];
    let tail = events.subrange(1, events.len() as int);
    assert(forall|a: int, b: int|
        0 <= a < b < tail.len() ==> event_time(#[trigger] tail[a]) < event_time(
            #[trigger] tail[b],
        ));
    if i == 0 {
        assert(eval_events(prev_t, prev_v, events, t) == eval_events(
            event_time(e) as int,
            event_value(e),
            tail,
            t,
        ));
        if events.len() == 1 {
            assert(tail.len() == 0);
            assert(eval_events(event_time(e) as int, event_value(e), tail, t) == event_value(
                e,
            ) as int);
        } else {
            assert(tail[0] == events[1]);
            assert(tail[0] is SetValue && t < event_time(tail[0]));
            assert(eval_events(event_time(e) as int, event_value(e), tail, t) == event_value(
                e,
            ) as int);
        }
    } else {
        assert(event_time(events[0]) < event_time(events[i]));
        assert(tail[i - 1] == events[i]);
        if i + 1 < events.len() {
            assert(tail[i] == events[i + 1]);
        }
        lemma_eval_reaches_set_value(event_time(e) as int, event_value(e), tail, t, i - 1);
    }
}

/// At and after the time of a stepwise set event, and before any later event
/// takes effect, the timeline yields exactly that event's target value.  (A
/// later ramp already interpolates before its own time, so the guarantee is
/// stated up to the next stepwise event.)
pub proof fn lemma_set_value_exact(
    default: i64,
    events: Seq<AutomationEvent>,
    t: int,
    i: int,
)
    requires
        events_wf(events),
        0 <= i < events.len(),
        events[i] is SetValue,
        event_time(events[i]) <= t,
        i + 1 < events.len() ==> t < event_time(events[i + 1]) && events[i + 1] is SetValue,
    ensures
        timeline_value(default, events, t) == event_value(events[i]),
{
    lemma_eval_reaches_set_value(0, default, events, t, i);
}

/// The interpolated value lies between the two endpoint values.
proof fn lemma_interp_between(v0: int, v1: int, t0: int, t1: int, t: int)
    requires
        t0 <= t < t1,
    ensures
        v0 <= v1 ==> v0 <= interp(t0, v0, t1, v1, t) <= v1,
        v1 < v0 ==> v1 <= interp(t0, v0, t1, v1, t) <= v0,
{
    let dv = v1 - v0;
    let dt = t - t0;
    let num = dv * dt;
    let den = t1 - t0;
    if dv >= 0 {
        assert(0 <= num <= dv * den) by (nonlinear_arith)
            requires
                0 <= dt < den,
                dv >= 0,
                num == dv * dt,
        ;
        assert(div_trunc(num, den) == num / den);
        vstd::arithmetic::div_mod::lemma_div_is_ordered(num, dv * den, den);
        vstd::arithmetic::div_mod::lemma_div_by_multiple(dv, den);
        vstd::arithmetic::div_mod::lemma_div_pos_is_pos(num, den);
    } else {
        assert(0 <= -num && -num <= (-dv) * den) by (nonlinear_arith)
            requires
                0 <= dt < den,
                dv < 0,
                num == dv * dt,
        ;
        assert(div_trunc(num, den) == if num == 0 {
            0int
        } else {
            -((-num) / den)
        });
        vstd::arithmetic::div_mod::lemma_div_is_ordered(-num, (-dv) * den, den);
        vstd::arithmetic::div_mod::lemma_div_by_multiple(-dv, den);
        vstd::arithmetic::div_mod::lemma_div_pos_is_pos(-num, den);
    }
}

} // verus!
