use vstd::prelude::*;

use crate::rational::{frac_eq, frac_le, frac_lt, frac_valid, frac_zero, Rational};

verus! {

/// The error of a rate function's construction: an invalid parameter, with
/// a message that says which parameter and why.
#[derive(Clone, Debug, PartialEq, Eq)]
pub enum RateFnError {
    InvalidParameter(String),
}

impl RateFnError {
    /// The text that the error carries.
    pub open spec fn text(&self) -> Seq<char> {
        match self {
            RateFnError::InvalidParameter(m) => m@,
        }
    }

    /// The human-readable message of the error.
    pub fn message(&self) -> (m: String)
        ensures
            m@ == self.text(),
    {
        match self {
            RateFnError::InvalidParameter(m) => m.clone(),
        }
    }
}

/// How infectious an agent is as a function of the time since infection.
///
/// Times, rates and cumulative rates are exact rationals; the spec functions
/// describe them as fractions `(numerator, denominator)`. Every variant keeps
/// the laws stated by the proof functions below: the rate is zero beyond the
/// infection duration, the cumulative rate starts at zero and never
/// decreases, and `inverse_cum_rate` is the generalized inverse of
/// `cum_rate`.
pub trait InfectiousnessRateFn: Sized {
    /// The instance is well formed.
    spec fn valid(&self) -> bool;

    /// The infection duration, after which the rate is zero.
    spec fn duration(&self) -> (int, int);

    /// The instantaneous rate at time `t`.
    spec fn rate_at(&self, t: (int, int)) -> (int, int);

    /// The rate integrated from `0` to `min(t, duration)`.
    spec fn cum_rate_at(&self, t: (int, int)) -> (int, int);

    /// The time at which the cumulative rate reaches `events`, if any.
    spec fn inverse_cum_rate_at(&self, events: (int, int)) -> Option<(int, int)>;

    /// `cum_rate(t)` can be held in a `Rational`.
    spec fn cum_rate_fits(&self, t: (int, int)) -> bool;

    /// `inverse_cum_rate(events)` can be held in a `Rational`.
    spec fn inverse_cum_rate_fits(&self, events: (int, int)) -> bool;

    /// `t` is a time within the infection duration at which the cumulative
    /// rate equals `events`, and before which it stays below `events`.
    open spec fn is_first_time_reaching(&self, t: (int, int), events: (int, int)) -> bool {
        &&& frac_valid(t)
        &&& frac_le(frac_zero(), t)
        &&& frac_le(t, self.duration())
        &&& frac_eq(self.cum_rate_at(t), events)
        &&& forall|s: (int, int)|
            frac_valid(s) && frac_le(frac_zero(), s) && frac_lt(s, t) ==> frac_lt(
                #[trigger] self.cum_rate_at(s),
                events,
            )
    }

    /// The instantaneous rate at time `t >= 0`.
    fn rate(&self, t: Rational) -> (r: Rational)
        requires
            self.valid(),
            t.wf(),
            frac_le(frac_zero(), t@),
        ensures
            r@ == self.rate_at(t@),
            r.wf(),
    ;

    /// The cumulative rate from `0` to `min(t, infection_duration)`, `t >= 0`.
    fn cum_rate(&self, t: Rational) -> (c: Rational)
        requires
            self.valid(),
            t.wf(),
            frac_le(frac_zero(), t@),
            self.cum_rate_fits(t@),
        ensures
            c@ == self.cum_rate_at(t@),
            c.wf(),
    ;

    /// The time `t <= infection_duration` with `cum_rate(t) == events`, or
    /// `None` where the whole duration accrues less than `events >= 0`.
    fn inverse_cum_rate(&self, events: Rational) -> (r: Option<Rational>)
        requires
            self.valid(),
            events.wf(),
            frac_le(frac_zero(), events@),
            self.inverse_cum_rate_fits(events@),
        ensures
            r is Some <==> self.inverse_cum_rate_at(events@) is Some,
            r matches Some(t) ==> self.inverse_cum_rate_at(events@) == Some(t@),
            r is Some <==> frac_le(events@, self.cum_rate_at(self.duration())),
            r matches Some(t) ==> self.is_first_time_reaching(t@, events@),
    ;

    /// The infection duration.
    fn infection_duration(&self) -> (d: Rational)
        requires
            self.valid(),
        ensures
            d@ == self.duration(),
            d.wf(),
    ;

    /// The rate is zero at every time after the infection duration.
    proof fn lemma_rate_zero_after_duration(&self, t: (int, int))
        requires
            self.valid(),
            frac_valid(t),
            frac_lt(self.duration(), t),
        ensures
            frac_eq(self.rate_at(t), frac_zero()),
    ;

    /// The cumulative rate at time zero is zero.
    proof fn lemma_cum_rate_at_zero(&self)
        requires
            self.valid(),
        ensures
            frac_valid(self.cum_rate_at(frac_zero())),
            frac_eq(self.cum_rate_at(frac_zero()), frac_zero()),
    ;

    /// The cumulative rate never decreases: `t1 <= t2` implies
    /// `cum_rate(t1) <= cum_rate(t2)`.
    proof fn lemma_cum_rate_monotone(&self, t1: (int, int), t2: (int, int))
        requires
            self.valid(),
            frac_valid(t1),
            frac_valid(t2),
            frac_le(t1, t2),
        ensures
            frac_valid(self.cum_rate_at(t1)),
            frac_valid(self.cum_rate_at(t2)),
            frac_le(self.cum_rate_at(t1), self.cum_rate_at(t2)),
    ;

    /// The cumulative rate stays constant after the infection duration.
    proof fn lemma_cum_rate_constant_after_duration(&self, t: (int, int))
        requires
            self.valid(),
            frac_valid(t),
            frac_le(self.duration(), t),
        ensures
            frac_eq(self.cum_rate_at(t), self.cum_rate_at(self.duration())),
    ;

    /// `inverse_cum_rate(events)` is the generalized inverse of the
    /// cumulative rate: for `events >= 0` it gives the first time within the
    /// infection duration at which the cumulative rate equals `events`,
    /// exactly when the whole duration accrues at least `events`.
    proof fn lemma_inverse_cum_rate(&self, events: (int, int))
        requires
            self.valid(),
            frac_valid(events),
            frac_le(frac_zero(), events),
        ensures
            self.inverse_cum_rate_at(events) is Some <==> frac_le(
                events,
                self.cum_rate_at(self.duration()),
            ),
            self.inverse_cum_rate_at(events) matches Some(t) ==> self.is_first_time_reaching(
                t,
                events,
            ),
    ;

    /// `inverse_cum_rate(events)` is `None` whenever `events` exceeds the
    /// cumulative rate over the whole infection duration.
    proof fn lemma_inverse_none_beyond_total(&self, events: (int, int))
        requires
            self.valid(),
            frac_valid(events),
            frac_lt(self.cum_rate_at(self.duration()), events),
        ensures
            self.inverse_cum_rate_at(events) is None,
    ;
}

} // verus!
