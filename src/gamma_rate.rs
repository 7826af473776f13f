use vstd::prelude::*;

use crate::rate_fn::{InfectiousnessRateFn, RateFnError};
use crate::rational::{
    frac_div, frac_eq, frac_fits, frac_le, frac_lt, frac_min, frac_mul, frac_valid, frac_zero,
    lemma_le_lt_trans, lemma_le_trans, lemma_mul_le_mono, lemma_mul_valid, Rational,
};

verus! {

/// The message of the error for a negative rate of infection.
pub open spec fn negative_rate_message() -> Seq<char> {
    "The rate of infection must be non-negative."@
}

/// The message of the error for a negative duration of infection.
pub open spec fn negative_duration_message() -> Seq<char> {
    "The duration of infection must be non-negative."@
}

/// A bounded-constant rate of infection: the rate is `r` up to and including
/// the infection duration, and zero after it. The duration of each agent is
/// what varies (drawn, for instance, from a gamma distribution), while the
/// rate within it stays constant.
pub struct GammaRate {
    // people infected per unit time
    r: Rational,
    // the time after which the rate of infection becomes zero
    infection_duration: Rational,
}

impl GammaRate {
    /// The rate of infection within the infection duration.
    pub closed spec fn rate_param(&self) -> (int, int) {
        self.r@
    }

    /// The infection duration.
    pub closed spec fn duration_param(&self) -> (int, int) {
        self.infection_duration@
    }

    /// Builds the rate function of rate `r` and duration `infection_duration`.
    ///
    /// # Errors
    /// - The rate of infection must be non-negative.
    /// - The duration of infection must be non-negative.
    pub fn new(r: Rational, infection_duration: Rational) -> (res: Result<GammaRate, RateFnError>)
        requires
            r.wf(),
            infection_duration.wf(),
        ensures
            res is Ok <==> frac_le(frac_zero(), r@) && frac_le(frac_zero(), infection_duration@),
            res matches Ok(g) ==> {
                &&& g.valid()
                &&& g.rate_param() == r@
                &&& g.duration_param() == infection_duration@
            },
            frac_lt(r@, frac_zero()) ==> (res matches Err(e) && e.text()
                == negative_rate_message()),
            frac_le(frac_zero(), r@) && frac_lt(infection_duration@, frac_zero()) ==> (res matches Err(
                e,
            ) && e.text() == negative_duration_message()),
    {
        if r.is_negative() {
            return Err(
                RateFnError::InvalidParameter("The rate of infection must be non-negative.".to_string()),
            );
        }
        if infection_duration.is_negative() {
            return Err(
                RateFnError::InvalidParameter(
                    "The duration of infection must be non-negative.".to_string(),
                ),
            );
        }
        Ok(GammaRate { r, infection_duration })
    }

    /// With a positive rate, inverting the cumulative rate gives back the
    /// time: for `0 <= t <= infection_duration`,
    /// `inverse_cum_rate(cum_rate(t))` is `Some` of a number equal to `t`.
    pub proof fn lemma_inverse_of_cum_rate(&self, t: (int, int))
        requires
            self.valid(),
            frac_lt(frac_zero(), self.rate_param()),
            frac_valid(t),
            frac_le(frac_zero(), t),
            frac_le(t, self.duration_param()),
        ensures
            self.inverse_cum_rate_at(self.cum_rate_at(t)) matches Some(u) && frac_eq(u, t),
    {
        let r = self.rate_param();
        let d = self.duration_param();
        let e = self.cum_rate_at(t);
        let (r0, r1, t0, t1) = (r.0, r.1, t.0, t.1);
        assert(e == (r0 * t0, r1 * t1));
        if t0 == 0 {
            assert(r0 * t0 == 0) by (nonlinear_arith)
                requires
                    t0 == 0,
            ;
        } else {
            assert(r0 * t0 != 0) by (nonlinear_arith)
                requires
                    r0 > 0,
                    t0 > 0,
            ;
            let u = frac_div(e, r);
            let (u0, u1) = (u.0, u.1);
            assert(u1 > 0 && u0 * t1 == t0 * u1) by (nonlinear_arith)
                requires
                    u0 == (r0 * t0) * r1,
                    u1 == (r1 * t1) * r0,
                    r0 > 0,
                    r1 > 0,
                    t1 > 0,
            ;
            lemma_le_trans(u, t, d);
        }
    }
}

impl InfectiousnessRateFn for GammaRate {
    open spec fn valid(&self) -> bool {
        &&& frac_valid(self.rate_param())
        &&& frac_valid(self.duration_param())
        &&& frac_le(frac_zero(), self.rate_param())
        &&& frac_le(frac_zero(), self.duration_param())
    }

    open spec fn duration(&self) -> (int, int) {
        self.duration_param()
    }

    open spec fn rate_at(&self, t: (int, int)) -> (int, int) {
        if frac_lt(self.duration_param(), t) {
            frac_zero()
        } else {
            self.rate_param()
        }
    }

    open spec fn cum_rate_at(&self, t: (int, int)) -> (int, int) {
        frac_mul(self.rate_param(), frac_min(t, self.duration_param()))
    }

    /// Zero events are reached at time zero; otherwise `events / r`, when
    /// that is within the duration.
    open spec fn inverse_cum_rate_at(&self, events: (int, int)) -> Option<(int, int)> {
        if events.0 == 0 {
            Some(frac_zero())
        } else if self.rate_param().0 == 0 {
            None
        } else if frac_lt(self.duration_param(), frac_div(events, self.rate_param())) {
            None
        } else {
            Some(frac_div(events, self.rate_param()))
        }
    }

    open spec fn cum_rate_fits(&self, t: (int, int)) -> bool {
        frac_fits(self.cum_rate_at(t))
    }

    open spec fn inverse_cum_rate_fits(&self, events: (int, int)) -> bool {
        self.rate_param().0 > 0 ==> frac_fits(frac_div(events, self.rate_param()))
    }

    fn rate(&self, t: Rational) -> (r: Rational) {
        if self.infection_duration.lt(&t) {
            Rational::zero()
        } else {
            self.r
        }
    }

    fn cum_rate(&self, t: Rational) -> (c: Rational) {
        let m = t.min(&self.infection_duration);
        proof {
            lemma_mul_valid(self.r@, m@);
        }
        self.r.times(&m)
    }

    fn inverse_cum_rate(&self, events: Rational) -> (r: Option<Rational>) {
        proof {
            self.lemma_inverse_cum_rate(events@);
        }
        if events.is_zero() {
            return Some(Rational::zero());
        }
        if self.r.is_zero() {
            return None;
        }
        let t = events.divided_by(&self.r);
        if self.infection_duration.lt(&t) {
            None
        } else {
            Some(t)
        }
    }

    fn infection_duration(&self) -> (d: Rational) {
        self.infection_duration
    }

    proof fn lemma_rate_zero_after_duration(&self, t: (int, int)) {
    }

    proof fn lemma_cum_rate_at_zero(&self) {
        lemma_mul_valid(self.rate_param(), frac_zero());
    }

    proof fn lemma_cum_rate_monotone(&self, t1: (int, int), t2: (int, int)) {
        let d = self.duration_param();
        let m1 = frac_min(t1, d);
        let m2 = frac_min(t2, d);
        if frac_le(t2, d) {
            lemma_le_trans(t1, t2, d);
        }
        assert(frac_le(m1, m2));
        lemma_mul_le_mono(self.rate_param(), m1, m2);
    }

    proof fn lemma_cum_rate_constant_after_duration(&self, t: (int, int)) {
        let d = self.duration_param();
        if frac_le(t, d) {
            lemma_mul_le_mono(self.rate_param(), t, d);
            lemma_mul_le_mono(self.rate_param(), d, t);
        }
    }

    proof fn lemma_inverse_cum_rate(&self, events: (int, int)) {
        let r = self.rate_param();
        let d = self.duration_param();
        let total = self.cum_rate_at(d);
        let (r0, r1, d0, d1, e0, e1) = (r.0, r.1, d.0, d.1, events.0, events.1);
        assert(total == (r0 * d0, r1 * d1));
        assert(r0 * d0 >= 0 && r1 * d1 > 0) by (nonlinear_arith)
            requires
                r0 >= 0,
                d0 >= 0,
                r1 > 0,
                d1 > 0,
        ;
        if e0 == 0 {
            assert(frac_le(events, total)) by (nonlinear_arith)
                requires
                    e0 == 0,
                    e1 > 0,
                    r0 * d0 >= 0,
                    events == (e0, e1),
                    total == (r0 * d0, r1 * d1),
            ;
            lemma_mul_valid(r, frac_zero());
        } else if r0 == 0 {
            assert(!frac_le(events, total)) by (nonlinear_arith)
                requires
                    e0 > 0,
                    r0 == 0,
                    r1 * d1 > 0,
                    events == (e0, e1),
                    total == (r0 * d0, r1 * d1),
            ;
        } else {
            let t = frac_div(events, r);
            assert(frac_lt(d, t) <==> frac_lt(total, events)) by (nonlinear_arith)
                requires
                    t == (e0 * r1, e1 * r0),
                    total == (r0 * d0, r1 * d1),
                    events == (e0, e1),
                    d == (d0, d1),
            ;
            if !frac_lt(d, t) {
                assert(frac_valid(t) && frac_le(frac_zero(), t)) by (nonlinear_arith)
                    requires
                        t == (e0 * r1, e1 * r0),
                        e0 > 0,
                        e1 > 0,
                        r0 > 0,
                        r1 > 0,
                ;
                assert(frac_min(t, d) == t);
                assert(frac_eq(self.cum_rate_at(t), events)) by (nonlinear_arith)
                    requires
                        self.cum_rate_at(t) == (r0 * (e0 * r1), r1 * (e1 * r0)),
                        events == (e0, e1),
                ;
                assert forall|s: (int, int)|
                    frac_valid(s) && frac_le(frac_zero(), s) && frac_lt(s, t) implies frac_lt(
                        #[trigger] self.cum_rate_at(s),
                        events,
                    ) by {
                    let m = frac_min(s, d);
                    assert(frac_le(m, s));
                    lemma_le_lt_trans(m, s, t);
                    let (m0, m1) = (m.0, m.1);
                    assert((r0 * m0) * e1 < e0 * (r1 * m1)) by (nonlinear_arith)
                        requires
                            m0 * (e1 * r0) < (e0 * r1) * m1,
                    ;
                }
            }
        }
    }

    proof fn lemma_inverse_none_beyond_total(&self, events: (int, int)) {
        let r = self.rate_param();
        let d = self.duration_param();
        let total = self.cum_rate_at(d);
        let (r0, r1, d0, d1, e0, e1) = (r.0, r.1, d.0, d.1, events.0, events.1);
        assert(total == (r0 * d0, r1 * d1));
        assert(e0 > 0) by (nonlinear_arith)
            requires
                r0 >= 0,
                d0 >= 0,
                r1 > 0,
                d1 > 0,
                e1 > 0,
                (r0 * d0) * e1 < e0 * (r1 * d1),
        ;
        lemma_mul_valid(r, d);
        if r0 != 0 {
            self.lemma_inverse_cum_rate(events);
        }
    }
}

} // verus!
