use vstd::prelude::*;

use crate::types::{copy_strings, InjectionPlace, ProbeOutcome, RequestDefaults, Response, RunnerError, Stable, Config};

verus! {

/// The absolute value of a signed batch-size setting.
pub open spec fn abs_of(v: isize) -> int {
    if v < 0 { -(v as int) } else { v as int }
}

/// `params` extended by every name of `extra` that it does not hold yet, in order.
pub open spec fn merged(params: Seq<Seq<char>>, extra: Seq<Seq<char>>) -> Seq<Seq<char>>
    decreases extra.len(),
{
    if extra.len() == 0 {
        params
    } else {
        let m = merged(params, extra.drop_last());
        if m.contains(extra.last()) { m } else { m.push(extra.last()) }
    }
}

/// A sizing probe is safe when the status code stayed and, where the body is known to be
/// stable, no unexplained difference showed up.
pub open spec fn rung_safe(stable_body: bool, o: ProbeOutcome) -> bool {
    !o.code_differs && (!stable_body || o.new_diffs@.len() == 0)
}

/// The batch size chosen by the two-rung ladder from `m`.
pub open spec fn sized_max(m: int, stable_body: bool, first: ProbeOutcome, second: Option<&ProbeOutcome>) -> int {
    if !rung_safe(stable_body, first) {
        m
    } else if second is Some && rung_safe(stable_body, *second->0) {
        m + 128
    } else {
        m + 64
    }
}

/// The sizing ladder has three outcomes only: 128 more when both probes were safe, 64
/// more when only the first was, and no change when the first was not.
pub proof fn lemma_sizing_outcomes(m: int, stable_body: bool, first: ProbeOutcome, second: Option<&ProbeOutcome>)
    ensures
        sized_max(m, stable_body, first, second) == m || sized_max(m, stable_body, first, second) == m + 64
            || sized_max(m, stable_body, first, second) == m + 128,
        (sized_max(m, stable_body, first, second) == m + 128) == (rung_safe(stable_body, first)
            && second is Some && rung_safe(stable_body, *second->0)),
        (sized_max(m, stable_body, first, second) == m + 64) == (rung_safe(stable_body, first) && !(
        second is Some && rung_safe(stable_body, *second->0))),
        (sized_max(m, stable_body, first, second) == m) == !rung_safe(stable_body, first),
{
}

/// Everything one target's discovery run learns and decides.
pub struct Runner {
    pub request_defaults: RequestDefaults,
    pub params: Vec<String>,
    /// Positive: a fixed batch size. Negative: find the batch size automatically,
    /// starting from its absolute value.
    pub default_max: isize,
    pub max: usize,
    pub stable: Stable,
    pub initial_response: Response,
    pub diffs: Vec<String>,
}

/// The absolute value of a signed batch-size setting.
pub fn magnitude(v: isize) -> (r: usize)
    ensures
        r as int == abs_of(v),
{
    if v < 0 {
        ((-(v + 1)) as usize) + 1
    } else {
        v as usize
    }
}

/// Whether `v` holds a string equal to `s`.
pub fn contains_string(v: &Vec<String>, s: &String) -> (r: bool)
    ensures
        r == v.deep_view().contains(s@),
{
    let mut j: usize = 0;
    while j < v.len()
        invariant
            j <= v.len(),
            forall|t: int| 0 <= t < j ==> v@[t]@ != s@,
        decreases v.len() - j,
    {
        if v[j] == *s {
            assert(v.deep_view()[j as int] == s@);
            return true;
        }
        j = j + 1;
    }
    proof {
        if v.deep_view().contains(s@) {
            let t = choose|t: int| 0 <= t < v.deep_view().len() && v.deep_view()[t] == s@;
            assert(v@[t]@ == s@);
        }
    }
    false
}

/// Appends to `params` each name of `extra` that it does not already hold.
pub fn merge_parameters(params: &mut Vec<String>, extra: &Vec<String>)
    ensures
        final(params).deep_view() == merged(old(params).deep_view(), extra.deep_view()),
{
    let ghost start = params.deep_view();
    let mut i: usize = 0;
    while i < extra.len()
        invariant
            i <= extra.len(),
            params.deep_view() == merged(start, extra.deep_view().take(i as int)),
        decreases extra.len() - i,
    {
        let ghost before = params.deep_view();
        let ghost ex = extra.deep_view().take(i + 1);
        assert(ex.drop_last() == extra.deep_view().take(i as int));
        assert(ex.last() == extra[i as int]@);
        if !contains_string(params, &extra[i]) {
            params.push(extra[i].clone());
            assert(params.deep_view() == before.push(extra[i as int]@));
        }
        i = i + 1;
    }
    assert(extra.deep_view().take(extra.len() as int) == extra.deep_view());
}

impl Runner {
    /// The batch size always equals the absolute value of its setting.
    pub open spec fn wf(&self) -> bool {
        self.max as int == abs_of(self.default_max)
    }

    /// Builds a runner from the outcome of the calibration probe.
    ///
    /// `probe` is the probe's response, `possible_parameters` the names that its body
    /// suggests, and `reflections` how often the marker name shows up in it. Unless
    /// parameters go into headers, the suggested names join `params`. A batch size larger
    /// than the number of candidates shrinks to that number. An empty candidate list is
    /// refused, whatever the setting.
    pub fn new(
        request_defaults: &mut RequestDefaults,
        params: &mut Vec<String>,
        default_max: isize,
        probe: Response,
        possible_parameters: Vec<String>,
        reflections: usize,
    ) -> (r: Result<Runner, RunnerError>)
        ensures
            final(params).deep_view() == (if old(request_defaults).injection_place != InjectionPlace::Headers {
                merged(old(params).deep_view(), possible_parameters.deep_view())
            } else {
                old(params).deep_view()
            }),
            (r is Err) == (final(params).len() == 0),
            r is Err ==> r == Err::<Runner, RunnerError>(RunnerError::NoParameters) && *final(request_defaults) == *old(request_defaults),
            r is Ok ==> ({
                let run = r->Ok_0;
                let n = final(params).len() as int;
                &&& run.wf()
                &&& run.default_max as int == (if n < abs_of(default_max) { n } else { default_max as int })
                &&& run.max as int == (if n < abs_of(default_max) { n } else { abs_of(default_max) })
                &&& run.params.deep_view() == final(params).deep_view()
                &&& run.initial_response == probe
                &&& run.diffs@.len() == 0
                &&& run.stable == Stable { body: false, reflections: false }
                &&& *final(request_defaults) == (RequestDefaults { amount_of_reflections: reflections, ..*old(request_defaults) })
                &&& run.request_defaults.url == final(request_defaults).url
                &&& run.request_defaults.method == final(request_defaults).method
                &&& run.request_defaults.injection_place == final(request_defaults).injection_place
                &&& run.request_defaults.parameters@ == final(request_defaults).parameters@
                &&& run.request_defaults.amount_of_reflections == reflections
            }),
    {
        let mut default_max = default_max;
        let mut max = magnitude(default_max);
        if request_defaults.injection_place != InjectionPlace::Headers {
            merge_parameters(params, &possible_parameters);
        }
        if params.len() == 0 {
            return Err(RunnerError::NoParameters);
        }
        if params.len() < max {
            max = params.len();
            default_max = params.len() as isize;
        }
        request_defaults.amount_of_reflections = reflections;
        Ok(Runner {
            request_defaults: request_defaults.duplicate(),
            params: copy_strings(params),
            default_max,
            max: magnitude(default_max),
            stable: Stable::new(),
            initial_response: probe,
            diffs: Vec::new(),
        })
    }

    /// Stores what the repeated baseline requests learned, then applies the stability gate.
    ///
    /// Fails when only reflected parameters are wanted and reflections are unstable.
    /// Otherwise returns whether the batch size is still to be found automatically from
    /// the default starting point, the only case in which the sizing ladder runs.
    pub fn stability_checker(&mut self, config: &Config, diffs: Vec<String>, stable: Stable) -> (r: Result<bool, RunnerError>)
        ensures
            final(self).diffs == diffs,
            final(self).stable == stable,
            final(self).max == old(self).max,
            final(self).default_max == old(self).default_max,
            final(self).params == old(self).params,
            final(self).request_defaults == old(self).request_defaults,
            final(self).initial_response == old(self).initial_response,
            r == (if config.reflected_only && !stable.reflections {
                Err::<bool, RunnerError>(RunnerError::ReflectionsUnstable)
            } else {
                Ok::<bool, RunnerError>(old(self).default_max == -128)
            }),
    {
        self.diffs = diffs;
        self.stable = stable;
        if config.reflected_only && !self.stable.reflections {
            return Err(RunnerError::ReflectionsUnstable);
        }
        Ok(self.default_max == -128)
    }

    /// Whether a sizing probe left the page as it was.
    pub fn rung_is_safe(&self, o: &ProbeOutcome) -> (r: bool)
        ensures
            r == rung_safe(self.stable.body, *o),
    {
        !o.code_differs && (!self.stable.body || o.new_diffs.len() == 0)
    }

    /// How many random parameters the first sizing probe carries.
    pub fn first_rung_size(&self) -> (r: usize)
        requires
            self.max + 64 <= usize::MAX,
        ensures
            r == self.max + 64,
    {
        self.max + 64
    }

    /// How many random parameters the second sizing probe carries.
    pub fn second_rung_size(&self) -> (r: usize)
        requires
            self.max + 128 <= usize::MAX,
        ensures
            r == self.max + 128,
    {
        self.max + 128
    }

    /// Grows the batch size from the outcomes of the sizing probes.
    ///
    /// `first` is the outcome of a probe with `max + 64` random parameters. Only when it
    /// was safe is a probe with `max + 128` parameters sent; `second` is its outcome. The
    /// batch size grows by 128 when both were safe, by 64 when only the first was, and
    /// stays when the first was not.
    pub fn try_to_increase_max(&mut self, first: &ProbeOutcome, second: Option<&ProbeOutcome>)
        requires
            old(self).max + 128 <= usize::MAX,
        ensures
            final(self).max as int == sized_max(old(self).max as int, old(self).stable.body, *first, second),
            (final(self).max == old(self).max + 128) == (rung_safe(old(self).stable.body, *first) && second is Some
                && rung_safe(old(self).stable.body, *second->0)),
            (final(self).max == old(self).max + 64) == (rung_safe(old(self).stable.body, *first) && !(second is Some
                && rung_safe(old(self).stable.body, *second->0))),
            (final(self).max == old(self).max) == !rung_safe(old(self).stable.body, *first),
            final(self).default_max == old(self).default_max,
            final(self).stable == old(self).stable,
            final(self).diffs == old(self).diffs,
            final(self).params == old(self).params,
            final(self).request_defaults == old(self).request_defaults,
            final(self).initial_response == old(self).initial_response,
    {
        if self.rung_is_safe(first) {
            let second_safe = match second {
                Some(o) => self.rung_is_safe(o),
                None => false,
            };
            if second_safe {
                self.max = self.max + 128;
            } else {
                self.max = self.max + 64;
            }
        }
    }

    /// Applies the sizing ladder and records a changed batch size as fixed.
    pub fn finish_sizing(&mut self, first: &ProbeOutcome, second: Option<&ProbeOutcome>)
        requires
            old(self).wf(),
            old(self).default_max == -128,
        ensures
            final(self).wf(),
            final(self).max as int == sized_max(128, old(self).stable.body, *first, second),
            final(self).default_max as int == (if final(self).max == 128 { -128 } else { final(self).max as int }),
            final(self).stable == old(self).stable,
            final(self).diffs == old(self).diffs,
            final(self).params == old(self).params,
            final(self).request_defaults == old(self).request_defaults,
            final(self).initial_response == old(self).initial_response,
    {
        self.try_to_increase_max(first, second);
        if self.max != magnitude(self.default_max) {
            self.default_max = self.max as isize;
        }
    }
}

} // verus!
