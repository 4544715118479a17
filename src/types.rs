use vstd::prelude::*;

verus! {

/// Where candidate parameters are placed in a request.
#[derive(Clone, Copy, Debug, PartialEq, Eq, Structural)]
pub enum InjectionPlace {
    Path,
    Body,
    Headers,
    HeaderValue,
}

/// Run-wide settings, read-only while a target is probed.
pub struct Config {
    pub verify: bool,
    pub reflected_only: bool,
    pub disable_custom_parameters: bool,
    pub learn_requests_count: usize,
    /// Address of the replay proxy, empty when replay is off.
    pub replay_proxy: String,
    /// Parameter names with their candidate values, in the order they are tried.
    pub custom_parameters: Vec<(String, Vec<String>)>,
    pub verbose: usize,
}

impl Config {
    /// Whether confirmed findings are to be sent again through the replay proxy.
    pub fn replay_wanted(&self) -> (r: bool)
        ensures
            r == (self.replay_proxy@.len() > 0),
    {
        self.replay_proxy.as_str().unicode_len() > 0
    }
}

/// Template from which each probe request is built.
pub struct RequestDefaults {
    pub url: String,
    pub method: String,
    pub injection_place: InjectionPlace,
    /// Parameters sent with every request built from this template.
    pub parameters: Vec<(String, String)>,
    /// How many times an injected name is expected to show up in a plain response.
    pub amount_of_reflections: usize,
}

/// Durable copy of one response: it keeps no link to the request that produced it.
pub struct Response {
    pub time: u128,
    pub code: u16,
    pub headers: Vec<(String, String)>,
    pub text: String,
    pub reflected_parameters: Vec<String>,
    pub additional_parameter: Option<String>,
}

/// What the repeated baseline requests taught about the target's noise.
#[derive(Clone, Copy, Debug, PartialEq, Eq, Structural)]
pub struct Stable {
    pub body: bool,
    pub reflections: bool,
}

impl Stable {
    pub fn new() -> (r: Stable)
        ensures
            !r.body,
            !r.reflections,
    {
        Stable { body: false, reflections: false }
    }
}

/// A parameter that changed the target's behaviour, with the differences it caused.
pub struct FoundParameter {
    pub name: String,
    pub diffs: Vec<String>,
}

/// Result of comparing one probe response with the baseline.
pub struct ProbeOutcome {
    pub code_differs: bool,
    /// Differences not explained by the known noise.
    pub new_diffs: Vec<String>,
}

/// Fatal errors of a run.
#[derive(Clone, Copy, Debug, PartialEq, Eq, Structural)]
pub enum RunnerError {
    NoParameters,
    ReflectionsUnstable,
}

impl RunnerError {
    pub fn message(&self) -> (r: String)
        ensures
            *self == RunnerError::NoParameters ==> r@ == "No parameters were provided."@,
            *self == RunnerError::ReflectionsUnstable ==> r@ == "Reflections are not stable"@,
    {
        match self {
            RunnerError::NoParameters => String::from_str("No parameters were provided."),
            RunnerError::ReflectionsUnstable => String::from_str("Reflections are not stable"),
        }
    }
}

/// Copies a list of strings one by one.
pub fn copy_strings(v: &Vec<String>) -> (r: Vec<String>)
    ensures
        r@ == v@,
{
    let mut r: Vec<String> = Vec::new();
    let mut i: usize = 0;
    while i < v.len()
        invariant
            i <= v.len(),
            r@ == v@.take(i as int),
        decreases v.len() - i,
    {
        r.push(v[i].clone());
        assert(v@.take(i + 1) == v@.take(i as int).push(v@[i as int]));
        i = i + 1;
    }
    assert(v@.take(v.len() as int) == v@);
    r
}

/// Copies a list of string pairs one by one.
pub fn copy_pairs(v: &Vec<(String, String)>) -> (r: Vec<(String, String)>)
    ensures
        r@ == v@,
{
    let mut r: Vec<(String, String)> = Vec::new();
    let mut i: usize = 0;
    while i < v.len()
        invariant
            i <= v.len(),
            r@ == v@.take(i as int),
        decreases v.len() - i,
    {
        let p = (v[i].0.clone(), v[i].1.clone());
        r.push(p);
        assert(v@.take(i + 1) == v@.take(i as int).push(v@[i as int]));
        i = i + 1;
    }
    assert(v@.take(v.len() as int) == v@);
    r
}

impl RequestDefaults {
    /// An exact copy of the template.
    pub fn duplicate(&self) -> (r: RequestDefaults)
        ensures
            r.url == self.url,
            r.method == self.method,
            r.injection_place == self.injection_place,
            r.parameters@ == self.parameters@,
            r.amount_of_reflections == self.amount_of_reflections,
    {
        RequestDefaults {
            url: self.url.clone(),
            method: self.method.clone(),
            injection_place: self.injection_place,
            parameters: copy_pairs(&self.parameters),
            amount_of_reflections: self.amount_of_reflections,
        }
    }

    /// The template of the calibration probe: a copy that carries one marker parameter only.
    pub fn with_marker(&self, name: String, value: String) -> (r: RequestDefaults)
        ensures
            r.url == self.url,
            r.method == self.method,
            r.injection_place == self.injection_place,
            r.parameters@ == seq![(name, value)],
            r.amount_of_reflections == self.amount_of_reflections,
    {
        let mut r = self.duplicate();
        r.parameters = vec![(name, value)];
        r
    }
}

} // verus!
