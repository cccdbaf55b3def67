use vstd::prelude::*;
use vstd::string::StringExecFns;

use crate::invocation::ModuleType;
use crate::text::{decimal, decimal_text, parse_u64, parse_u64_spec, same_text};

verus! {

/// A request to invoke a function, as the execution endpoint receives it.
#[derive(Debug)]
pub struct FunctionRequest {
    pub function_name: String,
    pub input: String,
    pub module_type: ModuleType,
    pub num_calls: u8,
    pub base_image: String,
}

/// Number of calls made when a request names none.
pub fn default_num_calls() -> (r: u8)
    ensures
        r == 1,
{
    1
}

/// Base image used when a request names none.
pub fn default_image() -> (r: String)
    ensures
        r@ == "debian"@,
{
    String::from_str("debian")
}

/// Whether a base image is one that containers may be built from.
pub fn verify_image(image: &str) -> (r: bool)
    ensures
        r == (image@ == "debian"@ || image@ == "ubuntu"@ || image@ == "archlinux"@),
{
    same_text(image, "debian") || same_text(image, "ubuntu") || same_text(image, "archlinux")
}

/// The largest input accepted for a function, where one is set.
pub open spec fn limit_of(limits: Seq<(String, u64)>, name: Seq<char>) -> Option<u64>
    decreases limits.len(),
{
    if limits.len() == 0 {
        None
    } else if limits[0].0@ == name {
        Some(limits[0].1)
    } else {
        limit_of(limits.drop_first(), name)
    }
}

/// The input clamped to the function's limit: for a function with a limit,
/// the input read as a number (zero where it is not one) if below the limit,
/// else the limit; for any other function, the input unchanged.
pub open spec fn sanitized(func_name: Seq<char>, input: Seq<char>, limits: Seq<(String, u64)>) -> Seq<char> {
    match limit_of(limits, func_name) {
        None => input,
        Some(max) => {
            let v = match parse_u64_spec(input) {
                Some(v) => v,
                None => 0,
            };
            if v < max {
                decimal_text(v as nat)
            } else {
                decimal_text(max as nat)
            }
        },
    }
}

/// Clamps the input of a request to the limit set for its function.
pub fn sanitize_input(func_name: &str, input: &str, limits: &Vec<(String, u64)>) -> (r: String)
    ensures
        r@ == sanitized(func_name@, input@, limits@),
{
    let mut found: Option<u64> = None;
    let mut i: usize = limits.len();
    while i > 0
        invariant
            i <= limits@.len(),
            found == limit_of(limits@.subrange(i as int, limits@.len() as int), func_name@),
        decreases i,
    {
        i = i - 1;
        let ghost rest = limits@.subrange(i as int, limits@.len() as int);
        assert(rest.drop_first() =~= limits@.subrange(i + 1, limits@.len() as int));
        if same_text(limits[i].0.as_str(), func_name) {
            found = Some(limits[i].1);
        }
    }
    assert(limits@.subrange(0, limits@.len() as int) =~= limits@);
    match found {
        None => input.to_owned(),
        Some(max_limit) => {
            let input_value = match parse_u64(input) {
                Some(v) => v,
                None => 0,
            };
            if input_value < max_limit {
                decimal(input_value as u128)
            } else {
                decimal(max_limit as u128)
            }
        },
    }
}

/// The input limits of the functions served in production.
pub fn get_limits() -> (r: Vec<(String, u64)>)
    ensures
        r@.len() == 5,
        r@[0].0@ == "exponential"@ && r@[0].1 == 500000,
        r@[1].0@ == "factorial"@ && r@[1].1 == 500000,
        r@[2].0@ == "fibonacci"@ && r@[2].1 == 500000,
        r@[3].0@ == "fibonacci-recursive"@ && r@[3].1 == 40,
        r@[4].0@ == "prime-number"@ && r@[4].1 == 500000,
{
    let mut limits: Vec<(String, u64)> = Vec::new();
    limits.push((String::from_str("exponential"), 500000));
    limits.push((String::from_str("factorial"), 500000));
    limits.push((String::from_str("fibonacci"), 500000));
    limits.push((String::from_str("fibonacci-recursive"), 40));
    limits.push((String::from_str("prime-number"), 500000));
    limits
}

/// Hundredths of a millisecond in a duration in microseconds, rounded half up.
pub open spec fn hundredths_of_milli(micro: nat) -> nat {
    micro / 10 + if micro % 10 >= 5 {
        1nat
    } else {
        0nat
    }
}

/// Two decimal digits, with a leading zero below ten.
pub open spec fn two_digits(n: nat) -> Seq<char> {
    if n < 10 {
        seq!['0'] + decimal_text(n)
    } else {
        decimal_text(n)
    }
}

/// A duration in microseconds written in milliseconds with two decimals.
pub open spec fn milli_text(micro: nat) -> Seq<char> {
    let h = hundredths_of_milli(micro);
    decimal_text(h / 100) + seq!['.'] + two_digits(h % 100) + seq!['m', 's']
}

/// Writes a duration in microseconds as milliseconds with two decimals,
/// rounded half up, followed by `ms`.
pub fn format_micro_to_milli(micro: &u128) -> (r: String)
    ensures
        r@ == milli_text(*micro as nat),
{
    let m = *micro;
    let hundredths: u128 = m / 10 + if m % 10 >= 5 {
        1
    } else {
        0
    };
    let mut text = decimal(hundredths / 100);
    proof {
        reveal_strlit(".");
        reveal_strlit("0");
        reveal_strlit("ms");
    }
    text.append(".");
    let frac = hundredths % 100;
    if frac < 10 {
        text.append("0");
    }
    let digits = decimal(frac);
    text.append(digits.as_str());
    text.append("ms");
    assert(text@ =~= milli_text(m as nat));
    text
}

/// The ports that the web server listens on.
#[derive(Clone, Copy, Debug, PartialEq, Eq, Structural)]
pub struct Ports {
    pub http: u16,
    pub https: u16,
}

/// The data of the home and about pages, which show no variable content.
#[derive(Clone, Copy, Debug, PartialEq, Eq, Structural)]
pub struct HomeTemplate {}

/// One named measurement shown on the metrics page.
#[derive(Debug)]
pub struct MetricData {
    pub name: String,
    pub value: u32,
}

/// The data of the metrics page: the aggregates as JSON text, and the
/// choices offered for filtering them.
#[derive(Debug)]
pub struct MetricsTemplate {
    pub metrics: String,
    pub metrics_grouped_by_input: String,
    pub metrics_grouped_by_module: String,
    pub input_options: Vec<u128>,
    pub module_options: Vec<String>,
}

/// The data of the page that lists the sandboxed modules.
#[derive(Debug)]
pub struct WasmTemplate {
    pub modules: Vec<String>,
}

/// The data of the page that lists the container images.
#[derive(Debug)]
pub struct DockerTemplate {
    pub images: Vec<String>,
}

/// The path parameters of a request to run a sandboxed module.
#[derive(Debug)]
pub struct Params {
    pub module: String,
    pub input: String,
}

} // verus!
