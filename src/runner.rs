use vstd::prelude::*;
use vstd::string::StrSliceExecFns;

use crate::text::{parse_u128, parse_u128_spec, trim_text, trimmed};

verus! {

/// The Fibonacci numbers.
pub open spec fn fib(n: nat) -> nat
    decreases n,
{
    if n < 2 {
        n
    } else {
        fib((n - 1) as nat) + fib((n - 2) as nat)
    }
}

proof fn lemma_fib_monotone(i: nat, j: nat)
    requires
        i <= j,
    ensures
        fib(i) <= fib(j),
    decreases j,
{
    if i < j {
        lemma_fib_monotone(i, (j - 1) as nat);
        if j >= 2 {
            assert(fib(j) == fib((j - 1) as nat) + fib((j - 2) as nat));
        }
    }
}

/// The first `size` Fibonacci numbers.
pub fn fibonacci(size: usize) -> (r: Vec<u64>)
    requires
        size == 0 || fib((size - 1) as nat) <= u64::MAX,
    ensures
        r@.len() == size,
        forall|i: int| 0 <= i < size ==> r@[i] == fib(i as nat),
{
    let mut sequence: Vec<u64> = Vec::new();
    for i in 0..size
        invariant
            sequence@.len() == i,
            size == 0 || fib((size - 1) as nat) <= u64::MAX,
            forall|j: int| 0 <= j < i ==> sequence@[j] == fib(j as nat),
    {
        if i == 0 || i == 1 {
            sequence.push(i as u64);
        } else {
            proof {
                lemma_fib_monotone(i as nat, (size - 1) as nat);
            }
            assert(fib(i as nat) == fib((i - 1) as nat) + fib((i - 2) as nat));
            let next_value = sequence[i - 1] + sequence[i - 2];
            sequence.push(next_value);
        }
    }
    sequence
}

/// A sandboxed module to run, with its input and, once run, its output.
#[derive(Debug)]
pub struct WasmModule<Input = String, Output = Option<String>> {
    pub module_name: String,
    pub input: Input,
    pub output: Option<Output>,
}

impl<Input, Output> WasmModule<Input, Output> {
    /// A module that has not run yet.
    pub fn new(module_name: String, input: Input) -> (r: Self)
        ensures
            r.module_name == module_name,
            r.input == input,
            r.output is None,
    {
        WasmModule { module_name, input, output: None }
    }

    /// Records the output of a run.
    pub fn set_output(&mut self, output: Output)
        ensures
            final(self).output == Some(output),
            final(self).module_name == old(self).module_name,
            final(self).input == old(self).input,
    {
        self.output = Some(output);
    }
}

/// A container image to run, with its input and, once run, its output.
#[derive(Debug)]
pub struct DockerModule<Input = String, Output = Option<String>> {
    pub image_name: String,
    pub input: Input,
    pub output: Option<Output>,
    pub collect_metrics: Option<bool>,
}

impl<Input, Output> DockerModule<Input, Output> {
    /// An image that has not run yet.
    pub fn new(image_name: String, input: Input, collect_metrics: Option<bool>) -> (r: Self)
        ensures
            r.image_name == image_name,
            r.input == input,
            r.output is None,
            r.collect_metrics == collect_metrics,
    {
        DockerModule { image_name, input, output: None, collect_metrics }
    }

    /// Records the output of a run.
    pub fn set_output(&mut self, output: Output)
        ensures
            final(self).output == Some(output),
            final(self).image_name == old(self).image_name,
            final(self).input == old(self).input,
            final(self).collect_metrics == old(self).collect_metrics,
    {
        self.output = Some(output);
    }

    /// Whether timing is to be collected; not unless asked for.
    pub fn should_collect_metrics(&self) -> (r: bool)
        ensures
            r == (self.collect_metrics == Some(true)),
    {
        match self.collect_metrics {
            Some(b) => b,
            None => false,
        }
    }
}

/// Why the output of a container could not be read.
#[derive(Clone, Copy, Debug, PartialEq, Eq, Structural)]
pub enum OutputError {
    /// No `|` separates the result from the start-up timestamp.
    NoTimestamp,
    /// The timestamp is not an unsigned number.
    InvalidTimestamp,
    /// The timestamp lies before the command was started.
    TimestampBeforeStart,
}

/// Position of the first occurrence of a character, or the length where it
/// does not occur.
pub open spec fn index_of(s: Seq<char>, c: char) -> int
    decreases s.len(),
{
    if s.len() == 0 {
        0
    } else if s[0] == c {
        0
    } else {
        1 + index_of(s.drop_first(), c)
    }
}

proof fn lemma_index_of(s: Seq<char>, c: char)
    ensures
        0 <= index_of(s, c) <= s.len(),
        index_of(s, c) < s.len() ==> s[index_of(s, c)] == c,
        forall|i: int| 0 <= i < index_of(s, c) ==> s[i] != c,
    decreases s.len(),
{
    if s.len() > 0 && s[0] != c {
        lemma_index_of(s.drop_first(), c);
        assert forall|i: int| 0 <= i < index_of(s, c) implies s[i] != c by {
            if i > 0 {
                assert(s[i] == s.drop_first()[i - 1]);
            }
        }
    }
}

/// The result and the start-up time read from a container's output
/// `result|timestamp[|...]`, after surrounding whitespace is removed, with the
/// time measured from `cmd_startup`.
pub open spec fn parsed_output(output: Seq<char>, cmd_startup: u128) -> Result<(Seq<char>, u128), OutputError> {
    parsed_trimmed_output(trimmed(output), cmd_startup)
}

/// The result and the start-up time read from `result|timestamp[|...]`, with
/// the time measured from `cmd_startup`.
pub open spec fn parsed_trimmed_output(t: Seq<char>, cmd_startup: u128) -> Result<(Seq<char>, u128), OutputError> {
    let p = index_of(t, '|');
    if p >= t.len() {
        Err(OutputError::NoTimestamp)
    } else {
        let rest = t.subrange(p + 1, t.len() as int);
        let stamp = rest.subrange(0, index_of(rest, '|'));
        match parse_u128_spec(stamp) {
            None => Err(OutputError::InvalidTimestamp),
            Some(v) => if v < cmd_startup {
                Err(OutputError::TimestampBeforeStart)
            } else {
                Ok((t.subrange(0, p), (v - cmd_startup) as u128))
            },
        }
    }
}

fn find_char(s: &str, c: char) -> (r: usize)
    ensures
        r == index_of(s@, c),
{
    proof {
        lemma_index_of(s@, c);
    }
    let n = s.unicode_len();
    let mut i: usize = 0;
    while i < n
        invariant
            n == s@.len(),
            i <= n,
            forall|j: int| 0 <= j < i ==> s@[j] != c,
            0 <= index_of(s@, c) <= s@.len(),
            index_of(s@, c) < s@.len() ==> s@[index_of(s@, c)] == c,
            forall|j: int| 0 <= j < index_of(s@, c) ==> s@[j] != c,
        decreases n - i,
    {
        if s.get_char(i) == c {
            return i;
        }
        i = i + 1;
    }
    i
}

/// Reads the result and the start-up time from a container's output.
pub fn parse_output(output: &str, cmd_startup: u128) -> (r: Result<(String, u128), OutputError>)
    ensures
        match (r, parsed_output(output@, cmd_startup)) {
            (Ok((a, b)), Ok((x, y))) => a@ == x && b == y,
            (Err(e), Err(f)) => e == f,
            _ => false,
        },
{
    parse_trimmed_output(trim_text(output), cmd_startup)
}

/// Reads the result and the start-up time from output already stripped of
/// surrounding whitespace.
pub fn parse_trimmed_output(t: &str, cmd_startup: u128) -> (r: Result<(String, u128), OutputError>)
    ensures
        match (r, parsed_trimmed_output(t@, cmd_startup)) {
            (Ok((a, b)), Ok((x, y))) => a@ == x && b == y,
            (Err(e), Err(f)) => e == f,
            _ => false,
        },
{
    let n = t.unicode_len();
    let p = find_char(t, '|');
    if p >= n {
        return Err(OutputError::NoTimestamp);
    }
    let rest = t.substring_char(p + 1, n);
    let q = find_char(rest, '|');
    proof {
        lemma_index_of(rest@, '|');
    }
    let stamp = rest.substring_char(0, q);
    match parse_u128(stamp) {
        None => Err(OutputError::InvalidTimestamp),
        Some(v) => {
            if v < cmd_startup {
                Err(OutputError::TimestampBeforeStart)
            } else {
                let result = t.substring_char(0, p);
                Ok((result.to_owned(), v - cmd_startup))
            }
        },
    }
}

} // verus!
