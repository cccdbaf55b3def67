use vstd::prelude::*;

verus! {

/// Nominal line voltage of the metered circuit, in volts.
pub const NOMINAL_VOLTAGE: u32 = 240;

/// Bound on the magnitude of one sample's power, in microwatts: the nominal
/// voltage times the largest product of two 32-bit register values
/// (240 * 2^62).
pub const MAX_SAMPLE_POWER: i128 = 1106804644422573096960;

/// One reading of the power meter.
///
/// `current` is in milliamps, `power_factor` in thousandths, `power` in
/// microwatts; `start_read` and `end_read` are microseconds since the epoch,
/// taken before the read began and after it completed.
#[derive(Clone, Copy, Debug, PartialEq, Eq, Structural)]
pub struct SensorData {
    pub current: i32,
    pub voltage: u32,
    pub power_factor: i32,
    pub power: i128,
    pub start_read: u64,
    pub end_read: u64,
}

/// Why a meter response could not become a sample.
#[derive(Clone, Copy, Debug, PartialEq, Eq, Structural)]
pub enum MeterError {
    /// A quantity did not come back as exactly two registers.
    MalformedResponse,
    /// The meter could not be reached or did not answer.
    ReadFailed,
    /// The clock did not advance during the read.
    ClockNotAdvanced,
}

/// The signed 32-bit value held by a high and a low 16-bit register.
pub open spec fn register_pair_value(hi: u16, lo: u16) -> int {
    let v = hi as int * 65536 + lo as int;
    if v >= 0x8000_0000 {
        v - 0x1_0000_0000
    } else {
        v
    }
}

/// Power in microwatts at the nominal voltage, for a current in milliamps and a
/// power factor in thousandths.
pub open spec fn power_spec(current: int, power_factor: int) -> int {
    NOMINAL_VOLTAGE as int * current * power_factor
}

/// Sum of the power of a sequence of samples.
pub open spec fn power_total(samples: Seq<SensorData>) -> int
    decreases samples.len(),
{
    if samples.len() == 0 {
        0
    } else {
        power_total(samples.drop_last()) + samples.last().power as int
    }
}

/// The idle baseline of a series of readings: the mean power, rounded down,
/// or zero where the total power is not positive.
pub open spec fn baseline_spec(samples: Seq<SensorData>) -> int {
    if power_total(samples) > 0 {
        power_total(samples) / samples.len() as int
    } else {
        0
    }
}

impl SensorData {
    /// The invariant of a sample: the read took time, and its power is within
    /// what the meter can report.
    pub open spec fn wf(&self) -> bool {
        &&& self.start_read < self.end_read
        &&& -MAX_SAMPLE_POWER <= self.power <= MAX_SAMPLE_POWER
    }

    /// Whether the sample is well formed.
    pub fn is_wf(&self) -> (r: bool)
        ensures
            r == self.wf(),
    {
        self.start_read < self.end_read && -MAX_SAMPLE_POWER <= self.power && self.power <= MAX_SAMPLE_POWER
    }

    /// Builds a sample from the registers that hold the current and the power
    /// factor, and from the clock readings around the read.
    pub fn from_registers(current_regs: &[u16], power_factor_regs: &[u16], start_read: u64, end_read: u64) -> (r: Result<SensorData, MeterError>)
        ensures
            (r is Err && r->Err_0 == MeterError::MalformedResponse) <==> (current_regs@.len() != 2
                || power_factor_regs@.len() != 2),
            (r is Err && r->Err_0 == MeterError::ClockNotAdvanced) <==> (current_regs@.len() == 2
                && power_factor_regs@.len() == 2 && start_read >= end_read),
            r is Err ==> r->Err_0 != MeterError::ReadFailed,
            r is Ok ==> ({
                let d = r->Ok_0;
                &&& d.wf()
                &&& d.current == register_pair_value(current_regs@[0], current_regs@[1])
                &&& d.power_factor == register_pair_value(power_factor_regs@[0], power_factor_regs@[1])
                &&& d.voltage == NOMINAL_VOLTAGE
                &&& d.power == power_spec(d.current as int, d.power_factor as int)
                &&& d.start_read == start_read
                &&& d.end_read == end_read
            }),
    {
        if current_regs.len() != 2 || power_factor_regs.len() != 2 {
            return Err(MeterError::MalformedResponse);
        }
        let current = combine_registers(current_regs[0], current_regs[1]);
        let power_factor = combine_registers(power_factor_regs[0], power_factor_regs[1]);
        if start_read >= end_read {
            return Err(MeterError::ClockNotAdvanced);
        }
        let power = get_power(current, power_factor);
        Ok(SensorData { current, voltage: NOMINAL_VOLTAGE, power_factor, power, start_read, end_read })
    }
}

/// The quantities read from the meter.
#[derive(Clone, Copy, Debug, PartialEq, Eq, Structural)]
pub enum LineInEnergySensor {
    Current,
    PowerFactor,
}

impl LineInEnergySensor {
    /// The address of the first of the two input registers that hold the
    /// quantity.
    pub fn address(self) -> (r: u16)
        ensures
            r == match self {
                LineInEnergySensor::Current => 0x406u16,
                LineInEnergySensor::PowerFactor => 0x40au16,
            },
    {
        match self {
            LineInEnergySensor::Current => 0x406,
            LineInEnergySensor::PowerFactor => 0x40a,
        }
    }
}

/// The signed value of a high and a low register, as the meter encodes a
/// 32-bit quantity.
pub fn combine_registers(hi: u16, lo: u16) -> (r: i32)
    ensures
        r == register_pair_value(hi, lo),
{
    let v: u32 = (hi as u32) * 65536 + (lo as u32);
    if v >= 0x8000_0000 {
        (v as i64 - 0x1_0000_0000i64) as i32
    } else {
        v as i32
    }
}

/// Power in microwatts for a current in milliamps and a power factor in
/// thousandths, at the nominal voltage.
pub fn get_power(current: i32, power_factor: i32) -> (r: i128)
    ensures
        r == power_spec(current as int, power_factor as int),
        -MAX_SAMPLE_POWER <= r <= MAX_SAMPLE_POWER,
{
    let c = current as i128;
    let p = power_factor as i128;
    assert(-0x4000_0000_0000_0000 <= c * p <= 0x4000_0000_0000_0000) by (nonlinear_arith)
        requires
            -0x8000_0000 <= c <= 0x7fff_ffff,
            -0x8000_0000 <= p <= 0x7fff_ffff,
    ;
    let cp = c * p;
    assert(NOMINAL_VOLTAGE as int * current * power_factor == 240 * cp) by (nonlinear_arith)
        requires
            cp == c * p,
            c == current,
            p == power_factor,
            NOMINAL_VOLTAGE == 240,
    ;
    240 * cp
}

/// Bound on the running totals that [`floor_div`] divides.
pub const DIVIDEND_BOUND: i128 = 0x1_0000_0000_0000_0000_0000_0000;

/// Euclidean division by a positive divisor: quotient rounded down and a
/// remainder in `[0, n)`.
pub fn floor_div(t: i128, n: i128) -> (r: (i128, i128))
    requires
        n > 0,
        -DIVIDEND_BOUND <= t <= DIVIDEND_BOUND,
    ensures
        r.0 == t / n,
        r.1 == t % n,
        t == r.0 * n + r.1,
        0 <= r.1 < n,
{
    if t >= 0 {
        let q = (t as u128) / (n as u128);
        let m = (t as u128) % (n as u128);
        proof {
            vstd::arithmetic::div_mod::lemma_fundamental_div_mod(t as int, n as int);
            vstd::arithmetic::div_mod::lemma_div_is_ordered(0, t as int, n as int);
            vstd::arithmetic::div_mod::lemma_div_is_ordered(t as int, DIVIDEND_BOUND as int, n as int);
            vstd::arithmetic::div_mod::lemma_div_by_multiple(DIVIDEND_BOUND as int, 1);
            vstd::arithmetic::div_mod::lemma_div_is_ordered_by_denominator(DIVIDEND_BOUND as int, 1, n as int);
        }
        (q as i128, m as i128)
    } else {
        let a = (-t) as u128;
        let q0 = a / (n as u128);
        let r0 = a % (n as u128);
        proof {
            vstd::arithmetic::div_mod::lemma_fundamental_div_mod(a as int, n as int);
            vstd::arithmetic::div_mod::lemma_div_is_ordered(a as int, DIVIDEND_BOUND as int, n as int);
            vstd::arithmetic::div_mod::lemma_div_by_multiple(DIVIDEND_BOUND as int, 1);
            vstd::arithmetic::div_mod::lemma_div_is_ordered_by_denominator(DIVIDEND_BOUND as int, 1, n as int);
            vstd::arithmetic::div_mod::lemma_div_is_ordered(0, a as int, n as int);
        }
        let q: i128;
        let m: i128;
        if r0 == 0 {
            q = -(q0 as i128);
            m = 0;
        } else {
            q = -(q0 as i128) - 1;
            m = n - r0 as i128;
        }
        assert(t == q * n + m) by (nonlinear_arith)
            requires
                a == n * q0 + r0,
                t == -a,
                r0 == 0 ==> q == -q0 && m == 0,
                r0 != 0 ==> q == -q0 - 1 && m == n - r0,
        ;
        proof {
            vstd::arithmetic::div_mod::lemma_fundamental_div_mod_converse(t as int, n as int, q as int, m as int);
        }
        (q, m)
    }
}

/// The quotient of a total by `n` lies within the bound of one sample's power
/// when the total is the sum of at most `n` such powers.
pub proof fn lemma_quotient_bound(total: int, n: int, k: int)
    requires
        0 < n,
        0 <= k <= n,
        -k * MAX_SAMPLE_POWER <= total <= k * MAX_SAMPLE_POWER,
    ensures
        -MAX_SAMPLE_POWER <= total / n <= MAX_SAMPLE_POWER,
{
    assert(k * MAX_SAMPLE_POWER <= n * MAX_SAMPLE_POWER) by (nonlinear_arith)
        requires
            k <= n,
    ;
    vstd::arithmetic::div_mod::lemma_div_is_ordered(total, MAX_SAMPLE_POWER * n, n);
    vstd::arithmetic::div_mod::lemma_div_is_ordered(-MAX_SAMPLE_POWER * n, total, n);
    vstd::arithmetic::div_mod::lemma_fundamental_div_mod_converse(MAX_SAMPLE_POWER * n, n, MAX_SAMPLE_POWER as int, 0);
    vstd::arithmetic::div_mod::lemma_fundamental_div_mod_converse(-MAX_SAMPLE_POWER * n, n, -MAX_SAMPLE_POWER, 0);
}

/// Adds a sample's power to a running total kept as its quotient and
/// remainder by `n`, and returns the new quotient and remainder.
pub fn add_to_quotient(q: i128, r: i128, power: i128, n: i128) -> (res: (i128, i128))
    requires
        0 < n <= 0x1_0000_0000_0000_0000,
        0 <= r < n,
        -MAX_SAMPLE_POWER <= q <= MAX_SAMPLE_POWER,
        -MAX_SAMPLE_POWER <= power <= MAX_SAMPLE_POWER,
    ensures
        res.0 * n + res.1 == q * n + r + power,
        0 <= res.1 < n,
{
    let (dq, dr) = floor_div(r + power, n);
    assert(-DIVIDEND_BOUND <= dq <= DIVIDEND_BOUND) by {
        vstd::arithmetic::div_mod::lemma_div_is_ordered(r + power, DIVIDEND_BOUND as int, n as int);
        vstd::arithmetic::div_mod::lemma_div_is_ordered(-DIVIDEND_BOUND as int, r + power, n as int);
        vstd::arithmetic::div_mod::lemma_div_is_ordered_by_denominator(DIVIDEND_BOUND as int, 1, n as int);
        vstd::arithmetic::div_mod::lemma_div_by_multiple(DIVIDEND_BOUND as int, 1);
        vstd::arithmetic::div_mod::lemma_fundamental_div_mod_converse(-DIVIDEND_BOUND as int, 1, -DIVIDEND_BOUND as int, 0);
        assert(-DIVIDEND_BOUND as int / n as int >= -DIVIDEND_BOUND) by {
            vstd::arithmetic::div_mod::lemma_fundamental_div_mod(-DIVIDEND_BOUND as int, n as int);
            assert((n as int) * (-DIVIDEND_BOUND as int / n as int) > -DIVIDEND_BOUND - n);
            assert((-DIVIDEND_BOUND as int / n as int) >= -DIVIDEND_BOUND) by (nonlinear_arith)
                requires
                    (n as int) * (-DIVIDEND_BOUND as int / n as int) > -DIVIDEND_BOUND - n,
                    n >= 1,
                    DIVIDEND_BOUND > 0,
            ;
        }
    }
    assert((q + dq) * n + dr == q * n + r + power) by (nonlinear_arith)
        requires
            r + power == dq * n + dr,
    ;
    (q + dq, dr)
}

/// The idle draw measured over a series of readings, in microwatts: their
/// mean power rounded down, or zero where the total is not positive.
pub fn measure_baseline(sensor_data: Vec<SensorData>) -> (r: i128)
    requires
        forall|i: int| 0 <= i < sensor_data@.len() ==> (#[trigger] sensor_data@[i]).wf(),
    ensures
        r == baseline_spec(sensor_data@),
{
    let n = sensor_data.len();
    if n == 0 {
        return 0;
    }
    let d = n as i128;
    let mut q: i128 = 0;
    let mut rem: i128 = 0;
    proof {
        vstd::arithmetic::div_mod::lemma_fundamental_div_mod_converse(0, d as int, 0, 0);
    }
    for i in 0..n
        invariant
            n == sensor_data@.len(),
            d == n,
            n > 0,
            forall|j: int| 0 <= j < sensor_data@.len() ==> (#[trigger] sensor_data@[j]).wf(),
            q == power_total(sensor_data@.take(i as int)) / (d as int),
            rem == power_total(sensor_data@.take(i as int)) % (d as int),
            power_total(sensor_data@.take(i as int)) == q * d + rem,
            0 <= rem < d,
            -(i as int) * MAX_SAMPLE_POWER <= power_total(sensor_data@.take(i as int)) <= (i as int) * MAX_SAMPLE_POWER,
    {
        assert(sensor_data@.take(i + 1).drop_last() =~= sensor_data@.take(i as int));
        let ghost total = power_total(sensor_data@.take(i + 1));
        proof {
            lemma_quotient_bound(power_total(sensor_data@.take(i as int)), d as int, i as int);
        }
        let (q2, r2) = add_to_quotient(q, rem, sensor_data[i].power, d);
        proof {
            vstd::arithmetic::div_mod::lemma_fundamental_div_mod_converse(total, d as int, q2 as int, r2 as int);
        }
        q = q2;
        rem = r2;
    }
    assert(sensor_data@.take(n as int) =~= sensor_data@);
    let ghost total = power_total(sensor_data@);
    assert(total > 0 <==> (q > 0 || (q == 0 && rem > 0))) by (nonlinear_arith)
        requires
            total == q * d + rem,
            0 <= rem < d,
    ;
    if q > 0 || (q == 0 && rem > 0) {
        q
    } else {
        0
    }
}

} // verus!
