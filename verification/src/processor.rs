//! Per-CPU time-bucket tracking and percentage derivation.
//!
//! A [`CpuTime`] holds the five cumulative tick buckets of one logical CPU.
//! [`CpuTime::pct_diff`] converts a (current, previous) pair into normalized
//! percentages, stored as fixed-point integers: a [`CpuPct`] field holds the
//! percentage multiplied by [`PCT_SCALE`], so `100.0%` is `100 * PCT_SCALE`.

use crate::clamped_delta;
use vstd::arithmetic::div_mod::{
    lemma_div_is_ordered, lemma_fundamental_div_mod, lemma_mod_bound,
};
use vstd::arithmetic::mul::lemma_mul_inequality;
use vstd::prelude::*;
use vstd::string::StringExecFns;

verus! {

/// Fixed-point scale of the percentage fields: a stored value `v` stands for
/// `v / PCT_SCALE` percent.
pub const PCT_SCALE: u64 = 100000;

/// The stored value that stands for 100 percent.
pub const PCT_FULL: u64 = 10000000;

/// Cumulative CPU times of one logical CPU, split into the five scheduling
/// buckets, each counted in ticks since boot.
#[derive(Clone, Copy, Debug, PartialEq, Eq, Structural)]
pub struct CpuTime {
    pub user_time: u64,
    pub nice_time: u64,
    pub system_time: u64,
    pub interrupt_time: u64,
    pub idle_time: u64,
}

impl Default for CpuTime {
    fn default() -> (r: Self)
        ensures
            r == CpuTime::zero(),
    {
        CpuTime { user_time: 0, nice_time: 0, system_time: 0, interrupt_time: 0, idle_time: 0 }
    }
}

impl CpuTime {
    /// The all-zero sample.
    pub open spec fn zero() -> Self {
        CpuTime { user_time: 0, nice_time: 0, system_time: 0, interrupt_time: 0, idle_time: 0 }
    }

    pub open spec fn user_delta(self, prev: Self) -> int {
        clamped_delta(self.user_time, prev.user_time)
    }

    pub open spec fn nice_delta(self, prev: Self) -> int {
        clamped_delta(self.nice_time, prev.nice_time)
    }

    pub open spec fn system_delta(self, prev: Self) -> int {
        clamped_delta(self.system_time, prev.system_time)
    }

    pub open spec fn interrupt_delta(self, prev: Self) -> int {
        clamped_delta(self.interrupt_time, prev.interrupt_time)
    }

    pub open spec fn idle_delta(self, prev: Self) -> int {
        clamped_delta(self.idle_time, prev.idle_time)
    }

    /// The elapsed tick count of the interval: the sum of the five bucket
    /// deltas, each clamped at zero.
    pub open spec fn total_delta(self, prev: Self) -> int {
        self.user_delta(prev) + self.nice_delta(prev) + self.system_delta(prev)
            + self.interrupt_delta(prev) + self.idle_delta(prev)
    }
}

/// The share, in fixed-point percent, that `d` ticks make of `total` ticks:
/// `100 * PCT_SCALE * d / total`, rounded down.
pub open spec fn pct_of(d: int, total: int) -> int {
    (d * PCT_FULL) / total
}

/// Normalized CPU usage of one interval. Each field holds a percentage in
/// units of `1 / PCT_SCALE` percent, so a fully busy bucket reads
/// [`PCT_FULL`].
#[derive(Clone, Copy, Debug, PartialEq, Eq, Structural)]
pub struct CpuPct {
    pub user_pct: u64,
    pub nice_pct: u64,
    pub system_pct: u64,
    pub interrupt_pct: u64,
    pub idle_pct: u64,
}

impl Default for CpuPct {
    fn default() -> (r: Self)
        ensures
            r == CpuPct::zero(),
    {
        CpuPct { user_pct: 0, nice_pct: 0, system_pct: 0, interrupt_pct: 0, idle_pct: 0 }
    }
}

impl CpuPct {
    /// The all-zero usage.
    pub open spec fn zero() -> Self {
        CpuPct { user_pct: 0, nice_pct: 0, system_pct: 0, interrupt_pct: 0, idle_pct: 0 }
    }

    /// Every percentage is at most 100 percent. Holds of every usage the
    /// sampler stores.
    pub open spec fn wf(self) -> bool {
        &&& self.user_pct <= PCT_FULL
        &&& self.nice_pct <= PCT_FULL
        &&& self.system_pct <= PCT_FULL
        &&& self.interrupt_pct <= PCT_FULL
        &&& self.idle_pct <= PCT_FULL
    }
}

impl CpuPct {
    /// Component-wise sum of two usage values, used while accumulating the
    /// global aggregate.
    pub fn add(self, other: Self) -> (r: Self)
        requires
            self.user_pct + other.user_pct <= u64::MAX,
            self.nice_pct + other.nice_pct <= u64::MAX,
            self.system_pct + other.system_pct <= u64::MAX,
            self.interrupt_pct + other.interrupt_pct <= u64::MAX,
            self.idle_pct + other.idle_pct <= u64::MAX,
        ensures
            r.user_pct == self.user_pct + other.user_pct,
            r.nice_pct == self.nice_pct + other.nice_pct,
            r.system_pct == self.system_pct + other.system_pct,
            r.interrupt_pct == self.interrupt_pct + other.interrupt_pct,
            r.idle_pct == self.idle_pct + other.idle_pct,
    {
        CpuPct {
            user_pct: self.user_pct + other.user_pct,
            nice_pct: self.nice_pct + other.nice_pct,
            system_pct: self.system_pct + other.system_pct,
            interrupt_pct: self.interrupt_pct + other.interrupt_pct,
            idle_pct: self.idle_pct + other.idle_pct,
        }
    }

    /// Component-wise integer division, used to average an accumulated sum
    /// over the logical CPU count.
    pub fn div_assign(&mut self, rhs: u8)
        requires
            rhs > 0,
        ensures
            final(self).user_pct == old(self).user_pct as int / rhs as int,
            final(self).nice_pct == old(self).nice_pct as int / rhs as int,
            final(self).system_pct == old(self).system_pct as int / rhs as int,
            final(self).interrupt_pct == old(self).interrupt_pct as int / rhs as int,
            final(self).idle_pct == old(self).idle_pct as int / rhs as int,
    {
        let d = rhs as u64;
        self.user_pct = self.user_pct / d;
        self.nice_pct = self.nice_pct / d;
        self.system_pct = self.system_pct / d;
        self.interrupt_pct = self.interrupt_pct / d;
        self.idle_pct = self.idle_pct / d;
    }

    /// The busy share of the interval: everything but the idle bucket.
    pub fn non_idle_pct(&self) -> (r: u64)
        requires
            self.wf(),
        ensures
            r == self.user_pct + self.nice_pct + self.system_pct + self.interrupt_pct,
    {
        self.user_pct + self.nice_pct + self.system_pct + self.interrupt_pct
    }
}

/// The usage derived from a (current, previous) sample pair, as exact
/// fixed-point values. Meaningful only when `cur.total_delta(prev) > 0`.
pub open spec fn usage_between(cur: CpuTime, prev: CpuTime) -> CpuPct {
    let t = cur.total_delta(prev);
    CpuPct {
        user_pct: pct_of(cur.user_delta(prev), t) as u64,
        nice_pct: pct_of(cur.nice_delta(prev), t) as u64,
        system_pct: pct_of(cur.system_delta(prev), t) as u64,
        interrupt_pct: pct_of(cur.interrupt_delta(prev), t) as u64,
        idle_pct: pct_of(cur.idle_delta(prev), t) as u64,
    }
}

/// A share of an interval never exceeds the whole interval.
proof fn lemma_pct_of_bounds(d: int, t: int)
    requires
        0 <= d <= t,
        0 < t,
    ensures
        0 <= pct_of(d, t) <= PCT_FULL,
{
    lemma_mul_inequality(d, t, PCT_FULL as int);
    lemma_div_is_ordered(d * PCT_FULL, t * PCT_FULL, t);
    assert((t * PCT_FULL) / t == PCT_FULL) by (nonlinear_arith)
        requires
            t > 0,
    ;
    assert(d * PCT_FULL >= 0) by (nonlinear_arith)
        requires
            d >= 0,
    ;
    vstd::arithmetic::div_mod::lemma_div_pos_is_pos(d * PCT_FULL, t);
}

/// A derived usage is a valid percentage vector.
proof fn lemma_usage_between_wf(cur: CpuTime, prev: CpuTime)
    requires
        cur.total_delta(prev) > 0,
    ensures
        usage_between(cur, prev).wf(),
{
    let t = cur.total_delta(prev);
    lemma_pct_of_bounds(cur.user_delta(prev), t);
    lemma_pct_of_bounds(cur.nice_delta(prev), t);
    lemma_pct_of_bounds(cur.system_delta(prev), t);
    lemma_pct_of_bounds(cur.interrupt_delta(prev), t);
    lemma_pct_of_bounds(cur.idle_delta(prev), t);
}

/// One fixed-point bucket share.
fn pct_part(d: u64, total: u128) -> (r: u64)
    requires
        d <= total,
        0 < total,
        total <= 5 * (u64::MAX as int),
    ensures
        r == pct_of(d as int, total as int),
        r <= PCT_FULL,
{
    proof {
        assert((d as u128) * (PCT_FULL as u128) <= (u64::MAX as u128) * (PCT_FULL as u128))
            by (nonlinear_arith)
            requires
                d <= u64::MAX,
        ;
    }
    let num: u128 = (d as u128) * (PCT_FULL as u128);
    let q: u128 = num / total;
    proof {
        lemma_pct_of_bounds(d as int, total as int);
    }
    q as u64
}

impl CpuTime {
    /// Derives the usage percentages of the interval between `previous` and
    /// `self`. Returns `None` when the interval's total tick delta is zero
    /// (identical consecutive samples, a paused clock): the caller holds its
    /// previous usage instead of dividing by zero.
    pub fn pct_diff(&self, previous: &Self) -> (r: Option<CpuPct>)
        ensures
            r is Some <==> self.total_delta(*previous) > 0,
            r matches Some(p) ==> p == usage_between(*self, *previous) && p.wf(),
    {
        let user = crate::delta_u64(self.user_time, previous.user_time);
        let nice = crate::delta_u64(self.nice_time, previous.nice_time);
        let system = crate::delta_u64(self.system_time, previous.system_time);
        let interrupt = crate::delta_u64(self.interrupt_time, previous.interrupt_time);
        let idle = crate::delta_u64(self.idle_time, previous.idle_time);
        let total: u128 = user as u128 + nice as u128 + system as u128 + interrupt as u128
            + idle as u128;
        if total > 0 {
            Some(
                CpuPct {
                    user_pct: pct_part(user, total),
                    nice_pct: pct_part(nice, total),
                    system_pct: pct_part(system, total),
                    interrupt_pct: pct_part(interrupt, total),
                    idle_pct: pct_part(idle, total),
                },
            )
        } else {
            None
        }
    }
}

/// Whenever an interval has a positive total tick delta, the five derived
/// percentages account for the whole interval: their sum lies within four
/// fixed-point units (0.00004 percent) below 100 percent, and never above
/// it. Only downward rounding of the five integer divisions keeps the sum
/// from being exactly 100 percent.
pub proof fn lemma_usage_sums_to_whole(cur: CpuTime, prev: CpuTime)
    requires
        cur.total_delta(prev) > 0,
    ensures
        ({
            let u = usage_between(cur, prev);
            let sum = u.user_pct + u.nice_pct + u.system_pct + u.interrupt_pct + u.idle_pct;
            PCT_FULL - 4 <= sum <= PCT_FULL
        }),
{
    let t = cur.total_delta(prev);
    let c = PCT_FULL as int;
    let d1 = cur.user_delta(prev);
    let d2 = cur.nice_delta(prev);
    let d3 = cur.system_delta(prev);
    let d4 = cur.interrupt_delta(prev);
    let d5 = cur.idle_delta(prev);
    lemma_pct_of_bounds(d1, t);
    lemma_pct_of_bounds(d2, t);
    lemma_pct_of_bounds(d3, t);
    lemma_pct_of_bounds(d4, t);
    lemma_pct_of_bounds(d5, t);
    let q1 = pct_of(d1, t);
    let q2 = pct_of(d2, t);
    let q3 = pct_of(d3, t);
    let q4 = pct_of(d4, t);
    let q5 = pct_of(d5, t);
    lemma_fundamental_div_mod(d1 * c, t);
    lemma_fundamental_div_mod(d2 * c, t);
    lemma_fundamental_div_mod(d3 * c, t);
    lemma_fundamental_div_mod(d4 * c, t);
    lemma_fundamental_div_mod(d5 * c, t);
    lemma_mod_bound(d1 * c, t);
    lemma_mod_bound(d2 * c, t);
    lemma_mod_bound(d3 * c, t);
    lemma_mod_bound(d4 * c, t);
    lemma_mod_bound(d5 * c, t);
    let r1 = (d1 * c) % t;
    let r2 = (d2 * c) % t;
    let r3 = (d3 * c) % t;
    let r4 = (d4 * c) % t;
    let r5 = (d5 * c) % t;
    let s = q1 + q2 + q3 + q4 + q5;
    let r = r1 + r2 + r3 + r4 + r5;
    assert(d1 * c + d2 * c + d3 * c + d4 * c + d5 * c == t * c) by (nonlinear_arith)
        requires
            d1 + d2 + d3 + d4 + d5 == t,
    ;
    assert(t * q1 + t * q2 + t * q3 + t * q4 + t * q5 == t * s) by (nonlinear_arith)
        requires
            s == q1 + q2 + q3 + q4 + q5,
    ;
    assert(t * s + r == t * c);
    assert(s <= c) by (nonlinear_arith)
        requires
            t * s + r == t * c,
            r >= 0,
            t > 0,
    ;
    assert(s >= c - 4) by (nonlinear_arith)
        requires
            t * s + r == t * c,
            r <= 5 * t - 5,
            t > 0,
    ;
}

/// The character of one decimal digit.
pub open spec fn digit_char(d: int) -> char {
    if d == 0 {
        '0'
    } else if d == 1 {
        '1'
    } else if d == 2 {
        '2'
    } else if d == 3 {
        '3'
    } else if d == 4 {
        '4'
    } else if d == 5 {
        '5'
    } else if d == 6 {
        '6'
    } else if d == 7 {
        '7'
    } else if d == 8 {
        '8'
    } else {
        '9'
    }
}

/// The decimal digit string of `n`, most significant digit first, without
/// leading zeros (except for `n == 0` itself).
pub open spec fn spec_decimal(n: nat) -> Seq<char>
    decreases n,
{
    if n < 10 {
        seq![digit_char(n as int)]
    } else {
        spec_decimal(n / 10).push(digit_char((n % 10) as int))
    }
}

/// The name of logical CPU `i`: `cpu` followed by the decimal index.
pub open spec fn spec_cpu_name(i: nat) -> Seq<char> {
    "cpu"@ + spec_decimal(i)
}

fn digit_str(d: u8) -> (r: &'static str)
    requires
        d < 10,
    ensures
        r@ == seq![digit_char(d as int)],
{
    let r: &'static str = if d == 0 {
        "0"
    } else if d == 1 {
        "1"
    } else if d == 2 {
        "2"
    } else if d == 3 {
        "3"
    } else if d == 4 {
        "4"
    } else if d == 5 {
        "5"
    } else if d == 6 {
        "6"
    } else if d == 7 {
        "7"
    } else if d == 8 {
        "8"
    } else {
        "9"
    };
    proof {
        reveal_strlit("0");
        reveal_strlit("1");
        reveal_strlit("2");
        reveal_strlit("3");
        reveal_strlit("4");
        reveal_strlit("5");
        reveal_strlit("6");
        reveal_strlit("7");
        reveal_strlit("8");
        reveal_strlit("9");
        assert(r@ =~= seq![digit_char(d as int)]);
    }
    r
}

fn decimal_string(n: u8) -> (r: String)
    ensures
        r@ == spec_decimal(n as nat),
    decreases n,
{
    if n < 10 {
        digit_str(n).to_owned()
    } else {
        let mut s = decimal_string(n / 10);
        s.append(digit_str(n % 10));
        proof {
            assert(s@ =~= spec_decimal((n / 10) as nat).push(digit_char((n % 10) as int)));
        }
        s
    }
}

/// The conventional name of logical CPU `i`.
pub fn cpu_name(i: u8) -> (r: String)
    ensures
        r@ == spec_cpu_name(i as nat),
{
    let mut s = String::from_str("cpu");
    let digits = decimal_string(i);
    s.append(digits.as_str());
    s
}

/// Identification shared by every logical CPU of the machine.
#[derive(Debug)]
pub struct ProcCommon {
    pub frequency: u64,
    pub vendor_id: String,
    pub brand: String,
}

impl Default for ProcCommon {
    fn default() -> (r: Self)
        ensures
            r.frequency == 0,
            r.vendor_id@ == Seq::<char>::empty(),
            r.brand@ == Seq::<char>::empty(),
    {
        ProcCommon { frequency: 0, vendor_id: String::new(), brand: String::new() }
    }
}

impl ProcCommon {
    /// An owned copy with the same value.
    pub fn duplicate(&self) -> (r: Self)
        ensures
            r == *self,
    {
        ProcCommon {
            frequency: self.frequency,
            vendor_id: self.vendor_id.clone(),
            brand: self.brand.clone(),
        }
    }
}

/// One logical CPU: its identity, the current and previous time sample, and
/// the usage derived from the pair.
#[derive(Debug)]
pub struct Processor {
    pub cpu_id: String,
    pub cp_time: CpuTime,
    pub last_cp_time: CpuTime,
    pub cpu_pct: CpuPct,
    pub common: ProcCommon,
}

/// Installing a new sample: the current sample becomes the previous one.
pub open spec fn spec_update_cp_time(p: Processor, t: CpuTime) -> Processor {
    Processor { last_cp_time: p.cp_time, cp_time: t, ..p }
}

/// Recomputing the usage: when the sample pair spans a positive tick delta,
/// the usage is derived from it; otherwise the previous usage is held
/// unchanged rather than dividing by zero or collapsing to zero.
pub open spec fn spec_refresh_usage(p: Processor) -> Processor {
    if p.cp_time.total_delta(p.last_cp_time) > 0 {
        Processor { cpu_pct: usage_between(p.cp_time, p.last_cp_time), ..p }
    } else {
        p
    }
}

/// The same processor with new shared identification.
pub open spec fn spec_set_common(p: Processor, common: ProcCommon) -> Processor {
    Processor { common: common, ..p }
}

impl Processor {
    /// A freshly discovered CPU: zeroed samples and zero usage.
    pub fn new(common: ProcCommon) -> (r: Self)
        ensures
            r.cpu_id@ == "cpu0"@,
            r.cp_time == CpuTime::zero(),
            r.last_cp_time == CpuTime::zero(),
            r.cpu_pct == CpuPct::zero(),
            r.common == common,
    {
        Processor {
            cpu_id: String::from_str("cpu0"),
            cp_time: CpuTime::default(),
            last_cp_time: CpuTime::default(),
            cpu_pct: CpuPct::default(),
            common,
        }
    }

    /// Installs a new cumulative sample; the previous current sample becomes
    /// the baseline of the next interval.
    pub fn update_cp_time(&mut self, cp_time: CpuTime)
        ensures
            *final(self) == spec_update_cp_time(*old(self), cp_time),
    {
        self.last_cp_time = self.cp_time;
        self.cp_time = cp_time;
    }

    /// Refreshes the shared identification and re-derives the usage from the
    /// stored sample pair.
    pub fn refresh_all(&mut self, common: ProcCommon)
        ensures
            *final(self) == spec_refresh_usage(spec_set_common(*old(self), common)),
    {
        self.common = common;
        self.refresh_and_get_cpu_usages();
    }

    fn refresh_and_get_cpu_usages(&mut self)
        ensures
            *final(self) == spec_refresh_usage(*old(self)),
    {
        if let Some(pct_diff) = self.cp_time.pct_diff(&self.last_cp_time) {
            self.cpu_pct = pct_diff;
        }
    }

    /// Renames the CPU.
    pub fn set_cpu_id(&mut self, cpu_id: String)
        ensures
            *final(self) == (Processor { cpu_id: cpu_id, ..*old(self) }),
    {
        self.cpu_id = cpu_id;
    }

    /// The busy percentage of the last interval, in fixed-point units.
    pub fn get_cpu_usage(&self) -> (r: u64)
        requires
            self.cpu_pct.wf(),
        ensures
            r == self.cpu_pct.user_pct + self.cpu_pct.nice_pct + self.cpu_pct.system_pct
                + self.cpu_pct.interrupt_pct,
    {
        self.cpu_pct.non_idle_pct()
    }

    pub fn get_name(&self) -> (r: &str)
        ensures
            r@ == self.cpu_id@,
    {
        self.cpu_id.as_str()
    }

    pub fn get_vendor_id(&self) -> (r: &str)
        ensures
            r@ == self.common.vendor_id@,
    {
        self.common.vendor_id.as_str()
    }

    pub fn get_brand(&self) -> (r: &str)
        ensures
            r@ == self.common.brand@,
    {
        self.common.brand.as_str()
    }

    pub fn get_frequency(&self) -> (r: u64)
        ensures
            r == self.common.frequency,
    {
        self.common.frequency
    }
}

/// One raw observation of the processor subsystem, handed in by the OS
/// adapter. A `None` field means the underlying query failed; the sampler
/// then keeps the previous value of that aspect.
pub struct ProcessorSnapshot {
    /// The current logical CPU count.
    pub num_cpus: Option<u8>,
    pub vendor_id: Option<String>,
    pub brand: Option<String>,
    pub frequency: Option<u64>,
    /// The cumulative tick buckets of all CPUs as one flat array, five
    /// values per CPU, in CPU-index order.
    pub cp_times: Option<Vec<u64>>,
}

/// The sample encoded at chunk `i` of a flat tick array.
pub open spec fn chunk_time(ts: Seq<u64>, i: int) -> CpuTime {
    CpuTime {
        user_time: ts[5 * i],
        nice_time: ts[5 * i + 1],
        system_time: ts[5 * i + 2],
        interrupt_time: ts[5 * i + 3],
        idle_time: ts[5 * i + 4],
    }
}

pub open spec fn sum_user(s: Seq<Processor>) -> int
    decreases s.len(),
{
    if s.len() == 0 {
        0
    } else {
        sum_user(s.drop_last()) + s.last().cpu_pct.user_pct
    }
}

pub open spec fn sum_nice(s: Seq<Processor>) -> int
    decreases s.len(),
{
    if s.len() == 0 {
        0
    } else {
        sum_nice(s.drop_last()) + s.last().cpu_pct.nice_pct
    }
}

pub open spec fn sum_system(s: Seq<Processor>) -> int
    decreases s.len(),
{
    if s.len() == 0 {
        0
    } else {
        sum_system(s.drop_last()) + s.last().cpu_pct.system_pct
    }
}

pub open spec fn sum_interrupt(s: Seq<Processor>) -> int
    decreases s.len(),
{
    if s.len() == 0 {
        0
    } else {
        sum_interrupt(s.drop_last()) + s.last().cpu_pct.interrupt_pct
    }
}

pub open spec fn sum_idle(s: Seq<Processor>) -> int
    decreases s.len(),
{
    if s.len() == 0 {
        0
    } else {
        sum_idle(s.drop_last()) + s.last().cpu_pct.idle_pct
    }
}

/// The entity-count-weighted average of the per-core usages: the
/// component-wise sum divided by the CPU count.
pub open spec fn global_avg(s: Seq<Processor>, n: int) -> CpuPct {
    CpuPct {
        user_pct: (sum_user(s) / n) as u64,
        nice_pct: (sum_nice(s) / n) as u64,
        system_pct: (sum_system(s) / n) as u64,
        interrupt_pct: (sum_interrupt(s) / n) as u64,
        idle_pct: (sum_idle(s) / n) as u64,
    }
}

/// A set of processors: one tracker per logical CPU plus one synthetic
/// global aggregate.
#[derive(Debug)]
pub struct ProcessorSet {
    pub num_cpus: u8,
    pub cpus: Vec<Processor>,
    pub common: ProcCommon,
    pub global: Processor,
}

/// The CPU count after a refresh: the observed count when the query
/// succeeded, the previous count otherwise.
pub open spec fn new_count(pre: ProcessorSet, snap: ProcessorSnapshot) -> int {
    match snap.num_cpus {
        Some(n) => n as int,
        None => pre.num_cpus as int,
    }
}

/// Whether a refresh with `snap` re-sizes the CPU collection (and renames
/// every entry by its index). A matching count is a no-op.
pub open spec fn resizes(pre: ProcessorSet, snap: ProcessorSnapshot) -> bool {
    match snap.num_cpus {
        Some(n) => n as int != pre.cpus@.len(),
        None => false,
    }
}

/// The (current, previous) sample pair of entry `i` after the tick refresh:
/// updated from chunk `i` when the flat array holds one, untouched
/// otherwise.
pub open spec fn stepped_pair(cp: CpuTime, last: CpuTime, ts: Option<Vec<u64>>, i: int) -> (
    CpuTime,
    CpuTime,
) {
    match ts {
        Some(v) => if 5 * i + 5 <= v@.len() {
            (chunk_time(v@, i), cp)
        } else {
            (cp, last)
        },
        None => (cp, last),
    }
}

/// The usage of an entry after a refresh: re-derived when the new sample
/// pair spans a positive tick delta, held unchanged otherwise.
pub open spec fn stepped_pct(cp: CpuTime, last: CpuTime, pre_pct: CpuPct) -> CpuPct {
    if cp.total_delta(last) > 0 {
        usage_between(cp, last)
    } else {
        pre_pct
    }
}

/// How entry `i` of the CPU collection evolves across one full refresh:
/// an entry beyond the previous collection starts zeroed, then the sample
/// pair and the usage step as the snapshot dictates.
pub open spec fn cpu_entry_rel(
    pre: ProcessorSet,
    post: ProcessorSet,
    snap: ProcessorSnapshot,
    i: int,
) -> bool {
    let base_cp = if i < pre.cpus@.len() {
        pre.cpus@[i].cp_time
    } else {
        CpuTime::zero()
    };
    let base_last = if i < pre.cpus@.len() {
        pre.cpus@[i].last_cp_time
    } else {
        CpuTime::zero()
    };
    let base_pct = if i < pre.cpus@.len() {
        pre.cpus@[i].cpu_pct
    } else {
        CpuPct::zero()
    };
    let pair = stepped_pair(base_cp, base_last, snap.cp_times, i);
    &&& post.cpus@[i].cp_time == pair.0
    &&& post.cpus@[i].last_cp_time == pair.1
    &&& post.cpus@[i].cpu_pct == stepped_pct(pair.0, pair.1, base_pct)
    &&& post.cpus@[i].common == post.common
    &&& post.cpus@[i].cpu_id@ == if resizes(pre, snap) {
        spec_cpu_name(i as nat)
    } else {
        pre.cpus@[i].cpu_id@
    }
}

/// The full contract of [`ProcessorSet::refresh_all`]: how the collection,
/// the shared identification and the global aggregate after the refresh
/// relate to the state before it and to the snapshot.
pub open spec fn refresh_all_rel(
    pre: ProcessorSet,
    post: ProcessorSet,
    snap: ProcessorSnapshot,
) -> bool {
    let n = new_count(pre, snap);
    &&& post.num_cpus as int == n
    &&& post.cpus@.len() == n
    &&& forall|i: int| 0 <= i < n ==> #[trigger] cpu_entry_rel(pre, post, snap, i)
    &&& post.common.frequency == match snap.frequency {
        Some(f) => f,
        None => pre.common.frequency,
    }
    &&& post.common.vendor_id@ == match snap.vendor_id {
        Some(s) => s@,
        None => pre.common.vendor_id@,
    }
    &&& post.common.brand@ == match snap.brand {
        Some(s) => s@,
        None => pre.common.brand@,
    }
    &&& post.global.cpu_id@ == pre.global.cpu_id@
    &&& post.global.cp_time == pre.global.cp_time
    &&& post.global.last_cp_time == pre.global.last_cp_time
    &&& post.global.common == pre.global.common
    &&& post.global.cpu_pct == if n > 0 {
        global_avg(post.cpus@, n)
    } else {
        CpuPct::zero()
    }
}

impl ProcessorSet {
    /// The collection is consistent: the stored count matches the
    /// collection's length and every stored usage is a valid percentage
    /// vector.
    pub open spec fn wf(self) -> bool {
        &&& self.num_cpus as int == self.cpus@.len()
        &&& forall|i: int|
            0 <= i < self.cpus@.len() ==> (#[trigger] self.cpus@[i]).cpu_pct.wf()
        &&& self.global.cpu_pct.wf()
    }

    /// An empty set; the first refresh discovers the CPUs.
    pub fn new() -> (r: Self)
        ensures
            r.wf(),
            r.num_cpus == 0,
            r.cpus@.len() == 0,
            r.common.frequency == 0,
            r.common.vendor_id@ == Seq::<char>::empty(),
            r.common.brand@ == Seq::<char>::empty(),
            r.global.cpu_id@ == "global"@,
            r.global.cp_time == CpuTime::zero(),
            r.global.last_cp_time == CpuTime::zero(),
            r.global.cpu_pct == CpuPct::zero(),
            r.global.common == r.common,
    {
        let common = ProcCommon::default();
        let mut global = Processor::new(common.duplicate());
        global.set_cpu_id(String::from_str("global"));
        ProcessorSet { num_cpus: 0, cpus: Vec::new(), common, global }
    }

    pub fn get_cpus(&self) -> (r: &Vec<Processor>)
        ensures
            *r == self.cpus,
    {
        &self.cpus
    }

    pub fn get_global_processor(&self) -> (r: &Processor)
        ensures
            *r == self.global,
    {
        &self.global
    }

    /// The number of logical CPUs seen by the last count refresh.
    pub fn num_cpus(&self) -> (r: u8)
        ensures
            r == self.num_cpus,
    {
        self.num_cpus
    }

    /// Applies a freshly observed CPU count. A matching count is a no-op;
    /// a decrease truncates the collection from the tail; an increase grows
    /// it with zeroed entries. When the count changed, every entry is
    /// (re)named by its index.
    pub fn refresh_num_cpus(&mut self, hw_ncpu: u8)
        requires
            old(self).wf(),
        ensures
            final(self).wf(),
            final(self).num_cpus == hw_ncpu,
            final(self).common == old(self).common,
            final(self).global == old(self).global,
            hw_ncpu == old(self).num_cpus ==> final(self).cpus@ == old(self).cpus@,
            final(self).cpus@.len() == hw_ncpu as int,
            forall|i: int|
                0 <= i < hw_ncpu as int && i < old(self).cpus@.len() ==> {
                    &&& (#[trigger] final(self).cpus@[i]).cp_time == old(self).cpus@[i].cp_time
                    &&& final(self).cpus@[i].last_cp_time == old(self).cpus@[i].last_cp_time
                    &&& final(self).cpus@[i].cpu_pct == old(self).cpus@[i].cpu_pct
                    &&& final(self).cpus@[i].common == old(self).cpus@[i].common
                },
            forall|i: int|
                old(self).cpus@.len() <= i < hw_ncpu as int ==> {
                    &&& (#[trigger] final(self).cpus@[i]).cp_time == CpuTime::zero()
                    &&& final(self).cpus@[i].last_cp_time == CpuTime::zero()
                    &&& final(self).cpus@[i].cpu_pct == CpuPct::zero()
                    &&& final(self).cpus@[i].common == old(self).common
                },
            hw_ncpu != old(self).num_cpus ==> forall|i: int|
                0 <= i < hw_ncpu as int ==> (#[trigger] final(self).cpus@[i]).cpu_id@
                    == spec_cpu_name(i as nat),
    {
        let n = hw_ncpu as usize;
        self.num_cpus = hw_ncpu;
        if n != self.cpus.len() {
            let ghost pre = *self;
            if n < self.cpus.len() {
                self.cpus.truncate(n);
            } else {
                while self.cpus.len() < n
                    invariant
                        pre.cpus@.len() <= self.cpus@.len() <= n,
                        n <= 255,
                        self.cpus@.subrange(0, pre.cpus@.len() as int) == pre.cpus@,
                        forall|i: int|
                            pre.cpus@.len() <= i < self.cpus@.len() ==> {
                                &&& (#[trigger] self.cpus@[i]).cp_time == CpuTime::zero()
                                &&& self.cpus@[i].last_cp_time == CpuTime::zero()
                                &&& self.cpus@[i].cpu_pct == CpuPct::zero()
                                &&& self.cpus@[i].common == pre.common
                            },
                        self.common == pre.common,
                        self.num_cpus == hw_ncpu,
                        self.global == pre.global,
                    decreases n - self.cpus@.len(),
                {
                    let fresh = Processor::new(self.common.duplicate());
                    self.cpus.push(fresh);
                    proof {
                        assert(self.cpus@.subrange(0, pre.cpus@.len() as int) =~= pre.cpus@);
                    }
                }
            }
            let ghost mid = *self;
            let mut i: usize = 0;
            while i < self.cpus.len()
                invariant
                    0 <= i <= self.cpus@.len(),
                    self.cpus@.len() == mid.cpus@.len(),
                    forall|j: int|
                        i <= j < self.cpus@.len() ==> #[trigger] self.cpus@[j] == mid.cpus@[j],
                    forall|j: int|
                        0 <= j < i ==> {
                            &&& (#[trigger] self.cpus@[j]).cpu_id@ == spec_cpu_name(j as nat)
                            &&& self.cpus@[j].cp_time == mid.cpus@[j].cp_time
                            &&& self.cpus@[j].last_cp_time == mid.cpus@[j].last_cp_time
                            &&& self.cpus@[j].cpu_pct == mid.cpus@[j].cpu_pct
                            &&& self.cpus@[j].common == mid.cpus@[j].common
                        },
                    self.cpus@.len() <= 255,
                    self.common == mid.common,
                    self.num_cpus == mid.num_cpus,
                    self.global == mid.global,
                decreases self.cpus@.len() - i,
            {
                let name = cpu_name(i as u8);
                self.cpus[i].set_cpu_id(name);
                i = i + 1;
            }
            proof {
                assert forall|j: int| 0 <= j < self.cpus@.len() implies (#[trigger] self.cpus@[j]).cpu_pct.wf() by {
                    if j < pre.cpus@.len() {
                        assert(mid.cpus@[j] == pre.cpus@[j]);
                        assert(pre.cpus@[j].cpu_pct.wf());
                    } else {
                        assert(mid.cpus@[j].cpu_pct == CpuPct::zero());
                    }
                }
            }
        }
    }

    /// Installs the tick samples of a flat `cp_times` array: chunk `i`
    /// updates CPU `i`. CPUs beyond the array, and chunks beyond the
    /// collection, are left untouched.
    fn refresh_cp_times(&mut self, times: &Vec<u64>)
        requires
            old(self).wf(),
        ensures
            final(self).wf(),
            final(self).cpus@.len() == old(self).cpus@.len(),
            forall|i: int|
                0 <= i < old(self).cpus@.len() ==> #[trigger] final(self).cpus@[i] == (if 5 * i + 5
                    <= times@.len() {
                    spec_update_cp_time(old(self).cpus@[i], chunk_time(times@, i))
                } else {
                    old(self).cpus@[i]
                }),
            final(self).num_cpus == old(self).num_cpus,
            final(self).common == old(self).common,
            final(self).global == old(self).global,
    {
        let ghost pre = *self;
        let mut i: usize = 0;
        while i < self.cpus.len() && 5 * i + 5 <= times.len()
            invariant
                0 <= i <= self.cpus@.len(),
                self.cpus@.len() == pre.cpus@.len() <= 255,
                forall|j: int|
                    0 <= j < i ==> #[trigger] self.cpus@[j] == (if 5 * j + 5 <= times@.len() {
                        spec_update_cp_time(pre.cpus@[j], chunk_time(times@, j))
                    } else {
                        pre.cpus@[j]
                    }),
                forall|j: int|
                    i <= j < self.cpus@.len() ==> #[trigger] self.cpus@[j] == pre.cpus@[j],
                i < self.cpus@.len() ==> 5 * i + 5 <= usize::MAX,
                self.num_cpus == pre.num_cpus,
                self.common == pre.common,
                self.global == pre.global,
                forall|j: int| 0 <= j < pre.cpus@.len() ==> (#[trigger] pre.cpus@[j]).cpu_pct.wf(),
            decreases self.cpus@.len() - i,
        {
            let base = 5 * i;
            let t = CpuTime {
                user_time: times[base],
                nice_time: times[base + 1],
                system_time: times[base + 2],
                interrupt_time: times[base + 3],
                idle_time: times[base + 4],
            };
            self.cpus[i].update_cp_time(t);
            i = i + 1;
        }
    }

    /// One full refresh of the processor subsystem from a raw snapshot:
    /// applies the observed CPU count, identification and tick samples
    /// (each only where the corresponding query succeeded), re-derives every
    /// per-core usage, and recomputes the global aggregate as the average of
    /// the per-core usages. With a zero CPU count the global aggregate is
    /// the all-zero default — the sum over an empty collection — and nothing
    /// divides by zero.
    #[verifier::rlimit(60)]
    pub fn refresh_all(&mut self, snap: &ProcessorSnapshot)
        requires
            old(self).wf(),
        ensures
            final(self).wf(),
            refresh_all_rel(*old(self), *final(self), *snap),
    {
        let ghost pre = *self;
        if let Some(n) = snap.num_cpus {
            self.refresh_num_cpus(n);
        }
        let ghost s1 = *self;
        if let Some(s) = &snap.vendor_id {
            self.common.vendor_id = s.clone();
        }
        if let Some(s) = &snap.brand {
            self.common.brand = s.clone();
        }
        if let Some(f) = snap.frequency {
            self.common.frequency = f;
        }
        if let Some(ts) = &snap.cp_times {
            self.refresh_cp_times(ts);
        }
        let ghost s3 = *self;
        let mut i: usize = 0;
        while i < self.cpus.len()
            invariant
                0 <= i <= self.cpus@.len(),
                self.cpus@.len() == s3.cpus@.len() <= 255,
                forall|j: int|
                    0 <= j < i ==> #[trigger] self.cpus@[j] == spec_refresh_usage(
                        spec_set_common(s3.cpus@[j], s3.common),
                    ),
                forall|j: int|
                    i <= j < self.cpus@.len() ==> #[trigger] self.cpus@[j] == s3.cpus@[j],
                self.num_cpus == s3.num_cpus,
                self.common == s3.common,
                self.global == s3.global,
            decreases self.cpus@.len() - i,
        {
            let common = self.common.duplicate();
            self.cpus[i].refresh_all(common);
            i = i + 1;
        }
        let ghost s4 = *self;
        let mut acc = CpuPct { user_pct: 0, nice_pct: 0, system_pct: 0, interrupt_pct: 0, idle_pct: 0 };
        let mut k: usize = 0;
        proof {
            assert(self.cpus@.take(0) =~= Seq::<Processor>::empty());
            assert forall|j: int| 0 <= j < self.cpus@.len() implies (#[trigger] self.cpus@[j]).cpu_pct.wf() by {
                if s3.cpus@[j].cp_time.total_delta(s3.cpus@[j].last_cp_time) > 0 {
                    lemma_usage_between_wf(s3.cpus@[j].cp_time, s3.cpus@[j].last_cp_time);
                } else {
                    assert(self.cpus@[j].cpu_pct == s3.cpus@[j].cpu_pct);
                }
            }
        }
        while k < self.cpus.len()
            invariant
                0 <= k <= self.cpus@.len(),
                self.cpus@.len() <= 255,
                forall|j: int|
                    0 <= j < self.cpus@.len() ==> (#[trigger] self.cpus@[j]).cpu_pct.wf(),
                acc.user_pct == sum_user(self.cpus@.take(k as int)),
                acc.nice_pct == sum_nice(self.cpus@.take(k as int)),
                acc.system_pct == sum_system(self.cpus@.take(k as int)),
                acc.interrupt_pct == sum_interrupt(self.cpus@.take(k as int)),
                acc.idle_pct == sum_idle(self.cpus@.take(k as int)),
                acc.user_pct <= k * PCT_FULL,
                acc.nice_pct <= k * PCT_FULL,
                acc.system_pct <= k * PCT_FULL,
                acc.interrupt_pct <= k * PCT_FULL,
                acc.idle_pct <= k * PCT_FULL,
                *self == s4,
            decreases self.cpus@.len() - k,
        {
            proof {
                assert(self.cpus@.take(k + 1).drop_last() =~= self.cpus@.take(k as int));
                assert(self.cpus@.take(k + 1).last() == self.cpus@[k as int]);
            }
            acc = acc.add(self.cpus[k].cpu_pct);
            k = k + 1;
        }
        proof {
            assert(self.cpus@.take(self.cpus@.len() as int) =~= self.cpus@);
        }
        if self.num_cpus > 0 {
            proof {
                vstd::arithmetic::div_mod::lemma_div_pos_is_pos(acc.user_pct as int, self.num_cpus as int);
                vstd::arithmetic::div_mod::lemma_div_pos_is_pos(acc.nice_pct as int, self.num_cpus as int);
                vstd::arithmetic::div_mod::lemma_div_pos_is_pos(acc.system_pct as int, self.num_cpus as int);
                vstd::arithmetic::div_mod::lemma_div_pos_is_pos(acc.interrupt_pct as int, self.num_cpus as int);
                vstd::arithmetic::div_mod::lemma_div_pos_is_pos(acc.idle_pct as int, self.num_cpus as int);
            }
            acc.div_assign(self.num_cpus);
            proof {
                lemma_global_avg_wf(s4.cpus@, s4.num_cpus as int);
            }
        }
        self.global.cpu_pct = acc;
        proof {
            let n = new_count(pre, *snap);
            assert forall|i2: int| 0 <= i2 < n implies #[trigger] cpu_entry_rel(
                pre,
                *self,
                *snap,
                i2,
            ) by {
                let base_cp = if i2 < pre.cpus@.len() {
                    pre.cpus@[i2].cp_time
                } else {
                    CpuTime::zero()
                };
                let base_last = if i2 < pre.cpus@.len() {
                    pre.cpus@[i2].last_cp_time
                } else {
                    CpuTime::zero()
                };
                let base_pct = if i2 < pre.cpus@.len() {
                    pre.cpus@[i2].cpu_pct
                } else {
                    CpuPct::zero()
                };
                assert(s1.cpus@[i2].cp_time == base_cp);
                assert(s1.cpus@[i2].last_cp_time == base_last);
                assert(s1.cpus@[i2].cpu_pct == base_pct);
                assert(s3.cpus@.len() == s1.cpus@.len());
                let pair = stepped_pair(base_cp, base_last, snap.cp_times, i2);
                assert(s3.cpus@[i2].cp_time == pair.0);
                assert(s3.cpus@[i2].last_cp_time == pair.1);
                assert(s3.cpus@[i2].cpu_pct == base_pct);
                assert(self.cpus@[i2] == spec_refresh_usage(
                    spec_set_common(s3.cpus@[i2], s3.common),
                ));
                assert(self.cpus@[i2].cpu_pct == stepped_pct(pair.0, pair.1, base_pct));
                assert(self.cpus@[i2].cpu_id@ == s1.cpus@[i2].cpu_id@);
            }
        }
    }
}

/// The average of well-formed usages is a well-formed usage.
proof fn lemma_global_avg_wf(s: Seq<Processor>, n: int)
    requires
        n >= 1,
        s.len() <= n,
        forall|i: int| 0 <= i < s.len() ==> (#[trigger] s[i]).cpu_pct.wf(),
    ensures
        0 <= sum_user(s) <= s.len() * PCT_FULL,
        0 <= sum_nice(s) <= s.len() * PCT_FULL,
        0 <= sum_system(s) <= s.len() * PCT_FULL,
        0 <= sum_interrupt(s) <= s.len() * PCT_FULL,
        0 <= sum_idle(s) <= s.len() * PCT_FULL,
        global_avg(s, n).wf(),
    decreases s.len(),
{
    if s.len() == 0 {
    } else {
        assert forall|i: int| 0 <= i < s.drop_last().len() implies (#[trigger] s.drop_last()[i]).cpu_pct.wf() by {
            assert(s.drop_last()[i] == s[i]);
        }
        lemma_global_avg_wf(s.drop_last(), n);
    }
    assert(s.len() * PCT_FULL <= n * PCT_FULL) by (nonlinear_arith)
        requires
            s.len() <= n,
    ;
    lemma_avg_le_full(sum_user(s), n);
    lemma_avg_le_full(sum_nice(s), n);
    lemma_avg_le_full(sum_system(s), n);
    lemma_avg_le_full(sum_interrupt(s), n);
    lemma_avg_le_full(sum_idle(s), n);
}

/// A sum of at most `n` full percentages, divided by `n`, is at most a full
/// percentage.
proof fn lemma_avg_le_full(x: int, n: int)
    requires
        n >= 1,
        0 <= x <= n * PCT_FULL,
    ensures
        0 <= x / n <= PCT_FULL,
{
    vstd::arithmetic::div_mod::lemma_div_pos_is_pos(x, n);
    lemma_div_is_ordered(x, n * PCT_FULL, n);
    assert((n * PCT_FULL) / n == PCT_FULL) by (nonlinear_arith)
        requires
            n >= 1,
    ;
}

/// Two CPU collections with pointwise equal usages have equal usage sums.
proof fn lemma_sums_congruent(a: Seq<Processor>, b: Seq<Processor>)
    requires
        a.len() == b.len(),
        forall|i: int| 0 <= i < a.len() ==> (#[trigger] a[i]).cpu_pct == b[i].cpu_pct,
    ensures
        sum_user(a) == sum_user(b),
        sum_nice(a) == sum_nice(b),
        sum_system(a) == sum_system(b),
        sum_interrupt(a) == sum_interrupt(b),
        sum_idle(a) == sum_idle(b),
    decreases a.len(),
{
    if a.len() > 0 {
        assert forall|i: int|
            0 <= i < a.drop_last().len() implies (#[trigger] a.drop_last()[i]).cpu_pct
            == b.drop_last()[i].cpu_pct by {
            assert(a.drop_last()[i] == a[i]);
            assert(b.drop_last()[i] == b[i]);
        }
        lemma_sums_congruent(a.drop_last(), b.drop_last());
        assert(a.last() == a[a.len() - 1]);
        assert(b.last() == b[b.len() - 1]);
    }
}

/// Refreshing the processor subsystem twice with one unchanged raw snapshot
/// yields identical usage on both refreshes: the second refresh makes the
/// previous sample equal to the current one, every tick delta becomes zero,
/// and every usage — per-core and global — is held.
pub proof fn lemma_refresh_cpu_idempotent(
    s0: ProcessorSet,
    s1: ProcessorSet,
    s2: ProcessorSet,
    snap: ProcessorSnapshot,
)
    requires
        refresh_all_rel(s0, s1, snap),
        refresh_all_rel(s1, s2, snap),
    ensures
        s2.cpus@.len() == s1.cpus@.len(),
        forall|i: int|
            0 <= i < s1.cpus@.len() ==> (#[trigger] s2.cpus@[i]).cpu_pct == s1.cpus@[i].cpu_pct,
        s2.global.cpu_pct == s1.global.cpu_pct,
{
    let n = new_count(s0, snap);
    assert(new_count(s1, snap) == n);
    assert forall|i: int|
        0 <= i < s1.cpus@.len() implies (#[trigger] s2.cpus@[i]).cpu_pct == s1.cpus@[i].cpu_pct by {
        assert(cpu_entry_rel(s0, s1, snap, i));
        assert(cpu_entry_rel(s1, s2, snap, i));
        match snap.cp_times {
            Some(v) => {
                if 5 * i + 5 <= v@.len() {
                    let c = chunk_time(v@, i);
                    assert(s1.cpus@[i].cp_time == c);
                    assert(c.total_delta(c) == 0);
                }
            },
            None => {},
        }
    }
    if n > 0 {
        lemma_sums_congruent(s2.cpus@, s1.cpus@);
    }
}

} // verus!
