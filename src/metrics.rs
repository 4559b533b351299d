//! Readings as the metrics source hands them over, the values derived from
//! them, and the rules that derive them.
use vstd::prelude::*;

verus! {

/// Bytes in a gigabyte (binary).
pub const GB: u64 = 1073741824;

/// Why a field of a tick produced no new value.
#[derive(Clone, Copy, Debug, PartialEq, Eq, Structural)]
pub enum MetricError {
    /// The platform could not supply the field this tick.
    SourceUnavailable,
    /// The configuration selects nothing that the source offers.
    ConfigurationError,
}

/// `used` as a percentage of `total`, rounded up: 0 when `total` is 0 or
/// nothing is used, 100 when `used` reaches `total`.
pub open spec fn normalized(used: nat, total: nat) -> nat {
    if total == 0 || used == 0 {
        0
    } else if used >= total {
        100
    } else {
        ((100 * used + total - 1) / total as int) as nat
    }
}

/// The share of `total` that `used` takes, as a whole percentage in
/// `[0, 100]`, rounded up; never undefined, also when `total` is 0.
pub fn normalize(used: u64, total: u64) -> (r: u64)
    ensures
        r as nat == normalized(used as nat, total as nat),
        r <= 100,
{
    if total == 0 || used == 0 {
        0
    } else if used >= total {
        100
    } else {
        let n: u128 = 100 * (used as u128) + (total as u128) - 1;
        let q: u128 = n / (total as u128);
        assert(q <= 100) by (nonlinear_arith)
            requires
                q == n / (total as u128),
                n == 100 * (used as u128) + (total as u128) - 1,
                (used as u128) < (total as u128),
                total > 0,
        {
            assert(n < 101 * (total as u128));
        }
        q as u64
    }
}

/// The sum of a sequence of readings.
pub open spec fn sum_of(s: Seq<u64>) -> nat
    decreases s.len(),
{
    if s.len() == 0 {
        0
    } else {
        sum_of(s.drop_last()) + s.last() as nat
    }
}

/// The mean of per-core utilizations given in hundredths of a percent, as a
/// whole percentage rounded down; 0 when there are no cores.
pub open spec fn mean_cpu_percent(per_core: Seq<u64>) -> nat {
    if per_core.len() == 0 {
        0
    } else {
        sum_of(per_core) / (100 * per_core.len())
    }
}

proof fn lemma_sum_bounded(s: Seq<u64>)
    ensures
        sum_of(s) <= s.len() * (u64::MAX as nat),
    decreases s.len(),
{
    if s.len() > 0 {
        lemma_sum_bounded(s.drop_last());
        assert(sum_of(s.drop_last()) + s.last() as nat <= s.len() * (u64::MAX as nat)) by (nonlinear_arith)
            requires
                sum_of(s.drop_last()) <= (s.len() - 1) * (u64::MAX as nat),
                s.last() <= u64::MAX,
        ;
    }
}

/// CPU usage: the mean of the per-core utilizations (hundredths of a
/// percent each), divided exactly and truncated only once, to a whole
/// percentage.
pub fn cpu_usage_percent(per_core: &Vec<u64>) -> (r: u64)
    ensures
        r as nat == mean_cpu_percent(per_core@),
{
    let n = per_core.len();
    if n == 0 {
        return 0;
    }
    let mut sum: u128 = 0;
    let mut i: usize = 0;
    while i < n
        invariant
            n == per_core@.len(),
            i <= n,
            sum as nat == sum_of(per_core@.subrange(0, i as int)),
        decreases n - i,
    {
        proof {
            let prefix = per_core@.subrange(0, i as int + 1);
            assert(prefix.drop_last() =~= per_core@.subrange(0, i as int));
            lemma_sum_bounded(prefix);
            assert(prefix.len() * (u64::MAX as nat) <= (usize::MAX as nat) * (u64::MAX as nat)) by (nonlinear_arith)
                requires prefix.len() <= usize::MAX;
        }
        sum = sum + per_core[i] as u128;
        i += 1;
    }
    assert(per_core@.subrange(0, n as int) =~= per_core@);
    let d: u128 = 100 * (n as u128);
    let q: u128 = sum / d;
    proof {
        lemma_sum_bounded(per_core@);
        assert(q <= u64::MAX) by (nonlinear_arith)
            requires
                q == sum / d,
                d == 100 * (n as u128),
                n >= 1,
                sum <= n * (u64::MAX as nat),
        {
            assert(sum / d <= sum / (n as u128));
            assert(sum / (n as u128) <= u64::MAX);
        }
    }
    q as u64
}

/// Traffic counters of one network interface, in bytes: totals since boot and
/// the amounts since the previous refresh.
#[derive(Clone, Copy, Debug, PartialEq, Eq, Structural)]
pub struct NetworkData {
    pub total_rx: u64,
    pub rx_per_second: u64,
    pub total_tx: u64,
    pub tx_per_second: u64,
}

impl NetworkData {
    /// All counters at zero.
    pub open spec fn zero_spec() -> NetworkData {
        NetworkData { total_rx: 0, rx_per_second: 0, total_tx: 0, tx_per_second: 0 }
    }

    /// All counters at zero: the value before any interface was read.
    pub fn zero() -> (r: NetworkData)
        ensures
            r == NetworkData::zero_spec(),
    {
        NetworkData { total_rx: 0, rx_per_second: 0, total_tx: 0, tx_per_second: 0 }
    }
}

/// One disk as the metrics source reports it: sizes in bytes.
#[derive(Clone, Debug, PartialEq, Eq)]
pub struct DiskReading {
    pub name: String,
    pub total_space: u64,
    pub available_space: u64,
}

/// One disk as consumers see it.
#[derive(Clone, Debug, PartialEq, Eq)]
pub struct DiskUsageData {
    pub name: String,
    /// Used share of the disk, in hundredths of a percent.
    pub used_space: u64,
    /// Available space, in hundredths of a gigabyte.
    pub free_space: u64,
}

/// One temperature sensor.
#[derive(Clone, Debug, PartialEq, Eq)]
pub struct ComponentTemperature {
    pub label: String,
    /// Hundredths of a degree Celsius.
    pub temperature: i64,
}

/// One process.
#[derive(Clone, Debug, PartialEq, Eq)]
pub struct ProcessInfo {
    pub pid: u32,
    pub name: String,
    /// Resident memory, in bytes.
    pub memory_usage: u64,
    /// CPU usage, in hundredths of a percent.
    pub cpu_usage: u64,
}

/// One network interface as the metrics source reports it.
#[derive(Clone, Debug, PartialEq, Eq)]
pub struct InterfaceReading {
    pub name: String,
    pub total_received: u64,
    pub received: u64,
    pub total_transmitted: u64,
    pub transmitted: u64,
}

/// The used share of a disk in hundredths of a percent, rounded down; 0 for a
/// disk of size 0 and for one that reports more available than its size.
pub open spec fn used_hundredths(total: nat, available: nat) -> nat {
    if total == 0 || available >= total {
        0
    } else {
        (((total - available) * 10000) / total as int) as nat
    }
}

/// `bytes` in hundredths of a gigabyte, rounded down.
pub open spec fn gb_hundredths(bytes: nat) -> nat {
    ((bytes * 100) as int / (GB as int)) as nat
}

/// What consumers see of a disk reading.
pub open spec fn disk_usage_of(d: DiskReading, u: DiskUsageData) -> bool {
    &&& u.name@ == d.name@
    &&& u.used_space as nat == used_hundredths(d.total_space as nat, d.available_space as nat)
    &&& u.free_space as nat == gb_hundredths(d.available_space as nat)
}

/// Derives the consumer view of one disk: its used share and its free space.
pub fn disk_usage(d: &DiskReading) -> (r: DiskUsageData)
    ensures
        disk_usage_of(*d, r),
{
    let used: u64 = if d.total_space == 0 || d.available_space >= d.total_space {
        0
    } else {
        let diff: u128 = (d.total_space - d.available_space) as u128;
        let prod: u128 = diff * 10000;
        let total: u128 = d.total_space as u128;
        let q: u128 = prod / total;
        assert(q <= 10000) by (nonlinear_arith)
            requires
                q == prod / total,
                prod == diff * 10000,
                diff <= total,
                total > 0,
        {
            assert(prod <= total * 10000);
        }
        q as u64
    };
    let scaled: u128 = d.available_space as u128 * 100;
    let gb: u128 = GB as u128;
    let free: u128 = scaled / gb;
    assert(free <= u64::MAX) by (nonlinear_arith)
        requires
            free == scaled / gb,
            scaled <= 100 * u64::MAX,
            gb == 1073741824,
    ;
    DiskUsageData { name: d.name.clone(), used_space: used, free_space: free as u64 }
}

/// Derives the consumer view of every disk, in the order given.
pub fn disk_usage_list(disks: &Vec<DiskReading>) -> (r: Vec<DiskUsageData>)
    ensures
        r@.len() == disks@.len(),
        forall|i: int| 0 <= i < disks@.len() ==> disk_usage_of(#[trigger] disks@[i], r@[i]),
{
    let mut out: Vec<DiskUsageData> = Vec::with_capacity(disks.len());
    let mut i: usize = 0;
    while i < disks.len()
        invariant
            i <= disks@.len(),
            out@.len() == i,
            forall|j: int| 0 <= j < i ==> disk_usage_of(#[trigger] disks@[j], out@[j]),
        decreases disks@.len() - i,
    {
        out.push(disk_usage(&disks[i]));
        i += 1;
    }
    out
}

/// Which network interface the sampler follows.
#[derive(Clone, Debug, PartialEq, Eq)]
pub enum InterfacePolicy {
    /// The loopback interface, `lo`.
    Loopback,
    /// The first interface whose name starts with the given text.
    Prefix(String),
}

/// Whether the policy selects an interface of this name.
pub open spec fn policy_accepts(p: InterfacePolicy, name: Seq<char>) -> bool {
    match p {
        InterfacePolicy::Loopback => name == seq!['l', 'o'],
        InterfacePolicy::Prefix(prefix) => prefix@.is_prefix_of(name),
    }
}

/// Whether `s` starts with `prefix`, compared character by character.
pub fn starts_with(s: &str, prefix: &str) -> (r: bool)
    ensures
        r == prefix@.is_prefix_of(s@),
{
    let n = prefix.unicode_len();
    if n > s.unicode_len() {
        return false;
    }
    let mut i: usize = 0;
    while i < n
        invariant
            n == prefix@.len(),
            n <= s@.len(),
            i <= n,
            forall|j: int| 0 <= j < i ==> prefix@[j] == s@[j],
        decreases n - i,
    {
        if prefix.get_char(i) != s.get_char(i) {
            assert(s@.subrange(0, n as int)[i as int] != prefix@[i as int]);
            return false;
        }
        i += 1;
    }
    assert(prefix@ =~= s@.subrange(0, n as int));
    true
}

impl InterfacePolicy {
    /// Whether this policy selects an interface named `name`.
    pub fn accepts(&self, name: &str) -> (r: bool)
        ensures
            r == policy_accepts(*self, name@),
    {
        match self {
            InterfacePolicy::Loopback => {
                if name.unicode_len() != 2 {
                    return false;
                }
                let r = name.get_char(0) == 'l' && name.get_char(1) == 'o';
                assert(r ==> name@ =~= seq!['l', 'o']);
                r
            },
            InterfacePolicy::Prefix(prefix) => starts_with(name, prefix.as_str()),
        }
    }
}

/// The counters of an interface reading.
pub open spec fn counters_of(i: InterfaceReading) -> NetworkData {
    NetworkData {
        total_rx: i.total_received,
        rx_per_second: i.received,
        total_tx: i.total_transmitted,
        tx_per_second: i.transmitted,
    }
}

/// The counters of the first interface, in the order given, that the policy
/// selects; none when it selects none.
pub open spec fn selected(p: InterfacePolicy, s: Seq<InterfaceReading>) -> Option<NetworkData>
    decreases s.len(),
{
    if s.len() == 0 {
        None
    } else if policy_accepts(p, s[0].name@) {
        Some(counters_of(s[0]))
    } else {
        selected(p, s.subrange(1, s.len() as int))
    }
}

/// Picks the counters of the first interface, in the order given, that the
/// policy selects; a `ConfigurationError` when it selects none.
pub fn select_interface(policy: &InterfacePolicy, interfaces: &Vec<InterfaceReading>) -> (r: Result<NetworkData, MetricError>)
    ensures
        r == match selected(*policy, interfaces@) {
            Some(d) => Ok::<NetworkData, MetricError>(d),
            None => Err(MetricError::ConfigurationError),
        },
{
    let mut i: usize = 0;
    assert(interfaces@.subrange(0, interfaces@.len() as int) =~= interfaces@);
    while i < interfaces.len()
        invariant
            i <= interfaces@.len(),
            selected(*policy, interfaces@) == selected(*policy, interfaces@.subrange(i as int, interfaces@.len() as int)),
        decreases interfaces@.len() - i,
    {
        let it = &interfaces[i];
        proof {
            let rest = interfaces@.subrange(i as int, interfaces@.len() as int);
            assert(rest[0] == interfaces@[i as int]);
            assert(rest.subrange(1, rest.len() as int) =~= interfaces@.subrange(i + 1, interfaces@.len() as int));
        }
        if policy.accepts(it.name.as_str()) {
            return Ok(NetworkData {
                total_rx: it.total_received,
                rx_per_second: it.received,
                total_tx: it.total_transmitted,
                tx_per_second: it.transmitted,
            });
        }
        i += 1;
    }
    Err(MetricError::ConfigurationError)
}

} // verus!
