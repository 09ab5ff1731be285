//! Descriptions of cluster resources handed over by the discovery
//! collaborator, and the selectable historical time ranges.

use vstd::prelude::*;
use std::collections::HashMap;
use crate::text::{str_eq, string_of_chars};

verus! {

/// A cluster context.
#[derive(Clone, Debug)]
pub struct ContextInfo {
    pub name: String,
    pub cluster: String,
    pub user: String,
    pub namespace: Option<String>,
    pub is_current: bool,
}

impl ContextInfo {
    pub fn new(name: String, cluster: String, user: String, namespace: Option<String>, is_current: bool) -> (r: Self)
        ensures
            r.name == name,
            r.cluster == cluster,
            r.user == user,
            r.namespace == namespace,
            r.is_current == is_current,
    {
        ContextInfo { name, cluster, user, namespace, is_current }
    }
}

/// A namespace.
#[derive(Debug)]
pub struct NamespaceInfo {
    pub name: String,
    pub status: String,
    pub labels: HashMap<String, String>,
}

impl NamespaceInfo {
    /// A namespace without labels.
    pub fn new(name: String, status: String) -> (r: Self)
        ensures
            r.name == name,
            r.status == status,
            r.labels@ == Map::<String, String>::empty(),
    {
        NamespaceInfo { name, status, labels: HashMap::new() }
    }
}

/// A deployment and its replica counts.
#[derive(Debug)]
pub struct DeploymentInfo {
    pub name: String,
    pub namespace: String,
    pub replicas: i32,
    pub available_replicas: i32,
    pub ready_replicas: i32,
    pub labels: HashMap<String, String>,
    pub selector: HashMap<String, String>,
}

/// The decimal digit `d` as a character.
pub open spec fn digit_char(d: nat) -> char {
    if d == 0 { '0' } else if d == 1 { '1' } else if d == 2 { '2' } else if d == 3 { '3' }
    else if d == 4 { '4' } else if d == 5 { '5' } else if d == 6 { '6' } else if d == 7 { '7' }
    else if d == 8 { '8' } else { '9' }
}

/// The decimal digits of `n`, most significant first.
pub open spec fn digits(n: nat) -> Seq<char>
    decreases n,
{
    if n < 10 {
        seq![digit_char(n)]
    } else {
        digits(n / 10).push(digit_char(n % 10))
    }
}

/// The decimal text of `n`, with a leading `-` when negative.
pub open spec fn decimal(n: int) -> Seq<char> {
    if n < 0 {
        seq!['-'] + digits((-n) as nat)
    } else {
        digits(n as nat)
    }
}

fn digit(d: u64) -> (c: char)
    requires
        d < 10,
    ensures
        c == digit_char(d as nat),
{
    if d == 0 { '0' } else if d == 1 { '1' } else if d == 2 { '2' } else if d == 3 { '3' }
    else if d == 4 { '4' } else if d == 5 { '5' } else if d == 6 { '6' } else if d == 7 { '7' }
    else if d == 8 { '8' } else { '9' }
}

fn push_digits(n: u64, out: &mut Vec<char>)
    ensures
        final(out)@ == old(out)@ + digits(n as nat),
    decreases n,
{
    if n >= 10 {
        push_digits(n / 10, out);
    }
    out.push(digit(n % 10));
    proof {
        if n < 10 {
            assert(n % 10 == n);
        }
    }
    assert(final(out)@ =~= old(out)@ + digits(n as nat));
}

/// Appends the decimal text of `n` to `out`.
pub fn push_decimal(n: i32, out: &mut Vec<char>)
    ensures
        final(out)@ == old(out)@ + decimal(n as int),
{
    if n < 0 {
        out.push('-');
        let m: i64 = n as i64;
        push_digits((-m) as u64, out);
        assert(final(out)@ =~= old(out)@ + decimal(n as int));
    } else {
        push_digits(n as u64, out);
    }
}

impl DeploymentInfo {
    /// A deployment with no replicas, labels or selector.
    pub fn new(name: String, namespace: String) -> (r: Self)
        ensures
            r.name == name,
            r.namespace == namespace,
            r.replicas == 0,
            r.available_replicas == 0,
            r.ready_replicas == 0,
            r.labels@ == Map::<String, String>::empty(),
            r.selector@ == Map::<String, String>::empty(),
    {
        DeploymentInfo {
            name,
            namespace,
            replicas: 0,
            available_replicas: 0,
            ready_replicas: 0,
            labels: HashMap::new(),
            selector: HashMap::new(),
        }
    }

    /// Replica status as `ready/total`.
    pub fn replica_status(&self) -> (r: String)
        ensures
            r@ == decimal(self.ready_replicas as int) + seq!['/'] + decimal(self.replicas as int),
    {
        let mut cs: Vec<char> = Vec::new();
        push_decimal(self.ready_replicas, &mut cs);
        cs.push('/');
        push_decimal(self.replicas, &mut cs);
        assert(cs@ =~= decimal(self.ready_replicas as int) + seq!['/'] + decimal(self.replicas as int));
        string_of_chars(&cs)
    }
}

/// The phase of a pod.
#[derive(Clone, Copy, Debug, PartialEq, Eq, Structural)]
pub enum PodStatus {
    Pending,
    Running,
    Succeeded,
    Failed,
    Unknown,
}

/// The status a phase name stands for.
pub open spec fn status_named(s: Seq<char>) -> PodStatus {
    if s == "Pending"@ {
        PodStatus::Pending
    } else if s == "Running"@ {
        PodStatus::Running
    } else if s == "Succeeded"@ {
        PodStatus::Succeeded
    } else if s == "Failed"@ {
        PodStatus::Failed
    } else {
        PodStatus::Unknown
    }
}

impl PodStatus {
    /// The status a phase name stands for (`Unknown` for any other name).
    pub fn from_phase(s: &str) -> (r: Self)
        ensures
            r == status_named(s@),
    {
        if str_eq(s, "Pending") {
            PodStatus::Pending
        } else if str_eq(s, "Running") {
            PodStatus::Running
        } else if str_eq(s, "Succeeded") {
            PodStatus::Succeeded
        } else if str_eq(s, "Failed") {
            PodStatus::Failed
        } else {
            PodStatus::Unknown
        }
    }
}

impl<'a> From<&'a str> for PodStatus {
    fn from(s: &'a str) -> (r: Self)
        ensures
            r == status_named(s@),
    {
        PodStatus::from_phase(s)
    }
}

impl<'a> vstd::std_specs::convert::FromSpecImpl<&'a str> for PodStatus {
    open spec fn obeys_from_spec() -> bool {
        true
    }

    open spec fn from_spec(v: &'a str) -> Self {
        status_named(v@)
    }
}

/// A container of a pod.
#[derive(Clone, Debug)]
pub struct ContainerInfo {
    pub name: String,
    pub ready: bool,
    pub restart_count: i32,
}

impl ContainerInfo {
    /// A container that is not ready and has not restarted.
    pub fn new(name: String) -> (r: Self)
        ensures
            r.name == name,
            !r.ready,
            r.restart_count == 0,
    {
        ContainerInfo { name, ready: false, restart_count: 0 }
    }
}

/// A pod: one log source.
#[derive(Clone, Debug)]
pub struct PodInfo {
    pub name: String,
    pub namespace: String,
    pub status: PodStatus,
    pub containers: Vec<ContainerInfo>,
    pub node_name: Option<String>,
    pub pod_ip: Option<String>,
}

impl PodInfo {
    /// A pod of unknown status with no containers.
    pub fn new(name: String, namespace: String) -> (r: Self)
        ensures
            r.name == name,
            r.namespace == namespace,
            r.status == PodStatus::Unknown,
            r.containers@.len() == 0,
            r.node_name is None,
            r.pod_ip is None,
    {
        PodInfo {
            name,
            namespace,
            status: PodStatus::Unknown,
            containers: Vec::new(),
            node_name: None,
            pod_ip: None,
        }
    }
}

/// Historical window for opening log streams.
#[derive(Clone, Copy, Debug, PartialEq, Eq, Structural)]
pub enum TimeRange {
    All,
    Last5m,
    Last15m,
    Last30m,
    Last1h,
    Last6h,
    Last24h,
}

/// The position of a range in the cycle `All, 5m, 15m, 30m, 1h, 6h, 24h`.
pub open spec fn range_index(t: TimeRange) -> int {
    match t {
        TimeRange::All => 0,
        TimeRange::Last5m => 1,
        TimeRange::Last15m => 2,
        TimeRange::Last30m => 3,
        TimeRange::Last1h => 4,
        TimeRange::Last6h => 5,
        TimeRange::Last24h => 6,
    }
}

impl Default for TimeRange {
    fn default() -> (r: Self)
        ensures
            r == TimeRange::All,
    {
        TimeRange::All
    }
}

impl TimeRange {
    /// The window in seconds (`None`: all available logs).
    pub fn as_seconds(&self) -> (r: Option<i64>)
        ensures
            r == match *self {
                TimeRange::All => None,
                TimeRange::Last5m => Some(300i64),
                TimeRange::Last15m => Some(900i64),
                TimeRange::Last30m => Some(1800i64),
                TimeRange::Last1h => Some(3600i64),
                TimeRange::Last6h => Some(21600i64),
                TimeRange::Last24h => Some(86400i64),
            },
    {
        match self {
            TimeRange::All => None,
            TimeRange::Last5m => Some(5 * 60),
            TimeRange::Last15m => Some(15 * 60),
            TimeRange::Last30m => Some(30 * 60),
            TimeRange::Last1h => Some(60 * 60),
            TimeRange::Last6h => Some(6 * 60 * 60),
            TimeRange::Last24h => Some(24 * 60 * 60),
        }
    }

    /// Display label.
    pub fn label(&self) -> (r: &'static str)
        ensures
            r@ == match *self {
                TimeRange::All => "All"@,
                TimeRange::Last5m => "5m"@,
                TimeRange::Last15m => "15m"@,
                TimeRange::Last30m => "30m"@,
                TimeRange::Last1h => "1h"@,
                TimeRange::Last6h => "6h"@,
                TimeRange::Last24h => "24h"@,
            },
    {
        match self {
            TimeRange::All => "All",
            TimeRange::Last5m => "5m",
            TimeRange::Last15m => "15m",
            TimeRange::Last30m => "30m",
            TimeRange::Last1h => "1h",
            TimeRange::Last6h => "6h",
            TimeRange::Last24h => "24h",
        }
    }

    /// The next range in the cycle (after the last comes the first).
    pub fn next(&self) -> (r: Self)
        ensures
            range_index(r) == (range_index(*self) + 1) % 7,
    {
        match self {
            TimeRange::All => TimeRange::Last5m,
            TimeRange::Last5m => TimeRange::Last15m,
            TimeRange::Last15m => TimeRange::Last30m,
            TimeRange::Last30m => TimeRange::Last1h,
            TimeRange::Last1h => TimeRange::Last6h,
            TimeRange::Last6h => TimeRange::Last24h,
            TimeRange::Last24h => TimeRange::All,
        }
    }

    /// The previous range in the cycle (before the first comes the last).
    pub fn prev(&self) -> (r: Self)
        ensures
            range_index(r) == (range_index(*self) + 6) % 7,
    {
        match self {
            TimeRange::All => TimeRange::Last24h,
            TimeRange::Last5m => TimeRange::All,
            TimeRange::Last15m => TimeRange::Last5m,
            TimeRange::Last30m => TimeRange::Last15m,
            TimeRange::Last1h => TimeRange::Last30m,
            TimeRange::Last6h => TimeRange::Last1h,
            TimeRange::Last24h => TimeRange::Last6h,
        }
    }
}

} // verus!
