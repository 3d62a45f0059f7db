//! What a cluster reports about its workloads and nodes, and the
//! accounting that turns those reports into one record per target.

use vstd::prelude::*;
use vstd::string::StringExecFns;
use crate::text::{range_is, to_chars};
use crate::quantity::{
    capacity_bytes, capacity_representable, capacity_well_formed, cpu_millicores, parse_capacity,
    parse_cpu, parse_unsigned, unsigned_literal,
};
use crate::tally::{
    amounts_of, checked_total, outcome_view, outcome_views, sum_tallies, total, Amounts, Tally,
};

verus! {

/// The cluster could not be asked, or did not answer, for one target.
#[derive(Clone, Copy, Debug, PartialEq, Eq, Structural)]
pub struct FetchError;

/// The resource requests that one container declares, as the cluster
/// writes them. A quantity that is absent requests nothing.
pub struct ContainerRequests {
    pub cpu: Option<String>,
    pub memory: Option<String>,
    pub ephemeral_storage: Option<String>,
}

/// One pod: its last known phase and the requests of its containers.
pub struct PodData {
    pub phase: Option<String>,
    pub containers: Vec<ContainerRequests>,
    pub init_containers: Vec<ContainerRequests>,
}

/// What a node can allocate, as the cluster writes it.
pub struct NodeAllocatable {
    pub cpu: Option<String>,
    pub memory: Option<String>,
    pub ephemeral_storage: Option<String>,
    pub pods: Option<String>,
}

/// One measurement of live consumption.
pub struct UsageSample {
    pub cpu: String,
    pub memory: String,
}

/// The millicores that an optional CPU quantity stands for; `None` where
/// it is present and invalid.
pub open spec fn cpu_amount(q: Option<String>) -> Option<nat> {
    match q {
        None => Some(0),
        Some(s) => match cpu_millicores(s@) {
            Some(n) => if n <= u32::MAX {
                Some(n)
            } else {
                None
            },
            None => None,
        },
    }
}

/// The bytes that an optional capacity quantity stands for; `None` where
/// it is present and invalid.
pub open spec fn capacity_amount(q: Option<String>) -> Option<nat> {
    match q {
        None => Some(0),
        Some(s) => if capacity_well_formed(s@) && capacity_representable(s@) {
            Some(capacity_bytes(s@))
        } else {
            None
        },
    }
}

/// The count that an optional unsigned literal stands for; `None` where it
/// is present and invalid.
pub open spec fn count_amount(q: Option<String>) -> Option<nat> {
    match q {
        None => Some(0),
        Some(s) => match unsigned_literal(s@) {
            Some(n) => if n <= usize::MAX {
                Some(n)
            } else {
                None
            },
            None => None,
        },
    }
}

/// Puts four parsed dimensions together; it fails where one of them did.
pub open spec fn amounts_from(
    cpu: Option<nat>,
    mem: Option<nat>,
    storage: Option<nat>,
    pods: Option<nat>,
) -> Option<Amounts> {
    if cpu is Some && mem is Some && storage is Some && pods is Some {
        Some(Amounts { cpu: cpu->0, mem: mem->0, storage: storage->0, pods: pods->0 })
    } else {
        None
    }
}

fn read_cpu(q: &Option<String>) -> (r: Option<u32>)
    ensures
        r is Some <==> cpu_amount(*q) is Some,
        r matches Some(v) ==> cpu_amount(*q) == Some(v as nat),
{
    match q {
        None => Some(0),
        Some(s) => match parse_cpu(s.as_str()) {
            Ok(v) => Some(v),
            Err(_) => None,
        },
    }
}

fn read_capacity(q: &Option<String>) -> (r: Option<u64>)
    ensures
        r is Some <==> capacity_amount(*q) is Some,
        r matches Some(v) ==> capacity_amount(*q) == Some(v as nat),
{
    match q {
        None => Some(0),
        Some(s) => match parse_capacity(s.as_str()) {
            Ok(v) => Some(v),
            Err(_) => None,
        },
    }
}

fn read_count(q: &Option<String>) -> (r: Option<usize>)
    ensures
        r is Some <==> count_amount(*q) is Some,
        r matches Some(v) ==> count_amount(*q) == Some(v as nat),
{
    match q {
        None => Some(0),
        Some(s) => {
            let chars = to_chars(s.as_str());
            assert(chars@.subrange(0, chars.len() as int) == chars@);
            match parse_unsigned(&chars, 0, chars.len()) {
                Ok(v) => if v <= usize::MAX as u64 {
                    Some(v as usize)
                } else {
                    None
                },
                Err(_) => None,
            }
        },
    }
}

/// What one container requests.
pub open spec fn container_amounts(c: ContainerRequests) -> Option<Amounts> {
    amounts_from(
        cpu_amount(c.cpu),
        capacity_amount(c.memory),
        capacity_amount(c.ephemeral_storage),
        Some(0),
    )
}

/// What a list of containers requests together.
pub open spec fn containers_amounts(cs: Seq<ContainerRequests>) -> Option<Amounts> {
    checked_total(cs.map_values(|c: ContainerRequests| container_amounts(c)))
}

fn container_tally(c: &ContainerRequests) -> (r: Option<Tally>)
    ensures
        outcome_view(r) == container_amounts(*c),
{
    let cpu = match read_cpu(&c.cpu) {
        Some(v) => v,
        None => { return None; },
    };
    let mem = match read_capacity(&c.memory) {
        Some(v) => v,
        None => { return None; },
    };
    let storage = match read_capacity(&c.ephemeral_storage) {
        Some(v) => v,
        None => { return None; },
    };
    Some(Tally { cpu, mem, storage, pods: 0 })
}

/// Adds up what the containers of one list request: CPU in millicores,
/// memory and storage in bytes.
///
/// `None` where a quantity is invalid or a sum does not fit.
pub fn get_containers_resources_req(containers: &Vec<ContainerRequests>) -> (r: Option<Tally>)
    ensures
        outcome_view(r) == containers_amounts(containers@),
{
    let mut parts: Vec<Option<Tally>> = Vec::new();
    let mut i: usize = 0;
    let ghost want = containers@.map_values(|c: ContainerRequests| container_amounts(c));
    while i < containers.len()
        invariant
            i <= containers.len(),
            want == containers@.map_values(|c: ContainerRequests| container_amounts(c)),
            parts.len() == i,
            forall|j: int| 0 <= j < i ==> outcome_view(#[trigger] parts[j]) == want[j],
        decreases containers.len() - i,
    {
        parts.push(container_tally(&containers[i]));
        i += 1;
    }
    assert(outcome_views(parts@) == want);
    sum_tallies(&parts)
}

/// Whether a phase is terminal: a pod that has failed, completed or
/// succeeded holds no resources any more.
pub open spec fn is_terminal(phase: Option<String>) -> bool {
    phase matches Some(p) && (p@ == "Failed"@ || p@ == "Completed"@ || p@ == "Succeeded"@)
}

/// What one pod holds. A pod in a terminal phase holds nothing and is not
/// counted. Any other pod counts as one and holds, in each dimension, the
/// larger of what its containers and what its init containers request
/// together: the two groups never run at the same time.
pub open spec fn pod_amounts(p: PodData) -> Option<Amounts> {
    if is_terminal(p.phase) {
        Some(Amounts::zero())
    } else {
        match (containers_amounts(p.containers@), containers_amounts(p.init_containers@)) {
            (Some(run), Some(init)) => Some(
                Amounts {
                    cpu: run.peak(init).cpu,
                    mem: run.peak(init).mem,
                    storage: run.peak(init).storage,
                    pods: 1,
                },
            ),
            _ => None,
        }
    }
}

/// What a list of pods holds together.
pub open spec fn pods_amounts(pods: Seq<PodData>) -> Option<Amounts> {
    checked_total(pods.map_values(|p: PodData| pod_amounts(p)))
}

/// What a failed or missing part of a report degrades to.
pub open spec fn or_zero(o: Option<Amounts>) -> Amounts {
    match o {
        Some(a) => a,
        None => Amounts::zero(),
    }
}

/// The requested resources of one target, given what listing its pods
/// returned. A failed listing, an invalid quantity or a sum that does not
/// fit degrades the whole answer to zero.
pub open spec fn requested(listed: Result<Vec<PodData>, FetchError>) -> Amounts {
    match listed {
        Ok(pods) => or_zero(pods_amounts(pods@)),
        Err(_) => Amounts::zero(),
    }
}

fn phase_is_terminal(phase: &Option<String>) -> (b: bool)
    ensures
        b == is_terminal(*phase),
{
    match phase {
        None => false,
        Some(p) => {
            let failed = String::from_str("Failed");
            let completed = String::from_str("Completed");
            let succeeded = String::from_str("Succeeded");
            *p == failed || *p == completed || *p == succeeded
        },
    }
}

fn pod_tally(p: &PodData) -> (r: Option<Tally>)
    ensures
        outcome_view(r) == pod_amounts(*p),
{
    if phase_is_terminal(&p.phase) {
        return Some(Tally::zero());
    }
    let run = match get_containers_resources_req(&p.containers) {
        Some(t) => t,
        None => { return None; },
    };
    let init = match get_containers_resources_req(&p.init_containers) {
        Some(t) => t,
        None => { return None; },
    };
    let peak = run.peak(&init);
    Some(Tally { cpu: peak.cpu, mem: peak.mem, storage: peak.storage, pods: 1 })
}

fn or_zero_tally(o: Option<Tally>) -> (t: Tally)
    ensures
        t@ == or_zero(outcome_view(o)),
{
    match o {
        Some(t) => t,
        None => Tally::zero(),
    }
}

/// Accounts for the pods of one target: requested CPU in millicores,
/// requested memory and storage in bytes, and the number of pods that are
/// not in a terminal phase.
pub fn get_pods_resources_req(listed: &Result<Vec<PodData>, FetchError>) -> (r: (
    u32,
    u64,
    u64,
    usize,
))
    ensures
        r.0 == requested(*listed).cpu,
        r.1 == requested(*listed).mem,
        r.2 == requested(*listed).storage,
        r.3 == requested(*listed).pods,
{
    let pods = match listed {
        Ok(pods) => pods,
        Err(_) => { return (0, 0, 0, 0); },
    };
    let mut parts: Vec<Option<Tally>> = Vec::new();
    let mut i: usize = 0;
    let ghost want = pods@.map_values(|p: PodData| pod_amounts(p));
    while i < pods.len()
        invariant
            i <= pods.len(),
            want == pods@.map_values(|p: PodData| pod_amounts(p)),
            parts.len() == i,
            forall|j: int| 0 <= j < i ==> outcome_view(#[trigger] parts[j]) == want[j],
        decreases pods.len() - i,
    {
        parts.push(pod_tally(&pods[i]));
        i += 1;
    }
    assert(outcome_views(parts@) == want);
    let sum = or_zero_tally(sum_tallies(&parts));
    (sum.cpu, sum.mem, sum.storage, sum.pods)
}

/// What one node can allocate.
pub open spec fn node_amounts(n: NodeAllocatable) -> Option<Amounts> {
    amounts_from(
        cpu_amount(n.cpu),
        capacity_amount(n.memory),
        capacity_amount(n.ephemeral_storage),
        count_amount(n.pods),
    )
}

/// The capacity of one node, given what fetching it returned. A failed
/// fetch or an invalid quantity degrades the whole answer to zero.
pub open spec fn node_capacity(fetched: Result<NodeAllocatable, FetchError>) -> Amounts {
    match fetched {
        Ok(n) => or_zero(node_amounts(n)),
        Err(_) => Amounts::zero(),
    }
}

/// The capacity of the whole cluster, given what listing its nodes and
/// fetching each of them returned: the sum over the nodes, each degraded
/// by itself. A failed listing or a sum that does not fit degrades the
/// whole answer to zero.
pub open spec fn cluster_capacity(
    listed: Result<Vec<Result<NodeAllocatable, FetchError>>, FetchError>,
) -> Amounts {
    match listed {
        Ok(nodes) => or_zero(
            checked_total(
                nodes@.map_values(
                    |n: Result<NodeAllocatable, FetchError>| Some(node_capacity(n)),
                ),
            ),
        ),
        Err(_) => Amounts::zero(),
    }
}

fn node_tally(fetched: &Result<NodeAllocatable, FetchError>) -> (t: Tally)
    ensures
        t@ == node_capacity(*fetched),
{
    let n = match fetched {
        Ok(n) => n,
        Err(_) => { return Tally::zero(); },
    };
    let cpu = match read_cpu(&n.cpu) {
        Some(v) => v,
        None => { return Tally::zero(); },
    };
    let mem = match read_capacity(&n.memory) {
        Some(v) => v,
        None => { return Tally::zero(); },
    };
    let storage = match read_capacity(&n.ephemeral_storage) {
        Some(v) => v,
        None => { return Tally::zero(); },
    };
    let pods = match read_count(&n.pods) {
        Some(v) => v,
        None => { return Tally::zero(); },
    };
    Tally { cpu, mem, storage, pods }
}

/// Reads the capacity of one node: allocatable CPU in millicores, memory
/// and storage in bytes, and the number of pods it takes.
pub fn get_node_info(fetched: &Result<NodeAllocatable, FetchError>) -> (r: (u32, u64, u64, usize))
    ensures
        r.0 == node_capacity(*fetched).cpu,
        r.1 == node_capacity(*fetched).mem,
        r.2 == node_capacity(*fetched).storage,
        r.3 == node_capacity(*fetched).pods,
{
    let t = node_tally(fetched);
    (t.cpu, t.mem, t.storage, t.pods)
}

/// Adds up the capacity of every node of the cluster.
pub fn get_cluster_node_info(
    listed: &Result<Vec<Result<NodeAllocatable, FetchError>>, FetchError>,
) -> (r: (u32, u64, u64, usize))
    ensures
        r.0 == cluster_capacity(*listed).cpu,
        r.1 == cluster_capacity(*listed).mem,
        r.2 == cluster_capacity(*listed).storage,
        r.3 == cluster_capacity(*listed).pods,
{
    let nodes = match listed {
        Ok(nodes) => nodes,
        Err(_) => { return (0, 0, 0, 0); },
    };
    let mut parts: Vec<Option<Tally>> = Vec::new();
    let mut i: usize = 0;
    let ghost want = nodes@.map_values(
        |n: Result<NodeAllocatable, FetchError>| Some(node_capacity(n)),
    );
    while i < nodes.len()
        invariant
            i <= nodes.len(),
            want == nodes@.map_values(
                |n: Result<NodeAllocatable, FetchError>| Some(node_capacity(n)),
            ),
            parts.len() == i,
            forall|j: int| 0 <= j < i ==> outcome_view(#[trigger] parts[j]) == want[j],
        decreases nodes.len() - i,
    {
        parts.push(Some(node_tally(&nodes[i])));
        i += 1;
    }
    assert(outcome_views(parts@) == want);
    let sum = or_zero_tally(sum_tallies(&parts));
    (sum.cpu, sum.mem, sum.storage, sum.pods)
}

/// What one usage sample measures: CPU and memory only.
pub open spec fn sample_amounts(u: UsageSample) -> Option<Amounts> {
    amounts_from(cpu_amount(Some(u.cpu)), capacity_amount(Some(u.memory)), Some(0), Some(0))
}

/// The live usage of one node, given what fetching its sample returned.
pub open spec fn node_usage(fetched: Result<UsageSample, FetchError>) -> Amounts {
    match fetched {
        Ok(u) => or_zero(sample_amounts(u)),
        Err(_) => Amounts::zero(),
    }
}

/// What the containers of one pod use together, given what fetching the
/// pod's samples returned; it fails where the fetch did.
pub open spec fn pod_usage(fetched: Result<Vec<UsageSample>, FetchError>) -> Option<Amounts> {
    match fetched {
        Ok(samples) => checked_total(samples@.map_values(|u: UsageSample| sample_amounts(u))),
        Err(_) => None,
    }
}

/// The live usage of one namespace, given what listing its pods and
/// fetching the samples of each returned: the sum over every container of
/// every pod. One failure, of the listing or of any pod, degrades the
/// whole answer to zero.
pub open spec fn namespace_usage(
    listed: Result<Vec<Result<Vec<UsageSample>, FetchError>>, FetchError>,
) -> Amounts {
    match listed {
        Ok(pods) => or_zero(
            checked_total(
                pods@.map_values(|p: Result<Vec<UsageSample>, FetchError>| pod_usage(p)),
            ),
        ),
        Err(_) => Amounts::zero(),
    }
}

fn sample_tally(u: &UsageSample) -> (r: Option<Tally>)
    ensures
        outcome_view(r) == sample_amounts(*u),
{
    let cpu = match parse_cpu(u.cpu.as_str()) {
        Ok(v) => v,
        Err(_) => { return None; },
    };
    let mem = match parse_capacity(u.memory.as_str()) {
        Ok(v) => v,
        Err(_) => { return None; },
    };
    Some(Tally { cpu, mem, storage: 0, pods: 0 })
}

/// Reads the live usage of one node: CPU in millicores and memory in
/// bytes.
pub fn get_node_utilization(fetched: &Result<UsageSample, FetchError>) -> (r: (u32, u64))
    ensures
        r.0 == node_usage(*fetched).cpu,
        r.1 == node_usage(*fetched).mem,
{
    match fetched {
        Ok(u) => {
            let t = or_zero_tally(sample_tally(u));
            (t.cpu, t.mem)
        },
        Err(_) => (0, 0),
    }
}

fn pod_usage_tally(fetched: &Result<Vec<UsageSample>, FetchError>) -> (r: Option<Tally>)
    ensures
        outcome_view(r) == pod_usage(*fetched),
{
    let samples = match fetched {
        Ok(samples) => samples,
        Err(_) => { return None; },
    };
    let mut parts: Vec<Option<Tally>> = Vec::new();
    let mut i: usize = 0;
    let ghost want = samples@.map_values(|u: UsageSample| sample_amounts(u));
    while i < samples.len()
        invariant
            i <= samples.len(),
            want == samples@.map_values(|u: UsageSample| sample_amounts(u)),
            parts.len() == i,
            forall|j: int| 0 <= j < i ==> outcome_view(#[trigger] parts[j]) == want[j],
        decreases samples.len() - i,
    {
        parts.push(sample_tally(&samples[i]));
        i += 1;
    }
    assert(outcome_views(parts@) == want);
    sum_tallies(&parts)
}

/// Adds up the live usage of the pods of one namespace: CPU in millicores
/// and memory in bytes.
pub fn get_pod_utilization(
    listed: &Result<Vec<Result<Vec<UsageSample>, FetchError>>, FetchError>,
) -> (r: (u32, u64))
    ensures
        r.0 == namespace_usage(*listed).cpu,
        r.1 == namespace_usage(*listed).mem,
{
    let pods = match listed {
        Ok(pods) => pods,
        Err(_) => { return (0, 0); },
    };
    let mut parts: Vec<Option<Tally>> = Vec::new();
    let mut i: usize = 0;
    let ghost want = pods@.map_values(|p: Result<Vec<UsageSample>, FetchError>| pod_usage(p));
    while i < pods.len()
        invariant
            i <= pods.len(),
            want == pods@.map_values(|p: Result<Vec<UsageSample>, FetchError>| pod_usage(p)),
            parts.len() == i,
            forall|j: int| 0 <= j < i ==> outcome_view(#[trigger] parts[j]) == want[j],
        decreases pods.len() - i,
    {
        parts.push(pod_usage_tally(&pods[i]));
        i += 1;
    }
    assert(outcome_views(parts@) == want);
    let sum = or_zero_tally(sum_tallies(&parts));
    (sum.cpu, sum.mem)
}

/// One row of the report: what a target requests, what it can draw on and,
/// where measured, what it uses. CPU is in millicores, memory and storage
/// are in bytes. Nothing ties `pods` to `pods_total`: a target that holds
/// more pods than its capacity is reported as it is.
pub struct ResouceRequests {
    pub name: String,
    pub cpu_requests: u32,
    pub cpu_total: u32,
    pub cpu_usage: u32,
    pub mem_requests: u64,
    pub mem_total: u64,
    pub mem_usage: u64,
    pub storage_requests: u64,
    pub storage_total: u64,
    pub pods: usize,
    pub pods_total: usize,
}

/// A row of the report as mathematical values.
pub ghost struct Record {
    pub name: Seq<char>,
    pub requested: Amounts,
    pub capacity: Amounts,
    pub usage: Amounts,
}

impl View for ResouceRequests {
    type V = Record;

    open spec fn view(&self) -> Record {
        Record {
            name: self.name@,
            requested: Amounts {
                cpu: self.cpu_requests as nat,
                mem: self.mem_requests as nat,
                storage: self.storage_requests as nat,
                pods: self.pods as nat,
            },
            capacity: Amounts {
                cpu: self.cpu_total as nat,
                mem: self.mem_total as nat,
                storage: self.storage_total as nat,
                pods: self.pods_total as nat,
            },
            usage: Amounts {
                cpu: self.cpu_usage as nat,
                mem: self.mem_usage as nat,
                storage: 0,
                pods: 0,
            },
        }
    }
}

/// The rows of a report as mathematical values.
pub open spec fn records(rows: Seq<ResouceRequests>) -> Seq<Record> {
    rows.map_values(|r: ResouceRequests| r@)
}

impl ResouceRequests {
    pub fn new(
        name: String,
        cpu_requests: u32,
        cpu_total: u32,
        cpu_usage: u32,
        mem_requests: u64,
        mem_total: u64,
        mem_usage: u64,
        storage_requests: u64,
        storage_total: u64,
        pods: usize,
        pods_total: usize,
    ) -> (r: Self)
        ensures
            r.name == name,
            r.cpu_requests == cpu_requests,
            r.cpu_total == cpu_total,
            r.cpu_usage == cpu_usage,
            r.mem_requests == mem_requests,
            r.mem_total == mem_total,
            r.mem_usage == mem_usage,
            r.storage_requests == storage_requests,
            r.storage_total == storage_total,
            r.pods == pods,
            r.pods_total == pods_total,
    {
        Self {
            name,
            cpu_requests,
            cpu_total,
            cpu_usage,
            mem_requests,
            mem_total,
            mem_usage,
            storage_requests,
            storage_total,
            pods,
            pods_total,
        }
    }
}

/// One row of the report as text, ready to be laid out in a table.
pub struct ResourceStatus {
    pub name: String,
    pub cpu: String,
    pub cpu_usage: String,
    pub mem: String,
    pub mem_usage: String,
    pub storage: String,
    pub pods: String,
}

impl ResourceStatus {
    pub fn new(
        name: String,
        cpu: String,
        cpu_usage: String,
        mem: String,
        mem_usage: String,
        storage: String,
        pods: String,
    ) -> (r: Self)
        ensures
            r.name == name,
            r.cpu == cpu,
            r.cpu_usage == cpu_usage,
            r.mem == mem,
            r.mem_usage == mem_usage,
            r.storage == storage,
            r.pods == pods,
    {
        Self { name, cpu, cpu_usage, mem, mem_usage, storage, pods }
    }
}

/// The kind of target that a report has one row for.
#[derive(Clone, Copy, Debug, PartialEq, Eq, Structural)]
pub enum ResourceType {
    /// A worker machine, with capacity of its own.
    Node,
    /// A partition of the workloads, which draws on the whole cluster.
    Namespace,
}

/// The kind of target that a word names.
pub open spec fn resource_type_named(word: Seq<char>) -> Option<ResourceType> {
    if word == "node"@ {
        Some(ResourceType::Node)
    } else if word == "namespace"@ {
        Some(ResourceType::Namespace)
    } else {
        None
    }
}

/// What is said of a text that names no kind of target.
pub open spec fn invalid_resource_type(s: Seq<char>) -> Seq<char> {
    "invalid resource type "@ + s
}

impl ResourceType {
    /// Reads a kind of target: `node` or `namespace`, exactly. Any other
    /// text is an error that quotes it.
    pub fn from_name(s: &str) -> (r: Result<ResourceType, String>)
        ensures
            match resource_type_named(s@) {
                Some(kind) => r == Ok::<ResourceType, String>(kind),
                None => r matches Err(message) && message@ == invalid_resource_type(s@),
            },
    {
        let chars = to_chars(s);
        let n = chars.len();
        assert(chars@.subrange(0, n as int) == chars@);
        if range_is(&chars, 0, n, "node") {
            Ok(ResourceType::Node)
        } else if range_is(&chars, 0, n, "namespace") {
            Ok(ResourceType::Namespace)
        } else {
            Err(String::from_str("invalid resource type ").concat(s))
        }
    }
}

impl core::str::FromStr for ResourceType {
    type Err = String;

    fn from_str(s: &str) -> (r: Result<Self, Self::Err>)
        ensures
            match resource_type_named(s@) {
                Some(kind) => r == Ok::<ResourceType, String>(kind),
                None => r matches Err(message) && message@ == invalid_resource_type(s@),
            },
    {
        ResourceType::from_name(s)
    }
}

/// Everything the cluster returned about one target. Which of it a report
/// reads is said by `what_to_fetch`.
pub struct TargetData {
    pub name: String,
    pub pods: Result<Vec<PodData>, FetchError>,
    pub allocatable: Result<NodeAllocatable, FetchError>,
    pub node_usage: Result<UsageSample, FetchError>,
    pub pod_usage: Result<Vec<Result<Vec<UsageSample>, FetchError>>, FetchError>,
}

/// Which parts of the cluster's answers a report reads. The pods of each
/// target are always read.
#[derive(Clone, Copy, Debug, PartialEq, Eq, Structural)]
pub struct Reads {
    /// What each target can allocate.
    pub allocatable: bool,
    /// The usage sample of each target, taken as a node.
    pub node_usage: bool,
    /// The usage samples of the pods of each target, taken as a namespace.
    pub pod_usage: bool,
    /// The nodes of the whole cluster.
    pub cluster: bool,
}

/// What a report of one kind reads: a node is held against what it can
/// allocate itself, a namespace against the whole cluster, and usage is
/// read only where it is asked for, in the form that the kind has.
pub open spec fn reads_of(kind: ResourceType, utilization: bool) -> Reads {
    Reads {
        allocatable: kind == ResourceType::Node,
        node_usage: utilization && kind == ResourceType::Node,
        pod_usage: utilization && kind == ResourceType::Namespace,
        cluster: kind == ResourceType::Namespace,
    }
}

/// Says what has to be fetched for a report. What it leaves out may stand
/// as a failed fetch in the data: the report does not look at it.
pub fn what_to_fetch(kind: ResourceType, utilization: bool) -> (r: Reads)
    ensures
        r == reads_of(kind, utilization),
{
    match kind {
        ResourceType::Node => Reads {
            allocatable: true,
            node_usage: utilization,
            pod_usage: false,
            cluster: false,
        },
        ResourceType::Namespace => Reads {
            allocatable: false,
            node_usage: false,
            pod_usage: utilization,
            cluster: true,
        },
    }
}

/// The two dimensions that usage is measured in.
pub open spec fn cpu_and_mem(a: Amounts) -> Amounts {
    Amounts { cpu: a.cpu, mem: a.mem, storage: 0, pods: 0 }
}

/// The row of one target. A node draws on its own capacity; a namespace
/// owns none and is held against that of the whole cluster.
pub open spec fn target_record(
    kind: ResourceType,
    utilization: bool,
    t: TargetData,
    cluster: Amounts,
) -> Record {
    Record {
        name: t.name@,
        requested: requested(t.pods),
        capacity: match kind {
            ResourceType::Node => node_capacity(t.allocatable),
            ResourceType::Namespace => cluster,
        },
        usage: if utilization {
            match kind {
                ResourceType::Node => cpu_and_mem(node_usage(t.node_usage)),
                ResourceType::Namespace => cpu_and_mem(namespace_usage(t.pod_usage)),
            }
        } else {
            Amounts::zero()
        },
    }
}

/// Builds the row of one target from what the cluster returned about it.
pub fn collect_target(
    kind: ResourceType,
    utilization: bool,
    t: &TargetData,
    cluster: &Tally,
) -> (r: ResouceRequests)
    ensures
        r@ == target_record(kind, utilization, *t, cluster@),
{
    let (cpu_requests, mem_requests, storage_requests, pods) = get_pods_resources_req(&t.pods);
    let (cpu_usage, mem_usage) = if utilization {
        match kind {
            ResourceType::Node => get_node_utilization(&t.node_usage),
            ResourceType::Namespace => get_pod_utilization(&t.pod_usage),
        }
    } else {
        (0, 0)
    };
    let (cpu_total, mem_total, storage_total, pods_total) = match kind {
        ResourceType::Node => get_node_info(&t.allocatable),
        ResourceType::Namespace => (cluster.cpu, cluster.mem, cluster.storage, cluster.pods),
    };
    ResouceRequests::new(
        t.name.clone(),
        cpu_requests,
        cpu_total,
        cpu_usage,
        mem_requests,
        mem_total,
        mem_usage,
        storage_requests,
        storage_total,
        pods,
        pods_total,
    )
}

/// The targets of the report could not be listed.
#[derive(Clone, Copy, Debug, PartialEq, Eq, Structural)]
pub struct DiscoveryError;

/// Why no report was produced.
#[derive(Clone, Copy, Debug, PartialEq, Eq, Structural)]
pub enum CollectError {
    /// The targets could not be listed.
    Discovery,
    /// A cluster-wide sum does not fit the machine types.
    Overflow,
}

/// The name of the row that sums up the cluster.
pub open spec fn summary_name() -> Seq<char> {
    "*"@
}

/// The row that sums up the cluster. What is requested and what is used
/// is the sum over the rows. Capacity is the sum over the rows for nodes;
/// for namespaces, which all draw on the same capacity, it is that of the
/// whole cluster.
pub open spec fn summary_record(kind: ResourceType, rows: Seq<Record>, cluster: Amounts) -> Record {
    Record {
        name: summary_name(),
        requested: total(rows.map_values(|r: Record| r.requested)),
        capacity: match kind {
            ResourceType::Node => total(rows.map_values(|r: Record| r.capacity)),
            ResourceType::Namespace => cluster,
        },
        usage: cpu_and_mem(total(rows.map_values(|r: Record| r.usage))),
    }
}

/// Whether every number of the summary row fits the machine type that
/// holds it.
pub open spec fn summary_fits(kind: ResourceType, rows: Seq<Record>, cluster: Amounts) -> bool {
    let s = summary_record(kind, rows, cluster);
    s.requested.fits() && s.capacity.fits() && s.usage.fits()
}

/// The rows of the targets, in the order in which they were discovered.
pub open spec fn target_records(
    kind: ResourceType,
    utilization: bool,
    targets: Seq<TargetData>,
    cluster: Amounts,
) -> Seq<Record> {
    targets.map_values(|t: TargetData| target_record(kind, utilization, t, cluster))
}

/// The whole report: one row for each target in discovery order, then the
/// summary row. There is no report where the targets could not be listed,
/// nor where the summary does not fit.
pub open spec fn report(
    kind: ResourceType,
    utilization: bool,
    targets: Result<Vec<TargetData>, DiscoveryError>,
    cluster: Result<Vec<Result<NodeAllocatable, FetchError>>, FetchError>,
) -> Result<Seq<Record>, CollectError> {
    match targets {
        Err(_) => Err(CollectError::Discovery),
        Ok(ts) => {
            let rows = target_records(kind, utilization, ts@, cluster_capacity(cluster));
            if summary_fits(kind, rows, cluster_capacity(cluster)) {
                Ok(rows.push(summary_record(kind, rows, cluster_capacity(cluster))))
            } else {
                Err(CollectError::Overflow)
            }
        },
    }
}

/// A sum of amounts without storage and pods has neither.
pub proof fn lemma_total_cpu_and_mem(s: Seq<Amounts>)
    requires
        forall|i: int| 0 <= i < s.len() ==> (#[trigger] s[i]).storage == 0 && s[i].pods == 0,
    ensures
        total(s).storage == 0,
        total(s).pods == 0,
    decreases s.len(),
{
    if s.len() > 0 {
        lemma_total_cpu_and_mem(s.drop_last());
    }
}

/// Sums the rows of a report into the summary row, or finds that it does
/// not fit.
pub fn summarize(kind: ResourceType, rows: &Vec<ResouceRequests>, cluster: &Tally) -> (r: Option<
    ResouceRequests,
>)
    ensures
        r is Some <==> summary_fits(kind, records(rows@), cluster@),
        r matches Some(s) ==> s@ == summary_record(kind, records(rows@), cluster@),
{
    let mut requested: Vec<Option<Tally>> = Vec::new();
    let mut capacity: Vec<Option<Tally>> = Vec::new();
    let mut usage: Vec<Option<Tally>> = Vec::new();
    let mut i: usize = 0;
    let ghost recs = records(rows@);
    while i < rows.len()
        invariant
            i <= rows.len(),
            recs == records(rows@),
            requested.len() == i,
            capacity.len() == i,
            usage.len() == i,
            forall|j: int|
                0 <= j < i ==> outcome_view(#[trigger] requested[j]) == Some(recs[j].requested),
            forall|j: int|
                0 <= j < i ==> outcome_view(#[trigger] capacity[j]) == Some(recs[j].capacity),
            forall|j: int| 0 <= j < i ==> outcome_view(#[trigger] usage[j]) == Some(recs[j].usage),
        decreases rows.len() - i,
    {
        let row = &rows[i];
        requested.push(
            Some(
                Tally {
                    cpu: row.cpu_requests,
                    mem: row.mem_requests,
                    storage: row.storage_requests,
                    pods: row.pods,
                },
            ),
        );
        capacity.push(
            Some(
                Tally {
                    cpu: row.cpu_total,
                    mem: row.mem_total,
                    storage: row.storage_total,
                    pods: row.pods_total,
                },
            ),
        );
        usage.push(Some(Tally { cpu: row.cpu_usage, mem: row.mem_usage, storage: 0, pods: 0 }));
        i += 1;
    }
    proof {
        assert(amounts_of(outcome_views(requested@)) == recs.map_values(|r: Record| r.requested));
        assert(amounts_of(outcome_views(capacity@)) == recs.map_values(|r: Record| r.capacity));
        assert(amounts_of(outcome_views(usage@)) == recs.map_values(|r: Record| r.usage));
        lemma_total_cpu_and_mem(recs.map_values(|r: Record| r.usage));
    }
    let requested = match sum_tallies(&requested) {
        Some(t) => t,
        None => { return None; },
    };
    let capacity = match kind {
        ResourceType::Node => match sum_tallies(&capacity) {
            Some(t) => t,
            None => { return None; },
        },
        ResourceType::Namespace => *cluster,
    };
    let usage = match sum_tallies(&usage) {
        Some(t) => t,
        None => { return None; },
    };
    Some(
        ResouceRequests::new(
            String::from_str("*"),
            requested.cpu,
            capacity.cpu,
            usage.cpu,
            requested.mem,
            capacity.mem,
            usage.mem,
            requested.storage,
            capacity.storage,
            requested.pods,
            capacity.pods,
        ),
    )
}

/// Builds the report and appends it to `rrs`: one row for each target, in
/// the order in which the targets were discovered, then the summary row
/// named `*`.
///
/// `targets` is what discovery returned, `cluster` what listing the nodes
/// of the whole cluster and fetching each returned; the latter is read for
/// namespaces only. On an error `rrs` is left as it was.
pub fn collect_info(
    rrs: &mut Vec<ResouceRequests>,
    resource_type: ResourceType,
    utilization: bool,
    targets: &Result<Vec<TargetData>, DiscoveryError>,
    cluster: &Result<Vec<Result<NodeAllocatable, FetchError>>, FetchError>,
) -> (r: Result<(), CollectError>)
    ensures
        match report(resource_type, utilization, *targets, *cluster) {
            Ok(rows) => r is Ok && records(final(rrs)@) == records(old(rrs)@) + rows,
            Err(e) => r == Err::<(), CollectError>(e) && *final(rrs) == *old(rrs),
        },
{
    let ts = match targets {
        Ok(ts) => ts,
        Err(_) => { return Err(CollectError::Discovery); },
    };
    let (cpu, mem, storage, pods) = get_cluster_node_info(cluster);
    let whole = Tally { cpu, mem, storage, pods };
    let mut rows: Vec<ResouceRequests> = Vec::new();
    let mut i: usize = 0;
    let ghost want = target_records(resource_type, utilization, ts@, whole@);
    while i < ts.len()
        invariant
            i <= ts.len(),
            want == target_records(resource_type, utilization, ts@, whole@),
            rows.len() == i,
            forall|j: int| 0 <= j < i ==> (#[trigger] rows[j])@ == want[j],
        decreases ts.len() - i,
    {
        rows.push(collect_target(resource_type, utilization, &ts[i], &whole));
        i += 1;
    }
    assert(records(rows@) == want);
    match summarize(resource_type, &rows, &whole) {
        None => Err(CollectError::Overflow),
        Some(summary) => {
            let ghost before = rrs@;
            rrs.append(&mut rows);
            rrs.push(summary);
            assert(records(rrs@) == records(before) + want.push(summary@));
            Ok(())
        },
    }
}

/// A pod in a terminal phase holds nothing and is not counted, whatever
/// its containers request.
pub proof fn lemma_terminal_pod_holds_nothing(p: PodData)
    requires
        is_terminal(p.phase),
    ensures
        pod_amounts(p) == Some(Amounts::zero()),
{
}

/// A pod in a terminal phase adds nothing to what a list of pods holds:
/// neither to the requested resources nor to the number of pods.
pub proof fn lemma_terminal_pod_adds_nothing(pods: Seq<PodData>, p: PodData)
    requires
        is_terminal(p.phase),
    ensures
        pods_amounts(pods.push(p)) == pods_amounts(pods),
{
    let f = |p: PodData| pod_amounts(p);
    let before = pods.map_values(f);
    let after = pods.push(p).map_values(f);
    assert(after == before.push(Some(Amounts::zero())));
    assert(amounts_of(after) == amounts_of(before).push(Amounts::zero()));
    assert(amounts_of(after).drop_last() == amounts_of(before));
    if forall|i: int| 0 <= i < before.len() ==> (#[trigger] before[i]) is Some {
        assert forall|i: int| 0 <= i < after.len() implies (#[trigger] after[i]) is Some by {
            if i < before.len() {
                assert(after[i] == before[i]);
            }
        }
    } else {
        let i = choose|i: int| 0 <= i < before.len() && !((#[trigger] before[i]) is Some);
        assert(after[i] == before[i]);
    }
}

/// A pod that still runs counts as one and holds, in each dimension, the
/// larger of what its containers and what its init containers request
/// together, never the sum of the two.
pub proof fn lemma_pod_holds_peak(p: PodData)
    requires
        !is_terminal(p.phase),
        containers_amounts(p.containers@) is Some,
        containers_amounts(p.init_containers@) is Some,
    ensures
        pod_amounts(p) is Some,
        ({
            let run = containers_amounts(p.containers@)->0;
            let init = containers_amounts(p.init_containers@)->0;
            let held = pod_amounts(p)->0;
            &&& held.pods == 1
            &&& held.cpu == if run.cpu >= init.cpu { run.cpu } else { init.cpu }
            &&& held.mem == if run.mem >= init.mem { run.mem } else { init.mem }
            &&& held.storage == if run.storage >= init.storage { run.storage } else { init.storage }
        }),
{
}

/// A pod without init containers holds what its containers request.
pub proof fn lemma_pod_without_init_containers(p: PodData)
    requires
        !is_terminal(p.phase),
        p.init_containers@.len() == 0,
        containers_amounts(p.containers@) is Some,
    ensures
        pod_amounts(p) is Some,
        ({
            let run = containers_amounts(p.containers@)->0;
            let held = pod_amounts(p)->0;
            held.cpu == run.cpu && held.mem == run.mem && held.storage == run.storage
        }),
{
    let none = p.init_containers@.map_values(|c: ContainerRequests| container_amounts(c));
    assert(amounts_of(none) == Seq::<Amounts>::empty());
}

/// The shape of a report: one row for each target, in the order of the
/// targets and under the target's name, then the summary row named `*`.
/// No target is left out, whatever failed for it or for another.
pub proof fn lemma_report_shape(
    kind: ResourceType,
    utilization: bool,
    targets: Result<Vec<TargetData>, DiscoveryError>,
    cluster: Result<Vec<Result<NodeAllocatable, FetchError>>, FetchError>,
)
    requires
        report(kind, utilization, targets, cluster) is Ok,
    ensures
        targets is Ok,
        ({
            let ts = targets->Ok_0@;
            let rows = report(kind, utilization, targets, cluster)->Ok_0;
            &&& rows.len() == ts.len() + 1
            &&& rows.last().name == summary_name()
            &&& forall|i: int|
                0 <= i < ts.len() ==> #[trigger] rows[i] == target_record(
                    kind,
                    utilization,
                    ts[i],
                    cluster_capacity(cluster),
                )
            &&& forall|i: int| 0 <= i < ts.len() ==> (#[trigger] rows[i]).name == ts[i].name@
        }),
{
}

/// The summary row holds the sums of the rows before it: requested CPU,
/// memory, storage and pods, and used CPU and memory. In a report on nodes
/// its capacity is the sum of theirs as well.
pub proof fn lemma_summary_sums_rows(
    kind: ResourceType,
    utilization: bool,
    targets: Result<Vec<TargetData>, DiscoveryError>,
    cluster: Result<Vec<Result<NodeAllocatable, FetchError>>, FetchError>,
)
    requires
        report(kind, utilization, targets, cluster) is Ok,
    ensures
        ({
            let rows = report(kind, utilization, targets, cluster)->Ok_0;
            let summary = rows.last();
            let others = rows.drop_last();
            &&& summary.requested == total(others.map_values(|r: Record| r.requested))
            &&& summary.usage.cpu == total(others.map_values(|r: Record| r.usage)).cpu
            &&& summary.usage.mem == total(others.map_values(|r: Record| r.usage)).mem
            &&& kind == ResourceType::Node ==> summary.capacity == total(
                others.map_values(|r: Record| r.capacity),
            )
        }),
{
    let ts = targets->Ok_0@;
    let whole = cluster_capacity(cluster);
    let rows = target_records(kind, utilization, ts, whole);
    assert(rows.push(summary_record(kind, rows, whole)).drop_last() == rows);
}

/// In a report on namespaces every row, the summary too, is held against
/// the capacity of the whole cluster: all rows show the same capacity.
pub proof fn lemma_namespaces_share_capacity(
    utilization: bool,
    targets: Result<Vec<TargetData>, DiscoveryError>,
    cluster: Result<Vec<Result<NodeAllocatable, FetchError>>, FetchError>,
)
    requires
        report(ResourceType::Namespace, utilization, targets, cluster) is Ok,
    ensures
        ({
            let rows = report(ResourceType::Namespace, utilization, targets, cluster)->Ok_0;
            forall|i: int|
                0 <= i < rows.len() ==> (#[trigger] rows[i]).capacity == cluster_capacity(cluster)
        }),
{
}

/// A node whose capacity could not be fetched shows a capacity of zero;
/// what it requests is not touched by that.
pub proof fn lemma_failed_capacity_is_zero(utilization: bool, t: TargetData, cluster: Amounts)
    requires
        t.allocatable is Err,
    ensures
        target_record(ResourceType::Node, utilization, t, cluster).capacity == Amounts::zero(),
        target_record(ResourceType::Node, utilization, t, cluster).requested == requested(t.pods),
{
}

/// The row of a node depends on what was returned about that node alone:
/// two runs that agree on one node agree on its row, whatever failed for
/// the other nodes.
pub proof fn lemma_node_rows_are_independent(
    utilization: bool,
    a: Seq<TargetData>,
    b: Seq<TargetData>,
    cluster_a: Amounts,
    cluster_b: Amounts,
    i: int,
    j: int,
)
    requires
        0 <= i < a.len(),
        0 <= j < b.len(),
        a[i] == b[j],
    ensures
        target_records(ResourceType::Node, utilization, a, cluster_a)[i] == target_records(
            ResourceType::Node,
            utilization,
            b,
            cluster_b,
        )[j],
{
}

/// A row is made of what the report reads and of nothing else: two
/// answers of the cluster that agree on the name, on the pods and on every
/// part that is read give the same row.
pub proof fn lemma_row_depends_on_what_is_read(
    kind: ResourceType,
    utilization: bool,
    a: TargetData,
    b: TargetData,
    cluster_a: Amounts,
    cluster_b: Amounts,
)
    requires
        a.name@ == b.name@,
        a.pods == b.pods,
        reads_of(kind, utilization).allocatable ==> a.allocatable == b.allocatable,
        reads_of(kind, utilization).node_usage ==> a.node_usage == b.node_usage,
        reads_of(kind, utilization).pod_usage ==> a.pod_usage == b.pod_usage,
        reads_of(kind, utilization).cluster ==> cluster_a == cluster_b,
    ensures
        target_record(kind, utilization, a, cluster_a) == target_record(
            kind,
            utilization,
            b,
            cluster_b,
        ),
{
}

} // verus!
