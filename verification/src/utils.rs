//! The report as its users see it: the sort keys, the quantity parsers and
//! the rows written as text.

use vstd::prelude::*;
use vstd::string::StringExecFns;
use crate::kubernetes::{records, Record, ResouceRequests, ResourceStatus};
use crate::order::{report_order, sort_records};
use crate::render::{
    append_decimal, append_mebibytes, append_percent, decimal_text, mebibytes_text, percent_text,
};
use crate::text::{range_is, to_chars, trim_range, trimmed};
use crate::quantity::{
    capacity_outcome, cpu_outcome, parse_capacity, parse_cpu, InvalidQuantity,
};

verus! {

/// What the rows of a report are sorted by.
#[derive(Clone, Copy, Debug, PartialEq, Eq, Structural)]
pub enum Filter {
    /// Requested CPU, largest first.
    Cpu,
    /// Requested memory, largest first.
    Mem,
    /// Requested storage, largest first.
    Storage,
    /// Pods held, most first.
    Pods,
    /// Leave the rows as they came.
    Unsorted,
}

/// The sort key that a word names. The empty word names none.
pub open spec fn filter_named(word: Seq<char>) -> Option<Filter> {
    if word == ""@ {
        Some(Filter::Unsorted)
    } else if word == "cpu"@ {
        Some(Filter::Cpu)
    } else if word == "mem"@ {
        Some(Filter::Mem)
    } else if word == "storage"@ {
        Some(Filter::Storage)
    } else if word == "pods"@ {
        Some(Filter::Pods)
    } else {
        None
    }
}

/// What is said of a text that names no sort key.
pub open spec fn invalid_filter(s: Seq<char>) -> Seq<char> {
    "invalid filter "@ + s
}

impl Filter {
    /// Reads a sort key: `cpu`, `mem`, `storage`, `pods` or nothing, white
    /// space around it left aside. Any other text is an error that quotes
    /// the text as it was given.
    pub fn from_name(s: &str) -> (r: Result<Filter, String>)
        ensures
            match filter_named(trimmed(s@)) {
                Some(f) => r == Ok::<Filter, String>(f),
                None => r matches Err(message) && message@ == invalid_filter(s@),
            },
    {
        let chars = to_chars(s);
        let (from, to) = trim_range(&chars);
        if range_is(&chars, from, to, "") {
            Ok(Filter::Unsorted)
        } else if range_is(&chars, from, to, "cpu") {
            Ok(Filter::Cpu)
        } else if range_is(&chars, from, to, "mem") {
            Ok(Filter::Mem)
        } else if range_is(&chars, from, to, "storage") {
            Ok(Filter::Storage)
        } else if range_is(&chars, from, to, "pods") {
            Ok(Filter::Pods)
        } else {
            Err(String::from_str("invalid filter ").concat(s))
        }
    }
}

impl core::str::FromStr for Filter {
    type Err = String;

    fn from_str(s: &str) -> (r: Result<Self, Self::Err>)
        ensures
            match filter_named(trimmed(s@)) {
                Some(f) => r == Ok::<Filter, String>(f),
                None => r matches Err(message) && message@ == invalid_filter(s@),
            },
    {
        Filter::from_name(s)
    }
}

/// Parses a CPU quantity into millicores: `250m` is 250, `2` is 2000,
/// `2.5` is 2500.
///
/// Fails with `Malformed` when the text is no CPU quantity, and with
/// `OutOfRange` when it is one whose millicores exceed `u32::MAX`.
pub fn parse_cpu_requests(cpu: String) -> (r: Result<u32, InvalidQuantity>)
    ensures
        r == cpu_outcome(cpu@),
{
    parse_cpu(cpu.as_str())
}

/// Parses a memory or storage quantity into bytes.
///
/// One policy holds for every caller: the binary suffixes `Ki`, `Mi`, `Gi`
/// and `Ti` scale by powers of 1024, the decimal suffixes `k`, `K`, `M`, `G`
/// and `T` by powers of 1000, and a number without a suffix counts bytes.
/// The number may carry a leading `+` and one decimal point; what is left
/// of a byte after scaling is dropped.
///
/// Fails with `Malformed` when the text is no such quantity, and with
/// `OutOfRange` when it is one that 64 bits cannot hold.
pub fn parse_capacity_requests(mem: String) -> (r: Result<u64, InvalidQuantity>)
    ensures
        r == capacity_outcome(mem@),
{
    parse_capacity(mem.as_str())
}

/// A row of the report as the text of its columns.
pub ghost struct Status {
    pub name: Seq<char>,
    pub cpu: Seq<char>,
    pub cpu_usage: Seq<char>,
    pub mem: Seq<char>,
    pub mem_usage: Seq<char>,
    pub storage: Seq<char>,
    pub pods: Seq<char>,
}

impl View for ResourceStatus {
    type V = Status;

    open spec fn view(&self) -> Status {
        Status {
            name: self.name@,
            cpu: self.cpu@,
            cpu_usage: self.cpu_usage@,
            mem: self.mem@,
            mem_usage: self.mem_usage@,
            storage: self.storage@,
            pods: self.pods@,
        }
    }
}

/// The rows of a report as the text of their columns.
pub open spec fn statuses(rows: Seq<ResourceStatus>) -> Seq<Status> {
    rows.map_values(|r: ResourceStatus| r@)
}

/// An amount of CPU and its share of the capacity, as in `250m (12.50%)`.
pub open spec fn cpu_text(amount: nat, capacity: nat) -> Seq<char> {
    decimal_text(amount) + "m ("@ + percent_text(amount, capacity) + "%)"@
}

/// An amount of memory or storage and its share of the capacity, as in
/// `512.00Mi (25.00%)`.
pub open spec fn capacity_text(amount: nat, capacity: nat) -> Seq<char> {
    mebibytes_text(amount) + "Mi ("@ + percent_text(amount, capacity) + "%)"@
}

/// The pods held and the pods that fit, as in `12 / 110`.
pub open spec fn pods_text(held: nat, capacity: nat) -> Seq<char> {
    decimal_text(held) + " / "@ + decimal_text(capacity)
}

/// The text of one row.
pub open spec fn status_of(r: Record) -> Status {
    Status {
        name: r.name,
        cpu: cpu_text(r.requested.cpu, r.capacity.cpu),
        cpu_usage: cpu_text(r.usage.cpu, r.capacity.cpu),
        mem: capacity_text(r.requested.mem, r.capacity.mem),
        mem_usage: capacity_text(r.usage.mem, r.capacity.mem),
        storage: capacity_text(r.requested.storage, r.capacity.storage),
        pods: pods_text(r.requested.pods, r.capacity.pods),
    }
}

fn format_cpu(amount: u32, capacity: u32) -> (s: String)
    ensures
        s@ == cpu_text(amount as nat, capacity as nat),
{
    let mut s = String::new();
    append_decimal(&mut s, amount as u128);
    s.append("m (");
    append_percent(&mut s, amount as u64, capacity as u64);
    s.append("%)");
    assert(s@ =~= cpu_text(amount as nat, capacity as nat));
    s
}

fn format_capacity(amount: u64, capacity: u64) -> (s: String)
    ensures
        s@ == capacity_text(amount as nat, capacity as nat),
{
    let mut s = String::new();
    append_mebibytes(&mut s, amount);
    s.append("Mi (");
    append_percent(&mut s, amount, capacity);
    s.append("%)");
    assert(s@ =~= capacity_text(amount as nat, capacity as nat));
    s
}

fn format_pods(held: usize, capacity: usize) -> (s: String)
    ensures
        s@ == pods_text(held as nat, capacity as nat),
{
    let mut s = String::new();
    append_decimal(&mut s, held as u128);
    s.append(" / ");
    append_decimal(&mut s, capacity as u128);
    assert(s@ =~= pods_text(held as nat, capacity as nat));
    s
}

/// Writes one row as text.
pub fn format_status(r: &ResouceRequests) -> (s: ResourceStatus)
    ensures
        s@ == status_of(r@),
{
    ResourceStatus::new(
        r.name.clone(),
        format_cpu(r.cpu_requests, r.cpu_total),
        format_cpu(r.cpu_usage, r.cpu_total),
        format_capacity(r.mem_requests, r.mem_total),
        format_capacity(r.mem_usage, r.mem_total),
        format_capacity(r.storage_requests, r.storage_total),
        format_pods(r.pods, r.pods_total),
    )
}

/// Puts the rows of a report into report order and writes each as text.
pub fn parse_resource_data(rrs: Vec<ResouceRequests>, sort_by: Filter) -> (rss: Vec<
    ResourceStatus,
>)
    ensures
        rss.len() == rrs.len(),
        statuses(rss@) == report_order(records(rrs@), sort_by).map_values(
            |r: Record| status_of(r),
        ),
{
    let data = sort_records(rrs, sort_by);
    let mut rss: Vec<ResourceStatus> = Vec::new();
    let mut i: usize = 0;
    let ghost want = records(data@).map_values(|r: Record| status_of(r));
    while i < data.len()
        invariant
            i <= data.len(),
            want == records(data@).map_values(|r: Record| status_of(r)),
            rss.len() == i,
            forall|j: int| 0 <= j < i ==> (#[trigger] rss[j])@ == want[j],
        decreases data.len() - i,
    {
        rss.push(format_status(&data[i]));
        i += 1;
    }
    assert(statuses(rss@) == want);
    rss
}

/// Appends one row to a report.
pub fn add_data(
    node_name: String,
    cpu_requests: u32,
    cpu_total: u32,
    cpu_usage: u32,
    mem_requests: u64,
    mem_total: u64,
    mem_usage: u64,
    storage_requests: u64,
    storage_total: u64,
    pods: usize,
    pods_total: usize,
    rrs: &mut Vec<ResouceRequests>,
)
    ensures
        final(rrs)@ == old(rrs)@.push(
            ResouceRequests {
                name: node_name,
                cpu_requests,
                cpu_total,
                cpu_usage,
                mem_requests,
                mem_total,
                mem_usage,
                storage_requests,
                storage_total,
                pods,
                pods_total,
            },
        ),
{
    rrs.push(
        ResouceRequests::new(
            node_name,
            cpu_requests,
            cpu_total,
            cpu_usage,
            mem_requests,
            mem_total,
            mem_usage,
            storage_requests,
            storage_total,
            pods,
            pods_total,
        ),
    );
}

} // verus!
