//! The agent's two operations, from what was read on the host to what is
//! answered. Reading the host and sending the answer are the caller's part.

use crate::chars::text_of;
use crate::loadavg::{load_field, one_minute_load};
use crate::meminfo::{available_key, keyed_value, memory_fields, total_key};
use vstd::prelude::*;

verus! {

/// The status of an answer that reports success.
pub const STATUS_OK: u16 = 200;

/// What was read on the host for one request. Each part is `None` where
/// the read failed, for whatever reason.
#[derive(Clone, Debug, PartialEq, Eq)]
pub struct HostState {
    /// The configured name of the node.
    pub node_name: Option<String>,
    /// The content of the load-average source.
    pub loadavg: Option<String>,
    /// The content of the memory-information source.
    pub meminfo: Option<String>,
    /// The number of entries in the directory of GPU devices.
    pub gpu_entries: Option<usize>,
}

/// A host state as contracts see it.
pub struct HostStateView {
    pub node_name: Option<Seq<char>>,
    pub loadavg: Option<Seq<char>>,
    pub meminfo: Option<Seq<char>>,
    pub gpu_entries: Option<usize>,
}

impl View for HostState {
    type V = HostStateView;

    open spec fn view(&self) -> HostStateView {
        HostStateView {
            node_name: text_of(self.node_name),
            loadavg: text_of(self.loadavg),
            meminfo: text_of(self.meminfo),
            gpu_entries: self.gpu_entries,
        }
    }
}

/// What the agent reports of a host: the texts of the numbers as the
/// sources write them, and the counts.
#[derive(Clone, Debug, PartialEq, Eq)]
pub struct Readings {
    /// The name of the node.
    pub node_name: String,
    /// The load average over the last minute.
    pub load: Option<String>,
    /// The number of logical processing units.
    pub cores: usize,
    /// The total memory.
    pub mem_total: Option<String>,
    /// The available memory.
    pub mem_available: Option<String>,
    /// The number of GPU devices.
    pub gpu_count: u32,
}

/// Readings as contracts see them.
pub struct ReadingsView {
    pub node_name: Seq<char>,
    pub load: Option<Seq<char>>,
    pub cores: usize,
    pub mem_total: Option<Seq<char>>,
    pub mem_available: Option<Seq<char>>,
    pub gpu_count: u32,
}

impl View for Readings {
    type V = ReadingsView;

    open spec fn view(&self) -> ReadingsView {
        ReadingsView {
            node_name: self.node_name@,
            load: text_of(self.load),
            cores: self.cores,
            mem_total: text_of(self.mem_total),
            mem_available: text_of(self.mem_available),
            gpu_count: self.gpu_count,
        }
    }
}

/// The name under which a node reports that has none configured.
pub open spec fn unknown_node() -> Seq<char> {
    "unknown-node"@
}

/// The name that a node reports under.
pub open spec fn spec_node_name(configured: Option<Seq<char>>) -> Seq<char> {
    match configured {
        Some(name) => name,
        None => unknown_node(),
    }
}

/// The number of GPU devices reported for a directory of `entries`
/// entries, `None` standing for a directory that could not be listed. The
/// report has 32 bits; a larger count keeps its low 32 bits.
pub open spec fn spec_gpu_count(entries: Option<usize>) -> int {
    match entries {
        Some(n) => n as int % 0x1_0000_0000,
        None => 0,
    }
}

/// The value that an optional table gives for `key`.
pub open spec fn spec_memory_value(meminfo: Option<Seq<char>>, key: Seq<char>) -> Option<
    Seq<char>,
> {
    match meminfo {
        Some(table) => keyed_value(table, key),
        None => None,
    }
}

/// The load average that an optional load-average line gives.
pub open spec fn spec_load(loadavg: Option<Seq<char>>) -> Option<Seq<char>> {
    match loadavg {
        Some(line) => one_minute_load(line),
        None => None,
    }
}

/// What the agent reports of the host state `host` on a machine with
/// `cores` logical processing units.
pub open spec fn spec_readings(host: HostStateView, cores: usize) -> ReadingsView {
    ReadingsView {
        node_name: spec_node_name(host.node_name),
        load: spec_load(host.loadavg),
        cores: cores,
        mem_total: spec_memory_value(host.meminfo, total_key()),
        mem_available: spec_memory_value(host.meminfo, available_key()),
        gpu_count: spec_gpu_count(host.gpu_entries) as u32,
    }
}

/// The name that the node reports under: the configured one, or
/// `unknown-node` where none is configured.
pub fn node_name(configured: &Option<String>) -> (name: String)
    ensures
        name@ == spec_node_name(text_of(*configured)),
{
    match configured {
        Some(name) => name.clone(),
        None => "unknown-node".to_owned(),
    }
}

/// The number of GPU devices to report for a directory of `entries`
/// entries; `None` stands for a directory that could not be listed.
pub fn gpu_count(entries: Option<usize>) -> (count: u32)
    ensures
        count == spec_gpu_count(entries),
        entries is None ==> count == 0,
        entries matches Some(n) ==> (n <= u32::MAX ==> count == n),
{
    match entries {
        Some(n) => {
            let wide: u64 = n as u64;
            assert(wide as u32 == wide % 0x1_0000_0000) by (bit_vector);
            #[verifier::truncate]
            (wide as u32)
        },
        None => 0,
    }
}

/// The number of logical processing units that this process may use, as
/// `num_cpus::get` reports it. The crate documents that the number is at
/// least one; nothing else is claimed of it, and two calls may differ.
#[verifier::external_body]
fn logical_cores() -> (cores: usize)
    ensures
        cores >= 1,
{
    num_cpus::get()
}

/// Gathers what the agent reports of `host` on a machine with `cores`
/// logical processing units. Every source that is missing, and every
/// source that does not hold what is looked for, leaves its part empty or
/// zero: there is no host state on which this fails.
pub fn readings(host: &HostState, cores: usize) -> (r: Readings)
    ensures
        r@ == spec_readings(host@, cores),
{
    let load = match &host.loadavg {
        Some(line) => load_field(line.as_str()),
        None => None,
    };
    let (mem_total, mem_available) = match &host.meminfo {
        Some(table) => {
            let m = memory_fields(table.as_str());
            (m.total, m.available)
        },
        None => (None, None),
    };
    Readings {
        node_name: node_name(&host.node_name),
        load,
        cores,
        mem_total,
        mem_available,
        gpu_count: gpu_count(host.gpu_entries),
    }
}

/// An answer to a request: its status and, where it has a body, the
/// readings that the body carries.
#[derive(Clone, Debug, PartialEq, Eq)]
pub struct Reply {
    pub status: u16,
    pub body: Option<Readings>,
}

/// Answers the liveness probe: success with an empty body, whatever the
/// state of the host.
pub fn healthz() -> (reply: Reply)
    ensures
        reply.status == STATUS_OK,
        reply.body is None,
{
    Reply { status: STATUS_OK, body: None }
}

/// Answers a request for the metrics with the readings of `host` on a
/// machine of `cores` logical processing units: success, on every host
/// state.
pub fn metrics_on(host: &HostState, cores: usize) -> (reply: Reply)
    ensures
        reply.status == STATUS_OK,
        reply.body matches Some(r) && r@ == spec_readings(host@, cores),
{
    Reply { status: STATUS_OK, body: Some(readings(host, cores)) }
}

/// Answers a request for the metrics with the readings of `host` on this
/// machine: success, on every host state. The number of logical
/// processing units is asked of the machine, and is at least one.
pub fn metrics(host: &HostState) -> (reply: Reply)
    ensures
        reply.status == STATUS_OK,
        reply.body matches Some(r) && r.cores >= 1 && r@ == spec_readings(host@, r.cores),
{
    metrics_on(host, logical_cores())
}

/// Two answers to requests for the metrics carry the same readings where
/// the host state and the number of logical processing units are the same:
/// nothing is kept from one request to the next.
pub proof fn lemma_metrics_repeat(first: Reply, second: Reply, host: HostStateView, cores: usize)
    requires
        first.status == STATUS_OK,
        first.body matches Some(r) && r@ == spec_readings(host, cores),
        second.status == STATUS_OK,
        second.body matches Some(r) && r@ == spec_readings(host, cores),
    ensures
        first.status == second.status,
        first.body.unwrap()@ == second.body.unwrap()@,
{
}

/// A source that is missing gives what an empty one gives: no load, no
/// memory values.
pub proof fn lemma_missing_is_empty(key: Seq<char>)
    ensures
        spec_load(None) == spec_load(Some(Seq::<char>::empty())),
        spec_memory_value(None, key) == spec_memory_value(Some(Seq::<char>::empty()), key),
{
}

} // verus!
