use vstd::prelude::*;
use crate::keyed::LabelMap;

verus! {

/// Label key to the patterns that its value may match.
pub type MatchLabels = Vec<(String, Vec<String>)>;

/// One probe target.
pub struct ProbeConfig {
    pub name: String,
    pub host: String,
    pub check_type: String,
    /// Seconds between two rounds of probes.
    pub interval: u64,
    pub labels: LabelMap,
    /// Payload sizes, in bytes, of the echo probes.
    pub mtu: Vec<u64>,
    /// Seconds between two payload sizes of one round.
    pub mtu_interval: u64,
    pub port: u16,
    /// Seconds that a reply is waited for.
    pub timeout: u64,
    /// Divisor applied to round-trip times measured in microseconds.
    pub precision: u64,
    pub source_ip: String,
}

/// An aggregator rule.
pub struct ProcessConfig {
    pub id: u16,
    pub process_name: String,
    /// Record, as the label `value`, which metric key was aggregated.
    pub keep_name: bool,
    pub labels_to_add: LabelMap,
    pub match_labels: MatchLabels,
    /// The statistics to compute: `avg`, `low`, `high` and `sum`.
    pub values: Vec<String>,
    /// The metric key that a sample must carry to be aggregated here.
    pub match_value: String,
    /// The window: a number of samples, or seconds.
    pub interval: u64,
}

/// An output rule.
pub struct OutputConfig {
    pub id: u16,
    pub output_name: String,
    pub match_labels: MatchLabels,
    pub address: String,
    pub prefix: String,
    /// Label keys whose values make up a line's metric path, in order.
    pub names: Vec<String>,
    pub max_buffer: u64,
}

} // verus!
