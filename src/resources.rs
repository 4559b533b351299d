//! The aggregate of current values, histories and wholesale lists, and how
//! one tick's readings update it.
use vstd::prelude::*;

use crate::history::{pushed, HistoricalMetric};
use crate::metrics::{
    cpu_usage_percent, disk_usage_list, disk_usage_of, mean_cpu_percent, normalize, normalized,
    select_interface, selected, ComponentTemperature, DiskReading, DiskUsageData,
    InterfacePolicy, InterfaceReading, MetricError, NetworkData, ProcessInfo,
};

verus! {

/// Used and total amounts of one kind of memory, in bytes.
#[derive(Clone, Copy, Debug, PartialEq, Eq, Structural)]
pub struct MemoryReading {
    pub used: u64,
    pub total: u64,
}

/// What the metrics source returned for one tick. A field it could not
/// supply this tick is `None`.
#[derive(Clone, Debug)]
pub struct MetricsReading {
    /// Utilization of each core, in hundredths of a percent.
    pub cpu: Option<Vec<u64>>,
    pub ram: Option<MemoryReading>,
    pub swap: Option<MemoryReading>,
    pub disks: Option<Vec<DiskReading>>,
    pub temperatures: Option<Vec<ComponentTemperature>>,
    pub interfaces: Option<Vec<InterfaceReading>>,
    pub processes: Option<Vec<ProcessInfo>>,
}

/// The outcome of a tick for one field.
#[derive(Clone, Copy, Debug, PartialEq, Eq, Structural)]
pub enum FieldStatus {
    Updated,
    Failed(MetricError),
}

/// The outcome of a tick, field by field.
#[derive(Clone, Copy, Debug, PartialEq, Eq, Structural)]
pub struct TickReport {
    pub cpu: FieldStatus,
    pub ram: FieldStatus,
    pub swap: FieldStatus,
    pub disks: FieldStatus,
    pub temperatures: FieldStatus,
    pub network: FieldStatus,
    pub processes: FieldStatus,
    /// The network selection failed this tick and did not on the tick before:
    /// a configuration error is surfaced once per run of failures.
    pub new_configuration_error: bool,
}

/// `Updated` when the source supplied the field, else `SourceUnavailable`.
pub open spec fn status_of<T>(o: Option<T>) -> FieldStatus {
    match o {
        Some(_) => FieldStatus::Updated,
        None => FieldStatus::Failed(MetricError::SourceUnavailable),
    }
}

/// The current values, histories and lists that consumers read, stamped with
/// the number of ticks applied so far.
#[derive(Clone, Debug)]
pub struct SystemResources {
    /// Whole percent.
    pub cpu_usage: HistoricalMetric<u64>,
    pub disk_usage: Vec<DiskUsageData>,
    /// Whole percent.
    pub ram_memory_usage: HistoricalMetric<u64>,
    /// Whole percent.
    pub swap_memory_usage: HistoricalMetric<u64>,
    pub component_temperature: Vec<ComponentTemperature>,
    pub network_usage: HistoricalMetric<NetworkData>,
    pub process_list: Vec<ProcessInfo>,
    pub version: u64,
}

impl SystemResources {
    /// Every history within its capacity.
    pub open spec fn wf(&self) -> bool {
        &&& self.cpu_usage.wf()
        &&& self.ram_memory_usage.wf()
        &&& self.swap_memory_usage.wf()
        &&& self.network_usage.wf()
    }

    /// Empty histories of capacity `history_length`, zero current values,
    /// empty lists, version 0.
    pub fn new(history_length: usize) -> (r: SystemResources)
        ensures
            r.wf(),
            r.version == 0,
            r.cpu_usage.current() == 0,
            r.ram_memory_usage.current() == 0,
            r.swap_memory_usage.current() == 0,
            r.network_usage.current() == NetworkData::zero_spec(),
            r.cpu_usage.window().len() == 0,
            r.ram_memory_usage.window().len() == 0,
            r.swap_memory_usage.window().len() == 0,
            r.network_usage.window().len() == 0,
            r.cpu_usage.capacity() == history_length,
            r.ram_memory_usage.capacity() == history_length,
            r.swap_memory_usage.capacity() == history_length,
            r.network_usage.capacity() == history_length,
            r.disk_usage@.len() == 0,
            r.component_temperature@.len() == 0,
            r.process_list@.len() == 0,
    {
        SystemResources {
            cpu_usage: HistoricalMetric::new(0u64, history_length),
            disk_usage: Vec::new(),
            ram_memory_usage: HistoricalMetric::new(0u64, history_length),
            swap_memory_usage: HistoricalMetric::new(0u64, history_length),
            component_temperature: Vec::new(),
            network_usage: HistoricalMetric::new(NetworkData::zero(), history_length),
            process_list: Vec::new(),
            version: 0,
        }
    }
}

/// A historied metric after a tick: the new value pushed when there is one,
/// else unchanged.
pub open spec fn history_after<T>(h0: HistoricalMetric<T>, h1: HistoricalMetric<T>, v: Option<T>) -> bool {
    match v {
        Some(x) => {
            &&& h1.current() == x
            &&& h1.capacity() == h0.capacity()
            &&& h1.window() == pushed(h0.window(), h0.capacity(), x)
        },
        None => h1 == h0,
    }
}

/// The sampler's state: the aggregate it maintains and the network selection
/// policy it was configured with.
pub struct SystemInfo {
    pub sys_resources: SystemResources,
    pub network_policy: InterfacePolicy,
    /// The network selection failed on the latest tick.
    pub network_failing: bool,
}

impl SystemInfo {
    pub open spec fn wf(&self) -> bool {
        self.sys_resources.wf()
    }

    /// A sampler state with empty histories of capacity `history_length`
    /// that follows the interface that `network_policy` selects.
    pub fn new(network_policy: InterfacePolicy, history_length: usize) -> (r: SystemInfo)
        ensures
            r.wf(),
            r.network_policy == network_policy,
            r.sys_resources.version == 0,
            r.sys_resources.cpu_usage.current() == 0,
            r.sys_resources.ram_memory_usage.current() == 0,
            r.sys_resources.swap_memory_usage.current() == 0,
            r.sys_resources.network_usage.current() == NetworkData::zero_spec(),
            r.sys_resources.cpu_usage.capacity() == history_length,
            r.sys_resources.ram_memory_usage.capacity() == history_length,
            r.sys_resources.swap_memory_usage.capacity() == history_length,
            r.sys_resources.network_usage.capacity() == history_length,
            r.sys_resources.cpu_usage.window().len() == 0,
            r.sys_resources.ram_memory_usage.window().len() == 0,
            r.sys_resources.swap_memory_usage.window().len() == 0,
            r.sys_resources.network_usage.window().len() == 0,
            r.sys_resources.disk_usage@.len() == 0,
            r.sys_resources.component_temperature@.len() == 0,
            r.sys_resources.process_list@.len() == 0,
            !r.network_failing,
    {
        SystemInfo {
            sys_resources: SystemResources::new(history_length),
            network_policy,
            network_failing: false,
        }
    }

    /// Applies one tick's readings. Each field the source supplied is
    /// derived and stored; a field it could not supply keeps its last value,
    /// and a CPU reading with no cores counts as not supplied;
    /// the network counters of the interface the policy selects are pushed,
    /// and when it selects none the network history stays as it was. The
    /// version goes up by one whatever failed.
    pub fn update_info(&mut self, reading: MetricsReading) -> (report: TickReport)
        requires
            old(self).wf(),
            old(self).sys_resources.version < u64::MAX,
        ensures
            final(self).wf(),
            final(self).network_policy == old(self).network_policy,
            final(self).sys_resources.version == old(self).sys_resources.version + 1,
            history_after(
                old(self).sys_resources.cpu_usage,
                final(self).sys_resources.cpu_usage,
                match reading.cpu {
                    Some(v) => if v@.len() > 0 {
                        Some(mean_cpu_percent(v@) as u64)
                    } else {
                        None
                    },
                    None => None,
                },
            ),
            history_after(
                old(self).sys_resources.ram_memory_usage,
                final(self).sys_resources.ram_memory_usage,
                match reading.ram {
                    Some(m) => Some(normalized(m.used as nat, m.total as nat) as u64),
                    None => None,
                },
            ),
            history_after(
                old(self).sys_resources.swap_memory_usage,
                final(self).sys_resources.swap_memory_usage,
                match reading.swap {
                    Some(m) => Some(normalized(m.used as nat, m.total as nat) as u64),
                    None => None,
                },
            ),
            history_after(
                old(self).sys_resources.network_usage,
                final(self).sys_resources.network_usage,
                match reading.interfaces {
                    Some(ifs) => selected(old(self).network_policy, ifs@),
                    None => None,
                },
            ),
            match reading.disks {
                Some(ds) => {
                    &&& final(self).sys_resources.disk_usage@.len() == ds@.len()
                    &&& forall|i: int| 0 <= i < ds@.len()
                        ==> disk_usage_of(#[trigger] ds@[i], final(self).sys_resources.disk_usage@[i])
                },
                None => final(self).sys_resources.disk_usage == old(self).sys_resources.disk_usage,
            },
            match reading.temperatures {
                Some(ts) => final(self).sys_resources.component_temperature@ == ts@,
                None => final(self).sys_resources.component_temperature
                    == old(self).sys_resources.component_temperature,
            },
            match reading.processes {
                Some(ps) => final(self).sys_resources.process_list@ == ps@,
                None => final(self).sys_resources.process_list == old(self).sys_resources.process_list,
            },
            report.cpu == match reading.cpu {
                Some(v) => if v@.len() > 0 {
                    FieldStatus::Updated
                } else {
                    FieldStatus::Failed(MetricError::SourceUnavailable)
                },
                None => FieldStatus::Failed(MetricError::SourceUnavailable),
            },
            report.ram == status_of(reading.ram),
            report.swap == status_of(reading.swap),
            report.disks == status_of(reading.disks),
            report.temperatures == status_of(reading.temperatures),
            report.processes == status_of(reading.processes),
            report.network == match reading.interfaces {
                None => FieldStatus::Failed(MetricError::SourceUnavailable),
                Some(ifs) => match selected(old(self).network_policy, ifs@) {
                    Some(_) => FieldStatus::Updated,
                    None => FieldStatus::Failed(MetricError::ConfigurationError),
                },
            },
            final(self).network_failing
                == (report.network == FieldStatus::Failed(MetricError::ConfigurationError)),
            report.new_configuration_error
                == (final(self).network_failing && !old(self).network_failing),
    {
        let MetricsReading { cpu, ram, swap, disks, temperatures, interfaces, processes } = reading;
        let res = &mut self.sys_resources;

        let cpu_status = match cpu {
            Some(per_core) => if per_core.len() > 0 {
                res.cpu_usage.update(cpu_usage_percent(&per_core));
                FieldStatus::Updated
            } else {
                FieldStatus::Failed(MetricError::SourceUnavailable)
            },
            None => FieldStatus::Failed(MetricError::SourceUnavailable),
        };
        let ram_status = match ram {
            Some(m) => {
                res.ram_memory_usage.update(normalize(m.used, m.total));
                FieldStatus::Updated
            },
            None => FieldStatus::Failed(MetricError::SourceUnavailable),
        };
        let swap_status = match swap {
            Some(m) => {
                res.swap_memory_usage.update(normalize(m.used, m.total));
                FieldStatus::Updated
            },
            None => FieldStatus::Failed(MetricError::SourceUnavailable),
        };
        let disk_status = match disks {
            Some(ds) => {
                res.disk_usage = disk_usage_list(&ds);
                FieldStatus::Updated
            },
            None => FieldStatus::Failed(MetricError::SourceUnavailable),
        };
        let temperature_status = match temperatures {
            Some(ts) => {
                res.component_temperature = ts;
                FieldStatus::Updated
            },
            None => FieldStatus::Failed(MetricError::SourceUnavailable),
        };
        let network_status = match interfaces {
            Some(ifs) => match select_interface(&self.network_policy, &ifs) {
                Ok(d) => {
                    res.network_usage.update(d);
                    FieldStatus::Updated
                },
                Err(e) => FieldStatus::Failed(e),
            },
            None => FieldStatus::Failed(MetricError::SourceUnavailable),
        };
        let process_status = match processes {
            Some(ps) => {
                res.process_list = ps;
                FieldStatus::Updated
            },
            None => FieldStatus::Failed(MetricError::SourceUnavailable),
        };
        res.version = res.version + 1;

        let failing = match network_status {
            FieldStatus::Failed(MetricError::ConfigurationError) => true,
            _ => false,
        };
        let new_configuration_error = failing && !self.network_failing;
        self.network_failing = failing;
        TickReport {
            cpu: cpu_status,
            ram: ram_status,
            swap: swap_status,
            disks: disk_status,
            temperatures: temperature_status,
            network: network_status,
            processes: process_status,
            new_configuration_error,
        }
    }
}

} // verus!
