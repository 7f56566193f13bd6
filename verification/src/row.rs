//! The row and column model: one process's displayed state, the set of table
//! columns, and the system-wide memory totals.

use vstd::prelude::*;

verus! {

/// One process's displayed state.  Rows are immutable value snapshots: they
/// are recreated wholesale on each accepted update, never patched in place.
///
/// The lowercase copies of the name and the command line are computed once,
/// when the row is built, because the search runs over the full row set on
/// every keystroke.  CPU usage is kept in tenths of a percent and memory in
/// raw bytes, so that sorting never depends on a lossily rounded display
/// value.
#[derive(Debug)]
pub struct Row {
    pub program_name: String,
    /// Lowercase copy of `program_name`; index for the search.
    pub program_name_lowercase: String,
    /// Memory usage in bytes.  The table shows whole megabytes, but the sort
    /// key keeps full precision.
    pub mem_bytes: u64,
    /// CPU usage normalized by the number of logical cores, in tenths of a
    /// percent.
    pub cpu_tenths: u64,
    pub pid: i32,
    pub command: String,
    /// Lowercase copy of `command`; index for the search.
    pub command_lowercase: String,
    /// Cumulative CPU time, in milliseconds.
    pub cpu_time_ms: u64,
}

impl Clone for Row {
    /// A deep copy, equal to the original.
    fn clone(&self) -> (r: Self)
        ensures
            r == *self,
    {
        Row {
            program_name: self.program_name.clone(),
            program_name_lowercase: self.program_name_lowercase.clone(),
            mem_bytes: self.mem_bytes,
            cpu_tenths: self.cpu_tenths,
            pid: self.pid,
            command: self.command.clone(),
            command_lowercase: self.command_lowercase.clone(),
            cpu_time_ms: self.cpu_time_ms,
        }
    }
}

impl Row {
    /// Memory usage rounded down to whole megabytes, as the table displays it.
    pub fn mem_mb(&self) -> (r: u64)
        ensures
            r == self.mem_bytes / 1_000_000,
    {
        self.mem_bytes / 1_000_000
    }
}

/// The table's columns.
#[derive(Clone, Copy, Debug, PartialEq, Eq, Structural)]
pub enum ColumnKind {
    Name,
    Memory,
    Cpu,
    Pid,
    Command,
    Started,
    CpuTime,
}

impl ColumnKind {
    /// The column's header label, as the table shows it.
    pub fn label(&self) -> (r: String)
        ensures
            r@ == (match self {
                ColumnKind::Name => "Name"@,
                ColumnKind::Memory => "Memory"@,
                ColumnKind::Cpu => "CPU"@,
                ColumnKind::Pid => "ID"@,
                ColumnKind::Command => "Command"@,
                ColumnKind::Started => "Started"@,
                ColumnKind::CpuTime => "Time"@,
            }),
    {
        match self {
            ColumnKind::Name => String::from_str("Name"),
            ColumnKind::Memory => String::from_str("Memory"),
            ColumnKind::Cpu => String::from_str("CPU"),
            ColumnKind::Pid => String::from_str("ID"),
            ColumnKind::Command => String::from_str("Command"),
            ColumnKind::Started => String::from_str("Started"),
            ColumnKind::CpuTime => String::from_str("Time"),
        }
    }
}

/// System-wide memory totals of one snapshot.
#[derive(Clone, Copy, Debug, PartialEq, Eq, Structural)]
pub struct MemHarvest {
    pub used_bytes: u64,
    pub total_bytes: u64,
}

impl MemHarvest {
    /// What `checked_percent_tenths` returns: used memory as a share of total
    /// memory, in tenths of a percent, or `None` when the total is zero.
    pub open spec fn spec_percent_tenths(self) -> Option<u64> {
        if self.total_bytes == 0 {
            None
        } else {
            let q = self.used_bytes * 1000 / self.total_bytes as int;
            if q > u64::MAX {
                Some(u64::MAX)
            } else {
                Some(q as u64)
            }
        }
    }

    /// Used memory as a share of total memory, in tenths of a percent.
    /// A zero total yields `None` instead of a division by zero.
    pub fn checked_percent_tenths(&self) -> (r: Option<u64>)
        ensures
            r == self.spec_percent_tenths(),
    {
        if self.total_bytes == 0 {
            None
        } else {
            let q: u128 = (self.used_bytes as u128) * 1000 / (self.total_bytes as u128);
            if q > u64::MAX as u128 {
                Some(u64::MAX)
            } else {
                Some(q as u64)
            }
        }
    }
}

impl Default for MemHarvest {
    /// Empty totals: no memory seen yet.
    fn default() -> (r: Self)
        ensures
            r.used_bytes == 0,
            r.total_bytes == 0,
    {
        MemHarvest { used_bytes: 0, total_bytes: 0 }
    }
}

} // verus!
