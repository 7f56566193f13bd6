//! The snapshot transformer: maps a raw snapshot (process list plus memory
//! totals) into the row model, computing the derived fields — CPU percent
//! normalized by the number of logical cores, and the lowercase search keys,
//! computed once per row rather than on every keystroke.

use vstd::prelude::*;

use crate::process_data::KillaData;
use crate::row::MemHarvest;
use crate::row::Row;
use crate::text::lower_of;
use crate::text::to_lowercase;

verus! {

/// One process record as the metrics source reports it.
#[derive(Debug)]
pub struct ProcRecord {
    pub name: String,
    pub pid: i32,
    pub command: String,
    pub mem_usage_bytes: u64,
    /// CPU usage summed over all cores, in hundredths of a percent.
    pub cpu_centi: u64,
    /// Cumulative CPU time, in milliseconds.
    pub time_ms: u64,
}

/// A raw snapshot: the collected state before transformation.  The metrics
/// source may omit either part.
#[derive(Debug)]
pub struct RawData {
    pub list_of_processes: Option<Vec<ProcRecord>>,
    pub memory: Option<MemHarvest>,
}

/// Relies on `num_cpus::get`: the number of logical cores of the running
/// system, which is documented to always be at least one.
#[verifier::external_body]
fn cpu_count() -> (n: usize)
    ensures
        1 <= n,
{
    num_cpus::get()
}

/// The row a record maps to, given the core count: same identity fields, raw
/// memory bytes kept, CPU normalized to tenths of a percent per core, and the
/// lowercase search keys precomputed.
pub open spec fn row_of_record(row: Row, rec: ProcRecord, cores: int) -> bool {
    &&& row.program_name == rec.name
    &&& row.program_name_lowercase@ == lower_of(rec.name@)
    &&& row.mem_bytes == rec.mem_usage_bytes
    &&& row.cpu_tenths == rec.cpu_centi as int / (10 * cores)
    &&& row.pid == rec.pid
    &&& row.command == rec.command
    &&& row.command_lowercase@ == lower_of(rec.command@)
    &&& row.cpu_time_ms == rec.time_ms
}

/// Build one row from one record.
fn make_row(rec: &ProcRecord, cores: usize) -> (row: Row)
    requires
        1 <= cores,
    ensures
        row_of_record(row, *rec, cores as int),
{
    let name_lower = to_lowercase(rec.name.as_str());
    let command_lower = to_lowercase(rec.command.as_str());
    let cpu_tenths = (rec.cpu_centi / 10) / (cores as u64);
    proof {
        vstd::arithmetic::div_mod::lemma_div_denominator(
            rec.cpu_centi as int,
            10,
            cores as int,
        );
    }
    Row {
        program_name: rec.name.clone(),
        program_name_lowercase: name_lower,
        mem_bytes: rec.mem_usage_bytes,
        cpu_tenths,
        pid: rec.pid,
        command: rec.command.clone(),
        command_lowercase: command_lower,
        cpu_time_ms: rec.time_ms,
    }
}

/// The rows are exactly the transform of the snapshot's records for the
/// given core count: one row per record, in order.
pub open spec fn rows_transformed(rows: Seq<Row>, data: RawData, cores: int) -> bool {
    &&& 1 <= cores
    &&& (match data.list_of_processes {
        Some(recs) => rows.len() == recs@.len() && (forall|i: int|
            0 <= i < recs@.len() ==> row_of_record(#[trigger] rows[i], recs@[i], cores)),
        None => rows.len() == 0,
    })
}

impl KillaData {
    /// Transform a raw snapshot with an explicit core count: one row per
    /// record, in order; missing parts of the snapshot become empty values.
    pub fn from_data(data: RawData, cores: usize) -> (r: Self)
        requires
            1 <= cores,
        ensures
            rows_transformed(r.rows@, data, cores as int),
            r.memory == (match data.memory {
                Some(m) => m,
                None => MemHarvest { used_bytes: 0, total_bytes: 0 },
            }),
    {
        let memory = match data.memory {
            Some(m) => m,
            None => MemHarvest { used_bytes: 0, total_bytes: 0 },
        };
        let mut rows: Vec<Row> = Vec::new();
        match data.list_of_processes {
            None => KillaData { rows, memory },
            Some(recs) => {
                let mut i: usize = 0;
                while i < recs.len()
                    invariant
                        1 <= cores,
                        i <= recs@.len(),
                        rows@.len() == i,
                        forall|j: int|
                            0 <= j < i ==> row_of_record(
                                #[trigger] rows@[j],
                                recs@[j],
                                cores as int,
                            ),
                    decreases recs@.len() - i,
                {
                    let row = make_row(&recs[i], cores);
                    rows.push(row);
                    i += 1;
                }
                KillaData { rows, memory }
            },
        }
    }

    /// Transform a raw snapshot, normalizing CPU by the logical cores of the
    /// running system.  Whatever count the system reports, it is at least
    /// one, and the rows are exactly the transform for that count.
    pub fn from_collected(data: RawData) -> (r: Self)
        ensures
            exists|cores: int| #[trigger] rows_transformed(r.rows@, data, cores),
            r.memory == (match data.memory {
                Some(m) => m,
                None => MemHarvest { used_bytes: 0, total_bytes: 0 },
            }),
    {
        let cores = cpu_count();
        let r = KillaData::from_data(data, cores);
        proof {
            assert(1 <= cores as int);
        }
        r
    }
}

} // verus!
