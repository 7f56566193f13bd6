//! Core of a process-monitor: a live, sortable, searchable table of running
//! processes.
//!
//! The library is the UI-toolkit-independent pipeline: raw system snapshots
//! are transformed into display rows, ordered by a sort engine, narrowed by a
//! small filter query language, gated by a freeze state machine, and acted on
//! by a staged signal-dispatch workflow.  All of it is verified; the
//! executable around it (collection worker, terminal, OS calls) lives outside.

pub mod bridge;
pub mod download;
pub mod every;
pub mod process_data;
pub mod row;
pub mod sort;
pub mod text;
pub mod transform;
pub mod ui;
pub mod uptimes;

pub use bridge::BridgePoll;
pub use bridge::Collector;
pub use bridge::Input;
pub use bridge::PollEvent;
pub use download::Error;
pub use download::Progress;
pub use download::ProgressTracker;
pub use every::every;
pub use every::Every;
pub use process_data::KillaData;
pub use process_data::SearchFilter;
pub use process_data::SearchFilterColumn;
pub use process_data::SearchFilters;
pub use row::ColumnKind;
pub use row::MemHarvest;
pub use row::Row;
pub use sort::ProcessListSort;
pub use sort::SortOrder;
pub use transform::ProcRecord;
pub use transform::RawData;
pub use ui::App;
pub use ui::Effect;
pub use ui::Freeze;
pub use ui::Message;
pub use ui::SignalKind;
pub use ui::TextInputAction;
pub use uptimes::ProcessUptimeCollector;
