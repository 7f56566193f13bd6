use killa::App;
use killa::ColumnKind;
use killa::Effect;
use killa::Freeze;
use killa::KillaData;
use killa::MemHarvest;
use killa::Message;
use killa::Row;
use killa::SignalKind;
use killa::SortOrder;
use killa::TextInputAction;

fn row(name: &str, pid: i32, mem_bytes: u64, cpu_tenths: u64) -> Row {
    Row {
        program_name: name.to_string(),
        program_name_lowercase: name.to_lowercase(),
        mem_bytes,
        cpu_tenths,
        pid,
        command: name.to_string(),
        command_lowercase: name.to_lowercase(),
        cpu_time_ms: 0,
    }
}

fn snapshot(rows: Vec<Row>) -> KillaData {
    KillaData { rows, memory: MemHarvest { used_bytes: 10, total_bytes: 100 } }
}

fn pids(rows: &[Row]) -> Vec<i32> {
    rows.iter().map(|r| r.pid).collect()
}

#[test]
fn sort_ascending_descending_ascending_restores_order() {
    // Ties on the key (pids 2 and 4 share a memory value) exercise
    // stability: an even number of direction flips restores the first
    // ascending order exactly.
    let rows = vec![
        row("a", 1, 500, 0),
        row("b", 2, 100, 0),
        row("c", 3, 900, 0),
        row("d", 4, 100, 0),
    ];
    for column in [ColumnKind::Memory, ColumnKind::Cpu, ColumnKind::Pid] {
        let mut data = snapshot(rows.clone());
        data.sort_by_column(column, SortOrder::Ascending);
        let first = pids(&data.rows);
        data.sort_by_column(column, SortOrder::Descending);
        data.sort_by_column(column, SortOrder::Ascending);
        assert_eq!(pids(&data.rows), first);
    }
}

#[test]
fn sort_by_memory_uses_raw_bytes_and_direction() {
    let mut data = snapshot(vec![row("a", 1, 500, 0), row("b", 2, 100, 0), row("c", 3, 900, 0)]);
    data.sort_by_column(ColumnKind::Memory, SortOrder::Ascending);
    assert_eq!(pids(&data.rows), vec![2, 1, 3]);
    data.sort_by_column(ColumnKind::Memory, SortOrder::Descending);
    assert_eq!(pids(&data.rows), vec![3, 1, 2]);
}

#[test]
fn sort_is_stable_on_equal_keys() {
    let mut data = snapshot(vec![row("a", 1, 100, 5), row("b", 2, 100, 5), row("c", 3, 50, 5)]);
    data.sort_by_column(ColumnKind::Memory, SortOrder::Ascending);
    // Rows 1 and 2 share the key; their original relative order survives.
    assert_eq!(pids(&data.rows), vec![3, 1, 2]);
    let mut by_cpu = snapshot(vec![row("a", 1, 0, 5), row("b", 2, 0, 5), row("c", 3, 0, 5)]);
    by_cpu.sort_by_column(ColumnKind::Cpu, SortOrder::Descending);
    assert_eq!(pids(&by_cpu.rows), vec![1, 2, 3]);
}

#[test]
fn sort_by_text_column_is_a_no_op() {
    let mut data = snapshot(vec![row("zeta", 1, 500, 0), row("alpha", 2, 100, 0)]);
    data.sort_by_column(ColumnKind::Name, SortOrder::Ascending);
    assert_eq!(pids(&data.rows), vec![1, 2]);
    data.sort_by_column(ColumnKind::Command, SortOrder::Ascending);
    assert_eq!(pids(&data.rows), vec![1, 2]);
}

#[test]
fn collected_data_replaces_rows_when_not_frozen() {
    let mut app = App::default();
    app.update(Message::CollectedData(snapshot(vec![row("init", 1, 10, 0)])));
    assert_eq!(pids(&app.rows), vec![1]);
    app.update(Message::CollectedData(snapshot(vec![row("init", 1, 10, 0), row("k", 2, 5, 0)])));
    assert_eq!(app.rows.len(), 2);
}

#[test]
fn freeze_buffers_snapshots_and_commits_the_latest() {
    let mut app = App::default();
    app.update(Message::CollectedData(snapshot(vec![row("init", 1, 10, 0)])));
    let before = pids(&app.rows);

    app.update(Message::Freeze(true));
    assert!(matches!(app.freeze, Freeze::Enabled(_)));

    // Repeated deliveries while frozen never change the visible rows.
    for n in 2..=5 {
        let rows: Vec<Row> = (1..=n).map(|p| row("proc", p, 10, 0)).collect();
        app.update(Message::CollectedData(snapshot(rows)));
        assert_eq!(pids(&app.rows), before);
    }

    // Unfreezing shows exactly the latest buffered snapshot (5 rows), not an
    // intermediate one.
    app.update(Message::ToggleFreeze);
    assert!(matches!(app.freeze, Freeze::Disabled));
    assert_eq!(app.rows.len(), 5);
}

#[test]
fn freeze_enable_without_pending_keeps_live_data() {
    let mut app = App::default();
    app.update(Message::CollectedData(snapshot(vec![row("init", 1, 10, 0)])));
    app.update(Message::Freeze(true));
    // No snapshot arrives; disabling leaves the data exactly as frozen.
    app.update(Message::ToggleFreeze);
    assert_eq!(pids(&app.rows), vec![1]);
}

#[test]
fn stage_signal_requires_freeze_and_long_phrase() {
    let mut app = App::default();
    app.update(Message::CollectedData(snapshot(vec![row("killa", 2, 10, 0)])));

    // Not frozen: staging has no effect.
    app.update(Message::Search(TextInputAction::Replace("killa".to_string())));
    app.update(Message::StageSignalAllFiltered(SignalKind::Term));
    assert!(app.staged_sig_all_filtered.is_none());

    // Frozen but the phrase is too short.
    app.update(Message::Search(TextInputAction::Replace("ki".to_string())));
    app.update(Message::Freeze(true));
    app.update(Message::StageSignalAllFiltered(SignalKind::Term));
    assert!(app.staged_sig_all_filtered.is_none());

    // Frozen with a phrase at the minimum length: staging works.
    app.update(Message::Freeze(false));
    app.update(Message::Search(TextInputAction::Replace("kill".to_string())));
    app.update(Message::Freeze(true));
    app.update(Message::StageSignalAllFiltered(SignalKind::Term));
    assert_eq!(app.staged_sig_all_filtered, Some(SignalKind::Term));
}

#[test]
fn sort_field_change_clears_staged_signal() {
    let mut app = App::default();
    app.update(Message::CollectedData(snapshot(vec![row("killa", 2, 10, 0)])));
    app.update(Message::Search(TextInputAction::Replace("killa".to_string())));
    app.update(Message::Freeze(true));
    app.update(Message::StageSignalAllFiltered(SignalKind::Kill));
    assert_eq!(app.staged_sig_all_filtered, Some(SignalKind::Kill));
    app.update(Message::SetSortField(ColumnKind::Memory));
    assert!(app.staged_sig_all_filtered.is_none());
}

#[test]
fn back_clears_staged_signal_and_releases_freeze() {
    let mut app = App::default();
    app.update(Message::CollectedData(snapshot(vec![row("killa", 2, 10, 0)])));
    app.update(Message::Search(TextInputAction::Replace("killa".to_string())));
    app.update(Message::Freeze(true));
    app.update(Message::StageSignalAllFiltered(SignalKind::Term));
    assert!(app.staged_sig_all_filtered.is_some());
    app.update(Message::Back);
    assert!(app.staged_sig_all_filtered.is_none());
    assert!(matches!(app.freeze, Freeze::Disabled));
}

#[test]
fn enter_dispatches_to_all_filtered_pids_and_refreezes() {
    let mut app = App::default();
    let rows = vec![row("killa", 2, 10, 0), row("killall", 7, 10, 0), row("init", 1, 10, 0)];
    app.update(Message::CollectedData(snapshot(rows)));
    app.update(Message::Search(TextInputAction::Replace("kill".to_string())));
    app.update(Message::Freeze(true));
    app.update(Message::StageSignalAllFiltered(SignalKind::Term));

    let eff = app.update(Message::Enter);
    match eff {
        Effect::Dispatch { signal, pids } => {
            assert_eq!(signal, SignalKind::Term);
            assert_eq!(pids, vec![2, 7]);
        },
        other => panic!("expected a dispatch effect, got {:?}", other),
    }
    // The staged signal is cleared and the view is re-frozen on fresh data.
    assert!(app.staged_sig_all_filtered.is_none());
    assert!(matches!(app.freeze, Freeze::Enabled(None)));
}

#[test]
fn enter_without_staged_signal_does_nothing() {
    let mut app = App::default();
    app.update(Message::CollectedData(snapshot(vec![row("init", 1, 10, 0)])));
    let eff = app.update(Message::Enter);
    assert!(matches!(eff, Effect::NoOp));
    assert_eq!(pids(&app.rows), vec![1]);
}

#[test]
fn search_only_narrows_while_visible() {
    let mut app = App::default();
    let rows = vec![row("init", 1, 10, 0), row("killa", 2, 10, 0)];
    app.update(Message::CollectedData(snapshot(rows)));
    assert_eq!(app.rows.len(), 2);
    app.update(Message::Search(TextInputAction::Replace("killa".to_string())));
    assert_eq!(pids(&app.rows), vec![2]);
    // Hiding the search box shows the full set again.
    app.update(Message::Search(TextInputAction::Hide));
    assert_eq!(app.rows.len(), 2);
}

#[test]
fn search_append_and_pop_edit_the_phrase() {
    let mut app = App::default();
    let rows = vec![row("init", 1, 10, 0), row("killa", 2, 10, 0)];
    app.update(Message::CollectedData(snapshot(rows)));
    app.update(Message::Search(TextInputAction::Append("k".to_string())));
    app.update(Message::Search(TextInputAction::Append("i".to_string())));
    assert_eq!(app.search.text, "ki");
    assert_eq!(pids(&app.rows), vec![2]);
    app.update(Message::Search(TextInputAction::PopLastChar));
    assert_eq!(app.search.text, "k");
    app.update(Message::Search(TextInputAction::PopLastChar));
    app.update(Message::Search(TextInputAction::PopLastChar));
    assert_eq!(app.search.text, "");
    assert_eq!(app.rows.len(), 2);
}
