use killa::KillaData;
use killa::MemHarvest;
use killa::Row;
use killa::SearchFilterColumn;
use killa::SearchFilters;

fn row(name: &str, pid: i32, command: &str, mem_bytes: u64, cpu_tenths: u64, time_ms: u64) -> Row {
    Row {
        program_name: name.to_string(),
        program_name_lowercase: name.to_lowercase(),
        mem_bytes,
        cpu_tenths,
        pid,
        command: command.to_string(),
        command_lowercase: command.to_lowercase(),
        cpu_time_ms: time_ms,
    }
}

fn sample_data() -> KillaData {
    KillaData {
        rows: vec![
            row("init", 1, "init", 100_000, 0, 20_000),
            row("killa", 2, "/nix/store/xxxxxxxxxxxx-killa", 300_000, 22, 10_000),
            row("firefox", 3, "firefox --flag1", 100_000_000, 100, 100_000),
        ],
        memory: MemHarvest { used_bytes: 50, total_bytes: 100 },
    }
}

#[test]
fn test_searchfilters_parse_pid() {
    let case = "pid:123";
    let sf = SearchFilters::best_effort_parse_from_string(case).0;
    assert_eq!(sf.len(), 1);
    assert!(!sf[0].is_negative);
    assert!(matches!(sf[0].column, Ok(SearchFilterColumn::Pid)));
    assert_eq!(sf[0].phrase, "123");
}

#[test]
fn test_searchfilters_parse_negative_name() {
    let case = "-name:killa";
    let sf = SearchFilters::best_effort_parse_from_string(case).0;
    assert_eq!(sf.len(), 1);
    assert!(sf[0].is_negative);
    assert!(matches!(sf[0].column, Ok(SearchFilterColumn::Name)));
    assert_eq!(sf[0].phrase, "killa");
}

#[test]
fn test_searchfilters_parse_many() {
    let case = "cmd:cargo name:rust";
    let sf = SearchFilters::best_effort_parse_from_string(case).0;

    assert_eq!(sf.len(), 2);

    assert!(!sf[0].is_negative);
    assert!(matches!(sf[0].column, Ok(SearchFilterColumn::Command)));
    assert_eq!(sf[0].phrase, "cargo");

    assert!(!sf[1].is_negative);
    assert!(matches!(sf[1].column, Ok(SearchFilterColumn::Name)));
    assert_eq!(sf[1].phrase, "rust");
}

#[test]
fn test_searchfilters_parse_unknown_column() {
    let case = "-unknown:killa";
    let sf = SearchFilters::best_effort_parse_from_string(case).0;
    assert_eq!(sf.len(), 1);
    assert!(sf[0].is_negative);
    assert!(sf[0].column.is_err());
    assert_eq!(sf[0].phrase, "killa");
}

#[test]
fn test_search() {
    let data = sample_data();
    let s = "-pid:1 name:killa";
    let result = KillaData::search(data.clone(), s);

    assert_eq!(result.rows.len(), 1);
    assert_eq!(result.rows[0].program_name, "killa");
}

#[test]
fn search_uppercase_column_prefix_is_folded() {
    let sf = SearchFilters::best_effort_parse_from_string("PID:5").0;
    assert_eq!(sf.len(), 1);
    assert!(matches!(sf[0].column, Ok(SearchFilterColumn::Pid)));
    assert_eq!(sf[0].phrase, "5");
}

#[test]
fn search_uppercase_phrase_matches_lowercase_row() {
    let result = sample_data().search("NAME:KILLA");
    assert_eq!(result.rows.len(), 1);
    assert_eq!(result.rows[0].program_name, "killa");
}

#[test]
fn search_empty_phrase_keeps_all_rows() {
    // A bare column prefix carries an empty phrase and is vacuous, for any
    // column target; so are an empty search string and pure whitespace.
    for query in ["", "   ", "name:", "pid:", "cmd:", "any:", "-name:"] {
        let result = sample_data().search(query);
        assert_eq!(result.rows.len(), 3, "query {:?} must keep every row", query);
        assert_eq!(result.rows[0].program_name, "init");
        assert_eq!(result.rows[1].program_name, "killa");
        assert_eq!(result.rows[2].program_name, "firefox");
    }
}

#[test]
fn search_negation_partitions_rows() {
    let kept = sample_data().search("name:k");
    let dropped = sample_data().search("-name:k");
    // "k" occurs only in "killa".
    assert_eq!(kept.rows.len(), 1);
    assert_eq!(dropped.rows.len(), 2);
    let mut pids: Vec<i32> = kept.rows.iter().chain(dropped.rows.iter()).map(|r| r.pid).collect();
    pids.sort();
    assert_eq!(pids, vec![1, 2, 3]);
    for k in &kept.rows {
        assert!(dropped.rows.iter().all(|d| d.pid != k.pid));
    }
}

#[test]
fn search_pid_filter_is_exact_not_substring() {
    let data = KillaData {
        rows: vec![
            row("a", 1, "a", 0, 0, 0),
            row("b", 2, "b", 0, 0, 0),
            row("c", 12, "c", 0, 0, 0),
        ],
        memory: MemHarvest { used_bytes: 0, total_bytes: 0 },
    };
    let result = data.search("pid:1");
    assert_eq!(result.rows.len(), 1);
    assert_eq!(result.rows[0].pid, 1);
}

#[test]
fn search_unknown_column_never_matches() {
    let none = sample_data().search("foo:bar");
    assert_eq!(none.rows.len(), 0);
    // The invalid token fails closed without disturbing the valid one: the
    // compound query matches nothing, while the valid token alone matches.
    let compound = sample_data().search("name:init foo:bar");
    assert_eq!(compound.rows.len(), 0);
    let valid_alone = sample_data().search("name:init");
    assert_eq!(valid_alone.rows.len(), 1);
}

#[test]
fn search_any_column_matches_name_command_or_pid() {
    // "flag" only occurs in firefox's command line.
    let by_command = sample_data().search("flag");
    assert_eq!(by_command.rows.len(), 1);
    assert_eq!(by_command.rows[0].program_name, "firefox");
    // A bare number matches the pid exactly, and any name containing it.
    let by_pid = sample_data().search("2");
    assert_eq!(by_pid.rows.len(), 1);
    assert_eq!(by_pid.rows[0].pid, 2);
}

#[test]
fn search_matches_negative_pid_exactly() {
    let data = KillaData {
        rows: vec![row("a", -5, "a", 0, 0, 0), row("b", 5, "b", 0, 0, 0)],
        memory: MemHarvest { used_bytes: 0, total_bytes: 0 },
    };
    let result = data.search("pid:-5");
    assert_eq!(result.rows.len(), 1);
    assert_eq!(result.rows[0].pid, -5);
}

#[test]
fn search_folds_case_beyond_ascii() {
    let data = KillaData {
        rows: vec![row("Café", 1, "café --serve", 0, 0, 0)],
        memory: MemHarvest { used_bytes: 0, total_bytes: 0 },
    };
    let result = data.clone().search("name:CAFÉ");
    assert_eq!(result.rows.len(), 1);
    let result = data.search("name:tea");
    assert_eq!(result.rows.len(), 0);
}

#[test]
fn search_end_to_end_example() {
    let result = sample_data().search("-pid:1 name:killa");
    assert_eq!(result.rows.len(), 1);
    assert_eq!(result.rows[0].program_name, "killa");
    assert_eq!(result.rows[0].pid, 2);
    assert_eq!(result.rows[0].command, "/nix/store/xxxxxxxxxxxx-killa");
    assert_eq!(result.memory.used_bytes, 50);
    assert_eq!(result.memory.total_bytes, 100);
}
