use launcherg::scorer::{
    score_process_candidate, select_best_process, ProcessInfo, ProcessSearchConfig,
};

fn b(s: &str) -> Vec<u8> {
    s.as_bytes().to_vec()
}

fn proc_info(pid: u32, exe_path: &str, name: &str) -> ProcessInfo {
    ProcessInfo {
        pid,
        exe_path: b(exe_path),
        name: b(name),
    }
}

#[test]
fn test_process_search_config_default() {
    let config = ProcessSearchConfig::default();
    assert_eq!(config.search_timeout_secs, 180);
    assert_eq!(config.search_interval_secs, 2);
    assert!(config.system_folders.contains(&b("c:\\windows")));
}

#[test]
fn test_select_best_process_empty() {
    let candidates: Vec<(u32, i32)> = vec![];
    let process_names: Vec<(u32, Vec<u8>)> = vec![];

    let result = select_best_process(&candidates, &b("TestGame"), &process_names);
    assert!(result.is_none());
}

#[test]
fn test_select_best_process_single() {
    let pid = 1234u32;
    let candidates = vec![(pid, 100)];
    let process_names = vec![(pid, b("TestGame.exe"))];

    let result = select_best_process(&candidates, &b("TestGame"), &process_names);
    assert_eq!(result, Some(pid));
}

#[test]
fn excluded_prefix_scores_zero_despite_other_signals() {
    let config = ProcessSearchConfig::default();
    // Exact path match, name match and a game folder fragment all present,
    // yet the excluded prefix wins.
    let p = proc_info(7, "C:\\Windows\\steamapps\\Foo.exe", "Foo.exe");
    let score = score_process_candidate(
        &p,
        &b("C:\\Windows\\steamapps\\Foo.exe"),
        &b("Foo"),
        &config,
    );
    assert_eq!(score, 0);
}

#[test]
fn exact_match_beats_every_other_combination() {
    let config = ProcessSearchConfig::default();
    let exact = proc_info(1, "C:\\Games\\Foo\\Foo.exe", "unrelated");
    let exact_score =
        score_process_candidate(&exact, &b("C:\\Games\\Foo\\Foo.exe"), &b("zzz"), &config);
    assert_eq!(exact_score, 100);

    // The best a non-exact candidate can do: name signal plus folder signal.
    let near = proc_info(2, "C:\\Games\\steamapps\\Foo.exe", "Foo.exe");
    let near_score =
        score_process_candidate(&near, &b("C:\\Other\\Foo.exe"), &b("foo"), &config);
    assert_eq!(near_score, 60);
    assert!(exact_score > near_score);
}

#[test]
fn score_is_additive_over_signals() {
    let config = ProcessSearchConfig::default();

    let all = proc_info(1, "C:\\Games\\steamapps\\Foo.exe", "Foo.exe");
    assert_eq!(
        score_process_candidate(&all, &b("C:\\Games\\steamapps\\Foo.exe"), &b("foo"), &config),
        160
    );

    let name_only = proc_info(2, "C:\\Elsewhere\\Bar.exe", "Foo.exe");
    assert_eq!(
        score_process_candidate(&name_only, &b("C:\\Other\\x.exe"), &b("foo"), &config),
        50
    );

    let folder_only = proc_info(3, "C:\\Games\\steamapps\\Bar.exe", "Bar.exe");
    assert_eq!(
        score_process_candidate(&folder_only, &b("C:\\Other\\x.exe"), &b("zzz"), &config),
        10
    );

    let nothing = proc_info(4, "C:\\Elsewhere\\Bar.exe", "Bar.exe");
    assert_eq!(
        score_process_candidate(&nothing, &b("C:\\Other\\x.exe"), &b("zzz"), &config),
        1
    );
}

#[test]
fn name_signal_is_case_insensitive_and_bidirectional() {
    let config = ProcessSearchConfig::default();
    // Game name contains the process name, case-insensitively.
    let p = proc_info(1, "C:\\Elsewhere\\x.exe", "FOO");
    assert_eq!(
        score_process_candidate(&p, &b("C:\\Other\\x.exe"), &b("my foo game"), &config),
        50
    );
}

#[test]
fn exclusion_prefixes_match_case_insensitively() {
    let config = ProcessSearchConfig {
        search_timeout_secs: 180,
        search_interval_secs: 2,
        system_folders: vec![b("C:\\Windows")],
        game_folders: vec![],
    };
    let p = proc_info(1, "c:\\windows\\system32\\x.exe", "x.exe");
    assert_eq!(
        score_process_candidate(&p, &b("C:\\Other\\x.exe"), &b("zzz"), &config),
        0
    );
}

#[test]
fn game_folder_fragments_match_case_insensitively() {
    let config = ProcessSearchConfig::default();
    let as_given = proc_info(1, "C:\\VisualNovel\\Foo.exe", "Bar.exe");
    assert_eq!(
        score_process_candidate(&as_given, &b("C:\\Other\\x.exe"), &b("zzz"), &config),
        10
    );
    let other_case = proc_info(2, "C:\\visualnovel\\Foo.exe", "Bar.exe");
    assert_eq!(
        score_process_candidate(&other_case, &b("C:\\Other\\x.exe"), &b("zzz"), &config),
        10
    );
    let mixed = proc_info(3, "C:\\Games\\SteamApps\\common\\Foo.exe", "Bar.exe");
    assert_eq!(
        score_process_candidate(&mixed, &b("C:\\Other\\x.exe"), &b("zzz"), &config),
        10
    );
}

#[test]
fn tie_break_picks_smaller_name_length_difference() {
    let candidates = vec![(1u32, 60), (2u32, 60)];
    let names = vec![(1u32, b("abcdef")), (2u32, b("abcd"))];
    // Game name length 3: |6-3| = 3 versus |4-3| = 1.
    let result = select_best_process(&candidates, &b("abc"), &names);
    assert_eq!(result, Some(2));
}

#[test]
fn tie_break_is_stable_on_equal_differences() {
    let candidates = vec![(1u32, 60), (2u32, 60)];
    let names = vec![(1u32, b("abcd")), (2u32, b("abcd"))];
    let result = select_best_process(&candidates, &b("abc"), &names);
    assert_eq!(result, Some(1));
}

#[test]
fn candidate_without_name_entry_loses_the_tie() {
    let candidates = vec![(1u32, 60), (2u32, 60)];
    let names = vec![(2u32, b("a-very-long-process-name.exe"))];
    let result = select_best_process(&candidates, &b("x"), &names);
    assert_eq!(result, Some(2));
}

#[test]
fn lower_score_is_never_selected() {
    let candidates = vec![(1u32, 100), (2u32, 60)];
    // Candidate 2 has the perfect name, candidate 1 none at all.
    let names = vec![(1u32, b("a-very-long-process-name.exe")), (2u32, b("abc"))];
    let result = select_best_process(&candidates, &b("abc"), &names);
    assert_eq!(result, Some(1));
}
