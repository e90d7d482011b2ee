use launcherg::launcher::{
    is_lnk_path, is_path_related_error, parent_dir, plan_launch, set_target_path,
    soft_invalidate, LaunchError, LaunchMethod, LaunchResult, LaunchTarget,
};

fn b(s: &str) -> Vec<u8> {
    s.as_bytes().to_vec()
}

#[test]
fn test_is_path_related_error() {
    // ERROR_FILE_NOT_FOUND (2)
    let error = std::io::Error::from_raw_os_error(2);
    assert!(is_path_related_error(error.raw_os_error()));

    // ERROR_PATH_NOT_FOUND (3)
    let error = std::io::Error::from_raw_os_error(3);
    assert!(is_path_related_error(error.raw_os_error()));

    // Other error
    let error = std::io::Error::from_raw_os_error(1);
    assert!(!is_path_related_error(error.raw_os_error()));
}

#[test]
fn path_related_codes_are_exactly_2_3_267() {
    assert!(is_path_related_error(Some(2)));
    assert!(is_path_related_error(Some(3)));
    assert!(is_path_related_error(Some(267)));
    // Access denied is not path-related.
    assert!(!is_path_related_error(Some(5)));
    // An error that carries no OS code is not path-related.
    assert!(!is_path_related_error(None));
}

#[test]
fn plan_prefers_the_executable_path() {
    let target = LaunchTarget {
        display_name: b("Foo"),
        exe_path: Some(b("C:\\Games\\Foo\\foo.exe")),
        lnk_path: Some(b("C:\\Users\\x\\foo.lnk")),
    };
    match plan_launch(&target) {
        Ok(LaunchMethod::Direct { exe, workdir }) => {
            assert_eq!(exe, b("C:\\Games\\Foo\\foo.exe"));
            assert_eq!(workdir, b("C:\\Games\\Foo"));
        }
        other => panic!("unexpected plan: {:?}", other),
    }
}

#[test]
fn plan_shell_opens_a_shortcut_case_insensitively() {
    let target = LaunchTarget {
        display_name: b("Foo"),
        exe_path: None,
        lnk_path: Some(b("C:\\Users\\x\\FOO.LNK")),
    };
    match plan_launch(&target) {
        Ok(LaunchMethod::ShellOpen { path }) => {
            assert_eq!(path, b("C:\\Users\\x\\FOO.LNK"));
        }
        other => panic!("unexpected plan: {:?}", other),
    }
}

#[test]
fn plan_without_any_path_fails_at_once() {
    let target = LaunchTarget {
        display_name: b("Foo"),
        exe_path: None,
        lnk_path: None,
    };
    match plan_launch(&target) {
        Err(e) => assert_eq!(e, LaunchError::NoLaunchTarget),
        other => panic!("unexpected plan: {:?}", other),
    }
}

#[test]
fn plan_needs_a_parent_directory_for_a_direct_spawn() {
    let target = LaunchTarget {
        display_name: b("Foo"),
        exe_path: Some(b("foo.exe")),
        lnk_path: None,
    };
    match plan_launch(&target) {
        Err(e) => assert_eq!(e, LaunchError::NoParentDirectory),
        other => panic!("unexpected plan: {:?}", other),
    }
}

#[test]
fn an_executable_field_holding_a_shortcut_is_still_shell_opened() {
    let target = LaunchTarget {
        display_name: b("Foo"),
        exe_path: Some(b("C:\\Games\\foo.lnk")),
        lnk_path: None,
    };
    assert!(matches!(
        plan_launch(&target),
        Ok(LaunchMethod::ShellOpen { .. })
    ));
}

#[test]
fn parent_dir_splits_at_the_last_separator() {
    assert_eq!(parent_dir(&b("C:\\a\\b.exe")), Some(b("C:\\a")));
    assert_eq!(parent_dir(&b("C:/a/b/c.exe")), Some(b("C:/a/b")));
    assert_eq!(parent_dir(&b("b.exe")), None);
    assert_eq!(parent_dir(&b("")), None);
    assert_eq!(parent_dir(&b("C:\\a\\")), Some(b("C:\\a")));
}

#[test]
fn lnk_detection_is_case_insensitive_suffix_only() {
    assert!(is_lnk_path(&b("a.lnk")));
    assert!(is_lnk_path(&b("A.LnK")));
    assert!(!is_lnk_path(&b("a.lnk.exe")));
    assert!(!is_lnk_path(&b("alnk")));
}

#[test]
fn soft_invalidation_clears_paths_and_keeps_the_entry() {
    let mut target = LaunchTarget {
        display_name: b("Foo"),
        exe_path: Some(b("C:\\g\\foo.exe")),
        lnk_path: Some(b("C:\\u\\foo.lnk")),
    };
    soft_invalidate(&mut target);
    assert!(target.exe_path.is_none());
    assert!(target.lnk_path.is_none());
    assert_eq!(target.display_name, b("Foo"));
}

#[test]
fn stored_path_lands_in_the_matching_field() {
    let mut target = LaunchTarget {
        display_name: b("Foo"),
        exe_path: Some(b("old.exe")),
        lnk_path: None,
    };
    set_target_path(&mut target, b("C:\\u\\new.LNK"));
    assert_eq!(target.lnk_path, Some(b("C:\\u\\new.LNK")));
    assert!(target.exe_path.is_none());

    set_target_path(&mut target, b("C:\\g\\new.exe"));
    assert_eq!(target.exe_path, Some(b("C:\\g\\new.exe")));
    assert!(target.lnk_path.is_none());
}

#[test]
fn launch_result_keeps_the_started_path_and_pid() {
    let r = LaunchResult {
        spawned_pid: Some(41),
        path_str: b("C:\\g\\foo.exe"),
    };
    assert_eq!(r.spawned_pid, Some(41));
    assert_eq!(r.path_str, b("C:\\g\\foo.exe"));
}
