use git_monitor::pager::ensure_paging_always;

#[test]
fn bare_delta_gets_paging_always() {
    assert_eq!(ensure_paging_always("delta"), "delta --paging=always");
}

#[test]
fn delta_with_args_gets_paging_always() {
    assert_eq!(
        ensure_paging_always("delta --dark --side-by-side"),
        "delta --dark --side-by-side --paging=always"
    );
}

#[test]
fn delta_with_explicit_paging_unchanged() {
    let cmd = "delta --paging=never";
    assert_eq!(ensure_paging_always(cmd), cmd);
}

#[test]
fn less_unchanged() {
    assert_eq!(ensure_paging_always("less"), "less");
}

#[test]
fn delta_in_unrelated_word_unchanged() {
    assert_eq!(ensure_paging_always("deltaforce"), "deltaforce");
}

#[test]
fn delta_by_path_gets_paging_always() {
    assert_eq!(
        ensure_paging_always("/usr/bin/delta"),
        "/usr/bin/delta --paging=always"
    );
}

#[test]
fn delta_after_tab_and_other_words() {
    assert_eq!(
        ensure_paging_always("env\tdelta  -n"),
        "env\tdelta  -n --paging=always"
    );
}

#[test]
fn empty_command_unchanged() {
    assert_eq!(ensure_paging_always(""), "");
}
