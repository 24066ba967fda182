use linnstrument_cli::naming::temporary_name;

#[test]
fn the_extension_gives_way_to_that_of_a_temporary_file() {
    assert_eq!(temporary_name("project-3.lpr"), "project-3.tmp");
    assert_eq!(temporary_name("a.b.lss"), "a.b.tmp");
    assert_eq!(temporary_name("settings"), "settings.tmp");
    assert_eq!(temporary_name(".hidden"), ".hidden.tmp");
    assert_eq!(temporary_name(".hidden.lpr"), ".hidden.tmp");
    assert_eq!(temporary_name("dot."), "dot.tmp");
    assert_eq!(temporary_name("t\u{f6}ne.lpr"), "t\u{f6}ne.tmp");
}

#[test]
fn a_file_is_never_its_own_temporary_file() {
    assert_eq!(temporary_name("backup.tmp"), "backup.tmp.tmp");
    assert_eq!(temporary_name("BACKUP.TMP"), "BACKUP.TMP.tmp");
    assert_eq!(temporary_name(".tmp"), ".tmp.tmp");
    assert_eq!(temporary_name(""), ".tmp");
}
