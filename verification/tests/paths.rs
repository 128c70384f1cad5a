use acs::paths::default_log_dir;

#[test]
fn default_log_dir_ends_with_logs() {
    assert!(default_log_dir(Some("/home/user/work")).ends_with("logs"));
    assert_eq!(default_log_dir(Some("/home/user/work")), "/home/user/work/logs");
    assert_eq!(default_log_dir(None), "./logs");
}
