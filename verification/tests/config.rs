use ontime::config::Config;
use ontime::config::PipeTo;
use ontime::config::FAIL_DO_NOT_WRITE;
use ontime::config::FAIL_REGULAR;
use ontime::config::FAIL_RETRY;
use ontime::config::PIPE_FROM_NONE;
use ontime::config::PIPE_FROM_STDERR;
use ontime::config::PIPE_FROM_STDOUT;

#[test]
fn pipe_to_reads_its_four_names() {
    assert_eq!(PipeTo::from_str("file"), Ok(PipeTo::FILE));
    assert_eq!(PipeTo::from_str("stderr"), Ok(PipeTo::STDERR));
    assert_eq!(PipeTo::from_str("stdout"), Ok(PipeTo::STDOUT));
    assert_eq!(PipeTo::from_str("none"), Ok(PipeTo::NONE));
}

#[test]
fn pipe_to_rejects_other_words() {
    assert_eq!(PipeTo::from_str("FILE"), Err(String::from("Value not allowed")));
    assert_eq!(PipeTo::from_str(""), Err(String::from("Value not allowed")));
    assert_eq!(PipeTo::from_str("stdout "), Err(String::from("Value not allowed")));
}

#[test]
fn default_config_has_the_documented_values() {
    let config = Config::default();
    assert_eq!(config.distance, 90);
    assert_eq!(config.distance_start, None);
    assert_eq!(config.distance_end, None);
    assert_eq!(config.fail, FAIL_REGULAR);
    assert_eq!(config.fail_on_code, 1);
    assert_eq!(config.pipe, 1);
    assert_eq!(config.pipe_to, PipeTo::STDERR);
    assert_eq!(config.file, None);
}

#[test]
fn fail_bits_are_read_one_by_one() {
    let mut config = Config::default();
    assert!(!config.retry_on_failure());
    assert!(!config.skip_write_on_failure());
    config.fail = FAIL_RETRY;
    assert!(config.retry_on_failure());
    assert!(!config.skip_write_on_failure());
    config.fail = FAIL_DO_NOT_WRITE;
    assert!(!config.retry_on_failure());
    assert!(config.skip_write_on_failure());
    config.fail = FAIL_RETRY | FAIL_DO_NOT_WRITE;
    assert!(config.retry_on_failure());
    assert!(config.skip_write_on_failure());
}

#[test]
fn pipe_bits_select_the_streams() {
    let mut config = Config::default();
    config.pipe = PIPE_FROM_NONE;
    assert_eq!(config.piped_streams(), (false, false));
    config.pipe = PIPE_FROM_STDOUT;
    assert_eq!(config.piped_streams(), (true, false));
    config.pipe = PIPE_FROM_STDERR;
    assert_eq!(config.piped_streams(), (false, true));
    config.pipe = PIPE_FROM_STDOUT | PIPE_FROM_STDERR;
    assert_eq!(config.piped_streams(), (true, true));
}
