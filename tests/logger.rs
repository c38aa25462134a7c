use numkernel::errors::Error;
use numkernel::logger::{LoggerData, LoggerLevel};

fn reason(e: Error) -> String {
    match e {
        Error::OperationError(_, r) => r,
        Error::ArgumentError(_, v) => v,
        other => panic!("unexpected {:?}", other),
    }
}

#[test]
fn a_session_records_entries() {
    let mut log = LoggerData::new();
    assert!(!log.is_open());
    assert_eq!(reason(log.write().unwrap_err()), "no file currently open");
    log.open(LoggerLevel::Info).unwrap();
    assert!(log.is_open());
    assert_eq!(log.open_level(), LoggerLevel::Info);
    assert_eq!(reason(log.write().unwrap_err()), "not in writing mode");
    assert_eq!(log.start_log(LoggerLevel::Warning).unwrap(), true);
    assert_eq!(log.write().unwrap(), true);
    assert_eq!(
        reason(log.start_log(LoggerLevel::Error).unwrap_err()),
        "log already started at level WARNING"
    );
    log.end_log().unwrap();
    assert_eq!(reason(log.end_log().unwrap_err()), "not in log");
    assert_eq!(log.start_log(LoggerLevel::Debug).unwrap(), false);
    assert!(log.curr_log_ignored());
    assert_eq!(log.write().unwrap(), false);
    log.end_log().unwrap();
    log.close();
    assert!(!log.is_open());
    assert_eq!(log.open_level(), LoggerLevel::Off);
}

#[test]
fn opening_is_checked() {
    let mut log = LoggerData::default();
    assert_eq!(reason(log.open(LoggerLevel::Off).unwrap_err()), "cannot open under level 'NONE'");
    log.open(LoggerLevel::Debug).unwrap();
    assert_eq!(reason(log.open(LoggerLevel::Debug).unwrap_err()), "already open");
    assert_eq!(
        reason(log.start_log(LoggerLevel::Off).unwrap_err()),
        "cannot start a log at level NONE"
    );
}

#[test]
fn levels_are_ordered_and_named() {
    assert!(LoggerLevel::Debug.rank() < LoggerLevel::Critical.rank());
    assert_eq!(LoggerLevel::Warning.name(), "WARNING");
    assert_eq!(LoggerLevel::Off.name(), "NONE");
    let mut log = LoggerData::new();
    assert!(!log.accepts(LoggerLevel::Critical));
    log.open(LoggerLevel::Error).unwrap();
    assert!(log.accepts(LoggerLevel::Critical));
    assert!(!log.accepts(LoggerLevel::Info));
    assert_eq!(reason(LoggerData::new().end_log().unwrap_err()), "log not open");
}
