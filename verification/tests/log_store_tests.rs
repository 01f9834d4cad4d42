use daily_tasks_management::model::{LocalService, LogEntry, LogLevel, OutputStream};
use daily_tasks_management::services::{ServiceManager, SpawnOutcome};
use daily_tasks_management::state::{ProcessStatus, FIRST_LOG_ID, MAX_LOGS_PER_SERVICE};

fn line(manager: &mut ServiceManager, service_id: u32, text: &str) -> Option<u64> {
    manager.append_log(
        service_id,
        LogLevel::Info,
        text.to_string(),
        "2024-01-01T00:00:00+00:00".to_string(),
    )
}

fn messages(entries: &[LogEntry]) -> Vec<String> {
    entries.iter().map(|e| e.message.clone()).collect()
}

#[test]
fn a_new_supervisor_has_no_logs() {
    let manager = ServiceManager::new();
    assert!(manager.get_service_logs(1, None).is_empty());
    assert!(manager.get_service_logs(1, Some(10)).is_empty());
    assert!(manager.get_service_logs(1, Some(0)).is_empty());
}

#[test]
fn the_limit_is_one_thousand_and_ids_start_at_one() {
    assert_eq!(MAX_LOGS_PER_SERVICE, 1000);
    assert_eq!(FIRST_LOG_ID, 1);
}

#[test]
fn entries_come_back_newest_first() {
    let mut manager = ServiceManager::new();
    assert_eq!(line(&mut manager, 1, "first"), Some(1));
    assert_eq!(line(&mut manager, 1, "second"), Some(2));
    assert_eq!(line(&mut manager, 1, "third"), Some(3));

    let logs = manager.get_service_logs(1, None);
    assert_eq!(messages(&logs), vec!["third", "second", "first"]);
    assert_eq!(logs.iter().map(|e| e.id).collect::<Vec<u64>>(), vec![3, 2, 1]);
    assert!(logs.iter().all(|e| e.service_id == 1));
    assert!(logs.iter().all(|e| e.timestamp == "2024-01-01T00:00:00+00:00"));
}

#[test]
fn the_limit_truncates_the_newest_first_sequence() {
    let mut manager = ServiceManager::new();
    for text in ["a", "b", "c", "d"] {
        line(&mut manager, 1, text);
    }
    assert_eq!(messages(&manager.get_service_logs(1, Some(0))), Vec::<String>::new());
    assert_eq!(messages(&manager.get_service_logs(1, Some(1))), vec!["d"]);
    assert_eq!(messages(&manager.get_service_logs(1, Some(2))), vec!["d", "c"]);
    assert_eq!(messages(&manager.get_service_logs(1, Some(4))), vec!["d", "c", "b", "a"]);
    assert_eq!(messages(&manager.get_service_logs(1, Some(5))), vec!["d", "c", "b", "a"]);
    assert_eq!(
        messages(&manager.get_service_logs(1, Some(usize::MAX))),
        vec!["d", "c", "b", "a"]
    );
    assert_eq!(messages(&manager.get_service_logs(1, None)), vec!["d", "c", "b", "a"]);
}

#[test]
fn the_level_follows_the_stream() {
    assert_eq!(OutputStream::Stdout.log_level(), LogLevel::Info);
    assert_eq!(OutputStream::Stderr.log_level(), LogLevel::Error);
    assert_eq!(LogLevel::Info.name(), "info");
    assert_eq!(LogLevel::Error.name(), "error");

    let mut manager = ServiceManager::new();
    manager.on_line(3, OutputStream::Stdout, "out".to_string());
    manager.on_line(3, OutputStream::Stderr, "err".to_string());
    let logs = manager.get_service_logs(3, None);
    assert_eq!(logs[0].message, "err");
    assert_eq!(logs[0].level, LogLevel::Error);
    assert_eq!(logs[1].message, "out");
    assert_eq!(logs[1].level, LogLevel::Info);
}

#[test]
fn on_line_stamps_the_entry_with_a_time() {
    let mut manager = ServiceManager::new();
    let text = "listening on 8080".to_string();
    assert_eq!(manager.on_line(1, OutputStream::Stdout, text.clone()), Some(1));
    let logs = manager.get_service_logs(1, None);
    assert_eq!(logs.len(), 1);
    assert_eq!(logs[0].message, text);
    let stamp = &logs[0].timestamp;
    assert_ne!(stamp, &text);
    let parsed = chrono::DateTime::parse_from_rfc3339(stamp).expect("an RFC 3339 time");
    assert_eq!(parsed.offset().local_minus_utc(), 0);
    assert!(parsed.timestamp() > 1_600_000_000);
}

#[test]
fn ids_are_global_and_strictly_increasing() {
    let mut manager = ServiceManager::new();
    let mut last = 0u64;
    for round in 0..50u32 {
        for service_id in [1u32, 2, 3] {
            let id = line(&mut manager, service_id, "x").unwrap();
            assert!(id > last);
            assert_eq!(id, last + 1);
            last = id;
        }
        if round % 10 == 0 {
            manager.clear_service_logs(2);
        }
    }
    let mut seen: Vec<u64> = Vec::new();
    for service_id in [1u32, 2, 3] {
        let logs = manager.get_service_logs(service_id, None);
        for pair in logs.windows(2) {
            assert!(pair[0].id > pair[1].id);
        }
        seen.extend(logs.iter().map(|e| e.id));
    }
    let count = seen.len();
    seen.sort();
    seen.dedup();
    assert_eq!(seen.len(), count);
}

#[test]
fn ids_are_not_reused_after_clearing() {
    let mut manager = ServiceManager::new();
    assert_eq!(line(&mut manager, 1, "a"), Some(1));
    assert_eq!(line(&mut manager, 1, "b"), Some(2));
    manager.clear_service_logs(1);
    assert!(manager.get_service_logs(1, None).is_empty());
    assert_eq!(line(&mut manager, 1, "c"), Some(3));
    assert_eq!(line(&mut manager, 2, "d"), Some(4));
    let logs = manager.get_service_logs(1, None);
    assert_eq!(logs.len(), 1);
    assert_eq!(logs[0].id, 3);
}

#[test]
fn the_store_keeps_the_newest_thousand() {
    let mut manager = ServiceManager::new();
    for n in 1..=1000u64 {
        assert_eq!(line(&mut manager, 1, &format!("line {}", n)), Some(n));
    }
    let logs = manager.get_service_logs(1, None);
    assert_eq!(logs.len(), 1000);
    assert_eq!(logs[0].message, "line 1000");
    assert_eq!(logs[999].message, "line 1");

    assert_eq!(line(&mut manager, 1, "line 1001"), Some(1001));
    let logs = manager.get_service_logs(1, None);
    assert_eq!(logs.len(), 1000);
    assert_eq!(logs[0].message, "line 1001");
    assert_eq!(logs[0].id, 1001);
    assert_eq!(logs[999].message, "line 2");
    assert_eq!(logs[999].id, 2);

    for n in 1002..=2500u64 {
        line(&mut manager, 1, &format!("line {}", n));
        assert!(manager.get_service_logs(1, None).len() <= 1000);
    }
    let logs = manager.get_service_logs(1, None);
    assert_eq!(logs.len(), 1000);
    assert_eq!(logs[0].id, 2500);
    assert_eq!(logs[999].id, 1501);
    assert_eq!(manager.get_service_logs(1, Some(3)).len(), 3);
}

#[test]
fn the_bound_is_per_service() {
    let mut manager = ServiceManager::new();
    for _ in 0..1200 {
        line(&mut manager, 1, "one");
    }
    for _ in 0..10 {
        line(&mut manager, 2, "two");
    }
    assert_eq!(manager.get_service_logs(1, None).len(), 1000);
    assert_eq!(manager.get_service_logs(2, None).len(), 10);
    assert_eq!(manager.get_service_logs(3, None).len(), 0);
}

#[test]
fn clearing_logs_leaves_other_services_and_the_process_table() {
    let mut manager = ServiceManager::new();
    let service = LocalService {
        id: 1,
        name: "svc".to_string(),
        command: "sleep 1".to_string(),
        working_dir: None,
    };
    manager
        .start_service(&service, SpawnOutcome::Started { pid: 10 })
        .unwrap();
    line(&mut manager, 1, "one");
    line(&mut manager, 2, "two");
    manager.clear_service_logs(1);
    assert!(manager.get_service_logs(1, None).is_empty());
    assert_eq!(messages(&manager.get_service_logs(2, None)), vec!["two"]);
    assert!(manager.is_service_running(1, ProcessStatus::Running));
    manager.clear_service_logs(42);
    assert_eq!(messages(&manager.get_service_logs(2, None)), vec!["two"]);
}

#[test]
fn lines_are_kept_for_a_service_without_a_handle() {
    let mut manager = ServiceManager::new();
    assert_eq!(manager.on_line(5, OutputStream::Stderr, "late".to_string()), Some(1));
    assert_eq!(manager.get_service_logs(5, None).len(), 1);
    assert!(!manager.is_service_running(5, ProcessStatus::Running));
}

#[test]
fn a_copy_of_an_entry_is_equal_in_every_field() {
    let entry = LogEntry {
        id: 9,
        service_id: 2,
        level: LogLevel::Error,
        message: "boom".to_string(),
        timestamp: "2024-01-01T00:00:00+00:00".to_string(),
    };
    let copy = entry.duplicate();
    assert_eq!(copy.id, 9);
    assert_eq!(copy.service_id, 2);
    assert_eq!(copy.level, LogLevel::Error);
    assert_eq!(copy.message, "boom");
    assert_eq!(copy.timestamp, "2024-01-01T00:00:00+00:00");
}
