use host_telemetry::alerts::{
    Acknowledgment, AlertConfiguration, AlertHistory, AlertMetric, Breach, Comparison,
    MetricValues, Severity,
};
use host_telemetry::database::DatabaseManager;
use host_telemetry::numbers::Milli;
use host_telemetry::records::TelemetryError;
use host_telemetry::time::Timestamp;

fn rule(metric: AlertMetric, symbol: &str, threshold: u64, enabled: bool) -> AlertConfiguration {
    AlertConfiguration {
        id: String::new(),
        metric,
        operator: Comparison::from_symbol(symbol).unwrap(),
        threshold: Milli(threshold * 1000),
        enabled,
        severity: Severity::Warning,
    }
}

fn is_open(entry: &AlertHistory) -> bool {
    matches!(entry.acknowledgment, Acknowledgment::Unacknowledged)
}

#[test]
fn cpu_over_threshold_triggers_once() {
    let mut db = DatabaseManager::new();
    let id = db.add_alert_configuration(&rule(AlertMetric::Cpu, ">", 90, true)).unwrap();
    let triggered =
        db.check_alerts(Milli(95_000), Milli(50_000), Milli(50_000), Milli(0)).unwrap();
    assert_eq!(triggered.len(), 1);
    assert_eq!(triggered[0].value, Milli(95_000));
    assert_eq!(triggered[0].config_id, id);
    assert!(is_open(&triggered[0]));
    let history = db.get_alert_history(100, 0);
    assert_eq!(history.len(), 1);
    assert_eq!(history[0].id, triggered[0].id);
    assert_eq!(history[0].triggered_at, triggered[0].triggered_at);
}

#[test]
fn disabled_rule_triggers_nothing() {
    let mut db = DatabaseManager::new();
    db.add_alert_configuration(&rule(AlertMetric::Cpu, ">", 90, false)).unwrap();
    let triggered =
        db.check_alerts(Milli(95_000), Milli(50_000), Milli(50_000), Milli(0)).unwrap();
    assert!(triggered.is_empty());
    assert!(db.get_alert_history(100, 0).is_empty());
}

#[test]
fn each_breach_of_each_pass_is_a_new_entry() {
    let mut db = DatabaseManager::new();
    db.insert_alert_configuration("cpu".to_string(), &rule(AlertMetric::Cpu, ">=", 90, true))
        .unwrap();
    db.insert_alert_configuration("mem".to_string(), &rule(AlertMetric::Memory, "<", 10, true))
        .unwrap();
    db.insert_alert_configuration("disk".to_string(), &rule(AlertMetric::Disk, "==", 50, true))
        .unwrap();
    db.insert_alert_configuration("net".to_string(), &rule(AlertMetric::Network, "!=", 0, true))
        .unwrap();
    let first = db.check_alerts(Milli(90_000), Milli(9_999), Milli(50_000), Milli(0)).unwrap();
    let names: Vec<&str> = first.iter().map(|e| e.config_id.as_str()).collect();
    assert_eq!(names, vec!["cpu", "mem", "disk"]);
    assert_eq!(first[1].value, Milli(9_999));
    let second = db.check_alerts(Milli(89_999), Milli(10_000), Milli(50_001), Milli(1)).unwrap();
    assert_eq!(second.len(), 1);
    assert_eq!(second[0].config_id, "net");
    assert_eq!(second[0].value, Milli(1));
    let third = db.check_alerts(Milli(90_000), Milli(9_999), Milli(50_000), Milli(0)).unwrap();
    assert_eq!(third.len(), 3);
    assert_eq!(db.get_alert_history(100, 0).len(), 7);
    assert_ne!(first[0].id, third[0].id);
}

#[test]
fn operators_compare_as_written() {
    let observed = Milli(5);
    assert!(Comparison::Greater.test(observed, Milli(4)));
    assert!(!Comparison::Greater.test(observed, Milli(5)));
    assert!(Comparison::GreaterOrEqual.test(observed, Milli(5)));
    assert!(!Comparison::GreaterOrEqual.test(observed, Milli(6)));
    assert!(Comparison::Less.test(observed, Milli(6)));
    assert!(!Comparison::Less.test(observed, Milli(5)));
    assert!(Comparison::LessOrEqual.test(observed, Milli(5)));
    assert!(!Comparison::LessOrEqual.test(observed, Milli(4)));
    assert!(Comparison::Equal.test(observed, Milli(5)));
    assert!(!Comparison::Equal.test(observed, Milli(4)));
    assert!(Comparison::NotEqual.test(observed, Milli(4)));
    assert!(!Comparison::NotEqual.test(observed, Milli(5)));
}

#[test]
fn operator_symbols() {
    assert_eq!(Comparison::from_symbol(">"), Some(Comparison::Greater));
    assert_eq!(Comparison::from_symbol(">="), Some(Comparison::GreaterOrEqual));
    assert_eq!(Comparison::from_symbol("<"), Some(Comparison::Less));
    assert_eq!(Comparison::from_symbol("<="), Some(Comparison::LessOrEqual));
    assert_eq!(Comparison::from_symbol("=="), Some(Comparison::Equal));
    assert_eq!(Comparison::from_symbol("!="), Some(Comparison::NotEqual));
    assert_eq!(Comparison::from_symbol("="), None);
    assert_eq!(Comparison::from_symbol("=>"), None);
    assert_eq!(Comparison::from_symbol(""), None);
    assert_eq!(Comparison::from_symbol(">=="), None);
    for operator in [
        Comparison::Greater,
        Comparison::GreaterOrEqual,
        Comparison::Less,
        Comparison::LessOrEqual,
        Comparison::Equal,
        Comparison::NotEqual,
    ] {
        assert_eq!(Comparison::from_symbol(operator.symbol()), Some(operator));
    }
}

#[test]
fn rules_are_listed_updated_and_deleted() {
    let mut db = DatabaseManager::new();
    let a = db.add_alert_configuration(&rule(AlertMetric::Cpu, ">", 90, true)).unwrap();
    let b = db.add_alert_configuration(&rule(AlertMetric::Disk, ">", 80, true)).unwrap();
    assert_ne!(a, b);
    let listed = db.get_alert_configurations();
    assert_eq!(listed.len(), 2);
    assert_eq!(listed[0].id, a);
    assert_eq!(listed[1].id, b);
    assert_eq!(listed[1].metric, AlertMetric::Disk);

    let mut changed = rule(AlertMetric::Memory, "<=", 5, false);
    changed.id = "ignored".to_string();
    changed.severity = Severity::Critical;
    db.update_alert_configuration(&a, &changed).unwrap();
    let listed = db.get_alert_configurations();
    assert_eq!(listed[0].id, a);
    assert_eq!(listed[0].metric, AlertMetric::Memory);
    assert_eq!(listed[0].operator, Comparison::LessOrEqual);
    assert_eq!(listed[0].threshold, Milli(5_000));
    assert!(!listed[0].enabled);
    assert_eq!(listed[0].severity, Severity::Critical);
    assert_eq!(listed[1].id, b);
    assert_eq!(listed[1].threshold, Milli(80_000));

    db.delete_alert_configuration(&a).unwrap();
    let listed = db.get_alert_configurations();
    assert_eq!(listed.len(), 1);
    assert_eq!(listed[0].id, b);
}

#[test]
fn unknown_rule_is_not_found() {
    let mut db = DatabaseManager::new();
    db.insert_alert_configuration("a".to_string(), &rule(AlertMetric::Cpu, ">", 1, true)).unwrap();
    assert_eq!(
        db.update_alert_configuration("b", &rule(AlertMetric::Cpu, ">", 2, true)),
        Err(TelemetryError::NotFound)
    );
    assert_eq!(db.delete_alert_configuration("b"), Err(TelemetryError::NotFound));
    assert_eq!(
        db.insert_alert_configuration("a".to_string(), &rule(AlertMetric::Cpu, ">", 3, true)),
        Err(TelemetryError::StorageFailure)
    );
    let listed = db.get_alert_configurations();
    assert_eq!(listed.len(), 1);
    assert_eq!(listed[0].threshold, Milli(1_000));
}

#[test]
fn deleting_a_rule_keeps_its_history() {
    let mut db = DatabaseManager::new();
    db.insert_alert_configuration("a".to_string(), &rule(AlertMetric::Cpu, ">", 1, true)).unwrap();
    db.check_alerts(Milli(2_000), Milli(0), Milli(0), Milli(0)).unwrap();
    db.delete_alert_configuration("a").unwrap();
    let history = db.get_alert_history(10, 0);
    assert_eq!(history.len(), 1);
    assert_eq!(history[0].config_id, "a");
    assert!(db.check_alerts(Milli(2_000), Milli(0), Milli(0), Milli(0)).unwrap().is_empty());
}

fn breach(config: &str, value: u64) -> Breach {
    Breach { config_id: config.to_string(), value: Milli(value) }
}

fn recorded(db: &mut DatabaseManager, names: &[&str], secs: i64) -> Vec<AlertHistory> {
    let breaches: Vec<Breach> = names.iter().map(|n| breach("rule", n.len() as u64)).collect();
    let ids: Vec<String> = names.iter().map(|n| n.to_string()).collect();
    db.record_breaches(&breaches, ids, Timestamp { secs, nanos: 0 }).unwrap()
}

#[test]
fn history_pages_newest_first() {
    let mut db = DatabaseManager::new();
    recorded(&mut db, &["e1", "e2"], 10);
    recorded(&mut db, &["e3"], 20);
    recorded(&mut db, &["e4", "e5"], 30);
    let page = |db: &DatabaseManager, limit, offset| -> Vec<String> {
        db.get_alert_history(limit, offset).iter().map(|e| e.id.clone()).collect()
    };
    assert_eq!(page(&db, 100, 0), vec!["e5", "e4", "e3", "e2", "e1"]);
    assert_eq!(page(&db, 2, 0), vec!["e5", "e4"]);
    assert_eq!(page(&db, 2, 1), vec!["e4", "e3"]);
    assert_eq!(page(&db, 2, 4), vec!["e1"]);
    assert_eq!(page(&db, 5, 0).len(), 5);
    assert!(page(&db, 2, 5).is_empty());
    assert!(page(&db, 0, 0).is_empty());
    assert_eq!(page(&db, u32::MAX, 3), vec!["e2", "e1"]);
    assert!(page(&db, u32::MAX, u32::MAX).is_empty());
}

#[test]
fn recorded_entries_carry_breach_id_and_time() {
    let mut db = DatabaseManager::new();
    let breaches = vec![breach("cpu", 95_000), breach("disk", 81_000)];
    let at = Timestamp { secs: 77, nanos: 5 };
    let entries =
        db.record_breaches(&breaches, vec!["x".to_string(), "y".to_string()], at).unwrap();
    assert_eq!(entries.len(), 2);
    assert_eq!(entries[0].id, "x");
    assert_eq!(entries[0].config_id, "cpu");
    assert_eq!(entries[0].value, Milli(95_000));
    assert_eq!(entries[0].triggered_at, at);
    assert!(is_open(&entries[0]));
    assert_eq!(entries[1].id, "y");
    assert_eq!(entries[1].config_id, "disk");
    assert_eq!(entries[1].value, Milli(81_000));
}

#[test]
fn ids_that_are_not_new_are_refused() {
    let mut db = DatabaseManager::new();
    recorded(&mut db, &["e1"], 10);
    let at = Timestamp { secs: 20, nanos: 0 };
    let held = db.record_breaches(
        &vec![breach("r", 1), breach("r", 2)],
        vec!["e2".to_string(), "e1".to_string()],
        at,
    );
    assert_eq!(held.err(), Some(TelemetryError::StorageFailure));
    let same = db.record_breaches(
        &vec![breach("r", 1), breach("r", 2)],
        vec!["e3".to_string(), "e3".to_string()],
        at,
    );
    assert_eq!(same.err(), Some(TelemetryError::StorageFailure));
    let too_few = db.record_breaches(
        &vec![breach("r", 1), breach("r", 2)],
        vec!["e4".to_string()],
        at,
    );
    assert_eq!(too_few.err(), Some(TelemetryError::StorageFailure));
    let too_many = db.record_breaches(&vec![], vec!["e5".to_string()], at);
    assert_eq!(too_many.err(), Some(TelemetryError::StorageFailure));
    assert_eq!(db.get_alert_history(10, 0).len(), 1);
    assert!(db.record_breaches(&vec![], vec![], at).unwrap().is_empty());
}

#[test]
fn triggered_lists_breaches_in_rule_order() {
    let mut db = DatabaseManager::new();
    db.insert_alert_configuration("n".to_string(), &rule(AlertMetric::Network, ">", 10, true))
        .unwrap();
    db.insert_alert_configuration("off".to_string(), &rule(AlertMetric::Cpu, ">", 1, false))
        .unwrap();
    db.insert_alert_configuration("c".to_string(), &rule(AlertMetric::Cpu, ">", 1, true)).unwrap();
    let values = MetricValues {
        cpu: Milli(2_000),
        memory: Milli(0),
        disk: Milli(0),
        network: Milli(10_001),
    };
    let found = db.triggered(&values);
    assert_eq!(found.len(), 2);
    assert_eq!(found[0].config_id, "n");
    assert_eq!(found[0].value, Milli(10_001));
    assert_eq!(found[1].config_id, "c");
    assert_eq!(found[1].value, Milli(2_000));
    assert!(db.get_alert_history(10, 0).is_empty());
}

#[test]
fn acknowledgment_changes_only_its_fields() {
    let mut db = DatabaseManager::new();
    recorded(&mut db, &["e1", "e2"], 10);
    let when = Timestamp { secs: 99, nanos: 1 };
    db.acknowledge_at("e1", "alice", when).unwrap();
    let history = db.get_alert_history(10, 0);
    assert_eq!(history[1].id, "e1");
    assert_eq!(history[1].config_id, "rule");
    assert_eq!(history[1].triggered_at, Timestamp { secs: 10, nanos: 0 });
    assert_eq!(history[1].value, Milli(2));
    match &history[1].acknowledgment {
        Acknowledgment::Acknowledged { by, at } => {
            assert_eq!(by, "alice");
            assert_eq!(*at, when);
        }
        Acknowledgment::Unacknowledged => panic!("entry was not acknowledged"),
    }
    assert!(is_open(&history[0]));
    assert_eq!(history[0].id, "e2");
}

#[test]
fn acknowledging_twice_or_an_unknown_entry_fails() {
    let mut db = DatabaseManager::new();
    recorded(&mut db, &["e1"], 10);
    assert_eq!(db.acknowledge_alert("nope", "bob"), Err(TelemetryError::NotFound));
    assert_eq!(db.acknowledge_alert("e1", "bob"), Ok(()));
    assert_eq!(db.acknowledge_alert("e1", "carol"), Err(TelemetryError::NotFound));
    let history = db.get_alert_history(10, 0);
    match &history[0].acknowledgment {
        Acknowledgment::Acknowledged { by, at } => {
            assert_eq!(by, "bob");
            assert!(at.secs > 1_600_000_000);
        }
        Acknowledgment::Unacknowledged => panic!("entry was not acknowledged"),
    }
}
