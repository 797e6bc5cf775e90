use asic_rs::collector::{DataCollector, DataExtractor, DataField, DataLocation, ExtractorFn, LocationTable, required_commands};
use asic_rs::json::JsonValue;

fn key(k: &'static str) -> DataExtractor {
    DataExtractor { func: ExtractorFn::ByKey, key: Some(k) }
}

fn obj(entries: Vec<(&str, JsonValue)>) -> JsonValue {
    JsonValue::Object(entries.into_iter().map(|(k, v)| (k.to_string(), v)).collect())
}

fn num(t: &str) -> JsonValue {
    JsonValue::Number(t.to_string())
}

/// Runs a full round, answering each command with `answer`, and returns the commands in the order asked.
fn run_round(c: &mut DataCollector<LocationTable>, answer: &dyn Fn(&str) -> Result<JsonValue, String>) -> Vec<&'static str> {
    let mut asked = Vec::new();
    while let Some(cmd) = c.next_command() {
        asked.push(cmd);
        c.record(answer(cmd));
    }
    assert!(c.is_complete());
    asked
}

#[test]
fn field_without_locations_needs_no_command() {
    let table = LocationTable::new();
    let mut c = DataCollector::new(&table);
    c.collect(&[DataField::Hostname]);
    assert_eq!(c.next_command(), None);
    assert!(c.is_complete());
    let r = c.results();
    assert_eq!(r.len(), 0);
    assert!(r.get(DataField::Hostname).is_none());
}

#[test]
fn commands_are_the_union_each_once() {
    let mut table = LocationTable::new();
    let h: Vec<DataLocation> = vec![("cmdA", key("x")), ("cmdB", key("y"))];
    let f: Vec<DataLocation> = vec![("cmdA", key("z")), ("cmdC", key("w")), ("cmdB", key("v"))];
    table.set_locations(DataField::Hashrate, h);
    table.set_locations(DataField::Fans, f);
    let plan = required_commands(&table, &[DataField::Hashrate, DataField::Fans, DataField::Hostname]);
    assert_eq!(plan, vec!["cmdA", "cmdB", "cmdC"]);

    let mut c = DataCollector::new(&table);
    c.collect(&[DataField::Hashrate, DataField::Fans, DataField::Hashrate]);
    let asked = run_round(&mut c, &|_| Err("down".to_string()));
    assert_eq!(asked, vec!["cmdA", "cmdB", "cmdC"]);
}

#[test]
fn missing_key_falls_through_to_next_location() {
    let mut table = LocationTable::new();
    table.set_locations(DataField::Hostname, vec![("cmdA", key("name")), ("cmdB", key("host"))]);
    let mut c = DataCollector::new(&table);
    c.collect(&[DataField::Hostname]);
    run_round(&mut c, &|cmd| {
        if cmd == "cmdA" {
            Ok(obj(vec![("other", JsonValue::Str("a".to_string()))]))
        } else {
            Ok(obj(vec![("host", JsonValue::Str("bitaxe".to_string()))]))
        }
    });
    let r = c.results();
    assert_eq!(r.get(DataField::Hostname), Some(&JsonValue::Str("bitaxe".to_string())));
}

#[test]
fn first_location_wins_when_both_supply() {
    let mut table = LocationTable::new();
    table.set_locations(DataField::Hostname, vec![("cmdA", key("name")), ("cmdB", key("name"))]);
    let mut c = DataCollector::new(&table);
    c.collect(&[DataField::Hostname]);
    run_round(&mut c, &|cmd| Ok(obj(vec![("name", JsonValue::Str(cmd.to_string()))])));
    assert_eq!(c.results().get(DataField::Hostname), Some(&JsonValue::Str("cmdA".to_string())));
}

#[test]
fn failed_command_falls_back_to_second_location() {
    let mut table = LocationTable::new();
    table.set_locations(DataField::Hashrate, vec![("cmdA", key("x")), ("cmdB", key("y"))]);
    let mut c = DataCollector::new(&table);
    c.collect(&[DataField::Hashrate]);
    run_round(&mut c, &|cmd| {
        if cmd == "cmdA" {
            Err("connection refused".to_string())
        } else {
            Ok(obj(vec![("y", num("42"))]))
        }
    });
    let r = c.results();
    assert_eq!(r.len(), 1);
    assert_eq!(r.get(DataField::Hashrate), Some(&num("42")));
}

#[test]
fn no_value_anywhere_leaves_field_absent() {
    let mut table = LocationTable::new();
    table.set_locations(DataField::Wattage, vec![("cmdA", key("power"))]);
    table.set_locations(DataField::Hostname, vec![("cmdA", key("hostname"))]);
    let mut c = DataCollector::new(&table);
    c.collect(&[DataField::Wattage, DataField::Hostname]);
    run_round(&mut c, &|_| Ok(obj(vec![("hostname", JsonValue::Str("h".to_string()))])));
    let r = c.results();
    assert_eq!(r.len(), 1);
    assert!(r.get(DataField::Wattage).is_none());
}

#[test]
fn extractor_without_key_finds_nothing() {
    let e = DataExtractor { func: ExtractorFn::ByKey, key: None };
    assert!(e.extract(&obj(vec![("a", num("1"))])).is_none());
    let p = DataExtractor { func: ExtractorFn::ByPointer, key: None };
    assert!(p.extract(&obj(vec![("a", num("1"))])).is_none());
}

#[test]
fn repeated_rounds_collect_the_same_mapping() {
    let mut table = LocationTable::new();
    table.set_locations(DataField::Hashrate, vec![("cmdA", key("x")), ("cmdB", key("y"))]);
    table.set_locations(DataField::Uptime, vec![("cmdB", key("up"))]);
    let answer = |cmd: &str| -> Result<JsonValue, String> {
        if cmd == "cmdA" {
            Err("timeout".to_string())
        } else {
            Ok(obj(vec![("y", num("7")), ("up", num("100"))]))
        }
    };
    let mut c1 = DataCollector::new(&table);
    c1.collect(&[DataField::Hashrate, DataField::Uptime]);
    run_round(&mut c1, &answer);
    let mut c2 = DataCollector::new(&table);
    c2.collect(&[DataField::Hashrate, DataField::Uptime]);
    run_round(&mut c2, &answer);
    let (r1, r2) = (c1.results(), c2.results());
    for f in DataField::all() {
        assert_eq!(r1.get(f), r2.get(f));
    }
    assert_eq!(r1.get(DataField::Uptime), Some(&num("100")));

    // A new round on the same collector starts from an empty cache.
    c1.collect(&[DataField::Uptime]);
    assert_eq!(c1.next_command(), Some("cmdB"));
    c1.record(Err("gone".to_string()));
    assert!(c1.results().get(DataField::Uptime).is_none());
}

#[test]
fn collect_all_lists_every_field() {
    let all = DataField::all();
    assert_eq!(all.len(), 28);
    for (i, a) in all.iter().enumerate() {
        for b in all.iter().skip(i + 1) {
            assert_ne!(a, b);
        }
    }
    let mut table = LocationTable::new();
    table.set_locations(DataField::Pools, vec![("pools", key("list"))]);
    let mut c = DataCollector::new(&table);
    c.collect_all();
    assert_eq!(c.next_command(), Some("pools"));
}
