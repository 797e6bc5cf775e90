use asic_rs::collector::{DataCollector, DataField, ExtractorFn, GetMinerData};
use asic_rs::data::{BitaxeModel, HashRateUnit, IpAddress, MinerData, MinerFirmware};
use asic_rs::espminer::{ASIC_INFO_CMD, ESPMiner, SYSTEM_INFO_CMD};
use asic_rs::json::JsonValue;

fn obj(entries: Vec<(&str, JsonValue)>) -> JsonValue {
    JsonValue::Object(entries.into_iter().map(|(k, v)| (k.to_string(), v)).collect())
}

fn num(t: &str) -> JsonValue {
    JsonValue::Number(t.to_string())
}

fn text(t: &str) -> JsonValue {
    JsonValue::Str(t.to_string())
}

fn miner() -> ESPMiner {
    ESPMiner::new(IpAddress::V4([192, 168, 1, 100]), BitaxeModel::Gamma, MinerFirmware::Stock)
}

fn system_info() -> JsonValue {
    obj(vec![
        ("macAddr", text("AA:BB:CC:DD:EE:0F")),
        ("hostname", text("bitaxe")),
        ("version", text("v2.4.0")),
        ("boardVersion", text("601")),
        ("hashRate", num("50")),
        ("power", num("100")),
        ("temp", num("55.5")),
        ("vrTemp", num("48")),
        ("voltage", num("1200")),
        ("frequency", num("525")),
        ("expectedHashrate", num("1100.5")),
        ("asicCount", num("1")),
        ("fanrpm", num("4200")),
        ("uptimeSeconds", num("3600")),
        ("stratumUrl", text("pool.example.com")),
        ("stratumPort", num("3333")),
        ("stratumUser", text("worker.1")),
        ("fallbackStratumURL", text("backup.example.com")),
        ("fallbackStratumPort", num("4444")),
        ("fallbackStratumUser", text("worker.2")),
        ("sharesAccepted", num("10")),
        ("sharesRejected", num("2")),
        ("isUsingFallbackStratum", JsonValue::Bool(false)),
    ])
}

fn collect_with(m: &ESPMiner, answer: &dyn Fn(&str) -> Result<JsonValue, String>) -> MinerData {
    let mut c = DataCollector::new(m);
    c.collect_all();
    while let Some(cmd) = c.next_command() {
        c.record(answer(cmd));
    }
    let data = c.results();
    m.normalize(&data, 1_700_000_000)
}

#[test]
fn locations_follow_the_firmware_report() {
    let m = miner();
    let chips = m.get_locations(DataField::TotalChips);
    assert_eq!(chips.len(), 2);
    assert_eq!(chips[0].0, SYSTEM_INFO_CMD);
    assert_eq!(chips[1].0, ASIC_INFO_CMD);
    assert_eq!(chips[1].1.key, Some("asicCount"));
    let boards = m.get_locations(DataField::Hashboards);
    assert_eq!(boards.len(), 1);
    assert_eq!(boards[0].1.func, ExtractorFn::ByPointer);
    assert_eq!(boards[0].1.key, Some(""));
    assert!(m.get_locations(DataField::PsuFans).is_empty());
    assert_eq!(m.get_locations(DataField::Hostname)[0].1.key, Some("hostname"));
}

#[test]
fn efficiency_from_wattage_and_hashrate() {
    let m = miner();
    let r = collect_with(&m, &|cmd| if cmd == SYSTEM_INFO_CMD { Ok(system_info()) } else { Err("404".to_string()) });
    let eff = r.efficiency.expect("efficiency");
    assert_eq!((eff.numerator, eff.denominator, eff.exponent), (1, 5, 4));
    assert_eq!(eff.numerator * 10i128.pow(eff.exponent as u32), 2000 * eff.denominator);
    let hr = r.hashrate.expect("hashrate");
    assert_eq!(hr.unit, HashRateUnit::GigaHash);
    assert_eq!((hr.value.mantissa, hr.value.scale), (5, -1));
    assert!(r.is_mining);
}

#[test]
fn efficiency_absent_without_wattage() {
    let m = miner();
    let without_power = || {
        let mut v = system_info();
        if let JsonValue::Object(entries) = &mut v {
            entries.retain(|(k, _)| k != "power");
        }
        v
    };
    let r = collect_with(&m, &|cmd| if cmd == SYSTEM_INFO_CMD { Ok(without_power()) } else { Err("404".to_string()) });
    assert!(r.wattage.is_none());
    assert!(r.efficiency.is_none());
    assert!(r.hashrate.is_some());
}

#[test]
fn record_from_full_report() {
    let m = miner();
    let r = collect_with(&m, &|cmd| if cmd == SYSTEM_INFO_CMD { Ok(system_info()) } else { Err("404".to_string()) });
    assert_eq!(r.timestamp, 1_700_000_000);
    assert_eq!(r.ip, IpAddress::V4([192, 168, 1, 100]));
    assert_eq!(r.mac.as_ref().map(|m| m.bytes.clone()), Some(vec![0xAA, 0xBB, 0xCC, 0xDD, 0xEE, 0x0F]));
    assert_eq!(r.hostname.as_deref(), Some("bitaxe"));
    assert_eq!(r.firmware_version.as_deref(), Some("v2.4.0"));
    assert_eq!(r.control_board_version.as_deref(), Some("601"));
    assert_eq!(r.api_version, None);
    assert_eq!(r.total_chips, Some(1));
    assert_eq!(r.uptime, Some(3600));
    assert_eq!(r.fans.len(), 1);
    assert_eq!((r.fans[0].rpm.rpm.mantissa, r.fans[0].rpm.rpm.scale), (42, -2));
    let t = r.average_temperature.expect("temperature");
    assert_eq!((t.celsius.mantissa, t.celsius.scale), (555, 1));
    assert_eq!(r.hashboards.len(), 1);
    let b = &r.hashboards[0];
    assert_eq!(b.voltage.map(|v| (v.millivolts.mantissa, v.millivolts.scale)), Some((12, -2)));
    assert_eq!(b.frequency.map(|f| (f.megahertz.mantissa, f.megahertz.scale)), Some((525, 0)));
    assert_eq!(b.board_temperature.map(|t| (t.celsius.mantissa, t.celsius.scale)), Some((48, 0)));
    assert_eq!(r.expected_hashboards, Some(1));
    assert_eq!(r.expected_chips, Some(1));
    assert_eq!(r.expected_fans, Some(1));
    assert_eq!(b.expected_hashrate.map(|h| (h.value.mantissa, h.value.scale)), Some((11005, 1)));
    assert_eq!(b.chips.len(), 1);
    assert_eq!(b.chips[0].temperature.map(|t| t.celsius.mantissa), Some(555));
    assert_eq!(r.pools.len(), 2);
    let main = &r.pools[0];
    let url = main.url.as_ref().expect("url");
    assert_eq!((url.host.as_str(), url.port), ("pool.example.com", 3333));
    assert_eq!(main.active, Some(true));
    assert_eq!(main.accepted_shares, Some(10));
    assert_eq!(main.rejected_shares, Some(2));
    assert_eq!(main.user.as_deref(), Some("worker.1"));
    let fb = &r.pools[1];
    assert_eq!(fb.url.as_ref().map(|u| (u.host.as_str(), u.port)), Some(("backup.example.com", 4444)));
    assert_eq!(fb.active, Some(false));
    assert_eq!(fb.user.as_deref(), Some("worker.2"));
}

#[test]
fn unreachable_device_gives_intrinsic_fields_only() {
    let m = miner();
    let r = collect_with(&m, &|_| Err("connection refused".to_string()));
    assert_eq!(r.schema_version, "1.0.0");
    assert_eq!(r.timestamp, 1_700_000_000);
    assert!(r.mac.is_none());
    assert!(r.hostname.is_none());
    assert!(r.hashrate.is_none());
    assert!(r.wattage.is_none());
    assert!(r.efficiency.is_none());
    assert!(r.uptime.is_none());
    assert!(r.fans.is_empty());
    assert!(!r.is_mining);
    assert!(r.hashboards.is_empty());
    assert!(r.pools.is_empty());
    assert_eq!(r.expected_hashboards, None);
    assert_eq!(r.expected_chips, None);
    assert_eq!(r.expected_fans, None);
    assert!(r.total_chips.is_none());
    assert!(r.average_temperature.is_none());
}

#[test]
fn chip_count_from_second_location() {
    let m = miner();
    let answer = |cmd: &str| -> Result<JsonValue, String> {
        if cmd == SYSTEM_INFO_CMD {
            Ok(obj(vec![("hostname", text("bitaxe"))]))
        } else {
            Ok(obj(vec![("asicCount", num("6"))]))
        }
    };
    let r = collect_with(&m, &answer);
    assert_eq!(r.total_chips, Some(6));
    assert_eq!(r.hostname.as_deref(), Some("bitaxe"));
    // The system report came back, so its board and pool entries stand, with
    // only what the report held.
    assert_eq!(r.hashboards.len(), 1);
    assert!(r.hashboards[0].voltage.is_none());
    assert!(r.hashboards[0].expected_hashrate.is_none());
    assert_eq!(r.pools.len(), 2);
    assert!(r.pools[0].url.is_none());
    assert!(r.pools[0].active.is_none());
    assert!(r.pools[1].user.is_none());
}

#[test]
fn only_chip_report_gives_no_board_or_pools() {
    let m = miner();
    let answer = |cmd: &str| -> Result<JsonValue, String> {
        if cmd == ASIC_INFO_CMD {
            Ok(obj(vec![("asicCount", num("1"))]))
        } else {
            Err("timeout".to_string())
        }
    };
    let r = collect_with(&m, &answer);
    assert_eq!(r.total_chips, Some(1));
    assert!(r.hashboards.is_empty());
    assert!(r.pools.is_empty());
    assert_eq!(r.expected_chips, Some(1));
}

#[test]
fn zero_hashrate_gives_no_efficiency() {
    let m = miner();
    let answer = |cmd: &str| -> Result<JsonValue, String> {
        if cmd == SYSTEM_INFO_CMD {
            Ok(obj(vec![("hashRate", num("0.0")), ("power", num("3.5"))]))
        } else {
            Err("timeout".to_string())
        }
    };
    let r = collect_with(&m, &answer);
    assert!(r.efficiency.is_none());
    assert!(!r.is_mining);
    assert!(r.wattage.is_some());
}

#[test]
fn unreadable_values_are_left_unset() {
    let m = miner();
    let answer = |cmd: &str| -> Result<JsonValue, String> {
        if cmd == SYSTEM_INFO_CMD {
            Ok(obj(vec![
                ("macAddr", text("not a mac")),
                ("hashRate", text("fast")),
                ("uptimeSeconds", num("-5")),
                ("asicCount", num("1.5")),
                ("hostname", num("12")),
            ]))
        } else {
            Err("404".to_string())
        }
    };
    let r = collect_with(&m, &answer);
    assert!(r.mac.is_none());
    assert!(r.hashrate.is_none());
    assert!(r.uptime.is_none());
    assert!(r.total_chips.is_none());
    assert!(r.hostname.is_none());
    assert!(!r.is_mining);
}

#[test]
fn repeated_collection_gives_identical_records() {
    let m = miner();
    let answer = |cmd: &str| if cmd == SYSTEM_INFO_CMD { Ok(system_info()) } else { Err("404".to_string()) };
    let r1 = collect_with(&m, &answer);
    let r2 = collect_with(&m, &answer);
    assert_eq!(r1, r2);
}
