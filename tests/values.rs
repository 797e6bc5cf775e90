use asic_rs::data::{HashAlgorithm, HashRate, HashRateUnit, MacAddress, Power};
use asic_rs::decimal::{Decimal, quotient};
use asic_rs::web::{AttemptOutcome, ESPMinerError, ESPMinerWebAPI, NextStep, method_sends_body};

fn dec(m: i128, s: i32) -> Decimal {
    Decimal { mantissa: m, scale: s }
}

/// Whether `r` is exactly the integer `n`.
fn ratio_is(r: &asic_rs::decimal::Ratio, n: i128) -> bool {
    let (mut num, mut den) = (r.numerator, r.denominator);
    if r.exponent >= 0 {
        num *= 10i128.pow(r.exponent as u32);
    } else {
        den *= 10i128.pow((-r.exponent) as u32);
    }
    num == n * den
}

#[test]
fn decimal_reads_integers_and_fractions() {
    assert_eq!(Decimal::parse("13.5"), Some(dec(135, 1)));
    assert_eq!(Decimal::parse("-2"), Some(dec(-2, 0)));
    assert_eq!(Decimal::parse("0.05"), Some(dec(5, 2)));
    assert_eq!(Decimal::parse("1200"), Some(dec(12, -2)));
    assert_eq!(Decimal::parse("1.50"), Some(dec(15, 1)));
    assert_eq!(Decimal::parse("0.00"), Some(dec(0, 0)));
    assert_eq!(Decimal::parse("-0"), Some(dec(0, 0)));
    assert_eq!(Decimal::parse("9223372036854775808"), Some(dec(9223372036854775808, 0)));
    assert_eq!(Decimal::parse("1.000000000000001"), Some(dec(1_000_000_000_000_001, 15)));
}

#[test]
fn decimal_keeps_every_float_text() {
    assert_eq!(Decimal::parse("0.30000000000000004"), Some(dec(30000000000000004, 17)));
    assert_eq!(Decimal::parse("100000000000000000000"), Some(dec(1, -20)));
    assert_eq!(Decimal::parse(&format!("{}", 1e-300f64)), Some(dec(1, 300)));
    assert_eq!(Decimal::parse(&format!("{}", 1.7976931348623157e308f64)), Some(dec(17976931348623157, -292)));
    assert_eq!(Decimal::parse(&u64::MAX.to_string()), Some(dec(18446744073709551615, 0)));
}

#[test]
fn decimal_rejects_other_text() {
    for t in ["", "-", "1.", ".5", "1.2.3", "abc", "1e5", "+1", "--1", "1 ", "-.5"] {
        assert_eq!(Decimal::parse(t), None, "{t}");
    }
    assert_eq!(Decimal::parse("170141183460469231731687303715884105728"), None);
}

#[test]
fn quotient_is_exact() {
    let q = quotient(dec(1, -2), dec(5, 2), 0).expect("quotient");
    assert!(ratio_is(&q, 2000));
    let e = quotient(dec(1, -2), dec(5, -1), 3).expect("quotient");
    assert_eq!((e.numerator, e.denominator, e.exponent), (1, 5, 4));
    assert!(ratio_is(&e, 2000));
    assert_eq!(quotient(dec(1, 0), dec(0, 0), 0), None);
}

#[test]
fn power_divided_by_hashrate() {
    let p = Power { watts: dec(15, 0) };
    let h = HashRate { value: dec(5, 0), unit: HashRateUnit::TeraHash, algo: HashAlgorithm::SHA256 };
    assert!(ratio_is(&p.div(h).expect("ratio"), 3));
    let w = Power { watts: dec(1, -2) };
    let gh = HashRate { value: dec(5, -1), unit: HashRateUnit::GigaHash, algo: HashAlgorithm::SHA256 };
    assert!(ratio_is(&w.div(gh).expect("ratio"), 2000));
    let ph = HashRate { value: dec(2, 0), unit: HashRateUnit::PetaHash, algo: HashAlgorithm::SHA256 };
    let kw = Power { watts: dec(4, -3) };
    assert!(ratio_is(&kw.div(ph).expect("ratio"), 2));
    let mh = HashRate { value: dec(1, -6), unit: HashRateUnit::MegaHash, algo: HashAlgorithm::SHA256 };
    assert!(ratio_is(&Power { watts: dec(3, 0) }.div(mh).expect("ratio"), 3));
    let zero = HashRate { value: dec(0, 0), unit: HashRateUnit::TeraHash, algo: HashAlgorithm::SHA256 };
    assert_eq!(p.div(zero), None);
}

#[test]
fn mac_address_reads_six_and_eight_bytes() {
    let m = MacAddress::parse("12:34:56:78:9A:bc").expect("mac");
    assert_eq!(m.bytes, vec![0x12, 0x34, 0x56, 0x78, 0x9A, 0xBC]);
    let m8 = MacAddress::parse("12-34-56-78-9A-BC-DE-F0").expect("mac");
    assert_eq!(m8.bytes.len(), 8);
    assert!(MacAddress::parse("12:34:56").is_none());
    assert!(MacAddress::parse("zz:34:56:78:9A:BC").is_none());
}

#[test]
fn error_messages() {
    assert_eq!(ESPMinerError::HttpError(404).message(), "HTTP error: 404");
    assert_eq!(ESPMinerError::HttpError(0).message(), "HTTP error: 0");
    assert_eq!(ESPMinerError::NetworkError("refused".to_string()).message(), "Network error: refused");
    assert_eq!(ESPMinerError::Timeout.message(), "Request timeout");
    assert_eq!(ESPMinerError::UnsupportedMethod("PUT".to_string()).message(), "Unsupported method: PUT");
    assert_eq!(ESPMinerError::MaxRetriesExceeded.message(), "Maximum retries exceeded");
}

#[test]
fn client_settings_and_url() {
    let api = ESPMinerWebAPI::new("192.168.1.100".into(), 80).with_timeout(7000).with_retries(3);
    assert_eq!(api.port(), 80);
    assert_eq!(api.retries(), 3);
    assert_eq!(api.timeout_ms(), 7000);
    assert_eq!(api.url("system/info"), "http://192.168.1.100:80/api/system/info");
    let fresh = ESPMinerWebAPI::new("10.0.0.2".into(), 8080);
    assert_eq!(fresh.retries(), 1);
    assert_eq!(fresh.timeout_ms(), 5000);
    assert_eq!(fresh.url("system/asic"), "http://10.0.0.2:8080/api/system/asic");
}

#[test]
fn retry_decisions() {
    let api = ESPMinerWebAPI::new("h".into(), 80).with_retries(2);
    assert!(matches!(api.after_attempt(0, false, AttemptOutcome::Decoded), NextStep::Done));
    assert!(matches!(api.after_attempt(0, false, AttemptOutcome::Status(500)), NextStep::Retry));
    assert!(matches!(api.after_attempt(1, true, AttemptOutcome::Failed(ESPMinerError::Timeout)), NextStep::Retry));
    assert!(matches!(api.after_attempt(2, false, AttemptOutcome::Status(500)), NextStep::Fail(ESPMinerError::HttpError(500))));
    assert!(matches!(
        api.after_attempt(2, false, AttemptOutcome::DecodeFailed("eof".to_string())),
        NextStep::Fail(ESPMinerError::ParseError(ref m)) if m == "eof"
    ));
    assert!(matches!(api.after_attempt(2, false, AttemptOutcome::Failed(ESPMinerError::Timeout)), NextStep::Fail(ESPMinerError::Timeout)));
    assert!(matches!(api.after_attempt(2, true, AttemptOutcome::Status(404)), NextStep::Fail(ESPMinerError::MaxRetriesExceeded)));
}

#[test]
fn methods_the_api_takes() {
    assert!(matches!(method_sends_body("GET"), Ok(false)));
    assert!(matches!(method_sends_body("POST"), Ok(true)));
    assert!(matches!(method_sends_body("PATCH"), Ok(true)));
    assert!(matches!(method_sends_body("PUT"), Err(ESPMinerError::UnsupportedMethod(ref m)) if m == "PUT"));
}
