use manager::config::{decode_config, ConfigError};
use manager::faas::{BidRecord, Error, FaaSBackend, OpenFaaSBackend, Sla};
use manager::iot::{Interval, IntervalQuery, Payload};
use manager::market_service::NodeRecord;
use manager::net::IpAddress;
use manager::node_view::{DateTimeHelper, GetFogNodes, UtcDateTime};
use std::collections::HashMap;

fn bid() -> BidRecord {
    BidRecord {
        sla: Sla {
            id: 3,
            function_live_name: "echo".to_string(),
            function_image: "ghcr.io/x/echo:1".to_string(),
            memory: "512Mi".to_string(),
            cpu: "500m".to_string(),
        },
    }
}

const ID: u128 = 0x67e55044_10b1_426f_9247_bb680e5fe0c8;

#[test]
fn function_name_is_live_name_and_bid_uuid() {
    assert_eq!(OpenFaaSBackend::function_name(ID, &bid()), "echo-67e55044-10b1-426f-9247-bb680e5fe0c8");
}

#[test]
fn function_definition_carries_the_limits() {
    let d = OpenFaaSBackend::function_definition(ID, &bid());
    assert_eq!(d.image, "ghcr.io/x/echo:1");
    assert_eq!(d.service, "echo-67e55044-10b1-426f-9247-bb680e5fe0c8");
    let limits = d.limits.unwrap();
    assert_eq!(limits.memory, "512Mi");
    assert_eq!(limits.cpu, "500m");
}

#[test]
fn provisioned_function_is_found_again() {
    let mut faas = OpenFaaSBackend::new();
    assert!(faas.get_provisioned_function(&ID).is_none());
    let name = faas.provision_function(ID, bid(), Ok(())).unwrap();
    assert_eq!(name, "echo-67e55044-10b1-426f-9247-bb680e5fe0c8");
    let record = faas.get_provisioned_function(&ID).unwrap();
    assert_eq!(record.function_name, name);
    assert_eq!(record.bid.sla.id, 3);
}

#[test]
fn provisioned_function_survives_other_provisionings() {
    let mut faas = OpenFaaSBackend::new();
    let name = faas.provision_function(ID, bid(), Ok(())).unwrap();
    let other = faas.provision_function(ID + 1, bid(), Ok(())).unwrap();
    assert_eq!(other, "echo-67e55044-10b1-426f-9247-bb680e5fe0c9");
    assert!(faas.provision_function(ID + 2, bid(), Err("quota".to_string())).is_err());
    let record = faas.get_provisioned_function(&ID).unwrap();
    assert_eq!(record.function_name, name);
    assert_eq!(record.bid.sla.function_image, "ghcr.io/x/echo:1");
    assert!(faas.get_provisioned_function(&(ID + 2)).is_none());
}

#[test]
fn refused_deployment_is_not_recorded() {
    let mut faas = OpenFaaSBackend::new();
    match faas.provision_function(ID, bid(), Err("quota".to_string())) {
        Err(Error::OpenFaaS(msg)) => assert_eq!(msg, "quota"),
        other => panic!("unexpected {:?}", other),
    }
    assert!(faas.get_provisioned_function(&ID).is_none());
}

#[test]
fn config_is_base64_of_utf8() {
    assert_eq!(decode_config("aGVsbG8gd29ybGQ=").unwrap(), "hello world");
    assert_eq!(decode_config("").unwrap(), "");
    // trailing bits are allowed
    assert_eq!(decode_config("aGVsbG9=").unwrap(), "hello");
}

#[test]
fn config_errors() {
    assert_eq!(decode_config("not base64!").unwrap_err(), ConfigError::Base64);
    // 0xff 0xfe is not UTF-8
    assert_eq!(decode_config("//4=").unwrap_err(), ConfigError::Utf8);
}

#[test]
fn interval_defaults_to_disabled_ten_seconds() {
    let i = Interval::default();
    assert_eq!(i.interval_ms, 10000);
    assert!(!i.enabled);
    assert_eq!(i.send_spacing_micros(3), None);
}

#[test]
fn interval_from_query() {
    let i: Interval = IntervalQuery { interval_ms: 250, enabled: true }.into();
    assert_eq!(i, Interval { interval_ms: 250, enabled: true });
}

#[test]
fn sends_are_spread_over_the_interval() {
    let i = Interval { interval_ms: 1000, enabled: true };
    assert_eq!(i.send_spacing_micros(3), Some(333_333));
    assert_eq!(i.send_spacing_micros(1), Some(1_000_000));
    assert_eq!(i.send_spacing_micros(0), None);
    assert!(333_333 * 3 <= 1_000_000);
    let huge = Interval { interval_ms: u64::MAX, enabled: true };
    assert_eq!(huge.send_spacing_micros(1), Some(u64::MAX));
    // The interval in microseconds exceeds a u64, its even share does not.
    let long = Interval { interval_ms: 100_000_000_000_000_000, enabled: true };
    assert_eq!(long.send_spacing_micros(10), Some(10_000_000_000_000_000_000));
    let none_fits = Interval { interval_ms: 0, enabled: true };
    assert_eq!(none_fits.send_spacing_micros(4), Some(0));
}

#[test]
fn payload_keeps_its_fields() {
    let p = Payload::new(1_700_000_000_000_000, "t".to_string(), 5);
    assert_eq!(p.sent_at, 1_700_000_000_000_000);
    assert_eq!(p.tag, "t");
    assert_eq!(p.period, 5);
}

#[test]
fn dates_of_four_digit_years_read_back_as_written() {
    let first = UtcDateTime { secs: -62_167_219_200, nanos: 0 };
    let text = DateTimeHelper::serialize_as(&first).unwrap();
    assert_eq!(text, "0000-01-01T00:00:00+00:00");
    assert_eq!(DateTimeHelper::deserialize_as(&text), Some(first));
    let last = UtcDateTime { secs: 253_402_300_799, nanos: 123_456_000 };
    let text = DateTimeHelper::serialize_as(&last).unwrap();
    assert_eq!(text, "9999-12-31T23:59:59.123456+00:00");
    assert_eq!(DateTimeHelper::deserialize_as(&text), Some(last));
}

#[test]
fn leap_seconds_read_back_as_written() {
    let leap = UtcDateTime { secs: 1_483_228_799, nanos: 1_500_000_000 };
    let text = DateTimeHelper::serialize_as(&leap).unwrap();
    assert_eq!(text, "2016-12-31T23:59:60.500+00:00");
    assert_eq!(DateTimeHelper::deserialize_as(&text), Some(leap));
    let whole = UtcDateTime { secs: 1_483_228_799, nanos: 1_000_000_000 };
    let text = DateTimeHelper::serialize_as(&whole).unwrap();
    assert_eq!(text, "2016-12-31T23:59:60+00:00");
    assert_eq!(DateTimeHelper::deserialize_as(&text), Some(whole));
}

#[test]
fn dates_are_written_as_rfc3339_and_read_back() {
    let t = UtcDateTime { secs: 1_431_648_000, nanos: 0 };
    let text = DateTimeHelper::serialize_as(&t).unwrap();
    assert_eq!(text, "2015-05-15T00:00:00+00:00");
    assert_eq!(DateTimeHelper::deserialize_as(&text), Some(t));
    assert_eq!(
        DateTimeHelper::deserialize_as("2015-05-15T02:00:00.5+02:00"),
        Some(UtcDateTime { secs: 1_431_648_000, nanos: 500_000_000 })
    );
    assert_eq!(DateTimeHelper::deserialize_as("yesterday"), None);
    assert_eq!(DateTimeHelper::serialize_as(&UtcDateTime { secs: i64::MAX, nanos: 0 }), None);
}

#[test]
fn fog_node_listing_from_record() {
    let record = NodeRecord {
        ip: IpAddress::V4(4),
        port_faas: 8080,
        tags: vec!["gpu".to_string()],
        accepted_bids: HashMap::new(),
    };
    let g = GetFogNodes::from((12, record));
    assert_eq!(g.id, 12);
    assert_eq!(g.ip, IpAddress::V4(4));
    assert_eq!(g.tags, vec!["gpu".to_string()]);
    assert!(g.accepted_bids.is_empty());
}
