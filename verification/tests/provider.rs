use cf_ddns::address::IpAddress;
use cf_ddns::fields::{cf_list_fields, record_fields, ListFailure, RecordFields};
use cf_ddns::provider::{cf_get_records, cf_parse_record, Field, RecordError};
use cf_ddns::record::{CfRecord, Record};
use cf_ddns::reply::{status_is_success, Reply};
use cf_ddns::request::{
    cf_authorization, cf_create_record, cf_outcome, cf_records_url, cf_update_record_ip,
    CreateRequest, ProviderFailure, UpdateRequest,
};
use cf_ddns::record_type::RecordType;
use cf_ddns::ttl::Ttl;

fn document(text: &str) -> serde_json::Value {
    serde_json::from_str(text).unwrap()
}

fn fields(id: &str, rtype: &str, name: &str, ttl: u64, content: &str, proxied: bool) -> RecordFields {
    RecordFields {
        id: Some(id.to_string()),
        rtype: Some(rtype.to_string()),
        name: Some(name.to_string()),
        ttl: Some(ttl),
        content: Some(content.to_string()),
        proxied: Some(proxied),
    }
}

fn received(text: &str) -> Reply<serde_json::Value> {
    Reply::Received { status: 200, body: Some(document(text)) }
}

#[test]
fn status_success_is_the_two_hundreds() {
    assert!(!status_is_success(0));
    assert!(!status_is_success(199));
    assert!(status_is_success(200));
    assert!(status_is_success(204));
    assert!(status_is_success(299));
    assert!(!status_is_success(300));
    assert!(!status_is_success(404));
    assert!(!status_is_success(500));
    assert!(!status_is_success(u16::MAX));
}

#[test]
fn record_fields_are_read_by_name_and_type() {
    let value = document(
        r#"{"id":"abc","type":"A","name":"www.example.com","ttl":300,"content":"1.2.3.4","proxied":true,"zone_id":"z"}"#,
    );
    assert_eq!(
        record_fields(&value),
        fields("abc", "A", "www.example.com", 300, "1.2.3.4", true)
    );
}

#[test]
fn record_fields_of_another_json_type_are_empty() {
    let value = document(
        r#"{"id":17,"type":null,"name":["x"],"ttl":"300","content":{"a":1},"proxied":"yes"}"#,
    );
    assert_eq!(
        record_fields(&value),
        RecordFields { id: None, rtype: None, name: None, ttl: None, content: None, proxied: None }
    );
}

#[test]
fn record_fields_of_numbers_that_are_no_unsigned_integers_are_empty() {
    for ttl in ["-1", "1.5", "1e2", "-0.0", "18446744073709551616"] {
        let text = format!(r#"{{"ttl":{}}}"#, ttl);
        assert_eq!(record_fields(&document(&text)).ttl, None, "{}", ttl);
    }
    assert_eq!(record_fields(&document(r#"{"ttl":0}"#)).ttl, Some(0));
    assert_eq!(
        record_fields(&document(r#"{"ttl":18446744073709551615}"#)).ttl,
        Some(u64::MAX)
    );
}

#[test]
fn record_fields_of_a_value_that_is_no_object_are_empty() {
    let nothing =
        RecordFields { id: None, rtype: None, name: None, ttl: None, content: None, proxied: None };
    for text in ["null", "true", "3", "\"id\"", "[]", "[{\"id\":\"abc\"}]", "{}"] {
        assert_eq!(record_fields(&document(text)), nothing, "{}", text);
    }
}

#[test]
fn list_reply_yields_every_entry_in_order() {
    let listed = cf_list_fields(received(
        r#"{"success":true,"result":[
            {"id":"1","type":"CNAME","name":"alias.example.com","ttl":1,"content":"example.com","proxied":false},
            {"id":"2","type":"A","name":"www.example.com","ttl":1,"content":"1.2.3.4","proxied":false},
            {"name":"odd"}
        ]}"#,
    ));
    assert_eq!(
        listed,
        Ok(vec![
            fields("1", "CNAME", "alias.example.com", 1, "example.com", false),
            fields("2", "A", "www.example.com", 1, "1.2.3.4", false),
            RecordFields {
                id: None,
                rtype: None,
                name: Some("odd".to_string()),
                ttl: None,
                content: None,
                proxied: None
            },
        ])
    );
    assert_eq!(cf_list_fields(received(r#"{"result":[]}"#)), Ok(vec![]));
}

#[test]
fn list_reply_without_a_result_array_is_malformed() {
    for text in [
        "{}",
        "null",
        "[]",
        r#"{"result":null}"#,
        r#"{"result":{}}"#,
        r#"{"result":"[]"}"#,
        r#"{"results":[]}"#,
        r#"[{"result":[]}]"#,
    ] {
        assert_eq!(cf_list_fields(received(text)), Err(ListFailure::Malformed), "{}", text);
    }
    assert_eq!(
        cf_list_fields(Reply::Received { status: 200, body: None }),
        Err(ListFailure::Malformed)
    );
}

#[test]
fn list_reply_that_is_no_success_is_a_failure() {
    assert_eq!(cf_list_fields(Reply::Unreachable), Err(ListFailure::Unreachable));
    let body = document(r#"{"success":false,"errors":[{"code":10000}],"result":[]}"#);
    assert_eq!(
        cf_list_fields(Reply::Received { status: 403, body: Some(body.clone()) }),
        Err(ListFailure::Rejected { status: 403, body: Some(body) })
    );
    assert_eq!(
        cf_list_fields(Reply::Received { status: 500, body: None }),
        Err(ListFailure::Rejected { status: 500, body: None })
    );
}

#[test]
fn valid_entry_becomes_a_record() {
    let address = IpAddress::from_octets(1, 2, 3, 4);
    assert_eq!(
        cf_parse_record(&fields("id-1", "A", "www.example.com", 300, "1.2.3.4", true), Some(address)),
        Ok(CfRecord {
            id: "id-1".to_string(),
            record: Record {
                name: "www.example.com".to_string(),
                ttl: Ttl::Seconds(300),
                content: address,
                proxied: true,
            },
        })
    );
    let v6 = IpAddress::V6(0x2001_0db8_0000_0000_0000_0000_0000_0001);
    let parsed =
        cf_parse_record(&fields("id-2", "AAAA", "www.example.com", 1, "2001:db8::1", false), Some(v6))
            .unwrap();
    assert_eq!(parsed.record.ttl, Ttl::Auto);
    assert_eq!(parsed.record.content, v6);
    assert_eq!(parsed.record.rtype(), RecordType::AAAA);
    assert!(!parsed.record.proxied);
}

#[test]
fn entry_errors_name_the_first_fault() {
    let address = Some(IpAddress::from_octets(1, 2, 3, 4));
    let good = || fields("id", "A", "www.example.com", 60, "1.2.3.4", false);

    let mut entry = good();
    entry.id = None;
    entry.rtype = None;
    assert_eq!(cf_parse_record(&entry, address), Err(RecordError::Missing(Field::Id)));

    let mut entry = good();
    entry.rtype = None;
    entry.ttl = Some(5);
    assert_eq!(cf_parse_record(&entry, address), Err(RecordError::Missing(Field::Type)));

    let mut entry = good();
    entry.rtype = Some("CNAME".to_string());
    entry.name = None;
    assert_eq!(cf_parse_record(&entry, address), Err(RecordError::UnrecognizedType));

    let mut entry = good();
    entry.name = None;
    assert_eq!(cf_parse_record(&entry, address), Err(RecordError::Missing(Field::Name)));

    let mut entry = good();
    entry.ttl = None;
    assert_eq!(cf_parse_record(&entry, address), Err(RecordError::Missing(Field::Ttl)));

    let mut entry = good();
    entry.ttl = Some(59);
    entry.content = None;
    assert_eq!(cf_parse_record(&entry, address), Err(RecordError::InvalidTtl { value: 59 }));

    let mut entry = good();
    entry.content = None;
    assert_eq!(cf_parse_record(&entry, address), Err(RecordError::Missing(Field::Content)));

    let mut entry = good();
    entry.content = Some("not an address".to_string());
    entry.proxied = None;
    assert_eq!(cf_parse_record(&entry, None), Err(RecordError::UnparsableAddress));

    let entry = good();
    assert_eq!(
        cf_parse_record(&entry, Some(IpAddress::V6(1))),
        Err(RecordError::WrongFamily)
    );
    let mut entry = good();
    entry.rtype = Some("AAAA".to_string());
    assert_eq!(cf_parse_record(&entry, address), Err(RecordError::WrongFamily));

    let mut entry = good();
    entry.proxied = None;
    assert_eq!(cf_parse_record(&entry, address), Err(RecordError::Missing(Field::Proxied)));
}

#[test]
fn entry_ttl_is_judged_as_the_integer_it_is() {
    let address = Some(IpAddress::from_octets(1, 2, 3, 4));
    let with_ttl = |ttl: u64| fields("id", "A", "www.example.com", ttl, "1.2.3.4", false);
    for ttl in [0u64, 2, 59, 86401, 4294967296, 4294967297, 4294967356, u64::MAX] {
        assert_eq!(
            cf_parse_record(&with_ttl(ttl), address),
            Err(RecordError::InvalidTtl { value: ttl }),
            "{}",
            ttl
        );
    }
    assert_eq!(cf_parse_record(&with_ttl(1), address).unwrap().record.ttl, Ttl::Auto);
    assert_eq!(cf_parse_record(&with_ttl(60), address).unwrap().record.ttl, Ttl::Seconds(60));
    assert_eq!(cf_parse_record(&with_ttl(86400), address).unwrap().record.ttl, Ttl::Seconds(86400));
}

#[test]
fn malformed_record_costs_only_itself() {
    let listed = cf_list_fields(received(
        r#"{"result":[
            {"id":"1","type":"CNAME","name":"alias.example.com","ttl":1,"content":"example.com","proxied":false},
            {"id":"2","type":"A","name":"www.example.com","ttl":1,"content":"1.2.3.4","proxied":false}
        ]}"#,
    ))
    .unwrap();
    let address = IpAddress::from_octets(1, 2, 3, 4);
    let entries: Vec<(RecordFields, Option<IpAddress>)> =
        listed.into_iter().zip([None, Some(address)]).collect();
    let records = cf_get_records(&entries);
    assert_eq!(
        records,
        vec![CfRecord {
            id: "2".to_string(),
            record: Record {
                name: "www.example.com".to_string(),
                ttl: Ttl::Auto,
                content: address,
                proxied: false,
            },
        }]
    );
}

#[test]
fn records_keep_the_order_of_the_list() {
    let one = IpAddress::from_octets(10, 0, 0, 1);
    let two = IpAddress::V6(2);
    let three = IpAddress::from_octets(10, 0, 0, 3);
    let entries = vec![
        (fields("1", "A", "a.example.com", 1, "10.0.0.1", false), Some(one)),
        (fields("x", "A", "bad-ttl.example.com", 30, "10.0.0.9", false), Some(one)),
        (fields("2", "AAAA", "a.example.com", 120, "::2", true), Some(two)),
        (fields("y", "A", "bad-address.example.com", 1, "10.0.0", false), None),
        (fields("z", "AAAA", "wrong-family.example.com", 1, "10.0.0.3", false), Some(three)),
        (fields("3", "A", "b.example.com", 86400, "10.0.0.3", false), Some(three)),
    ];
    let ids: Vec<String> = cf_get_records(&entries).into_iter().map(|record| record.id).collect();
    assert_eq!(ids, vec!["1".to_string(), "2".to_string(), "3".to_string()]);
    assert_eq!(cf_get_records(&Vec::new()), Vec::<CfRecord>::new());
}

#[test]
fn request_addresses_name_zone_and_record() {
    assert_eq!(
        cf_records_url("zone-1"),
        "https://api.cloudflare.com/client/v4/zones/zone-1/dns_records"
    );
    assert_eq!(cf_authorization("s3cr3t"), "Bearer s3cr3t");
    assert_eq!(
        cf_update_record_ip("zone-1", "rec-9", &IpAddress::from_octets(1, 2, 3, 5)),
        UpdateRequest {
            url: "https://api.cloudflare.com/client/v4/zones/zone-1/dns_records/rec-9".to_string(),
            content: IpAddress::from_octets(1, 2, 3, 5),
        }
    );
}

#[test]
fn create_request_carries_the_record() {
    let record = Record {
        name: "www.example.com".to_string(),
        ttl: Ttl::Auto,
        content: IpAddress::V6(0x2001_0db8_0000_0000_0000_0000_0000_0001),
        proxied: false,
    };
    assert_eq!(
        cf_create_record(&record, "zone-1"),
        CreateRequest {
            url: "https://api.cloudflare.com/client/v4/zones/zone-1/dns_records".to_string(),
            name: "www.example.com".to_string(),
            rtype: RecordType::AAAA,
            content: IpAddress::V6(0x2001_0db8_0000_0000_0000_0000_0000_0001),
            ttl: 1,
            proxied: false,
        }
    );
    let explicit = Record {
        name: "a.example.com".to_string(),
        ttl: Ttl::Seconds(3600),
        content: IpAddress::from_octets(9, 9, 9, 9),
        proxied: true,
    };
    let request = cf_create_record(&explicit, "z");
    assert_eq!(request.rtype, RecordType::A);
    assert_eq!(request.ttl, 3600);
    assert!(request.proxied);
}

#[test]
fn provider_outcome_goes_by_status() {
    assert_eq!(cf_outcome(Reply::Unreachable), Err(ProviderFailure::Unreachable));
    assert_eq!(cf_outcome(Reply::Received { status: 200, body: Some("{}".to_string()) }), Ok(()));
    assert_eq!(cf_outcome(Reply::Received { status: 204, body: None }), Ok(()));
    assert_eq!(
        cf_outcome(Reply::Received { status: 400, body: Some("bad request".to_string()) }),
        Err(ProviderFailure::Rejected { status: 400, body: Some("bad request".to_string()) })
    );
    assert_eq!(
        cf_outcome(Reply::Received { status: 301, body: None }),
        Err(ProviderFailure::Rejected { status: 301, body: None })
    );
}
