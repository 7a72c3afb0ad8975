use cf_ddns::address::IpAddress;
use cf_ddns::engine::{
    decide, find_record, finish_pass, plan_pass, reconcile_pass, Continuation, Decision, Step,
};
use cf_ddns::fields::{ListFailure, RecordFields};
use cf_ddns::hosts::parse_hosts;
use cf_ddns::record::{CfRecord, Record};
use cf_ddns::record_type::RecordType;
use cf_ddns::reply::Reply;
use cf_ddns::resolver::{get_external_ip, AddressBody, ResolutionFailure};
use cf_ddns::snapshot::{rotate, AddressSnapshot};
use cf_ddns::ttl::Ttl;

const V6_ONE: IpAddress = IpAddress::V6(0x2001_0db8_0000_0000_0000_0000_0000_0001);
const V6_TWO: IpAddress = IpAddress::V6(0x2001_0db8_0000_0000_0000_0000_0000_0002);

fn v4(last: u8) -> IpAddress {
    IpAddress::from_octets(1, 2, 3, last)
}

fn stored(id: &str, name: &str, content: IpAddress) -> CfRecord {
    CfRecord {
        id: id.to_string(),
        record: Record { name: name.to_string(), ttl: Ttl::Seconds(300), content, proxied: true },
    }
}

fn snapshot(addresses: &[IpAddress]) -> AddressSnapshot {
    let mut snapshot = AddressSnapshot::new();
    for address in addresses {
        snapshot.insert(*address);
    }
    snapshot
}

fn body(text: &str, address: Option<IpAddress>) -> Reply<AddressBody> {
    Reply::Received { status: 200, body: Some(AddressBody { text: text.to_string(), address }) }
}

fn host_step(host: &str, rtype: RecordType, decision: Decision) -> Step {
    Step::Host { host: host.to_string(), rtype, decision }
}

fn calls(steps: &[Step]) -> usize {
    steps
        .iter()
        .filter(|step| {
            matches!(
                step,
                Step::Host { decision: Decision::Update { .. } | Decision::Create { .. }, .. }
            )
        })
        .count()
}

#[test]
fn resolution_takes_an_address_of_the_family_asked_for() {
    assert_eq!(get_external_ip(&RecordType::A, body("1.2.3.4", Some(v4(4)))), Ok(v4(4)));
    assert_eq!(get_external_ip(&RecordType::AAAA, body("2001:db8::1", Some(V6_ONE))), Ok(V6_ONE));
}

#[test]
fn resolution_failures_are_told_apart() {
    assert_eq!(
        get_external_ip(&RecordType::A, Reply::Unreachable),
        Err(ResolutionFailure::Unreachable)
    );
    assert_eq!(
        get_external_ip(
            &RecordType::A,
            Reply::Received {
                status: 503,
                body: Some(AddressBody { text: "1.2.3.4".to_string(), address: Some(v4(4)) })
            }
        ),
        Err(ResolutionFailure::Rejected { status: 503 })
    );
    assert_eq!(
        get_external_ip(&RecordType::A, Reply::Received { status: 200, body: None }),
        Err(ResolutionFailure::Unreadable)
    );
    assert_eq!(
        get_external_ip(&RecordType::A, body("1.2.3.4\n", None)),
        Err(ResolutionFailure::Unparsable { body: "1.2.3.4\n".to_string() })
    );
}

#[test]
fn resolution_never_coerces_the_family() {
    assert_eq!(
        get_external_ip(&RecordType::A, body("2001:db8::1", Some(V6_ONE))),
        Err(ResolutionFailure::WrongFamily { address: V6_ONE })
    );
    assert_eq!(
        get_external_ip(&RecordType::AAAA, body("1.2.3.4", Some(v4(4)))),
        Err(ResolutionFailure::WrongFamily { address: v4(4) })
    );
}

#[test]
fn snapshot_holds_one_address_per_family() {
    let mut current = AddressSnapshot::new();
    assert!(current.is_empty());
    assert_eq!(current.get(RecordType::A), None);
    current.insert(v4(4));
    current.insert(v4(5));
    assert_eq!(current.get(RecordType::A), Some(v4(5)));
    assert_eq!(current.get(RecordType::AAAA), None);
    current.insert(V6_ONE);
    assert_eq!(current.get(RecordType::A), Some(v4(5)));
    assert_eq!(current.get(RecordType::AAAA), Some(V6_ONE));
    assert!(!current.is_empty());
    current.remove(RecordType::A);
    assert_eq!(current.get(RecordType::A), None);
    assert_eq!(current.get(RecordType::AAAA), Some(V6_ONE));
    current.clear();
    assert!(current.is_empty());
    assert_eq!(current, AddressSnapshot::new());
}

#[test]
fn snapshot_resolution_drops_a_family_that_failed() {
    let mut current = snapshot(&[v4(4), V6_ONE]);
    assert_eq!(current.resolve(RecordType::A, body("1.2.3.5", Some(v4(5)))), Ok(v4(5)));
    assert_eq!(current.get(RecordType::A), Some(v4(5)));
    assert_eq!(
        current.resolve(RecordType::AAAA, Reply::Unreachable),
        Err(ResolutionFailure::Unreachable)
    );
    assert_eq!(current.get(RecordType::AAAA), None);
    assert_eq!(current.get(RecordType::A), Some(v4(5)));
    assert_eq!(
        current.resolve(RecordType::A, body("::1", Some(IpAddress::V6(1)))),
        Err(ResolutionFailure::WrongFamily { address: IpAddress::V6(1) })
    );
    assert!(current.is_empty());
}

#[test]
fn rotation_swaps_and_clears() {
    let mut previous = snapshot(&[v4(1), V6_ONE]);
    let mut current = snapshot(&[v4(2)]);
    rotate(&mut previous, &mut current);
    assert_eq!(previous, snapshot(&[v4(2)]));
    assert_eq!(previous.get(RecordType::AAAA), None);
    assert!(current.is_empty());
}

#[test]
fn finishing_a_single_run_stops() {
    let mut previous = snapshot(&[v4(1)]);
    let mut current = snapshot(&[v4(2), V6_ONE]);
    assert_eq!(finish_pass(0, &mut previous, &mut current), Continuation::Stop);
    assert_eq!(previous, snapshot(&[v4(1)]));
    assert_eq!(current, snapshot(&[v4(2), V6_ONE]));
}

#[test]
fn finishing_a_repeated_run_sleeps_and_rotates() {
    let mut previous = snapshot(&[v4(1), V6_ONE]);
    let mut current = snapshot(&[v4(2)]);
    assert_eq!(finish_pass(60, &mut previous, &mut current), Continuation::Sleep { seconds: 60 });
    assert_eq!(previous, snapshot(&[v4(2)]));
    assert!(current.is_empty());
}

#[test]
fn find_takes_the_first_record_of_host_and_family() {
    let records = vec![
        stored("1", "www.example.com", V6_ONE),
        stored("2", "other.example.com", v4(4)),
        stored("3", "www.example.com", v4(4)),
        stored("4", "www.example.com", v4(5)),
    ];
    let host = "www.example.com".to_string();
    assert_eq!(find_record(&records, &host, RecordType::A), Some(2));
    assert_eq!(find_record(&records, &host, RecordType::AAAA), Some(0));
    assert_eq!(find_record(&records, &"other.example.com".to_string(), RecordType::AAAA), None);
    assert_eq!(find_record(&records, &"WWW.example.com".to_string(), RecordType::A), None);
    assert_eq!(find_record(&Vec::new(), &host, RecordType::A), None);
}

#[test]
fn decision_keeps_an_identical_address() {
    let records = vec![stored("1", "www.example.com", v4(4))];
    assert_eq!(decide(&records, &"www.example.com".to_string(), v4(4), true), Decision::Keep);
    assert_eq!(decide(&records, &"www.example.com".to_string(), v4(4), false), Decision::Keep);
}

#[test]
fn decision_updates_a_differing_address() {
    let records = vec![stored("rec-1", "www.example.com", v4(4))];
    assert_eq!(
        decide(&records, &"www.example.com".to_string(), v4(5), false),
        Decision::Update { id: "rec-1".to_string(), from: v4(4), to: v4(5) }
    );
}

#[test]
fn decision_goes_by_the_first_record_only() {
    let records =
        vec![stored("first", "www.example.com", v4(4)), stored("second", "www.example.com", v4(5))];
    assert_eq!(
        decide(&records, &"www.example.com".to_string(), v4(5), true),
        Decision::Update { id: "first".to_string(), from: v4(4), to: v4(5) }
    );
}

#[test]
fn change_of_address_is_announced_and_updated_once() {
    let previous = snapshot(&[v4(4)]);
    let current = snapshot(&[v4(5)]);
    let records = vec![stored("rec-1", "www.example.com", v4(4))];
    let hosts = vec!["www.example.com".to_string()];
    let steps = plan_pass(&current, &previous, &records, &hosts, false);
    assert_eq!(
        steps,
        vec![
            Step::AddressChanged { rtype: RecordType::A, previous: Some(v4(4)), current: v4(5) },
            host_step(
                "www.example.com",
                RecordType::A,
                Decision::Update { id: "rec-1".to_string(), from: v4(4), to: v4(5) }
            ),
        ]
    );
    assert_eq!(calls(&steps), 1);
}

#[test]
fn first_pass_announces_a_change_from_nothing() {
    let current = snapshot(&[v4(4)]);
    let records = vec![stored("rec-1", "www.example.com", v4(4))];
    let hosts = vec!["www.example.com".to_string()];
    let steps = plan_pass(&current, &AddressSnapshot::new(), &records, &hosts, false);
    assert_eq!(
        steps,
        vec![
            Step::AddressChanged { rtype: RecordType::A, previous: None, current: v4(4) },
            host_step("www.example.com", RecordType::A, Decision::Keep),
        ]
    );
}

#[test]
fn creation_is_gated_by_configuration() {
    let current = snapshot(&[V6_ONE]);
    let previous = snapshot(&[V6_ONE]);
    let records = vec![stored("rec-1", "www.example.com", v4(4))];
    let hosts = vec!["www.example.com".to_string()];

    let denied = plan_pass(&current, &previous, &records, &hosts, false);
    assert_eq!(
        denied,
        vec![host_step("www.example.com", RecordType::AAAA, Decision::Unresolvable)]
    );
    assert_eq!(calls(&denied), 0);

    let allowed = plan_pass(&current, &previous, &records, &hosts, true);
    assert_eq!(
        allowed,
        vec![host_step(
            "www.example.com",
            RecordType::AAAA,
            Decision::Create {
                record: Record {
                    name: "www.example.com".to_string(),
                    ttl: Ttl::Auto,
                    content: V6_ONE,
                    proxied: false,
                }
            }
        )]
    );
    assert_eq!(calls(&allowed), 1);
    match &allowed[0] {
        Step::Host { decision: Decision::Create { record }, .. } => {
            assert_eq!(u32::from(record.ttl), 1);
            assert_eq!(record.rtype(), RecordType::AAAA);
        }
        other => panic!("{:?}", other),
    }
}

#[test]
fn second_pass_with_nothing_changed_sends_nothing() {
    let hosts = parse_hosts("www.example.com;api.example.com");
    let records = vec![
        stored("1", "www.example.com", v4(4)),
        stored("2", "api.example.com", v4(4)),
        stored("3", "www.example.com", V6_ONE),
        stored("4", "api.example.com", V6_ONE),
    ];
    let mut previous = AddressSnapshot::new();
    let mut current = snapshot(&[v4(4), V6_ONE]);

    let first = plan_pass(&current, &previous, &records, &hosts, true);
    assert_eq!(calls(&first), 0);
    assert_eq!(first.len(), 6);
    assert_eq!(finish_pass(30, &mut previous, &mut current), Continuation::Sleep { seconds: 30 });

    current.insert(v4(4));
    current.insert(V6_ONE);
    let second = plan_pass(&current, &previous, &records, &hosts, true);
    assert_eq!(
        second,
        vec![
            host_step("www.example.com", RecordType::A, Decision::Keep),
            host_step("api.example.com", RecordType::A, Decision::Keep),
            host_step("www.example.com", RecordType::AAAA, Decision::Keep),
            host_step("api.example.com", RecordType::AAAA, Decision::Keep),
        ]
    );
}

#[test]
fn duplicate_hosts_are_reconciled_once_per_family() {
    let hosts = parse_hosts("a.com;a.com;b.com");
    let current = snapshot(&[v4(5), V6_TWO]);
    let previous = snapshot(&[v4(5), V6_TWO]);
    let records = vec![stored("1", "a.com", v4(4)), stored("2", "b.com", V6_TWO)];
    let steps = plan_pass(&current, &previous, &records, &hosts, true);
    assert_eq!(
        steps,
        vec![
            host_step(
                "a.com",
                RecordType::A,
                Decision::Update { id: "1".to_string(), from: v4(4), to: v4(5) }
            ),
            host_step(
                "b.com",
                RecordType::A,
                Decision::Create {
                    record: Record {
                        name: "b.com".to_string(),
                        ttl: Ttl::Auto,
                        content: v4(5),
                        proxied: false
                    }
                }
            ),
            host_step(
                "a.com",
                RecordType::AAAA,
                Decision::Create {
                    record: Record {
                        name: "a.com".to_string(),
                        ttl: Ttl::Auto,
                        content: V6_TWO,
                        proxied: false
                    }
                }
            ),
            host_step("b.com", RecordType::AAAA, Decision::Keep),
        ]
    );
}

#[test]
fn unresolved_family_is_skipped() {
    let hosts = vec!["www.example.com".to_string()];
    let records = vec![stored("1", "www.example.com", v4(4)), stored("2", "www.example.com", V6_ONE)];
    let previous = snapshot(&[v4(4), V6_ONE]);
    let only_v6 = snapshot(&[V6_TWO]);
    assert_eq!(
        plan_pass(&only_v6, &previous, &records, &hosts, true),
        vec![
            Step::AddressChanged {
                rtype: RecordType::AAAA,
                previous: Some(V6_ONE),
                current: V6_TWO
            },
            host_step(
                "www.example.com",
                RecordType::AAAA,
                Decision::Update { id: "2".to_string(), from: V6_ONE, to: V6_TWO }
            ),
        ]
    );
    assert_eq!(plan_pass(&AddressSnapshot::new(), &previous, &records, &hosts, true), vec![]);
}

#[test]
fn pass_without_hosts_only_announces() {
    let steps = plan_pass(&snapshot(&[v4(4)]), &AddressSnapshot::new(), &Vec::new(), &Vec::new(), true);
    assert_eq!(
        steps,
        vec![Step::AddressChanged { rtype: RecordType::A, previous: None, current: v4(4) }]
    );
}

#[test]
fn failed_listing_gives_up_the_pass() {
    let current = snapshot(&[v4(5)]);
    let previous = snapshot(&[v4(4)]);
    let hosts = vec!["www.example.com".to_string()];
    assert_eq!(
        reconcile_pass(&current, &previous, Err(ListFailure::Unreachable), &hosts, true),
        Err(ListFailure::Unreachable)
    );
    assert_eq!(
        reconcile_pass(&current, &previous, Err(ListFailure::Malformed), &hosts, true),
        Err(ListFailure::Malformed)
    );
    assert_eq!(
        reconcile_pass(
            &current,
            &previous,
            Err(ListFailure::Rejected { status: 401, body: None }),
            &hosts,
            true
        ),
        Err(ListFailure::Rejected { status: 401, body: None })
    );
}

#[test]
fn pass_is_planned_over_the_entries_that_are_records() {
    let entry = |id: &str, rtype: &str, name: &str, content: &str| RecordFields {
        id: Some(id.to_string()),
        rtype: Some(rtype.to_string()),
        name: Some(name.to_string()),
        ttl: Some(1),
        content: Some(content.to_string()),
        proxied: Some(false),
    };
    let entries = vec![
        (entry("1", "CNAME", "www.example.com", "example.com"), None),
        (entry("2", "A", "www.example.com", "1.2.3.4"), Some(v4(4))),
    ];
    let current = snapshot(&[v4(5)]);
    let previous = snapshot(&[v4(4)]);
    let hosts = vec!["www.example.com".to_string()];
    assert_eq!(
        reconcile_pass(&current, &previous, Ok(entries), &hosts, false),
        Ok(vec![
            Step::AddressChanged { rtype: RecordType::A, previous: Some(v4(4)), current: v4(5) },
            host_step(
                "www.example.com",
                RecordType::A,
                Decision::Update { id: "2".to_string(), from: v4(4), to: v4(5) }
            ),
        ])
    );
}
