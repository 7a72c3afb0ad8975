//! What holds of every reconciliation pass, proved from the definitions of
//! its steps.

use vstd::prelude::*;
use crate::address::record_type_of;
use crate::address::IpAddress;
use crate::engine::change_notice;
use crate::engine::decision_for;
use crate::engine::family_steps;
use crate::engine::first_match;
use crate::engine::host_step;
use crate::engine::is_first_match;
use crate::engine::lemma_first_match_exists;
use crate::engine::new_record;
use crate::engine::pass_steps;
use crate::engine::DecisionView;
use crate::engine::StepView;
use crate::hosts::host_list;
use crate::hosts::lemma_hosts_are_distinct;
use crate::record::CfRecordView;
use crate::record_type::RecordType;
use crate::snapshot::entry;
use crate::snapshot::families_agree;
use crate::ttl::Ttl;

verus! {

/// Whether the provider's first record of `host` in the family of `address`
/// holds that address already.
pub open spec fn settled(records: Seq<CfRecordView>, host: Seq<char>, address: IpAddress) -> bool {
    first_match(records, host, record_type_of(address)) matches Some(index)
        && records[index].record.content == address
}

/// Whether `place` holds the decision for `host` in the family `rtype`, and
/// no other place of the steps does.
pub open spec fn is_only_decision(
    steps: Seq<StepView>,
    host: Seq<char>,
    rtype: RecordType,
    place: int,
) -> bool {
    &&& 0 <= place < steps.len()
    &&& steps[place].decides(host, rtype)
    &&& forall|other: int|
        0 <= other < steps.len() && other != place ==> !(#[trigger] steps[other]).decides(
            host,
            rtype,
        )
}

/// The four decisions, each with the state of the provider's list that it
/// answers to and with what it carries.
///
/// - Keep: the first record of the host in the family holds the address.
/// - Update: that record holds another address. The update names that
///   record, goes to the resolved address, and stays within the family.
/// - Create: there is no such record and creation is permitted. The new
///   record has the host's name, the resolved address, an automatic TTL,
///   and is not proxied.
/// - Unresolvable: there is no such record and creation is not permitted.
pub proof fn lemma_decision_cases(
    records: Seq<CfRecordView>,
    host: Seq<char>,
    address: IpAddress,
    create_allowed: bool,
)
    ensures
        ({
            let rtype = record_type_of(address);
            let found = first_match(records, host, rtype);
            let decision = decision_for(records, host, address, create_allowed);
            &&& decision is Keep <==> settled(records, host, address)
            &&& decision is Update <==> (found is Some && records[found->0].record.content
                != address)
            &&& decision is Create <==> (found is None && create_allowed)
            &&& decision is Unresolvable <==> (found is None && !create_allowed)
            &&& decision matches DecisionView::Update { id, from, to } ==> {
                &&& is_first_match(records, host, rtype, found->0)
                &&& id == records[found->0].id
                &&& from == records[found->0].record.content
                &&& to == address
                &&& from != to
                &&& record_type_of(from) == record_type_of(to)
            }
            &&& decision matches DecisionView::Create { record } ==> {
                &&& record == new_record(host, address)
                &&& record.name == host
                &&& record.content == address
                &&& record.ttl == Ttl::Auto
                &&& record.ttl.wire() == 1
                &&& !record.proxied
                &&& record.rtype() == rtype
                &&& record.wf()
            }
            &&& found is None <==> forall|index: int|
                0 <= index < records.len() ==> !(#[trigger] records[index]).record.answers(
                    host,
                    rtype,
                )
        }),
{
    lemma_first_match_exists(records, host, record_type_of(address));
}

/// The shape of the steps of one family that the pass resolved `address`
/// for: the announcement, if there is one, and then exactly one step for
/// each host, at the host's place.
pub proof fn lemma_family_shape(
    rtype: RecordType,
    current: Map<RecordType, IpAddress>,
    previous: Map<RecordType, IpAddress>,
    records: Seq<CfRecordView>,
    hosts: Seq<Seq<char>>,
    create_allowed: bool,
)
    requires
        current.contains_key(rtype),
    ensures
        ({
            let steps = family_steps(rtype, current, previous, records, hosts, create_allowed);
            let notice = change_notice(entry(previous, rtype), current[rtype]);
            &&& notice.len() <= 1
            &&& notice.len() == 0 <==> entry(previous, rtype) == Some(current[rtype])
            &&& steps.len() == notice.len() + hosts.len()
            &&& forall|place: int|
                0 <= place < notice.len() ==> #[trigger] steps[place] == StepView::AddressChanged {
                    rtype: record_type_of(current[rtype]),
                    previous: entry(previous, rtype),
                    current: current[rtype],
                }
            &&& forall|place: int|
                notice.len() <= place < steps.len() ==> #[trigger] steps[place] == host_step(
                    records,
                    hosts[place - notice.len()],
                    current[rtype],
                    create_allowed,
                )
        }),
{
}

/// A pass over a provider that holds the resolved addresses already, with
/// the addresses unchanged since the previous pass, sends nothing and
/// announces nothing: every step is one that keeps what is there. So a pass
/// that is run again with nothing changed outside makes no update and no
/// creation.
pub proof fn lemma_settled_pass_is_quiet(
    current: Map<RecordType, IpAddress>,
    previous: Map<RecordType, IpAddress>,
    records: Seq<CfRecordView>,
    hosts: Seq<Seq<char>>,
    create_allowed: bool,
)
    requires
        forall|rtype: RecordType| #[trigger]
            current.contains_key(rtype) ==> entry(previous, rtype) == Some(current[rtype]),
        forall|rtype: RecordType, place: int|
            current.contains_key(rtype) && 0 <= place < hosts.len() ==> settled(
                records,
                #[trigger] hosts[place],
                #[trigger] current[rtype],
            ),
    ensures
        ({
            let steps = pass_steps(current, previous, records, hosts, create_allowed);
            forall|place: int|
                0 <= place < steps.len() ==> {
                    &&& !(#[trigger] steps[place]).is_call()
                    &&& steps[place] matches StepView::Host { decision: DecisionView::Keep, .. }
                }
        }),
{
    let steps = pass_steps(current, previous, records, hosts, create_allowed);
    let first = family_steps(RecordType::A, current, previous, records, hosts, create_allowed);
    let second = family_steps(RecordType::AAAA, current, previous, records, hosts, create_allowed);
    assert forall|place: int| 0 <= place < steps.len() implies {
        &&& !(#[trigger] steps[place]).is_call()
        &&& steps[place] matches StepView::Host { decision: DecisionView::Keep, .. }
    } by {
        if place < first.len() {
            lemma_family_shape(RecordType::A, current, previous, records, hosts, create_allowed);
            assert(settled(records, hosts[place], current[RecordType::A]));
            assert(steps[place] == first[place]);
        } else {
            lemma_family_shape(RecordType::AAAA, current, previous, records, hosts, create_allowed);
            let within = place - first.len();
            assert(settled(records, hosts[within], current[RecordType::AAAA]));
            assert(steps[place] == second[within]);
        }
    }
}

/// With distinct hosts, a pass decides exactly once for each host in each
/// family that it resolved an address for, and the decision is the one for
/// that family's address.
pub proof fn lemma_each_host_decided_once(
    current: Map<RecordType, IpAddress>,
    previous: Map<RecordType, IpAddress>,
    records: Seq<CfRecordView>,
    hosts: Seq<Seq<char>>,
    create_allowed: bool,
    rtype: RecordType,
    position: int,
)
    requires
        families_agree(current),
        hosts.no_duplicates(),
        current.contains_key(rtype),
        0 <= position < hosts.len(),
    ensures
        exists|place: int|
            {
                &&& #[trigger] is_only_decision(
                    pass_steps(current, previous, records, hosts, create_allowed),
                    hosts[position],
                    rtype,
                    place,
                )
                &&& pass_steps(current, previous, records, hosts, create_allowed)[place]
                    == host_step(records, hosts[position], current[rtype], create_allowed)
            },
{
    let steps = pass_steps(current, previous, records, hosts, create_allowed);
    let first = family_steps(RecordType::A, current, previous, records, hosts, create_allowed);
    let second = family_steps(RecordType::AAAA, current, previous, records, hosts, create_allowed);
    let host = hosts[position];
    if current.contains_key(RecordType::A) {
        lemma_family_shape(RecordType::A, current, previous, records, hosts, create_allowed);
    }
    if current.contains_key(RecordType::AAAA) {
        lemma_family_shape(RecordType::AAAA, current, previous, records, hosts, create_allowed);
    }
    let notice = change_notice(entry(previous, rtype), current[rtype]);
    let place = match rtype {
        RecordType::A => notice.len() + position,
        RecordType::AAAA => first.len() + notice.len() + position,
    };
    let own_start = match rtype {
        RecordType::A => 0int,
        RecordType::AAAA => first.len() as int,
    };
    assert(steps[place] == host_step(records, host, current[rtype], create_allowed)) by {
        match rtype {
            RecordType::A => {
                assert(steps[place] == first[place]);
            },
            RecordType::AAAA => {
                assert(steps[place] == second[place - first.len()]);
            },
        }
    }
    assert forall|other: int| 0 <= other < steps.len() && other != place implies !(
    #[trigger] steps[other]).decides(host, rtype) by {
        if other < first.len() {
            assert(steps[other] == first[other]);
            let own = change_notice(entry(previous, RecordType::A), current[RecordType::A]);
            if other >= own.len() {
                assert(first[other] == host_step(
                    records,
                    hosts[other - own.len()],
                    current[RecordType::A],
                    create_allowed,
                ));
                if rtype == RecordType::A {
                    assert(hosts[other - own.len()] != hosts[position]);
                }
            }
        } else {
            let within = other - first.len();
            assert(steps[other] == second[within]);
            let own = change_notice(entry(previous, RecordType::AAAA), current[RecordType::AAAA]);
            if within >= own.len() {
                assert(second[within] == host_step(
                    records,
                    hosts[within - own.len()],
                    current[RecordType::AAAA],
                    create_allowed,
                ));
                if rtype == RecordType::AAAA {
                    assert(hosts[within - own.len()] != hosts[position]);
                }
            }
        }
    }
    assert(is_only_decision(steps, host, rtype, place));
}

/// A family that the pass resolved no address for has no step: nothing is
/// announced, decided or sent for it, whatever the previous pass resolved.
pub proof fn lemma_unresolved_family_is_skipped(
    current: Map<RecordType, IpAddress>,
    previous: Map<RecordType, IpAddress>,
    records: Seq<CfRecordView>,
    hosts: Seq<Seq<char>>,
    create_allowed: bool,
    rtype: RecordType,
)
    requires
        families_agree(current),
        !current.contains_key(rtype),
    ensures
        family_steps(rtype, current, previous, records, hosts, create_allowed).len() == 0,
        ({
            let steps = pass_steps(current, previous, records, hosts, create_allowed);
            forall|place: int, host: Seq<char>|
                0 <= place < steps.len() ==> {
                    &&& !(#[trigger] steps[place].decides(host, rtype))
                    &&& !(steps[place] matches StepView::AddressChanged { rtype: family, .. }
                        && family == rtype)
                }
        }),
{
    let steps = pass_steps(current, previous, records, hosts, create_allowed);
    let other = match rtype {
        RecordType::A => RecordType::AAAA,
        RecordType::AAAA => RecordType::A,
    };
    let rest = family_steps(other, current, previous, records, hosts, create_allowed);
    assert(steps =~= rest);
    if current.contains_key(other) {
        lemma_family_shape(other, current, previous, records, hosts, create_allowed);
    }
}

/// Where creation is not permitted, no step of a pass creates a record; and
/// a host without a record is then reported.
pub proof fn lemma_creation_needs_permission(
    current: Map<RecordType, IpAddress>,
    previous: Map<RecordType, IpAddress>,
    records: Seq<CfRecordView>,
    hosts: Seq<Seq<char>>,
)
    ensures
        ({
            let steps = pass_steps(current, previous, records, hosts, false);
            forall|place: int|
                0 <= place < steps.len() ==> !(#[trigger] steps[place] matches StepView::Host {
                    decision: DecisionView::Create { .. },
                    ..
                })
        }),
{
    let steps = pass_steps(current, previous, records, hosts, false);
    let first = family_steps(RecordType::A, current, previous, records, hosts, false);
    let second = family_steps(RecordType::AAAA, current, previous, records, hosts, false);
    assert forall|place: int| 0 <= place < steps.len() implies !(#[trigger] steps[place]
        matches StepView::Host { decision: DecisionView::Create { .. }, .. }) by {
        if place < first.len() {
            lemma_family_shape(RecordType::A, current, previous, records, hosts, false);
            assert(steps[place] == first[place]);
        } else {
            lemma_family_shape(RecordType::AAAA, current, previous, records, hosts, false);
            assert(steps[place] == second[place - first.len()]);
        }
    }
}

/// A pass has, for each of the two families, one announcement and one step
/// for each host at most; a pass that resolved no address has no step at
/// all.
pub proof fn lemma_pass_length(
    current: Map<RecordType, IpAddress>,
    previous: Map<RecordType, IpAddress>,
    records: Seq<CfRecordView>,
    hosts: Seq<Seq<char>>,
    create_allowed: bool,
)
    ensures
        pass_steps(current, previous, records, hosts, create_allowed).len() <= 2 * (hosts.len()
            + 1),
        current == Map::<RecordType, IpAddress>::empty() ==> pass_steps(
            current,
            previous,
            records,
            hosts,
            create_allowed,
        ).len() == 0,
{
    if current.contains_key(RecordType::A) {
        lemma_family_shape(RecordType::A, current, previous, records, hosts, create_allowed);
    }
    if current.contains_key(RecordType::AAAA) {
        lemma_family_shape(RecordType::AAAA, current, previous, records, hosts, create_allowed);
    }
}

/// Whatever the configured host list repeats, a pass decides once for each
/// host that the list names, in each family that it resolved an address
/// for.
pub proof fn lemma_listed_host_decided_once(
    current: Map<RecordType, IpAddress>,
    previous: Map<RecordType, IpAddress>,
    records: Seq<CfRecordView>,
    host_text: Seq<char>,
    create_allowed: bool,
    rtype: RecordType,
    position: int,
)
    requires
        families_agree(current),
        current.contains_key(rtype),
        0 <= position < host_list(host_text).len(),
    ensures
        exists|place: int| #[trigger]
            is_only_decision(
                pass_steps(current, previous, records, host_list(host_text), create_allowed),
                host_list(host_text)[position],
                rtype,
                place,
            ),
{
    lemma_hosts_are_distinct(host_text);
    lemma_each_host_decided_once(
        current,
        previous,
        records,
        host_list(host_text),
        create_allowed,
        rtype,
        position,
    );
}

} // verus!
