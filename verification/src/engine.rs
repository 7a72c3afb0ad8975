//! The decisions of one reconciliation pass.
//!
//! A pass compares, for every address family that was resolved and every
//! configured host, the resolved address with what the provider holds, and
//! settles on one of four things: keep, update, create, or report that
//! nothing can be done. The decisions depend on the provider's list as it was
//! fetched in this pass and on nothing remembered from earlier ones; the
//! addresses of the previous pass only say whether a change is announced.

use vstd::prelude::*;
use crate::address::record_type_of;
use crate::address::IpAddress;
use crate::fields::ListFailure;
use crate::fields::RecordFields;
use crate::hosts::host_names;
use crate::provider::accepted_records;
use crate::provider::cf_get_records;
use crate::record::record_views;
use crate::record::CfRecord;
use crate::record::CfRecordView;
use crate::record::Record;
use crate::record::RecordView;
use crate::record_type::RecordType;
use crate::snapshot::entry;
use crate::snapshot::rotate;
use crate::snapshot::AddressSnapshot;
use crate::ttl::Ttl;

verus! {

/// What a pass settles on for one host in one address family.
#[derive(Debug, PartialEq, Eq)]
pub enum Decision {
    /// The provider's record holds the resolved address already: nothing is
    /// sent.
    Keep,
    /// The provider's record `id` holds the address `from`; it is to be set
    /// to `to`.
    Update { id: String, from: IpAddress, to: IpAddress },
    /// The provider has no record for the host in this family, and one is to
    /// be created.
    Create { record: Record },
    /// The provider has no record for the host in this family and creation
    /// is not permitted: this is reported, and nothing is sent.
    Unresolvable,
}

/// The mathematical value of a [`Decision`].
pub enum DecisionView {
    Keep,
    Update { id: Seq<char>, from: IpAddress, to: IpAddress },
    Create { record: RecordView },
    Unresolvable,
}

impl View for Decision {
    type V = DecisionView;

    open spec fn view(&self) -> DecisionView {
        match *self {
            Decision::Keep => DecisionView::Keep,
            Decision::Update { id, from, to } => DecisionView::Update { id: id@, from, to },
            Decision::Create { record } => DecisionView::Create { record: record@ },
            Decision::Unresolvable => DecisionView::Unresolvable,
        }
    }
}

/// One step of a pass, in the order in which the pass takes them.
#[derive(Debug, PartialEq, Eq)]
pub enum Step {
    /// The address of a family is not the one of the previous pass; with no
    /// previous address, `previous` is empty.
    AddressChanged { rtype: RecordType, previous: Option<IpAddress>, current: IpAddress },
    /// The decision for one host in one family.
    Host { host: String, rtype: RecordType, decision: Decision },
}

/// The mathematical value of a [`Step`].
pub enum StepView {
    AddressChanged { rtype: RecordType, previous: Option<IpAddress>, current: IpAddress },
    Host { host: Seq<char>, rtype: RecordType, decision: DecisionView },
}

impl View for Step {
    type V = StepView;

    open spec fn view(&self) -> StepView {
        match *self {
            Step::AddressChanged { rtype, previous, current } => StepView::AddressChanged {
                rtype,
                previous,
                current,
            },
            Step::Host { host, rtype, decision } => StepView::Host {
                host: host@,
                rtype,
                decision: decision@,
            },
        }
    }
}

impl StepView {
    /// Whether the step sends a request to the provider.
    pub open spec fn is_call(self) -> bool {
        match self {
            StepView::Host { decision: DecisionView::Update { .. }, .. } => true,
            StepView::Host { decision: DecisionView::Create { .. }, .. } => true,
            _ => false,
        }
    }

    /// Whether the step is the decision for `host` in the family `rtype`.
    pub open spec fn decides(self, host: Seq<char>, rtype: RecordType) -> bool {
        match self {
            StepView::Host { host: name, rtype: family, .. } => name == host && family == rtype,
            _ => false,
        }
    }
}

/// What comes after a pass.
#[derive(Debug, Clone, Copy, PartialEq, Eq, Structural)]
pub enum Continuation {
    /// Wait for `seconds`, then run the next pass.
    Sleep { seconds: u64 },
    /// The run is over.
    Stop,
}

/// The mathematical values of a list of steps, in order.
pub open spec fn step_views(steps: Seq<Step>) -> Seq<StepView> {
    steps.map_values(|step: Step| step@)
}

/// Whether `index` is the place of the first record of the list that is the
/// one of `host` in the family `rtype`.
pub open spec fn is_first_match(
    records: Seq<CfRecordView>,
    host: Seq<char>,
    rtype: RecordType,
    index: int,
) -> bool {
    &&& 0 <= index < records.len()
    &&& records[index].record.answers(host, rtype)
    &&& forall|earlier: int|
        0 <= earlier < index ==> !(#[trigger] records[earlier]).record.answers(host, rtype)
}

/// The place of the first record of `host` in the family `rtype`, if the
/// list has one.
pub open spec fn first_match(records: Seq<CfRecordView>, host: Seq<char>, rtype: RecordType)
    -> Option<int> {
    if exists|index: int| is_first_match(records, host, rtype, index) {
        Some(choose|index: int| is_first_match(records, host, rtype, index))
    } else {
        None
    }
}

/// The record that is created for a host: automatic TTL, not proxied.
pub open spec fn new_record(host: Seq<char>, address: IpAddress) -> RecordView {
    RecordView { name: host, ttl: Ttl::Auto, content: address, proxied: false }
}

/// The decision for `host` and the resolved `address`, in the family of
/// that address.
pub open spec fn decision_for(
    records: Seq<CfRecordView>,
    host: Seq<char>,
    address: IpAddress,
    create_allowed: bool,
) -> DecisionView {
    match first_match(records, host, record_type_of(address)) {
        Some(index) => if records[index].record.content == address {
            DecisionView::Keep
        } else {
            DecisionView::Update {
                id: records[index].id,
                from: records[index].record.content,
                to: address,
            }
        },
        None => if create_allowed {
            DecisionView::Create { record: new_record(host, address) }
        } else {
            DecisionView::Unresolvable
        },
    }
}

/// The step that decides for one host.
pub open spec fn host_step(
    records: Seq<CfRecordView>,
    host: Seq<char>,
    address: IpAddress,
    create_allowed: bool,
) -> StepView {
    StepView::Host {
        host,
        rtype: record_type_of(address),
        decision: decision_for(records, host, address, create_allowed),
    }
}

/// The steps that decide for the hosts, one each, in the order of the hosts.
pub open spec fn host_steps(
    records: Seq<CfRecordView>,
    hosts: Seq<Seq<char>>,
    address: IpAddress,
    create_allowed: bool,
) -> Seq<StepView> {
    hosts.map_values(|host: Seq<char>| host_step(records, host, address, create_allowed))
}

/// The announcement of a family's address: one step, unless the previous
/// pass resolved the same address. A family without a previous address is
/// always announced.
pub open spec fn change_notice(previous: Option<IpAddress>, address: IpAddress) -> Seq<StepView> {
    if previous == Some(address) {
        Seq::empty()
    } else {
        seq![
            StepView::AddressChanged {
                rtype: record_type_of(address),
                previous,
                current: address,
            },
        ]
    }
}

/// The steps of one family: none where the pass resolved no address for it,
/// and else the announcement, if any, and then the hosts.
pub open spec fn family_steps(
    rtype: RecordType,
    current: Map<RecordType, IpAddress>,
    previous: Map<RecordType, IpAddress>,
    records: Seq<CfRecordView>,
    hosts: Seq<Seq<char>>,
    create_allowed: bool,
) -> Seq<StepView> {
    match entry(current, rtype) {
        Some(address) => change_notice(entry(previous, rtype), address) + host_steps(
            records,
            hosts,
            address,
            create_allowed,
        ),
        None => Seq::empty(),
    }
}

/// The steps of a pass: those of `A`, then those of `AAAA`.
pub open spec fn pass_steps(
    current: Map<RecordType, IpAddress>,
    previous: Map<RecordType, IpAddress>,
    records: Seq<CfRecordView>,
    hosts: Seq<Seq<char>>,
    create_allowed: bool,
) -> Seq<StepView> {
    family_steps(RecordType::A, current, previous, records, hosts, create_allowed) + family_steps(
        RecordType::AAAA,
        current,
        previous,
        records,
        hosts,
        create_allowed,
    )
}

/// There is one first match at most.
pub proof fn lemma_first_match_is(
    records: Seq<CfRecordView>,
    host: Seq<char>,
    rtype: RecordType,
    index: int,
)
    requires
        is_first_match(records, host, rtype, index),
    ensures
        first_match(records, host, rtype) == Some(index),
{
    let chosen = choose|index: int| is_first_match(records, host, rtype, index);
    if chosen < index {
        assert(!records[chosen].record.answers(host, rtype));
    } else if index < chosen {
        assert(!records[index].record.answers(host, rtype));
    }
}

/// A list has a first match exactly when one of its records answers, and
/// has none exactly when none does.
pub proof fn lemma_first_match_exists(
    records: Seq<CfRecordView>,
    host: Seq<char>,
    rtype: RecordType,
)
    ensures
        first_match(records, host, rtype) is Some <==> exists|index: int|
            0 <= index < records.len() && (#[trigger] records[index]).record.answers(host, rtype),
        first_match(records, host, rtype) matches Some(index) ==> is_first_match(
            records,
            host,
            rtype,
            index,
        ),
{
    if exists|index: int|
        0 <= index < records.len() && (#[trigger] records[index]).record.answers(host, rtype) {
        let some = choose|index: int|
            0 <= index < records.len() && (#[trigger] records[index]).record.answers(host, rtype);
        lemma_least_match(records, host, rtype, some);
    }
}

/// Where a record answers, there is a first one that does.
proof fn lemma_least_match(
    records: Seq<CfRecordView>,
    host: Seq<char>,
    rtype: RecordType,
    index: int,
)
    requires
        0 <= index < records.len(),
        records[index].record.answers(host, rtype),
    ensures
        exists|first: int| is_first_match(records, host, rtype, first),
    decreases index,
{
    if exists|earlier: int|
        0 <= earlier < index && (#[trigger] records[earlier]).record.answers(host, rtype) {
        let earlier = choose|earlier: int|
            0 <= earlier < index && (#[trigger] records[earlier]).record.answers(host, rtype);
        lemma_least_match(records, host, rtype, earlier);
    } else {
        assert(is_first_match(records, host, rtype, index));
    }
}

/// Looks for the record of `host` in the family `rtype`: the first one in
/// the order of the list, if there are several.
pub fn find_record(records: &Vec<CfRecord>, host: &String, rtype: RecordType) -> (found: Option<
    usize,
>)
    ensures
        match found {
            Some(index) => first_match(record_views(records@), host@, rtype) == Some(index as int),
            None => first_match(record_views(records@), host@, rtype) is None,
        },
{
    let ghost views = record_views(records@);
    let mut index: usize = 0;
    while index < records.len()
        invariant
            index <= records.len(),
            views == record_views(records@),
            forall|earlier: int|
                0 <= earlier < index ==> !(#[trigger] views[earlier]).record.answers(host@, rtype),
        decreases records.len() - index,
    {
        let record = &records[index];
        assert(views[index as int] == record@);
        if record.record.name == *host && record.record.rtype() == rtype {
            proof {
                lemma_first_match_is(views, host@, rtype, index as int);
            }
            return Some(index);
        }
        index += 1;
    }
    proof {
        lemma_first_match_exists(views, host@, rtype);
    }
    None
}

/// Decides for one host, against the provider's list as fetched in this
/// pass. The family is the one of `address`.
///
/// - A record is found and holds `address`: keep, and send nothing.
/// - A record is found and holds another address: update it to `address`.
/// - No record is found and creation is permitted: create one with an
///   automatic TTL that is not proxied.
/// - No record is found and creation is not permitted: report it.
pub fn decide(records: &Vec<CfRecord>, host: &String, address: IpAddress, create_allowed: bool)
    -> (decision: Decision)
    ensures
        decision@ == decision_for(record_views(records@), host@, address, create_allowed),
{
    let rtype = RecordType::from_ip(&address);
    match find_record(records, host, rtype) {
        Some(index) => {
            let found = &records[index];
            assert(record_views(records@)[index as int] == found@);
            if found.record.content == address {
                Decision::Keep
            } else {
                Decision::Update { id: found.id.clone(), from: found.record.content, to: address }
            }
        },
        None => {
            if create_allowed {
                Decision::Create {
                    record: Record {
                        name: host.clone(),
                        ttl: Ttl::default(),
                        content: address,
                        proxied: false,
                    },
                }
            } else {
                Decision::Unresolvable
            }
        },
    }
}

/// Appends the steps of one family to the steps of a pass.
fn plan_family(
    steps: &mut Vec<Step>,
    rtype: RecordType,
    current: &AddressSnapshot,
    previous: &AddressSnapshot,
    records: &Vec<CfRecord>,
    hosts: &Vec<String>,
    create_allowed: bool,
)
    ensures
        step_views(final(steps)@) == step_views(old(steps)@) + family_steps(
            rtype,
            current@,
            previous@,
            record_views(records@),
            host_names(hosts@),
            create_allowed,
        ),
{
    let ghost before = step_views(steps@);
    let address = match current.get(rtype) {
        Some(address) => address,
        None => {
            assert(before + Seq::<StepView>::empty() =~= before);
            return ;
        },
    };
    let earlier = previous.get(rtype);
    let changed = match earlier {
        Some(old_address) => old_address != address,
        None => true,
    };
    if changed {
        steps.push(Step::AddressChanged { rtype, previous: earlier, current: address });
    }
    let ghost notice = change_notice(entry(previous@, rtype), address);
    assert(step_views(steps@) =~= before + notice);
    let ghost names = host_names(hosts@);
    let ghost views = record_views(records@);
    let ghost base = steps@.len();
    let mut index: usize = 0;
    while index < hosts.len()
        invariant
            index <= hosts.len(),
            names == host_names(hosts@),
            views == record_views(records@),
            record_type_of(address) == rtype,
            steps@.len() == base + index,
            step_views(steps@).take(base as int) == before + notice,
            forall|k: int|
                0 <= k < index ==> (#[trigger] steps@[base + k])@ == host_step(
                    views,
                    names[k],
                    address,
                    create_allowed,
                ),
        decreases hosts.len() - index,
    {
        let ghost so_far = step_views(steps@);
        let host = &hosts[index];
        let decision = decide(records, host, address, create_allowed);
        steps.push(Step::Host { host: host.clone(), rtype, decision });
        assert(step_views(steps@).take(base as int) =~= so_far.take(base as int));
        index += 1;
    }
    let ghost planned = host_steps(views, names, address, create_allowed);
    assert forall|j: int| base <= j < steps@.len() implies step_views(steps@)[j] == planned[j
        - base] by {
        assert(steps@[base + (j - base)]@ == host_step(
            views,
            names[j - base],
            address,
            create_allowed,
        ));
    }
    assert(step_views(steps@) =~= step_views(steps@).take(base as int) + planned);
    assert((before + notice) + host_steps(views, names, address, create_allowed) =~= before + (
    notice + host_steps(views, names, address, create_allowed)));
}

/// The steps of a pass over the provider's records: for each family that
/// the pass resolved an address for, `A` before `AAAA`, the announcement of
/// a changed address and then one decision for each host, in the order of
/// the hosts.
pub fn plan_pass(
    current: &AddressSnapshot,
    previous: &AddressSnapshot,
    records: &Vec<CfRecord>,
    hosts: &Vec<String>,
    create_allowed: bool,
) -> (steps: Vec<Step>)
    ensures
        step_views(steps@) == pass_steps(
            current@,
            previous@,
            record_views(records@),
            host_names(hosts@),
            create_allowed,
        ),
{
    let mut steps: Vec<Step> = Vec::new();
    assert(step_views(steps@) =~= Seq::<StepView>::empty());
    plan_family(&mut steps, RecordType::A, current, previous, records, hosts, create_allowed);
    plan_family(&mut steps, RecordType::AAAA, current, previous, records, hosts, create_allowed);
    assert(step_views(steps@) =~= pass_steps(
        current@,
        previous@,
        record_views(records@),
        host_names(hosts@),
        create_allowed,
    ));
    steps
}

/// One pass, from what the list request came to. Where the list could not
/// be had the pass is given up as a whole: there are no steps, and the
/// failure is handed back. Else the entries that are address records are
/// taken, and the pass is planned over them.
pub fn reconcile_pass(
    current: &AddressSnapshot,
    previous: &AddressSnapshot,
    listing: Result<Vec<(RecordFields, Option<IpAddress>)>, ListFailure>,
    hosts: &Vec<String>,
    create_allowed: bool,
) -> (pass: Result<Vec<Step>, ListFailure>)
    ensures
        match listing {
            Ok(entries) => pass matches Ok(steps) && step_views(steps@) == pass_steps(
                current@,
                previous@,
                accepted_records(entries@),
                host_names(hosts@),
                create_allowed,
            ),
            Err(failure) => pass == Err::<Vec<Step>, ListFailure>(failure),
        },
{
    match listing {
        Ok(entries) => {
            let records = cf_get_records(&entries);
            Ok(plan_pass(current, previous, &records, hosts, create_allowed))
        },
        Err(failure) => Err(failure),
    }
}

/// Ends a pass. With an interval of zero the run is over, and the snapshots
/// stay as they are. Else the addresses of this pass become those of the
/// previous pass, the current snapshot is emptied, and the next pass is due
/// after the interval.
pub fn finish_pass(
    interval_seconds: u64,
    previous: &mut AddressSnapshot,
    current: &mut AddressSnapshot,
) -> (next: Continuation)
    ensures
        interval_seconds == 0 ==> {
            &&& next == Continuation::Stop
            &&& final(previous)@ == old(previous)@
            &&& final(current)@ == old(current)@
        },
        interval_seconds > 0 ==> {
            &&& next == Continuation::Sleep { seconds: interval_seconds }
            &&& final(previous)@ == old(current)@
            &&& final(current)@ == Map::<RecordType, IpAddress>::empty()
        },
{
    if interval_seconds > 0 {
        rotate(previous, current);
        Continuation::Sleep { seconds: interval_seconds }
    } else {
        Continuation::Stop
    }
}

} // verus!
