//! A pass leaves nothing for the next one to do.
//!
//! The provider is outside this library. What is proved here is proved of a
//! provider that does what it is asked: an update sets the address of the
//! record it names and touches nothing else, and a creation adds the record
//! under an identifier that no record had.

use vstd::prelude::*;
use crate::address::record_type_of;
use crate::address::IpAddress;
use crate::engine::change_notice;
use crate::engine::decision_for;
use crate::engine::family_steps;
use crate::engine::first_match;
use crate::engine::is_first_match;
use crate::engine::lemma_first_match_exists;
use crate::engine::lemma_first_match_is;
use crate::engine::new_record;
use crate::engine::pass_steps;
use crate::engine::DecisionView;
use crate::engine::StepView;
use crate::guarantees::lemma_decision_cases;
use crate::guarantees::lemma_family_shape;
use crate::record::CfRecordView;
use crate::record::RecordView;
use crate::record_type::RecordType;
use crate::snapshot::entry;
use crate::snapshot::families_agree;

verus! {

/// A stored record with another address, and all else as it was.
pub open spec fn with_content(stored: CfRecordView, content: IpAddress) -> CfRecordView {
    CfRecordView {
        id: stored.id,
        record: RecordView {
            name: stored.record.name,
            ttl: stored.record.ttl,
            content,
            proxied: stored.record.proxied,
        },
    }
}

/// The provider's list after one step was carried out with success. An
/// update changes the address of the record that it names; a creation adds
/// the record at the end, under `new_id`; every other step changes nothing.
pub open spec fn carried_out(records: Seq<CfRecordView>, step: StepView, new_id: Seq<char>) -> Seq<
    CfRecordView,
> {
    match step {
        StepView::Host { decision: DecisionView::Update { id, to, .. }, .. } => records.map_values(
            |stored: CfRecordView|
                if stored.id == id {
                    with_content(stored, to)
                } else {
                    stored
                },
        ),
        StepView::Host { decision: DecisionView::Create { record }, .. } => records.push(
            CfRecordView { id: new_id, record },
        ),
        _ => records,
    }
}

/// The provider's list after the steps were carried out in order, each with
/// success. `new_ids` holds, at the place of each step, the identifier that
/// the provider gives to what the step creates.
pub open spec fn after_steps(
    records: Seq<CfRecordView>,
    steps: Seq<StepView>,
    new_ids: Seq<Seq<char>>,
) -> Seq<CfRecordView>
    decreases steps.len(),
{
    if steps.len() == 0 {
        records
    } else {
        carried_out(
            after_steps(records, steps.drop_last(), new_ids),
            steps.last(),
            new_ids[steps.len() - 1],
        )
    }
}

/// Whether a step updates a record.
pub open spec fn is_update(step: StepView) -> bool {
    step matches StepView::Host { decision: DecisionView::Update { .. }, .. }
}

/// Whether a step creates a record.
pub open spec fn is_create(step: StepView) -> bool {
    step matches StepView::Host { decision: DecisionView::Create { .. }, .. }
}

/// The record that a creating step creates.
pub open spec fn created(step: StepView) -> RecordView {
    step->Host_decision->Create_record
}

/// The place, in the list that the pass went over, of the record that a
/// step decides about, where there is one.
pub open spec fn target(records: Seq<CfRecordView>, step: StepView) -> int {
    first_match(records, step->Host_host, step->Host_rtype)->0
}

/// Whether no two records of the list have the same identifier.
pub open spec fn ids_are_distinct(records: Seq<CfRecordView>) -> bool {
    forall|i: int, j: int|
        0 <= i < records.len() && 0 <= j < records.len() && i != j ==> (#[trigger] records[i]).id
            != (#[trigger] records[j]).id
}

/// Whether none of the new identifiers is the identifier of a record.
pub open spec fn ids_are_new(records: Seq<CfRecordView>, new_ids: Seq<Seq<char>>) -> bool {
    forall|i: int, j: int|
        0 <= i < records.len() && 0 <= j < new_ids.len() ==> (#[trigger] records[i]).id
            != #[trigger] new_ids[j]
}

/// Whether a step is one that a pass over `records` takes with the
/// addresses `current`.
pub open spec fn step_fits(
    records: Seq<CfRecordView>,
    current: Map<RecordType, IpAddress>,
    create_allowed: bool,
    step: StepView,
) -> bool {
    match step {
        StepView::AddressChanged { .. } => true,
        StepView::Host { host, rtype, decision } => {
            &&& current.contains_key(rtype)
            &&& record_type_of(current[rtype]) == rtype
            &&& decision == decision_for(records, host, current[rtype], create_allowed)
        },
    }
}

/// Whether all steps of a list fit.
pub open spec fn steps_fit(
    records: Seq<CfRecordView>,
    current: Map<RecordType, IpAddress>,
    create_allowed: bool,
    steps: Seq<StepView>,
) -> bool {
    forall|place: int|
        0 <= place < steps.len() ==> step_fits(records, current, create_allowed, #[trigger] steps[place])
}

/// How the provider's list `later`, after the steps of a pass over
/// `records`, stands to `records` and to the addresses of that pass.
pub open spec fn follows(
    records: Seq<CfRecordView>,
    current: Map<RecordType, IpAddress>,
    create_allowed: bool,
    steps: Seq<StepView>,
    later: Seq<CfRecordView>,
) -> bool {
    // The records that were there are there, each at its place, with its
    // identifier, its name and its type.
    &&& later.len() >= records.len()
    &&& (!create_allowed ==> later.len() == records.len())
    &&& forall|i: int|
        0 <= i < records.len() ==> {
            &&& (#[trigger] later[i]).id == records[i].id
            &&& later[i].record.name == records[i].record.name
            &&& later[i].record.rtype() == records[i].record.rtype()
        }
    // Each of them holds the address it held, or the one of this pass.
    &&& forall|i: int|
        0 <= i < records.len() ==> {
            ||| (#[trigger] later[i]).record.content == records[i].record.content
            ||| (current.contains_key(records[i].record.rtype()) && later[i].record.content
                == current[records[i].record.rtype()])
        }
    // The records that were added hold the address of this pass.
    &&& forall|i: int|
        records.len() <= i < later.len() ==> {
            &&& current.contains_key((#[trigger] later[i]).record.rtype())
            &&& later[i].record.content == current[later[i].record.rtype()]
        }
    &&& forall|i: int, x: int|
        records.len() <= i < later.len() && 0 <= x < records.len() ==> (#[trigger] later[i]).id
            != (#[trigger] records[x]).id
    // What a step asked for is in place.
    &&& forall|place: int|
        0 <= place < steps.len() && is_update(#[trigger] steps[place]) ==> {
            &&& 0 <= target(records, steps[place]) < records.len()
            &&& later[target(records, steps[place])].record.content
                == current[steps[place]->Host_rtype]
        }
    &&& forall|place: int|
        0 <= place < steps.len() && is_create(#[trigger] steps[place]) ==> exists|i: int|
            records.len() <= i < later.len() && (#[trigger] later[i]).record == created(
                steps[place],
            )
}

/// Every step of a pass fits the pass.
pub proof fn lemma_pass_steps_fit(
    current: Map<RecordType, IpAddress>,
    previous: Map<RecordType, IpAddress>,
    records: Seq<CfRecordView>,
    hosts: Seq<Seq<char>>,
    create_allowed: bool,
)
    requires
        families_agree(current),
    ensures
        steps_fit(
            records,
            current,
            create_allowed,
            pass_steps(current, previous, records, hosts, create_allowed),
        ),
{
    let steps = pass_steps(current, previous, records, hosts, create_allowed);
    let first = family_steps(RecordType::A, current, previous, records, hosts, create_allowed);
    let second = family_steps(RecordType::AAAA, current, previous, records, hosts, create_allowed);
    assert forall|place: int| 0 <= place < steps.len() implies step_fits(
        records,
        current,
        create_allowed,
        #[trigger] steps[place],
    ) by {
        if place < first.len() {
            lemma_family_shape(RecordType::A, current, previous, records, hosts, create_allowed);
            assert(steps[place] == first[place]);
        } else {
            lemma_family_shape(RecordType::AAAA, current, previous, records, hosts, create_allowed);
            assert(steps[place] == second[place - first.len()]);
        }
    }
}

/// Carrying out steps that fit leaves the provider's list as [`follows`]
/// says.
pub proof fn lemma_after_steps_follows(
    records: Seq<CfRecordView>,
    current: Map<RecordType, IpAddress>,
    create_allowed: bool,
    steps: Seq<StepView>,
    new_ids: Seq<Seq<char>>,
)
    requires
        ids_are_distinct(records),
        ids_are_new(records, new_ids),
        new_ids.len() >= steps.len(),
        steps_fit(records, current, create_allowed, steps),
    ensures
        follows(records, current, create_allowed, steps, after_steps(records, steps, new_ids)),
    decreases steps.len(),
{
    if steps.len() == 0 {
        return ;
    }
    let earlier = steps.drop_last();
    let step = steps.last();
    let before = after_steps(records, earlier, new_ids);
    let new_id = new_ids[steps.len() - 1];
    let later = carried_out(before, step, new_id);
    assert forall|place: int| 0 <= place < earlier.len() implies step_fits(
        records,
        current,
        create_allowed,
        #[trigger] earlier[place],
    ) by {
        assert(earlier[place] == steps[place]);
    }
    lemma_after_steps_follows(records, current, create_allowed, earlier, new_ids);
    assert(step_fits(records, current, create_allowed, steps[steps.len() - 1]));
    assert forall|place: int| 0 <= place < earlier.len() implies #[trigger] steps[place]
        == earlier[place] by {}
    match step {
        StepView::Host { host, rtype, decision: DecisionView::Update { id, from, to } } => {
            let address = current[rtype];
            lemma_decision_cases(records, host, address, create_allowed);
            let aim = target(records, step);
            assert(is_first_match(records, host, rtype, aim));
            assert(records[aim].record.rtype() == rtype);
            assert(id == records[aim].id && to == address);
            assert(later.len() == before.len());
            assert forall|i: int| 0 <= i < records.len() implies {
                &&& (#[trigger] later[i]).id == records[i].id
                &&& later[i].record.name == records[i].record.name
                &&& later[i].record.rtype() == records[i].record.rtype()
                &&& (later[i].record.content == records[i].record.content || (current.contains_key(
                    records[i].record.rtype(),
                ) && later[i].record.content == current[records[i].record.rtype()]))
                &&& (i == aim ==> later[i].record.content == address)
                &&& (i != aim ==> later[i] == before[i])
            } by {
                assert(before[i].id == records[i].id);
                if i != aim {
                    assert(records[i].id != records[aim].id);
                }
            }
            assert forall|i: int| records.len() <= i < later.len() implies #[trigger] later[i]
                == before[i] by {
                assert(before[i].id != records[aim].id);
            }
            assert forall|place: int|
                0 <= place < steps.len() && is_update(#[trigger] steps[place]) implies {
                &&& 0 <= target(records, steps[place]) < records.len()
                &&& later[target(records, steps[place])].record.content
                    == current[steps[place]->Host_rtype]
            } by {
                if place < earlier.len() {
                    assert(earlier[place] == steps[place]);
                    assert(step_fits(records, current, create_allowed, steps[place]));
                    let other = target(records, steps[place]);
                    lemma_decision_cases(
                        records,
                        steps[place]->Host_host,
                        current[steps[place]->Host_rtype],
                        create_allowed,
                    );
                    assert(records[other].record.rtype() == steps[place]->Host_rtype);
                    if other != aim {
                        assert(later[other] == before[other]);
                    }
                }
            }
            assert forall|place: int|
                0 <= place < steps.len() && is_create(#[trigger] steps[place]) implies exists|
                i: int,
            |
                records.len() <= i < later.len() && (#[trigger] later[i]).record == created(
                    steps[place],
                ) by {
                assert(earlier[place] == steps[place]);
                let i = choose|i: int|
                    records.len() <= i < before.len() && (#[trigger] before[i]).record == created(
                        earlier[place],
                    );
                assert(later[i] == before[i]);
            }
            assert(follows(records, current, create_allowed, steps, later));
        },
        StepView::Host { host, rtype, decision: DecisionView::Create { record } } => {
            let address = current[rtype];
            lemma_decision_cases(records, host, address, create_allowed);
            assert(record == new_record(host, address));
            assert(later.len() == before.len() + 1);
            assert forall|i: int| 0 <= i < before.len() implies #[trigger] later[i]
                == before[i] by {}
            let added = before.len() as int;
            assert(later[added].record == record);
            assert(later[added].id == new_id);
            assert forall|i: int, x: int|
                records.len() <= i < later.len() && 0 <= x < records.len() implies (
            #[trigger] later[i]).id != (#[trigger] records[x]).id by {
                if i == added {
                    assert(records[x].id != new_ids[steps.len() - 1]);
                } else {
                    assert(later[i] == before[i]);
                }
            }
            assert forall|place: int|
                0 <= place < steps.len() && is_create(#[trigger] steps[place]) implies exists|
                i: int,
            |
                records.len() <= i < later.len() && (#[trigger] later[i]).record == created(
                    steps[place],
                ) by {
                if place < earlier.len() {
                    assert(earlier[place] == steps[place]);
                    let i = choose|i: int|
                        records.len() <= i < before.len() && (#[trigger] before[i]).record
                            == created(earlier[place]);
                    assert(later[i] == before[i]);
                } else {
                    assert(later[added].record == created(steps[place]));
                }
            }
            assert forall|place: int|
                0 <= place < steps.len() && is_update(#[trigger] steps[place]) implies {
                &&& 0 <= target(records, steps[place]) < records.len()
                &&& later[target(records, steps[place])].record.content
                    == current[steps[place]->Host_rtype]
            } by {
                assert(earlier[place] == steps[place]);
                assert(later[target(records, steps[place])] == before[target(
                    records,
                    steps[place],
                )]);
            }
            assert(follows(records, current, create_allowed, steps, later));
        },
        _ => {
            assert(later == before);
            assert forall|place: int|
                0 <= place < steps.len() && is_update(#[trigger] steps[place]) implies {
                &&& 0 <= target(records, steps[place]) < records.len()
                &&& later[target(records, steps[place])].record.content
                    == current[steps[place]->Host_rtype]
            } by {
                assert(earlier[place] == steps[place]);
            }
            assert forall|place: int|
                0 <= place < steps.len() && is_create(#[trigger] steps[place]) implies exists|
                i: int,
            |
                records.len() <= i < later.len() && (#[trigger] later[i]).record == created(
                    steps[place],
                ) by {
                assert(earlier[place] == steps[place]);
            }
            assert(follows(records, current, create_allowed, steps, later));
        },
    }
}

/// The decision for a host after a pass whose requests the provider has
/// carried out: keep, or, where there is no record and none may be created,
/// the report that there is none.
proof fn lemma_decision_after_pass(
    records: Seq<CfRecordView>,
    current: Map<RecordType, IpAddress>,
    create_allowed: bool,
    steps: Seq<StepView>,
    later: Seq<CfRecordView>,
    host: Seq<char>,
    rtype: RecordType,
    place: int,
)
    requires
        follows(records, current, create_allowed, steps, later),
        current.contains_key(rtype),
        record_type_of(current[rtype]) == rtype,
        0 <= place < steps.len(),
        steps[place] == (StepView::Host {
            host,
            rtype,
            decision: decision_for(records, host, current[rtype], create_allowed),
        }),
    ensures
        decision_for(later, host, current[rtype], create_allowed) == (if first_match(
            records,
            host,
            rtype,
        ) is None && !create_allowed {
            DecisionView::Unresolvable
        } else {
            DecisionView::Keep
        }),
{
    let address = current[rtype];
    let step = steps[place];
    lemma_decision_cases(records, host, address, create_allowed);
    lemma_first_match_exists(later, host, rtype);
    match first_match(records, host, rtype) {
        Some(index) => {
            assert(is_first_match(records, host, rtype, index));
            assert(later[index].record.answers(host, rtype));
            assert forall|earlier: int| 0 <= earlier < index implies !(
            #[trigger] later[earlier]).record.answers(host, rtype) by {
                assert(!records[earlier].record.answers(host, rtype));
            }
            lemma_first_match_is(later, host, rtype, index);
            if is_update(step) {
                assert(target(records, step) == index);
            }
            assert(later[index].record.content == address);
        },
        None => {
            assert forall|i: int| 0 <= i < records.len() implies !(
            #[trigger] later[i]).record.answers(host, rtype) by {
                assert(!records[i].record.answers(host, rtype));
            }
            if create_allowed {
                assert(is_create(step));
                let added = choose|i: int|
                    records.len() <= i < later.len() && (#[trigger] later[i]).record == created(
                        step,
                    );
                assert(later[added].record.answers(host, rtype));
                let found = first_match(later, host, rtype)->0;
                assert(is_first_match(later, host, rtype, found));
                assert(found >= records.len());
                assert(later[found].record.content == current[later[found].record.rtype()]);
            }
        },
    }
}

/// A pass leaves nothing for the next one to do. Let a pass run over the
/// provider's list, and let the provider carry out every request of it.
/// Then a second pass with the same addresses, over the list as it is
/// now, sends no request and announces no change: it keeps what is there,
/// and where a host has no record and none may be created it reports so
/// again.
///
/// The provider's identifiers are taken to tell its records apart, and the
/// identifiers it gives to new records to be new.
pub proof fn lemma_second_pass_is_quiet(
    current: Map<RecordType, IpAddress>,
    previous: Map<RecordType, IpAddress>,
    records: Seq<CfRecordView>,
    hosts: Seq<Seq<char>>,
    create_allowed: bool,
    new_ids: Seq<Seq<char>>,
)
    requires
        families_agree(current),
        ids_are_distinct(records),
        ids_are_new(records, new_ids),
        new_ids.len() >= pass_steps(current, previous, records, hosts, create_allowed).len(),
    ensures
        ({
            let first = pass_steps(current, previous, records, hosts, create_allowed);
            let later = after_steps(records, first, new_ids);
            let second = pass_steps(current, current, later, hosts, create_allowed);
            forall|place: int|
                0 <= place < second.len() ==> {
                    &&& !(#[trigger] second[place]).is_call()
                    &&& second[place] is Host
                    &&& second[place]->Host_decision is Keep || (second[place]->Host_decision
                        is Unresolvable && !create_allowed)
                }
        }),
{
    let first = pass_steps(current, previous, records, hosts, create_allowed);
    let later = after_steps(records, first, new_ids);
    let second = pass_steps(current, current, later, hosts, create_allowed);
    lemma_pass_steps_fit(current, previous, records, hosts, create_allowed);
    lemma_after_steps_follows(records, current, create_allowed, first, new_ids);
    let first_a = family_steps(RecordType::A, current, previous, records, hosts, create_allowed);
    let second_a = family_steps(RecordType::A, current, current, later, hosts, create_allowed);
    let second_b = family_steps(RecordType::AAAA, current, current, later, hosts, create_allowed);
    if current.contains_key(RecordType::A) {
        lemma_family_shape(RecordType::A, current, previous, records, hosts, create_allowed);
        lemma_family_shape(RecordType::A, current, current, later, hosts, create_allowed);
    }
    if current.contains_key(RecordType::AAAA) {
        lemma_family_shape(RecordType::AAAA, current, previous, records, hosts, create_allowed);
        lemma_family_shape(RecordType::AAAA, current, current, later, hosts, create_allowed);
    }
    assert forall|place: int| 0 <= place < second.len() implies {
        &&& !(#[trigger] second[place]).is_call()
        &&& second[place] is Host
        &&& second[place]->Host_decision is Keep || (second[place]->Host_decision is Unresolvable
            && !create_allowed)
    } by {
        if place < second_a.len() {
            let rtype = RecordType::A;
            let before = change_notice(entry(previous, rtype), current[rtype]).len() as int;
            assert(second[place] == second_a[place]);
            assert(first[before + place] == first_a[before + place]);
            lemma_decision_after_pass(
                records,
                current,
                create_allowed,
                first,
                later,
                hosts[place],
                rtype,
                before + place,
            );
        } else {
            let rtype = RecordType::AAAA;
            let within = place - second_a.len();
            let before = first_a.len() + change_notice(
                entry(previous, rtype),
                current[rtype],
            ).len();
            assert(second[place] == second_b[within]);
            assert(first[before + within] == family_steps(
                rtype,
                current,
                previous,
                records,
                hosts,
                create_allowed,
            )[before + within - first_a.len()]);
            lemma_decision_after_pass(
                records,
                current,
                create_allowed,
                first,
                later,
                hosts[within],
                rtype,
                before + within,
            );
        }
    }
}

} // verus!
