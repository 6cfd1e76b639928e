//! Event Dispatcher: classifies each event of the stream, keeps the
//! table registry current, filters excluded tables, and routes row
//! mutations to the decoder.

use vstd::prelude::*;

use crate::decoder::DecodedRecord;
use crate::decoder::DecodedValueModel;
use crate::decoder::decode;
use crate::decoder::decode_spec;
use crate::decoder::record_result_view;
use crate::errors::ReplicationError;
use crate::registry::TableRegistry;
use crate::schema::Event;
use crate::schema::TableDescriptor;

verus! {

/// What dispatching one event led to. `DescriptorObserved`: a table
/// description was recorded. `Skipped`: a row event for the excluded
/// table, dropped without decoding. `Ignored`: an event kind this core
/// does not interpret. `Rows`: one decode result per row of the event,
/// in row order; a failing row does not interrupt the others.
#[derive(Clone, Debug, PartialEq, Eq)]
pub enum DispatchOutcome {
    DescriptorObserved,
    Skipped,
    Ignored,
    Rows(Vec<Result<DecodedRecord, ReplicationError>>),
}

/// How one event changes the registry: a table description is observed,
/// every other event leaves the registry as it is.
pub open spec fn registry_step(m: Map<u64, TableDescriptor>, event: Event) -> Map<
    u64,
    TableDescriptor,
> {
    match event {
        Event::TableDescription(d) => m.insert(d.table_id, d),
        _ => m,
    }
}

/// The registry after a sequence of events has been dispatched against
/// an initial registry state.
pub open spec fn registry_after(init: Map<u64, TableDescriptor>, events: Seq<Event>) -> Map<
    u64,
    TableDescriptor,
>
    decreases events.len(),
{
    if events.len() == 0 {
        init
    } else {
        registry_step(registry_after(init, events.drop_last()), events.last())
    }
}

/// A list of per-row decode results, seen at the level of the model.
pub open spec fn row_results_view(rs: Seq<Result<DecodedRecord, ReplicationError>>) -> Seq<
    Result<Seq<DecodedValueModel>, ReplicationError>,
> {
    rs.map_values(|r: Result<DecodedRecord, ReplicationError>| record_result_view(r))
}

/// What dispatching `event` against registry state `pre` (with the
/// named excluded table) must return. A table description is always
/// recorded. A row mutation for an identifier the registry does not
/// know fails with `UnknownTable` and decodes nothing; one for the
/// excluded table is skipped without decoding; any other is decoded
/// row by row against the live descriptor. Other event kinds are
/// ignored without error.
pub open spec fn dispatch_post(
    pre: Map<u64, TableDescriptor>,
    excluded: Seq<char>,
    event: Event,
    r: Result<DispatchOutcome, ReplicationError>,
) -> bool {
    match event {
        Event::TableDescription(_) => r == Ok::<DispatchOutcome, ReplicationError>(
            DispatchOutcome::DescriptorObserved,
        ),
        Event::RowMutation(re) => {
            if !pre.contains_key(re.table_id) {
                r == Err::<DispatchOutcome, ReplicationError>(
                    ReplicationError::UnknownTable { table_id: re.table_id },
                )
            } else if pre[re.table_id].table_name@ == excluded {
                r == Ok::<DispatchOutcome, ReplicationError>(DispatchOutcome::Skipped)
            } else {
                &&& r is Ok
                &&& r->Ok_0 is Rows
                &&& {
                    let rs = row_results_view(r->Ok_0->Rows_0@);
                    &&& rs.len() == re.rows@.len()
                    &&& forall|j: int|
                        0 <= j < rs.len() ==> rs[j] == decode_spec(
                            re.rows@[j].values@,
                            pre[re.table_id].columns@,
                        )
                }
            }
        },
        Event::Other => r == Ok::<DispatchOutcome, ReplicationError>(DispatchOutcome::Ignored),
    }
}

/// Owns the per-session dispatch state: the table registry and the name
/// of the table whose events are filtered out (a heartbeat-only table).
pub struct Dispatcher {
    pub registry: TableRegistry,
    pub excluded: String,
}

impl Dispatcher {
    /// A dispatcher for a fresh stream session: empty registry, with
    /// `excluded` as the table name whose row events are skipped.
    pub fn new(excluded: String) -> (r: Dispatcher)
        ensures
            r.registry.wf(),
            r.registry@ == Map::<u64, TableDescriptor>::empty(),
            r.excluded == excluded,
    {
        Dispatcher { registry: TableRegistry::new(), excluded }
    }

    /// Consumes one event. The registry mutation (for a table
    /// description) is the only state change; decode and skip decisions
    /// are pure functions of the current registry contents.
    pub fn dispatch(&mut self, event: Event) -> (r: Result<DispatchOutcome, ReplicationError>)
        requires
            old(self).registry.wf(),
        ensures
            final(self).registry.wf(),
            final(self).excluded == old(self).excluded,
            final(self).registry@ == registry_step(old(self).registry@, event),
            dispatch_post(old(self).registry@, old(self).excluded@, event, r),
    {
        match event {
            Event::TableDescription(d) => {
                self.registry.observe(d);
                Ok(DispatchOutcome::DescriptorObserved)
            },
            Event::RowMutation(re) => {
                match self.registry.lookup(re.table_id) {
                    Option::None => Err(ReplicationError::UnknownTable { table_id: re.table_id }),
                    Option::Some(descriptor) => {
                        if descriptor.table_name == self.excluded {
                            Ok(DispatchOutcome::Skipped)
                        } else {
                            let ghost desc = *descriptor;
                            let mut results: Vec<Result<DecodedRecord, ReplicationError>> =
                                Vec::new();
                            let mut j: usize = 0;
                            while j < re.rows.len()
                                invariant
                                    j <= re.rows@.len(),
                                    results@.len() == j,
                                    forall|k: int|
                                        0 <= k < j ==> record_result_view(results@[k])
                                            == decode_spec(re.rows@[k].values@, desc.columns@),
                                    *descriptor == desc,
                                decreases re.rows@.len() - j,
                            {
                                let rr = decode(&re.rows[j], descriptor);
                                results.push(rr);
                                j = j + 1;
                            }
                            proof {
                                let rs = row_results_view(results@);
                                assert forall|k: int| 0 <= k < rs.len() implies rs[k]
                                    == decode_spec(
                                    re.rows@[k].values@,
                                    old(self).registry@[re.table_id].columns@,
                                ) by {
                                    assert(rs[k] == record_result_view(results@[k]));
                                }
                            }
                            Ok(DispatchOutcome::Rows(results))
                        }
                    },
                }
            },
            Event::Other => Ok(DispatchOutcome::Ignored),
        }
    }

    /// Dispatches a finite sequence of events strictly in order,
    /// returning one outcome per event. The registry evolves exactly as
    /// the event sequence prescribes, and each outcome is the one
    /// dispatch owes to the registry state reached by the events before
    /// it.
    #[verifier::rlimit(50)]
    pub fn process_events(&mut self, events: Vec<Event>) -> (outcomes: Vec<
        Result<DispatchOutcome, ReplicationError>,
    >)
        requires
            old(self).registry.wf(),
        ensures
            final(self).registry.wf(),
            final(self).excluded == old(self).excluded,
            final(self).registry@ == registry_after(old(self).registry@, events@),
            outcomes@.len() == events@.len(),
            forall|i: int|
                0 <= i < events@.len() ==> dispatch_post(
                    registry_after(old(self).registry@, events@.take(i)),
                    old(self).excluded@,
                    events@[i],
                    outcomes@[i],
                ),
    {
        let ghost all = events@;
        let ghost init = old(self).registry@;
        let mut events = events;
        let mut outcomes: Vec<Result<DispatchOutcome, ReplicationError>> = Vec::new();
        proof {
            assert(all.take(0) =~= Seq::<Event>::empty());
        }
        while events.len() > 0
            invariant
                self.registry.wf(),
                self.excluded == old(self).excluded,
                init == old(self).registry@,
                outcomes@.len() + events@.len() == all.len(),
                events@ =~= all.skip(outcomes@.len() as int),
                self.registry@ == registry_after(init, all.take(outcomes@.len() as int)),
                forall|k: int|
                    0 <= k < outcomes@.len() ==> dispatch_post(
                        registry_after(init, all.take(k)),
                        old(self).excluded@,
                        all[k],
                        outcomes@[k],
                    ),
            decreases events@.len(),
        {
            let ghost i = outcomes@.len() as int;
            let ev = events.remove(0);
            proof {
                assert(ev == all[i]);
                assert(events@ =~= all.skip(i + 1));
            }
            let outcome = self.dispatch(ev);
            outcomes.push(outcome);
            proof {
                assert(all.take(i + 1).drop_last() =~= all.take(i));
                assert(all.take(i + 1).last() == all[i]);
            }
        }
        proof {
            assert(all.take(outcomes@.len() as int) =~= all);
        }
        outcomes
    }
}

/// After a table-description event for an identifier, every later
/// registry state of the same stream still knows that identifier.
proof fn lemma_registry_after_contains(
    init: Map<u64, TableDescriptor>,
    events: Seq<Event>,
    j: int,
)
    requires
        0 <= j < events.len(),
        events[j] is TableDescription,
    ensures
        registry_after(init, events).contains_key(events[j]->TableDescription_0.table_id),
    decreases events.len(),
{
    if j < events.len() - 1 {
        lemma_registry_after_contains(init, events.drop_last(), j);
        assert(events.drop_last()[j] == events[j]);
    }
}

/// An identifier never described stays unknown: no event other than a
/// table description for it can bring it into the registry.
proof fn lemma_registry_after_absent(init: Map<u64, TableDescriptor>, events: Seq<Event>, id: u64)
    requires
        !init.contains_key(id),
        forall|j: int|
            0 <= j < events.len() ==> !(events[j] is TableDescription
                && events[j]->TableDescription_0.table_id == id),
    ensures
        !registry_after(init, events).contains_key(id),
    decreases events.len(),
{
    if events.len() > 0 {
        assert forall|j: int| 0 <= j < events.drop_last().len() implies !(events.drop_last()[j]
            is TableDescription && events.drop_last()[j]->TableDescription_0.table_id == id) by {
            assert(events.drop_last()[j] == events[j]);
        }
        lemma_registry_after_absent(init, events.drop_last(), id);
    }
}

/// If a table-description event for a row event's identifier precedes
/// it in the stream, dispatching that row event never fails with
/// `UnknownTable`: the registry state it meets already knows the
/// identifier, so the outcome is an accepted one.
pub proof fn lemma_described_row_is_resolved(
    init: Map<u64, TableDescriptor>,
    excluded: Seq<char>,
    events: Seq<Event>,
    i: int,
    j: int,
    r: Result<DispatchOutcome, ReplicationError>,
)
    requires
        0 <= j < i < events.len(),
        events[i] is RowMutation,
        events[j] is TableDescription,
        events[j]->TableDescription_0.table_id == events[i]->RowMutation_0.table_id,
        dispatch_post(registry_after(init, events.take(i)), excluded, events[i], r),
    ensures
        r is Ok,
{
    let pre = registry_after(init, events.take(i));
    assert(events.take(i)[j] == events[j]);
    lemma_registry_after_contains(init, events.take(i), j);
    assert(pre.contains_key(events[i]->RowMutation_0.table_id));
}

/// A row-mutation event whose identifier has no prior description in
/// the stream (nor in the initial registry) must be dispatched as
/// `UnknownTable`, and its outcome carries no decoded rows: the decoder
/// is never reached for it.
pub proof fn lemma_undescribed_row_is_unknown(
    init: Map<u64, TableDescriptor>,
    excluded: Seq<char>,
    events: Seq<Event>,
    i: int,
    r: Result<DispatchOutcome, ReplicationError>,
)
    requires
        0 <= i < events.len(),
        events[i] is RowMutation,
        !init.contains_key(events[i]->RowMutation_0.table_id),
        forall|j: int|
            0 <= j < i ==> !(events[j] is TableDescription
                && events[j]->TableDescription_0.table_id
                == events[i]->RowMutation_0.table_id),
        dispatch_post(registry_after(init, events.take(i)), excluded, events[i], r),
    ensures
        r == Err::<DispatchOutcome, ReplicationError>(
            ReplicationError::UnknownTable { table_id: events[i]->RowMutation_0.table_id },
        ),
{
    let id = events[i]->RowMutation_0.table_id;
    assert forall|j: int| 0 <= j < events.take(i).len() implies !(events.take(i)[j]
        is TableDescription && events.take(i)[j]->TableDescription_0.table_id == id) by {
        assert(events.take(i)[j] == events[j]);
    }
    lemma_registry_after_absent(init, events.take(i), id);
}

} // verus!
