//! Tests for the event dispatcher and the session state machine.

use binlog_client::ColumnRole;
use binlog_client::ColumnSpec;
use binlog_client::DecodedValue;
use binlog_client::DispatchOutcome;
use binlog_client::Dispatcher;
use binlog_client::Event;
use binlog_client::RawRow;
use binlog_client::ReplicationError;
use binlog_client::RowEvent;
use binlog_client::SessionInput;
use binlog_client::SessionPhase;
use binlog_client::TableDescriptor;
use binlog_client::next_phase;

fn col(name: &str, role: ColumnRole) -> ColumnSpec {
    ColumnSpec { name: name.to_string(), role }
}

fn descriptor(table_id: u64, table_name: &str, columns: Vec<ColumnSpec>) -> TableDescriptor {
    TableDescriptor { table_id, table_name: table_name.to_string(), columns }
}

fn identifier_row(last_byte: u8) -> RawRow {
    let mut payload = vec![0u8; 16];
    payload[15] = last_byte;
    RawRow { values: vec![Some(payload)] }
}

#[test]
fn description_then_row_decodes() {
    let mut dispatcher = Dispatcher::new("heartbeat".to_string());
    let desc = descriptor(5, "orders", vec![col("@0", ColumnRole::Identifier)]);
    assert_eq!(
        dispatcher.dispatch(Event::TableDescription(desc)),
        Ok(DispatchOutcome::DescriptorObserved)
    );
    let outcome = dispatcher
        .dispatch(Event::RowMutation(RowEvent { table_id: 5, rows: vec![identifier_row(9)] }))
        .unwrap();
    match outcome {
        DispatchOutcome::Rows(results) => {
            assert_eq!(results.len(), 1);
            let record = results[0].as_ref().unwrap();
            assert_eq!(record.fields, vec![DecodedValue::Identifier(9)]);
        }
        other => panic!("expected decoded rows, got {:?}", other),
    }
}

#[test]
fn row_without_description_is_unknown_table() {
    let mut dispatcher = Dispatcher::new("heartbeat".to_string());
    let r = dispatcher
        .dispatch(Event::RowMutation(RowEvent { table_id: 9, rows: vec![identifier_row(1)] }));
    assert_eq!(r, Err(ReplicationError::UnknownTable { table_id: 9 }));
}

#[test]
fn excluded_table_is_skipped_without_decoding() {
    let mut dispatcher = Dispatcher::new("heartbeat".to_string());
    let desc = descriptor(3, "heartbeat", vec![col("@0", ColumnRole::Identifier)]);
    dispatcher.dispatch(Event::TableDescription(desc)).unwrap();
    // The row payload is malformed for its schema: a decode attempt
    // would fail, so a skip outcome shows the decoder was not invoked.
    let r = dispatcher.dispatch(
        Event::RowMutation(RowEvent { table_id: 3, rows: vec![RawRow { values: vec![None] }] }),
    );
    assert_eq!(r, Ok(DispatchOutcome::Skipped));
}

#[test]
fn other_events_are_ignored() {
    let mut dispatcher = Dispatcher::new("heartbeat".to_string());
    assert_eq!(dispatcher.dispatch(Event::Other), Ok(DispatchOutcome::Ignored));
}

#[test]
fn redescribed_table_decodes_with_new_schema() {
    let mut dispatcher = Dispatcher::new("heartbeat".to_string());
    dispatcher
        .dispatch(Event::TableDescription(descriptor(
            5,
            "orders",
            vec![col("@0", ColumnRole::Identifier)],
        )))
        .unwrap();
    dispatcher
        .dispatch(Event::TableDescription(descriptor(
            5,
            "orders",
            vec![col("@0", ColumnRole::Opaque)],
        )))
        .unwrap();
    let outcome = dispatcher
        .dispatch(Event::RowMutation(RowEvent {
            table_id: 5,
            rows: vec![RawRow { values: vec![Some(vec![1, 2, 3])] }],
        }))
        .unwrap();
    match outcome {
        DispatchOutcome::Rows(results) => {
            let record = results[0].as_ref().unwrap();
            assert_eq!(record.fields, vec![DecodedValue::Raw(vec![1, 2, 3])]);
        }
        other => panic!("expected decoded rows, got {:?}", other),
    }
}

#[test]
fn failing_row_does_not_interrupt_the_others() {
    let mut dispatcher = Dispatcher::new("heartbeat".to_string());
    dispatcher
        .dispatch(Event::TableDescription(descriptor(
            5,
            "orders",
            vec![col("@0", ColumnRole::Identifier)],
        )))
        .unwrap();
    let outcome = dispatcher
        .dispatch(Event::RowMutation(RowEvent {
            table_id: 5,
            rows: vec![
                identifier_row(1),
                RawRow { values: vec![Some(vec![0u8; 4])] },
                identifier_row(3),
            ],
        }))
        .unwrap();
    match outcome {
        DispatchOutcome::Rows(results) => {
            assert_eq!(results.len(), 3);
            assert_eq!(results[0].as_ref().unwrap().fields, vec![DecodedValue::Identifier(1)]);
            assert_eq!(
                results[1],
                Err(ReplicationError::MalformedIdentifier { ordinal: 0, length: 4 })
            );
            assert_eq!(results[2].as_ref().unwrap().fields, vec![DecodedValue::Identifier(3)]);
        }
        other => panic!("expected decoded rows, got {:?}", other),
    }
}

#[test]
fn synthetic_event_sequence_in_order() {
    let mut dispatcher = Dispatcher::new("heartbeat".to_string());
    let events = vec![
        Event::Other,
        Event::RowMutation(RowEvent { table_id: 5, rows: vec![identifier_row(1)] }),
        Event::TableDescription(descriptor(5, "orders", vec![col("@0", ColumnRole::Identifier)])),
        Event::RowMutation(RowEvent { table_id: 5, rows: vec![identifier_row(2)] }),
    ];
    let outcomes = dispatcher.process_events(events);
    assert_eq!(outcomes.len(), 4);
    assert_eq!(outcomes[0], Ok(DispatchOutcome::Ignored));
    assert_eq!(outcomes[1], Err(ReplicationError::UnknownTable { table_id: 5 }));
    assert_eq!(outcomes[2], Ok(DispatchOutcome::DescriptorObserved));
    match &outcomes[3] {
        Ok(DispatchOutcome::Rows(results)) => {
            assert_eq!(results[0].as_ref().unwrap().fields, vec![DecodedValue::Identifier(2)]);
        }
        other => panic!("expected decoded rows, got {:?}", other),
    }
}

#[test]
fn session_advances_through_live_phases() {
    let p = SessionPhase::Uninitialized;
    let p = next_phase(p, SessionInput::PositionResolved);
    assert_eq!(p, SessionPhase::PositionResolved);
    let p = next_phase(p, SessionInput::StreamOpened);
    assert_eq!(p, SessionPhase::Streaming);
    let p = next_phase(p, SessionInput::EventHandled);
    assert_eq!(p, SessionPhase::Streaming);
}

#[test]
fn session_terminal_phases_absorb_inputs() {
    let failed = next_phase(SessionPhase::Streaming, SessionInput::TransportFailed);
    assert_eq!(failed, SessionPhase::Failed);
    assert_eq!(next_phase(failed, SessionInput::EventHandled), SessionPhase::Failed);

    let closed = next_phase(SessionPhase::Streaming, SessionInput::CloseRequested);
    assert_eq!(closed, SessionPhase::Closed);
    assert_eq!(next_phase(closed, SessionInput::StreamOpened), SessionPhase::Closed);
}

#[test]
fn session_out_of_order_input_fails() {
    assert_eq!(
        next_phase(SessionPhase::Uninitialized, SessionInput::EventHandled),
        SessionPhase::Failed
    );
    assert_eq!(
        next_phase(SessionPhase::Streaming, SessionInput::PositionResolved),
        SessionPhase::Failed
    );
}
