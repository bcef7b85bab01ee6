use h3::qpack::{ack_header, Decoded, DecoderError, EncoderError, Error, HeaderField};
use h3::config::Settings;
use h3::shared_state::{ConnectionState, EncoderStep, Poll, SharedState};

fn step(total_inserted: usize, instructions: &[u8]) -> EncoderStep {
    EncoderStep {
        total_inserted,
        instructions: instructions.to_vec(),
        outcome: Ok(()),
    }
}

#[test]
fn insertions_wake_everyone_who_waits() {
    let mut state = SharedState::<u64>::new(4096);
    assert!(matches!(state.poll_qpack_insert_count(2, 7), Poll::Pending));
    assert!(matches!(state.poll_qpack_insert_count(1, 8), Poll::Pending));
    assert!(matches!(state.poll_qpack_insert_count(3, 7), Poll::Pending));

    let wake = state.process_qpack_encoder(step(0, &[])).unwrap();
    assert!(wake.waiters.is_empty());
    assert!(!wake.connection);

    let wake = state.process_qpack_encoder(step(2, &[0x02])).unwrap();
    assert_eq!(wake.waiters, [7, 8]);
    assert!(wake.connection);
    assert_eq!(state.qpack_total_inserted(), 2);
    assert!(matches!(
        state.poll_qpack_insert_count(2, 7),
        Poll::Ready(Ok(()))
    ));

    let wake = state.process_qpack_encoder(step(5, &[])).unwrap();
    assert!(wake.waiters.is_empty());
    assert!(wake.connection);
}

#[test]
fn rejected_encoder_bytes_wake_nobody() {
    let mut state = SharedState::<u64>::new(4096);
    assert!(matches!(state.poll_qpack_insert_count(2, 7), Poll::Pending));
    let result = state.process_qpack_encoder(EncoderStep {
        total_inserted: 3,
        instructions: vec![1, 2],
        outcome: Err(DecoderError::Malformed("bad".to_string())),
    });
    assert!(matches!(result, Err(DecoderError::Malformed(_))));
    assert_eq!(state.qpack_total_inserted(), 3);
    assert_eq!(state.pending_instructions_len(), 2);
    assert_eq!(state.set_conn_error(1).1.waiters, [7]);
}

#[test]
fn first_connection_error_stays_and_ends_all_waiting() {
    let mut state = SharedState::<u64>::default();
    assert_eq!(state.get_conn_error(), None);
    assert!(matches!(state.poll_qpack_insert_count(1, 3), Poll::Pending));
    let (set, wake) = state.set_conn_error(10);
    assert_eq!(set, 10);
    assert_eq!(wake.waiters, [3]);
    assert!(!wake.connection);
    let (set, wake) = state.set_conn_error_and_wake(20u32);
    assert_eq!(set, 10);
    assert!(wake.waiters.is_empty());
    assert!(wake.connection);
    assert_eq!(state.get_conn_error(), Some(10));
    assert!(matches!(
        state.poll_qpack_insert_count(0, 3),
        Poll::Ready(Err(10))
    ));
    assert!(matches!(
        state.poll_qpack_insert_count(9, 4),
        Poll::Ready(Err(10))
    ));
}

#[test]
fn pending_instructions_are_taken_in_order() {
    let mut state = SharedState::<u64>::new(0);
    let wake = state.queue_qpack_header_ack(4);
    assert!(wake.connection);
    assert!(wake.waiters.is_empty());
    state.process_qpack_encoder(step(1, &[0x01])).unwrap();
    state.queue_qpack_header_ack(200);
    assert_eq!(state.pending_instructions_len(), 4);
    assert!(state.has_room_for(11));
    assert!(state.has_room_for(isize::MAX as usize / 8 - 4));
    assert!(!state.has_room_for(isize::MAX as usize / 8 - 3));
    let sent = state.take_qpack_decoder_instructions();
    assert_eq!(&sent[..], &[0x84, 0x01, 0xff, 0x49]);
    assert_eq!(state.pending_instructions_len(), 0);
    assert!(state.take_qpack_decoder_instructions().is_empty());
    state.queue_qpack_header_ack(0);
    assert_eq!(&state.take_qpack_decoder_instructions()[..], &[0x80]);
}

#[test]
fn acknowledgments_use_a_seven_bit_prefix() {
    assert_eq!(ack_header(0), [0x80]);
    assert_eq!(ack_header(126), [0xfe]);
    assert_eq!(ack_header(127), [0xff, 0x00]);
    assert_eq!(ack_header(254), [0xff, 0x7f]);
    assert_eq!(ack_header(255), [0xff, 0x80, 0x01]);
    assert_eq!(
        ack_header(u64::MAX),
        [0xff, 0x80, 0xff, 0xff, 0xff, 0xff, 0xff, 0xff, 0xff, 0xff, 0x01]
    );
}

#[test]
fn field_sections_over_the_limit_are_refused() {
    let section = |mem_size| {
        Ok(Decoded {
            fields: vec![HeaderField {
                name: b"a".to_vec(),
                value: b"b".to_vec(),
            }],
            mem_size,
        })
    };
    let decoded = SharedState::<u64>::decode_qpack(section(34), 34).unwrap();
    assert_eq!(decoded.mem_size, 34);
    assert_eq!(decoded.fields.len(), 1);
    assert!(matches!(
        SharedState::<u64>::decode_qpack(section(35), 34),
        Err(DecoderError::HeaderTooLong(35))
    ));
    assert!(matches!(
        SharedState::<u64>::decode_qpack(Err(DecoderError::MissingRefs(2)), 34),
        Err(DecoderError::MissingRefs(2))
    ));
}

#[test]
fn first_settings_of_the_peer_stay_in_force() {
    let mut state = SharedState::<u64>::default();
    assert_eq!(ConnectionState::settings(&state), Settings::default());
    let mut first = Settings::default();
    first.enable_datagram = true;
    state.set_settings(first);
    state.set_settings(Settings::default());
    assert_eq!(ConnectionState::settings(&state), first);
}

#[test]
fn closing_is_remembered() {
    let mut state = SharedState::<u64>::default();
    assert!(!state.is_closing());
    state.set_closing();
    assert!(state.is_closing());
    state.set_conn_error(1);
    assert!(state.is_closing());
}

#[test]
fn table_capacity_is_cut_to_what_the_machine_can_address() {
    assert_eq!(SharedState::<u64>::default().qpack_table_capacity(), 0);
    assert_eq!(SharedState::<u64>::new(4096).qpack_table_capacity(), 4096);
    assert_eq!(
        SharedState::<u64>::new(u64::MAX).qpack_table_capacity() as u64,
        u64::MAX.min(usize::MAX as u64)
    );
}

#[test]
fn errors_say_which_side_they_come_from() {
    let encoder = Error::Encoder(EncoderError("full".to_string()));
    let decoder = Error::Decoder(DecoderError::HeaderTooLong(9));
    assert_eq!(encoder.message("table full"), "Encoder table full");
    assert_eq!(decoder.message("header too long"), "Decoder header too long");
}

#[test]
fn waiting_tasks_are_not_forgotten() {
    let mut state = SharedState::<u64>::new(0);
    assert!(matches!(state.poll_qpack_insert_count(4, 1), Poll::Pending));
    state.process_qpack_encoder(step(0, &[])).unwrap();
    state.queue_qpack_header_ack(8);
    state.take_qpack_decoder_instructions();
    state.set_settings(Settings::default());
    state.set_closing();
    assert!(matches!(state.poll_qpack_insert_count(9, 2), Poll::Pending));
    assert_eq!(
        state.process_qpack_encoder(step(4, &[])).unwrap().waiters,
        [1, 2]
    );
    assert!(matches!(state.poll_qpack_insert_count(9, 2), Poll::Pending));
    assert_eq!(state.set_conn_error(5).1.waiters, [2]);
    state.process_qpack_encoder(step(9, &[])).unwrap();
    state.set_settings(Settings::default());
    assert_eq!(state.get_conn_error(), Some(5));
}

#[test]
fn waiting_tasks_are_let_go_once() {
    let mut state = SharedState::<u64>::new(0);
    for task in [3, 1, 3, 2] {
        assert!(matches!(state.poll_qpack_insert_count(4, task), Poll::Pending));
    }
    let wake = state.wake_qpack_waiters();
    assert_eq!(wake.waiters, [3, 1, 2]);
    assert!(!wake.connection);
    let again = state.wake_qpack_waiters();
    assert_eq!(again.waiters, []);
    assert!(!again.connection);
    assert_eq!(state.get_conn_error(), None);
    assert_eq!(state.qpack_total_inserted(), 0);
}

#[test]
fn instructions_are_sent_in_the_order_they_were_queued() {
    let mut state = SharedState::<u64>::new(0);
    let mut sent = Vec::new();
    state.queue_qpack_header_ack(4);
    state.process_qpack_encoder(step(1, &[7, 8])).unwrap();
    sent.extend_from_slice(&state.take_qpack_decoder_instructions());
    assert_eq!(sent, [0x84, 7, 8]);
    sent.extend_from_slice(&state.take_qpack_decoder_instructions());
    state.queue_qpack_header_ack(127);
    state.queue_qpack_header_ack(0);
    sent.extend_from_slice(&state.take_qpack_decoder_instructions());
    state.process_qpack_encoder(step(2, &[9])).unwrap();
    assert_eq!(state.pending_instructions_len(), 1);
    sent.extend_from_slice(&state.take_qpack_decoder_instructions());
    assert_eq!(sent, [0x84, 7, 8, 0xff, 0, 0x80, 9]);
    assert_eq!(state.pending_instructions_len(), 0);
}

#[test]
fn what_is_final_stays_over_a_run_of_events() {
    let mut state = SharedState::<u64>::new(4096);
    let mut first = Settings::default();
    first.max_field_section_size = 77;
    state.set_settings(first);
    state.set_closing();
    state.set_conn_error(1);
    state.process_qpack_encoder(step(5, &[1])).unwrap();
    state.queue_qpack_header_ack(8);
    state.take_qpack_decoder_instructions();
    state.wake_qpack_waiters();
    state.set_settings(Settings::default());
    state.set_conn_error(2);
    assert!(matches!(
        state.poll_qpack_insert_count(9, 1),
        Poll::Ready(Err(1))
    ));
    assert_eq!(state.settings().max_field_section_size, 77);
    assert_eq!(state.get_conn_error(), Some(1));
    assert!(state.is_closing());
    assert_eq!(state.qpack_table_capacity(), 4096);
}
