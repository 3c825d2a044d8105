use ratatui_wasm::{
    cursor_position, poll_next_event, size, window_size, FlushError, HostState, Pulled, Session,
    TerminalHandle, WindowSize, QUEUE_CAPACITY,
};

fn host() -> HostState {
    HostState {
        rows: 24,
        cols: 80,
        client_width: 640,
        client_height: 384,
        cursor_x: 3,
        cursor_y: 7,
    }
}

#[test]
fn new_session_has_nothing_waiting() {
    let mut session = Session::new(host());
    assert_eq!(poll_next_event(&mut session), Pulled::Empty);
}

#[test]
fn chunks_come_out_in_the_order_pushed() {
    let mut session = Session::new(host());
    session.on_data(b"one".to_vec());
    session.on_binary(b"two".to_vec());
    session.on_data(Vec::new());
    session.on_data(b"three".to_vec());
    assert_eq!(poll_next_event(&mut session), Pulled::Chunk(b"one".to_vec()));
    assert_eq!(poll_next_event(&mut session), Pulled::Chunk(b"two".to_vec()));
    assert_eq!(poll_next_event(&mut session), Pulled::Chunk(Vec::new()));
    assert_eq!(poll_next_event(&mut session), Pulled::Chunk(b"three".to_vec()));
    assert_eq!(poll_next_event(&mut session), Pulled::Empty);
}

#[test]
fn queue_capacity_is_thirty_three() {
    assert_eq!(QUEUE_CAPACITY, 33);
}

#[test]
fn overflow_keeps_the_first_chunks() {
    let mut session = Session::new(host());
    for number in 0..40u8 {
        session.on_data(vec![number]);
    }
    for number in 0..33u8 {
        assert_eq!(poll_next_event(&mut session), Pulled::Chunk(vec![number]));
    }
    assert_eq!(poll_next_event(&mut session), Pulled::Empty);
}

#[test]
fn full_queue_takes_exactly_capacity() {
    let mut session = Session::new(host());
    for number in 0..QUEUE_CAPACITY {
        session.on_data(vec![number as u8]);
    }
    session.on_data(b"late".to_vec());
    let mut pulled = 0;
    while let Pulled::Chunk(chunk) = poll_next_event(&mut session) {
        assert_eq!(chunk, vec![pulled as u8]);
        pulled += 1;
    }
    assert_eq!(pulled, QUEUE_CAPACITY);
}

#[test]
fn a_pull_makes_room_for_one_push() {
    let mut session = Session::new(host());
    for number in 0..40u8 {
        session.on_data(vec![number]);
    }
    assert_eq!(poll_next_event(&mut session), Pulled::Chunk(vec![0]));
    session.on_data(vec![100]);
    session.on_data(vec![101]);
    for number in 1..33u8 {
        assert_eq!(poll_next_event(&mut session), Pulled::Chunk(vec![number]));
    }
    assert_eq!(poll_next_event(&mut session), Pulled::Chunk(vec![100]));
    assert_eq!(poll_next_event(&mut session), Pulled::Empty);
}

#[test]
fn closed_session_hands_out_what_waits_and_ends() {
    let mut session = Session::new(host());
    session.on_data(b"last".to_vec());
    session.close();
    session.on_data(b"too late".to_vec());
    assert_eq!(poll_next_event(&mut session), Pulled::Chunk(b"last".to_vec()));
    assert_eq!(poll_next_event(&mut session), Pulled::Closed);
    assert_eq!(poll_next_event(&mut session), Pulled::Closed);
    session.on_binary(b"still too late".to_vec());
    assert_eq!(poll_next_event(&mut session), Pulled::Closed);
}

#[test]
fn window_size_is_the_host_state() {
    let session = Session::new(host());
    assert_eq!(
        window_size(&session),
        WindowSize { rows: 24, columns: 80, width: 640, height: 384 }
    );
    assert_eq!(size(&session), (80, 24));
}

#[test]
fn window_size_keeps_the_low_sixteen_bits() {
    let session = Session::new(HostState {
        rows: 65536 + 5,
        cols: 65535,
        client_width: -1,
        client_height: i32::MIN,
        cursor_x: 0x0003_0002,
        cursor_y: u32::MAX,
    });
    assert_eq!(
        window_size(&session),
        WindowSize { rows: 5, columns: 65535, width: 65535, height: 0 }
    );
    assert_eq!(cursor_position(&session), (2, 65535));
}

#[test]
fn negative_pixel_sizes_wrap_as_a_cast_does() {
    for width in [-1, -2, -65536, -65537, i32::MIN, i32::MAX, 0, 65536, 70000] {
        let session = Session::new(HostState { client_width: width, ..host() });
        assert_eq!(window_size(&session).width, width as u16);
    }
}

#[test]
fn resize_shows_in_the_next_window_size() {
    let mut session = Session::new(host());
    session.on_resize(50, 132, 1056, 800);
    assert_eq!(
        window_size(&session),
        WindowSize { rows: 50, columns: 132, width: 1056, height: 800 }
    );
    assert_eq!(size(&session), (132, 50));
    assert_eq!(cursor_position(&session), (3, 7));
}

#[test]
fn cursor_position_is_column_then_row() {
    let mut session = Session::new(host());
    assert_eq!(cursor_position(&session), (3, 7));
    session.on_cursor_move(10, 20);
    assert_eq!(cursor_position(&session), (10, 20));
    assert_eq!(size(&session), (80, 24));
}

#[test]
fn cursor_position_repeats() {
    let mut session = Session::new(host());
    let first = cursor_position(&session);
    let second = cursor_position(&session);
    assert_eq!(first, second);
    session.on_data(b"x".to_vec());
    let _ = poll_next_event(&mut session);
    assert_eq!(cursor_position(&session), first);
}

#[test]
fn handle_gathers_and_flushes_text() {
    let mut handle = TerminalHandle::default();
    assert_eq!(handle.write(b"hello "), 6);
    assert_eq!(handle.write(b""), 0);
    assert_eq!(handle.write("wörld".as_bytes()), 6);
    assert_eq!(handle.flush(), Ok("hello wörld".to_string()));
    assert_eq!(handle.flush(), Ok(String::new()));
}

#[test]
fn handle_joins_a_character_written_in_two_parts() {
    let mut handle = TerminalHandle::default();
    handle.write(b"\xC3");
    handle.write(b"\xA9");
    assert_eq!(handle.flush(), Ok("é".to_string()));
}

#[test]
fn handle_rejects_bytes_that_are_no_text() {
    let mut handle = TerminalHandle::default();
    handle.write(b"ok\xFF");
    assert_eq!(handle.flush(), Err(FlushError::InvalidData));
    assert_eq!(handle.flush(), Ok(String::new()));
    handle.write(b"fine");
    assert_eq!(handle.flush(), Ok("fine".to_string()));
}
