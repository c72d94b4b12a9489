use ttyd::protocol::{
    frame, OpenMessage, WindowSize, CLOSE_NORMAL, INPUT, JSON_DATA, OUTPUT, PAUSE,
    RESIZE_TERMINAL, RESUME, SET_PREFERENCES, SET_WINDOW_TITLE, SUBPROTOCOL,
};

#[test]
fn frames_prefix_the_command_byte() {
    assert_eq!(frame(OUTPUT, b"hi"), b"0hi");
    assert_eq!(frame(SET_WINDOW_TITLE, b"t"), b"1t");
    assert_eq!(frame(SET_PREFERENCES, b"{ }"), b"2{ }");
}

#[test]
fn the_command_bytes_are_those_of_the_frontend() {
    assert_eq!(
        [INPUT, RESIZE_TERMINAL, PAUSE, RESUME, JSON_DATA],
        [b'0', b'1', b'2', b'3', b'{']
    );
    assert_eq!(SUBPROTOCOL, "tty");
    assert_eq!(CLOSE_NORMAL, 1000);
}

#[test]
fn a_dimension_that_was_not_reported_stays() {
    let current = WindowSize {
        columns: 80,
        rows: 24,
    };
    assert_eq!(WindowSize::default().over(current), current);
    assert_eq!(
        WindowSize {
            columns: 0,
            rows: 50
        }
        .over(current),
        WindowSize {
            columns: 80,
            rows: 50
        }
    );
}

#[test]
fn an_empty_opening_message_has_no_token() {
    let message = OpenMessage::default();
    assert_eq!((message.columns, message.rows), (0, 0));
    assert_eq!(message.auth_token, None);
}

#[test]
fn a_dimension_that_does_not_fit_counts_as_not_reported() {
    assert_eq!(
        WindowSize::reported(Some(120), Some(40)),
        WindowSize {
            columns: 120,
            rows: 40
        }
    );
    assert_eq!(
        WindowSize::reported(Some(65535), None),
        WindowSize {
            columns: 65535,
            rows: 0
        }
    );
    assert_eq!(
        WindowSize::reported(Some(65536), Some(1)),
        WindowSize {
            columns: 0,
            rows: 1
        }
    );
}
