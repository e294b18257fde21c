use std::time::Duration;

use ayu_frontend::events::{get_timestamp, u8_buf_to_u64_buf, Event, EventError, EventType};
use ayu_frontend::text::{function_name_from_payload, read_function_name_from_buffer};

fn frame(words: [u64; 8]) -> Vec<u8> {
    words.iter().flat_map(|w| w.to_be_bytes()).collect()
}

#[test]
fn test_f_name_from_string() {
    // name = func
    let expected = String::from("func");
    let buf = [102, 117, 110, 99, 0, 0, 0, 0,
               0, 0, 0, 0, 0, 0, 0, 0,
               0, 0, 0, 0, 0, 0, 0, 4,
               0, 0, 0, 0, 0, 0, 0, 4,
               0, 0, 0, 0, 0, 0, 0, 0,
               0, 0, 0, 0, 0, 0, 0, 0,
               0, 0, 0, 0, 0, 0, 0, 0,
               23, 27, 125, 89, 31, 98, 134, 231];

    let actual = read_function_name_from_buffer(&buf[..4]);
    println!("{:?}", &buf[..4]);
    assert_eq!(actual, expected);
}

#[test]
fn test_get_timestamp() {
    let expected = Some(
        Duration::from_nanos(
            u64::from_be_bytes([23, 27, 125, 89, 31, 98, 134, 231])
        )
    );
    let buf_long = [102, 117, 110, 99, 0, 0, 0, 0,
                    0, 0, 0, 0, 0, 0, 0, 0,
                    0, 0, 0, 0, 0, 0, 0, 4,
                    0, 0, 0, 0, 0, 0, 0, 4,
                    0, 0, 0, 0, 0, 0, 0, 0,
                    0, 0, 0, 0, 0, 0, 0, 0,
                    0, 0, 0, 0, 0, 0, 0, 0,
                    23, 27, 125, 89, 31, 98, 134, 231];
    let actual_long = get_timestamp(&buf_long).map(Duration::from_nanos);
    assert!(actual_long.is_some());
    assert_eq!(actual_long, expected);

    let buf_short = [23, 27, 125, 89, 31, 98, 134, 231];
    let actual_short = get_timestamp(&buf_short).map(Duration::from_nanos);
    assert!(actual_short.is_some());
    assert_eq!(actual_short, expected);

    let buf_invalid = [23, 27, 125, 89, 31, 98, 134];
    let actual_invalid = get_timestamp(&buf_invalid).map(Duration::from_nanos);
    assert!(actual_invalid.is_none());
}

#[test]
fn test_event_type_try_from_slice() {
    let buf: [u8; 64] = [0, 0, 0, 0, 0, 0, 0, 0,
               0, 0, 0, 0, 0, 0, 0, 0,
               0, 0, 0, 0, 0, 0, 0, 4,
               0, 0, 0, 0, 0, 0, 0, 3,
               0, 0, 0, 0, 0, 0, 0, 0,
               0, 0, 0, 0, 0, 0, 0, 0,
               0, 0, 0, 0, 0, 0, 0, 0,
               23, 27, 188, 20, 119, 241, 215, 47];

    let actual = EventType::try_from(buf.as_slice());
    assert!(actual.is_ok());
    assert_eq!(actual.unwrap(), EventType::RegisterFunction);
}

#[test]
fn test_u8_buf_to_u64_buf() {
    let buf = [128, 64, 32, 255, 0, 0, 0, 1];
    let expected = vec![u64::from_be_bytes(buf.clone())];
    assert_eq!(u8_buf_to_u64_buf(buf.as_slice()).unwrap(), expected);

    let buf = [0, 0, 0, 0, 0, 0, 0, 0,
               0, 0, 0, 0, 0, 0, 0, 0,
               0, 0, 0, 0, 0, 0, 0, 4,
               0, 0, 0, 0, 0, 0, 0, 3,
               0, 0, 0, 0, 0, 0, 0, 0,
               0, 0, 0, 0, 0, 0, 0, 0,
               0, 0, 0, 0, 0, 0, 0, 0,
               23, 27, 188, 20, 119, 241, 215, 47];

    let expected = vec![0, 0, 4, 3, 0, 0, 0, u64::from_be_bytes([23, 27, 188, 20, 119, 241, 215, 47])];
    assert_eq!(u8_buf_to_u64_buf(buf.as_slice()).unwrap(), expected);

    let buf = [128, 64, 32];
    assert!(u8_buf_to_u64_buf(buf.as_slice()).is_err());
}

#[test]
fn uneven_buffer_reports_its_error() {
    let buf = [1u8; 12];
    assert_eq!(u8_buf_to_u64_buf(&buf), Err(EventError::BufferUnevenByteBoundary));
    assert_eq!(u8_buf_to_u64_buf(&[]), Ok(vec![]));
}

#[test]
fn short_buffers_are_too_short() {
    for len in [0usize, 1, 8, 63] {
        let buf = vec![0u8; len];
        assert_eq!(Event::try_from(buf.as_slice()), Err(EventError::EventBufferTooShort(len)));
        assert_eq!(EventType::try_from(buf.as_slice()), Err(EventError::EventBufferTooShort(len)));
    }
}

#[test]
fn add_task_takes_words_one_three_four_six() {
    let buf = frame([9, 41, 5, 3, 2, 77, 8, 100]);
    assert_eq!(
        Event::try_from(buf.as_slice()),
        Ok(Event::AddTask { task_id: 41, func_id: 3, priority: 2, scope_id: 8 })
    );
}

#[test]
fn longer_buffers_decode_their_first_frame() {
    let mut buf = frame([0, 12, 14, 0, 0, 0, 0, 0]);
    buf.extend_from_slice(&[0xff; 10]);
    assert_eq!(Event::try_from(buf.as_slice()), Ok(Event::RemoveTask { task_id: 12 }));
}

#[test]
fn each_implemented_event_decodes() {
    let cases = [
        (frame([3, 7, 1, 0, 0, 0, 0, 0]), Event::PreInit { rt: 3, pid: 7 }),
        (frame([0, 0, 2, 4, 0, 0, 0, 0]), Event::Init { n_threads: 4 }),
        (frame([0, 0, 3, 0, 0, 0, 0, 0]), Event::Finish),
        (frame([0, 0, 4, 4, 6, 0, 0, 0]), Event::RegisterFunction { func_id: 6, string_len: 4 }),
        (
            frame([0, 2, 7, 1, 0xab, 0xcd, 0, 0]),
            Event::AddDependency { to_id: 2, from_id: 1, memaddr: 0xab, orig_memaddr: 0xcd },
        ),
        (frame([0, 5, 8, 2, 0, 0, 0, 0]), Event::AddTaskToQueue { task_id: 5, thread_id: 2 }),
        (frame([0, 5, 10, 2, 0, 0, 0, 0]), Event::PreRunTask { task_id: 5, thread_id: 2 }),
        (frame([0, 5, 11, 0, 0, 0, 0, 0]), Event::RunTask { task_id: 5 }),
        (frame([0, 5, 12, 0, 0, 0, 0, 0]), Event::PostRunTask { task_id: 5 }),
        (frame([0, 5, 14, 0, 0, 0, 0, 0]), Event::RemoveTask { task_id: 5 }),
        (frame([0, 5, 15, 0, 0, 0, 0, 0]), Event::WaitOn { task_id: 5 }),
        (frame([0, 0, 16, 0, 0, 0, 0, 0]), Event::Barrier),
    ];
    for (buf, expected) in cases {
        assert_eq!(Event::try_from(buf.as_slice()), Ok(expected));
    }
}

#[test]
fn unimplemented_and_unknown_kinds_fail() {
    let unimplemented = [
        (0u64, EventType::Null),
        (6, EventType::AddHiddenTask),
        (9, EventType::AddPreSelectTask),
        (13, EventType::RunTaskFailed),
        (17, EventType::AddWaitOnTask),
    ];
    for (id, kind) in unimplemented {
        let buf = frame([0, 0, id, 0, 0, 0, 0, 0]);
        assert_eq!(Event::try_from(buf.as_slice()), Err(EventError::NotImplemented(kind)));
    }
    let buf = frame([0, 0, 18, 0, 0, 0, 0, 0]);
    assert_eq!(Event::try_from(buf.as_slice()), Err(EventError::InvalidId(18)));
    assert_eq!(EventType::try_from(buf.as_slice()), Err(EventError::InvalidId(18)));
    assert_eq!(EventType::try_from(u64::MAX), Err(EventError::InvalidId(u64::MAX)));
}

#[test]
fn event_type_ids_round_trip() {
    for id in 0u64..18 {
        assert_eq!(EventType::try_from(id).unwrap().id(), id);
    }
}

#[test]
fn invalid_utf8_name_is_empty() {
    assert_eq!(read_function_name_from_buffer(&[0x66, 0xff, 0x67]), "");
    assert_eq!(read_function_name_from_buffer(&[0xc3, 0xa9]), "\u{e9}");
}

#[test]
fn payload_name_needs_the_announced_length() {
    assert_eq!(function_name_from_payload(4, b"func"), "func");
    assert_eq!(function_name_from_payload(5, b"func"), "");
    assert_eq!(function_name_from_payload(0, b""), "");
}
