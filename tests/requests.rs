use ayu_frontend::events::EventType;
use ayu_frontend::requests::{
    encode_request, get_request_type, prepare_block_task, prepare_break, prepare_break_at_task,
    prepare_breakpoint, prepare_continue, prepare_no_request, prepare_null,
    prepare_pause_on_event, prepare_pause_on_function, prepare_pause_on_task,
    prepare_prioritise_task, prepare_set_num_threads, prepare_step, prepare_unbreak_at_task,
    write_into_buffer, write_request, Request, RequestError, UserInputError,
};
use ayu_frontend::events::u8_buf_to_u64_buf;
use ayu_frontend::state::AppState;

fn words(buf: &[u8]) -> Vec<u64> {
    u8_buf_to_u64_buf(buf).unwrap()
}

fn state_with_task(id: u64) -> AppState {
    let mut state = AppState::new();
    state.create_task(id, false, None, 0).unwrap();
    state
}

#[test]
fn test_to_buffer() {
    let buf = [0_usize.to_be_bytes(), (Request::Step as usize).to_be_bytes(), 1_usize.to_be_bytes()].into_iter().flatten().collect::<Vec<u8>>();

    println!("{:?}", buf);
    assert_eq!(&encode_request(Request::Step, 1, 0)[..24], buf.as_slice());
}

#[test]
fn request_frames_round_trip() {
    for id in 0i64..14 {
        let request = Request::try_from(id).unwrap();
        let buf = encode_request(request, 0xdead_beef, u64::MAX);
        assert_eq!(buf.len(), 64);
        let w = words(&buf);
        assert_eq!(w, vec![0, id as u64, 0xdead_beef, u64::MAX, 0, 0, 0, 0]);
        assert_eq!(get_request_type(w[1] as i64), Ok(request));
    }
}

#[test]
fn unknown_request_ids_fail() {
    assert_eq!(get_request_type(14), Err(RequestError::InvalidId(14)));
    assert_eq!(get_request_type(-1), Err(RequestError::InvalidId(-1)));
}

#[test]
fn write_request_sets_word_one() {
    let mut buf = [0xaau8; 64];
    write_request(&mut buf, &Request::BlockTask);
    assert_eq!(words(&buf)[1], 7);
    assert_eq!(buf[0], 0xaa);
    assert_eq!(buf[16], 0xaa);
}

#[test]
fn write_into_buffer_places_bytes_at_word() {
    let mut buf = [0u8; 32];
    write_into_buffer(&mut buf, &[1, 2, 3], 2);
    assert_eq!(&buf[16..20], &[1, 2, 3, 0]);
    assert_eq!(&buf[..16], &[0u8; 16]);
}

#[test]
fn pause_on_event_checks_event_and_value() {
    let mut buf = [0u8; 64];
    assert_eq!(prepare_pause_on_event(&mut buf, 99, 1), Err(UserInputError::InvalidEventId(99)));
    assert_eq!(prepare_pause_on_event(&mut buf, 10, 2), Err(UserInputError::InvalidEventId(2)));
    assert_eq!(buf, [0u8; 64]);
    assert_eq!(prepare_pause_on_event(&mut buf, EventType::RemoveTask.id(), 1), Ok(()));
    assert_eq!(words(&buf), vec![0, 0, 14, 1, 0, 0, 0, 0]);
}

#[test]
fn task_requests_need_a_known_task() {
    let state = state_with_task(4);
    let mut buf = [0u8; 64];
    assert_eq!(prepare_pause_on_task(&mut buf, &state, 5, 1), Err(UserInputError::TaskNotFound(5)));
    assert_eq!(prepare_pause_on_task(&mut buf, &state, 4, 3), Err(UserInputError::InvalidEventId(3)));
    assert_eq!(prepare_block_task(&mut buf, &state, 5, 1), Err(UserInputError::TaskNotFound(5)));
    assert_eq!(prepare_prioritise_task(&mut buf, &state, 5, 1), Err(UserInputError::TaskNotFound(5)));
    assert_eq!(prepare_break_at_task(&mut buf, &state, 5), Err(UserInputError::TaskNotFound(5)));
    assert_eq!(prepare_unbreak_at_task(&mut buf, &state, 5), Err(UserInputError::TaskNotFound(5)));
    assert_eq!(buf, [0u8; 64]);

    assert_eq!(prepare_pause_on_task(&mut buf, &state, 4, 0), Ok(()));
    assert_eq!(words(&buf)[2..4], [4, 0]);
    assert_eq!(prepare_block_task(&mut buf, &state, 4, -1), Ok(()));
    assert_eq!(words(&buf)[2..4], [4, u64::MAX]);
    assert_eq!(prepare_prioritise_task(&mut buf, &state, 4, 9), Ok(()));
    assert_eq!(words(&buf)[2..4], [4, 9]);
    let mut buf = [0u8; 64];
    assert_eq!(prepare_break_at_task(&mut buf, &state, 4), Ok(()));
    assert_eq!(words(&buf), vec![0, 0, 4, 0, 0, 0, 0, 0]);
    let mut buf = [0u8; 64];
    assert_eq!(prepare_unbreak_at_task(&mut buf, &state, 4), Ok(()));
    assert_eq!(words(&buf), vec![0, 0, 4, 0, 0, 0, 0, 0]);
}

#[test]
fn counts_must_not_be_negative() {
    let mut buf = [0u8; 64];
    assert_eq!(
        prepare_step(&mut buf, -1),
        Err(UserInputError::MustBePositiveNumber("step request"))
    );
    assert_eq!(
        prepare_set_num_threads(&mut buf, -5),
        Err(UserInputError::MustBePositiveNumber("number of threads"))
    );
    assert_eq!(buf, [0u8; 64]);
    assert_eq!(prepare_step(&mut buf, 3), Ok(()));
    assert_eq!(words(&buf)[2], 3);
    assert_eq!(prepare_set_num_threads(&mut buf, 8), Ok(()));
    assert_eq!(words(&buf)[2], 8);
}

#[test]
fn breakpoint_is_on_or_off() {
    let mut buf = [0u8; 64];
    assert_eq!(prepare_breakpoint(&mut buf, 2), Err(UserInputError::InvalidEventId(2)));
    assert_eq!(prepare_breakpoint(&mut buf, 1), Ok(()));
    assert_eq!(words(&buf)[2], 1);
}

#[test]
fn requests_without_parameters_leave_the_frame() {
    let mut buf = [7u8; 64];
    assert_eq!(prepare_null(), Ok(()));
    assert_eq!(prepare_no_request(), Ok(()));
    assert_eq!(prepare_pause_on_function(&mut buf), Ok(()));
    assert_eq!(prepare_continue(&mut buf), Ok(()));
    assert_eq!(prepare_break(&mut buf), Ok(()));
    assert_eq!(buf, [7u8; 64]);
}
