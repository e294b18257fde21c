//! Requests sent to the runtime, and the frames that carry them.
//!
//! A request frame holds the request's id in word 1 and its parameters in words 2 and 3.
use vstd::prelude::*;
use crate::codec::{
    be_bytes, be_bytes_of, be_word, lemma_be_word_of_bytes, lemma_be_word_same_bytes,
    lemma_be_word_zero, words_of, FRAME_LEN,
};
use crate::events::{event_type_of, EventType};
use crate::state::AppState;

verus! {

/// Why a number names no request.
#[derive(Debug, Clone, Copy, PartialEq, Eq, Structural)]
pub enum RequestError {
    InvalidId(i64),
}

/// The requests the runtime understands, in the order of their wire ids.
#[derive(Debug, Clone, Copy, PartialEq, Eq, Structural)]
pub enum Request {
    Null,
    NoRequest,
    PauseOnEvent,
    PauseOnTask,
    PauseOnFunction,
    Step,
    Breakpoint,
    BlockTask,
    PrioritiseTask,
    SetNumThreads,
    Continue,
    Break,
    BreakAtTask,
    UnbreakAtTask,
}

/// Why the values given for a request were refused.
#[derive(Debug, Clone, Copy, PartialEq, Eq)]
pub enum UserInputError {
    InvalidPauseValue(i64),
    InvalidEventId(u64),
    TaskNotFound(u64),
    MustBePositiveNumber(&'static str),
}

/// The request that a wire id denotes.
pub open spec fn request_of(id: i64) -> Result<Request, RequestError> {
    if id == 0 {
        Ok(Request::Null)
    } else if id == 1 {
        Ok(Request::NoRequest)
    } else if id == 2 {
        Ok(Request::PauseOnEvent)
    } else if id == 3 {
        Ok(Request::PauseOnTask)
    } else if id == 4 {
        Ok(Request::PauseOnFunction)
    } else if id == 5 {
        Ok(Request::Step)
    } else if id == 6 {
        Ok(Request::Breakpoint)
    } else if id == 7 {
        Ok(Request::BlockTask)
    } else if id == 8 {
        Ok(Request::PrioritiseTask)
    } else if id == 9 {
        Ok(Request::SetNumThreads)
    } else if id == 10 {
        Ok(Request::Continue)
    } else if id == 11 {
        Ok(Request::Break)
    } else if id == 12 {
        Ok(Request::BreakAtTask)
    } else if id == 13 {
        Ok(Request::UnbreakAtTask)
    } else {
        Err(RequestError::InvalidId(id))
    }
}

impl Request {
    /// The wire id of this request.
    pub open spec fn spec_id(&self) -> u64 {
        match self {
            Request::Null => 0,
            Request::NoRequest => 1,
            Request::PauseOnEvent => 2,
            Request::PauseOnTask => 3,
            Request::PauseOnFunction => 4,
            Request::Step => 5,
            Request::Breakpoint => 6,
            Request::BlockTask => 7,
            Request::PrioritiseTask => 8,
            Request::SetNumThreads => 9,
            Request::Continue => 10,
            Request::Break => 11,
            Request::BreakAtTask => 12,
            Request::UnbreakAtTask => 13,
        }
    }

    /// The wire id of this request.
    #[verifier::when_used_as_spec(spec_id)]
    pub fn id(&self) -> (r: u64)
        ensures
            r == self.spec_id(),
    {
        match self {
            Request::Null => 0,
            Request::NoRequest => 1,
            Request::PauseOnEvent => 2,
            Request::PauseOnTask => 3,
            Request::PauseOnFunction => 4,
            Request::Step => 5,
            Request::Breakpoint => 6,
            Request::BlockTask => 7,
            Request::PrioritiseTask => 8,
            Request::SetNumThreads => 9,
            Request::Continue => 10,
            Request::Break => 11,
            Request::BreakAtTask => 12,
            Request::UnbreakAtTask => 13,
        }
    }
}

impl TryFrom<i64> for Request {
    type Error = RequestError;

    fn try_from(value: i64) -> (r: Result<Self, Self::Error>) {
        match value {
            0 => Ok(Request::Null),
            1 => Ok(Request::NoRequest),
            2 => Ok(Request::PauseOnEvent),
            3 => Ok(Request::PauseOnTask),
            4 => Ok(Request::PauseOnFunction),
            5 => Ok(Request::Step),
            6 => Ok(Request::Breakpoint),
            7 => Ok(Request::BlockTask),
            8 => Ok(Request::PrioritiseTask),
            9 => Ok(Request::SetNumThreads),
            10 => Ok(Request::Continue),
            11 => Ok(Request::Break),
            12 => Ok(Request::BreakAtTask),
            13 => Ok(Request::UnbreakAtTask),
            id => Err(RequestError::InvalidId(id)),
        }
    }
}

impl vstd::std_specs::convert::TryFromSpecImpl<i64> for Request {
    open spec fn obeys_try_from_spec() -> bool {
        true
    }

    open spec fn try_from_spec(v: i64) -> Result<Self, Self::Error> {
        request_of(v)
    }
}

/// `b` with `bytes` written over it from offset `at`.
pub open spec fn splice(b: Seq<u8>, at: int, bytes: Seq<u8>) -> Seq<u8> {
    b.take(at) + bytes + b.skip(at + bytes.len())
}

/// `b` with word `index` set to `w`.
pub open spec fn put_word(b: Seq<u8>, index: int, w: u64) -> Seq<u8> {
    splice(b, 8 * index, be_bytes(w))
}

/// The frame of a request with its two parameters.
pub open spec fn request_frame(request: Request, param1: u64, param2: u64) -> Seq<u8> {
    put_word(
        put_word(put_word(Seq::new(FRAME_LEN as nat, |i: int| 0u8), 1, request.spec_id()), 2, param1),
        3,
        param2,
    )
}

/// A pause or on/off value is 0 or 1.
pub open spec fn is_switch(v: u64) -> bool {
    v == 0 || v == 1
}

/// Writes `bytes` into `buf` from word `index` on.
pub fn write_into_buffer(buf: &mut [u8], bytes: &[u8], index: usize)
    requires
        8 * index + bytes@.len() <= old(buf)@.len(),
    ensures
        final(buf)@ == splice(old(buf)@, 8 * index as int, bytes@),
{
    let n: usize = buf.len();
    let start: usize = 8 * index;
    let mut i: usize = 0;
    while i < bytes.len()
        invariant
            n == buf@.len(),
            start == 8 * index,
            start + bytes@.len() <= buf@.len(),
            i <= bytes@.len(),
            buf@.len() == old(buf)@.len(),
            buf@ =~= old(buf)@.take(start as int) + bytes@.take(i as int) + old(buf)@.skip(
                start + i,
            ),
        decreases bytes@.len() - i,
    {
        buf[start + i] = bytes[i];
        i = i + 1;
    }
}

/// Writes `w` as word `index` of `buf`.
fn write_word(buf: &mut [u8], index: usize, w: u64)
    requires
        8 * index + 8 <= old(buf)@.len(),
    ensures
        final(buf)@ == put_word(old(buf)@, index as int, w),
{
    let bytes = be_bytes_of(w);
    write_into_buffer(buf, &bytes, index);
}

/// Writes the request's id as word 1 of `buf`.
pub fn write_request(buf: &mut [u8], request: &Request)
    requires
        old(buf)@.len() >= 16,
    ensures
        final(buf)@ == put_word(old(buf)@, 1, request.spec_id()),
{
    write_word(buf, 1, request.id());
}

/// The frame of a request with its two parameters; parameters a request does not use are 0.
pub fn encode_request(request: Request, param1: u64, param2: u64) -> (r: Vec<u8>)
    ensures
        r@ == request_frame(request, param1, param2),
{
    let mut buf: Vec<u8> = vec![0u8; FRAME_LEN];
    assert(buf@ =~= Seq::new(FRAME_LEN as nat, |i: int| 0u8));
    write_word(buf.as_mut_slice(), 1, request.id());
    write_word(buf.as_mut_slice(), 2, param1);
    write_word(buf.as_mut_slice(), 3, param2);
    buf
}

/// The request named by an id read from the operator.
pub fn get_request_type(id: i64) -> (r: Result<Request, RequestError>)
    ensures
        r == request_of(id),
{
    Request::try_from(id)
}

/// Prepares a Null request: it has no parameters.
pub fn prepare_null() -> (r: Result<(), UserInputError>)
    ensures
        r is Ok,
{
    Ok(())
}

/// Prepares a NoRequest request: it has no parameters.
pub fn prepare_no_request() -> (r: Result<(), UserInputError>)
    ensures
        r is Ok,
{
    Ok(())
}

/// Checks a pause value: 1 is on, 0 is off.
pub fn get_pause_value(pause_val: u64) -> (r: Result<u64, UserInputError>)
    ensures
        is_switch(pause_val) ==> r == Ok::<u64, UserInputError>(pause_val),
        !is_switch(pause_val) ==> r == Err::<u64, UserInputError>(
            UserInputError::InvalidEventId(pause_val),
        ),
{
    if pause_val != 0 && pause_val != 1 {
        return Err(UserInputError::InvalidEventId(pause_val));
    }
    Ok(pause_val)
}

/// Checks that the task a request names is known.
pub fn get_task_id(state: &AppState, task_id: u64) -> (r: Result<u64, UserInputError>)
    ensures
        state@.has_task(task_id) ==> r == Ok::<u64, UserInputError>(task_id),
        !state@.has_task(task_id) ==> r == Err::<u64, UserInputError>(
            UserInputError::TaskNotFound(task_id),
        ),
{
    if !state.does_task_exist(task_id) {
        return Err(UserInputError::TaskNotFound(task_id));
    }
    Ok(task_id)
}

/// Prepares a PauseOnEvent request: the event kind in word 2, the pause value in word 3.
pub fn prepare_pause_on_event(buf: &mut [u8], event_id: u64, pause_val: u64) -> (r: Result<
    (),
    UserInputError,
>)
    requires
        old(buf)@.len() >= 32,
    ensures
        event_type_of(event_id) is Err ==> r == Err::<(), UserInputError>(
            UserInputError::InvalidEventId(event_id),
        ),
        event_type_of(event_id) is Ok && !is_switch(pause_val) ==> r == Err::<(), UserInputError>(
            UserInputError::InvalidEventId(pause_val),
        ),
        r is Ok <==> event_type_of(event_id) is Ok && is_switch(pause_val),
        r is Ok ==> final(buf)@ == put_word(put_word(old(buf)@, 2, event_id), 3, pause_val),
        r is Err ==> final(buf)@ == old(buf)@,
{
    let event = match EventType::try_from(event_id) {
        Ok(e) => e,
        Err(_) => return Err(UserInputError::InvalidEventId(event_id)),
    };
    let pause_val = get_pause_value(pause_val)?;
    write_word(buf, 2, event.id());
    write_word(buf, 3, pause_val);
    Ok(())
}

/// Prepares a PauseOnTask request: the task in word 2, the pause value in word 3.
pub fn prepare_pause_on_task(buf: &mut [u8], state: &AppState, task_id: u64, pause_val: u64) -> (r:
    Result<(), UserInputError>)
    requires
        old(buf)@.len() >= 32,
    ensures
        !state@.has_task(task_id) ==> r == Err::<(), UserInputError>(
            UserInputError::TaskNotFound(task_id),
        ),
        state@.has_task(task_id) && !is_switch(pause_val) ==> r == Err::<(), UserInputError>(
            UserInputError::InvalidEventId(pause_val),
        ),
        r is Ok <==> state@.has_task(task_id) && is_switch(pause_val),
        r is Ok ==> final(buf)@ == put_word(put_word(old(buf)@, 2, task_id), 3, pause_val),
        r is Err ==> final(buf)@ == old(buf)@,
{
    let task_id = get_task_id(state, task_id)?;
    let pause_val = get_pause_value(pause_val)?;
    write_word(buf, 2, task_id);
    write_word(buf, 3, pause_val);
    Ok(())
}

/// Prepares a PauseOnFunction request; the runtime does not act on it, and it has no parameters.
pub fn prepare_pause_on_function(buf: &mut [u8]) -> (r: Result<(), UserInputError>)
    ensures
        r is Ok,
        final(buf)@ == old(buf)@,
{
    Ok(())
}

/// Prepares a Step request: the number of steps in word 2, which must not be negative.
pub fn prepare_step(buf: &mut [u8], step: i64) -> (r: Result<(), UserInputError>)
    requires
        old(buf)@.len() >= 24,
    ensures
        step < 0 ==> r == Err::<(), UserInputError>(
            UserInputError::MustBePositiveNumber("step request"),
        ) && final(buf)@ == old(buf)@,
        step >= 0 ==> r is Ok && final(buf)@ == put_word(old(buf)@, 2, step as u64),
{
    if step < 0 {
        return Err(UserInputError::MustBePositiveNumber("step request"));
    }
    write_word(buf, 2, step as u64);
    Ok(())
}

/// Prepares a Breakpoint request: on (1) or off (0) in word 2.
pub fn prepare_breakpoint(buf: &mut [u8], is_on: u64) -> (r: Result<(), UserInputError>)
    requires
        old(buf)@.len() >= 24,
    ensures
        !is_switch(is_on) ==> r == Err::<(), UserInputError>(UserInputError::InvalidEventId(is_on))
            && final(buf)@ == old(buf)@,
        is_switch(is_on) ==> r is Ok && final(buf)@ == put_word(old(buf)@, 2, is_on),
{
    let is_on = get_pause_value(is_on)?;
    write_word(buf, 2, is_on);
    Ok(())
}

/// Prepares a BlockTask request: the task in word 2, 1 to block it in word 3.
pub fn prepare_block_task(buf: &mut [u8], state: &AppState, task_id: u64, is_blocked: i64) -> (r:
    Result<(), UserInputError>)
    requires
        old(buf)@.len() >= 32,
    ensures
        !state@.has_task(task_id) ==> r == Err::<(), UserInputError>(
            UserInputError::TaskNotFound(task_id),
        ) && final(buf)@ == old(buf)@,
        state@.has_task(task_id) ==> r is Ok && final(buf)@ == put_word(
            put_word(old(buf)@, 2, task_id),
            3,
            is_blocked as u64,
        ),
{
    let task_id = get_task_id(state, task_id)?;
    write_word(buf, 2, task_id);
    write_word(buf, 3, is_blocked as u64);
    Ok(())
}

/// Prepares a PrioritiseTask request: the task in word 2, its priority in word 3.
pub fn prepare_prioritise_task(buf: &mut [u8], state: &AppState, task_id: u64, priority: i64) -> (r:
    Result<(), UserInputError>)
    requires
        old(buf)@.len() >= 32,
    ensures
        !state@.has_task(task_id) ==> r == Err::<(), UserInputError>(
            UserInputError::TaskNotFound(task_id),
        ) && final(buf)@ == old(buf)@,
        state@.has_task(task_id) ==> r is Ok && final(buf)@ == put_word(
            put_word(old(buf)@, 2, task_id),
            3,
            priority as u64,
        ),
{
    let task_id = get_task_id(state, task_id)?;
    write_word(buf, 2, task_id);
    write_word(buf, 3, priority as u64);
    Ok(())
}

/// Prepares a SetNumThreads request: the number of threads in word 2, which must not be
/// negative.
pub fn prepare_set_num_threads(buf: &mut [u8], n_threads: i64) -> (r: Result<(), UserInputError>)
    requires
        old(buf)@.len() >= 24,
    ensures
        n_threads < 0 ==> r == Err::<(), UserInputError>(
            UserInputError::MustBePositiveNumber("number of threads"),
        ) && final(buf)@ == old(buf)@,
        n_threads >= 0 ==> r is Ok && final(buf)@ == put_word(old(buf)@, 2, n_threads as u64),
{
    if n_threads < 0 {
        return Err(UserInputError::MustBePositiveNumber("number of threads"));
    }
    write_word(buf, 2, n_threads as u64);
    Ok(())
}

/// Prepares a BreakAtTask request: the task in word 2.
pub fn prepare_break_at_task(buf: &mut [u8], state: &AppState, task_id: u64) -> (r: Result<
    (),
    UserInputError,
>)
    requires
        old(buf)@.len() >= 24,
    ensures
        !state@.has_task(task_id) ==> r == Err::<(), UserInputError>(
            UserInputError::TaskNotFound(task_id),
        ) && final(buf)@ == old(buf)@,
        state@.has_task(task_id) ==> r is Ok && final(buf)@ == put_word(old(buf)@, 2, task_id),
{
    let task_id = get_task_id(state, task_id)?;
    write_word(buf, 2, task_id);
    Ok(())
}

/// Prepares an UnbreakAtTask request: the task in word 2.
pub fn prepare_unbreak_at_task(buf: &mut [u8], state: &AppState, task_id: u64) -> (r: Result<
    (),
    UserInputError,
>)
    requires
        old(buf)@.len() >= 24,
    ensures
        !state@.has_task(task_id) ==> r == Err::<(), UserInputError>(
            UserInputError::TaskNotFound(task_id),
        ) && final(buf)@ == old(buf)@,
        state@.has_task(task_id) ==> r is Ok && final(buf)@ == put_word(old(buf)@, 2, task_id),
{
    let task_id = get_task_id(state, task_id)?;
    write_word(buf, 2, task_id);
    Ok(())
}

/// Prepares a Continue request: it has no parameters.
pub fn prepare_continue(buf: &mut [u8]) -> (r: Result<(), UserInputError>)
    ensures
        r is Ok,
        final(buf)@ == old(buf)@,
{
    Ok(())
}

/// Prepares a Break request: it has no parameters.
pub fn prepare_break(buf: &mut [u8]) -> (r: Result<(), UserInputError>)
    ensures
        r is Ok,
        final(buf)@ == old(buf)@,
{
    Ok(())
}

/// Setting a word changes that word and no other.
pub proof fn lemma_put_word(b: Seq<u8>, index: int, w: u64)
    requires
        0 <= index,
        8 * index + 8 <= b.len(),
    ensures
        put_word(b, index, w).len() == b.len(),
        be_word(put_word(b, index, w), 8 * index) == w,
        forall|at: int|
            0 <= at && at + 8 <= b.len() && (at + 8 <= 8 * index || at >= 8 * index + 8)
                ==> #[trigger] be_word(put_word(b, index, w), at) == be_word(b, at),
{
    let p = put_word(b, index, w);
    let e = be_bytes(w);
    assert(p.len() == b.len());
    assert forall|m: int| 0 <= m < 8 implies p[8 * index + m] == #[trigger] e[0 + m] by {}
    lemma_be_word_of_bytes(w);
    lemma_be_word_same_bytes(p, 8 * index, e, 0);
    assert forall|at: int|
        0 <= at && at + 8 <= b.len() && (at + 8 <= 8 * index || at >= 8 * index + 8) implies #[trigger] be_word(
        put_word(b, index, w),
        at,
    ) == be_word(b, at) by {
        assert forall|m: int| 0 <= m < 8 implies p[at + m] == #[trigger] b[at + m] by {}
        lemma_be_word_same_bytes(p, at, b, at);
    }
}

/// Reading back the words of a request frame gives the request's id and the two parameters,
/// all other words are 0, and the id names the request again.
pub proof fn lemma_request_round_trip(request: Request, param1: u64, param2: u64)
    ensures
        request_frame(request, param1, param2).len() == FRAME_LEN,
        words_of(request_frame(request, param1, param2)) == seq![
            0u64,
            request.spec_id(),
            param1,
            param2,
            0u64,
            0u64,
            0u64,
            0u64,
        ],
        request_of(words_of(request_frame(request, param1, param2))[1] as i64) == Ok::<
            Request,
            RequestError,
        >(request),
{
    let z = Seq::new(FRAME_LEN as nat, |i: int| 0u8);
    let b1 = put_word(z, 1, request.spec_id());
    let b2 = put_word(b1, 2, param1);
    let b3 = put_word(b2, 3, param2);
    lemma_be_word_zero(z, 0);
    lemma_be_word_zero(z, 32);
    lemma_be_word_zero(z, 40);
    lemma_be_word_zero(z, 48);
    lemma_be_word_zero(z, 56);
    lemma_put_word(z, 1, request.spec_id());
    lemma_put_word(b1, 2, param1);
    lemma_put_word(b2, 3, param2);
    assert(be_word(b3, 0int) == 0);
    assert(be_word(b3, 8 * 4 as int) == 0);
    assert(be_word(b3, 8 * 5 as int) == 0);
    assert(be_word(b3, 8 * 6 as int) == 0);
    assert(be_word(b3, 8 * 7 as int) == 0);
    assert(be_word(b3, 8 * 1 as int) == request.spec_id());
    assert(be_word(b3, 8 * 2 as int) == param1);
    assert(words_of(b3) =~= seq![0u64, request.spec_id(), param1, param2, 0u64, 0u64, 0u64, 0u64]);
}

} // verus!
