//! Decoding of the event frames sent by the instrumented runtime.
use vstd::prelude::*;
use crate::codec::{be_word, lemma_be_word_same_bytes, read_be_word, words_of, FRAME_LEN};

verus! {

/// An event reported by the runtime, with the payload words that matter for it.
#[derive(Debug, Clone, Copy, PartialEq, Eq, Structural)]
pub enum Event {
    PreInit { rt: u64, pid: u64 },
    Init { n_threads: u64 },
    Finish,
    RegisterFunction { func_id: u64, string_len: usize },
    AddTask { task_id: u64, func_id: u64, priority: u64, scope_id: u64 },
    AddDependency { to_id: u64, from_id: u64, memaddr: u64, orig_memaddr: u64 },
    AddTaskToQueue { task_id: u64, thread_id: u64 },
    PreRunTask { task_id: u64, thread_id: u64 },
    RunTask { task_id: u64 },
    PostRunTask { task_id: u64 },
    RemoveTask { task_id: u64 },
    WaitOn { task_id: u64 },
    Barrier,
}

/// Why a frame could not be decoded.
#[derive(Debug, Clone, Copy, PartialEq, Eq, Structural)]
pub enum EventError {
    InvalidId(u64),
    NotImplemented(EventType),
    EventBufferTooShort(usize),
    BufferUnevenByteBoundary,
}

/// Every event kind of the protocol, in the order of their wire ids.
#[derive(Debug, Clone, Copy, PartialEq, Eq, Structural)]
pub enum EventType {
    Null,
    PreInit,
    Init,
    Finish,
    RegisterFunction,
    AddTask,
    AddHiddenTask,
    AddDependency,
    AddTaskToQueue,
    AddPreSelectTask,
    PreRunTask,
    RunTask,
    PostRunTask,
    RunTaskFailed,
    RemoveTask,
    WaitOn,
    Barrier,
    AddWaitOnTask,
}

/// The event kind that a wire id denotes.
pub open spec fn event_type_of(id: u64) -> Result<EventType, EventError> {
    if id == 0 {
        Ok(EventType::Null)
    } else if id == 1 {
        Ok(EventType::PreInit)
    } else if id == 2 {
        Ok(EventType::Init)
    } else if id == 3 {
        Ok(EventType::Finish)
    } else if id == 4 {
        Ok(EventType::RegisterFunction)
    } else if id == 5 {
        Ok(EventType::AddTask)
    } else if id == 6 {
        Ok(EventType::AddHiddenTask)
    } else if id == 7 {
        Ok(EventType::AddDependency)
    } else if id == 8 {
        Ok(EventType::AddTaskToQueue)
    } else if id == 9 {
        Ok(EventType::AddPreSelectTask)
    } else if id == 10 {
        Ok(EventType::PreRunTask)
    } else if id == 11 {
        Ok(EventType::RunTask)
    } else if id == 12 {
        Ok(EventType::PostRunTask)
    } else if id == 13 {
        Ok(EventType::RunTaskFailed)
    } else if id == 14 {
        Ok(EventType::RemoveTask)
    } else if id == 15 {
        Ok(EventType::WaitOn)
    } else if id == 16 {
        Ok(EventType::Barrier)
    } else if id == 17 {
        Ok(EventType::AddWaitOnTask)
    } else {
        Err(EventError::InvalidId(id))
    }
}

/// The event that the words of a frame describe, once its kind is known.
pub open spec fn event_of_words(t: EventType, w: Seq<u64>) -> Result<Event, EventError> {
    match t {
        EventType::PreInit => Ok(Event::PreInit { rt: w[0], pid: w[1] }),
        EventType::Init => Ok(Event::Init { n_threads: w[3] }),
        EventType::Finish => Ok(Event::Finish),
        EventType::RegisterFunction => Ok(
            Event::RegisterFunction { func_id: w[4], string_len: w[3] as usize },
        ),
        EventType::AddTask => Ok(
            Event::AddTask { task_id: w[1], func_id: w[3], priority: w[4], scope_id: w[6] },
        ),
        EventType::AddDependency => Ok(
            Event::AddDependency { to_id: w[1], from_id: w[3], memaddr: w[4], orig_memaddr: w[5] },
        ),
        EventType::AddTaskToQueue => Ok(Event::AddTaskToQueue { task_id: w[1], thread_id: w[3] }),
        EventType::PreRunTask => Ok(Event::PreRunTask { task_id: w[1], thread_id: w[3] }),
        EventType::RunTask => Ok(Event::RunTask { task_id: w[1] }),
        EventType::PostRunTask => Ok(Event::PostRunTask { task_id: w[1] }),
        EventType::RemoveTask => Ok(Event::RemoveTask { task_id: w[1] }),
        EventType::WaitOn => Ok(Event::WaitOn { task_id: w[1] }),
        EventType::Barrier => Ok(Event::Barrier),
        _ => Err(EventError::NotImplemented(t)),
    }
}

/// What decoding the frame at the start of `b` gives.
pub open spec fn decode_event(b: Seq<u8>) -> Result<Event, EventError> {
    if b.len() < FRAME_LEN {
        Err(EventError::EventBufferTooShort(b.len() as usize))
    } else {
        let w = words_of(b.subrange(0, FRAME_LEN as int));
        match event_type_of(w[2]) {
            Ok(t) => event_of_words(t, w),
            Err(e) => Err(e),
        }
    }
}

/// What decoding only the kind of the frame at the start of `b` gives.
pub open spec fn decode_event_type(b: Seq<u8>) -> Result<EventType, EventError> {
    if b.len() < FRAME_LEN {
        Err(EventError::EventBufferTooShort(b.len() as usize))
    } else {
        event_type_of(be_word(b, 16))
    }
}

impl EventType {
    /// The wire id of this kind.
    pub open spec fn spec_id(&self) -> u64 {
        match self {
            EventType::Null => 0,
            EventType::PreInit => 1,
            EventType::Init => 2,
            EventType::Finish => 3,
            EventType::RegisterFunction => 4,
            EventType::AddTask => 5,
            EventType::AddHiddenTask => 6,
            EventType::AddDependency => 7,
            EventType::AddTaskToQueue => 8,
            EventType::AddPreSelectTask => 9,
            EventType::PreRunTask => 10,
            EventType::RunTask => 11,
            EventType::PostRunTask => 12,
            EventType::RunTaskFailed => 13,
            EventType::RemoveTask => 14,
            EventType::WaitOn => 15,
            EventType::Barrier => 16,
            EventType::AddWaitOnTask => 17,
        }
    }

    /// The wire id of this kind.
    #[verifier::when_used_as_spec(spec_id)]
    pub fn id(&self) -> (r: u64)
        ensures
            r == self.spec_id(),
    {
        match self {
            EventType::Null => 0,
            EventType::PreInit => 1,
            EventType::Init => 2,
            EventType::Finish => 3,
            EventType::RegisterFunction => 4,
            EventType::AddTask => 5,
            EventType::AddHiddenTask => 6,
            EventType::AddDependency => 7,
            EventType::AddTaskToQueue => 8,
            EventType::AddPreSelectTask => 9,
            EventType::PreRunTask => 10,
            EventType::RunTask => 11,
            EventType::PostRunTask => 12,
            EventType::RunTaskFailed => 13,
            EventType::RemoveTask => 14,
            EventType::WaitOn => 15,
            EventType::Barrier => 16,
            EventType::AddWaitOnTask => 17,
        }
    }
}

impl TryFrom<u64> for EventType {
    type Error = EventError;

    fn try_from(event_id: u64) -> (r: Result<Self, Self::Error>) {
        let event = match event_id {
            0 => EventType::Null,
            1 => EventType::PreInit,
            2 => EventType::Init,
            3 => EventType::Finish,
            4 => EventType::RegisterFunction,
            5 => EventType::AddTask,
            6 => EventType::AddHiddenTask,
            7 => EventType::AddDependency,
            8 => EventType::AddTaskToQueue,
            9 => EventType::AddPreSelectTask,
            10 => EventType::PreRunTask,
            11 => EventType::RunTask,
            12 => EventType::PostRunTask,
            13 => EventType::RunTaskFailed,
            14 => EventType::RemoveTask,
            15 => EventType::WaitOn,
            16 => EventType::Barrier,
            17 => EventType::AddWaitOnTask,
            id => return Err(EventError::InvalidId(id)),
        };
        Ok(event)
    }
}

impl vstd::std_specs::convert::TryFromSpecImpl<u64> for EventType {
    open spec fn obeys_try_from_spec() -> bool {
        true
    }

    open spec fn try_from_spec(v: u64) -> Result<Self, Self::Error> {
        event_type_of(v)
    }
}

/// Splits `buf` into big-endian 64-bit words.
pub fn u8_buf_to_u64_buf(buf: &[u8]) -> (r: Result<Vec<u64>, EventError>)
    ensures
        buf@.len() % 8 != 0 ==> r == Err::<Vec<u64>, EventError>(
            EventError::BufferUnevenByteBoundary,
        ),
        buf@.len() % 8 == 0 ==> r is Ok && r->Ok_0@ == words_of(buf@),
{
    if buf.len() % 8 != 0 {
        return Err(EventError::BufferUnevenByteBoundary);
    }
    let mut u64_buf: Vec<u64> = Vec::new();
    let mut i: usize = 0;
    while i < buf.len()
        invariant
            buf@.len() % 8 == 0,
            i % 8 == 0,
            i <= buf@.len(),
            u64_buf@ =~= words_of(buf@).take((i / 8) as int),
        decreases buf@.len() - i,
    {
        let w = read_be_word(buf, i);
        u64_buf.push(w);
        i = i + 8;
    }
    Ok(u64_buf)
}

impl<'a> TryFrom<&'a [u8]> for Event {
    type Error = EventError;

    fn try_from(buf: &'a [u8]) -> (r: Result<Self, Self::Error>) {
        if buf.len() < FRAME_LEN {
            return Err(EventError::EventBufferTooShort(buf.len()));
        }
        let u64_buf = u8_buf_to_u64_buf(&buf[0..FRAME_LEN])?;
        // the first three words have the same role in every event
        let rt = u64_buf[0];
        let task_id = u64_buf[1];
        let event_id = u64_buf[2];
        let event = match EventType::try_from(event_id)? {
            // a PreInit event carries the process id where the others carry a task id
            EventType::PreInit => Event::PreInit { rt, pid: task_id },
            EventType::Init => Event::Init { n_threads: u64_buf[3] },
            EventType::AddTask => Event::AddTask {
                task_id,
                func_id: u64_buf[3],
                priority: u64_buf[4],
                scope_id: u64_buf[6],
            },
            // the name follows in a frame of its own, `string_len` bytes long
            EventType::RegisterFunction => Event::RegisterFunction {
                func_id: u64_buf[4],
                string_len: u64_buf[3] as usize,
            },
            EventType::AddDependency => Event::AddDependency {
                to_id: task_id,
                from_id: u64_buf[3],
                memaddr: u64_buf[4],
                orig_memaddr: u64_buf[5],
            },
            EventType::AddTaskToQueue => Event::AddTaskToQueue { task_id, thread_id: u64_buf[3] },
            EventType::PreRunTask => Event::PreRunTask { task_id, thread_id: u64_buf[3] },
            EventType::RunTask => Event::RunTask { task_id },
            EventType::PostRunTask => Event::PostRunTask { task_id },
            EventType::RemoveTask => Event::RemoveTask { task_id },
            EventType::Barrier => Event::Barrier,
            EventType::WaitOn => Event::WaitOn { task_id },
            EventType::Finish => Event::Finish,
            e_type => return Err(EventError::NotImplemented(e_type)),
        };
        Ok(event)
    }
}

impl<'a> vstd::std_specs::convert::TryFromSpecImpl<&'a [u8]> for Event {
    open spec fn obeys_try_from_spec() -> bool {
        true
    }

    open spec fn try_from_spec(v: &'a [u8]) -> Result<Self, Self::Error> {
        decode_event(v@)
    }
}

impl<'a> TryFrom<&'a [u8]> for EventType {
    type Error = EventError;

    fn try_from(buf: &'a [u8]) -> (r: Result<Self, Self::Error>) {
        if buf.len() < FRAME_LEN {
            return Err(EventError::EventBufferTooShort(buf.len()));
        }
        let id = read_be_word(buf, 16);
        EventType::try_from(id)
    }
}

impl<'a> vstd::std_specs::convert::TryFromSpecImpl<&'a [u8]> for EventType {
    open spec fn obeys_try_from_spec() -> bool {
        true
    }

    open spec fn try_from_spec(v: &'a [u8]) -> Result<Self, Self::Error> {
        decode_event_type(v@)
    }
}

/// A buffer shorter than a frame is refused as too short, whatever it holds.
pub proof fn lemma_short_buffer_rejected(b: Seq<u8>)
    requires
        b.len() < FRAME_LEN,
    ensures
        decode_event(b) == Err::<Event, EventError>(EventError::EventBufferTooShort(b.len() as usize)),
        decode_event_type(b) == Err::<EventType, EventError>(
            EventError::EventBufferTooShort(b.len() as usize),
        ),
{
}

/// The words of a frame are the words at the start of the buffer it was read from.
pub proof fn lemma_frame_words(b: Seq<u8>, k: int)
    requires
        b.len() >= FRAME_LEN,
        0 <= k < 8,
    ensures
        words_of(b.subrange(0, FRAME_LEN as int))[k] == be_word(b, 8 * k),
{
    let f = b.subrange(0, FRAME_LEN as int);
    assert forall|m: int| 0 <= m < 8 implies f[8 * k + m] == #[trigger] b[8 * k + m] by {}
    lemma_be_word_same_bytes(f, 8 * k, b, 8 * k);
}

/// An AddTask event takes its task id from word 1, its function from word 3, its priority from
/// word 4 and its scope from word 6 of the frame.
pub proof fn lemma_add_task_fields(b: Seq<u8>)
    requires
        decode_event(b) is Ok,
        decode_event(b)->Ok_0 is AddTask,
    ensures
        decode_event(b)->Ok_0->AddTask_task_id == be_word(b, 8),
        decode_event(b)->Ok_0->AddTask_func_id == be_word(b, 24),
        decode_event(b)->Ok_0->AddTask_priority == be_word(b, 32),
        decode_event(b)->Ok_0->AddTask_scope_id == be_word(b, 48),
{
    lemma_frame_words(b, 1);
    lemma_frame_words(b, 2);
    lemma_frame_words(b, 3);
    lemma_frame_words(b, 4);
    lemma_frame_words(b, 6);
}

/// Reads the timestamp in the last eight bytes of `buf`, in nanoseconds.
pub fn get_timestamp(buf: &[u8]) -> (r: Option<u64>)
    ensures
        buf@.len() < 8 ==> r is None,
        buf@.len() >= 8 ==> r == Some(be_word(buf@, buf@.len() - 8)),
{
    if buf.len() < 8 {
        return None;
    }
    Some(read_be_word(buf, buf.len() - 8))
}

} // verus!
