//! The state that a connection shares with its request streams.
//!
//! Waking a task is an effect on the runtime, so the functions here do not perform it: they say
//! which tasks are to be woken, and the caller wakes them. A task is known by a number that the
//! caller gives it.

use bytes::{Bytes, BytesMut};
use vstd::prelude::*;

#[allow(unused_imports)]
use crate::buffer::{buffer_limit, buffered, frozen};
#[allow(unused_imports)]
use crate::config::default_settings;
use crate::config::Settings;
#[allow(unused_imports)]
use crate::qpack::{header_ack, header_acks, law_header_acks_read_back, read_header_acks};
use crate::qpack::{ack_header, Decoded, DecoderError};

verus! {

/// The state that a connection shares with its request streams.
///
/// `E` is what a connection error holds.
pub struct SharedState<E> {
    /// The settings, sent by the peer.
    settings: Option<Settings>,
    /// The connection error.
    connection_error: Option<E>,
    /// The connection is closing.
    closing: bool,
    /// Capacity that the dynamic table of the decoder is made with.
    table_capacity: usize,
    /// Number of entries that the peer's encoder has inserted into the dynamic table.
    total_inserted: usize,
    /// Decoder instructions that have not been sent yet.
    pending_instructions: BytesMut,
    /// Request streams waiting for encoder instructions that have not arrived yet.
    qpack_waiters: Vec<u64>,
}

/// The shared state as contracts speak of it.
#[verifier::ext_equal]
pub struct State<E> {
    /// The settings, sent by the peer.
    pub settings: Option<Settings>,
    /// The connection error.
    pub connection_error: Option<E>,
    /// The connection is closing.
    pub closing: bool,
    /// Capacity that the dynamic table of the decoder is made with.
    pub table_capacity: usize,
    /// Number of entries inserted into the dynamic table.
    pub total_inserted: usize,
    /// Decoder instructions that have not been sent yet.
    pub pending_instructions: Seq<u8>,
    /// Tasks waiting for encoder instructions, each once.
    pub waiters: Seq<u64>,
}

/// The tasks that a step wakes.
#[derive(Debug)]
pub struct Wake {
    /// Waiting request streams.
    pub waiters: Vec<u64>,
    /// Whether the task that drives the connection is woken.
    pub connection: bool,
}

/// Whether something is there yet.
#[derive(Debug)]
pub enum Poll<T> {
    /// It is there.
    Ready(T),
    /// It is not; the task will be woken.
    Pending,
}

/// What the QPACK decoder made of bytes from the peer's encoder stream.
#[derive(Debug)]
pub struct EncoderStep {
    /// The decoder's insert count afterwards.
    pub total_inserted: usize,
    /// Instructions that the decoder wants sent.
    pub instructions: Vec<u8>,
    /// Whether the decoder accepted the bytes.
    pub outcome: Result<(), DecoderError>,
}

/// What can happen to the shared state.
pub enum Event<E> {
    /// The decoder has taken a step.
    Step(EncoderStep),
    /// The field section of a stream was acknowledged.
    Ack(u64),
    /// The pending instructions were taken.
    Take,
    /// A task has asked for a number of insertions: the number and the task.
    Poll(usize, u64),
    /// The waiting tasks were let go.
    Release,
    /// An error was reported.
    Error(E),
    /// Settings of the peer have arrived.
    Settings(Settings),
    /// Closing was announced.
    Closing,
}

impl<E> View for SharedState<E> {
    type V = State<E>;

    closed spec fn view(&self) -> State<E> {
        State {
            settings: self.settings,
            connection_error: self.connection_error,
            closing: self.closing,
            table_capacity: self.table_capacity,
            total_inserted: self.total_inserted,
            pending_instructions: buffered(self.pending_instructions),
            waiters: self.qpack_waiters@,
        }
    }
}

impl<E> State<E> {
    /// No task waits twice, and none waits on a connection that has failed.
    pub open spec fn wf(self) -> bool {
        &&& self.waiters.no_duplicates()
        &&& self.connection_error is Some ==> self.waiters.len() == 0
    }

    /// The state of a new connection.
    pub open spec fn initial(qpack_max_table_capacity: u64) -> State<E> {
        State {
            settings: None,
            connection_error: None,
            closing: false,
            table_capacity: if qpack_max_table_capacity <= usize::MAX {
                qpack_max_table_capacity as usize
            } else {
                usize::MAX
            },
            total_inserted: 0,
            pending_instructions: Seq::empty(),
            waiters: Seq::empty(),
        }
    }

    /// The state after the decoder has taken a step: waiting tasks are let go if the step went
    /// well and inserted something.
    pub open spec fn after_step(self, step: EncoderStep) -> State<E> {
        State {
            total_inserted: step.total_inserted,
            pending_instructions: self.pending_instructions + step.instructions@,
            waiters: if self.step_wakes(step) {
                Seq::empty()
            } else {
                self.waiters
            },
            ..self
        }
    }

    /// The state after the field section of a stream was acknowledged.
    pub open spec fn after_ack(self, stream_id: u64) -> State<E> {
        State {
            pending_instructions: self.pending_instructions + header_ack(stream_id as int),
            ..self
        }
    }

    /// The state after the pending instructions were taken.
    pub open spec fn after_take(self) -> State<E> {
        State { pending_instructions: Seq::empty(), ..self }
    }

    /// The state after the waiting tasks were let go.
    pub open spec fn after_release(self) -> State<E> {
        State { waiters: Seq::empty(), ..self }
    }

    /// The state after settings of the peer have arrived: the first ones stay.
    pub open spec fn after_settings(self, settings: Settings) -> State<E> {
        State {
            settings: match self.settings {
                Some(first) => Some(first),
                None => Some(settings),
            },
            ..self
        }
    }

    /// The state after closing was announced.
    pub open spec fn after_closing(self) -> State<E> {
        State { closing: true, ..self }
    }

    /// Whether a step of the decoder wakes the tasks that wait for it.
    pub open spec fn step_wakes(self, step: EncoderStep) -> bool {
        step.outcome is Ok && step.total_inserted > self.total_inserted
    }

    /// Whether a field section that needs `required` insertions has to wait.
    pub open spec fn must_wait(self, required: usize) -> bool {
        self.connection_error is None && self.total_inserted < required
    }

    /// The state after `task` has asked for `required` insertions.
    pub open spec fn after_poll(self, required: usize, task: u64) -> State<E> {
        if self.must_wait(required) && !self.waiters.contains(task) {
            State { waiters: self.waiters.push(task), ..self }
        } else {
            self
        }
    }

    /// The state after an error was reported: the first one stays, and nobody waits any more.
    pub open spec fn after_error(self, error: E) -> State<E> {
        State {
            connection_error: match self.connection_error {
                Some(first) => Some(first),
                None => Some(error),
            },
            waiters: Seq::empty(),
            ..self
        }
    }

    /// The state after an event.
    pub open spec fn after(self, event: Event<E>) -> State<E> {
        match event {
            Event::Step(step) => self.after_step(step),
            Event::Ack(stream_id) => self.after_ack(stream_id),
            Event::Take => self.after_take(),
            Event::Poll(required, task) => self.after_poll(required, task),
            Event::Release => self.after_release(),
            Event::Error(error) => self.after_error(error),
            Event::Settings(settings) => self.after_settings(settings),
            Event::Closing => self.after_closing(),
        }
    }

    /// The state after a run of events, one after the other.
    pub open spec fn after_all(self, events: Seq<Event<E>>) -> State<E>
        decreases events.len(),
    {
        if events.len() == 0 {
            self
        } else {
            self.after_all(events.drop_last()).after(events.last())
        }
    }

    /// All instructions that are taken in a run of events, in the order in which they are.
    pub open spec fn taken(self, events: Seq<Event<E>>) -> Seq<u8>
        decreases events.len(),
    {
        if events.len() == 0 {
            Seq::empty()
        } else {
            self.taken(events.drop_last()) + match events.last() {
                Event::Take => self.after_all(events.drop_last()).pending_instructions,
                _ => Seq::empty(),
            }
        }
    }

    /// The settings in force: the peer's once they have arrived, the defaults until then.
    pub open spec fn settings_in_force(self) -> Settings {
        match self.settings {
            Some(settings) => settings,
            None => default_settings(),
        }
    }
}

/// All instructions that are queued in a run of events, in the order in which they are.
pub open spec fn queued<E>(events: Seq<Event<E>>) -> Seq<u8>
    decreases events.len(),
{
    if events.len() == 0 {
        Seq::empty()
    } else {
        queued(events.drop_last()) + match events.last() {
            Event::Step(step) => step.instructions@,
            Event::Ack(stream_id) => header_ack(stream_id as int),
            _ => Seq::empty(),
        }
    }
}

impl<E> Default for SharedState<E> {
    fn default() -> (state: Self)
        ensures
            state@ == State::<E>::initial(0),
            state@.wf(),
            state@.table_capacity == 0,
            state@.settings is None,
            state@.connection_error is None,
            !state@.closing,
            state@.total_inserted == 0,
            state@.pending_instructions.len() == 0,
            state@.waiters.len() == 0,
    {
        SharedState::new(0)
    }
}

impl<E> SharedState<E> {
    /// The state of a new connection whose decoder may use a dynamic table of the given capacity.
    pub fn new(qpack_max_table_capacity: u64) -> (state: Self)
        ensures
            state@ == State::<E>::initial(qpack_max_table_capacity),
            state@.wf(),
            qpack_max_table_capacity <= usize::MAX ==> state@.table_capacity
                == qpack_max_table_capacity,
            qpack_max_table_capacity > usize::MAX ==> state@.table_capacity == usize::MAX,
            state@.settings is None,
            state@.connection_error is None,
            !state@.closing,
            state@.total_inserted == 0,
            state@.pending_instructions.len() == 0,
            state@.waiters.len() == 0,
    {
        let table_capacity: usize = match usize::try_from(qpack_max_table_capacity) {
            Ok(capacity) => capacity,
            Err(_) => usize::MAX,
        };
        let state = SharedState {
            settings: None,
            connection_error: None,
            closing: false,
            table_capacity,
            total_inserted: 0,
            pending_instructions: BytesMut::new(),
            qpack_waiters: Vec::new(),
        };
        assert(state@ =~= State::<E>::initial(qpack_max_table_capacity));
        state
    }

    /// Takes over what the decoder made of bytes from the peer's encoder stream. If that inserted
    /// entries, everyone who waits for some is woken, and so is the connection, which may have
    /// instructions to send.
    pub fn process_qpack_encoder(&mut self, step: EncoderStep) -> (result: Result<
        Wake,
        DecoderError,
    >)
        requires
            old(self)@.pending_instructions.len() + step.instructions@.len() <= buffer_limit(),
        ensures
            final(self)@ == old(self)@.after_step(step),
            final(self)@ == (State {
                total_inserted: step.total_inserted,
                pending_instructions: old(self)@.pending_instructions + step.instructions@,
                waiters: if step.outcome is Ok && step.total_inserted > old(self)@.total_inserted {
                    Seq::empty()
                } else {
                    old(self)@.waiters
                },
                ..old(self)@
            }),
            result is Ok <==> step.outcome is Ok,
            result matches Ok(wake) ==> {
                &&& wake.connection <==> step.total_inserted > old(self)@.total_inserted
                &&& step.total_inserted > old(self)@.total_inserted ==> wake.waiters@ == old(
                    self,
                )@.waiters
                &&& step.total_inserted <= old(self)@.total_inserted ==> wake.waiters@.len() == 0
            },
            old(self)@.wf() ==> final(self)@.wf(),
            match step.outcome {
                Err(err) => result is Err && result->Err_0 == err,
                Ok(()) => result is Ok && ({
                    let wake = result->Ok_0;
                    &&& wake.connection == old(self)@.step_wakes(step)
                    &&& wake.waiters@ == if wake.connection {
                        old(self)@.waiters
                    } else {
                        Seq::empty()
                    }
                }),
            },
    {
        let inserted_before: usize = self.total_inserted;
        let inserted_after: usize = step.total_inserted;
        self.total_inserted = inserted_after;
        self.pending_instructions.extend_from_slice(step.instructions.as_slice());
        match step.outcome {
            Err(err) => Err(err),
            Ok(()) => {
                if inserted_after > inserted_before {
                    let woken = self.wake_qpack_waiters();
                    Ok(Wake { waiters: woken.waiters, connection: true })
                } else {
                    Ok(Wake { waiters: Vec::new(), connection: false })
                }
            },
        }
    }

    /// Passes a decoded field section on, unless it is larger than allowed.
    pub fn decode_qpack(
        decoded: Result<Decoded, DecoderError>,
        max_field_section_size: u64,
    ) -> (result: Result<Decoded, DecoderError>)
        ensures
            result == match decoded {
                Err(err) => Err(err),
                Ok(section) => if section.mem_size > max_field_section_size {
                    Err(DecoderError::HeaderTooLong(section.mem_size))
                } else {
                    Ok(section)
                },
            },
    {
        match decoded {
            Err(err) => Err(err),
            Ok(section) => {
                if section.mem_size > max_field_section_size {
                    return Err(DecoderError::HeaderTooLong(section.mem_size));
                }
                Ok(section)
            },
        }
    }

    /// Acknowledges the field section of stream `stream_id`. The connection is to be woken, which
    /// has the instruction to send.
    pub fn queue_qpack_header_ack(&mut self, stream_id: u64) -> (wake: Wake)
        requires
            old(self)@.pending_instructions.len() + 11 <= buffer_limit(),
        ensures
            final(self)@ == old(self)@.after_ack(stream_id),
            final(self)@ == (State {
                pending_instructions: old(self)@.pending_instructions + header_ack(
                    stream_id as int,
                ),
                ..old(self)@
            }),
            wake.connection,
            wake.waiters@.len() == 0,
    {
        let instruction = ack_header(stream_id);
        self.pending_instructions.extend_from_slice(instruction.as_slice());
        Wake { waiters: Vec::new(), connection: true }
    }

    /// Takes the decoder instructions that are to be sent.
    pub fn take_qpack_decoder_instructions(&mut self) -> (instructions: Bytes)
        ensures
            frozen(instructions) == old(self)@.pending_instructions,
            final(self)@ == old(self)@.after_take(),
            final(self)@ == (State { pending_instructions: Seq::empty(), ..old(self)@ }),
    {
        self.pending_instructions.split().freeze()
    }

    /// The decoder's insert count.
    pub fn qpack_total_inserted(&self) -> (count: usize)
        ensures
            count == self@.total_inserted,
    {
        self.total_inserted
    }

    /// The capacity that the dynamic table of the decoder is made with.
    pub fn qpack_table_capacity(&self) -> (capacity: usize)
        ensures
            capacity == self@.table_capacity,
    {
        self.table_capacity
    }

    /// The number of bytes of decoder instructions that have not been sent yet.
    pub fn pending_instructions_len(&self) -> (len: usize)
        ensures
            len == self@.pending_instructions.len(),
    {
        self.pending_instructions.len()
    }

    /// Whether that many more bytes of decoder instructions can be held.
    pub fn has_room_for(&self, additional: usize) -> (yes: bool)
        ensures
            yes == (self@.pending_instructions.len() + additional <= buffer_limit()),
            yes <==> self@.pending_instructions.len() + additional <= isize::MAX as int / 8,
    {
        let len: usize = self.pending_instructions.len();
        len as u128 + additional as u128 <= isize::MAX as u128 / 8
    }

    /// Lets all waiting tasks go. They are to be woken, each once; the connection is not.
    pub fn wake_qpack_waiters(&mut self) -> (wake: Wake)
        ensures
            wake.waiters@ == old(self)@.waiters,
            old(self)@.wf() ==> wake.waiters@.no_duplicates(),
            !wake.connection,
            final(self)@ == old(self)@.after_release(),
            final(self)@ == (State { waiters: Seq::empty(), ..old(self)@ }),
            old(self)@.wf() ==> final(self)@.wf(),
    {
        let mut waiters: Vec<u64> = Vec::new();
        std::mem::swap(&mut waiters, &mut self.qpack_waiters);
        Wake { waiters, connection: false }
    }
}

impl<E: Clone> SharedState<E> {
    /// Asks on behalf of `task` whether `required` entries have been inserted. If not, the task
    /// waits and is woken when more arrive or the connection fails.
    pub fn poll_qpack_insert_count(&mut self, required: usize, task: u64) -> (poll: Poll<
        Result<(), E>,
    >)
        ensures
            final(self)@ == old(self)@.after_poll(required, task),
            poll is Pending <==> old(self)@.connection_error is None && old(self)@.total_inserted
                < required,
            old(self)@.connection_error is None && old(self)@.total_inserted >= required ==> (
            poll matches Poll::Ready(Ok(()))),
            old(self)@.connection_error is Some ==> (poll matches Poll::Ready(Err(err)) && cloned(
                old(self)@.connection_error->0,
                err,
            )),
            poll is Pending && !old(self)@.waiters.contains(task) ==> final(self)@ == (State {
                waiters: old(self)@.waiters.push(task),
                ..old(self)@
            }),
            poll !is Pending || old(self)@.waiters.contains(task) ==> final(self)@ == old(self)@,
            old(self)@.wf() ==> final(self)@.wf(),
            match poll {
                Poll::Pending => old(self)@.must_wait(required),
                Poll::Ready(Ok(())) => old(self)@.connection_error is None
                    && old(self)@.total_inserted >= required,
                Poll::Ready(Err(err)) => old(self)@.connection_error is Some && cloned(
                    old(self)@.connection_error->0,
                    err,
                ),
            },
    {
        if let Some(error) = &self.connection_error {
            return Poll::Ready(Err(error.clone()));
        }
        if self.total_inserted >= required {
            return Poll::Ready(Ok(()));
        }
        let mut i: usize = 0;
        while i < self.qpack_waiters.len()
            invariant
                i <= self.qpack_waiters.len(),
                self@ == old(self)@,
                self@.must_wait(required),
                forall|j: int| 0 <= j < i ==> self@.waiters[j] != task,
            decreases self.qpack_waiters.len() - i,
        {
            if self.qpack_waiters[i] == task {
                assert(self@.waiters[i as int] == task);
                return Poll::Pending;
            }
            i += 1;
        }
        self.qpack_waiters.push(task);
        Poll::Pending
    }
}

/// This trait can be implemented for all types which have a shared state.
pub trait ConnectionState<E: Clone> {
    /// The shared state as contracts speak of it.
    spec fn state(&self) -> State<E>;

    /// Gets the shared state.
    fn shared_state(&self) -> (shared: &SharedState<E>)
        ensures
            shared@ == self.state(),
    ;

    /// Gets the shared state for a change to it.
    fn shared_state_mut(&mut self) -> (shared: &mut SharedState<E>)
        ensures
            shared@ == old(self).state(),
            final(self).state() == final(shared)@,
    ;

    /// Gets the connection error if the connection is in error state because of another task.
    fn get_conn_error(&self) -> (error: Option<E>)
        ensures
            match (self.state().connection_error, error) {
                (Some(set), Some(got)) => cloned(set, got),
                (None, None) => true,
                _ => false,
            },
    {
        match &self.shared_state().connection_error {
            Some(error) => Some(error.clone()),
            None => None,
        }
    }

    /// Tries to set the connection error. Gives the error that is set afterwards, which is the
    /// first one reported, and the waiting tasks, which are to be woken.
    fn set_conn_error(&mut self, error: E) -> (set: (E, Wake))
        ensures
            final(self).state() == old(self).state().after_error(error),
            final(self).state() == (State {
                connection_error: if old(self).state().connection_error is Some {
                    old(self).state().connection_error
                } else {
                    Some(error)
                },
                waiters: Seq::empty(),
                ..old(self).state()
            }),
            old(self).state().wf() ==> final(self).state().wf(),
            cloned(final(self).state().connection_error->0, set.0),
            set.1.waiters@ == old(self).state().waiters,
            !set.1.connection,
    {
        let shared = self.shared_state_mut();
        let set: E = match &shared.connection_error {
            Some(first) => first.clone(),
            None => {
                let set = error.clone();
                shared.connection_error = Some(error);
                set
            },
        };
        (set, shared.wake_qpack_waiters())
    }

    /// Sets the connection error and has the connection woken.
    fn set_conn_error_and_wake<T: Into<E>>(&mut self, error: T) -> (set: (E, Wake))
        ensures
            exists|reported: E| #[trigger]
                call_ensures(<T as Into<E>>::into, (error,), reported) && final(self).state()
                    == old(self).state().after_error(reported) && final(self).state() == (State {
                    connection_error: if old(self).state().connection_error is Some {
                        old(self).state().connection_error
                    } else {
                        Some(reported)
                    },
                    waiters: Seq::empty(),
                    ..old(self).state()
                }),
            old(self).state().wf() ==> final(self).state().wf(),
            cloned(final(self).state().connection_error->0, set.0),
            set.1.waiters@ == old(self).state().waiters,
            set.1.connection,
    {
        let (set, wake) = self.set_conn_error(error.into());
        (set, Wake { waiters: wake.waiters, connection: true })
    }

    /// Gets the settings in force: the peer's, or the initial values until they have arrived.
    fn settings(&self) -> (settings: Settings)
        ensures
            settings == self.state().settings_in_force(),
            self.state().settings matches Some(set) ==> settings == set,
            self.state().settings is None ==> settings == default_settings(),
    {
        match self.shared_state().settings {
            Some(settings) => settings,
            None => Default::default(),
        }
    }

    /// Sets the connection to closing.
    fn set_closing(&mut self)
        ensures
            final(self).state() == old(self).state().after_closing(),
            final(self).state() == (State { closing: true, ..old(self).state() }),
    {
        self.shared_state_mut().closing = true;
    }

    /// Checks if the connection is closing.
    fn is_closing(&self) -> (closing: bool)
        ensures
            closing == self.state().closing,
    {
        self.shared_state().closing
    }

    /// Sets the settings, unless they were set before.
    fn set_settings(&mut self, settings: Settings)
        ensures
            final(self).state() == old(self).state().after_settings(settings),
            old(self).state().settings is Some ==> final(self).state() == old(self).state(),
            old(self).state().settings is None ==> final(self).state() == (State {
                settings: Some(settings),
                ..old(self).state()
            }),
    {
        let shared = self.shared_state_mut();
        if shared.settings.is_none() {
            shared.settings = Some(settings);
        }
    }
}

impl<E: Clone> ConnectionState<E> for SharedState<E> {
    open spec fn state(&self) -> State<E> {
        self@
    }

    fn shared_state(&self) -> (shared: &SharedState<E>) {
        self
    }

    fn shared_state_mut(&mut self) -> (shared: &mut SharedState<E>) {
        self
    }
}

/// Every change of the state keeps its invariant, and a new connection starts with it.
pub proof fn law_invariant_is_kept<E>(
    state: State<E>,
    capacity: u64,
    step: EncoderStep,
    required: usize,
    task: u64,
    error: E,
    stream_id: u64,
    settings: Settings,
)
    requires
        state.wf(),
    ensures
        State::<E>::initial(capacity).wf(),
        state.after_step(step).wf(),
        state.after_poll(required, task).wf(),
        state.after_error(error).wf(),
        state.after_ack(stream_id).wf(),
        state.after_take().wf(),
        state.after_release().wf(),
        state.after_settings(settings).wf(),
        state.after_closing().wf(),
{
}

/// The invariant says that no task waits twice and that nobody waits on a failed connection.
pub proof fn law_meaning_of_the_invariant<E>(state: State<E>)
    ensures
        state.wf() <==> state.waiters.no_duplicates() && (state.connection_error is None
            || state.waiters.len() == 0),
{
}

/// A task has to wait exactly if the connection has not failed and fewer entries are inserted than
/// it needs, whoever else waits and whatever else the state holds. It is then among those waiting,
/// behind the others; otherwise asking changes nothing.
pub proof fn law_only_missing_insertions_make_wait<E>(state: State<E>, required: usize, task: u64)
    ensures
        state.connection_error is None && state.total_inserted >= required ==> !state.must_wait(
            required,
        ) && state.after_poll(required, task) == state,
        state.connection_error is Some ==> !state.must_wait(required) && state.after_poll(
            required,
            task,
        ) == state,
        state.connection_error is None && state.total_inserted < required ==> {
            &&& state.must_wait(required)
            &&& state.waiters.contains(task) ==> state.after_poll(required, task) == state
            &&& !state.waiters.contains(task) ==> state.after_poll(required, task) == (State {
                waiters: state.waiters.push(task),
                ..state
            })
        },
{
}

/// Two tasks that ask at the same time do not get in each other's way: what one is told does not
/// depend on whether the other has asked before.
pub proof fn law_waiting_does_not_hold_others_back<E>(
    state: State<E>,
    other_required: usize,
    other: u64,
    required: usize,
)
    ensures
        state.after_poll(other_required, other).must_wait(required) == state.must_wait(required),
        state.after_poll(other_required, other).must_wait(required) <==> state.connection_error
            is None && state.total_inserted < required,
{
}

/// A step wakes exactly if it went well and the insert count grew, whether or not anybody waits.
/// It then lets everyone go; either way the count and the instructions are taken over and nothing
/// else changes.
pub proof fn law_only_insertions_wake<E>(state: State<E>, step: EncoderStep)
    ensures
        state.step_wakes(step) <==> step.outcome is Ok && step.total_inserted
            > state.total_inserted,
        state.after_step(step) == (State {
            total_inserted: step.total_inserted,
            pending_instructions: state.pending_instructions + step.instructions@,
            waiters: if step.outcome is Ok && step.total_inserted > state.total_inserted {
                Seq::empty()
            } else {
                state.waiters
            },
            ..state
        }),
{
}

/// Every other change touches what it is about and nothing else.
pub proof fn law_changes_touch_nothing_else<E>(
    state: State<E>,
    stream_id: u64,
    error: E,
    settings: Settings,
)
    ensures
        state.after_ack(stream_id) == (State {
            pending_instructions: state.pending_instructions + header_ack(stream_id as int),
            ..state
        }),
        state.after_take() == (State { pending_instructions: Seq::empty(), ..state }),
        state.after_release() == (State { waiters: Seq::empty(), ..state }),
        state.after_closing() == (State { closing: true, ..state }),
        state.settings is None ==> state.after_settings(settings) == (State {
            settings: Some(settings),
            ..state
        }),
        state.settings is Some ==> state.after_settings(settings) == state,
        state.connection_error is None ==> state.after_error(error) == (State {
            connection_error: Some(error),
            waiters: Seq::empty(),
            ..state
        }),
        state.connection_error is Some ==> state.after_error(error) == (State {
            waiters: Seq::empty(),
            ..state
        }),
{
}

/// The first connection error stays: a later report changes nothing.
pub proof fn law_first_error_stays<E>(state: State<E>, first: E, second: E)
    ensures
        state.after_error(first).after_error(second) == state.after_error(first),
        state.connection_error is None ==> state.after_error(first).connection_error == Some(first),
{
    assert(state.after_error(first).after_error(second) =~= state.after_error(first));
}

/// Nothing that happens afterwards clears or changes a connection error.
pub proof fn law_error_is_never_cleared<E>(
    state: State<E>,
    step: EncoderStep,
    required: usize,
    task: u64,
    stream_id: u64,
    settings: Settings,
)
    requires
        state.connection_error is Some,
    ensures
        state.after_step(step).connection_error == state.connection_error,
        state.after_poll(required, task).connection_error == state.connection_error,
        state.after_ack(stream_id).connection_error == state.connection_error,
        state.after_take().connection_error == state.connection_error,
        state.after_release().connection_error == state.connection_error,
        state.after_settings(settings).connection_error == state.connection_error,
        state.after_closing().connection_error == state.connection_error,
{
}

/// Once the connection has failed nobody waits on it any more, whatever they ask for.
pub proof fn law_failed_connection_makes_nobody_wait<E>(
    state: State<E>,
    error: E,
    required: usize,
    task: u64,
)
    ensures
        !state.after_error(error).must_wait(required),
        state.after_error(error).after_poll(required, task).waiters.len() == 0,
{
}

/// A task that was told to wait is woken by the step that brings the insertions it waits for, and
/// finds them there when it asks again.
pub proof fn law_insertions_end_the_wait<E>(
    state: State<E>,
    required: usize,
    task: u64,
    step: EncoderStep,
)
    requires
        state.must_wait(required),
        step.outcome is Ok,
        step.total_inserted >= required,
    ensures
        state.after_poll(required, task).waiters.contains(task),
        state.after_poll(required, task).step_wakes(step),
        !state.after_poll(required, task).after_step(step).must_wait(required),
{
    let asked = state.after_poll(required, task);
    if !state.waiters.contains(task) {
        assert(asked.waiters[state.waiters.len() as int] == task);
    }
}

/// A waiting task is never forgotten: it goes on waiting until a step, an error or a release lets
/// all waiting tasks go, and these are then the ones to be woken.
pub proof fn law_no_waiter_is_forgotten<E>(
    state: State<E>,
    waiting: u64,
    step: EncoderStep,
    required: usize,
    task: u64,
    stream_id: u64,
    settings: Settings,
)
    requires
        state.waiters.contains(waiting),
    ensures
        state.step_wakes(step) || state.after_step(step).waiters.contains(waiting),
        state.after_poll(required, task).waiters.contains(waiting),
        state.after_ack(stream_id).waiters.contains(waiting),
        state.after_take().waiters.contains(waiting),
        state.after_settings(settings).waiters.contains(waiting),
        state.after_closing().waiters.contains(waiting),
{
    let i = state.waiters.index_of(waiting);
    assert(state.after_poll(required, task).waiters[i] == waiting);
}

/// Asking twice on behalf of a task registers it once.
pub proof fn law_polling_twice_waits_once<E>(state: State<E>, required: usize, task: u64)
    ensures
        state.after_poll(required, task).after_poll(required, task) == state.after_poll(
            required,
            task,
        ),
{
    let asked = state.after_poll(required, task);
    if state.must_wait(required) && !state.waiters.contains(task) {
        assert(asked.waiters[state.waiters.len() as int] == task);
    }
}

/// The first settings of the peer stay in force; until they arrive the defaults are.
pub proof fn law_first_settings_stay<E>(state: State<E>, first: Settings, second: Settings)
    requires
        state.settings is None,
    ensures
        state.settings_in_force() == default_settings(),
        state.after_settings(first).settings_in_force() == first,
        state.after_settings(first).after_settings(second) == state.after_settings(first),
{
    assert(state.after_settings(first).after_settings(second) =~= state.after_settings(first));
}

/// Letting go leaves nobody waiting and changes nothing else, so that without a new wait in between
/// a second time lets nobody go. Whoever is let go waited once.
pub proof fn law_release_lets_everyone_go_once<E>(state: State<E>)
    requires
        state.wf(),
    ensures
        state.waiters.no_duplicates(),
        state.after_release().waiters.len() == 0,
        state.after_release().after_release() == state.after_release(),
        state.after_release() == (State { waiters: state.after_release().waiters, ..state }),
{
}

/// Decoder instructions are neither lost, repeated nor reordered: over any run of events, what was
/// taken so far followed by what is pending is what was pending at the start followed by all that
/// was queued, in the order in which it was.
pub proof fn law_instructions_are_sent_in_order<E>(state: State<E>, events: Seq<Event<E>>)
    ensures
        state.taken(events) + state.after_all(events).pending_instructions
            == state.pending_instructions + queued(events),
    decreases events.len(),
{
    if events.len() > 0 {
        let front = events.drop_last();
        law_instructions_are_sent_in_order(state, front);
        let sent = state.taken(front);
        let pending = state.after_all(front).pending_instructions;
        let more = match events.last() {
            Event::Step(step) => step.instructions@,
            Event::Ack(stream_id) => header_ack(stream_id as int),
            _ => Seq::empty(),
        };
        assert(state.taken(events) + state.after_all(events).pending_instructions =~= (sent
            + pending) + more);
        assert((state.pending_instructions + queued(front)) + more =~= state.pending_instructions
            + queued(events));
    } else {
        assert(state.taken(events) + state.pending_instructions =~= state.pending_instructions
            + queued(events));
    }
}

/// Acknowledgments are sent in the order in which they were queued: with nothing else pending,
/// the instructions taken after any number of them read back as the streams in that order.
pub proof fn law_acks_are_sent_in_order<E>(state: State<E>, streams: Seq<u64>)
    requires
        state.pending_instructions.len() == 0,
    ensures
        ({
            let acks = streams.map_values(|stream_id: u64| Event::<E>::Ack(stream_id));
            read_header_acks(state.taken(acks.push(Event::Take))) == Some(
                streams.map_values(|stream_id: u64| stream_id as int),
            )
        }),
{
    let acks = streams.map_values(|stream_id: u64| Event::<E>::Ack(stream_id));
    assert(acks.push(Event::Take).drop_last() =~= acks);
    lemma_acks_queue_up(state, streams);
    law_instructions_are_sent_in_order(state, acks);
    assert(state.taken(acks.push(Event::Take)) =~= header_acks(streams));
    law_header_acks_read_back(streams);
}

/// A run of acknowledgments takes nothing and queues one after the other.
proof fn lemma_acks_queue_up<E>(state: State<E>, streams: Seq<u64>)
    ensures
        ({
            let acks = streams.map_values(|stream_id: u64| Event::<E>::Ack(stream_id));
            state.taken(acks).len() == 0 && queued(acks) == header_acks(streams)
        }),
    decreases streams.len(),
{
    let acks = streams.map_values(|stream_id: u64| Event::<E>::Ack(stream_id));
    if streams.len() > 0 {
        let front = streams.drop_last();
        lemma_acks_queue_up(state, front);
        assert(acks.drop_last() =~= front.map_values(
            |stream_id: u64| Event::<E>::Ack(stream_id),
        ));
        assert(acks.last() == Event::<E>::Ack(streams.last()));
    }
}

/// Over any run of events the invariant is kept, and what is final stays: the first error, the
/// first settings of the peer, and closing once announced.
pub proof fn law_runs_keep_what_is_final<E>(state: State<E>, events: Seq<Event<E>>)
    requires
        state.wf(),
    ensures
        state.after_all(events).wf(),
        state.connection_error is Some ==> state.after_all(events).connection_error
            == state.connection_error,
        state.settings is Some ==> state.after_all(events).settings == state.settings,
        state.closing ==> state.after_all(events).closing,
        state.after_all(events).table_capacity == state.table_capacity,
    decreases events.len(),
{
    if events.len() > 0 {
        law_runs_keep_what_is_final(state, events.drop_last());
    }
}

/// Closing, once announced, is never taken back.
pub proof fn law_closing_is_final<E>(
    state: State<E>,
    step: EncoderStep,
    required: usize,
    task: u64,
    error: E,
    stream_id: u64,
    settings: Settings,
)
    requires
        state.closing,
    ensures
        state.after_step(step).closing,
        state.after_poll(required, task).closing,
        state.after_error(error).closing,
        state.after_ack(stream_id).closing,
        state.after_take().closing,
        state.after_release().closing,
        state.after_settings(settings).closing,
        state.after_closing().closing,
{
}

} // verus!
