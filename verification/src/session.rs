//! One supervised child process: its terminal-emulator state, its bounded
//! queue of pending input, its lazily consumed resize flag, and the model
//! of its three concurrent tasks (child-wait, output-capture and
//! input-delivery). The decisions of those tasks live here as verified
//! transition functions; the blocking reads, writes and waits around them
//! do not.

use crate::emulator::{
    emulator_new, emulator_process, emulator_screen, emulator_set_size, Emulator,
};
use crate::queue::{
    queue_wf, spec_close, spec_pop, spec_submit, InputError, InputQueue, QueueModel,
};
use vstd::prelude::*;

verus! {

/// How many input payloads a session buffers before applying backpressure.
pub const INPUT_CAPACITY: usize = 32;

/// The mathematical content of one session, apart from its opaque emulator
/// state.
pub ghost struct SessionModel {
    /// The session's display label.
    pub name: Seq<char>,
    /// Every chunk of child output fed to the emulator so far, in order.
    pub fed: Seq<u8>,
    /// The pending input payloads.
    pub queue: QueueModel,
    /// The rows the emulator was last sized to.
    pub rows: u16,
    /// The columns the emulator was last sized to.
    pub cols: u16,
    /// Whether the dimensions changed since the emulator was last resized.
    pub needs_resize: bool,
    /// Whether the child-wait task still runs.
    pub child_running: bool,
    /// Whether the output-capture task still runs.
    pub output_live: bool,
    /// Whether the input-delivery task still runs.
    pub input_live: bool,
}

/// A session is well formed when its queue is within capacity and is
/// closed exactly when its input-delivery task is gone.
pub open spec fn session_wf(s: SessionModel) -> bool {
    &&& queue_wf(s.queue)
    &&& (s.input_live <==> !s.queue.closed)
}

/// A fresh session: sized to the given dimensions, all three tasks
/// running, nothing fed, nothing pending.
pub open spec fn spec_session_new(name: Seq<char>, rows: u16, cols: u16) -> SessionModel {
    SessionModel {
        name: name,
        fed: Seq::<u8>::empty(),
        queue: QueueModel {
            items: Seq::<Seq<u8>>::empty(),
            capacity: INPUT_CAPACITY as nat,
            closed: false,
        },
        rows: rows,
        cols: cols,
        needs_resize: false,
        child_running: true,
        output_live: true,
        input_live: true,
    }
}

/// The session after its output-capture task handles one read: a dead task
/// changes nothing; a zero-byte read ends the task; otherwise the chunk is
/// fed to the emulator, whole and in order.
pub open spec fn spec_apply_output(s: SessionModel, bytes: Seq<u8>) -> (SessionModel, bool) {
    if !s.output_live {
        (s, false)
    } else if bytes.len() == 0 {
        (SessionModel { output_live: false, ..s }, false)
    } else {
        (SessionModel { fed: s.fed + bytes, ..s }, true)
    }
}

/// The session after a dimension change is noted: only the flag is set;
/// the emulator itself is untouched until the next render.
pub open spec fn spec_mark_resize(s: SessionModel) -> SessionModel {
    SessionModel { needs_resize: true, ..s }
}

/// The session after its screen is read at the given dimensions: a pending
/// resize is consumed exactly then; otherwise nothing changes.
pub open spec fn spec_rendered(s: SessionModel, rows: u16, cols: u16) -> SessionModel {
    if s.needs_resize {
        SessionModel { rows: rows, cols: cols, needs_resize: false, ..s }
    } else {
        s
    }
}

/// The session after its child exits: the session stays, its screen
/// frozen; nothing else changes.
pub open spec fn spec_child_exit(s: SessionModel) -> SessionModel {
    SessionModel { child_running: false, ..s }
}

/// The session after its input-delivery task fails: the task is gone and
/// the queue is closed, abandoning pending input.
pub open spec fn spec_close_input(s: SessionModel) -> SessionModel {
    SessionModel { input_live: false, queue: spec_close(s.queue), ..s }
}

/// The session after teardown: all three tasks halted and the queue
/// closed, before any resource is released.
pub open spec fn spec_teardown(s: SessionModel) -> SessionModel {
    SessionModel {
        child_running: false,
        output_live: false,
        input_live: false,
        queue: spec_close(s.queue),
        ..s
    }
}

/// No task of the session runs any more.
pub open spec fn torn_down(s: SessionModel) -> bool {
    &&& !s.child_running
    &&& !s.output_live
    &&& !s.input_live
    &&& s.queue.closed
    &&& s.queue.items.len() == 0
}

/// One supervised process: its name, its emulator, its pending input and
/// the liveness of its three tasks.
pub struct ProcessContainer {
    name: String,
    emulator: Emulator,
    fed: Ghost<Seq<u8>>,
    queue: InputQueue,
    rows: u16,
    cols: u16,
    needs_resize: bool,
    child_running: bool,
    output_live: bool,
    input_live: bool,
}

impl View for ProcessContainer {
    type V = SessionModel;

    closed spec fn view(&self) -> SessionModel {
        SessionModel {
            name: self.name@,
            fed: self.fed@,
            queue: self.queue@,
            rows: self.rows,
            cols: self.cols,
            needs_resize: self.needs_resize,
            child_running: self.child_running,
            output_live: self.output_live,
            input_live: self.input_live,
        }
    }
}

impl ProcessContainer {
    /// The emulator state, for saying when it is left untouched; nothing
    /// is known of its contents.
    pub closed spec fn emulator_state(&self) -> Emulator {
        self.emulator
    }

    /// A new session sized to the given dimensions (at least one row and
    /// one column), its emulator fresh and its three tasks considered
    /// running. The caller attaches the real child process and tasks
    /// around it.
    pub fn new(name: String, rows: u16, cols: u16) -> (r: Self)
        requires
            rows >= 1,
            cols >= 1,
        ensures
            r@ == spec_session_new(name@, rows, cols),
            session_wf(r@),
    {
        ProcessContainer {
            name,
            emulator: emulator_new(rows, cols),
            fed: Ghost(Seq::<u8>::empty()),
            queue: InputQueue::new(INPUT_CAPACITY),
            rows,
            cols,
            needs_resize: false,
            child_running: true,
            output_live: true,
            input_live: true,
        }
    }

    /// The session's display label.
    pub fn name(&self) -> (r: &String)
        ensures
            r@ == self@.name,
    {
        &self.name
    }

    /// Queues one input payload for asynchronous delivery to the child;
    /// returns immediately. Refused when the queue is full or closed; the
    /// session is then unchanged, and the condition is recoverable.
    pub fn handle_input(&mut self, input: Vec<u8>) -> (r: Result<(), InputError>)
        requires
            session_wf(old(self)@),
        ensures
            final(self)@ == (SessionModel { queue: spec_submit(old(self)@.queue, input@).0, ..old(
                self,
            )@ }),
            r == spec_submit(old(self)@.queue, input@).1,
            session_wf(final(self)@),
            final(self).emulator_state() == old(self).emulator_state(),
    {
        self.queue.submit(input)
    }

    /// Takes the next payload for the input-delivery task, oldest first.
    pub fn take_input(&mut self) -> (r: Option<Vec<u8>>)
        ensures
            final(self)@ == (SessionModel { queue: spec_pop(old(self)@.queue).0, ..old(self)@ }),
            (r is Some <==> spec_pop(old(self)@.queue).1 is Some),
            r matches Some(payload) ==> spec_pop(old(self)@.queue).1 == Some(payload@),
            session_wf(old(self)@) ==> session_wf(final(self)@),
            final(self).emulator_state() == old(self).emulator_state(),
    {
        self.queue.pop()
    }

    /// Folds one chunk of child output into the emulator, as the
    /// output-capture task does: nothing happens once that task is gone, a
    /// zero-byte read (master closed) ends it, and otherwise the whole
    /// chunk is applied in order under exclusive access.
    pub fn apply_output(&mut self, bytes: &Vec<u8>) -> (applied: bool)
        ensures
            final(self)@ == spec_apply_output(old(self)@, bytes@).0,
            applied == spec_apply_output(old(self)@, bytes@).1,
            !applied ==> final(self).emulator_state() == old(self).emulator_state(),
            !old(self)@.output_live ==> *final(self) == *old(self),
            session_wf(old(self)@) ==> session_wf(final(self)@),
    {
        if !self.output_live {
            false
        } else if bytes.len() == 0 {
            self.output_live = false;
            false
        } else {
            emulator_process(&mut self.emulator, bytes);
            proof {
                self.fed@ = self.fed@ + bytes@;
            }
            true
        }
    }

    /// Notes a dimension change; the emulator is untouched until the next
    /// render.
    pub fn mark_needs_resize(&mut self)
        ensures
            final(self)@ == spec_mark_resize(old(self)@),
            final(self).emulator_state() == old(self).emulator_state(),
            session_wf(old(self)@) ==> session_wf(final(self)@),
    {
        self.needs_resize = true;
    }

    /// A read-only snapshot of the current screen, resizing the emulator
    /// first exactly when a dimension change is pending: the resize is
    /// lazy, at most once per change, and a render without a pending
    /// change leaves the emulator untouched. The dimensions must be at
    /// least one row and one column.
    pub fn current_screen(&mut self, rows: u16, cols: u16) -> (r: vt100::Screen)
        requires
            rows >= 1,
            cols >= 1,
        ensures
            final(self)@ == spec_rendered(old(self)@, rows, cols),
            !old(self)@.needs_resize ==> final(self).emulator_state() == old(
                self,
            ).emulator_state(),
            session_wf(old(self)@) ==> session_wf(final(self)@),
    {
        if self.needs_resize {
            emulator_set_size(&mut self.emulator, rows, cols);
            self.rows = rows;
            self.cols = cols;
            self.needs_resize = false;
        }
        emulator_screen(&self.emulator)
    }

    /// Notes that the child exited: the session stays in place with its
    /// last screen frozen; it is not evicted.
    pub fn note_child_exit(&mut self)
        ensures
            final(self)@ == spec_child_exit(old(self)@),
            final(self).emulator_state() == old(self).emulator_state(),
            session_wf(old(self)@) ==> session_wf(final(self)@),
    {
        self.child_running = false;
    }

    /// Notes that the input-delivery task ended (a write or flush failed):
    /// pending input is abandoned and later submissions are refused.
    pub fn close_input(&mut self)
        ensures
            final(self)@ == spec_close_input(old(self)@),
            final(self).emulator_state() == old(self).emulator_state(),
            session_wf(final(self)@),
    {
        self.input_live = false;
        self.queue.close();
    }

    /// Halts all three tasks and closes the queue, before the emulator or
    /// the terminal handles may be released.
    pub fn teardown(&mut self)
        ensures
            final(self)@ == spec_teardown(old(self)@),
            torn_down(final(self)@),
            final(self).emulator_state() == old(self).emulator_state(),
            session_wf(final(self)@),
    {
        self.child_running = false;
        self.output_live = false;
        self.input_live = false;
        self.queue.close();
    }
}

/// Law: no task of a torn-down session observably touches it again: an
/// output chunk changes nothing, there is no pending input to take, and a
/// new submission is refused as closed.
pub proof fn lemma_teardown_safety(s: SessionModel, bytes: Seq<u8>, payload: Seq<u8>)
    requires
        torn_down(s),
    ensures
        spec_apply_output(s, bytes) == (s, false),
        spec_pop(s.queue) == (s.queue, Option::<Seq<u8>>::None),
        spec_submit(s.queue, payload) == (s.queue, Err::<(), InputError>(InputError::Closed)),
{
}

/// Law: teardown always reaches the torn-down state, whatever the session
/// was doing.
pub proof fn lemma_teardown_halts(s: SessionModel)
    ensures
        torn_down(spec_teardown(s)),
{
}

/// Law: noting the same dimension change twice is the same as noting it
/// once, and the next render consumes it exactly once: after it the flag
/// is clear, and a second render at the same dimensions changes nothing.
pub proof fn lemma_lazy_resize_once(s: SessionModel, rows: u16, cols: u16)
    ensures
        spec_mark_resize(spec_mark_resize(s)) == spec_mark_resize(s),
        !spec_rendered(spec_mark_resize(s), rows, cols).needs_resize,
        spec_rendered(spec_mark_resize(s), rows, cols).rows == rows,
        spec_rendered(spec_mark_resize(s), rows, cols).cols == cols,
        spec_rendered(spec_rendered(spec_mark_resize(s), rows, cols), rows, cols) == spec_rendered(
            spec_mark_resize(s),
            rows,
            cols,
        ),
{
}

} // verus!
