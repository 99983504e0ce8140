//! The supervisor: a focus-tracked collection of sessions plus the current
//! terminal dimensions. Keystrokes go to the focused session only; a
//! dimension change marks every session for a lazy resize; screens are
//! read per session, in insertion order, independent of the focus.

use crate::emulator::Emulator;
use crate::input::{utf8_encode, KeyPress, Step, TermEvent};
use crate::list::{next_focus, prev_focus, List};
use crate::queue::{spec_pop, spec_submit, InputError};
use crate::session::{
    session_wf, spec_apply_output, spec_child_exit, spec_close_input, spec_mark_resize,
    spec_rendered, spec_session_new, spec_teardown, torn_down, ProcessContainer, SessionModel,
};
use vstd::prelude::*;

verus! {

/// The mathematical content of the supervisor.
pub ghost struct GroupModel {
    /// The sessions, in insertion order.
    pub sessions: Seq<SessionModel>,
    /// The index of the focused session.
    pub focus: int,
    /// The rows every session is to measure.
    pub rows: u16,
    /// The columns every session is to measure.
    pub cols: u16,
}

/// The models of a sequence of sessions.
pub open spec fn models_of(cs: Seq<ProcessContainer>) -> Seq<SessionModel> {
    cs.map_values(|c: ProcessContainer| c@)
}

/// A group is well formed when its dimensions are at least one row and
/// one column, its focus is valid, every session is well formed, and
/// every session without a pending resize measures exactly the group's
/// dimensions.
pub open spec fn group_wf(g: GroupModel) -> bool {
    &&& g.rows >= 1
    &&& g.cols >= 1
    &&& if g.sessions.len() == 0 {
        g.focus == 0
    } else {
        0 <= g.focus < g.sessions.len()
    }
    &&& forall|i: int| 0 <= i < g.sessions.len() ==> session_wf(#[trigger] g.sessions[i])
    &&& forall|i: int|
        0 <= i < g.sessions.len() && !(#[trigger] g.sessions[i]).needs_resize ==> g.sessions[i].rows
            == g.rows && g.sessions[i].cols == g.cols
}

/// The group after a session is added: a fresh session at the group's
/// dimensions is appended; the focus does not move.
pub open spec fn spec_add(g: GroupModel, name: Seq<char>) -> GroupModel {
    GroupModel { sessions: g.sessions.push(spec_session_new(name, g.rows, g.cols)), ..g }
}

/// The group after the focus moves one session forward; a no-op with no
/// sessions.
pub open spec fn spec_focus_next(g: GroupModel) -> GroupModel {
    if g.sessions.len() == 0 {
        g
    } else {
        GroupModel { focus: next_focus(g.focus, g.sessions.len() as int), ..g }
    }
}

/// The group after the focus moves one session backward; a no-op with no
/// sessions.
pub open spec fn spec_focus_prev(g: GroupModel) -> GroupModel {
    if g.sessions.len() == 0 {
        g
    } else {
        GroupModel { focus: prev_focus(g.focus, g.sessions.len() as int), ..g }
    }
}

/// The group and result after a payload is delivered: it is submitted to
/// the focused session's queue and to no other session.
pub open spec fn spec_deliver(g: GroupModel, bytes: Seq<u8>) -> (GroupModel, Result<
    (),
    InputError,
>)
    recommends
        g.sessions.len() > 0,
{
    let s = g.sessions[g.focus];
    (
        GroupModel {
            sessions: g.sessions.update(
                g.focus,
                SessionModel { queue: spec_submit(s.queue, bytes).0, ..s },
            ),
            ..g
        },
        spec_submit(s.queue, bytes).1,
    )
}

/// Delivery as the event loop sees it: with no session the payload is
/// dropped, and a refused submission leaves the group unchanged anyway.
pub open spec fn spec_deliver_or_drop(g: GroupModel, bytes: Seq<u8>) -> GroupModel {
    if g.sessions.len() == 0 {
        g
    } else {
        spec_deliver(g, bytes).0
    }
}

/// The group after a dimension change: the new dimensions are recorded and
/// every session (not only the focused one) is marked for a lazy resize.
pub open spec fn spec_resize(g: GroupModel, rows: u16, cols: u16) -> GroupModel {
    GroupModel {
        sessions: g.sessions.map_values(|s: SessionModel| spec_mark_resize(s)),
        focus: g.focus,
        rows: rows,
        cols: cols,
    }
}

/// The group after the screen of session `i` is read: that session
/// consumes its pending resize, if any, at the group's dimensions.
pub open spec fn spec_render_at(g: GroupModel, i: int) -> GroupModel {
    GroupModel {
        sessions: g.sessions.update(i, spec_rendered(g.sessions[i], g.rows, g.cols)),
        ..g
    }
}

/// The group with session `i` replaced.
pub open spec fn spec_update_at(g: GroupModel, i: int, s: SessionModel) -> GroupModel {
    GroupModel { sessions: g.sessions.update(i, s), ..g }
}

/// The group after teardown: every session has its tasks halted and its
/// queue closed.
pub open spec fn spec_teardown_group(g: GroupModel) -> GroupModel {
    GroupModel { sessions: g.sessions.map_values(|s: SessionModel| spec_teardown(s)), ..g }
}

/// Whether a character key, with or without Control, quits the supervisor.
pub open spec fn quit_key(c: char, ctrl: bool) -> bool {
    c == 'q' || (c == 'c' && ctrl)
}

/// The group and step after one external event: `q` or Ctrl-C quits;
/// other character keys, Enter, Backspace and the vertical arrows forward
/// bytes to the focused session; the horizontal arrows move the focus; a
/// resize propagates the new dimensions to every session.
pub open spec fn spec_handle_event(g: GroupModel, ev: TermEvent) -> (GroupModel, Step) {
    match ev {
        TermEvent::Key(k) => match k {
            KeyPress::Char(c, ctrl) => if quit_key(c, ctrl) {
                (g, Step::Quit)
            } else {
                (spec_deliver_or_drop(g, utf8_encode(c)), Step::Continue)
            },
            KeyPress::Enter => (spec_deliver_or_drop(g, seq![10u8]), Step::Continue),
            KeyPress::Backspace => (spec_deliver_or_drop(g, seq![8u8]), Step::Continue),
            KeyPress::Left => (spec_focus_prev(g), Step::Continue),
            KeyPress::Right => (spec_focus_next(g), Step::Continue),
            KeyPress::Up => (spec_deliver_or_drop(g, seq![27u8, 91u8, 65u8]), Step::Continue),
            KeyPress::Down => (spec_deliver_or_drop(g, seq![27u8, 91u8, 66u8]), Step::Continue),
        },
        TermEvent::Resize(rows, cols) => (spec_resize(g, rows, cols), Step::Continue),
    }
}

/// The supervisor: the sessions under a focus cursor, and the terminal
/// dimensions that apply to every one of them.
pub struct ProcessGroup {
    blocks: List<ProcessContainer>,
    rows: u16,
    cols: u16,
}

impl View for ProcessGroup {
    type V = GroupModel;

    closed spec fn view(&self) -> GroupModel {
        GroupModel {
            sessions: models_of(self.blocks@),
            focus: self.blocks.focus(),
            rows: self.rows,
            cols: self.cols,
        }
    }
}

impl ProcessGroup {
    /// The opaque emulator states of the sessions, in order; used only to
    /// say when they are left untouched.
    pub closed spec fn emulators(&self) -> Seq<Emulator> {
        self.blocks@.map_values(|c: ProcessContainer| c.emulator_state())
    }

    /// An empty supervisor at the given dimensions (at least one row and
    /// one column).
    pub fn new(rows: u16, cols: u16) -> (r: Self)
        requires
            rows >= 1,
            cols >= 1,
        ensures
            r@ == (GroupModel { sessions: Seq::<SessionModel>::empty(), focus: 0, rows, cols }),
            group_wf(r@),
    {
        let r = ProcessGroup { blocks: List::new(), rows, cols };
        proof {
            assert(r@.sessions =~~= Seq::<SessionModel>::empty());
        }
        r
    }

    /// How many sessions the group holds.
    pub fn len(&self) -> (n: usize)
        ensures
            n as int == self@.sessions.len(),
    {
        self.blocks.iter().len()
    }

    /// The index of the focused session.
    pub fn focus_index(&self) -> (i: usize)
        ensures
            i as int == self@.focus,
    {
        self.blocks.focus_index()
    }

    /// The name of session `index`, in insertion order.
    pub fn name_at(&self, index: usize) -> (r: Option<&String>)
        ensures
            index < self@.sessions.len() ==> (r matches Some(name)
                && name@ == self@.sessions[index as int].name),
            index >= self@.sessions.len() ==> r is None,
    {
        match self.blocks.get(index) {
            Some(c) => Some(c.name()),
            None => None,
        }
    }

    /// Appends a new session at the group's current dimensions; addition
    /// order determines presentation order, and the focus does not move.
    /// The caller attaches the real child process around the new session.
    pub fn add(&mut self, name: String)
        requires
            group_wf(old(self)@),
            old(self)@.sessions.len() < usize::MAX,
        ensures
            final(self)@ == spec_add(old(self)@, name@),
            group_wf(final(self)@),
            final(self).emulators().len() == old(self).emulators().len() + 1,
            forall|i: int|
                0 <= i < old(self)@.sessions.len() ==> final(self).emulators()[i] == old(
                    self,
                ).emulators()[i],
    {
        let ghost b0 = self.blocks@;
        let rows = self.rows;
        let cols = self.cols;
        let session = ProcessContainer::new(name, rows, cols);
        self.blocks.add(session);
        proof {
            assert(models_of(self.blocks@) =~= models_of(b0).push(session@));
            assert(self.blocks@.map_values(|c: ProcessContainer| c.emulator_state()) =~= b0
                .map_values(|c: ProcessContainer| c.emulator_state()).push(
                session.emulator_state(),
            ));
        }
    }

    /// Moves the focus one session forward, wrapping around; a no-op with
    /// no sessions. Sessions themselves are untouched.
    pub fn next(&mut self)
        requires
            group_wf(old(self)@),
        ensures
            final(self)@ == spec_focus_next(old(self)@),
            group_wf(final(self)@),
            final(self).emulators() == old(self).emulators(),
    {
        self.blocks.next();
    }

    /// Moves the focus one session backward, wrapping around; a no-op with
    /// no sessions. Sessions themselves are untouched.
    pub fn prev(&mut self)
        requires
            group_wf(old(self)@),
        ensures
            final(self)@ == spec_focus_prev(old(self)@),
            group_wf(final(self)@),
            final(self).emulators() == old(self).emulators(),
    {
        self.blocks.prev();
    }

    /// Submits a payload to the focused session's queue and to no other
    /// session; a refusal (full or closed) leaves the group unchanged and
    /// is recoverable.
    pub fn handle_input(&mut self, input: Vec<u8>) -> (r: Result<(), InputError>)
        requires
            group_wf(old(self)@),
            old(self)@.sessions.len() > 0,
        ensures
            final(self)@ == spec_deliver(old(self)@, input@).0,
            r == spec_deliver(old(self)@, input@).1,
            group_wf(final(self)@),
            final(self).emulators() == old(self).emulators(),
    {
        let ghost b0 = self.blocks@;
        let ghost f = self.blocks.focus();
        let c = self.blocks.focused_mut();
        let r = c.handle_input(input);
        proof {
            assert(models_of(self.blocks@) =~= models_of(b0).update(
                f,
                self.blocks@[f]@,
            ));
            assert(self.blocks@.map_values(|c: ProcessContainer| c.emulator_state()) =~= b0
                .map_values(|c: ProcessContainer| c.emulator_state()));
            assert(final(self)@.sessions =~= spec_deliver(old(self)@, input@).0.sessions);
        }
        r
    }

    /// Delivery as the event loop uses it: with no session the payload is
    /// dropped, and a refused submission is dropped too.
    pub fn deliver_input(&mut self, input: Vec<u8>)
        requires
            group_wf(old(self)@),
        ensures
            final(self)@ == spec_deliver_or_drop(old(self)@, input@),
            group_wf(final(self)@),
            final(self).emulators() == old(self).emulators(),
    {
        if self.len() > 0 {
            let _ = self.handle_input(input);
        }
    }

    /// Records the new dimensions (at least one row and one column) and
    /// marks every session (not only the focused one) for a lazy resize
    /// at its next render.
    pub fn resize(&mut self, rows: u16, cols: u16)
        requires
            group_wf(old(self)@),
            rows >= 1,
            cols >= 1,
        ensures
            final(self)@ == spec_resize(old(self)@, rows, cols),
            group_wf(final(self)@),
            final(self).emulators() == old(self).emulators(),
    {
        self.rows = rows;
        self.cols = cols;
        let mut i: usize = 0;
        let n = self.blocks.iter().len();
        while i < n
            invariant
                0 <= i <= n,
                n as int == self.blocks@.len(),
                self.blocks@.len() == old(self).blocks@.len(),
                self.blocks.focus() == old(self).blocks.focus(),
                self.rows == rows,
                self.cols == cols,
                forall|j: int|
                    0 <= j < i ==> (#[trigger] self.blocks@[j])@ == spec_mark_resize(
                        old(self).blocks@[j]@,
                    ) && self.blocks@[j].emulator_state() == old(self).blocks@[j].emulator_state(),
                forall|j: int| i <= j < n ==> #[trigger] self.blocks@[j] == old(self).blocks@[j],
            decreases n - i,
        {
            match self.blocks.get_mut(i) {
                Some(c) => {
                    c.mark_needs_resize();
                },
                None => {
                    proof {
                        assert(false);
                    }
                },
            }
            i = i + 1;
        }
        proof {
            assert(models_of(self.blocks@) =~= spec_resize(old(self)@, rows, cols).sessions);
            assert(self.blocks@.map_values(|c: ProcessContainer| c.emulator_state()) =~= old(
                self,
            ).blocks@.map_values(|c: ProcessContainer| c.emulator_state()));
        }
    }

    /// A read-only snapshot of session `index`'s screen, in insertion
    /// order and independent of the focus. A pending resize is consumed
    /// first, at the group's dimensions; without one the emulator is left
    /// untouched. Past the end there is nothing to read.
    pub fn current_screen(&mut self, index: usize) -> (r: Option<vt100::Screen>)
        requires
            group_wf(old(self)@),
        ensures
            index < old(self)@.sessions.len() ==> (r is Some && final(self)@ == spec_render_at(
                old(self)@,
                index as int,
            )),
            index >= old(self)@.sessions.len() ==> (r is None && final(self)@ == old(self)@
                && final(self).emulators() == old(self).emulators()),
            group_wf(final(self)@),
            final(self).emulators().len() == old(self).emulators().len(),
            forall|j: int|
                0 <= j < old(self)@.sessions.len() && j != index ==> final(self).emulators()[j]
                    == old(self).emulators()[j],
            index < old(self)@.sessions.len() && !old(self)@.sessions[index as int].needs_resize
                ==> final(self).emulators() == old(self).emulators(),
    {
        let rows = self.rows;
        let cols = self.cols;
        let ghost b0 = self.blocks@;
        match self.blocks.get_mut(index) {
            Some(c) => {
                let screen = c.current_screen(rows, cols);
                proof {
                    assert(models_of(self.blocks@) =~= spec_render_at(
                        old(self)@,
                        index as int,
                    ).sessions);
                    assert(self.blocks@.map_values(|c: ProcessContainer| c.emulator_state())
                        =~= b0.map_values(|c: ProcessContainer| c.emulator_state()).update(
                        index as int,
                        self.blocks@[index as int].emulator_state(),
                    ));
                    if !old(self)@.sessions[index as int].needs_resize {
                        assert(self.blocks@.map_values(|c: ProcessContainer| c.emulator_state())
                            =~= b0.map_values(|c: ProcessContainer| c.emulator_state()));
                    }
                }
                Some(screen)
            },
            None => {
                proof {
                    assert(self.blocks@ =~= b0);
                    assert(final(self)@.sessions =~= old(self)@.sessions);
                }
                None
            },
        }
    }

    /// Takes the next pending payload of session `index`, oldest first,
    /// for its input-delivery task. Past the end there is nothing to take.
    pub fn take_input_at(&mut self, index: usize) -> (r: Option<Vec<u8>>)
        requires
            group_wf(old(self)@),
        ensures
            index < old(self)@.sessions.len() ==> {
                let s = old(self)@.sessions[index as int];
                &&& final(self)@ == spec_update_at(
                    old(self)@,
                    index as int,
                    SessionModel { queue: spec_pop(s.queue).0, ..s },
                )
                &&& (r is Some <==> spec_pop(s.queue).1 is Some)
                &&& (r matches Some(payload) ==> spec_pop(s.queue).1 == Some(payload@))
            },
            index >= old(self)@.sessions.len() ==> (r is None && final(self)@ == old(self)@),
            group_wf(final(self)@),
            final(self).emulators() == old(self).emulators(),
    {
        let ghost b0 = self.blocks@;
        match self.blocks.get_mut(index) {
            Some(c) => {
                let r = c.take_input();
                proof {
                    assert(models_of(self.blocks@) =~= old(self)@.sessions.update(
                        index as int,
                        self.blocks@[index as int]@,
                    ));
                    assert(self.blocks@.map_values(|c: ProcessContainer| c.emulator_state())
                        =~= b0.map_values(|c: ProcessContainer| c.emulator_state()));
                }
                r
            },
            None => {
                proof {
                    assert(self.blocks@ =~= b0);
                    assert(final(self)@.sessions =~= old(self)@.sessions);
                }
                None
            },
        }
    }

    /// Folds one chunk of child output into session `index`'s emulator, as
    /// its output-capture task does; reports whether the chunk was
    /// applied. Past the end, or once the task is gone, nothing happens.
    pub fn apply_output_at(&mut self, index: usize, bytes: &Vec<u8>) -> (applied: bool)
        requires
            group_wf(old(self)@),
        ensures
            index < old(self)@.sessions.len() ==> {
                let s = old(self)@.sessions[index as int];
                &&& final(self)@ == spec_update_at(
                    old(self)@,
                    index as int,
                    spec_apply_output(s, bytes@).0,
                )
                &&& applied == spec_apply_output(s, bytes@).1
            },
            index >= old(self)@.sessions.len() ==> (!applied && final(self)@ == old(self)@),
            group_wf(final(self)@),
            final(self).emulators().len() == old(self).emulators().len(),
            forall|j: int|
                0 <= j < old(self)@.sessions.len() && j != index ==> final(self).emulators()[j]
                    == old(self).emulators()[j],
            !applied ==> final(self).emulators() == old(self).emulators(),
    {
        let ghost b0 = self.blocks@;
        match self.blocks.get_mut(index) {
            Some(c) => {
                let applied = c.apply_output(bytes);
                proof {
                    assert(models_of(self.blocks@) =~= old(self)@.sessions.update(
                        index as int,
                        self.blocks@[index as int]@,
                    ));
                    assert(self.blocks@.map_values(|c: ProcessContainer| c.emulator_state())
                        =~= b0.map_values(|c: ProcessContainer| c.emulator_state()).update(
                        index as int,
                        self.blocks@[index as int].emulator_state(),
                    ));
                    if !applied {
                        assert(self.blocks@.map_values(|c: ProcessContainer| c.emulator_state())
                            =~= b0.map_values(|c: ProcessContainer| c.emulator_state()));
                    }
                }
                applied
            },
            None => {
                proof {
                    assert(self.blocks@ =~= b0);
                    assert(final(self)@.sessions =~= old(self)@.sessions);
                }
                false
            },
        }
    }

    /// Notes that session `index`'s child exited: the session stays, its
    /// screen frozen; it is not evicted from the group.
    pub fn note_child_exit_at(&mut self, index: usize)
        requires
            group_wf(old(self)@),
        ensures
            index < old(self)@.sessions.len() ==> final(self)@ == spec_update_at(
                old(self)@,
                index as int,
                spec_child_exit(old(self)@.sessions[index as int]),
            ),
            index >= old(self)@.sessions.len() ==> final(self)@ == old(self)@,
            group_wf(final(self)@),
            final(self).emulators() == old(self).emulators(),
    {
        let ghost b0 = self.blocks@;
        match self.blocks.get_mut(index) {
            Some(c) => {
                c.note_child_exit();
                proof {
                    assert(models_of(self.blocks@) =~= old(self)@.sessions.update(
                        index as int,
                        self.blocks@[index as int]@,
                    ));
                    assert(self.blocks@.map_values(|c: ProcessContainer| c.emulator_state())
                        =~= b0.map_values(|c: ProcessContainer| c.emulator_state()));
                }
            },
            None => {
                proof {
                    assert(self.blocks@ =~= b0);
                    assert(final(self)@.sessions =~= old(self)@.sessions);
                }
            },
        }
    }

    /// Notes that session `index`'s input-delivery task ended: pending
    /// input is abandoned and later submissions to it are refused.
    pub fn close_input_at(&mut self, index: usize)
        requires
            group_wf(old(self)@),
        ensures
            index < old(self)@.sessions.len() ==> final(self)@ == spec_update_at(
                old(self)@,
                index as int,
                spec_close_input(old(self)@.sessions[index as int]),
            ),
            index >= old(self)@.sessions.len() ==> final(self)@ == old(self)@,
            group_wf(final(self)@),
            final(self).emulators() == old(self).emulators(),
    {
        let ghost b0 = self.blocks@;
        match self.blocks.get_mut(index) {
            Some(c) => {
                c.close_input();
                proof {
                    assert(models_of(self.blocks@) =~= old(self)@.sessions.update(
                        index as int,
                        self.blocks@[index as int]@,
                    ));
                    assert(self.blocks@.map_values(|c: ProcessContainer| c.emulator_state())
                        =~= b0.map_values(|c: ProcessContainer| c.emulator_state()));
                }
            },
            None => {
                proof {
                    assert(self.blocks@ =~= b0);
                    assert(final(self)@.sessions =~= old(self)@.sessions);
                }
            },
        }
    }

    /// Reacts to one external event, as the event loop's single decision
    /// point; a refused or targetless delivery is dropped, never fatal. A
    /// reported resize must measure at least one row and one column.
    pub fn handle_event(&mut self, ev: TermEvent) -> (step: Step)
        requires
            group_wf(old(self)@),
            ev matches TermEvent::Resize(rows, cols) ==> rows >= 1 && cols >= 1,
        ensures
            final(self)@ == spec_handle_event(old(self)@, ev).0,
            step == spec_handle_event(old(self)@, ev).1,
            group_wf(final(self)@),
            final(self).emulators() == old(self).emulators(),
    {
        match ev {
            TermEvent::Key(k) => match k {
                KeyPress::Char(c, ctrl) => {
                    if c == 'q' || (c == 'c' && ctrl) {
                        Step::Quit
                    } else {
                        let bytes = crate::input::encode_char(c);
                        self.deliver_input(bytes);
                        Step::Continue
                    }
                },
                KeyPress::Enter => {
                    let mut bytes: Vec<u8> = Vec::new();
                    bytes.push(10u8);
                    proof {
                        assert(bytes@ =~= seq![10u8]);
                    }
                    self.deliver_input(bytes);
                    Step::Continue
                },
                KeyPress::Backspace => {
                    let mut bytes: Vec<u8> = Vec::new();
                    bytes.push(8u8);
                    proof {
                        assert(bytes@ =~= seq![8u8]);
                    }
                    self.deliver_input(bytes);
                    Step::Continue
                },
                KeyPress::Left => {
                    self.prev();
                    Step::Continue
                },
                KeyPress::Right => {
                    self.next();
                    Step::Continue
                },
                KeyPress::Up => {
                    let mut bytes: Vec<u8> = Vec::new();
                    bytes.push(27u8);
                    bytes.push(91u8);
                    bytes.push(65u8);
                    proof {
                        assert(bytes@ =~= seq![27u8, 91u8, 65u8]);
                    }
                    self.deliver_input(bytes);
                    Step::Continue
                },
                KeyPress::Down => {
                    let mut bytes: Vec<u8> = Vec::new();
                    bytes.push(27u8);
                    bytes.push(91u8);
                    bytes.push(66u8);
                    proof {
                        assert(bytes@ =~= seq![27u8, 91u8, 66u8]);
                    }
                    self.deliver_input(bytes);
                    Step::Continue
                },
            },
            TermEvent::Resize(rows, cols) => {
                self.resize(rows, cols);
                Step::Continue
            },
        }
    }

    /// Halts every session's tasks and closes every queue, before any
    /// terminal resource is released.
    pub fn teardown(&mut self)
        requires
            group_wf(old(self)@),
        ensures
            final(self)@ == spec_teardown_group(old(self)@),
            forall|i: int|
                0 <= i < final(self)@.sessions.len() ==> torn_down(
                    #[trigger] final(self)@.sessions[i],
                ),
            group_wf(final(self)@),
            final(self).emulators() == old(self).emulators(),
    {
        let mut i: usize = 0;
        let n = self.blocks.iter().len();
        while i < n
            invariant
                0 <= i <= n,
                n as int == self.blocks@.len(),
                self.blocks@.len() == old(self).blocks@.len(),
                self.blocks.focus() == old(self).blocks.focus(),
                self.rows == old(self).rows,
                self.cols == old(self).cols,
                forall|j: int|
                    0 <= j < i ==> (#[trigger] self.blocks@[j])@ == spec_teardown(
                        old(self).blocks@[j]@,
                    ) && self.blocks@[j].emulator_state() == old(self).blocks@[j].emulator_state(),
                forall|j: int| i <= j < n ==> #[trigger] self.blocks@[j] == old(self).blocks@[j],
            decreases n - i,
        {
            match self.blocks.get_mut(i) {
                Some(c) => {
                    c.teardown();
                },
                None => {
                    proof {
                        assert(false);
                    }
                },
            }
            i = i + 1;
        }
        proof {
            assert(models_of(self.blocks@) =~= spec_teardown_group(old(self)@).sessions);
            assert(self.blocks@.map_values(|c: ProcessContainer| c.emulator_state()) =~= old(
                self,
            ).blocks@.map_values(|c: ProcessContainer| c.emulator_state()));
        }
    }
}

/// Law: a delivered payload reaches the session that holds the focus at
/// the moment of the call, and every other session is left exactly as it
/// was.
pub proof fn lemma_deliver_targets_focus(g: GroupModel, bytes: Seq<u8>)
    requires
        group_wf(g),
        g.sessions.len() > 0,
    ensures
        spec_deliver(g, bytes).0.focus == g.focus,
        spec_deliver(g, bytes).0.sessions[g.focus].queue == spec_submit(
            g.sessions[g.focus].queue,
            bytes,
        ).0,
        forall|i: int|
            0 <= i < g.sessions.len() && i != g.focus ==> spec_deliver(g, bytes).0.sessions[i]
                == g.sessions[i],
{
}

/// Law: immediately after a focus move, delivery follows the move: the
/// payload reaches the newly focused session and no other.
pub proof fn lemma_deliver_after_focus_move(g: GroupModel, bytes: Seq<u8>)
    requires
        group_wf(g),
        g.sessions.len() > 0,
    ensures
        spec_deliver(spec_focus_next(g), bytes).0.sessions[spec_focus_next(g).focus].queue
            == spec_submit(g.sessions[spec_focus_next(g).focus].queue, bytes).0,
        forall|i: int|
            0 <= i < g.sessions.len() && i != spec_focus_next(g).focus ==> spec_deliver(
                spec_focus_next(g),
                bytes,
            ).0.sessions[i] == g.sessions[i],
        spec_deliver(spec_focus_prev(g), bytes).0.sessions[spec_focus_prev(g).focus].queue
            == spec_submit(g.sessions[spec_focus_prev(g).focus].queue, bytes).0,
        forall|i: int|
            0 <= i < g.sessions.len() && i != spec_focus_prev(g).focus ==> spec_deliver(
                spec_focus_prev(g),
                bytes,
            ).0.sessions[i] == g.sessions[i],
{
    vstd::arithmetic::div_mod::lemma_mod_bound(g.focus + 1, g.sessions.len() as int);
}

/// Law: resizing twice in a row to the same dimensions is the same as
/// resizing once; each session's pending-resize flag is simply set, to be
/// consumed once at its next render.
pub proof fn lemma_resize_idempotent(g: GroupModel, rows: u16, cols: u16)
    ensures
        spec_resize(spec_resize(g, rows, cols), rows, cols) == spec_resize(g, rows, cols),
        forall|i: int|
            0 <= i < g.sessions.len() ==> (#[trigger] spec_resize(
                g,
                rows,
                cols,
            ).sessions[i]).needs_resize,
{
    assert(spec_resize(spec_resize(g, rows, cols), rows, cols).sessions =~= spec_resize(
        g,
        rows,
        cols,
    ).sessions);
}

} // verus!
