//! The scrollback window, the update-rate timer, and the per-terminal
//! state machine that drives command execution.

use vstd::prelude::*;

verus! {

use crate::session::Event;
use crate::session::TTYSession;
use crate::text::line_ok;
use crate::text::line_views;

/// What one append does to a window's lines: the new line goes to the back,
/// and if the window was already full the oldest line leaves at the front.
pub open spec fn window_append(ls: Seq<Seq<char>>, height: int, l: Seq<char>) -> Seq<Seq<char>> {
    if ls.len() < height {
        ls.push(l)
    } else {
        ls.push(l).drop_first()
    }
}

/// `window_append` folded over a whole sequence of inputs, oldest first.
pub open spec fn append_all(ls: Seq<Seq<char>>, height: int, inputs: Seq<Seq<char>>) -> Seq<
    Seq<char>,
>
    decreases inputs.len(),
{
    if inputs.len() == 0 {
        ls
    } else {
        append_all(window_append(ls, height, inputs[0]), height, inputs.drop_first())
    }
}

/// Lines of output that adhere to the height limit.
///
/// The buffer holds at most `height` lines; appending to a full window
/// evicts exactly one line from the front, so order is insertion order,
/// oldest first.
pub struct Window {
    pub buffer: Vec<String>,
    pub height: usize,
}

impl Window {
    /// The window's contents as a sequence of line views, oldest first.
    pub open spec fn lines(&self) -> Seq<Seq<char>> {
        line_views(self.buffer@)
    }

    pub open spec fn wf(&self) -> bool {
        &&& self.height >= 1
        &&& self.buffer@.len() <= self.height
        &&& forall|i: int| 0 <= i < self.buffer@.len() ==> line_ok(#[trigger] self.buffer@[i]@)
    }

    /// A window of fixed positive capacity. A zero height is a configuration
    /// error that callers must reject before construction.
    pub fn new(height: usize) -> (w: Window)
        requires
            height >= 1,
        ensures
            w.wf(),
            w.height == height,
            w.lines() =~= Seq::<Seq<char>>::empty(),
    {
        Window { buffer: Vec::new(), height }
    }

    pub fn over_height_limit(&self) -> (r: bool)
        ensures
            r == (self.buffer@.len() > self.height),
    {
        self.buffer.len() > self.height
    }

    /// Evicts the oldest line when the buffer exceeds the height limit.
    pub fn shrink_to_limit(&mut self) -> (r: Option<String>)
        ensures
            old(self).buffer@.len() > old(self).height ==> {
                &&& final(self).buffer@ =~= old(self).buffer@.drop_first()
                &&& r matches Some(l) && l@ == old(self).buffer@[0]@
            },
            old(self).buffer@.len() <= old(self).height ==> {
                &&& final(self).buffer@ == old(self).buffer@
                &&& r is None
            },
            final(self).height == old(self).height,
    {
        if self.over_height_limit() {
            Some(self.buffer.remove(0))
        } else {
            None
        }
    }

    /// A point-in-time rendering of the window's contents as one block of
    /// text; a read-only view that never mutates state.
    pub fn snapshot(&self) -> (r: String)
        ensures
            r@ == crate::text::join_lines(self.lines()),
    {
        crate::session::render_snapshot(&self.buffer)
    }

    /// Adds one line at the back; a full window first loses its oldest line.
    /// Lines may not contain newlines: a caller holding a multi-line block
    /// must pre-split it into one append per line.
    pub fn append(&mut self, line: String)
        requires
            old(self).wf(),
            line_ok(line@),
        ensures
            final(self).wf(),
            final(self).height == old(self).height,
            final(self).lines() =~= window_append(old(self).lines(), old(self).height as int, line@),
    {
        self.buffer.push(line);
        self.shrink_to_limit();
    }
}

/// Law: filling a window of height `h` from empty with `inputs` (oldest
/// first) leaves exactly `min(|inputs|, h)` lines, and they are the last
/// lines of `inputs` in their original relative order.
pub proof fn lemma_window_retains_suffix(height: int, inputs: Seq<Seq<char>>)
    requires
        height >= 1,
    ensures
        ({
            let out = append_all(Seq::<Seq<char>>::empty(), height, inputs);
            &&& out.len() == vstd::math::min(inputs.len() as int, height)
            &&& out =~= inputs.subrange(inputs.len() - out.len(), inputs.len() as int)
        }),
{
    lemma_append_all_suffix(Seq::<Seq<char>>::empty(), height, inputs);
    assert(Seq::<Seq<char>>::empty() + inputs =~= inputs);
}

/// Generalisation of `lemma_window_retains_suffix` to a window that already
/// holds some lines: the result is always the newest-possible suffix of the
/// full history `ls + inputs`.
pub proof fn lemma_append_all_suffix(ls: Seq<Seq<char>>, height: int, inputs: Seq<Seq<char>>)
    requires
        height >= 1,
        ls.len() <= height,
    ensures
        ({
            let all = ls + inputs;
            let out = append_all(ls, height, inputs);
            &&& out.len() == vstd::math::min(all.len() as int, height)
            &&& out =~= all.subrange(all.len() - out.len(), all.len() as int)
        }),
    decreases inputs.len(),
{
    let all = ls + inputs;
    if inputs.len() == 0 {
        assert(all =~= ls);
    } else {
        let stepped = window_append(ls, height, inputs[0]);
        let rest = inputs.drop_first();
        lemma_append_all_suffix(stepped, height, rest);
        assert(stepped + rest =~= (ls + inputs).subrange(
            all.len() - (stepped + rest).len(),
            all.len() as int,
        ));
        let out = append_all(ls, height, inputs);
        assert(out == append_all(stepped, height, rest));
        assert(out =~= all.subrange(all.len() - out.len(), all.len() as int));
    }
}

/// Whether a timer whose last firing was `last` may fire again at `now`:
/// strictly more than `cooldown` ticks must have passed, and a timer that
/// has never fired always may.
pub open spec fn timer_fires(last: Option<u64>, now: u64, cooldown: u64) -> bool {
    match last {
        Option::None => true,
        Option::Some(l) => l < now && now - l > cooldown,
    }
}

/// Minimum-interval gate deciding when an output update may be emitted.
pub struct Timer {
    pub last: Option<u64>,
}

impl Timer {
    /// A fresh timer fires on its very first check.
    pub fn new() -> (t: Timer)
        ensures
            t.last is None,
    {
        Timer { last: None }
    }

    /// Returns true and resets the internal timestamp to `now` iff more than
    /// `cooldown` ticks passed since the last firing; otherwise returns false
    /// and leaves the timer unchanged.
    pub fn check_and_update(&mut self, now: u64, cooldown: u64) -> (r: bool)
        ensures
            r == timer_fires(old(self).last, now, cooldown),
            final(self).last == if r {
                Some(now)
            } else {
                old(self).last
            },
    {
        let past_limit = match self.last {
            None => true,
            Some(l) => l < now && now - l > cooldown,
        };
        if past_limit {
            self.last = Some(now);
        }
        past_limit
    }
}

/// Law: after the timer fires at `t1`, a second output-triggered check at
/// any `t2` within `cooldown` ticks of `t1` is suppressed, so at most one
/// update fires per cooldown window.
pub proof fn lemma_cooldown_suppresses(t1: u64, t2: u64, cooldown: u64)
    requires
        t2 <= t1 + cooldown,
    ensures
        !timer_fires(Some(t1), t2, cooldown),
{
}

/// Minimum interval, in clock ticks, between two output-triggered updates
/// of one terminal.
pub const COOLDOWN: u64 = 4;

/// A control message for one terminal session.
#[derive(Debug)]
pub enum Command {
    Run(String),
    Remove,
}

/// A pending queue after one more command arrived at its tail.
pub open spec fn enqueued(p: Seq<Seq<char>>, c: Seq<char>) -> Seq<Seq<char>> {
    p.push(c)
}

/// The command a non-empty pending queue starts next.
pub open spec fn next_started(p: Seq<Seq<char>>) -> Seq<char> {
    p[0]
}

/// A pending queue after its head command started.
pub open spec fn after_start(p: Seq<Seq<char>>) -> Seq<Seq<char>> {
    p.drop_first()
}

/// Law: three commands submitted to an idle session in the order a, b, c
/// start in exactly that order, whatever their run times, because arrival
/// appends at the tail and starting always takes the head.
pub proof fn lemma_fifo_order(a: Seq<char>, b: Seq<char>, c: Seq<char>)
    ensures
        ({
            let q0 = Seq::<Seq<char>>::empty();
            let q3 = enqueued(enqueued(enqueued(q0, a), b), c);
            &&& next_started(q3) == a
            &&& next_started(after_start(q3)) == b
            &&& next_started(after_start(after_start(q3))) == c
            &&& after_start(after_start(after_start(q3))) =~= q0
        }),
{
}

/// What the idle step of a session's event loop decided.
pub enum IdleStep<ID> {
    /// Start the head of the pending queue as the new running process.
    Start(String),
    /// The session drained while marked for removal: it emitted its final
    /// update and closed.
    Close((ID, Event), (ID, Event)),
    /// Nothing to do; wait briefly before polling again.
    Sleep,
}

/// Per-terminal state machine: owns a window, a timer and a FIFO queue of
/// pending command lines, tracks whether a child process is running, and
/// answers every input of the event loop with the actions the caller must
/// perform: which command to spawn, whether to kill a child, and which
/// events to emit, in order. The caller owns the actual child process and
/// channels and drives this machine from its loop.
pub struct Runner<ID> {
    pub window: Window,
    pub timer: Timer,
    pub session: TTYSession<ID>,
    pub pending: Vec<String>,
    pub running: bool,
    pub should_be_removed: bool,
    pub closed: bool,
}

impl<ID: Copy> Runner<ID> {
    pub open spec fn wf(&self) -> bool {
        &&& self.window.wf()
        &&& self.closed ==> !self.running
    }

    /// A fresh, idle session for terminal `id` with the given window height.
    pub fn new(id: ID, height: usize) -> (r: Runner<ID>)
        requires
            height >= 1,
        ensures
            r.wf(),
            r.session.id == id,
            r.window.height == height,
            r.window.lines() =~= Seq::<Seq<char>>::empty(),
            r.timer.last is None,
            r.pending@ =~= Seq::<String>::empty(),
            !r.running,
            !r.should_be_removed,
            !r.closed,
    {
        Runner {
            window: Window::new(height),
            timer: Timer::new(),
            session: TTYSession::new(id),
            pending: Vec::new(),
            running: false,
            should_be_removed: false,
            closed: false,
        }
    }

    /// A control message arrived: `Run` joins the tail of the pending
    /// queue and never interrupts a running process; `Remove` marks the
    /// session as draining.
    pub fn on_control(&mut self, cmd: Command)
        requires
            old(self).wf(),
            !old(self).closed,
        ensures
            final(self).wf(),
            final(self).window == old(self).window,
            final(self).timer == old(self).timer,
            final(self).session == old(self).session,
            final(self).running == old(self).running,
            final(self).closed == old(self).closed,
            match cmd {
                Command::Run(c) => {
                    &&& line_views(final(self).pending@) =~~= enqueued(
                        line_views(old(self).pending@),
                        c@,
                    )
                    &&& final(self).should_be_removed == old(self).should_be_removed
                },
                Command::Remove => {
                    &&& final(self).pending@ == old(self).pending@
                    &&& final(self).should_be_removed
                },
            },
    {
        match cmd {
            Command::Run(c) => {
                let ghost prev = self.pending@;
                self.pending.push(c);
                proof {
                    assert(line_views(self.pending@) =~~= line_views(prev).push(
                        self.pending@[prev.len() as int]@,
                    ));
                }
            },
            Command::Remove => {
                self.should_be_removed = true;
            },
        }
    }

    /// A running process produced one output line: it goes into the
    /// window, and an update is emitted iff the cooldown timer allows it.
    pub fn on_line(&mut self, line: String, now: u64) -> (r: Option<(ID, Event)>)
        requires
            old(self).wf(),
            old(self).running,
            line_ok(line@),
        ensures
            final(self).wf(),
            final(self).window.height == old(self).window.height,
            final(self).window.lines() =~= window_append(
                old(self).window.lines(),
                old(self).window.height as int,
                line@,
            ),
            final(self).session == old(self).session,
            final(self).pending@ == old(self).pending@,
            final(self).running == old(self).running,
            final(self).should_be_removed == old(self).should_be_removed,
            final(self).closed == old(self).closed,
            timer_fires(old(self).timer.last, now, COOLDOWN) ==> {
                &&& final(self).timer.last == Some(now)
                &&& r matches Some(p) && p.0 == old(self).session.id && (
                p.1 matches Event::Update(s) && s@ == crate::text::join_lines(
                    final(self).window.lines(),
                ))
            },
            !timer_fires(old(self).timer.last, now, COOLDOWN) ==> {
                &&& final(self).timer == old(self).timer
                &&& r is None
            },
    {
        self.window.append(line);
        let fire = self.timer.check_and_update(now, COOLDOWN);
        if fire {
            Some(self.session.update(&self.window))
        } else {
            None
        }
    }

    /// The running process's output ended: the command is over. The prompt
    /// joins the window and an update and a `Ready` are always emitted, in
    /// that order, whatever the cooldown state. The caller must reap the
    /// child; a kill attempt on an already-exited process is a harmless
    /// no-op.
    pub fn on_eof(&mut self) -> (r: ((ID, Event), (ID, Event)))
        requires
            old(self).wf(),
            old(self).running,
        ensures
            final(self).wf(),
            !final(self).running,
            final(self).window.height == old(self).window.height,
            final(self).window.lines() =~= window_append(
                old(self).window.lines(),
                old(self).window.height as int,
                " >>> "@,
            ),
            final(self).timer == old(self).timer,
            final(self).session == old(self).session,
            final(self).pending@ == old(self).pending@,
            final(self).should_be_removed == old(self).should_be_removed,
            final(self).closed == old(self).closed,
            r.0.0 == old(self).session.id,
            r.0.1 matches Event::Update(s) && s@ == crate::text::join_lines(
                final(self).window.lines(),
            ),
            r.1.0 == old(self).session.id,
            r.1.1 is Ready,
    {
        self.running = false;
        self.session.on_command_exit(&mut self.window)
    }

    /// Starting the head of the queue failed to spawn: a recoverable
    /// per-command failure. The session advances past it and keeps going.
    pub fn on_spawn_failure(&mut self)
        requires
            old(self).wf(),
            old(self).running,
        ensures
            final(self).wf(),
            !final(self).running,
            final(self).window == old(self).window,
            final(self).timer == old(self).timer,
            final(self).session == old(self).session,
            final(self).pending@ == old(self).pending@,
            final(self).should_be_removed == old(self).should_be_removed,
            final(self).closed == old(self).closed,
    {
        self.running = false;
    }

    /// The control channel itself was dropped: treated as a `Terminate`
    /// that skips draining. The caller must kill the child iff the result
    /// says so, then emit the final update and `Closed` and stop the loop.
    pub fn on_channel_closed(&mut self) -> (r: (bool, (ID, Event), (ID, Event)))
        requires
            old(self).wf(),
            !old(self).closed,
        ensures
            final(self).wf(),
            final(self).closed,
            !final(self).running,
            r.0 == old(self).running,
            final(self).window.height == old(self).window.height,
            final(self).window.lines() =~= window_append(
                old(self).window.lines(),
                old(self).window.height as int,
                " <session closed> "@,
            ),
            r.1.0 == old(self).session.id,
            r.1.1 matches Event::Update(s) && s@ == crate::text::join_lines(
                final(self).window.lines(),
            ),
            r.2.0 == old(self).session.id,
            r.2.1 is Closed,
    {
        let kill = self.running;
        self.running = false;
        self.closed = true;
        let (up, cl) = self.session.on_terminal_exit(&mut self.window);
        (kill, up, cl)
    }

    /// Nothing is running and no message is pending: start the next queued
    /// command, or close if the session drained while marked for removal,
    /// or report that there is nothing to do.
    pub fn poll_idle(&mut self) -> (r: IdleStep<ID>)
        requires
            old(self).wf(),
            !old(self).running,
            !old(self).closed,
        ensures
            final(self).wf(),
            final(self).session == old(self).session,
            final(self).timer == old(self).timer,
            old(self).pending@.len() > 0 ==> {
                &&& r matches IdleStep::Start(c) && c@ == next_started(
                    line_views(old(self).pending@),
                )
                &&& line_views(final(self).pending@) =~~= after_start(
                    line_views(old(self).pending@),
                )
                &&& final(self).running
                &&& final(self).window == old(self).window
                &&& final(self).should_be_removed == old(self).should_be_removed
                &&& !final(self).closed
            },
            old(self).pending@.len() == 0 && old(self).should_be_removed ==> {
                &&& final(self).closed
                &&& !final(self).running
                &&& final(self).window.height == old(self).window.height
                &&& final(self).window.lines() =~= window_append(
                    old(self).window.lines(),
                    old(self).window.height as int,
                    " <session closed> "@,
                )
                &&& r matches IdleStep::Close(up, cl) && up.0 == old(self).session.id && (
                up.1 matches Event::Update(s) && s@ == crate::text::join_lines(
                    final(self).window.lines(),
                )) && cl.0 == old(self).session.id && cl.1 is Closed
            },
            old(self).pending@.len() == 0 && !old(self).should_be_removed ==> {
                &&& r is Sleep
                &&& *final(self) == *old(self)
            },
    {
        if self.pending.len() > 0 {
            let c = self.pending.remove(0);
            self.running = true;
            proof {
                assert(line_views(self.pending@) =~~= after_start(line_views(old(self).pending@)));
            }
            IdleStep::Start(c)
        } else if self.should_be_removed {
            self.closed = true;
            let (up, cl) = self.session.on_terminal_exit(&mut self.window);
            IdleStep::Close(up, cl)
        } else {
            IdleStep::Sleep
        }
    }
}

} // verus!
