//! Session events and the proxy that renders a window into them.

use vstd::prelude::*;

verus! {

use vstd::string::StringExecFns;
use crate::terminal::Window;
use crate::terminal::window_append;
use crate::text::join_lines;
use crate::text::lemma_join_push;
use crate::text::line_ok;
use crate::text::line_views;

/// An observable session event: produced only by a session's runner,
/// consumed only by the event sink.
#[derive(Debug)]
pub enum Event {
    Update(String),
    Ready,
    Closed,
}

/// Renders a window's buffer as one block of text: the lines joined in
/// order with single newlines, without a trailing newline.
pub fn render_snapshot(buffer: &Vec<String>) -> (r: String)
    ensures
        r@ == join_lines(line_views(buffer@)),
{
    let mut snapshot = String::new();
    let mut i: usize = 0;
    while i < buffer.len()
        invariant
            0 <= i <= buffer@.len(),
            snapshot@ == join_lines(line_views(buffer@).subrange(0, i as int)),
        decreases buffer@.len() - i,
    {
        if i > 0 {
            snapshot.append("\n");
        }
        snapshot.append(buffer[i].as_str());
        proof {
            let lv = line_views(buffer@);
            assert(lv.subrange(0, i as int).push(lv[i as int]) =~~= lv.subrange(0, i as int + 1));
            lemma_join_push(lv.subrange(0, i as int), lv[i as int]);
            reveal_strlit("\n");
            assert("\n"@ =~= seq!['\n']);
        }
        i += 1;
    }
    proof {
        assert(line_views(buffer@).subrange(0, buffer@.len() as int) =~= line_views(buffer@));
    }
    snapshot
}

/// Proxy between a runner and the renderer: stamps every event with the
/// terminal's identity.
pub struct TTYSession<ID> {
    pub id: ID,
}

impl<ID: Copy> TTYSession<ID> {
    pub fn new(id: ID) -> (s: TTYSession<ID>)
        ensures
            s.id == id,
    {
        TTYSession { id }
    }

    /// Appends the prompt line shown once a command has finished.
    pub fn append_prompt(&self, window: &mut Window)
        requires
            old(window).wf(),
        ensures
            final(window).wf(),
            final(window).height == old(window).height,
            final(window).lines() =~= window_append(
                old(window).lines(),
                old(window).height as int,
                " >>> "@,
            ),
    {
        proof {
            reveal_strlit(" >>> ");
            assert(line_ok(" >>> "@));
        }
        window.append(String::from_str(" >>> "));
    }

    /// A frame update carrying the window's current snapshot.
    pub fn update(&self, window: &Window) -> (p: (ID, Event))
        ensures
            p.0 == self.id,
            p.1 matches Event::Update(s) && s@ == join_lines(window.lines()),
    {
        (self.id, Event::Update(render_snapshot(&window.buffer)))
    }

    /// A finished command: the prompt goes into the window, then an
    /// unconditional update and a `Ready` event follow, in that order.
    pub fn on_command_exit(&self, window: &mut Window) -> (r: ((ID, Event), (ID, Event)))
        requires
            old(window).wf(),
        ensures
            final(window).wf(),
            final(window).height == old(window).height,
            final(window).lines() =~= window_append(
                old(window).lines(),
                old(window).height as int,
                " >>> "@,
            ),
            r.0.0 == self.id,
            r.0.1 matches Event::Update(s) && s@ == join_lines(final(window).lines()),
            r.1.0 == self.id,
            r.1.1 is Ready,
    {
        self.append_prompt(window);
        let up = self.update(window);
        (up, (self.id, Event::Ready))
    }

    /// A closing session: the closed marker goes into the window, then an
    /// unconditional update and a `Closed` event follow, in that order.
    pub fn on_terminal_exit(&self, window: &mut Window) -> (r: ((ID, Event), (ID, Event)))
        requires
            old(window).wf(),
        ensures
            final(window).wf(),
            final(window).height == old(window).height,
            final(window).lines() =~= window_append(
                old(window).lines(),
                old(window).height as int,
                " <session closed> "@,
            ),
            r.0.0 == self.id,
            r.0.1 matches Event::Update(s) && s@ == join_lines(final(window).lines()),
            r.1.0 == self.id,
            r.1.1 is Closed,
    {
        proof {
            reveal_strlit(" <session closed> ");
            assert(line_ok(" <session closed> "@));
        }
        window.append(String::from_str(" <session closed> "));
        let up = self.update(window);
        (up, (self.id, Event::Closed))
    }
}

} // verus!
