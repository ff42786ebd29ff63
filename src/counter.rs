//! The counter program: one value changed by the arrow keys, and a flag that
//! ends the interactive loop.
//!
//! The value saturates: Left at 0 leaves 0, Right at 255 leaves 255.

use vstd::prelude::*;

verus! {

/// A key of the keyboard, as far as the counter tells keys apart.
#[derive(Clone, Copy, Debug, PartialEq, Eq, Structural)]
pub enum KeyCode {
    Char(char),
    Left,
    Right,
    /// Any other key (Enter, Backspace, a function key, ...).
    Other,
}

/// Whether a key went down, repeats while held, or went up.
#[derive(Clone, Copy, Debug, PartialEq, Eq, Structural)]
pub enum KeyEventKind {
    Press,
    Repeat,
    Release,
}

#[derive(Clone, Copy, Debug, PartialEq, Eq, Structural)]
pub struct KeyEvent {
    pub code: KeyCode,
    pub kind: KeyEventKind,
}

/// One event delivered by the terminal.
#[derive(Clone, Copy, Debug, PartialEq, Eq, Structural)]
pub enum Event {
    Key(KeyEvent),
    /// The terminal was resized to the given columns and rows.
    Resize(u16, u16),
    /// Mouse, focus and paste events.
    Other,
}

/// What the interactive loop does after an event.
#[derive(Clone, Copy, Debug, PartialEq, Eq, Structural)]
pub enum Flow {
    /// Draw the state again and wait for the next event.
    Continue,
    /// Leave the loop.
    Quit,
}

/// The abstract state of the counter program.
pub struct AppState {
    pub counter: u8,
    pub exit: bool,
}

impl AppState {
    /// The state at start: value 0, running.
    pub open spec fn initial() -> AppState {
        AppState { counter: 0, exit: false }
    }
}

/// The state after one key event, whatever its kind.
pub open spec fn key_step(s: AppState, k: KeyEvent) -> AppState {
    if k.code == KeyCode::Char('q') {
        AppState { counter: s.counter, exit: true }
    } else if k.code == KeyCode::Left {
        AppState { counter: if s.counter == 0 { 0 } else { (s.counter - 1) as u8 }, exit: s.exit }
    } else if k.code == KeyCode::Right {
        AppState { counter: if s.counter == 255 { 255 } else { (s.counter + 1) as u8 }, exit: s.exit }
    } else {
        s
    }
}

/// The state after one event: only key presses are acted on.
pub open spec fn event_step(s: AppState, e: Event) -> AppState {
    match e {
        Event::Key(k) => if k.kind == KeyEventKind::Press { key_step(s, k) } else { s },
        _ => s,
    }
}

/// The state after all the events, in order.
pub open spec fn run_steps(s: AppState, events: Seq<Event>) -> AppState
    decreases events.len(),
{
    if events.len() == 0 {
        s
    } else {
        event_step(run_steps(s, events.drop_last()), events.last())
    }
}

/// How many of the events the loop reads, starting from `s`: it reads one
/// after each frame it draws, until the exit flag is set or the events run out.
pub open spec fn consumed(s: AppState, events: Seq<Event>) -> nat
    decreases events.len(),
{
    if s.exit || events.len() == 0 {
        0
    } else {
        1 + consumed(event_step(s, events[0]), events.drop_first())
    }
}

/// Whether the event is a press of the given key.
pub open spec fn is_press(e: Event, code: KeyCode) -> bool {
    e == Event::Key(KeyEvent { code, kind: KeyEventKind::Press })
}

/// Right presses minus Left presses among the events.
pub open spec fn net_presses(events: Seq<Event>) -> int
    decreases events.len(),
{
    if events.len() == 0 {
        0
    } else {
        net_presses(events.drop_last()) + if is_press(events.last(), KeyCode::Right) {
            1int
        } else if is_press(events.last(), KeyCode::Left) {
            -1int
        } else {
            0int
        }
    }
}

/// Whether the key takes part in the counter's bindings.
pub open spec fn is_bound(code: KeyCode) -> bool {
    code == KeyCode::Char('q') || code == KeyCode::Left || code == KeyCode::Right
}

/// Presses of keys outside the bindings change neither the value nor the
/// exit flag.
pub proof fn lemma_unbound_key_changes_nothing(s: AppState, code: KeyCode)
    requires
        !is_bound(code),
    ensures
        event_step(s, Event::Key(KeyEvent { code, kind: KeyEventKind::Press })) == s,
{
}

/// Releases and repeats change nothing, even of a bound key.
pub proof fn lemma_non_press_changes_nothing(s: AppState, k: KeyEvent)
    requires
        k.kind != KeyEventKind::Press,
    ensures
        event_step(s, Event::Key(k)) == s,
{
}

/// Once set, the exit flag stays set, whatever events follow.
pub proof fn lemma_exit_is_kept(s: AppState, events: Seq<Event>)
    requires
        s.exit,
    ensures
        run_steps(s, events).exit,
    decreases events.len(),
{
    if events.len() > 0 {
        lemma_exit_is_kept(s, events.drop_last());
    }
}

/// Handling the first event, then the rest, is handling them all.
pub proof fn lemma_run_steps_first(s: AppState, events: Seq<Event>)
    requires
        events.len() > 0,
    ensures
        run_steps(s, events) == run_steps(event_step(s, events[0]), events.drop_first()),
    decreases events.len(),
{
    if events.len() > 1 {
        let s1 = event_step(s, events[0]);
        let rest = events.drop_first();
        lemma_run_steps_first(s, events.drop_last());
        assert(events.drop_last().drop_first() =~= rest.drop_last());
        assert(rest.last() == events.last());
        assert(run_steps(s1, rest) == event_step(run_steps(s1, rest.drop_last()), rest.last()));
    } else {
        assert(events.drop_last() =~= Seq::<Event>::empty());
        assert(events.drop_first() =~= Seq::<Event>::empty());
        assert(events.last() == events[0]);
        assert(run_steps(s, events.drop_last()) == s);
    }
}

/// A press of `q` ends the loop there: no event after it is read and no
/// frame is drawn after it, and the loop leaves with the exit flag set.
pub proof fn lemma_quit_ends_loop(s: AppState, events: Seq<Event>, i: int)
    requires
        0 <= i < events.len(),
        is_press(events[i], KeyCode::Char('q')),
    ensures
        consumed(s, events) <= i + 1,
        run_steps(s, events.take(consumed(s, events) as int)).exit,
    decreases i,
{
    if s.exit {
        assert(events.take(0) =~= Seq::<Event>::empty());
    } else {
        let s1 = event_step(s, events[0]);
        let rest = events.drop_first();
        assert(consumed(s, events) == 1 + consumed(s1, rest));
        if i == 0 {
            assert(rest.len() == 0 || consumed(s1, rest) == 0);
            lemma_run_steps_first(s, events.take(1));
            assert(events.take(1).drop_first() =~= Seq::<Event>::empty());
        } else {
            lemma_quit_ends_loop(s1, rest, i - 1);
            let c: int = consumed(s1, rest) as int;
            lemma_run_steps_first(s, events.take(c + 1));
            assert(events.take(c + 1int).drop_first() =~= rest.take(c));
        }
    }
}

/// Whether every event is a press of Left or Right.
pub open spec fn only_arrows(events: Seq<Event>) -> bool {
    forall|j: int|
        0 <= j < events.len() ==> is_press(#[trigger] events[j], KeyCode::Left) || is_press(
            events[j],
            KeyCode::Right,
        )
}

/// Whether Right presses minus Left presses stay within 0..=255 after each
/// event, so that the value never saturates.
pub open spec fn within_range(events: Seq<Event>) -> bool {
    forall|j: int|
        0 <= j <= events.len() ==> 0 <= #[trigger] net_presses(events.take(j)) <= 255
}

/// From the start state, presses of Left and Right leave the value at the
/// number of Right presses minus the number of Left presses, as long as that
/// difference never leaves the range of the value.
pub proof fn lemma_arrows_count(events: Seq<Event>)
    requires
        only_arrows(events),
        within_range(events),
    ensures
        run_steps(AppState::initial(), events).counter == net_presses(events),
        !run_steps(AppState::initial(), events).exit,
    decreases events.len(),
{
    if events.len() > 0 {
        let d = events.drop_last();
        assert forall|j: int| 0 <= j < d.len() implies is_press(#[trigger] d[j], KeyCode::Left)
            || is_press(d[j], KeyCode::Right) by {
            assert(d[j] == events[j]);
        }
        assert forall|j: int| 0 <= j <= d.len() implies 0 <= #[trigger] net_presses(d.take(j))
            <= 255 by {
            assert(d.take(j) =~= events.take(j));
        }
        lemma_arrows_count(d);
        assert(events.take(events.len() as int) =~= events);
        assert(events.take(d.len() as int) =~= d);
        assert(events.last() == events[d.len() as int]);
    }
}

/// The counter program's state.
#[derive(Debug)]
pub struct App {
    counter: u8,
    exit: bool,
}

impl View for App {
    type V = AppState;

    closed spec fn view(&self) -> AppState {
        AppState { counter: self.counter, exit: self.exit }
    }
}

impl Default for App {
    fn default() -> (r: App)
        ensures
            r@ == AppState::initial(),
    {
        App { counter: 0, exit: false }
    }
}

impl App {
    /// The value shown on screen.
    pub fn counter(&self) -> (r: u8)
        ensures
            r == self@.counter,
    {
        self.counter
    }

    /// Whether the loop is to end.
    pub fn is_exiting(&self) -> (r: bool)
        ensures
            r == self@.exit,
    {
        self.exit
    }

    /// Sets the exit flag.
    pub fn exit(&mut self)
        ensures
            final(self)@ == (AppState { counter: old(self)@.counter, exit: true }),
    {
        self.exit = true;
    }

    /// Adds one to the value, which stays at 255 once there.
    pub fn increment_counter(&mut self)
        ensures
            final(self)@.exit == old(self)@.exit,
            final(self)@.counter as int == if old(self)@.counter == 255 {
                255
            } else {
                old(self)@.counter + 1
            },
    {
        if self.counter < 255 {
            self.counter = self.counter + 1;
        }
    }

    /// Takes one from the value, which stays at 0 once there.
    pub fn decrement_counter(&mut self)
        ensures
            final(self)@.exit == old(self)@.exit,
            final(self)@.counter as int == if old(self)@.counter == 0 {
                0
            } else {
                old(self)@.counter - 1
            },
    {
        if self.counter > 0 {
            self.counter = self.counter - 1;
        }
    }

    /// Acts on a key: `q` quits, Left decrements, Right increments, any
    /// other key changes nothing. The kind of the event is not looked at.
    pub fn handle_key_event(&mut self, key_event: KeyEvent)
        ensures
            final(self)@ == key_step(old(self)@, key_event),
    {
        match key_event.code {
            KeyCode::Char('q') => self.exit(),
            KeyCode::Left => self.decrement_counter(),
            KeyCode::Right => self.increment_counter(),
            _ => {},
        }
    }

    /// Acts on one event read from the terminal and says whether the loop
    /// goes on. Only key presses are acted on: releases and repeats, which
    /// some platforms report as well, would act twice.
    pub fn handle_event(&mut self, event: Event) -> (r: Flow)
        ensures
            final(self)@ == event_step(old(self)@, event),
            r == Flow::Quit <==> final(self)@.exit,
    {
        match event {
            Event::Key(key_event) => {
                if key_event.kind == KeyEventKind::Press {
                    self.handle_key_event(key_event);
                }
            },
            _ => {},
        }
        if self.exit {
            Flow::Quit
        } else {
            Flow::Continue
        }
    }

    /// Runs the interactive loop over a given stream of events: while the
    /// exit flag is unset it draws a frame, then reads and handles the next
    /// event. Returns how many events were read, which is also how many
    /// frames were drawn.
    pub fn run(&mut self, events: &Vec<Event>) -> (n: usize)
        ensures
            n == consumed(old(self)@, events@),
            final(self)@ == run_steps(old(self)@, events@.take(n as int)),
            final(self)@.exit || n == events@.len(),
    {
        let ghost start = self@;
        let mut i: usize = 0;
        assert(events@.skip(0) =~= events@);
        while i < events.len() && !self.exit
            invariant
                i <= events@.len(),
                self@ == run_steps(start, events@.take(i as int)),
                consumed(start, events@) == i + consumed(self@, events@.skip(i as int)),
            decreases events@.len() - i,
        {
            let ghost before = self@;
            let _ = self.handle_event(events[i]);
            proof {
                assert(events@.take(i + 1).drop_last() =~= events@.take(i as int));
                assert(events@.skip(i as int).drop_first() =~= events@.skip(i + 1));
            }
            i = i + 1;
        }
        proof {
            if i == events@.len() {
                assert(events@.skip(i as int).len() == 0);
            }
        }
        i
    }
}

} // verus!
