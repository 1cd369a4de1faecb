//! The scan-delete loop as a state machine.
//!
//! The machine makes no store call itself. It names the call that is due
//! ([`Action`]), is told how the call ended ([`Event`]), and moves on. Whoever
//! drives it performs one call at a time and hands back one event per call.

use vstd::prelude::*;
use crate::key::{key_text, text_of_key};

verus! {

/// The number of keys asked for in one scan.
pub const PAGE_SIZE: u32 = 100;

/// Where a run stands.
#[derive(Clone, Copy, Debug, PartialEq, Eq, Structural)]
pub enum Phase {
    /// A scan of the remaining range is due.
    Scanning,
    /// The page that the last scan returned is to be deleted.
    Deleting,
    /// The page is gone and the cursor has moved; a progress update is due.
    Advancing,
    /// The range is empty: nothing more is asked of the store.
    Done,
}

/// What the driver of a run is to do next.
#[derive(Clone, Copy, Debug, PartialEq, Eq, Structural)]
pub enum Action {
    /// Scan the remaining range for up to the page limit of keys.
    Scan,
    /// Delete the keys of the current page.
    Delete,
    /// Show the progress gauge and the status line.
    Report,
    /// Show the closing summary and stop.
    Finish,
}

/// How a store call, or a progress update, ended.
#[derive(Debug)]
pub enum Event {
    /// The scan failed, with the store's message.
    ScanFailed(String),
    /// The scan returned these keys, in the store's order.
    Scanned(Vec<Vec<u8>>),
    /// The delete failed, with the store's message.
    DeleteFailed(String),
    /// The delete went through.
    Deleted,
    /// The progress update has been shown.
    Reported,
}

/// The counters and the cursor of one run.
#[derive(Debug)]
pub struct RunState {
    phase: Phase,
    start: String,
    end: String,
    limit: u32,
    page: Vec<Vec<u8>>,
    deleted: u64,
    errors: u64,
    last_error: Option<String>,
}

/// What an [`Event`] holds, as plain values.
pub enum EventView {
    /// A failed scan and its message.
    ScanFailed(Seq<char>),
    /// A scan and the keys it returned.
    Scanned(Seq<Seq<u8>>),
    /// A failed delete and its message.
    DeleteFailed(Seq<char>),
    /// A delete that went through.
    Deleted,
    /// A progress update that has been shown.
    Reported,
}

/// What a [`RunState`] holds, as plain values.
pub struct RunView {
    /// Where the run stands.
    pub phase: Phase,
    /// The cursor: the text of the inclusive lower bound of what is left.
    pub start: Seq<char>,
    /// The text of the exclusive upper bound, fixed for the run.
    pub end: Seq<char>,
    /// The number of keys asked for in one scan.
    pub limit: nat,
    /// The keys that are being deleted; empty outside `Deleting`.
    pub page: Seq<Seq<u8>>,
    /// The number of keys deleted so far.
    pub deleted: nat,
    /// The number of failed store calls so far.
    pub errors: nat,
    /// The message of the latest failed store call.
    pub last_error: Option<Seq<char>>,
}

/// The byte strings that `keys` hold.
pub open spec fn keys_view(keys: Seq<Vec<u8>>) -> Seq<Seq<u8>> {
    Seq::new(keys.len(), |i: int| keys[i]@)
}

/// The action that is due in `phase`.
pub open spec fn action_due(phase: Phase) -> Action {
    match phase {
        Phase::Scanning => Action::Scan,
        Phase::Deleting => Action::Delete,
        Phase::Advancing => Action::Report,
        Phase::Done => Action::Finish,
    }
}

impl View for Event {
    type V = EventView;

    open spec fn view(&self) -> EventView {
        match self {
            Event::ScanFailed(message) => EventView::ScanFailed(message@),
            Event::Scanned(keys) => EventView::Scanned(keys_view(keys@)),
            Event::DeleteFailed(message) => EventView::DeleteFailed(message@),
            Event::Deleted => EventView::Deleted,
            Event::Reported => EventView::Reported,
        }
    }
}

impl RunView {
    /// The state of a run that has not asked anything of the store yet.
    pub open spec fn initial(start: Seq<char>, end: Seq<char>, limit: nat) -> RunView {
        RunView {
            phase: Phase::Scanning,
            start,
            end,
            limit,
            page: Seq::empty(),
            deleted: 0,
            errors: 0,
            last_error: None,
        }
    }

    /// A page is held exactly while it is being deleted.
    pub open spec fn wf(self) -> bool {
        self.phase is Deleting <==> self.page.len() > 0
    }

    /// After a failed store call: the failure is counted and its message
    /// kept, the page is dropped, and the same range is to be scanned again.
    pub open spec fn failed(self, message: Seq<char>) -> RunView {
        RunView {
            phase: Phase::Scanning,
            page: Seq::empty(),
            errors: self.errors + 1,
            last_error: Some(message),
            ..self
        }
    }

    /// After a scan that returned `keys`: done if there are none, else they
    /// are the page to delete.
    pub open spec fn scanned(self, keys: Seq<Seq<u8>>) -> RunView {
        if keys.len() == 0 {
            RunView { phase: Phase::Done, ..self }
        } else {
            RunView { phase: Phase::Deleting, page: keys, ..self }
        }
    }

    /// After the page was deleted: its keys are counted and the cursor is
    /// `text`, the text of the page's last key.
    pub open spec fn advanced(self, text: Seq<char>) -> RunView {
        RunView {
            phase: Phase::Advancing,
            start: text,
            page: Seq::empty(),
            deleted: self.deleted + self.page.len(),
            ..self
        }
    }

    /// After the progress update: the next scan is due.
    pub open spec fn reported(self) -> RunView {
        RunView { phase: Phase::Scanning, ..self }
    }

    /// The state that follows `self` on `event`. An event that does not
    /// answer the action due in `self.phase` changes nothing.
    pub open spec fn next(self, event: EventView) -> RunView {
        match (self.phase, event) {
            (Phase::Scanning, EventView::ScanFailed(message)) => self.failed(message),
            (Phase::Scanning, EventView::Scanned(keys)) => self.scanned(keys),
            (Phase::Deleting, EventView::DeleteFailed(message)) => self.failed(message),
            (Phase::Deleting, EventView::Deleted) => self.advanced(key_text(self.page.last())),
            (Phase::Advancing, EventView::Reported) => self.reported(),
            _ => self,
        }
    }

    /// Whether the counter that `event` moves has room for it.
    pub open spec fn counts_fit(self, event: EventView) -> bool {
        match (self.phase, event) {
            (Phase::Scanning, EventView::ScanFailed(_)) => self.errors < u64::MAX,
            (Phase::Deleting, EventView::DeleteFailed(_)) => self.errors < u64::MAX,
            (Phase::Deleting, EventView::Deleted) => self.deleted + self.page.len() <= u64::MAX,
            _ => true,
        }
    }
}

impl View for RunState {
    type V = RunView;

    closed spec fn view(&self) -> RunView {
        RunView {
            phase: self.phase,
            start: self.start@,
            end: self.end@,
            limit: self.limit as nat,
            page: keys_view(self.page@),
            deleted: self.deleted as nat,
            errors: self.errors as nat,
            last_error: match self.last_error {
                Some(message) => Some(message@),
                None => None,
            },
        }
    }
}

impl RunState {
    /// Whether the state is one that a run can be in.
    pub open spec fn wf(&self) -> bool {
        self@.wf()
    }

    /// A run over the keys from `start` up to, not including, `end`, that
    /// asks for `limit` keys per scan.
    pub fn new(start: String, end: String, limit: u32) -> (state: RunState)
        ensures
            state.wf(),
            state@ == RunView::initial(start@, end@, limit as nat),
    {
        let state = RunState {
            phase: Phase::Scanning,
            start,
            end,
            limit,
            page: Vec::new(),
            deleted: 0,
            errors: 0,
            last_error: None,
        };
        assert(keys_view(state.page@) =~= Seq::empty());
        state
    }

    /// Where the run stands.
    pub fn phase(&self) -> (phase: Phase)
        ensures
            phase == self@.phase,
    {
        self.phase
    }

    /// The action that is due.
    pub fn action(&self) -> (action: Action)
        ensures
            action == action_due(self@.phase),
    {
        match self.phase {
            Phase::Scanning => Action::Scan,
            Phase::Deleting => Action::Delete,
            Phase::Advancing => Action::Report,
            Phase::Done => Action::Finish,
        }
    }

    /// The cursor: the inclusive lower bound of the next scan.
    pub fn start(&self) -> (start: &String)
        ensures
            start@ == self@.start,
    {
        &self.start
    }

    /// The exclusive upper bound of every scan.
    pub fn end(&self) -> (end: &String)
        ensures
            end@ == self@.end,
    {
        &self.end
    }

    /// The number of keys to ask for in one scan.
    pub fn limit(&self) -> (limit: u32)
        ensures
            limit == self@.limit,
    {
        self.limit
    }

    /// The keys to delete while the run is `Deleting`; empty otherwise.
    pub fn page(&self) -> (page: &Vec<Vec<u8>>)
        ensures
            keys_view(page@) == self@.page,
    {
        &self.page
    }

    /// The number of keys deleted so far.
    pub fn deleted(&self) -> (deleted: u64)
        ensures
            deleted == self@.deleted,
    {
        self.deleted
    }

    /// The number of failed store calls so far.
    pub fn errors(&self) -> (errors: u64)
        ensures
            errors == self@.errors,
    {
        self.errors
    }

    /// Whether the counter that `event` moves has room for it, which is what
    /// [`step`] asks of its caller.
    pub fn has_room(&self, event: &Event) -> (ok: bool)
        ensures
            ok == self@.counts_fit(event@),
    {
        match self.phase {
            Phase::Scanning => match event {
                Event::ScanFailed(_) => self.errors < u64::MAX,
                _ => true,
            },
            Phase::Deleting => match event {
                Event::DeleteFailed(_) => self.errors < u64::MAX,
                Event::Deleted => self.page.len() as u64 <= u64::MAX - self.deleted,
                _ => true,
            },
            _ => true,
        }
    }

    /// The message of the latest failed store call, if any call has failed.
    pub fn last_error(&self) -> (message: Option<&String>)
        ensures
            message is Some <==> self@.last_error is Some,
            message matches Some(text) ==> self@.last_error == Some(text@),
    {
        self.last_error.as_ref()
    }
}

/// Counts a failed store call and goes back to scanning the same range.
fn fail(state: RunState, message: String) -> (next: RunState)
    requires
        state.wf(),
        state@.errors < u64::MAX,
    ensures
        next.wf(),
        next@ == state@.failed(message@),
{
    let mut next = state;
    next.phase = Phase::Scanning;
    next.page = Vec::new();
    next.errors = next.errors + 1;
    next.last_error = Some(message);
    assert(keys_view(next.page@) =~= Seq::empty());
    next
}

/// Moves the cursor of a run whose page has been deleted to `text`, the text
/// of the page's last key, and counts the page's keys. A run that is not
/// `Deleting` is handed back as it is.
pub fn advance(state: RunState, text: String) -> (next: RunState)
    requires
        state.wf(),
        state@.phase is Deleting ==> state@.deleted + state@.page.len() <= u64::MAX,
    ensures
        next.wf(),
        next@ == if state@.phase is Deleting {
            state@.advanced(text@)
        } else {
            state@
        },
{
    match state.phase {
        Phase::Deleting => {
            let mut next = state;
            next.phase = Phase::Advancing;
            next.start = text;
            next.deleted = next.deleted + next.page.len() as u64;
            next.page = Vec::new();
            assert(keys_view(next.page@) =~= Seq::empty());
            next
        },
        _ => state,
    }
}

/// Takes a run from `state` to the state that follows on `event`, and names
/// the action that is due there.
///
/// While `Scanning`, a failed scan is counted and the same scan is due again;
/// an empty scan ends the run; any other scan makes its keys the page to
/// delete. While `Deleting`, a failed delete is counted and the range is
/// scanned again from the unmoved cursor; a delete that went through moves
/// the cursor to the text of the page's last key and counts the page. While
/// `Advancing`, the shown progress update makes the next scan due. A run that
/// is `Done` stays so, and an event that does not answer the action due
/// changes nothing.
pub fn step(state: RunState, event: Event) -> (out: (RunState, Action))
    requires
        state.wf(),
        state@.counts_fit(event@),
    ensures
        out.0.wf(),
        out.0@ == state@.next(event@),
        out.1 == action_due(out.0@.phase),
{
    let next = match event {
        Event::ScanFailed(message) => match state.phase {
            Phase::Scanning => fail(state, message),
            _ => state,
        },
        Event::Scanned(keys) => match state.phase {
            Phase::Scanning => {
                let mut next = state;
                if keys.len() == 0 {
                    next.phase = Phase::Done;
                } else {
                    next.phase = Phase::Deleting;
                    next.page = keys;
                }
                next
            },
            _ => state,
        },
        Event::DeleteFailed(message) => match state.phase {
            Phase::Deleting => fail(state, message),
            _ => state,
        },
        Event::Deleted => match state.phase {
            Phase::Deleting => {
                let text = text_of_key(&state.page[state.page.len() - 1]);
                advance(state, text)
            },
            _ => state,
        },
        Event::Reported => match state.phase {
            Phase::Advancing => {
                let mut next = state;
                next.phase = Phase::Scanning;
                next
            },
            _ => state,
        },
    };
    let action = next.action();
    (next, action)
}

} // verus!
