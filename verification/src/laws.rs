//! What holds of every run, proved from the transitions and from what the
//! store is taken to do.

use vstd::prelude::*;
use vstd::utf8::valid_utf8;
use crate::key::{
    in_range, key_le, key_text, lemma_key_le_transitive, lemma_key_lt_irreflexive,
    lemma_text_round_trip, text_key,
};
use crate::run::{EventView, Phase, RunView};
use crate::store::{
    after_delete, lemma_page_is_full, lemma_range_after_page, range_keys, scan_honours,
};

verus! {

/// The keys that the run has yet to go through: those of `store` between
/// its cursor and its upper bound.
pub open spec fn keys_left(run: RunView, store: Set<Seq<u8>>) -> Set<Seq<u8>> {
    range_keys(store, text_key(run.start), text_key(run.end))
}

/// Whether `page` is what the store answers to the scan that `run` asks for.
pub open spec fn answers_scan(run: RunView, store: Set<Seq<u8>>, page: Seq<Seq<u8>>) -> bool {
    scan_honours(store, text_key(run.start), text_key(run.end), run.limit, page)
}

/// Whether the page that is being deleted came from the range of the run.
pub open spec fn page_from_range(run: RunView) -> bool {
    forall|i: int|
        0 <= i < run.page.len() ==> in_range(
            #[trigger] run.page[i],
            text_key(run.start),
            text_key(run.end),
        )
}

/// The keys handed to a delete are those that the scan returned, and a scan
/// that the store answers as it should returns keys of the range only: none
/// below the cursor, and neither the upper bound nor anything above it.
pub proof fn lemma_page_stays_in_range(run: RunView, store: Set<Seq<u8>>, page: Seq<Seq<u8>>)
    requires
        run.wf(),
        run.phase is Scanning,
        answers_scan(run, store, page),
    ensures
        run.next(EventView::Scanned(page)).page == page,
        run.next(EventView::Scanned(page)).wf(),
        page_from_range(run.next(EventView::Scanned(page))),
        forall|i: int| 0 <= i < page.len() ==> #[trigger] page[i] != text_key(run.end),
{
    assert forall|i: int| 0 <= i < page.len() implies in_range(
        #[trigger] page[i],
        text_key(run.start),
        text_key(run.end),
    ) && page[i] != text_key(run.end) by {
        assert(range_keys(store, text_key(run.start), text_key(run.end)).contains(page[i]));
        lemma_key_lt_irreflexive(text_key(run.end));
    }
}

/// Whether the text of `key`, read back as a key, sorts at or after `key`.
/// A cursor set to the text of such a key has not moved back behind it.
pub open spec fn text_keeps_place(key: Seq<u8>) -> bool {
    key_le(key, text_key(key_text(key)))
}

/// A key that is well-formed UTF-8 is its own text, so its text keeps its place.
pub proof fn lemma_utf8_text_keeps_place(key: Seq<u8>)
    requires
        valid_utf8(key),
    ensures
        text_keeps_place(key),
{
    lemma_text_round_trip(key);
}

/// The cursor never moves back: whatever the event, the cursor that follows
/// sorts at or after the cursor before it, and it is the same cursor unless
/// a page was deleted.
///
/// This is stated for pages that came from the range of the run and whose
/// last key has a text that keeps its place, as every key that is
/// well-formed UTF-8 has. Where a lossy decoding puts a lower text in the
/// place of a key, the cursor goes where that text sorts.
pub proof fn lemma_cursor_never_retreats(run: RunView, event: EventView)
    requires
        run.wf(),
        run.phase is Deleting ==> page_from_range(run) && text_keeps_place(run.page.last()),
    ensures
        key_le(text_key(run.start), text_key(run.next(event).start)),
        !(run.phase is Deleting && event is Deleted) ==> run.next(event).start == run.start,
        run.phase is Deleting && event is Deleted ==> run.next(event).start == key_text(
            run.page.last(),
        ),
        run.next(event).end == run.end,
{
    if run.phase is Deleting && event is Deleted {
        let last = run.page.last();
        assert(in_range(run.page[run.page.len() - 1], text_key(run.start), text_key(run.end)));
        lemma_key_le_transitive(text_key(run.start), last, text_key(key_text(last)));
    }
}

/// A failed store call costs no progress: it is counted, its message is
/// kept, and the same range is due to be scanned again with nothing else
/// changed.
pub proof fn lemma_failure_keeps_cursor(run: RunView, message: Seq<char>)
    requires
        run.wf(),
        run.phase is Scanning || run.phase is Deleting,
    ensures
        ({
            let event = if run.phase is Scanning {
                EventView::ScanFailed(message)
            } else {
                EventView::DeleteFailed(message)
            };
            let next = run.next(event);
            &&& next.wf()
            &&& next.phase is Scanning
            &&& next.start == run.start
            &&& next.end == run.end
            &&& next.limit == run.limit
            &&& next.deleted == run.deleted
            &&& next.errors == run.errors + 1
            &&& next.last_error == Some(message)
        }),
{
}

/// A scan of a range that holds no key ends the run at once, with nothing
/// counted as deleted and nothing else changed.
pub proof fn lemma_empty_range_ends_run(run: RunView, store: Set<Seq<u8>>, page: Seq<Seq<u8>>)
    requires
        run.wf(),
        run.phase is Scanning,
        run.limit > 0,
        store.finite(),
        keys_left(run, store).len() == 0,
        answers_scan(run, store, page),
    ensures
        page.len() == 0,
        run.next(EventView::Scanned(page)) == (RunView { phase: Phase::Done, ..run }),
        run.next(EventView::Scanned(page)).deleted == run.deleted,
{
    lemma_page_is_full(store, text_key(run.start), text_key(run.end), run.limit, page);
}

/// One way a round of the loop can go.
pub enum Round {
    /// The scan fails with this message.
    ScanFails(Seq<char>),
    /// The scan returns this page, and its delete fails with this message
    /// and removes nothing.
    DeleteFails(Seq<Seq<u8>>, Seq<char>),
    /// The scan returns this page, its delete goes through, and the progress
    /// update is shown.
    Succeeds(Seq<Seq<u8>>),
}

/// The run after `round`.
pub open spec fn after_round(run: RunView, round: Round) -> RunView {
    match round {
        Round::ScanFails(message) => run.next(EventView::ScanFailed(message)),
        Round::DeleteFails(page, message) => run.next(EventView::Scanned(page)).next(
            EventView::DeleteFailed(message),
        ),
        Round::Succeeds(page) => run.next(EventView::Scanned(page)).next(EventView::Deleted).next(
            EventView::Reported,
        ),
    }
}

/// The store after `round`.
pub open spec fn store_after_round(store: Set<Seq<u8>>, round: Round) -> Set<Seq<u8>> {
    match round {
        Round::Succeeds(page) => after_delete(store, page),
        _ => store,
    }
}

/// Whether `round` can happen to `run` on `store`: a page that a round
/// deletes is the store's answer to the run's scan, and holds a key.
pub open spec fn round_fits(run: RunView, store: Set<Seq<u8>>, round: Round) -> bool {
    match round {
        Round::ScanFails(_) => true,
        Round::DeleteFails(page, _) => page.len() > 0 && answers_scan(run, store, page),
        Round::Succeeds(page) => page.len() > 0 && answers_scan(run, store, page),
    }
}

/// Whether `rounds` is a whole run from `run` on `store`: each round can
/// happen where it stands, and behind the last one the scan comes back empty.
pub open spec fn runs_to_done(run: RunView, store: Set<Seq<u8>>, rounds: Seq<Round>) -> bool
    decreases rounds.len(),
{
    if rounds.len() == 0 {
        answers_scan(run, store, Seq::empty())
    } else {
        &&& round_fits(run, store, rounds[0])
        &&& runs_to_done(
            after_round(run, rounds[0]),
            store_after_round(store, rounds[0]),
            rounds.drop_first(),
        )
    }
}

/// The number of rounds among `rounds` in which a page was deleted.
pub open spec fn successes(rounds: Seq<Round>) -> nat
    decreases rounds.len(),
{
    if rounds.len() == 0 {
        0
    } else if rounds[0] is Succeeds {
        1 + successes(rounds.drop_first())
    } else {
        successes(rounds.drop_first())
    }
}

/// The run after all of `rounds`.
pub open spec fn after_rounds(run: RunView, rounds: Seq<Round>) -> RunView
    decreases rounds.len(),
{
    if rounds.len() == 0 {
        run
    } else {
        after_rounds(after_round(run, rounds[0]), rounds.drop_first())
    }
}

/// The number of pages of `limit` keys that `keys` keys fill: `keys / limit`,
/// rounded up.
pub open spec fn pages_needed(keys: nat, limit: nat) -> nat
    recommends
        limit > 0,
{
    ((keys + limit - 1) / (limit as int)) as nat
}

/// Taking one page off a range leaves one page less to go.
pub proof fn lemma_one_page_less(keys: nat, limit: nat)
    requires
        limit > 0,
        keys > 0,
    ensures
        pages_needed(0, limit) == 0,
        keys <= limit ==> pages_needed(keys, limit) == 1,
        keys > limit ==> pages_needed(keys, limit) == 1 + pages_needed((keys - limit) as nat, limit),
{
    let l = limit as int;
    let k = keys as int;
    assert((l - 1) / l == 0) by (nonlinear_arith)
        requires
            l > 0,
    ;
    if keys <= limit {
        assert((k + l - 1) / l == 1) by (nonlinear_arith)
            requires
                l > 0,
                0 < k <= l,
        ;
    } else {
        assert((k + l - 1) / l == 1 + (k - l + l - 1) / l) by (nonlinear_arith)
            requires
                l > 0,
                k > l,
        ;
    }
}

/// One round in which a page is deleted: the cursor is the page's last key,
/// the page's keys are counted, and what is left of the range is the old
/// range without the page.
pub proof fn lemma_successful_round(run: RunView, store: Set<Seq<u8>>, page: Seq<Seq<u8>>)
    requires
        run.wf(),
        run.phase is Scanning,
        store.finite(),
        page.len() > 0,
        answers_scan(run, store, page),
        valid_utf8(page.last()),
    ensures
        ({
            let next = after_round(run, Round::Succeeds(page));
            let left = after_delete(store, page);
            &&& next.wf()
            &&& next.phase is Scanning
            &&& text_key(next.start) == page.last()
            &&& key_le(text_key(run.start), text_key(next.start))
            &&& next.end == run.end
            &&& next.limit == run.limit
            &&& next.deleted == run.deleted + page.len()
            &&& next.errors == run.errors
            &&& left.finite()
            &&& keys_left(next, left) == keys_left(run, store).difference(page.to_set())
            &&& keys_left(next, left).len() == keys_left(run, store).len() - page.len()
        }),
{
    lemma_text_round_trip(page.last());
    lemma_range_after_page(store, text_key(run.start), text_key(run.end), run.limit, page);
}

/// A run over a range of N keys with a page limit of P deletes a page in
/// exactly N / P rounds, rounded up, before the scan comes back empty; failed
/// rounds in between neither add to that number nor take from it. The run
/// then is done, and has counted N keys as deleted.
///
/// This is stated for stores whose keys are well-formed UTF-8, so that the
/// cursor is the last key deleted.
pub proof fn lemma_rounds_to_done(run: RunView, store: Set<Seq<u8>>, rounds: Seq<Round>)
    requires
        run.wf(),
        run.phase is Scanning,
        run.limit > 0,
        store.finite(),
        forall|key: Seq<u8>| store.contains(key) ==> valid_utf8(key),
        runs_to_done(run, store, rounds),
    ensures
        successes(rounds) == pages_needed(keys_left(run, store).len(), run.limit),
        after_rounds(run, rounds).deleted == run.deleted + keys_left(run, store).len(),
        after_rounds(run, rounds).next(EventView::Scanned(Seq::empty())).phase is Done,
    decreases rounds.len(),
{
    let lo = text_key(run.start);
    let hi = text_key(run.end);
    let keys = keys_left(run, store).len();
    if rounds.len() == 0 {
        lemma_page_is_full(store, lo, hi, run.limit, Seq::empty());
        assert((run.limit - 1) / (run.limit as int) == 0) by (nonlinear_arith)
            requires
                run.limit > 0,
        ;
    } else {
        let round = rounds[0];
        let next = after_round(run, round);
        let left = store_after_round(store, round);
        match round {
            Round::ScanFails(message) => {},
            Round::DeleteFails(page, message) => {},
            Round::Succeeds(page) => {
                lemma_page_is_full(store, lo, hi, run.limit, page);
                assert(keys_left(run, store).contains(page[page.len() - 1]));
                lemma_successful_round(run, store, page);
                lemma_one_page_less(keys, run.limit);
            },
        }
        lemma_rounds_to_done(next, left, rounds.drop_first());
    }
}

} // verus!
