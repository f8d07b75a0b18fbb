use vstd::prelude::*;

use crate::aes::{spec_decrypt_str, Key};
use crate::codec::{batch_view, decode_batch, spec_decode_batch};
use crate::errors::EntryError;

verus! {

/// How many log entries one fetch may request at most.
pub const READ_MSGS_AT_ONCE_NUM: u64 = 10;

/// The consumer-side read cursor: how many log entries have been consumed
/// from the start. It never moves backwards.
pub struct CursorStore {
    value: u64,
}

impl View for CursorStore {
    type V = u64;

    closed spec fn view(&self) -> u64 {
        self.value
    }
}

impl CursorStore {
    /// A store over a previously persisted cursor; 0 on first-ever use.
    pub fn new(initial: u64) -> (s: CursorStore)
        ensures
            s@ == initial,
    {
        CursorStore { value: initial }
    }

    /// The current cursor.
    pub fn read(&self) -> (c: u64)
        ensures
            c == self@,
    {
        self.value
    }

    /// Move the cursor forward; it never decreases.
    pub fn write(&mut self, cursor: u64)
        requires
            cursor >= old(self)@,
        ensures
            final(self)@ == cursor,
    {
        self.value = cursor;
    }
}

/// One read query against the remote log.
pub struct FetchRequest {
    pub start_index: u64,
    pub num_msgs: u64,
}

/// The query a cycle issues at a given cursor: the next unread position, and
/// a page of at most `READ_MSGS_AT_ONCE_NUM` entries.
pub open spec fn spec_next_request(cursor: u64) -> (u64, u64) {
    (cursor, READ_MSGS_AT_ONCE_NUM as u64)
}

/// Build the fetch request for the current cursor. However far behind the
/// cursor is, no more than `READ_MSGS_AT_ONCE_NUM` entries are requested.
pub fn next_request(cursor: u64) -> (r: FetchRequest)
    ensures
        (r.start_index, r.num_msgs) == spec_next_request(cursor),
        r.start_index == cursor,
        r.num_msgs == READ_MSGS_AT_ONCE_NUM,
        r.num_msgs <= 10,
{
    FetchRequest { start_index: cursor, num_msgs: READ_MSGS_AT_ONCE_NUM }
}

/// What one fetch came to: the raw response payload, or a transient
/// remote/network failure.
pub enum FetchOutcome {
    Response(Vec<u8>),
    FetchError,
}

impl View for FetchOutcome {
    type V = Option<Seq<u8>>;

    open spec fn view(&self) -> Option<Seq<u8>> {
        match self {
            FetchOutcome::Response(payload) => Some(payload@),
            FetchOutcome::FetchError => None,
        }
    }
}

/// The batch a response decodes to, if the fetch succeeded and the payload
/// follows the wire format.
pub open spec fn spec_batch_of(response: Option<Seq<u8>>) -> Option<Seq<(Seq<u8>, Seq<u8>)>> {
    match response {
        None => None,
        Some(bytes) => spec_decode_batch(bytes),
    }
}

/// A cycle advances the cursor exactly when fetch and decode both succeeded
/// and the new cursor still fits.
pub open spec fn spec_cycle_advances(cursor: u64, response: Option<Seq<u8>>) -> bool {
    match spec_batch_of(response) {
        Some(batch) => cursor + batch.len() <= u64::MAX,
        None => false,
    }
}

/// The cursor after one poll cycle: moved past the whole batch on success,
/// unchanged on any failure.
pub open spec fn spec_next_cursor(cursor: u64, response: Option<Seq<u8>>) -> u64 {
    if spec_cycle_advances(cursor, response) {
        (cursor + spec_batch_of(response)->Some_0.len()) as u64
    } else {
        cursor
    }
}

/// How a cycle ends: with the normal inter-poll delay, or with the extra
/// backoff delay after a fetch or decode failure.
pub enum CycleOutcome {
    /// Fetch or decode failed: back off and retry the same range.
    BackoffSleeping,
    /// The batch was processed: one decrypt outcome per entry, in order.
    Sleeping(Vec<Result<String, EntryError>>),
}

/// The result of entry `entry` under `key` is `res`: the decrypted text, or
/// the per-entry error.
pub open spec fn entry_outcome_ok(
    res: Result<String, EntryError>,
    entry: (Seq<u8>, Seq<u8>),
    key: Seq<u8>,
) -> bool {
    match res {
        Ok(s) => spec_decrypt_str(entry.1, key, entry.0) == Ok::<Seq<char>, EntryError>(s@),
        Err(e) => spec_decrypt_str(entry.1, key, entry.0) == Err::<Seq<char>, EntryError>(e),
    }
}

/// One poll cycle after the fetch: decode the response, decrypt each entry
/// independently, and advance the cursor by the batch length.
///
/// The cursor never decreases. On a fetch or decode failure it is unchanged
/// and the cycle ends in backoff. On success every entry gets its own
/// decrypt outcome — one bad entry neither stops the others nor holds the
/// cursor back.
pub fn run_cycle(store: &mut CursorStore, key: &Key, outcome: FetchOutcome) -> (r: CycleOutcome)
    requires
        key.wf(),
    ensures
        final(store)@ == spec_next_cursor(old(store)@, outcome@),
        final(store)@ >= old(store)@,
        match r {
            CycleOutcome::BackoffSleeping => {
                &&& !spec_cycle_advances(old(store)@, outcome@)
                &&& final(store)@ == old(store)@
            },
            CycleOutcome::Sleeping(results) => {
                &&& spec_cycle_advances(old(store)@, outcome@)
                &&& spec_batch_of(outcome@) matches Some(batch) && {
                    &&& results@.len() == batch.len()
                    &&& final(store)@ == old(store)@ + batch.len()
                    &&& forall|i: int|
                        0 <= i < batch.len() ==> entry_outcome_ok(
                            #[trigger] results@[i],
                            batch[i],
                            key@,
                        )
                }
            },
        },
{
    match outcome {
        FetchOutcome::FetchError => CycleOutcome::BackoffSleeping,
        FetchOutcome::Response(payload) => {
            match decode_batch(&payload) {
                Err(_) => CycleOutcome::BackoffSleeping,
                Ok(ws) => {
                    let cur: u64 = store.read();
                    let n: usize = ws.len();
                    if n as u64 <= u64::MAX - cur {
                        let ghost batch = batch_view(ws@);
                        let mut results: Vec<Result<String, EntryError>> = Vec::new();
                        let mut idx: usize = 0;
                        while idx < ws.len()
                            invariant
                                key.wf(),
                                idx <= ws.len(),
                                results@.len() == idx,
                                batch == batch_view(ws@),
                                forall|m: int| 0 <= m < ws@.len() ==> (#[trigger] ws@[m]).wf(),
                                forall|m: int|
                                    0 <= m < idx ==> entry_outcome_ok(
                                        #[trigger] results@[m],
                                        batch[m],
                                        key@,
                                    ),
                            decreases ws@.len() - idx,
                        {
                            let res = ws[idx].decrypt_str(key);
                            results.push(res);
                            idx += 1;
                        }
                        store.write(cur + n as u64);
                        CycleOutcome::Sleeping(results)
                    } else {
                        CycleOutcome::BackoffSleeping
                    }
                },
            }
        },
    }
}

/// Law: over one cycle the persisted cursor is non-decreasing, and its
/// advance is exactly the length of the batch just processed — 0 on an empty
/// batch or on any failure.
pub proof fn lemma_cursor_monotonic(cursor: u64, response: Option<Seq<u8>>)
    ensures
        spec_next_cursor(cursor, response) >= cursor,
        spec_cycle_advances(cursor, response) ==> spec_next_cursor(cursor, response) - cursor
            == spec_batch_of(response)->Some_0.len(),
        !spec_cycle_advances(cursor, response) ==> spec_next_cursor(cursor, response) == cursor,
{
}

/// The cursor after a whole sequence of poll cycles, first response first.
pub open spec fn spec_cursor_after(cursor: u64, responses: Seq<Option<Seq<u8>>>) -> u64
    decreases responses.len(),
{
    if responses.len() == 0 {
        cursor
    } else {
        spec_cursor_after(spec_next_cursor(cursor, responses[0]), responses.drop_first())
    }
}

/// Law: over any sequence of poll cycles the persisted cursor never
/// decreases.
pub proof fn lemma_cursor_monotonic_over_trace(cursor: u64, responses: Seq<Option<Seq<u8>>>)
    ensures
        spec_cursor_after(cursor, responses) >= cursor,
    decreases responses.len(),
{
    if responses.len() > 0 {
        lemma_cursor_monotonic_over_trace(
            spec_next_cursor(cursor, responses[0]),
            responses.drop_first(),
        );
    }
}

/// Law: a failed cycle — a fetch error, or a payload that does not decode —
/// leaves the cursor where it was, so the next cycle issues the identical
/// `(start_index, num_msgs)` query and the same batch is re-attempted.
pub proof fn lemma_failed_cycle_refetches_same(cursor: u64, response: Option<Seq<u8>>)
    requires
        spec_batch_of(response) is None,
    ensures
        spec_next_cursor(cursor, response) == cursor,
        spec_next_request(spec_next_cursor(cursor, response)) == spec_next_request(cursor),
{
}

} // verus!
