//! Finding the processes that hold a file open.
//!
//! The kernel answers a "processes using this file" query into a buffer whose
//! needed size is not known in advance. [`OwnerQuery`] decides the size of
//! each query and when to give up; [`plausible_owner_ids`] reads the id list
//! out of the buffer of a successful query.
use vstd::prelude::*;

verus! {

/// Ids at or below this value are placeholders, never a user process.
pub const PID_FLOOR: u64 = 40;

/// Ids at or above this value are taken for stale or padding entries.
pub const PID_CEILING: u64 = 0x10_0000;

/// How many times the query is issued before the resolution gives up.
pub const MAX_QUERY_ATTEMPTS: u32 = 20;

/// Bytes before the first id: a 32-bit count, padded to pointer alignment.
pub const LIST_HEADER_BYTES: usize = 8;

/// Bytes of one id slot (a pointer-sized integer, little-endian).
pub const ID_SLOT_BYTES: usize = 8;

/// How many ids the first buffer has room for.
pub const DEFAULT_ID_CAPACITY: usize = 400;

/// Size of the buffer handed to the first query.
pub const INITIAL_BUFFER_BYTES: usize = LIST_HEADER_BYTES + ID_SLOT_BYTES * DEFAULT_ID_CAPACITY;

/// Size of the buffer of the last query the budget allows: the first size
/// doubled nineteen times. It fits in the 32-bit length of the query.
pub const LARGEST_BUFFER_BYTES: usize = INITIAL_BUFFER_BYTES * 0x8_0000;

/// The query succeeded.
pub const STATUS_SUCCESS: u32 = 0;

/// The buffer does not match the size the information class needs.
pub const STATUS_INFO_LENGTH_MISMATCH: u32 = 0xC000_0004;

/// The buffer is too small for the answer.
pub const STATUS_BUFFER_TOO_SMALL: u32 = 0xC000_0023;

/// The answer was cut off at the end of the buffer.
pub const STATUS_BUFFER_OVERFLOW: u32 = 0x8000_0005;

/// The system does not know this information class.
pub const STATUS_INVALID_INFO_CLASS: u32 = 0xC000_0003;

/// The system does not implement the query.
pub const STATUS_NOT_IMPLEMENTED: u32 = 0xC000_0002;

/// The request is not supported.
pub const STATUS_NOT_SUPPORTED: u32 = 0xC000_00BB;

/// Why the owners of a path could not be found.
#[derive(Debug, Clone, Copy, PartialEq, Eq, Structural)]
pub enum ResolutionError {
    /// The path could not be opened even for reading its attributes.
    OpenFailed,
    /// Every buffer size within the attempt budget was refused as too small.
    Timeout,
    /// The platform does not offer the query.
    Unsupported,
    /// The query failed with this status for a reason other than size.
    QueryFailed(u32),
}

/// What a query status means for the sizing protocol.
#[derive(Debug, Clone, Copy, PartialEq, Eq, Structural)]
pub enum StatusClass {
    Success,
    NeedsLargerBuffer,
    Unsupported,
    Fatal,
}

pub open spec fn status_class(status: u32) -> StatusClass {
    if status == STATUS_SUCCESS {
        StatusClass::Success
    } else if status == STATUS_INFO_LENGTH_MISMATCH || status == STATUS_BUFFER_TOO_SMALL
        || status == STATUS_BUFFER_OVERFLOW {
        StatusClass::NeedsLargerBuffer
    } else if status == STATUS_INVALID_INFO_CLASS || status == STATUS_NOT_IMPLEMENTED
        || status == STATUS_NOT_SUPPORTED {
        StatusClass::Unsupported
    } else {
        StatusClass::Fatal
    }
}

/// Sorts a status returned by the kernel query.
pub fn classify_status(status: u32) -> (c: StatusClass)
    ensures
        c == status_class(status),
{
    if status == STATUS_SUCCESS {
        StatusClass::Success
    } else if status == STATUS_INFO_LENGTH_MISMATCH || status == STATUS_BUFFER_TOO_SMALL
        || status == STATUS_BUFFER_OVERFLOW {
        StatusClass::NeedsLargerBuffer
    } else if status == STATUS_INVALID_INFO_CLASS || status == STATUS_NOT_IMPLEMENTED
        || status == STATUS_NOT_SUPPORTED {
        StatusClass::Unsupported
    } else {
        StatusClass::Fatal
    }
}

/// Size of the buffer for the query after `doublings` refusals.
pub open spec fn buffer_bytes(doublings: nat) -> nat
    decreases doublings,
{
    if doublings == 0 {
        INITIAL_BUFFER_BYTES as nat
    } else {
        2 * buffer_bytes((doublings - 1) as nat)
    }
}

/// The sizing protocol as a value: how many queries were issued, and the
/// size of the buffer the last one was given.
pub struct QueryState {
    pub issued: nat,
    pub capacity: nat,
}

/// What to do after a query has answered.
#[derive(Debug, Clone, Copy, PartialEq, Eq, Structural)]
pub enum QueryStep {
    /// Issue the query again with a buffer of this many bytes.
    Query(usize),
    /// The buffer holds the answer: read the ids out of it.
    Decode,
    /// Stop: the owners cannot be found.
    Fail(ResolutionError),
}

pub open spec fn initial_query() -> QueryState {
    QueryState { issued: 1, capacity: INITIAL_BUFFER_BYTES as nat }
}

pub open spec fn query_state_wf(q: QueryState) -> bool {
    1 <= q.issued <= MAX_QUERY_ATTEMPTS && q.capacity == buffer_bytes((q.issued - 1) as nat)
}

/// One step of the protocol: the state after a query answered with `status`,
/// and what to do next.
pub open spec fn query_next(q: QueryState, status: u32) -> (QueryState, QueryStep) {
    match status_class(status) {
        StatusClass::Success => (q, QueryStep::Decode),
        StatusClass::NeedsLargerBuffer => if q.issued < MAX_QUERY_ATTEMPTS {
            let bigger = QueryState { issued: q.issued + 1, capacity: 2 * q.capacity };
            (bigger, QueryStep::Query((2 * q.capacity) as usize))
        } else {
            (q, QueryStep::Fail(ResolutionError::Timeout))
        },
        StatusClass::Unsupported => (q, QueryStep::Fail(ResolutionError::Unsupported)),
        StatusClass::Fatal => (q, QueryStep::Fail(ResolutionError::QueryFailed(status))),
    }
}

/// The steps taken when the queries answer with `statuses` in turn, up to
/// and including the first step that is not another query.
pub open spec fn query_run(q: QueryState, statuses: Seq<u32>) -> Seq<QueryStep>
    decreases statuses.len(),
{
    if statuses.len() == 0 {
        seq![]
    } else {
        let (next, step) = query_next(q, statuses[0]);
        if step is Query {
            seq![step] + query_run(next, statuses.drop_first())
        } else {
            seq![step]
        }
    }
}

proof fn lemma_buffer_bytes_bound(k: nat)
    requires
        k < MAX_QUERY_ATTEMPTS,
    ensures
        INITIAL_BUFFER_BYTES <= buffer_bytes(k) <= buffer_bytes(19),
        buffer_bytes(19) == 1_681_915_904,
    decreases 19 - k,
{
    reveal_with_fuel(buffer_bytes, 20);
    if k < 19 {
        lemma_buffer_bytes_bound(k + 1);
    }
}

proof fn lemma_query_run_from(q: QueryState, statuses: Seq<u32>)
    requires
        query_state_wf(q),
    ensures
        query_run(q, statuses).len() <= MAX_QUERY_ATTEMPTS + 1 - q.issued,
        statuses.len() > MAX_QUERY_ATTEMPTS - q.issued && (forall|i: int|
            0 <= i <= MAX_QUERY_ATTEMPTS - q.issued ==> #[trigger] status_class(statuses[i])
                == StatusClass::NeedsLargerBuffer) ==> {
            let run = query_run(q, statuses);
            &&& run.len() == MAX_QUERY_ATTEMPTS + 1 - q.issued
            &&& run.last() == QueryStep::Fail(ResolutionError::Timeout)
        },
    decreases statuses.len(),
{
    if statuses.len() > 0 {
        let (next, step) = query_next(q, statuses[0]);
        if step is Query {
            lemma_buffer_bytes_bound((q.issued - 1) as nat);
            let rest = statuses.drop_first();
            lemma_query_run_from(next, rest);
            if statuses.len() > MAX_QUERY_ATTEMPTS - q.issued && (forall|i: int|
                0 <= i <= MAX_QUERY_ATTEMPTS - q.issued ==> #[trigger] status_class(statuses[i])
                    == StatusClass::NeedsLargerBuffer) {
                assert forall|i: int| 0 <= i <= MAX_QUERY_ATTEMPTS - next.issued implies
                    #[trigger] status_class(rest[i]) == StatusClass::NeedsLargerBuffer by {
                    assert(status_class(statuses[i + 1]) == StatusClass::NeedsLargerBuffer);
                }
            }
        }
    }
}

/// The sizing protocol never issues more than twenty queries, whatever the
/// kernel answers; and when it answers "too small" twenty times in a row,
/// the resolution ends in a timeout.
pub proof fn lemma_query_budget_bounded(statuses: Seq<u32>)
    ensures
        query_run(initial_query(), statuses).len() <= MAX_QUERY_ATTEMPTS,
        statuses.len() >= MAX_QUERY_ATTEMPTS && (forall|i: int|
            0 <= i < MAX_QUERY_ATTEMPTS ==> #[trigger] status_class(statuses[i])
                == StatusClass::NeedsLargerBuffer) ==> {
            let run = query_run(initial_query(), statuses);
            &&& run.len() == MAX_QUERY_ATTEMPTS
            &&& run.last() == QueryStep::Fail(ResolutionError::Timeout)
        },
{
    reveal_with_fuel(buffer_bytes, 1);
    lemma_query_run_from(initial_query(), statuses);
}

/// The sizing protocol for one resolution: starts with a buffer of
/// [`INITIAL_BUFFER_BYTES`] and doubles it on every "too small" answer, up to
/// [`MAX_QUERY_ATTEMPTS`] queries in all.
pub struct OwnerQuery {
    issued: u32,
    capacity: usize,
}

impl View for OwnerQuery {
    type V = QueryState;

    closed spec fn view(&self) -> QueryState {
        QueryState { issued: self.issued as nat, capacity: self.capacity as nat }
    }
}

impl OwnerQuery {
    pub closed spec fn wf(&self) -> bool {
        query_state_wf(self@)
    }

    /// The protocol before the first query.
    pub fn new() -> (q: OwnerQuery)
        ensures
            q.wf(),
            q@ == initial_query(),
    {
        OwnerQuery { issued: 1, capacity: INITIAL_BUFFER_BYTES }
    }

    /// Size of the buffer for the query to issue now.
    pub fn capacity(&self) -> (c: usize)
        requires
            self.wf(),
        ensures
            c == self@.capacity,
            c <= LARGEST_BUFFER_BYTES,
    {
        proof {
            lemma_buffer_bytes_bound((self.issued - 1) as nat);
        }
        self.capacity
    }

    /// How many queries have been issued, the current one included.
    pub fn issued(&self) -> (n: u32)
        requires
            self.wf(),
        ensures
            n == self@.issued,
    {
        self.issued
    }

    /// Takes the status of the query just issued and says what to do next.
    pub fn on_status(&mut self, status: u32) -> (step: QueryStep)
        requires
            old(self).wf(),
        ensures
            final(self).wf(),
            (final(self)@, step) == query_next(old(self)@, status),
            step matches QueryStep::Query(n) ==> n <= LARGEST_BUFFER_BYTES,
    {
        match classify_status(status) {
            StatusClass::Success => QueryStep::Decode,
            StatusClass::NeedsLargerBuffer => {
                if self.issued < MAX_QUERY_ATTEMPTS {
                    proof {
                        lemma_buffer_bytes_bound((self.issued - 1) as nat);
                        lemma_buffer_bytes_bound(self.issued as nat);
                    }
                    self.issued = self.issued + 1;
                    self.capacity = self.capacity * 2;
                    QueryStep::Query(self.capacity)
                } else {
                    QueryStep::Fail(ResolutionError::Timeout)
                }
            },
            StatusClass::Unsupported => QueryStep::Fail(ResolutionError::Unsupported),
            StatusClass::Fatal => QueryStep::Fail(ResolutionError::QueryFailed(status)),
        }
    }
}

/// Whether `id` can name a user process.
pub open spec fn plausible_pid(id: u64) -> bool {
    PID_FLOOR < id && id < PID_CEILING
}

/// The little-endian integer in the eight bytes of `b` from `at`.
pub open spec fn le_u64(b: Seq<u8>, at: int) -> int {
    b[at] + 256 * (b[at + 1] + 256 * (b[at + 2] + 256 * (b[at + 3] + 256 * (b[at + 4] + 256 * (
    b[at + 5] + 256 * (b[at + 6] + 256 * b[at + 7]))))))
}

/// How many whole id slots a buffer of `len` bytes holds after the header.
pub open spec fn slot_count(len: nat) -> nat {
    if len < LIST_HEADER_BYTES {
        0
    } else {
        ((len - LIST_HEADER_BYTES) / ID_SLOT_BYTES as int) as nat
    }
}

/// Every id slot of the buffer, the count in the header notwithstanding: the
/// slots past it hold zeros or stale values, which the filter drops.
pub open spec fn id_slots(b: Seq<u8>) -> Seq<u64> {
    Seq::new(
        slot_count(b.len()),
        |i: int| le_u64(b, LIST_HEADER_BYTES + ID_SLOT_BYTES * i) as u64,
    )
}

/// The plausible ids of `s`, each once, in the order of their first
/// occurrence.
pub open spec fn keep_plausible(s: Seq<u64>) -> Seq<u64>
    decreases s.len(),
{
    if s.len() == 0 {
        seq![]
    } else {
        let kept = keep_plausible(s.drop_last());
        if plausible_pid(s.last()) && !kept.contains(s.last()) {
            kept.push(s.last())
        } else {
            kept
        }
    }
}

/// The ids of the owners that a successful query left in `b`.
pub open spec fn owner_ids(b: Seq<u8>) -> Seq<u64> {
    keep_plausible(id_slots(b))
}

/// The kept ids form a set: no id twice, and exactly the plausible ids of
/// `s`.
pub proof fn lemma_keep_plausible_is_set(s: Seq<u64>)
    ensures
        keep_plausible(s).no_duplicates(),
        forall|x: u64| #[trigger] keep_plausible(s).contains(x) <==> s.contains(x) && plausible_pid(x),
    decreases s.len(),
{
    if s.len() > 0 {
        let init = s.drop_last();
        lemma_keep_plausible_is_set(init);
        let kept = keep_plausible(init);
        assert forall|x: u64| #[trigger] keep_plausible(s).contains(x) <==> s.contains(x) && plausible_pid(x) by {
            if s.contains(x) && x != s.last() {
                let i = choose|i: int| 0 <= i < s.len() && s[i] == x;
                assert(init[i] == x);
            }
            if init.contains(x) {
                let i = choose|i: int| 0 <= i < init.len() && init[i] == x;
                assert(s[i] == x);
            }
            if plausible_pid(s.last()) && !kept.contains(s.last()) {
                assert(kept.push(s.last())[kept.len() as int] == s.last());
                if kept.contains(x) {
                    let i = choose|i: int| 0 <= i < kept.len() && kept[i] == x;
                    assert(kept.push(s.last())[i] == x);
                }
                if kept.push(s.last()).contains(x) && x != s.last() {
                    let i = choose|i: int| 0 <= i < kept.len() + 1 && kept.push(s.last())[i] == x;
                    assert(kept[i] == x);
                }
            }
            assert(s[s.len() - 1] == s.last());
        }
    }
}

fn holds_id(ids: &Vec<u64>, id: u64) -> (r: bool)
    ensures
        r == ids@.contains(id),
{
    let mut i: usize = 0;
    while i < ids.len()
        invariant
            i <= ids.len(),
            forall|j: int| 0 <= j < i ==> ids@[j] != id,
        decreases ids.len() - i,
    {
        if ids[i] == id {
            return true;
        }
        i = i + 1;
    }
    false
}

/// Whether `id` can name a user process.
pub fn is_plausible_pid(id: u64) -> (r: bool)
    ensures
        r == plausible_pid(id),
{
    PID_FLOOR < id && id < PID_CEILING
}

fn read_u64_le(b: &Vec<u8>, at: usize) -> (v: u64)
    requires
        at + 8 <= b.len(),
    ensures
        v == le_u64(b@, at as int),
{
    let x7 = b[at + 7] as u64;
    let x6 = b[at + 6] as u64 + 256 * x7;
    assert(x6 < 0x1_0000);
    let x5 = b[at + 5] as u64 + 256 * x6;
    assert(x5 < 0x100_0000);
    let x4 = b[at + 4] as u64 + 256 * x5;
    assert(x4 < 0x1_0000_0000);
    let x3 = b[at + 3] as u64 + 256 * x4;
    assert(x3 < 0x100_0000_0000);
    let x2 = b[at + 2] as u64 + 256 * x3;
    assert(x2 < 0x1_0000_0000_0000);
    let x1 = b[at + 1] as u64 + 256 * x2;
    assert(x1 < 0x100_0000_0000_0000);
    b[at] as u64 + 256 * x1
}

/// Reads the id list out of the buffer of a successful query and keeps the
/// set of plausible ids, each once, in the order of first occurrence.
pub fn plausible_owner_ids(buf: &Vec<u8>) -> (ids: Vec<u64>)
    ensures
        ids@ == owner_ids(buf@),
        ids@.no_duplicates(),
        forall|x: u64| #[trigger] ids@.contains(x) <==> id_slots(buf@).contains(x) && plausible_pid(x),
{
    let n: usize = if buf.len() < LIST_HEADER_BYTES {
        0
    } else {
        (buf.len() - LIST_HEADER_BYTES) / ID_SLOT_BYTES
    };
    let mut ids: Vec<u64> = Vec::new();
    let mut i: usize = 0;
    while i < n
        invariant
            n == slot_count(buf@.len()),
            i <= n,
            ids@ == keep_plausible(id_slots(buf@).take(i as int)),
        decreases n - i,
    {
        assert(LIST_HEADER_BYTES + ID_SLOT_BYTES * (i + 1) <= buf.len()) by (nonlinear_arith)
            requires
                i < n,
                n == (buf.len() - 8) / 8,
                buf.len() >= 8,
        ;
        let id = read_u64_le(buf, LIST_HEADER_BYTES + ID_SLOT_BYTES * i);
        assert(id_slots(buf@).take(i + 1).drop_last() =~= id_slots(buf@).take(i as int));
        if is_plausible_pid(id) && !holds_id(&ids, id) {
            ids.push(id);
        }
        i = i + 1;
    }
    assert(id_slots(buf@).take(n as int) =~= id_slots(buf@));
    proof {
        lemma_keep_plausible_is_set(id_slots(buf@));
    }
    ids
}

/// A process that holds a path open.
#[derive(Debug, Clone)]
pub struct ProcessInfo {
    pub pid: usize,
    pub name: String,
}

/// The name shown for a process whose executable could not be found.
pub open spec fn unknown_name() -> Seq<char> {
    "<Unknown>"@
}

impl ProcessInfo {
    /// An owner with the name found for it, or the placeholder
    /// `<Unknown>` when the lookup found none.
    pub fn new(pid: usize, name: Option<String>) -> (p: ProcessInfo)
        ensures
            p.pid == pid,
            p.name@ == match name {
                Some(n) => n@,
                None => unknown_name(),
            },
    {
        let name = match name {
            Some(n) => n,
            None => "<Unknown>".to_owned(),
        };
        ProcessInfo { pid, name }
    }
}

} // verus!
