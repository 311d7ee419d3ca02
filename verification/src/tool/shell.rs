//! Commands that run in the background, and what of their output has been told.
use crate::encoding::{lossy_text, utf8_lossy, utf8_text};
use crate::runtime::budget::MIN_TOOL_OUTPUT_TOKENS;
use crate::tables::{table, table_lacks, table_last, table_update};
use crate::text;
use crate::text::{
    boundary_at, boundary_of_concat, boundary_of_skip, ceil_bounds, ceil_of, digits, digits_size,
    digits_value, encode_concat, floor_bounds, floor_is_floor, floor_of, near_boundary,
    power_of_ten, signed_digits,
};
use vstd::prelude::*;
use vstd::string::*;
use vstd::utf8::*;

verus! {

/// The time to wait where none is given, in milliseconds.
pub const DEFAULT_SHELL_YIELD: u64 = 10_000;

/// The longest time to wait, in milliseconds.
pub const MAX_SHELL_YIELD: u64 = 30_000;

/// The bytes of output that are kept.
pub const MAX_SHELL_RETAINED: usize = 262_144;

/// The process group of a command, by the id of its process; an error where it has none.
pub fn lease_tree(pid: Option<u32>) -> (result: Result<i32, String>)
    ensures
        match result {
            Ok(group) => group > 0 && pid == Some(group as u32),
            Err(message) => message@ == "shell has no process group"@ && (pid matches Some(n) ==> n
                == 0 || n > i32::MAX),
        },
{
    match pid {
        Some(n) if 0 < n && n <= 0x7fff_ffff => Ok(n as i32),
        _ => Err("shell has no process group".to_owned()),
    }
}

/// The time to wait, in milliseconds.
pub fn clamp_yield(millis: Option<u64>) -> (result: u64)
    ensures
        result == match millis {
            None => DEFAULT_SHELL_YIELD,
            Some(0) => 1,
            Some(n) => if n > MAX_SHELL_YIELD {
                MAX_SHELL_YIELD
            } else {
                n
            },
        },
        1 <= result <= MAX_SHELL_YIELD,
{
    match millis {
        None => DEFAULT_SHELL_YIELD,
        Some(n) => if n == 0 {
            1
        } else if n > MAX_SHELL_YIELD {
            MAX_SHELL_YIELD
        } else {
            n
        },
    }
}

/// How a command stands. A command that a signal ended has no exit code.
#[derive(Clone, Copy, Debug, PartialEq, Eq, Structural)]
pub enum ShellJobState {
    Running,
    Finished(Option<i32>),
    Cancelled(Option<i32>),
}

impl ShellJobState {
    pub open spec fn ended(self) -> bool {
        self != ShellJobState::Running
    }

    pub fn is_terminal(&self) -> (result: bool)
        ensures
            result == self.ended(),
    {
        match self {
            ShellJobState::Running => false,
            _ => true,
        }
    }

    pub open spec fn code(self) -> Option<i32> {
        match self {
            ShellJobState::Running => None,
            ShellJobState::Finished(code) => code,
            ShellJobState::Cancelled(code) => code,
        }
    }

    pub fn exit_code(&self) -> (result: Option<i32>)
        ensures
            result == self.code(),
    {
        match self {
            ShellJobState::Running => None,
            ShellJobState::Finished(code) => *code,
            ShellJobState::Cancelled(code) => *code,
        }
    }
}

pub open spec fn state_name(state: ShellJobState) -> Seq<char> {
    match state {
        ShellJobState::Running => "running"@,
        ShellJobState::Finished(_) => "finished"@,
        ShellJobState::Cancelled(_) => "cancelled"@,
    }
}

/// The lines that stand before the output.
pub open spec fn header_text(
    job_id: Seq<char>,
    state: ShellJobState,
    has_more: bool,
    discarded: u64,
) -> Seq<char> {
    "status: "@ + state_name(state) + "\n"@ + (if state.ended() {
        "exit_code: "@ + signed_digits(
            match state.code() {
                Some(code) => code as int,
                None => -1,
            },
        ) + "\n"@
    } else {
        Seq::empty()
    }) + "job_id: "@ + job_id + "\n"@ + (if discarded > 0 {
        "note: "@ + digits(discarded as nat) + " bytes of output discarded\n"@
    } else {
        Seq::empty()
    }) + (if has_more {
        "has_more: true\n"@
    } else {
        Seq::empty()
    }) + "output:\n"@
}

proof fn ascii_joined(a: Seq<char>, b: Seq<char>)
    requires
        is_ascii_chars(a),
        is_ascii_chars(b),
    ensures
        is_ascii_chars(a + b),
{
    assert forall|i: int| 0 <= i < (a + b).len() implies '\0' <= #[trigger] (a + b)[i]
        <= '\u{7f}' by {
        if i < a.len() {
            assert((a + b)[i] == a[i]);
        } else {
            assert((a + b)[i] == b[i - a.len()]);
        }
    }
}

proof fn short_text(state: ShellJobState, number: int)
    requires
        -4_294_967_296 < number < 4_294_967_296,
    ensures
        is_ascii_chars(state_name(state)) && state_name(state).len() <= 9,
        is_ascii_chars(signed_digits(number)) && signed_digits(number).len() <= 11,
        is_ascii_chars("status: "@) && "status: "@.len() == 8,
        is_ascii_chars("\n"@) && "\n"@.len() == 1,
        is_ascii_chars("exit_code: "@) && "exit_code: "@.len() == 11,
        is_ascii_chars("job_id: "@) && "job_id: "@.len() == 8,
        is_ascii_chars("has_more: true\n"@) && "has_more: true\n"@.len() == 15,
        is_ascii_chars("output:\n"@) && "output:\n"@.len() == 8,
        is_ascii_chars("shell-"@) && "shell-"@.len() == 6,
{
    reveal_strlit("running");
    reveal_strlit("finished");
    reveal_strlit("cancelled");
    reveal_strlit("status: ");
    reveal_strlit("\n");
    reveal_strlit("exit_code: ");
    reveal_strlit("job_id: ");
    reveal_strlit("has_more: true\n");
    reveal_strlit("output:\n");
    reveal_strlit("shell-");
    reveal_strlit("-");
    reveal_with_fuel(power_of_ten, 11);
    if number < 0 {
        digits_size((-number) as nat, 10);
        ascii_joined("-"@, digits((-number) as nat));
    } else {
        digits_size(number as nat, 10);
    }
}

/// The lines that stand before the output of a command fit into the least that a result
/// may take, unless output was dropped: so a result always tells how the command stands
/// and by which name it is asked for again.
pub proof fn header_law(n: u64, state: ShellJobState, has_more: bool)
    ensures
        encode_utf8(header_text(job_name(n), state, has_more, 0)).len() <= 4
            * MIN_TOOL_OUTPUT_TOKENS,
{
    let code = match state.code() {
        Some(code) => code as int,
        None => -1,
    };
    short_text(state, code);
    reveal_with_fuel(power_of_ten, 21);
    digits_size(n as nat, 20);
    let none = Seq::<char>::empty();
    assert(is_ascii_chars(none));
    let id = job_name(n);
    ascii_joined("shell-"@, digits(n as nat));
    let first = "status: "@ + state_name(state) + "\n"@;
    ascii_joined("status: "@, state_name(state));
    ascii_joined("status: "@ + state_name(state), "\n"@);
    ascii_joined("exit_code: "@, signed_digits(code));
    ascii_joined("exit_code: "@ + signed_digits(code), "\n"@);
    let second = if state.ended() {
        "exit_code: "@ + signed_digits(code) + "\n"@
    } else {
        none
    };
    let fourth = if has_more {
        "has_more: true\n"@
    } else {
        none
    };
    ascii_joined(first, second);
    ascii_joined(first + second, "job_id: "@);
    ascii_joined(first + second + "job_id: "@, id);
    ascii_joined(first + second + "job_id: "@ + id, "\n"@);
    ascii_joined(first + second + "job_id: "@ + id + "\n"@, none);
    ascii_joined(first + second + "job_id: "@ + id + "\n"@ + none, fourth);
    ascii_joined(first + second + "job_id: "@ + id + "\n"@ + none + fourth, "output:\n"@);
    let header = first + second + "job_id: "@ + id + "\n"@ + none + fourth + "output:\n"@;
    assert(header_text(id, state, has_more, 0) == header);
    is_ascii_chars_encode_utf8(header);
}

/// The lines that stand before the output.
pub fn envelope_header(job_id: &str, state: ShellJobState, has_more: bool, discarded: u64) -> (header: String)
    ensures
        header@ == header_text(job_id@, state, has_more, discarded),
{
    let mut header = "status: ".to_owned();
    header.append(
        match state {
            ShellJobState::Running => "running",
            ShellJobState::Finished(_) => "finished",
            ShellJobState::Cancelled(_) => "cancelled",
        },
    );
    header.append("\n");
    if state.is_terminal() {
        let code: i32 = match state.exit_code() {
            Some(code) => code,
            None => -1,
        };
        let mut line = "exit_code: ".to_owned();
        line.append(text::signed_decimal(code).as_str());
        line.append("\n");
        header.append(line.as_str());
    } else {
        assert(header@ + Seq::<char>::empty() =~= header@);
    }
    header.append("job_id: ");
    header.append(job_id);
    header.append("\n");
    if discarded > 0 {
        let mut line = "note: ".to_owned();
        line.append(text::decimal(discarded).as_str());
        line.append(" bytes of output discarded\n");
        header.append(line.as_str());
    } else {
        assert(header@ + Seq::<char>::empty() =~= header@);
    }
    if has_more {
        header.append("has_more: true\n");
    } else {
        assert(header@ + Seq::<char>::empty() =~= header@);
    }
    header.append("output:\n");
    header
}

// ---------------------------------------------------------------------------
// One command
// ---------------------------------------------------------------------------

/// A command whose output has not all been told. Places are counted in bytes from
/// the beginning of the output.
#[derive(Debug, PartialEq)]
pub struct ShellJob {
    /// The end of the output.
    pub buffer: String,
    /// All bytes of output so far.
    pub total: u64,
    /// How far the output has been told.
    pub delivered: u64,
    /// How far the output has been shown while it came.
    pub streamed: u64,
    /// The bytes that were dropped before they were told.
    pub discarded: u64,
    /// How many of those have been reported.
    pub discarded_reported: u64,
    pub state: ShellJobState,
}

pub struct JobView {
    pub buffer: Seq<u8>,
    pub total: u64,
    pub delivered: u64,
    pub streamed: u64,
    pub discarded: u64,
    pub discarded_reported: u64,
    pub state: ShellJobState,
}

impl View for ShellJob {
    type V = JobView;

    open spec fn view(&self) -> JobView {
        JobView {
            buffer: encode_utf8(self.buffer@),
            total: self.total,
            delivered: self.delivered,
            streamed: self.streamed,
            discarded: self.discarded,
            discarded_reported: self.discarded_reported,
            state: self.state,
        }
    }
}

impl DeepView for ShellJob {
    type V = JobView;

    open spec fn deep_view(&self) -> JobView {
        self@
    }
}

impl JobView {
    /// Where the kept output begins.
    pub open spec fn start(self) -> int {
        self.total - self.buffer.len()
    }

    /// The invariant: what is kept is the end of the output and begins no later
    /// than what has been told, and all places fall between characters.
    pub open spec fn wf(self) -> bool {
        &&& valid_utf8(self.buffer)
        &&& 0 <= self.start() <= self.delivered <= self.total
        &&& is_char_boundary(self.buffer, self.delivered - self.start())
        &&& self.streamed <= self.total
        &&& self.streamed >= self.start() ==> is_char_boundary(
            self.buffer,
            self.streamed - self.start(),
        )
        &&& self.discarded_reported <= self.discarded <= self.delivered
        &&& self.buffer.len() <= MAX_SHELL_RETAINED
    }

    /// What is kept is the end of `stream`.
    pub open spec fn is_tail_of(self, stream: Seq<u8>) -> bool {
        self.total == stream.len() && self.buffer == stream.skip(self.start())
    }
}

/// The bytes that are dropped from `buffer` to keep it small: as few as leave whole
/// characters within the limit.
pub open spec fn surplus(buffer: Seq<u8>) -> int {
    if buffer.len() > MAX_SHELL_RETAINED {
        ceil_of(buffer, buffer.len() - MAX_SHELL_RETAINED)
    } else {
        0
    }
}

/// A command with more output: the oldest bytes are dropped where there are too
/// many, and those that were not told are counted.
pub open spec fn after_append(job: JobView, bytes: Seq<u8>) -> JobView {
    let whole = job.buffer + bytes;
    let cut = surplus(whole);
    let total = job.total + bytes.len();
    let first = total - whole.len() + cut;
    let skipped = if first > job.delivered {
        first - job.delivered
    } else {
        0
    };
    JobView {
        buffer: whole.skip(cut),
        total: total as u64,
        delivered: (job.delivered + skipped) as u64,
        discarded: (job.discarded + skipped) as u64,
        ..job
    }
}

/// Dropping keeps what is needed, and the kept output stays within its limit.
proof fn surplus_bounds(buffer: Seq<u8>)
    requires
        valid_utf8(buffer),
    ensures
        0 <= surplus(buffer) <= buffer.len(),
        is_char_boundary(buffer, surplus(buffer)),
        buffer.len() - surplus(buffer) <= MAX_SHELL_RETAINED,
{
    is_char_boundary_start_end_of_seq(buffer);
    if buffer.len() > MAX_SHELL_RETAINED {
        ceil_bounds(buffer, buffer.len() - MAX_SHELL_RETAINED);
    }
}

/// More output keeps the invariant.
pub proof fn append_keeps(job: JobView, bytes: Seq<u8>)
    requires
        job.wf(),
        valid_utf8(bytes),
        job.total + bytes.len() <= u64::MAX,
    ensures
        after_append(job, bytes).wf(),
{
    let whole = job.buffer + bytes;
    let cut = surplus(whole);
    let next = after_append(job, bytes);
    valid_utf8_concat(job.buffer, bytes);
    surplus_bounds(whole);
    let place = job.delivered - job.start();
    boundary_of_concat(job.buffer, bytes, place);
    is_char_boundary_start_end_of_seq(whole);
    boundary_of_skip(whole, cut, cut);
    if place >= cut {
        boundary_of_skip(whole, cut, place);
    }
    if job.streamed >= job.start() {
        let shown = job.streamed - job.start();
        boundary_of_concat(job.buffer, bytes, shown);
        if shown >= cut {
            boundary_of_skip(whole, cut, shown);
        }
    }
    assert(next.start() == job.start() + cut);
}

/// What is kept stays the end of the output, and every byte that is passed over is
/// counted as discarded.
pub proof fn append_law(job: JobView, stream: Seq<u8>, bytes: Seq<u8>)
    requires
        job.wf(),
        valid_utf8(bytes),
        job.is_tail_of(stream),
        job.total + bytes.len() <= u64::MAX,
    ensures
        ({
            let next = after_append(job, bytes);
            &&& next.wf()
            &&& next.is_tail_of(stream + bytes)
            &&& next.delivered - job.delivered == next.discarded - job.discarded
            &&& next.delivered >= job.delivered
            &&& next.buffer.len() <= MAX_SHELL_RETAINED
        }),
{
    append_keeps(job, bytes);
    let whole = job.buffer + bytes;
    let cut = surplus(whole);
    valid_utf8_concat(job.buffer, bytes);
    surplus_bounds(whole);
    let next = after_append(job, bytes);
    assert(next.start() == job.start() + cut);
    assert(next.buffer =~= (stream + bytes).skip(next.start()));
}

/// How much output may go behind a header within `budget` bytes.
pub open spec fn allowance(budget: usize, header: Seq<char>) -> int {
    let n = encode_utf8(header).len();
    if budget >= n {
        budget - n
    } else {
        0
    }
}

/// The end, in the kept output, of what is told next.
pub open spec fn chunk_end(job: JobView, budget: usize, header: Seq<char>) -> int {
    let from = job.delivered - job.start();
    let left = job.buffer.len() - from;
    let room = allowance(budget, header);
    floor_of(
        job.buffer,
        from + if room < left {
            room
        } else {
            left
        },
    )
}

/// Bytes that were dropped and not yet reported.
pub open spec fn unreported(job: JobView) -> u64 {
    if job.discarded >= job.discarded_reported {
        (job.discarded - job.discarded_reported) as u64
    } else {
        0
    }
}

/// The header of what is told next, and its end in the kept output. A command that
/// ended and has more to tell says so.
pub open spec fn next_chunk(job: JobView, job_id: Seq<char>, budget: usize) -> (Seq<char>, int) {
    let plain = header_text(job_id, job.state, false, unreported(job));
    let end = chunk_end(job, budget, plain);
    if job.state.ended() && end < job.buffer.len() {
        let marked = header_text(job_id, job.state, true, unreported(job));
        (marked, chunk_end(job, budget, marked))
    } else {
        (plain, end)
    }
}

/// A command of which the next chunk was told.
pub open spec fn after_chunk(job: JobView, end: int) -> JobView {
    JobView {
        delivered: (job.start() + end) as u64,
        discarded_reported: job.discarded,
        ..job
    }
}

/// The end of a chunk lies between what was told and the end of the output.
pub proof fn chunk_end_bounds(job: JobView, budget: usize, header: Seq<char>)
    requires
        job.wf(),
    ensures
        job.delivered - job.start() <= chunk_end(job, budget, header) <= job.buffer.len(),
        is_char_boundary(job.buffer, chunk_end(job, budget, header)),
        chunk_end(job, budget, header) - (job.delivered - job.start()) <= allowance(budget, header),
{
    let from = job.delivered - job.start();
    let left = job.buffer.len() - from;
    let room = allowance(budget, header);
    let index = from + if room < left {
        room
    } else {
        left
    };
    floor_bounds(job.buffer, index);
}

/// Each chunk is the output that follows what was told before, told once and in
/// order, and with its header it stays within the budget wherever the header does.
pub proof fn chunk_law(job: JobView, stream: Seq<u8>, job_id: Seq<char>, budget: usize)
    requires
        job.wf(),
        job.is_tail_of(stream),
    ensures
        ({
            let (header, end) = next_chunk(job, job_id, budget);
            let next = after_chunk(job, end);
            let from = job.delivered - job.start();
            &&& from <= end <= job.buffer.len()
            &&& next.wf()
            &&& next.is_tail_of(stream)
            &&& job.buffer.subrange(from, end) == stream.subrange(
                job.delivered as int,
                next.delivered as int,
            )
            &&& encode_utf8(header).len() <= budget ==> encode_utf8(header).len() + (end - from)
                <= budget
            &&& next.discarded == job.discarded
        }),
{
    let (header, end) = next_chunk(job, job_id, budget);
    let plain = header_text(job_id, job.state, false, unreported(job));
    let marked = header_text(job_id, job.state, true, unreported(job));
    chunk_end_bounds(job, budget, plain);
    chunk_end_bounds(job, budget, marked);
    let next = after_chunk(job, end);
    let from = job.delivered - job.start();
    assert(job.buffer.subrange(from, end) =~= stream.subrange(
        job.delivered as int,
        next.delivered as int,
    ));
}

/// Where the budget leaves room for a character behind the longest header, a command
/// that has more to tell gets further with each chunk.
pub proof fn progress_law(job: JobView, job_id: Seq<char>, budget: usize)
    requires
        job.wf(),
        job.delivered < job.total,
        encode_utf8(header_text(job_id, job.state, true, unreported(job))).len() + 4 <= budget,
        encode_utf8(header_text(job_id, job.state, false, unreported(job))).len() + 4 <= budget,
    ensures
        after_chunk(job, next_chunk(job, job_id, budget).1).delivered > job.delivered,
{
    let plain = header_text(job_id, job.state, false, unreported(job));
    let marked = header_text(job_id, job.state, true, unreported(job));
    chunk_advances(job, budget, plain);
    chunk_advances(job, budget, marked);
    chunk_end_bounds(job, budget, plain);
    chunk_end_bounds(job, budget, marked);
}

proof fn chunk_advances(job: JobView, budget: usize, header: Seq<char>)
    requires
        job.wf(),
        job.delivered < job.total,
        encode_utf8(header).len() + 4 <= budget,
    ensures
        chunk_end(job, budget, header) > job.delivered - job.start(),
{
    let from = job.delivered - job.start();
    let left = job.buffer.len() - from;
    let room = allowance(budget, header);
    let step = if room < left {
        room
    } else {
        left
    };
    let index = from + step;
    floor_bounds(job.buffer, index);
    if step == left {
        is_char_boundary_start_end_of_seq(job.buffer);
        assert(is_char_boundary(job.buffer, index));
    } else {
        near_boundary(job.buffer, index);
        let i = choose|i: int|
            index - 3 <= i <= index && 0 <= i && is_char_boundary(job.buffer, i);
        assert(i > from);
    }
}

/// A command that ended says that there is more just where output remains that was not told.
pub proof fn has_more_law(job: JobView, job_id: Seq<char>, budget: usize)
    requires
        job.wf(),
        job.state.ended(),
    ensures
        ({
            let (header, end) = next_chunk(job, job_id, budget);
            header == header_text(job_id, job.state, end < job.buffer.len(), unreported(job))
        }),
{
    let plain = header_text(job_id, job.state, false, unreported(job));
    let marked = header_text(job_id, job.state, true, unreported(job));
    let end = chunk_end(job, budget, plain);
    chunk_end_bounds(job, budget, plain);
    if end < job.buffer.len() {
        marked_is_longer(job_id, job.state, unreported(job));
        let from = job.delivered - job.start();
        let left = job.buffer.len() - from;
        let less = from + if allowance(budget, marked) < left {
            allowance(budget, marked)
        } else {
            left
        };
        let more = from + if allowance(budget, plain) < left {
            allowance(budget, plain)
        } else {
            left
        };
        assert(less <= more);
        floor_bounds(job.buffer, less);
        floor_bounds(job.buffer, more);
        assert(floor_of(job.buffer, less) <= floor_of(job.buffer, more));
    }
}

proof fn marked_is_longer(job_id: Seq<char>, state: ShellJobState, dropped: u64)
    ensures
        encode_utf8(header_text(job_id, state, true, dropped)).len() >= encode_utf8(
            header_text(job_id, state, false, dropped),
        ).len(),
{
    let front = "status: "@ + state_name(state) + "\n"@ + (if state.ended() {
        "exit_code: "@ + signed_digits(
            match state.code() {
                Some(code) => code as int,
                None => -1,
            },
        ) + "\n"@
    } else {
        Seq::empty()
    }) + "job_id: "@ + job_id + "\n"@ + (if dropped > 0 {
        "note: "@ + digits(dropped as nat) + " bytes of output discarded\n"@
    } else {
        Seq::empty()
    });
    let mark = "has_more: true\n"@;
    let back = "output:\n"@;
    assert(header_text(job_id, state, true, dropped) =~= front + mark + back);
    assert(header_text(job_id, state, false, dropped) =~= front + back);
    encode_concat(front + mark, back);
    encode_concat(front, mark);
    encode_concat(front, back);
}

// ---------------------------------------------------------------------------
// A run of a command
// ---------------------------------------------------------------------------

/// What happens to a command.
pub enum JobStep {
    /// It put out bytes.
    Output(Seq<u8>),
    /// What it put out was shown while a call waited.
    Shown,
    /// It ended.
    Ended(ShellJobState),
    /// A call was told what comes next, within a budget.
    Told(usize),
}

/// A command that was just started.
pub open spec fn fresh_job() -> JobView {
    JobView {
        buffer: Seq::empty(),
        total: 0,
        delivered: 0,
        streamed: 0,
        discarded: 0,
        discarded_reported: 0,
        state: ShellJobState::Running,
    }
}

/// A command behind one more step.
pub open spec fn after_step(job: JobView, job_id: Seq<char>, step: JobStep) -> JobView {
    match step {
        JobStep::Output(bytes) => after_append(job, bytes),
        JobStep::Shown => JobView { streamed: job.total, ..job },
        JobStep::Ended(state) => JobView { state, ..job },
        JobStep::Told(budget) => after_chunk(job, next_chunk(job, job_id, budget).1),
    }
}

/// A command behind all steps.
pub open spec fn after_steps(job_id: Seq<char>, steps: Seq<JobStep>) -> JobView
    decreases steps.len(),
{
    if steps.len() == 0 {
        fresh_job()
    } else {
        after_step(after_steps(job_id, steps.drop_last()), job_id, steps.last())
    }
}

/// All that a command put out.
pub open spec fn all_output(steps: Seq<JobStep>) -> Seq<u8>
    decreases steps.len(),
{
    if steps.len() == 0 {
        Seq::empty()
    } else {
        all_output(steps.drop_last()) + match steps.last() {
            JobStep::Output(bytes) => bytes,
            _ => Seq::empty(),
        }
    }
}

/// What a call is told next, within a budget.
pub open spec fn told_next(job: JobView, job_id: Seq<char>, budget: usize) -> Seq<u8> {
    job.buffer.subrange(job.delivered - job.start(), next_chunk(job, job_id, budget).1)
}

/// All that calls were told of a command, in the order of the calls.
pub open spec fn all_told(job_id: Seq<char>, steps: Seq<JobStep>) -> Seq<u8>
    decreases steps.len(),
{
    if steps.len() == 0 {
        Seq::empty()
    } else {
        all_told(job_id, steps.drop_last()) + match steps.last() {
            JobStep::Told(budget) => told_next(
                after_steps(job_id, steps.drop_last()),
                job_id,
                budget,
            ),
            _ => Seq::empty(),
        }
    }
}

/// What the calls are told, one after the other, is the output of the command from its
/// beginning, without a gap and without a repetition, as long as nothing had to be dropped;
/// and what is missing is what was dropped and counted.
pub proof fn polls_law(job_id: Seq<char>, steps: Seq<JobStep>)
    requires
        forall|i: int|
            0 <= i < steps.len() ==> ((#[trigger] steps[i]) matches JobStep::Output(bytes)
                ==> valid_utf8(bytes)),
        all_output(steps).len() <= u64::MAX,
    ensures
        ({
            let job = after_steps(job_id, steps);
            let output = all_output(steps);
            let told = all_told(job_id, steps);
            &&& job.wf()
            &&& job.is_tail_of(output)
            &&& told.len() + job.discarded == job.delivered
            &&& job.discarded == 0 ==> told == output.take(job.delivered as int)
            &&& job.discarded == 0 && job.delivered == job.total ==> told == output
        }),
    decreases steps.len(),
{
    let job = after_steps(job_id, steps);
    let output = all_output(steps);
    let told = all_told(job_id, steps);
    if steps.len() == 0 {
        is_char_boundary_start_end_of_seq(Seq::<u8>::empty());
        assert(job.buffer =~= output.skip(0));
        assert(told =~= output.take(0));
    } else {
        let before = steps.drop_last();
        let old = after_steps(job_id, before);
        let past = all_output(before);
        assert forall|i: int| 0 <= i < before.len() implies ((
        #[trigger] before[i]) matches JobStep::Output(bytes) ==> valid_utf8(bytes)) by {
            assert(before[i] == steps[i]);
        }
        polls_law(job_id, before);
        let said = all_told(job_id, before);
        match steps.last() {
            JobStep::Output(bytes) => {
                assert(steps[steps.len() - 1] == steps.last());
                append_law(old, past, bytes);
                assert(told =~= said);
                if job.discarded == 0 {
                    assert(output.take(job.delivered as int) =~= past.take(old.delivered as int));
                }
            },
            JobStep::Shown => {
                assert(output =~= past);
                assert(told =~= said);
                encode_boundary_at_end(old);
            },
            JobStep::Ended(state) => {
                assert(output =~= past);
                assert(told =~= said);
            },
            JobStep::Told(budget) => {
                assert(output =~= past);
                chunk_law(old, past, job_id, budget);
                let next = told_next(old, job_id, budget);
                assert(told == said + next);
                assert(next == past.subrange(old.delivered as int, job.delivered as int));
                if job.discarded == 0 {
                    assert(told =~= output.take(job.delivered as int));
                }
            },
        }
        if job.delivered == job.total {
            assert(output.take(job.delivered as int) =~= output);
        }
    }
}

proof fn encode_boundary_at_end(job: JobView)
    requires
        job.wf(),
    ensures
        is_char_boundary(job.buffer, job.buffer.len() as int),
{
    is_char_boundary_start_end_of_seq(job.buffer);
}

/// No two commands have one id, so the id of a command that is forgotten is never that of
/// another.
pub proof fn job_name_law(a: u64, b: u64)
    ensures
        job_name(a) == job_name(b) <==> a == b,
{
    digits_value(a as nat);
    digits_value(b as nat);
    if job_name(a) == job_name(b) {
        let n = "shell-"@.len() as int;
        assert(job_name(a).skip(n) =~= digits(a as nat));
        assert(job_name(b).skip(n) =~= digits(b as nat));
    }
}

/// What a call that waits for output sees.
#[derive(Debug, PartialEq)]
pub struct Progress {
    /// Output that was not shown before.
    pub fresh: Option<String>,
    /// Nothing is gained by waiting: the command ended, or there is enough output.
    pub ready: bool,
}

/// A slice of the output under its header.
#[derive(Debug, PartialEq)]
pub struct ShellJobSnapshot {
    pub header: String,
    pub output: String,
}

impl ShellJobSnapshot {
    /// The lines of the header, and the output behind them.
    pub fn envelope(&self) -> (result: String)
        ensures
            result@ == self.header@ + self.output@,
    {
        text::join_two(self.header.as_str(), self.output.as_str())
    }
}

/// Whether the output that was not told fills the room behind the header.
pub open spec fn is_full(job: JobView, job_id: Seq<char>, budget: usize) -> bool {
    let room = allowance(budget, header_text(job_id, job.state, false, unreported(job)));
    room != 0 && job.total - job.delivered >= room
}

impl ShellJob {
    pub open spec fn wf(&self) -> bool {
        self@.wf()
    }

    /// A command that was just started.
    pub fn new() -> (job: ShellJob)
        ensures
            job.wf(),
            job@.is_tail_of(Seq::empty()),
            job@ == (JobView {
                buffer: Seq::empty(),
                total: 0,
                delivered: 0,
                streamed: 0,
                discarded: 0,
                discarded_reported: 0,
                state: ShellJobState::Running,
            }),
    {
        let buffer = String::new();
        proof {
            assert(encode_utf8(buffer@) =~= Seq::<u8>::empty());
            is_char_boundary_start_end_of_seq(Seq::<u8>::empty());
        }
        let job = ShellJob {
            buffer,
            total: 0,
            delivered: 0,
            streamed: 0,
            discarded: 0,
            discarded_reported: 0,
            state: ShellJobState::Running,
        };
        assert(job@.buffer =~= Seq::<u8>::empty().skip(0));
        job
    }

    /// Takes in more output. Everything that is to be told comes through here, what
    /// is said of an error too.
    pub fn append(&mut self, text: &str)
        requires
            old(self).wf(),
            old(self).total + encode_utf8(text@).len() <= u64::MAX,
        ensures
            final(self).wf(),
            final(self)@ == after_append(old(self)@, encode_utf8(text@)),
    {
        let ghost before = self@;
        let ghost bytes = encode_utf8(text@);
        let n: usize = text::byte_len(text);
        proof {
            encode_utf8_valid_utf8(text@);
            encode_utf8_valid_utf8(self.buffer@);
            append_keeps(before, bytes);
            encode_concat(self.buffer@, text@);
            valid_utf8_concat(before.buffer, bytes);
            surplus_bounds(before.buffer + bytes);
        }
        self.total = self.total + n as u64;
        self.buffer.append(text);
        let ghost whole = before.buffer + bytes;
        assert(encode_utf8(self.buffer@) == whole);
        let size: usize = text::byte_len(self.buffer.as_str());
        if size > MAX_SHELL_RETAINED {
            let cut: usize = text::ceil_char_boundary(
                self.buffer.as_str(),
                size - MAX_SHELL_RETAINED,
            );
            let first: u64 = (self.total - size as u64) + cut as u64;
            if first > self.delivered {
                self.discarded = self.discarded + (first - self.delivered);
                self.delivered = first;
            }
            self.buffer = text::bytes_from(self.buffer.as_str(), cut);
        } else {
            assert(whole.skip(0) =~= whole);
        }
    }

    /// Takes out what was not shown yet, and says whether to go on waiting.
    pub fn progress(&mut self, job_id: &str, budget: usize) -> (result: Progress)
        requires
            old(self).wf(),
        ensures
            final(self).wf(),
            final(self)@ == (JobView { streamed: old(self).total, ..old(self)@ }),
            match result.fresh {
                Some(fresh) => {
                    let from = if old(self)@.streamed >= old(self)@.start() {
                        old(self)@.streamed - old(self)@.start()
                    } else {
                        0
                    };
                    &&& old(self).total > old(self).streamed
                    &&& encode_utf8(fresh@) == old(self)@.buffer.skip(from)
                },
                None => old(self).total == old(self).streamed,
            },
            result.ready == (old(self).state.ended() || is_full(old(self)@, job_id@, budget)),
    {
        let ghost before = self@;
        let mut fresh: Option<String> = None;
        proof {
            encode_utf8_valid_utf8(self.buffer@);
            is_char_boundary_start_end_of_seq(before.buffer);
        }
        let size: usize = text::byte_len(self.buffer.as_str());
        if self.total > self.streamed {
            let start: u64 = self.total - size as u64;
            let from: u64 = if self.streamed >= start {
                self.streamed - start
            } else {
                0
            };
            fresh = Some(text::bytes_from(self.buffer.as_str(), from as usize));
            self.streamed = self.total;
        }
        let dropped: u64 = if self.discarded >= self.discarded_reported {
            self.discarded - self.discarded_reported
        } else {
            0
        };
        let header = envelope_header(job_id, self.state, false, dropped);
        let used: usize = text::byte_len(header.as_str());
        let room: usize = if budget >= used {
            budget - used
        } else {
            0
        };
        let full = room != 0 && self.total - self.delivered >= room as u64;
        Progress { fresh, ready: self.state.is_terminal() || full }
    }

    fn end_of_chunk(&self, budget: usize, header: &str) -> (end: usize)
        requires
            self.wf(),
        ensures
            end == chunk_end(self@, budget, header@),
            self@.delivered - self@.start() <= end <= self@.buffer.len(),
            is_char_boundary(self@.buffer, end as int),
    {
        proof {
            encode_utf8_valid_utf8(self.buffer@);
            chunk_end_bounds(self@, budget, header@);
        }
        let size: usize = text::byte_len(self.buffer.as_str());
        let from: usize = (self.delivered - (self.total - size as u64)) as usize;
        let used: usize = text::byte_len(header);
        let room: usize = if budget >= used {
            budget - used
        } else {
            0
        };
        let left: usize = size - from;
        let step: usize = if room < left {
            room
        } else {
            left
        };
        let end: usize = text::floor_char_boundary(self.buffer.as_str(), from + step);
        proof {
            floor_is_floor(self@.buffer, from + step, end as int);
        }
        end
    }

    /// Tells the next of the output within `budget` bytes, and whether all of it has
    /// now been told.
    pub fn deliver(&mut self, job_id: &str, budget: usize) -> (result: (ShellJobSnapshot, bool))
        requires
            old(self).wf(),
        ensures
            final(self).wf(),
            ({
                let before = old(self)@;
                let (header, end) = next_chunk(before, job_id@, budget);
                &&& final(self)@ == after_chunk(before, end)
                &&& result.0.header@ == header
                &&& encode_utf8(result.0.output@) == before.buffer.subrange(
                    before.delivered - before.start(),
                    end,
                )
                &&& result.1 == (end == before.buffer.len())
            }),
    {
        let ghost before = self@;
        let size: usize = text::byte_len(self.buffer.as_str());
        let start: u64 = self.total - size as u64;
        let from: usize = (self.delivered - start) as usize;
        let dropped: u64 = if self.discarded >= self.discarded_reported {
            self.discarded - self.discarded_reported
        } else {
            0
        };
        let mut header = envelope_header(job_id, self.state, false, dropped);
        let mut end: usize = self.end_of_chunk(budget, header.as_str());
        if self.state.is_terminal() && end < size {
            header = envelope_header(job_id, self.state, true, dropped);
            end = self.end_of_chunk(budget, header.as_str());
        }
        proof {
            encode_utf8_valid_utf8(self.buffer@);
        }
        let head = text::bytes_before(self.buffer.as_str(), end);
        proof {
            let whole = encode_utf8(self.buffer@);
            encode_utf8_valid_utf8(head@);
            boundary_at(whole, from as int);
            boundary_at(encode_utf8(head@), from as int);
            assert(encode_utf8(head@) == whole.subrange(0, end as int));
            is_char_boundary_start_end_of_seq(encode_utf8(head@));
        }
        let output = text::bytes_from(head.as_str(), from);
        proof {
            let whole = encode_utf8(self.buffer@);
            assert(whole.subrange(0, end as int).skip(from as int) =~= whole.subrange(
                from as int,
                end as int,
            ));
        }
        self.delivered = start + end as u64;
        self.discarded_reported = self.discarded;
        (ShellJobSnapshot { header, output }, end == size)
    }
}

// ---------------------------------------------------------------------------
// All commands
// ---------------------------------------------------------------------------

/// The commands that have output left to tell.
#[derive(Debug, PartialEq)]
pub struct ShellJobManager {
    next_id: u64,
    jobs: Vec<(String, ShellJob)>,
}

pub struct ManagerView {
    /// The number of the command started last.
    pub next_id: u64,
    pub jobs: Map<Seq<char>, JobView>,
}

impl View for ShellJobManager {
    type V = ManagerView;

    closed spec fn view(&self) -> ManagerView {
        ManagerView { next_id: self.next_id, jobs: table(self.jobs.deep_view()) }
    }
}

/// The id of the command with a number.
pub open spec fn job_name(n: u64) -> Seq<char> {
    "shell-"@ + digits(n as nat)
}

/// What is said of a command that is not known.
pub open spec fn unknown_job(job_id: Seq<char>) -> Seq<char> {
    "unknown shell job: "@ + job_id
}

/// How a command came to its end.
#[derive(Debug, PartialEq)]
pub enum JobEnd {
    Exited,
    Cancelled,
    ReadError(String),
}

/// How a command stands when it has ended, and what is said of an error. `status` is
/// the exit code, or why it could not be had.
pub fn end_state(end: JobEnd, status: Result<Option<i32>, String>) -> (result: (
    ShellJobState,
    Option<String>,
))
    ensures
        match (end, status) {
            (JobEnd::ReadError(error), _) => result.0 == ShellJobState::Finished(None)
                && result.1.deep_view() == Some("\n[shell: "@ + error@ + "]\n"@),
            (JobEnd::Cancelled, Ok(code)) => result.0 == ShellJobState::Cancelled(code)
                && result.1 is None,
            (JobEnd::Exited, Ok(code)) => result.0 == ShellJobState::Finished(code)
                && result.1 is None,
            (_, Err(error)) => result.0 == ShellJobState::Finished(None) && result.1.deep_view()
                == Some("\n[shell: wait failed: "@ + error@ + "]\n"@),
        },
{
    match (end, status) {
        (JobEnd::ReadError(error), _) => (
            ShellJobState::Finished(None),
            Some(text::join_three("\n[shell: ", error.as_str(), "]\n")),
        ),
        (JobEnd::Cancelled, Ok(code)) => (ShellJobState::Cancelled(code), None),
        (JobEnd::Exited, Ok(code)) => (ShellJobState::Finished(code), None),
        (_, Err(error)) => (
            ShellJobState::Finished(None),
            Some(text::join_three("\n[shell: wait failed: ", error.as_str(), "]\n")),
        ),
    }
}

impl ShellJobManager {
    /// Every command keeps its invariant.
    pub closed spec fn wf(&self) -> bool {
        forall|i: int| 0 <= i < self.jobs@.len() ==> (#[trigger] self.jobs@[i]).1.wf()
    }

    /// Each command that is known keeps the invariant of commands.
    pub proof fn jobs_are_wf(&self)
        requires
            self.wf(),
        ensures
            forall|id: Seq<char>| #[trigger] self@.jobs.contains_key(id) ==> self@.jobs[id].wf(),
    {
        let entries = self.jobs.deep_view();
        assert forall|id: Seq<char>| #[trigger] self@.jobs.contains_key(id) implies self@.jobs[id]
            .wf() by {
            table_holds(entries, id);
            let i = choose|i: int|
                0 <= i < entries.len() && #[trigger] entries[i] == (id, table(entries)[id]);
            assert(self.jobs@[i].1.wf());
        }
    }

    pub fn new() -> (result: Self)
        ensures
            result.wf(),
            result@ == (ManagerView { next_id: 0, jobs: Map::empty() }),
    {
        ShellJobManager { next_id: 0, jobs: Vec::new() }
    }

    /// Whether there is an id left for a command.
    pub fn can_start(&self) -> (result: bool)
        ensures
            result == (self@.next_id < u64::MAX),
    {
        self.next_id < u64::MAX
    }

    /// Enters a command that was just started, and gives it an id.
    pub fn start(&mut self) -> (job_id: String)
        requires
            old(self).wf(),
            old(self)@.next_id < u64::MAX,
        ensures
            final(self).wf(),
            job_id@ == job_name((old(self)@.next_id + 1) as u64),
            final(self)@.next_id == old(self)@.next_id + 1,
            final(self)@.jobs == old(self)@.jobs.insert(
                job_id@,
                JobView {
                    buffer: Seq::empty(),
                    total: 0,
                    delivered: 0,
                    streamed: 0,
                    discarded: 0,
                    discarded_reported: 0,
                    state: ShellJobState::Running,
                },
            ),
    {
        self.next_id = self.next_id + 1;
        let job_id = text::join_two("shell-", text::decimal(self.next_id).as_str());
        let job = ShellJob::new();
        let ghost before = self.jobs.deep_view();
        let ghost view = job@;
        self.jobs.push((job_id.clone(), job));
        proof {
            assert(self.jobs.deep_view().drop_last() =~= before);
            assert(self.jobs.deep_view().last() == (job_id@, view));
        }
        job_id
    }

    fn find(&self, job_id: &str) -> (result: Option<usize>)
        ensures
            match result {
                Some(i) => {
                    &&& i < self.jobs@.len()
                    &&& self.jobs@[i as int].0@ == job_id@
                    &&& forall|j: int|
                        i < j < self.jobs@.len() ==> (#[trigger] self.jobs.deep_view()[j]).0 != job_id@
                    &&& self@.jobs.contains_key(job_id@)
                    &&& self@.jobs[job_id@] == self.jobs@[i as int].1@
                },
                None => !self@.jobs.contains_key(job_id@),
            },
    {
        let ghost all = self.jobs.deep_view();
        let mut i: usize = self.jobs.len();
        while i > 0
            invariant
                all == self.jobs.deep_view(),
                i <= self.jobs@.len(),
                forall|j: int| i <= j < all.len() ==> (#[trigger] all[j]).0 != job_id@,
            decreases i,
        {
            i -= 1;
            assert(all[i as int] == self.jobs@[i as int].deep_view());
            if text::same(self.jobs[i].0.as_str(), job_id) {
                proof {
                    table_last(all, i as int);
                }
                return Some(i);
            }
        }
        proof {
            table_lacks(all, job_id@);
        }
        None
    }

    /// Whether a command is known.
    pub fn known(&self, job_id: &str) -> (result: Result<(), String>)
        ensures
            match result {
                Ok(_) => self@.jobs.contains_key(job_id@),
                Err(error) => !self@.jobs.contains_key(job_id@) && error@ == unknown_job(job_id@),
            },
    {
        match self.find(job_id) {
            Some(_) => Ok(()),
            None => Err(text::join_two("unknown shell job: ", job_id)),
        }
    }

    /// Whether a command is known and has ended.
    pub fn has_ended(&self, job_id: &str) -> (result: Option<bool>)
        ensures
            result == if self@.jobs.contains_key(job_id@) {
                Some(self@.jobs[job_id@].state.ended())
            } else {
                None
            },
    {
        match self.find(job_id) {
            Some(i) => Some(self.jobs[i].1.state.is_terminal()),
            None => None,
        }
    }

    fn take_job(&mut self, i: usize) -> (job: ShellJob)
        requires
            old(self).wf(),
            i < old(self).jobs@.len(),
        ensures
            final(self).next_id == old(self).next_id,
            job == old(self).jobs@[i as int].1,
            final(self).jobs@.len() == old(self).jobs@.len(),
            forall|j: int|
                0 <= j < old(self).jobs@.len() && j != i ==> final(self).jobs@[j] == old(
                    self,
                ).jobs@[j],
            final(self).jobs@[i as int].0@ == old(self).jobs@[i as int].0@,
            final(self).wf(),
    {
        let entry = self.jobs.remove(i);
        let (name, job) = entry;
        self.jobs.insert(i, (name, ShellJob::new()));
        job
    }

    fn put_job(&mut self, i: usize, job: ShellJob)
        requires
            old(self).wf(),
            job.wf(),
            i < old(self).jobs@.len(),
        ensures
            final(self).next_id == old(self).next_id,
            final(self).wf(),
            final(self).jobs.deep_view() == old(self).jobs.deep_view().update(
                i as int,
                (old(self).jobs@[i as int].0@, job@),
            ),
    {
        let ghost before = self.jobs.deep_view();
        let ghost view = job@;
        let name = self.jobs[i].0.clone();
        self.jobs[i] = (name, job);
        assert(self.jobs.deep_view() =~= before.update(i as int, (name@, view)));
    }

    /// Whether the output of a command can still be counted with `output` behind it.
    pub fn can_append(&self, job_id: &str, output: &str) -> (result: bool)
        requires
            self.wf(),
        ensures
            result == (self@.jobs.contains_key(job_id@) ==> self@.jobs[job_id@].total + encode_utf8(
                output@,
            ).len() <= u64::MAX),
    {
        match self.find(job_id) {
            Some(i) => {
                let size: u64 = text::byte_len(output) as u64;
                self.jobs[i].1.total <= u64::MAX - size
            },
            None => true,
        }
    }

    /// Takes in output of a command, and says whether there is anything new for
    /// those who wait.
    pub fn append_output(&mut self, job_id: &str, output: &str) -> (changed: bool)
        requires
            old(self).wf(),
            old(self)@.jobs.contains_key(job_id@) ==> old(self)@.jobs[job_id@].total
                + encode_utf8(output@).len() <= u64::MAX,
        ensures
            final(self).wf(),
            changed == (output@.len() > 0 && old(self)@.jobs.contains_key(job_id@)),
            final(self)@ == if changed {
                ManagerView {
                    jobs: old(self)@.jobs.insert(
                        job_id@,
                        after_append(old(self)@.jobs[job_id@], encode_utf8(output@)),
                    ),
                    ..old(self)@
                }
            } else {
                old(self)@
            },
    {
        if output.is_empty() {
            return false;
        }
        match self.find(job_id) {
            Some(i) => {
                let ghost all = self.jobs.deep_view();
                let mut job = self.take_job(i);
                job.append(output);
                let ghost view = job@;
                self.put_job(i, job);
                proof {
                    assert(self.jobs.deep_view() =~= all.update(i as int, (all[i as int].0, view)));
                    table_update(all, i as int, view);
                }
                true
            },
            None => false,
        }
    }

    /// A command has ended: what is said of an error goes behind its output.
    pub fn finish_job(&mut self, job_id: &str, state: ShellJobState, trailing: Option<String>)
        requires
            old(self).wf(),
            old(self)@.jobs.contains_key(job_id@) && trailing is Some ==> old(
                self,
            )@.jobs[job_id@].total + encode_utf8(trailing->0@).len() <= u64::MAX,
        ensures
            final(self).wf(),
            final(self)@ == if old(self)@.jobs.contains_key(job_id@) {
                let job = old(self)@.jobs[job_id@];
                let told = match trailing {
                    Some(said) => after_append(job, encode_utf8(said@)),
                    None => job,
                };
                ManagerView {
                    jobs: old(self)@.jobs.insert(job_id@, JobView { state, ..told }),
                    ..old(self)@
                }
            } else {
                old(self)@
            },
    {
        match self.find(job_id) {
            Some(i) => {
                let ghost all = self.jobs.deep_view();
                let mut job = self.take_job(i);
                match trailing {
                    Some(said) => job.append(said.as_str()),
                    None => {},
                }
                job.state = state;
                let ghost view = job@;
                self.put_job(i, job);
                proof {
                    assert(self.jobs.deep_view() =~= all.update(i as int, (all[i as int].0, view)));
                    table_update(all, i as int, view);
                }
            },
            None => {},
        }
    }

    /// What a call that waits for output of a command sees.
    pub fn progress(&mut self, job_id: &str, budget: usize) -> (result: Result<Progress, String>)
        requires
            old(self).wf(),
        ensures
            final(self).wf(),
            match result {
                Ok(progress) => {
                    let job = old(self)@.jobs[job_id@];
                    let from = if job.streamed >= job.start() {
                        job.streamed - job.start()
                    } else {
                        0
                    };
                    &&& old(self)@.jobs.contains_key(job_id@)
                    &&& final(self)@ == (ManagerView {
                        jobs: old(self)@.jobs.insert(
                            job_id@,
                            JobView { streamed: job.total, ..job },
                        ),
                        ..old(self)@
                    })
                    &&& match progress.fresh {
                        Some(fresh) => job.total > job.streamed && encode_utf8(fresh@)
                            == job.buffer.skip(from),
                        None => job.total == job.streamed,
                    }
                    &&& progress.ready == (job.state.ended() || is_full(job, job_id@, budget))
                },
                Err(error) => {
                    &&& !old(self)@.jobs.contains_key(job_id@)
                    &&& error@ == unknown_job(job_id@)
                    &&& final(self)@ == old(self)@
                },
            },
    {
        match self.find(job_id) {
            Some(i) => {
                let ghost all = self.jobs.deep_view();
                let mut job = self.take_job(i);
                let progress = job.progress(job_id, budget);
                let ghost view = job@;
                self.put_job(i, job);
                proof {
                    assert(self.jobs.deep_view() =~= all.update(i as int, (all[i as int].0, view)));
                    table_update(all, i as int, view);
                }
                Ok(progress)
            },
            None => Err(text::join_two("unknown shell job: ", job_id)),
        }
    }

    fn remove(&mut self, job_id: &str)
        requires
            old(self).wf(),
        ensures
            final(self).wf(),
            final(self)@ == (ManagerView {
                jobs: old(self)@.jobs.remove(job_id@),
                ..old(self)@
            }),
    {
        let ghost all = self.jobs.deep_view();
        let mut i: usize = self.jobs.len();
        proof {
            assert(all.take(i as int) =~= all);
            assert(all.skip(i as int) =~= Seq::empty());
        }
        while i > 0
            invariant
                self.wf(),
                self.next_id == old(self).next_id,
                i <= self.jobs@.len(),
                i <= all.len(),
                self.jobs.deep_view() == all.take(i as int) + stripped(all.skip(i as int), job_id@),
            decreases i,
        {
            i -= 1;
            let ghost now = self.jobs.deep_view();
            proof {
                assert(now[i as int] == all[i as int]);
                assert(now[i as int] == self.jobs@[i as int].deep_view());
                assert(all.skip(i as int)[0] == all[i as int]);
                assert(all.skip(i as int).skip(1) =~= all.skip(i + 1));
            }
            if text::same(self.jobs[i].0.as_str(), job_id) {
                let gone = self.jobs.remove(i);
                assert(self.jobs.deep_view() =~= now.remove(i as int));
                assert(self.jobs.deep_view() =~= all.take(i as int) + stripped(
                    all.skip(i as int),
                    job_id@,
                ));
            } else {
                assert(now =~= all.take(i as int) + stripped(all.skip(i as int), job_id@));
            }
        }
        proof {
            assert(all.skip(0) =~= all);
            assert(self.jobs.deep_view() =~= stripped(all, job_id@));
            stripped_table(all, job_id@);
        }
    }

    /// Tells the next of a command's output within `budget` bytes, and says whether
    /// that was the last of it: the command is then forgotten.
    pub fn poll(&mut self, job_id: &str, budget: usize) -> (result: Result<
        (ShellJobSnapshot, bool),
        String,
    >)
        requires
            old(self).wf(),
        ensures
            final(self).wf(),
            match result {
                Ok(told) => {
                    let job = old(self)@.jobs[job_id@];
                    let (header, end) = next_chunk(job, job_id@, budget);
                    &&& old(self)@.jobs.contains_key(job_id@)
                    &&& told.0.header@ == header
                    &&& encode_utf8(told.0.output@) == job.buffer.subrange(
                        job.delivered - job.start(),
                        end,
                    )
                    &&& told.1 == (end == job.buffer.len() && job.state.ended())
                    &&& final(self)@ == (ManagerView {
                        jobs: if told.1 {
                            old(self)@.jobs.remove(job_id@)
                        } else {
                            old(self)@.jobs.insert(job_id@, after_chunk(job, end))
                        },
                        ..old(self)@
                    })
                },
                Err(error) => {
                    &&& !old(self)@.jobs.contains_key(job_id@)
                    &&& error@ == unknown_job(job_id@)
                    &&& final(self)@ == old(self)@
                },
            },
    {
        match self.find(job_id) {
            Some(i) => {
                let ghost all = self.jobs.deep_view();
                let mut job = self.take_job(i);
                let (snapshot, drained) = job.deliver(job_id, budget);
                let over = drained && job.state.is_terminal();
                let ghost view = job@;
                self.put_job(i, job);
                proof {
                    assert(self.jobs.deep_view() =~= all.update(i as int, (all[i as int].0, view)));
                    table_update(all, i as int, view);
                }
                if over {
                    let ghost kept = self@.jobs;
                    self.remove(job_id);
                    assert(self@.jobs =~= table(all).remove(job_id@));
                }
                Ok((snapshot, over))
            },
            None => Err(text::join_two("unknown shell job: ", job_id)),
        }
    }

    /// Forgets all commands.
    pub fn clear(&mut self)
        requires
            old(self).wf(),
        ensures
            final(self).wf(),
            final(self)@ == (ManagerView { jobs: Map::empty(), ..old(self)@ }),
    {
        self.jobs = Vec::new();
    }
}

/// What a table holds under a key is an entry with that key.
proof fn table_holds(entries: Seq<(Seq<char>, JobView)>, key: Seq<char>)
    requires
        table(entries).contains_key(key),
    ensures
        exists|i: int|
            0 <= i < entries.len() && #[trigger] entries[i] == (key, table(entries)[key]),
    decreases entries.len(),
{
    if entries.len() > 0 {
        let rest = entries.drop_last();
        if entries.last().0 == key {
            assert(entries[entries.len() - 1] == (key, table(entries)[key]));
        } else {
            table_holds(rest, key);
            let i = choose|i: int|
                0 <= i < rest.len() && #[trigger] rest[i] == (key, table(rest)[key]);
            assert(entries[i] == (key, table(entries)[key]));
        }
    }
}

/// The entries of all keys but `key`.
spec fn stripped(entries: Seq<(Seq<char>, JobView)>, key: Seq<char>) -> Seq<(Seq<char>, JobView)>
    decreases entries.len(),
{
    if entries.len() == 0 {
        entries
    } else if entries[0].0 == key {
        stripped(entries.skip(1), key)
    } else {
        seq![entries[0]] + stripped(entries.skip(1), key)
    }
}

proof fn table_concat(
    a: Seq<(Seq<char>, JobView)>,
    b: Seq<(Seq<char>, JobView)>,
)
    ensures
        table(a + b) == table(a).union_prefer_right(table(b)),
    decreases b.len(),
{
    if b.len() == 0 {
        assert(a + b =~= a);
        assert(table(a + b) =~= table(a).union_prefer_right(table(b)));
    } else {
        assert((a + b).drop_last() =~= a + b.drop_last());
        assert((a + b).last() == b.last());
        table_concat(a, b.drop_last());
        assert(table(a + b) =~= table(a).union_prefer_right(table(b)));
    }
}

proof fn stripped_table(entries: Seq<(Seq<char>, JobView)>, key: Seq<char>)
    ensures
        table(stripped(entries, key)) == table(entries).remove(key),
    decreases entries.len(),
{
    if entries.len() == 0 {
        assert(table(stripped(entries, key)) =~= table(entries).remove(key));
    } else {
        let one = seq![entries[0]];
        let rest = entries.skip(1);
        stripped_table(rest, key);
        assert(entries =~= one + rest);
        table_concat(one, rest);
        table_concat(one, stripped(rest, key));
        assert(one.drop_last() =~= Seq::empty());
        assert(table(one) =~= Map::empty().insert(entries[0].0, entries[0].1)) by {
            reveal_with_fuel(table, 2);
        }
        assert(table(stripped(entries, key)) =~= table(entries).remove(key));
    }
}

// ---------------------------------------------------------------------------
// Output as it is read
// ---------------------------------------------------------------------------

/// The longest prefix of `bytes`, at least all but the last four, that is text; all
/// but the last four where none is.
pub open spec fn settled(bytes: Seq<u8>, end: int) -> int
    decreases end,
{
    if end <= 0 {
        0
    } else if valid_utf8(bytes.take(end)) {
        end
    } else if end + 4 <= bytes.len() {
        end
    } else {
        settled(bytes, end - 1)
    }
}

/// Decodes what can be settled of the bytes that were left over with those of
/// `chunk` behind them. At most the last four bytes are left over.
pub fn decode_utf8(leftover: &mut Vec<u8>, chunk: &[u8]) -> (result: String)
    ensures
        ({
            let bytes = old(leftover)@ + chunk@;
            let end = settled(bytes, bytes.len() as int);
            &&& result@ == lossy_text(bytes.take(end))
            &&& valid_utf8(bytes.take(end)) ==> encode_utf8(result@) == bytes.take(end)
            &&& final(leftover)@ == bytes.skip(end)
            &&& final(leftover)@.len() <= 4
        }),
{
    let ghost before = leftover@;
    let mut bytes: Vec<u8> = Vec::new();
    let mut i: usize = 0;
    while i < leftover.len()
        invariant
            i <= leftover@.len(),
            bytes@ == leftover@.take(i as int),
        decreases leftover@.len() - i,
    {
        bytes.push(leftover[i]);
        assert(leftover@.take(i + 1) =~= leftover@.take(i as int).push(leftover@[i as int]));
        i += 1;
    }
    assert(leftover@.take(i as int) =~= leftover@);
    bytes.extend_from_slice(chunk);
    let ghost all = before + chunk@;
    assert(bytes@ =~= all);
    let size: usize = bytes.len();
    let least: usize = if size > 4 {
        size - 4
    } else {
        0
    };
    let mut end: usize = size;
    let mut searching = true;
    while searching && end > least
        invariant
            bytes@ == all,
            size == all.len(),
            least <= end <= size,
            least == if size > 4 {
                size - 4
            } else {
                0
            },
            settled(all, all.len() as int) == settled(all, end as int),
            !searching ==> valid_utf8(all.take(end as int)),
        decreases end, searching as int,
    {
        let head = vstd::slice::slice_subrange(bytes.as_slice(), 0, end);
        assert(head@ =~= all.take(end as int));
        if utf8_text(head).is_some() {
            searching = false;
        } else {
            end -= 1;
        }
    }
    let head = vstd::slice::slice_subrange(bytes.as_slice(), 0, end);
    assert(head@ =~= all.take(end as int));
    let result = utf8_lossy(head);
    proof {
        assert(settled(all, end as int) == end);
    }
    let rest = bytes.split_off(end);
    assert(rest@ =~= all.skip(end as int));
    *leftover = rest;
    result
}

/// Decodes what was left over, behind the last read: bytes that are no text give the
/// replacement character.
pub fn decode_rest(leftover: &mut Vec<u8>) -> (result: String)
    ensures
        result@ == lossy_text(old(leftover)@),
        valid_utf8(old(leftover)@) ==> encode_utf8(result@) == old(leftover)@,
        final(leftover)@.len() == 0,
{
    let result = utf8_lossy(leftover.as_slice());
    leftover.clear();
    result
}

/// Output that is text all the way comes out as it went in, whatever the pieces in
/// which it was read: what is decoded and what is left over are the bytes so far.
pub proof fn decode_law(bytes: Seq<u8>)
    ensures
        ({
            let end = settled(bytes, bytes.len() as int);
            &&& 0 <= end <= bytes.len()
            &&& bytes.take(end) + bytes.skip(end) == bytes
            &&& valid_utf8(bytes) ==> end == bytes.len()
            &&& bytes.len() - end <= 4
        }),
{
    settled_bounds(bytes, bytes.len() as int);
    let end = settled(bytes, bytes.len() as int);
    assert(bytes.take(end) + bytes.skip(end) =~= bytes);
    assert(bytes.take(bytes.len() as int) =~= bytes);
}

/// What is left over behind reads.
pub open spec fn left_over(reads: Seq<Seq<u8>>) -> Seq<u8>
    decreases reads.len(),
{
    if reads.len() == 0 {
        Seq::empty()
    } else {
        let bytes = left_over(reads.drop_last()) + reads.last();
        bytes.skip(settled(bytes, bytes.len() as int))
    }
}

/// The bytes that are decoded with the last of the reads.
pub open spec fn decoded_last(reads: Seq<Seq<u8>>) -> Seq<u8> {
    let bytes = left_over(reads.drop_last()) + reads.last();
    bytes.take(settled(bytes, bytes.len() as int))
}

/// All bytes that are decoded, in order.
pub open spec fn decoded(reads: Seq<Seq<u8>>) -> Seq<u8>
    decreases reads.len(),
{
    if reads.len() == 0 {
        Seq::empty()
    } else {
        decoded(reads.drop_last()) + decoded_last(reads)
    }
}

/// Parts, one behind the other.
pub open spec fn in_a_row<A>(parts: Seq<Seq<A>>) -> Seq<A>
    decreases parts.len(),
{
    if parts.len() == 0 {
        Seq::empty()
    } else {
        in_a_row(parts.drop_last()) + parts.last()
    }
}

/// Text comes out as it went in, wherever the reads cut it. Behind each read what was
/// decoded and what is left over are the bytes so far, and no more is left over than the
/// character that is not complete, which is at most three bytes. Behind the last read
/// nothing is left over, and what the calls gave is the text. `told` is what the calls
/// gave, as `decode_utf8` states it.
pub proof fn decode_run_law(text: Seq<char>, reads: Seq<Seq<u8>>, told: Seq<Seq<char>>)
    requires
        in_a_row(reads).len() <= encode_utf8(text).len(),
        in_a_row(reads) == encode_utf8(text).take(in_a_row(reads).len() as int),
        told.len() == reads.len(),
        forall|i: int|
            0 <= i < reads.len() && valid_utf8(decoded_last(reads.take(i + 1))) ==> encode_utf8(
                #[trigger] told[i],
            ) == decoded_last(reads.take(i + 1)),
    ensures
        forall|i: int|
            0 <= i < reads.len() ==> valid_utf8(#[trigger] decoded_last(reads.take(i + 1))),
        ({
            let whole = encode_utf8(text);
            let n = in_a_row(reads).len() as int;
            &&& decoded(reads) + left_over(reads) == in_a_row(reads)
            &&& decoded(reads).len() == floor_of(whole, n)
            &&& valid_utf8(decoded(reads))
            &&& left_over(reads).len() <= 3
            &&& encode_utf8(in_a_row(told)) == decoded(reads)
            &&& n == whole.len() ==> left_over(reads).len() == 0 && in_a_row(told) == text
        }),
{
    let whole = encode_utf8(text);
    encode_utf8_valid_utf8(text);
    decode_run(whole, reads);
    assert forall|i: int| 0 <= i < reads.len() implies encode_utf8(#[trigger] told[i])
        == decoded_last(reads.take(i + 1)) by {
        assert(valid_utf8(decoded_last(reads.take(i + 1))));
    }
    told_in_a_row(reads, told);
    let n = in_a_row(reads).len() as int;
    near_floor(whole, n);
    if n == whole.len() {
        is_char_boundary_start_end_of_seq(whole);
        assert(floor_of(whole, n) == n);
        assert(decoded(reads) =~= whole);
        encode_utf8_decode_utf8(text);
        encode_utf8_decode_utf8(in_a_row(told));
    }
}

proof fn near_floor(whole: Seq<u8>, n: int)
    requires
        valid_utf8(whole),
        0 <= n <= whole.len(),
    ensures
        n - 3 <= floor_of(whole, n) <= n,
        is_char_boundary(whole, floor_of(whole, n)),
{
    floor_bounds(whole, n);
    near_boundary(whole, n);
}

proof fn told_in_a_row(reads: Seq<Seq<u8>>, told: Seq<Seq<char>>)
    requires
        told.len() == reads.len(),
        forall|i: int|
            0 <= i < reads.len() ==> encode_utf8(#[trigger] told[i]) == decoded_last(
                reads.take(i + 1),
            ),
    ensures
        encode_utf8(in_a_row(told)) == decoded(reads),
    decreases reads.len(),
{
    if reads.len() == 0 {
        assert(encode_utf8(in_a_row(told)) =~= decoded(reads));
    } else {
        let before = reads.drop_last();
        let said = told.drop_last();
        assert forall|i: int| 0 <= i < before.len() implies encode_utf8(#[trigger] said[i])
            == decoded_last(before.take(i + 1)) by {
            assert(before.take(i + 1) =~= reads.take(i + 1));
            assert(said[i] == told[i]);
        }
        told_in_a_row(before, said);
        assert(reads.take(reads.len() as int) =~= reads);
        assert(told[reads.len() - 1] == told.last());
        encode_concat(in_a_row(said), told.last());
    }
}

proof fn decode_run(whole: Seq<u8>, reads: Seq<Seq<u8>>)
    requires
        valid_utf8(whole),
        in_a_row(reads).len() <= whole.len(),
        in_a_row(reads) == whole.take(in_a_row(reads).len() as int),
    ensures
        decoded(reads) + left_over(reads) == in_a_row(reads),
        decoded(reads).len() == floor_of(whole, in_a_row(reads).len() as int),
        valid_utf8(decoded(reads)),
        left_over(reads).len() <= 3,
        forall|i: int|
            0 <= i < reads.len() ==> valid_utf8(#[trigger] decoded_last(reads.take(i + 1))),
    decreases reads.len(),
{
    let all = in_a_row(reads);
    let n = all.len() as int;
    if reads.len() == 0 {
        assert(decoded(reads) + left_over(reads) =~= all);
    } else {
        let before = reads.drop_last();
        let past = in_a_row(before);
        let m = past.len() as int;
        assert(past =~= whole.take(m)) by {
            assert forall|i: int| 0 <= i < m implies past[i] == whole[i] by {
                assert(all[i] == past[i]);
            }
        }
        decode_run(whole, before);
        near_floor(whole, m);
        near_floor(whole, n);
        let from = floor_of(whole, m);
        let to = floor_of(whole, n);
        floor_bounds(whole, n);
        assert(from <= to);
        let bytes = left_over(before) + reads.last();
        assert(bytes =~= whole.subrange(from, n)) by {
            assert forall|i: int| 0 <= i < bytes.len() implies bytes[i] == whole[from + i] by {
                if i < left_over(before).len() {
                    assert(past[from + i] == left_over(before)[i]);
                } else {
                    assert(all[from + i] == reads.last()[i - left_over(before).len()]);
                }
            }
        }
        settled_at_floor(whole, from, n, bytes.len() as int);
        assert(settled(bytes, bytes.len() as int) == to - from);
        let part = bytes.take(to - from);
        assert(part =~= whole.subrange(from, to));
        between_boundaries(whole, from, to);
        valid_utf8_concat(decoded(before), part);
        assert(decoded(reads) + left_over(reads) =~= all);
        assert forall|i: int| 0 <= i < reads.len() implies valid_utf8(
            #[trigger] decoded_last(reads.take(i + 1)),
        ) by {
            if i < before.len() {
                assert(before.take(i + 1) =~= reads.take(i + 1));
                assert(valid_utf8(decoded_last(before.take(i + 1))));
            } else {
                assert(reads.take(i + 1) =~= reads);
            }
        }
    }
}

/// The text between two boundaries.
proof fn between_boundaries(whole: Seq<u8>, from: int, to: int)
    requires
        valid_utf8(whole),
        0 <= from <= to <= whole.len(),
        is_char_boundary(whole, from),
        is_char_boundary(whole, to),
    ensures
        valid_utf8(whole.subrange(from, to)),
{
    boundary_of_skip(whole, from, to);
    let rest = whole.skip(from);
    valid_utf8_split(rest, to - from);
    assert(rest.subrange(0, to - from) =~= whole.subrange(from, to));
}

/// A prefix of a text is a text only where a character ends.
proof fn text_prefix(bytes: Seq<u8>, k: int)
    requires
        valid_utf8(bytes),
        0 <= k <= bytes.len(),
        valid_utf8(bytes.take(k)),
    ensures
        is_char_boundary(bytes, k),
    decreases bytes.len(),
{
    if k > 0 {
        let head = bytes.take(k);
        assert(head[0] == bytes[0]);
        let n = length_of_first_scalar(bytes);
        assert(length_of_first_scalar(head) == n);
        assert(n <= k);
        let rest = pop_first_scalar(bytes);
        assert(pop_first_scalar(head) =~= rest.take(k - n));
        text_prefix(rest, k - n);
    } else {
        is_char_boundary_start_end_of_seq(bytes);
    }
}

proof fn settled_at_floor(whole: Seq<u8>, from: int, n: int, end: int)
    requires
        valid_utf8(whole),
        0 <= from <= floor_of(whole, n),
        n <= whole.len(),
        is_char_boundary(whole, from),
        floor_of(whole, n) - from <= end <= n - from,
        n - 3 <= floor_of(whole, n) <= n,
        is_char_boundary(whole, floor_of(whole, n)),
    ensures
        settled(whole.subrange(from, n), end) == floor_of(whole, n) - from,
    decreases end,
{
    let to = floor_of(whole, n);
    let bytes = whole.subrange(from, n);
    if end == to - from {
        between_boundaries(whole, from, to);
        assert(bytes.take(end) =~= whole.subrange(from, to));
    } else {
        if valid_utf8(bytes.take(end)) {
            valid_utf8_split(whole, from);
            let rest = whole.skip(from);
            assert(rest =~= whole.subrange(from, whole.len() as int));
            assert(rest.take(end) =~= bytes.take(end));
            text_prefix(rest, end);
            boundary_at(rest, end);
            boundary_at(whole, from + end);
            floor_bounds(whole, n);
            assert(is_char_boundary(whole, from + end));
            assert(false);
        }
        settled_at_floor(whole, from, n, end - 1);
    }
}

proof fn settled_bounds(bytes: Seq<u8>, end: int)
    requires
        0 <= end <= bytes.len(),
        end + 4 >= bytes.len(),
    ensures
        0 <= settled(bytes, end) <= end,
        settled(bytes, end) + 4 >= bytes.len(),
    decreases end,
{
    if end > 0 && !valid_utf8(bytes.take(end)) && end + 4 > bytes.len() {
        settled_bounds(bytes, end - 1);
    }
}

} // verus!
