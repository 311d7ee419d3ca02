//! What holds of commands that run: what is kept of their output, what is told of it, and
//! what the header says.
use super::shell::{
    after_append, after_chunk, allowance, chunk_end, has_more_law, header_text, is_full, next_chunk, surplus, unreported,
    JobView, ShellJobState, MAX_SHELL_RETAINED,
};
use crate::text::{
    ceil_bounds, ceil_of, digits, floor_bounds, floor_of, has_prefix,
    is_char_boundary_within, signed_digits,
};
use vstd::prelude::*;
use vstd::string::*;
use vstd::utf8::*;

verus! {

// ---------------------------------------------------------------------------
// Output
// ---------------------------------------------------------------------------

/// Of any four places in a row inside a text one is the start of a character.
proof fn boundary_near(bytes: Seq<u8>, index: int)
    requires
        valid_utf8(bytes),
        0 <= index <= bytes.len(),
    ensures
        ceil_of(bytes, index) <= index + 3,
        floor_of(bytes, index) >= index - 3,
    decreases bytes.len(),
{
    is_char_boundary_start_end_of_seq(bytes);
    ceil_bounds(bytes, index);
    floor_bounds(bytes, index);
    let first = floor_of(bytes, index);
    if first < index {
        next_boundary(bytes, first);
        let next = choose|next: int|
            first < next <= first + 4 && next <= bytes.len() && #[trigger] is_char_boundary(
                bytes,
                next,
            );
        assert(next > index);
    }
}

/// A character has at most four bytes.
proof fn next_boundary(bytes: Seq<u8>, from: int)
    requires
        valid_utf8(bytes),
        0 <= from < bytes.len(),
        is_char_boundary(bytes, from),
    ensures
        exists|next: int|
            from < next <= from + 4 && next <= bytes.len() && #[trigger] is_char_boundary(
                bytes,
                next,
            ),
    decreases bytes.len(),
{
    let n = length_of_first_scalar(bytes);
    let rest = pop_first_scalar(bytes);
    is_char_boundary_start_end_of_seq(rest);
    if from == 0 {
        assert(is_char_boundary(rest, 0));
        assert(is_char_boundary(bytes, n));
    } else {
        is_char_boundary_within(rest, from - n);
        next_boundary(rest, from - n);
        let next = choose|next: int|
            from - n < next <= from - n + 4 && next <= rest.len() && #[trigger] is_char_boundary(
                rest,
                next,
            );
        assert(is_char_boundary(bytes, next + n));
    }
}

/// Output that fits is kept whole. Of output that does not, the last part is kept, whole but
/// for the rest of a character that would not fit; what was not told before it left is
/// counted, byte for byte. Nothing else of the command changes.
pub proof fn retention_law(job: JobView, bytes: Seq<u8>)
    requires
        job.wf(),
        valid_utf8(bytes),
        job.total + bytes.len() <= u64::MAX,
    ensures
        ({
            let next = after_append(job, bytes);
            let whole = job.buffer + bytes;
            let cut = whole.len() - next.buffer.len();
            &&& whole.len() <= 262_144 ==> next.buffer == whole && next.delivered == job.delivered
                && next.discarded == job.discarded
            &&& whole.len() > 262_144 ==> 262_141 <= next.buffer.len() <= 262_144
            &&& cut >= 0
            &&& whole == whole.take(cut) + next.buffer
            &&& next.total == job.total + bytes.len()
            &&& next.discarded - job.discarded == if job.start() + cut > job.delivered {
                job.start() + cut - job.delivered
            } else {
                0
            }
            &&& next.delivered - job.delivered == next.discarded - job.discarded
            &&& next.streamed == job.streamed
            &&& next.discarded_reported == job.discarded_reported
            &&& next.state == job.state
        }),
{
    let whole = job.buffer + bytes;
    valid_utf8_concat(job.buffer, bytes);
    if whole.len() > MAX_SHELL_RETAINED {
        ceil_bounds(whole, whole.len() - MAX_SHELL_RETAINED);
        boundary_near(whole, whole.len() - MAX_SHELL_RETAINED);
    }
    let cut = surplus(whole);
    assert(whole =~= whole.take(cut) + whole.skip(cut));
    assert(whole.skip(0) =~= whole);
}

/// Bytes that left before they were told are reported once: behind a report none are due, and
/// new ones are due as they leave.
pub proof fn report_law(job: JobView, bytes: Seq<u8>, end: int)
    requires
        job.wf(),
        valid_utf8(bytes),
        job.total + bytes.len() <= u64::MAX,
    ensures
        unreported(after_chunk(job, end)) == 0,
        unreported(after_append(job, bytes)) - unreported(job) == after_append(job, bytes).discarded
            - job.discarded,
        job.discarded == job.discarded_reported + unreported(job),
{
    retention_law(job, bytes);
}

/// What is told fills the room behind its header, but for the rest of a character; where all
/// that is left fits, all of it is told.
pub proof fn told_law(job: JobView, job_id: Seq<char>, budget: usize)
    requires
        job.wf(),
    ensures
        ({
            let (header, end) = next_chunk(job, job_id, budget);
            let told = end - (job.delivered - job.start());
            let left = job.total - job.delivered;
            let room = budget - encode_utf8(header).len();
            &&& 0 <= told <= left
            &&& room >= 0 ==> told <= room
            &&& room <= 0 ==> told == 0
            &&& 0 < room < left ==> told >= room - 3
            &&& room >= left ==> told == left
            &&& after_chunk(job, end).delivered == job.delivered + told
            &&& after_chunk(job, end).discarded == job.discarded
            &&& after_chunk(job, end).buffer == job.buffer
            &&& after_chunk(job, end).total == job.total
            &&& after_chunk(job, end).state == job.state
        }),
{
    let from = job.delivered - job.start();
    let left = job.buffer.len() - from;
    let plain = header_text(job_id, job.state, false, unreported(job));
    let marked = header_text(job_id, job.state, true, unreported(job));
    chunk_fills(job, budget, plain);
    chunk_fills(job, budget, marked);
    if job.state.ended() {
        has_more_law(job, job_id, budget);
    }
}

proof fn chunk_fills(job: JobView, budget: usize, header: Seq<char>)
    requires
        job.wf(),
    ensures
        ({
            let told = chunk_end(job, budget, header) - (job.delivered
                - job.start());
            let left = job.total - job.delivered;
            let room = allowance(budget, header);
            &&& 0 <= told <= left
            &&& told <= room
            &&& room < left ==> told >= room - 3
            &&& room >= left ==> told == left
        }),
{
    let from = job.delivered - job.start();
    let left = job.buffer.len() - from;
    let room = allowance(budget, header);
    let aim = from + if room < left {
        room
    } else {
        left
    };
    is_char_boundary_start_end_of_seq(job.buffer);
    floor_bounds(job.buffer, aim);
    boundary_near(job.buffer, aim);
}

/// There is enough for a full answer just where what is left fills the room behind the
/// header.
pub proof fn full_law(job: JobView, job_id: Seq<char>, budget: usize)
    requires
        job.wf(),
    ensures
        ({
            let header = header_text(job_id, job.state, false, unreported(job));
            let room = budget - encode_utf8(header).len();
            is_full(job, job_id, budget) <==> room > 0 && job.total - job.delivered >= room
        }),
{
}

// ---------------------------------------------------------------------------
// The header
// ---------------------------------------------------------------------------

/// The header starts with how the command stands, in a word of its own for each, and ends
/// where the output begins.
pub proof fn status_law(job_id: Seq<char>, state: ShellJobState, has_more: bool, discarded: u64)
    ensures
        ({
            let header = header_text(job_id, state, has_more, discarded);
            &&& state == ShellJobState::Running ==> has_prefix(header, "status: running\njob_id: "@)
            &&& state is Finished ==> has_prefix(header, "status: finished\nexit_code: "@)
            &&& state is Cancelled ==> has_prefix(header, "status: cancelled\nexit_code: "@)
            &&& exists|front: Seq<char>| header == #[trigger] (front + "\noutput:\n"@)
        }),
{
    reveal_strlit("status: running\njob_id: ");
    reveal_strlit("status: finished\nexit_code: ");
    reveal_strlit("status: cancelled\nexit_code: ");
    reveal_strlit("status: ");
    reveal_strlit("running");
    reveal_strlit("finished");
    reveal_strlit("cancelled");
    reveal_strlit("exit_code: ");
    reveal_strlit("job_id: ");
    reveal_strlit("\n");
    reveal_strlit("output:\n");
    reveal_strlit("\noutput:\n");
    reveal_strlit("has_more: true\n");
    reveal_strlit(" bytes of output discarded\n");
    let header = header_text(job_id, state, has_more, discarded);
    let front = header.take(header.len() - 9);
    assert(header =~= front + "\noutput:\n"@);
    if state == ShellJobState::Running {
        assert(header.take("status: running\njob_id: "@.len() as int)
            =~= "status: running\njob_id: "@);
    } else if state is Finished {
        assert(header.take("status: finished\nexit_code: "@.len() as int)
            =~= "status: finished\nexit_code: "@);
    } else {
        assert(header.take("status: cancelled\nexit_code: "@.len() as int)
            =~= "status: cancelled\nexit_code: "@);
    }
}

/// The header of a command that is over holds its exit code, -1 where it has none.
pub proof fn exit_law(job_id: Seq<char>, code: Option<i32>, has_more: bool, discarded: u64)
    ensures
        ({
            let shown = match code {
                Some(code) => signed_digits(code as int),
                None => "-1"@,
            };
            &&& has_prefix(
                header_text(job_id, ShellJobState::Finished(code), has_more, discarded),
                "status: finished\nexit_code: "@ + shown + "\njob_id: "@ + job_id + "\n"@,
            )
            &&& has_prefix(
                header_text(job_id, ShellJobState::Cancelled(code), has_more, discarded),
                "status: cancelled\nexit_code: "@ + shown + "\njob_id: "@ + job_id + "\n"@,
            )
            &&& has_prefix(
                header_text(job_id, ShellJobState::Running, has_more, discarded),
                "status: running\njob_id: "@ + job_id + "\n"@,
            )
        }),
{
    reveal_strlit("status: running\njob_id: ");
    reveal_strlit("status: finished\nexit_code: ");
    reveal_strlit("status: cancelled\nexit_code: ");
    reveal_strlit("status: ");
    reveal_strlit("running");
    reveal_strlit("finished");
    reveal_strlit("cancelled");
    reveal_strlit("exit_code: ");
    reveal_strlit("job_id: ");
    reveal_strlit("\njob_id: ");
    reveal_strlit("\n");
    reveal_strlit("-1");
    reveal_strlit("-");
    let shown = match code {
        Some(code) => signed_digits(code as int),
        None => "-1"@,
    };
    assert(signed_digits(-1) =~= "-1"@) by {
        assert(digits(1) =~= seq!['1']) by {
            reveal_with_fuel(digits, 3);
        }
    }
    let a = "status: finished\nexit_code: "@ + shown + "\njob_id: "@ + job_id + "\n"@;
    assert(header_text(job_id, ShellJobState::Finished(code), has_more, discarded).take(
        a.len() as int,
    ) =~= a);
    let b = "status: cancelled\nexit_code: "@ + shown + "\njob_id: "@ + job_id + "\n"@;
    assert(header_text(job_id, ShellJobState::Cancelled(code), has_more, discarded).take(
        b.len() as int,
    ) =~= b);
    let c = "status: running\njob_id: "@ + job_id + "\n"@;
    assert(header_text(job_id, ShellJobState::Running, has_more, discarded).take(c.len() as int)
        =~= c);
}

/// A negative number is written as its amount behind a minus sign, others as they are.
pub proof fn signed_law(n: nat)
    ensures
        n > 0 ==> signed_digits(-(n as int)) == seq!['-'] + digits(n),
        signed_digits(n as int) == digits(n),
{
    reveal_strlit("-");
    assert("-"@ =~= seq!['-']);
}

/// Whether there is more, and how much was lost, is said in a line of its own in front of the
/// output, just where there is something to say.
pub proof fn note_law(job_id: Seq<char>, state: ShellJobState, discarded: u64)
    requires
        discarded > 0,
    ensures
        exists|front: Seq<char>|
            {
                &&& header_text(job_id, state, false, 0) == #[trigger] (front + "output:\n"@)
                &&& header_text(job_id, state, true, 0) == front + "has_more: true\noutput:\n"@
                &&& header_text(job_id, state, false, discarded) == front + "note: "@ + digits(
                    discarded as nat,
                ) + " bytes of output discarded\noutput:\n"@
                &&& header_text(job_id, state, true, discarded) == front + "note: "@ + digits(
                    discarded as nat,
                ) + " bytes of output discarded\nhas_more: true\noutput:\n"@
            },
{
    reveal_strlit("output:\n");
    reveal_strlit("has_more: true\n");
    reveal_strlit("has_more: true\noutput:\n");
    reveal_strlit(" bytes of output discarded\n");
    reveal_strlit(" bytes of output discarded\noutput:\n");
    reveal_strlit(" bytes of output discarded\nhas_more: true\noutput:\n");
    reveal_strlit("note: ");
    let bare = header_text(job_id, state, false, 0);
    let front = bare.take(bare.len() - 8);
    assert(bare =~= front + "output:\n"@);
    assert(header_text(job_id, state, true, 0) =~= front + "has_more: true\noutput:\n"@);
    assert(header_text(job_id, state, false, discarded) =~= front + "note: "@ + digits(
        discarded as nat,
    ) + " bytes of output discarded\noutput:\n"@);
    assert(header_text(job_id, state, true, discarded) =~= front + "note: "@ + digits(
        discarded as nat,
    ) + " bytes of output discarded\nhas_more: true\noutput:\n"@);
}

} // verus!
