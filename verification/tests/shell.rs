use rope::tool::shell::{
    clamp_yield, decode_rest, decode_utf8, end_state, envelope_header, lease_tree, JobEnd, ShellJob,
    ShellJobManager, ShellJobState,
};

fn output_of(envelope: &str) -> &str {
    envelope.split_once("output:\n").unwrap().1
}

#[test]
fn terminal_error_text_is_accounted_like_output() {
    // Worker read/wait failures append trailing text to the job; it is
    // output, so it must go through the same accounting as normal
    // output, or the buffer stops being the tail of the stream and
    // poll's absolute offsets underflow.
    let mut job = ShellJob::new();
    job.append("hello");
    job.append("\n[shell: read command stdout: broken pipe]\n");

    assert_eq!(job.total, job.buffer.len() as u64);
    assert_eq!(
        job.buffer,
        "hello\n[shell: read command stdout: broken pipe]\n"
    );
    // What poll computes to locate the buffer in the stream.
    let buffer_start = job.total - job.buffer.len() as u64;
    assert_eq!(buffer_start, 0);
    assert_eq!(job.delivered, 0);
}

#[test]
fn utf8_decoder_carries_partial_characters_across_reads() {
    let mut leftover: Vec<u8> = Vec::new();
    let bytes = "héllo".as_bytes();

    assert_eq!(decode_utf8(&mut leftover, &bytes[..2]), "h");
    assert_eq!(leftover, vec![0xC3]);
    assert_eq!(decode_utf8(&mut leftover, &bytes[2..]), "éllo");
    assert!(leftover.is_empty());
}

#[test]
fn utf8_decoder_emits_invalid_bytes_lossy_once_settled() {
    let mut leftover: Vec<u8> = Vec::new();

    assert_eq!(decode_utf8(&mut leftover, &[0xFF, 0x61]), "");
    assert_eq!(
        decode_utf8(&mut leftover, &[0x62, 0x63, 0x64, 0x65]),
        "\u{FFFD}a"
    );
    assert_eq!(decode_utf8(&mut leftover, &[0x66]), "bcdef");
    assert!(leftover.is_empty());
}

#[test]
fn waiting_is_limited() {
    assert_eq!(clamp_yield(None), 10_000);
    assert_eq!(clamp_yield(Some(0)), 1);
    assert_eq!(clamp_yield(Some(250)), 250);
    assert_eq!(clamp_yield(Some(90_000)), 30_000);
}

#[test]
fn headers_tell_how_a_command_stands() {
    assert_eq!(
        envelope_header("shell-1", ShellJobState::Running, false, 0),
        "status: running\njob_id: shell-1\noutput:\n"
    );
    assert_eq!(
        envelope_header("shell-2", ShellJobState::Finished(Some(3)), true, 7),
        "status: finished\nexit_code: 3\njob_id: shell-2\nnote: 7 bytes of output discarded\nhas_more: true\noutput:\n"
    );
    assert_eq!(
        envelope_header("shell-3", ShellJobState::Cancelled(None), false, 0),
        "status: cancelled\nexit_code: -1\njob_id: shell-3\noutput:\n"
    );
}

#[test]
fn the_longest_header_fits_the_least_result() {
    let longest = envelope_header(
        "shell-18446744073709551615",
        ShellJobState::Cancelled(Some(i32::MIN)),
        true,
        0,
    );
    assert_eq!(longest.len(), 99);
}

#[test]
fn output_is_told_once_and_in_order() {
    let mut manager = ShellJobManager::new();
    let id = manager.start();
    assert_eq!(id, "shell-1");
    assert!(manager.append_output(&id, "one\n"));
    let (first, gone) = manager.poll(&id, usize::MAX).unwrap();
    assert_eq!(output_of(&first.envelope()), "one\n");
    assert!(!gone);
    manager.append_output(&id, "two\n");
    let (second, _) = manager.poll(&id, usize::MAX).unwrap();
    assert_eq!(output_of(&second.envelope()), "two\n");
    manager.append_output(&id, "three\n");
    manager.finish_job(&id, ShellJobState::Finished(Some(0)), None);
    assert_eq!(manager.has_ended(&id), Some(true));
    let (last, gone) = manager.poll(&id, usize::MAX).unwrap();
    assert!(last.envelope().starts_with("status: finished\nexit_code: 0\n"));
    assert_eq!(output_of(&last.envelope()), "three\n");
    assert!(gone);
    assert_eq!(manager.poll(&id, 1_000).unwrap_err(), "unknown shell job: shell-1");
    assert_eq!(manager.start(), "shell-2");
}

#[test]
fn long_output_comes_in_chunks_without_gaps() {
    let mut manager = ShellJobManager::new();
    let id = manager.start();
    let text = "é0123456789".repeat(50);
    manager.append_output(&id, &text);
    manager.finish_job(&id, ShellJobState::Finished(Some(0)), None);
    let mut told = String::new();
    loop {
        let (snapshot, gone) = manager.poll(&id, 120).unwrap();
        let envelope = snapshot.envelope();
        assert!(envelope.len() <= 120);
        assert_eq!(envelope.contains("has_more: true"), !gone);
        told.push_str(output_of(&envelope));
        if gone {
            break;
        }
    }
    assert_eq!(told, text);
}

#[test]
fn output_beyond_the_limit_is_dropped_and_noted() {
    let mut manager = ShellJobManager::new();
    let id = manager.start();
    manager.append_output(&id, &"x".repeat(300 * 1024));
    let (snapshot, _) = manager.poll(&id, usize::MAX).unwrap();
    let envelope = snapshot.envelope();
    assert!(envelope.contains("note: 45056 bytes of output discarded\n"));
    assert_eq!(output_of(&envelope).len(), 256 * 1024);
    manager.append_output(&id, "y");
    let (snapshot, _) = manager.poll(&id, usize::MAX).unwrap();
    assert!(!snapshot.envelope().contains("note:"));
    assert_eq!(output_of(&snapshot.envelope()), "y");
}

#[test]
fn output_is_shown_while_it_comes() {
    let mut manager = ShellJobManager::new();
    let id = manager.start();
    manager.append_output(&id, "li");
    let progress = manager.progress(&id, usize::MAX).unwrap();
    assert_eq!(progress.fresh.as_deref(), Some("li"));
    assert!(!progress.ready);
    manager.append_output(&id, "ve");
    assert_eq!(manager.progress(&id, usize::MAX).unwrap().fresh.as_deref(), Some("ve"));
    assert_eq!(manager.progress(&id, usize::MAX).unwrap().fresh, None);
    assert!(manager.progress(&id, 44).unwrap().ready);
    assert!(!manager.progress(&id, 45).unwrap().ready);
    assert!(!manager.progress(&id, 1).unwrap().ready);
    assert!(manager.progress("shell-9", 1).is_err());
}

#[test]
fn commands_are_forgotten() {
    let mut manager = ShellJobManager::new();
    let id = manager.start();
    assert_eq!(manager.known(&id), Ok(()));
    assert_eq!(manager.has_ended(&id), Some(false));
    manager.clear();
    assert_eq!(manager.known(&id).unwrap_err(), "unknown shell job: shell-1");
    assert_eq!(manager.has_ended(&id), None);
    assert!(!manager.append_output(&id, "late"));
}

#[test]
fn poll_after_an_error_keeps_offsets_consistent() {
    let mut manager = ShellJobManager::new();
    let id = manager.start();
    manager.append_output(&id, "0123");
    manager.poll(&id, usize::MAX).unwrap();
    manager.append_output(&id, "456789");
    let (state, trailing) = end_state(
        JobEnd::ReadError("read command stdout: broken pipe".into()),
        Ok(Some(0)),
    );
    manager.finish_job(&id, state, trailing);
    let (snapshot, gone) = manager.poll(&id, usize::MAX).unwrap();
    assert!(snapshot.envelope().starts_with("status: finished\n"));
    assert_eq!(
        output_of(&snapshot.envelope()),
        "456789\n[shell: read command stdout: broken pipe]\n"
    );
    assert!(gone);
}

#[test]
fn the_end_of_a_command_is_told() {
    assert_eq!(
        end_state(JobEnd::Exited, Ok(Some(2))),
        (ShellJobState::Finished(Some(2)), None)
    );
    assert_eq!(
        end_state(JobEnd::Cancelled, Ok(None)),
        (ShellJobState::Cancelled(None), None)
    );
    assert!(ShellJobState::Cancelled(None).is_terminal());
    assert!(!ShellJobState::Running.is_terminal());
    assert_eq!(ShellJobState::Finished(Some(4)).exit_code(), Some(4));
}

#[test]
fn a_command_leads_a_group() {
    assert_eq!(lease_tree(Some(7)), Ok(7));
    assert_eq!(lease_tree(Some(i32::MAX as u32)), Ok(i32::MAX));
    for pid in [None, Some(0), Some(0x8000_0000)] {
        assert_eq!(lease_tree(pid).unwrap_err(), "shell has no process group");
    }
}

#[test]
fn no_more_is_kept_than_the_limit() {
    let mut job = ShellJob::new();
    job.append("é");
    job.append(&"x".repeat(262_143));
    assert_eq!(job.buffer.len(), 262_143);
    assert_eq!(job.discarded, 2);
    job.append("é");
    assert!(job.buffer.len() <= 262_144);
    assert_eq!(job.total, 262_147);
}

#[test]
fn polls_tell_the_output_once_and_in_order() {
    let mut jobs = ShellJobManager::new();
    assert!(jobs.can_start());
    let id = jobs.start();
    assert!(jobs.can_append(&id, "x"));
    let mut told = String::new();
    for piece in ["one é ", "two ü ", "three"] {
        jobs.append_output(&id, piece);
        let (snapshot, over) = jobs.poll(&id, 48).unwrap();
        assert!(!over);
        told.push_str(&snapshot.output);
    }
    for _ in 0..8 {
        told.push_str(&jobs.poll(&id, 48).unwrap().0.output);
    }
    assert_eq!(told, "one é two ü three");
}

#[test]
fn text_comes_out_as_it_went_in() {
    let text = "aé€😀z";
    for size in 1..=5 {
        let mut leftover = Vec::new();
        let mut told = String::new();
        for chunk in text.as_bytes().chunks(size) {
            told.push_str(&decode_utf8(&mut leftover, chunk));
            assert!(leftover.len() <= 3);
        }
        assert_eq!(told, text);
        assert!(leftover.is_empty());
    }
}

#[test]
fn what_is_left_over_is_told_at_the_end() {
    let mut leftover = vec![0xC3];
    assert_eq!(decode_rest(&mut leftover), "\u{FFFD}");
    assert!(leftover.is_empty());
    assert_eq!(decode_rest(&mut leftover), "");
}
