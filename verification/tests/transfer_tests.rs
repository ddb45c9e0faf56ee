use mmbackup::transfer::{
    upload_start, upload_step, OutcomeCode, TransferOutcome, UploadAction, UploadEvent,
    UploadState, CHUNK_SIZE,
};

/// Walks the machine through the setup phase up to the first read.
fn reach_reading() -> (UploadState, UploadAction) {
    let mut s = upload_start();
    let mut a = UploadAction::Connect;
    for e in [
        UploadEvent::ConnectOk,
        UploadEvent::HandshakeOk,
        UploadEvent::AuthOk,
        UploadEvent::SftpOk,
        UploadEvent::LocalOpenOk,
        UploadEvent::CreateOk,
    ] {
        let (ns, na) = upload_step(s, e);
        s = ns;
        a = na;
    }
    (s, a)
}

fn done_outcome(s: UploadState) -> TransferOutcome {
    match s {
        UploadState::Done { outcome } => outcome,
        _ => panic!("upload machine is not done"),
    }
}

/// Streams a file holding `data` through the machine and reports the
/// number of writes, the written byte stream, and the final state.
fn stream(data: &[u8]) -> (u64, Vec<u8>, UploadState) {
    let (mut s, mut a) = reach_reading();
    assert!(matches!(a, UploadAction::Read));
    let mut pos: usize = 0;
    let mut writes: u64 = 0;
    let mut written: Vec<u8> = Vec::new();
    loop {
        match a {
            UploadAction::Read => {
                let e = if pos >= data.len() {
                    UploadEvent::ReadEof
                } else {
                    let end = data.len().min(pos + CHUNK_SIZE as usize);
                    let chunk = data[pos..end].to_vec();
                    pos = end;
                    UploadEvent::ReadOk { chunk }
                };
                let (ns, na) = upload_step(s, e);
                s = ns;
                a = na;
            }
            UploadAction::Write { chunk } => {
                writes += 1;
                written.extend_from_slice(&chunk);
                let (ns, na) = upload_step(s, UploadEvent::WriteOk);
                s = ns;
                a = na;
            }
            UploadAction::CloseRemote => {
                let (ns, na) = upload_step(s, UploadEvent::Closed);
                s = ns;
                a = na;
            }
            UploadAction::Stop => break,
            other => panic!("unexpected action {:?}", other),
        }
    }
    (writes, written, s)
}

#[test]
fn streaming_write_counts_match_ceil() {
    let c = CHUNK_SIZE;
    for (size, expected_writes) in [
        (0, 0),
        (c - 1, 1),
        (c, 1),
        (c + 1, 2),
        (10 * c, 10),
    ] {
        let data: Vec<u8> = (0..size).map(|i| (i % 251) as u8).collect();
        let (writes, written, s) = stream(&data);
        assert_eq!(writes, expected_writes);
        assert_eq!(written, data);
        let outcome = done_outcome(s);
        assert_eq!(outcome.code, OutcomeCode::Success);
        assert_eq!(outcome.code.code(), 0);
        assert_eq!(outcome.bytes_transferred, size);
    }
}

#[test]
fn auth_rejection_gives_code_three_and_no_bytes() {
    let mut s = upload_start();
    for e in [UploadEvent::ConnectOk, UploadEvent::HandshakeOk] {
        let (ns, _) = upload_step(s, e);
        s = ns;
    }
    let (s, a) = upload_step(s, UploadEvent::AuthDenied);
    assert!(matches!(a, UploadAction::Stop));
    let outcome = done_outcome(s);
    assert_eq!(outcome.code.code(), 3);
    assert_eq!(outcome.bytes_transferred, 0);
}

#[test]
fn unopenable_local_file_gives_code_six_before_any_write() {
    let mut s = upload_start();
    for e in [UploadEvent::ConnectOk, UploadEvent::HandshakeOk, UploadEvent::AuthOk, UploadEvent::SftpOk] {
        let (ns, na) = upload_step(s, e);
        assert!(!matches!(na, UploadAction::Write { .. }));
        s = ns;
    }
    let (s, a) = upload_step(s, UploadEvent::LocalOpenErr);
    assert!(matches!(a, UploadAction::Stop));
    let outcome = done_outcome(s);
    assert_eq!(outcome.code.code(), 6);
    assert_eq!(outcome.bytes_transferred, 0);
}

#[test]
fn write_action_carries_the_read_bytes() {
    let (s, _) = reach_reading();
    let payload = vec![7u8, 8, 9, 10];
    let (_, a) = upload_step(s, UploadEvent::ReadOk { chunk: payload.clone() });
    match a {
        UploadAction::Write { chunk } => assert_eq!(chunk, payload),
        other => panic!("unexpected action {:?}", other),
    }
}

#[test]
fn mid_stream_failures_report_bytes_so_far() {
    let (start, _) = reach_reading();
    let (s, _) = upload_step(start, UploadEvent::ReadOk { chunk: vec![1u8; 100] });
    let (s, _) = upload_step(s, UploadEvent::WriteOk);
    let (read_err, _) = upload_step(s, UploadEvent::ReadErr);
    let outcome = done_outcome(read_err);
    assert_eq!(outcome.code.code(), 6);
    assert_eq!(outcome.bytes_transferred, 100);

    let (s, _) = upload_step(start, UploadEvent::ReadOk { chunk: vec![1u8; 100] });
    let (s, _) = upload_step(s, UploadEvent::WriteOk);
    let (s, _) = upload_step(s, UploadEvent::ReadOk { chunk: vec![2u8; 50] });
    let (write_err, _) = upload_step(s, UploadEvent::WriteErr);
    let outcome = done_outcome(write_err);
    assert_eq!(outcome.code.code(), 5);
    assert_eq!(outcome.bytes_transferred, 100);
}

#[test]
fn every_setup_failure_has_its_own_code() {
    let cases = [
        (vec![], UploadEvent::ConnectErr, 7),
        (vec![UploadEvent::ConnectOk], UploadEvent::HandshakeErr, 1),
        (vec![UploadEvent::ConnectOk, UploadEvent::HandshakeOk], UploadEvent::AuthCallErr, 2),
        (vec![UploadEvent::ConnectOk, UploadEvent::HandshakeOk], UploadEvent::AuthDenied, 3),
        (
            vec![UploadEvent::ConnectOk, UploadEvent::HandshakeOk, UploadEvent::AuthOk],
            UploadEvent::SftpErr,
            4,
        ),
        (
            vec![
                UploadEvent::ConnectOk,
                UploadEvent::HandshakeOk,
                UploadEvent::AuthOk,
                UploadEvent::SftpOk,
                UploadEvent::LocalOpenOk,
            ],
            UploadEvent::CreateErr,
            4,
        ),
    ];
    for (setup, failure, code) in cases {
        let mut s = upload_start();
        for e in setup {
            let (ns, _) = upload_step(s, e);
            s = ns;
        }
        let (s, _) = upload_step(s, failure);
        let outcome = done_outcome(s);
        assert_eq!(outcome.code.code(), code);
        assert_eq!(outcome.bytes_transferred, 0);
    }
}

#[test]
fn outcome_codes_are_stable() {
    assert_eq!(OutcomeCode::Success.code(), 0);
    assert_eq!(OutcomeCode::HandshakeFailed.code(), 1);
    assert_eq!(OutcomeCode::AuthCallFailed.code(), 2);
    assert_eq!(OutcomeCode::AuthRejected.code(), 3);
    assert_eq!(OutcomeCode::SftpUnavailable.code(), 4);
    assert_eq!(OutcomeCode::RemoteWriteFailed.code(), 5);
    assert_eq!(OutcomeCode::LocalReadFailed.code(), 6);
    assert_eq!(OutcomeCode::ConnectFailed.code(), 7);
}
