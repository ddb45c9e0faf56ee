use vstd::prelude::*;

verus! {

/// Bytes moved per write: the transfer streams the local file in
/// bounded chunks rather than holding it whole in memory.
pub const CHUNK_SIZE: u64 = 1048576;

/// Why one upload attempt ended.
#[derive(Clone, Copy, Debug, PartialEq, Eq, Structural)]
pub enum OutcomeCode {
    Success,
    HandshakeFailed,
    AuthCallFailed,
    AuthRejected,
    SftpUnavailable,
    RemoteWriteFailed,
    LocalReadFailed,
    ConnectFailed,
}

impl OutcomeCode {
    /// The stable integer for each outcome.
    pub open spec fn code_spec(self) -> u16 {
        match self {
            OutcomeCode::Success => 0,
            OutcomeCode::HandshakeFailed => 1,
            OutcomeCode::AuthCallFailed => 2,
            OutcomeCode::AuthRejected => 3,
            OutcomeCode::SftpUnavailable => 4,
            OutcomeCode::RemoteWriteFailed => 5,
            OutcomeCode::LocalReadFailed => 6,
            OutcomeCode::ConnectFailed => 7,
        }
    }

    pub fn code(&self) -> (c: u16)
        ensures
            c == self.code_spec(),
    {
        match self {
            OutcomeCode::Success => 0,
            OutcomeCode::HandshakeFailed => 1,
            OutcomeCode::AuthCallFailed => 2,
            OutcomeCode::AuthRejected => 3,
            OutcomeCode::SftpUnavailable => 4,
            OutcomeCode::RemoteWriteFailed => 5,
            OutcomeCode::LocalReadFailed => 6,
            OutcomeCode::ConnectFailed => 7,
        }
    }
}

/// The result of one upload attempt: why it ended, and how many bytes
/// had been written to the remote file when it did.
#[derive(Clone, Copy, Debug, PartialEq, Eq, Structural)]
pub struct TransferOutcome {
    pub code: OutcomeCode,
    pub bytes_transferred: u64,
}

/// Where one upload attempt stands. The attempt walks the fixed
/// protocol sequence: connect, handshake, authenticate, open the
/// remote-copy sub-session, open the local file, create the remote
/// file, then alternate reads and writes until end of file.
#[derive(Clone, Copy, Debug, PartialEq, Eq, Structural)]
pub enum UploadState {
    Connecting,
    Handshaking,
    Authenticating,
    OpeningSftp,
    OpeningLocal,
    CreatingRemote,
    Reading { sent: u64 },
    Writing { sent: u64, pending: u64 },
    Closing { sent: u64 },
    Done { outcome: TransferOutcome },
}

/// What the surrounding process reports back after performing the
/// requested action. A successful read hands over the bytes it got.
#[derive(Clone, Debug)]
pub enum UploadEvent {
    ConnectOk,
    ConnectErr,
    HandshakeOk,
    HandshakeErr,
    AuthOk,
    AuthCallErr,
    AuthDenied,
    SftpOk,
    SftpErr,
    LocalOpenOk,
    LocalOpenErr,
    CreateOk,
    CreateErr,
    ReadOk { chunk: Vec<u8> },
    ReadEof,
    ReadErr,
    WriteOk,
    WriteErr,
    Closed,
}

/// What the surrounding process must do next. A write carries exactly
/// the bytes that the last read produced.
#[derive(Clone, Debug)]
pub enum UploadAction {
    Connect,
    Handshake,
    Authenticate,
    OpenSftp,
    OpenLocal,
    CreateRemote,
    Read,
    Write { chunk: Vec<u8> },
    CloseRemote,
    Stop,
}

/// The events that can answer the action requested in `s`. A read
/// reports at most one chunk, and the byte counter cannot overflow.
pub open spec fn event_fits(s: UploadState, e: UploadEvent) -> bool {
    match (s, e) {
        (UploadState::Connecting, UploadEvent::ConnectOk) => true,
        (UploadState::Connecting, UploadEvent::ConnectErr) => true,
        (UploadState::Handshaking, UploadEvent::HandshakeOk) => true,
        (UploadState::Handshaking, UploadEvent::HandshakeErr) => true,
        (UploadState::Authenticating, UploadEvent::AuthOk) => true,
        (UploadState::Authenticating, UploadEvent::AuthCallErr) => true,
        (UploadState::Authenticating, UploadEvent::AuthDenied) => true,
        (UploadState::OpeningSftp, UploadEvent::SftpOk) => true,
        (UploadState::OpeningSftp, UploadEvent::SftpErr) => true,
        (UploadState::OpeningLocal, UploadEvent::LocalOpenOk) => true,
        (UploadState::OpeningLocal, UploadEvent::LocalOpenErr) => true,
        (UploadState::CreatingRemote, UploadEvent::CreateOk) => true,
        (UploadState::CreatingRemote, UploadEvent::CreateErr) => true,
        (UploadState::Reading { sent }, UploadEvent::ReadOk { chunk }) => 1 <= chunk@.len()
            <= CHUNK_SIZE && sent + chunk@.len() <= u64::MAX,
        (UploadState::Reading { .. }, UploadEvent::ReadEof) => true,
        (UploadState::Reading { .. }, UploadEvent::ReadErr) => true,
        (UploadState::Writing { sent, pending }, UploadEvent::WriteOk) => sent + pending
            <= u64::MAX,
        (UploadState::Writing { .. }, UploadEvent::WriteErr) => true,
        (UploadState::Closing { .. }, UploadEvent::Closed) => true,
        _ => false,
    }
}

/// The transition relation of one upload attempt. An event that does
/// not answer the pending action leaves the state alone and asks the
/// process to stop; in particular a finished attempt stays finished.
pub open spec fn step_spec(s: UploadState, e: UploadEvent) -> (UploadState, UploadAction) {
    match (s, e) {
        (UploadState::Connecting, UploadEvent::ConnectOk) => (
            UploadState::Handshaking,
            UploadAction::Handshake,
        ),
        (UploadState::Connecting, UploadEvent::ConnectErr) => (
            done_state(OutcomeCode::ConnectFailed, 0),
            UploadAction::Stop,
        ),
        (UploadState::Handshaking, UploadEvent::HandshakeOk) => (
            UploadState::Authenticating,
            UploadAction::Authenticate,
        ),
        (UploadState::Handshaking, UploadEvent::HandshakeErr) => (
            done_state(OutcomeCode::HandshakeFailed, 0),
            UploadAction::Stop,
        ),
        (UploadState::Authenticating, UploadEvent::AuthOk) => (
            UploadState::OpeningSftp,
            UploadAction::OpenSftp,
        ),
        (UploadState::Authenticating, UploadEvent::AuthCallErr) => (
            done_state(OutcomeCode::AuthCallFailed, 0),
            UploadAction::Stop,
        ),
        (UploadState::Authenticating, UploadEvent::AuthDenied) => (
            done_state(OutcomeCode::AuthRejected, 0),
            UploadAction::Stop,
        ),
        (UploadState::OpeningSftp, UploadEvent::SftpOk) => (
            UploadState::OpeningLocal,
            UploadAction::OpenLocal,
        ),
        (UploadState::OpeningSftp, UploadEvent::SftpErr) => (
            done_state(OutcomeCode::SftpUnavailable, 0),
            UploadAction::Stop,
        ),
        (UploadState::OpeningLocal, UploadEvent::LocalOpenOk) => (
            UploadState::CreatingRemote,
            UploadAction::CreateRemote,
        ),
        (UploadState::OpeningLocal, UploadEvent::LocalOpenErr) => (
            done_state(OutcomeCode::LocalReadFailed, 0),
            UploadAction::Stop,
        ),
        (UploadState::CreatingRemote, UploadEvent::CreateOk) => (
            UploadState::Reading { sent: 0 },
            UploadAction::Read,
        ),
        (UploadState::CreatingRemote, UploadEvent::CreateErr) => (
            done_state(OutcomeCode::SftpUnavailable, 0),
            UploadAction::Stop,
        ),
        (UploadState::Reading { sent }, UploadEvent::ReadOk { chunk }) => (
            UploadState::Writing { sent, pending: chunk@.len() as u64 },
            UploadAction::Write { chunk },
        ),
        (UploadState::Reading { sent }, UploadEvent::ReadEof) => (
            UploadState::Closing { sent },
            UploadAction::CloseRemote,
        ),
        (UploadState::Reading { sent }, UploadEvent::ReadErr) => (
            done_state(OutcomeCode::LocalReadFailed, sent),
            UploadAction::Stop,
        ),
        (UploadState::Writing { sent, pending }, UploadEvent::WriteOk) => (
            UploadState::Reading { sent: (sent + pending) as u64 },
            UploadAction::Read,
        ),
        (UploadState::Writing { sent, pending: _ }, UploadEvent::WriteErr) => (
            done_state(OutcomeCode::RemoteWriteFailed, sent),
            UploadAction::Stop,
        ),
        (UploadState::Closing { sent }, UploadEvent::Closed) => (
            done_state(OutcomeCode::Success, sent),
            UploadAction::Stop,
        ),
        (other, _) => (other, UploadAction::Stop),
    }
}

/// The finished state with the given outcome.
pub open spec fn done_state(code: OutcomeCode, bytes: u64) -> UploadState {
    UploadState::Done { outcome: TransferOutcome { code, bytes_transferred: bytes } }
}

/// The state in which every upload attempt begins.
pub fn upload_start() -> (s: UploadState)
    ensures
        s == UploadState::Connecting,
{
    UploadState::Connecting
}

/// Advances one upload attempt by one event and says what to do next.
pub fn upload_step(s: UploadState, e: UploadEvent) -> (r: (UploadState, UploadAction))
    requires
        event_fits(s, e),
    ensures
        r == step_spec(s, e),
{
    match (s, e) {
        (UploadState::Connecting, UploadEvent::ConnectOk) => (
            UploadState::Handshaking,
            UploadAction::Handshake,
        ),
        (UploadState::Connecting, UploadEvent::ConnectErr) => (
            done_exec(OutcomeCode::ConnectFailed, 0),
            UploadAction::Stop,
        ),
        (UploadState::Handshaking, UploadEvent::HandshakeOk) => (
            UploadState::Authenticating,
            UploadAction::Authenticate,
        ),
        (UploadState::Handshaking, UploadEvent::HandshakeErr) => (
            done_exec(OutcomeCode::HandshakeFailed, 0),
            UploadAction::Stop,
        ),
        (UploadState::Authenticating, UploadEvent::AuthOk) => (
            UploadState::OpeningSftp,
            UploadAction::OpenSftp,
        ),
        (UploadState::Authenticating, UploadEvent::AuthCallErr) => (
            done_exec(OutcomeCode::AuthCallFailed, 0),
            UploadAction::Stop,
        ),
        (UploadState::Authenticating, UploadEvent::AuthDenied) => (
            done_exec(OutcomeCode::AuthRejected, 0),
            UploadAction::Stop,
        ),
        (UploadState::OpeningSftp, UploadEvent::SftpOk) => (
            UploadState::OpeningLocal,
            UploadAction::OpenLocal,
        ),
        (UploadState::OpeningSftp, UploadEvent::SftpErr) => (
            done_exec(OutcomeCode::SftpUnavailable, 0),
            UploadAction::Stop,
        ),
        (UploadState::OpeningLocal, UploadEvent::LocalOpenOk) => (
            UploadState::CreatingRemote,
            UploadAction::CreateRemote,
        ),
        (UploadState::OpeningLocal, UploadEvent::LocalOpenErr) => (
            done_exec(OutcomeCode::LocalReadFailed, 0),
            UploadAction::Stop,
        ),
        (UploadState::CreatingRemote, UploadEvent::CreateOk) => (
            UploadState::Reading { sent: 0 },
            UploadAction::Read,
        ),
        (UploadState::CreatingRemote, UploadEvent::CreateErr) => (
            done_exec(OutcomeCode::SftpUnavailable, 0),
            UploadAction::Stop,
        ),
        (UploadState::Reading { sent }, UploadEvent::ReadOk { chunk }) => {
            let n = chunk.len() as u64;
            (UploadState::Writing { sent, pending: n }, UploadAction::Write { chunk })
        },
        (UploadState::Reading { sent }, UploadEvent::ReadEof) => (
            UploadState::Closing { sent },
            UploadAction::CloseRemote,
        ),
        (UploadState::Reading { sent }, UploadEvent::ReadErr) => (
            done_exec(OutcomeCode::LocalReadFailed, sent),
            UploadAction::Stop,
        ),
        (UploadState::Writing { sent, pending }, UploadEvent::WriteOk) => (
            UploadState::Reading { sent: sent + pending },
            UploadAction::Read,
        ),
        (UploadState::Writing { sent, pending: _ }, UploadEvent::WriteErr) => (
            done_exec(OutcomeCode::RemoteWriteFailed, sent),
            UploadAction::Stop,
        ),
        (UploadState::Closing { sent }, UploadEvent::Closed) => (
            done_exec(OutcomeCode::Success, sent),
            UploadAction::Stop,
        ),
        (other, _) => (other, UploadAction::Stop),
    }
}

/// The finished state with the given outcome.
pub fn done_exec(code: OutcomeCode, bytes: u64) -> (s: UploadState)
    ensures
        s == done_state(code, bytes),
{
    UploadState::Done { outcome: TransferOutcome { code, bytes_transferred: bytes } }
}

/// The state reached, and the actions requested along the way, when the
/// machine is fed the events of `evs` in order from state `s`.
pub open spec fn run_upload(s: UploadState, evs: Seq<UploadEvent>) -> (UploadState, Seq<
    UploadAction,
>)
    decreases evs.len(),
{
    if evs.len() == 0 {
        (s, Seq::<UploadAction>::empty())
    } else {
        let first = step_spec(s, evs[0]);
        let rest = run_upload(first.0, evs.skip(1));
        (rest.0, seq![first.1] + rest.1)
    }
}

/// Every event of `evs`, fed in order from `s`, answers the action then
/// pending.
pub open spec fn events_fit_from(s: UploadState, evs: Seq<UploadEvent>) -> bool
    decreases evs.len(),
{
    evs.len() == 0 || (event_fits(s, evs[0]) && events_fit_from(
        step_spec(s, evs[0]).0,
        evs.skip(1),
    ))
}

/// The chunks handed to remote writes among the requested actions, in
/// order.
pub open spec fn write_chunks(acts: Seq<UploadAction>) -> Seq<Seq<u8>>
    decreases acts.len(),
{
    if acts.len() == 0 {
        Seq::<Seq<u8>>::empty()
    } else {
        let rest = write_chunks(acts.skip(1));
        match acts[0] {
            UploadAction::Write { chunk } => seq![chunk@] + rest,
            _ => rest,
        }
    }
}

/// The chunks the local reads produced among the events, in order.
pub open spec fn read_chunks(evs: Seq<UploadEvent>) -> Seq<Seq<u8>>
    decreases evs.len(),
{
    if evs.len() == 0 {
        Seq::<Seq<u8>>::empty()
    } else {
        let rest = read_chunks(evs.skip(1));
        match evs[0] {
            UploadEvent::ReadOk { chunk } => seq![chunk@] + rest,
            _ => rest,
        }
    }
}

/// The byte stream that a sequence of chunks forms.
pub open spec fn flatten_bytes(chunks: Seq<Seq<u8>>) -> Seq<u8>
    decreases chunks.len(),
{
    if chunks.len() == 0 {
        Seq::<u8>::empty()
    } else {
        chunks[0] + flatten_bytes(chunks.skip(1))
    }
}

/// How many further reads the requested actions ask for.
pub open spec fn count_reads(acts: Seq<UploadAction>) -> int
    decreases acts.len(),
{
    if acts.len() == 0 {
        0
    } else {
        (match acts[0] {
            UploadAction::Read => 1int,
            _ => 0int,
        }) + count_reads(acts.skip(1))
    }
}

/// The events produced by reading a local file holding `data` in chunks
/// of at most `chunk` bytes, every remote write succeeding: full
/// chunks, then the remainder, then end of file, then the close.
pub open spec fn is_chunked_stream(evs: Seq<UploadEvent>, data: Seq<u8>, chunk: u64) -> bool
    decreases data.len(),
        when chunk >= 1
{
    if data.len() == 0 {
        evs == seq![UploadEvent::ReadEof, UploadEvent::Closed]
    } else {
        let n: int = if data.len() < chunk {
            data.len() as int
        } else {
            chunk as int
        };
        &&& evs.len() >= 2
        &&& evs[0] matches UploadEvent::ReadOk { chunk: c } && c@ == data.take(n)
        &&& evs[1] == UploadEvent::WriteOk
        &&& is_chunked_stream(evs.skip(2), data.skip(n), chunk)
    }
}

/// The least number of `c`-byte chunks that cover `s` bytes.
pub open spec fn div_ceil(s: int, c: int) -> int {
    (s + c - 1) / c
}

/// Feeding one event, then the rest, is one step, then the rest of the run.
proof fn lemma_run_cons(s: UploadState, e: UploadEvent, evs: Seq<UploadEvent>)
    ensures
        run_upload(s, seq![e] + evs) == {
            let first = step_spec(s, e);
            let rest = run_upload(first.0, evs);
            (rest.0, seq![first.1] + rest.1)
        },
{
    let all = seq![e] + evs;
    assert(all[0] == e);
    assert(all.skip(1) =~= evs);
}

/// The write chunks of `cons(a, acts)` are those of `acts`, with `a`'s
/// chunk in front when `a` is itself a write.
proof fn lemma_write_chunks_cons(a: UploadAction, acts: Seq<UploadAction>)
    ensures
        write_chunks(seq![a] + acts) == match a {
            UploadAction::Write { chunk } => seq![chunk@] + write_chunks(acts),
            _ => write_chunks(acts),
        },
{
    let all = seq![a] + acts;
    assert(all[0] == a);
    assert(all.skip(1) =~= acts);
}

/// The read chunks of `cons(e, evs)` are those of `evs`, with `e`'s
/// chunk in front when `e` is itself a successful read.
proof fn lemma_read_chunks_cons(e: UploadEvent, evs: Seq<UploadEvent>)
    ensures
        read_chunks(seq![e] + evs) == match e {
            UploadEvent::ReadOk { chunk } => seq![chunk@] + read_chunks(evs),
            _ => read_chunks(evs),
        },
{
    let all = seq![e] + evs;
    assert(all[0] == e);
    assert(all.skip(1) =~= evs);
}

/// The bytes of `cons(x, chunks)` are `x` followed by the rest's bytes.
proof fn lemma_flatten_cons(x: Seq<u8>, chunks: Seq<Seq<u8>>)
    ensures
        flatten_bytes(seq![x] + chunks) == x + flatten_bytes(chunks),
{
    let all = seq![x] + chunks;
    assert(all[0] == x);
    assert(all.skip(1) =~= chunks);
}

/// The reads among `cons(a, acts)` count `a` exactly when it is a read.
proof fn lemma_count_reads_cons(a: UploadAction, acts: Seq<UploadAction>)
    ensures
        count_reads(seq![a] + acts) == (match a {
            UploadAction::Read => 1int,
            _ => 0int,
        }) + count_reads(acts),
{
    let all = seq![a] + acts;
    assert(all[0] == a);
    assert(all.skip(1) =~= acts);
}

/// Streaming law: from a reading state with `sent` bytes already
/// counted, the events of a local file holding `data`, moved in chunks
/// of at most `chunk` bytes, drive the attempt to a successful end that
/// counts every byte. Exactly `ceil(data.len() / chunk)` remote writes
/// are requested, carrying exactly the bytes of `data` in order, and as
/// many further reads.
pub proof fn lemma_streaming_upload(sent: u64, data: Seq<u8>, chunk: u64, evs: Seq<UploadEvent>)
    requires
        1 <= chunk,
        sent + data.len() <= u64::MAX,
        is_chunked_stream(evs, data, chunk),
    ensures
        ({
            let r = run_upload(UploadState::Reading { sent }, evs);
            &&& r.0 == done_state(OutcomeCode::Success, (sent + data.len()) as u64)
            &&& write_chunks(r.1).len() == div_ceil(data.len() as int, chunk as int)
            &&& flatten_bytes(write_chunks(r.1)) == data
            &&& count_reads(r.1) == div_ceil(data.len() as int, chunk as int)
        }),
    decreases data.len(),
{
    let s0 = UploadState::Reading { sent };
    if data.len() == 0 {
        assert(evs =~= seq![UploadEvent::ReadEof] + seq![UploadEvent::Closed]);
        lemma_run_cons(s0, UploadEvent::ReadEof, seq![UploadEvent::Closed]);
        let s1 = UploadState::Closing { sent };
        assert(seq![UploadEvent::Closed] =~= seq![UploadEvent::Closed] + Seq::<
            UploadEvent,
        >::empty());
        lemma_run_cons(s1, UploadEvent::Closed, Seq::<UploadEvent>::empty());
        let r = run_upload(s0, evs);
        assert(r.0 == done_state(OutcomeCode::Success, sent));
        assert(r.1 =~= seq![UploadAction::CloseRemote] + (seq![UploadAction::Stop] + Seq::<
            UploadAction,
        >::empty()));
        lemma_write_chunks_cons(
            UploadAction::CloseRemote,
            seq![UploadAction::Stop] + Seq::<UploadAction>::empty(),
        );
        lemma_write_chunks_cons(UploadAction::Stop, Seq::<UploadAction>::empty());
        lemma_count_reads_cons(
            UploadAction::CloseRemote,
            seq![UploadAction::Stop] + Seq::<UploadAction>::empty(),
        );
        lemma_count_reads_cons(UploadAction::Stop, Seq::<UploadAction>::empty());
        assert(write_chunks(r.1) =~= Seq::<Seq<u8>>::empty());
        assert(flatten_bytes(write_chunks(r.1)) =~= data);
        assert(div_ceil(0, chunk as int) == 0) by {
            vstd::arithmetic::div_mod::lemma_basic_div(chunk as int - 1, chunk as int);
        }
    } else {
        let n: int = if data.len() < chunk {
            data.len() as int
        } else {
            chunk as int
        };
        let c = evs[0]->ReadOk_chunk;
        assert(c@ == data.take(n));
        assert(c@.len() == n);
        assert(evs[0] == (UploadEvent::ReadOk { chunk: c }));
        let tail = evs.skip(2);
        assert(evs =~= seq![evs[0]] + (seq![UploadEvent::WriteOk] + tail));
        lemma_run_cons(s0, evs[0], seq![UploadEvent::WriteOk] + tail);
        let s1 = UploadState::Writing { sent, pending: n as u64 };
        assert(step_spec(s0, evs[0]) == (s1, UploadAction::Write { chunk: c }));
        lemma_run_cons(s1, UploadEvent::WriteOk, tail);
        let s2 = UploadState::Reading { sent: (sent + n) as u64 };
        assert(step_spec(s1, UploadEvent::WriteOk) == (s2, UploadAction::Read));
        lemma_streaming_upload((sent + n) as u64, data.skip(n), chunk, tail);
        let rr = run_upload(s2, tail);
        let r = run_upload(s0, evs);
        assert(r.1 =~= seq![UploadAction::Write { chunk: c }] + (seq![UploadAction::Read] + rr.1));
        lemma_write_chunks_cons(
            UploadAction::Write { chunk: c },
            seq![UploadAction::Read] + rr.1,
        );
        lemma_write_chunks_cons(UploadAction::Read, rr.1);
        assert(write_chunks(r.1) =~= seq![c@] + write_chunks(rr.1));
        lemma_flatten_cons(c@, write_chunks(rr.1));
        assert(flatten_bytes(write_chunks(r.1)) =~= data.take(n) + data.skip(n));
        assert(data.take(n) + data.skip(n) =~= data);
        lemma_count_reads_cons(
            UploadAction::Write { chunk: c },
            seq![UploadAction::Read] + rr.1,
        );
        lemma_count_reads_cons(UploadAction::Read, rr.1);
        assert(div_ceil(data.len() as int, chunk as int) == 1 + div_ceil(
            data.len() - n,
            chunk as int,
        )) by {
            let d = chunk as int;
            vstd::arithmetic::div_mod::lemma_div_plus_one(data.len() - 1, d);
            if data.len() < chunk {
                vstd::arithmetic::div_mod::lemma_basic_div(data.len() - 1, d);
                vstd::arithmetic::div_mod::lemma_basic_div(d - 1, d);
            }
        }
    }
}

/// A finished attempt is final: later events leave the outcome alone
/// and request no further remote write.
pub proof fn lemma_done_is_final(o: TransferOutcome, evs: Seq<UploadEvent>)
    ensures
        ({
            let r = run_upload(UploadState::Done { outcome: o }, evs);
            &&& r.0 == UploadState::Done { outcome: o }
            &&& write_chunks(r.1) =~= Seq::<Seq<u8>>::empty()
        }),
    decreases evs.len(),
{
    if evs.len() != 0 {
        lemma_done_is_final(o, evs.skip(1));
        let r = run_upload(UploadState::Done { outcome: o }, evs);
        let rest = run_upload(UploadState::Done { outcome: o }, evs.skip(1));
        lemma_write_chunks_cons(UploadAction::Stop, rest.1);
        assert(r.1 =~= seq![UploadAction::Stop] + rest.1);
    }
}

/// Once an attempt has failed with the given outcome, whatever events
/// still arrive, the run ends in that outcome and requests no remote
/// write.
proof fn lemma_failure_absorbs(
    s: UploadState,
    e: UploadEvent,
    evs: Seq<UploadEvent>,
    o: TransferOutcome,
)
    requires
        step_spec(s, e) == (UploadState::Done { outcome: o }, UploadAction::Stop),
    ensures
        ({
            let r = run_upload(s, seq![e] + evs);
            &&& r.0 == UploadState::Done { outcome: o }
            &&& write_chunks(r.1) =~= Seq::<Seq<u8>>::empty()
        }),
{
    lemma_run_cons(s, e, evs);
    lemma_done_is_final(o, evs);
    let rest = run_upload(UploadState::Done { outcome: o }, evs);
    lemma_write_chunks_cons(UploadAction::Stop, rest.1);
}

/// Rejected credentials over a working connection end the attempt with
/// the authentication-rejected outcome and zero bytes transferred, and
/// the whole run, whatever events still arrive, requests no remote
/// write.
pub proof fn lemma_auth_rejected_no_write(evs: Seq<UploadEvent>)
    ensures
        ({
            let r = run_upload(
                UploadState::Connecting,
                seq![UploadEvent::ConnectOk, UploadEvent::HandshakeOk, UploadEvent::AuthDenied]
                    + evs,
            );
            &&& r.0 == done_state(OutcomeCode::AuthRejected, 0)
            &&& write_chunks(r.1) =~= Seq::<Seq<u8>>::empty()
        }),
{
    let o = TransferOutcome { code: OutcomeCode::AuthRejected, bytes_transferred: 0 };
    let tail1 = seq![UploadEvent::HandshakeOk, UploadEvent::AuthDenied] + evs;
    let tail2 = seq![UploadEvent::AuthDenied] + evs;
    assert(seq![UploadEvent::ConnectOk, UploadEvent::HandshakeOk, UploadEvent::AuthDenied] + evs
        =~= seq![UploadEvent::ConnectOk] + tail1);
    lemma_run_cons(UploadState::Connecting, UploadEvent::ConnectOk, tail1);
    assert(tail1 =~= seq![UploadEvent::HandshakeOk] + tail2);
    lemma_run_cons(UploadState::Handshaking, UploadEvent::HandshakeOk, tail2);
    lemma_failure_absorbs(UploadState::Authenticating, UploadEvent::AuthDenied, evs, o);
    let r2 = run_upload(UploadState::Authenticating, tail2);
    lemma_write_chunks_cons(UploadAction::Authenticate, r2.1);
    let r1 = run_upload(UploadState::Handshaking, tail1);
    lemma_write_chunks_cons(UploadAction::Handshake, r1.1);
}

/// A local file that cannot be opened ends the attempt with the
/// local-read outcome and zero bytes transferred, and the whole run,
/// whatever events still arrive, requests no remote write.
pub proof fn lemma_local_open_failed_no_write(evs: Seq<UploadEvent>)
    ensures
        ({
            let r = run_upload(
                UploadState::Connecting,
                seq![
                    UploadEvent::ConnectOk,
                    UploadEvent::HandshakeOk,
                    UploadEvent::AuthOk,
                    UploadEvent::SftpOk,
                    UploadEvent::LocalOpenErr,
                ] + evs,
            );
            &&& r.0 == done_state(OutcomeCode::LocalReadFailed, 0)
            &&& write_chunks(r.1) =~= Seq::<Seq<u8>>::empty()
        }),
{
    let o = TransferOutcome { code: OutcomeCode::LocalReadFailed, bytes_transferred: 0 };
    let tail1 = seq![
        UploadEvent::HandshakeOk,
        UploadEvent::AuthOk,
        UploadEvent::SftpOk,
        UploadEvent::LocalOpenErr,
    ] + evs;
    let tail2 = seq![UploadEvent::AuthOk, UploadEvent::SftpOk, UploadEvent::LocalOpenErr] + evs;
    let tail3 = seq![UploadEvent::SftpOk, UploadEvent::LocalOpenErr] + evs;
    let tail4 = seq![UploadEvent::LocalOpenErr] + evs;
    assert(seq![
        UploadEvent::ConnectOk,
        UploadEvent::HandshakeOk,
        UploadEvent::AuthOk,
        UploadEvent::SftpOk,
        UploadEvent::LocalOpenErr,
    ] + evs =~= seq![UploadEvent::ConnectOk] + tail1);
    lemma_run_cons(UploadState::Connecting, UploadEvent::ConnectOk, tail1);
    assert(tail1 =~= seq![UploadEvent::HandshakeOk] + tail2);
    lemma_run_cons(UploadState::Handshaking, UploadEvent::HandshakeOk, tail2);
    assert(tail2 =~= seq![UploadEvent::AuthOk] + tail3);
    lemma_run_cons(UploadState::Authenticating, UploadEvent::AuthOk, tail3);
    assert(tail3 =~= seq![UploadEvent::SftpOk] + tail4);
    lemma_run_cons(UploadState::OpeningSftp, UploadEvent::SftpOk, tail4);
    lemma_failure_absorbs(UploadState::OpeningLocal, UploadEvent::LocalOpenErr, evs, o);
    let r4 = run_upload(UploadState::OpeningLocal, tail4);
    lemma_write_chunks_cons(UploadAction::OpenLocal, r4.1);
    let r3 = run_upload(UploadState::OpeningSftp, tail3);
    lemma_write_chunks_cons(UploadAction::OpenSftp, r3.1);
    let r2 = run_upload(UploadState::Authenticating, tail2);
    lemma_write_chunks_cons(UploadAction::Authenticate, r2.1);
    let r1 = run_upload(UploadState::Handshaking, tail1);
    lemma_write_chunks_cons(UploadAction::Handshake, r1.1);
}

/// In any run whose events answer the requested actions, the chunks
/// handed to remote writes are exactly the chunks the local reads
/// produced, in order: the machine never asks to write anything but
/// what was read, so the written stream is always a prefix of the local
/// file's bytes.
pub proof fn lemma_writes_equal_reads(s: UploadState, evs: Seq<UploadEvent>)
    requires
        events_fit_from(s, evs),
    ensures
        write_chunks(run_upload(s, evs).1) == read_chunks(evs),
    decreases evs.len(),
{
    if evs.len() == 0 {
        assert(write_chunks(run_upload(s, evs).1) =~= read_chunks(evs));
    } else {
        let e = evs[0];
        let first = step_spec(s, e);
        assert(evs =~= seq![e] + evs.skip(1));
        lemma_run_cons(s, e, evs.skip(1));
        lemma_writes_equal_reads(first.0, evs.skip(1));
        let rest = run_upload(first.0, evs.skip(1));
        lemma_write_chunks_cons(first.1, rest.1);
        lemma_read_chunks_cons(e, evs.skip(1));
        match e {
            UploadEvent::ReadOk { chunk } => {
                assert(s is Reading);
                assert(first.1 == (UploadAction::Write { chunk }));
            },
            _ => {
                assert(!(first.1 is Write));
            },
        }
    }
}

/// A successful outcome arises only by the close that follows end of
/// file: no other state and event step to it.
pub proof fn lemma_success_needs_eof(s: UploadState, e: UploadEvent)
    ensures
        !(s is Done) && step_spec(s, e).0 is Done && step_spec(s, e).0->Done_outcome.code
            == OutcomeCode::Success ==> s is Closing && e is Closed,
{
}

} // verus!
