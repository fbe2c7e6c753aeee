//! Files on their way out.
//!
//! A file goes to all its targets at once, chunk by chunk. A connection that
//! fails is left behind; the others go on. Reading, dialling and writing are
//! done elsewhere; this module says what to send and what to show.

use crate::chat::{
    file_message, freshly_stamped, make_file_message, record_chat_message, with_message,
};
use crate::codec::{base64_decoding, base64_encode, base64_encoding, law_base64_round_trip};
use crate::envelope::{secret_of, shared_secret_of};
use crate::files::{
    announced_file_name, is_name_at, is_plain_path, lemma_name_in_plain_path, staged_file_path,
    staged_name,
};
use crate::ids::{is_uuid_text, new_uuid};
use crate::incoming::{
    chunk_texts, law_file_arrives_whole, within_limits, written_bytes, IncomingView,
};
use crate::model::{
    views, AppResult, ChatMessage, PeerDevice, PeerView, PersistedState, StateView,
    TransferProgress, TransferView, WireMessage, WireView, FILE_CHUNK_SIZE, MAX_INCOMING_FILE_SIZE,
};
use crate::peers::{
    get_peer, is_first_of, is_paired, is_unknown, lemma_first_of, lemma_known_or_unknown,
    lemma_peer_index, lemma_unknown, not_paired_text, paired, paired_check, peer_with_id,
};
use crate::text::{
    clone_opt, is_blank, is_white_space, law_trimmed_empty_iff_blank, opt_text, trim,
};
use crate::transfers::{
    file_row, file_row_view, law_history_is_capped, peer_row, record_transfer, row_id,
    with_transfers,
};
use crate::wire::{address_check, check_address};
use vstd::prelude::*;

verus! {

/// A peer that a file goes to, and the secret shared with it.
#[derive(Debug)]
pub struct Target {
    pub peer: PeerDevice,
    pub secret: String,
}

/// View of a [`Target`].
#[verifier::ext_equal]
pub struct TargetView {
    pub peer: PeerView,
    pub secret: Seq<char>,
}

impl View for Target {
    type V = TargetView;

    open spec fn view(&self) -> TargetView {
        TargetView { peer: self.peer@, secret: self.secret@ }
    }
}

/// The target of the given id: known, paired, with an address and a secret.
pub open spec fn file_target(peers: Seq<PeerView>, id: Seq<char>) -> Result<TargetView, Seq<char>> {
    match peer_with_id(peers, id) {
        Err(complaint) => Err(complaint),
        Ok(peer) => if !is_paired(peer) {
            Err(peer.name + " is not paired."@)
        } else {
            match address_check(peer) {
                Err(complaint) => Err(complaint),
                Ok(_) => match secret_of(peer) {
                    Err(complaint) => Err(complaint),
                    Ok(secret) => Ok(TargetView { peer, secret }),
                },
            }
        },
    }
}

/// The targets of the given ids, in order; the first id that is none is the one
/// complained of.
pub open spec fn file_targets(peers: Seq<PeerView>, ids: Seq<Seq<char>>) -> Result<
    Seq<TargetView>,
    Seq<char>,
>
    decreases ids.len(),
{
    if ids.len() == 0 {
        Ok(Seq::empty())
    } else {
        match file_targets(peers, ids.drop_last()) {
            Ok(found) => match file_target(peers, ids.last()) {
                Ok(target) => Ok(found.push(target)),
                Err(complaint) => Err(complaint),
            },
            Err(complaint) => Err(complaint),
        }
    }
}

proof fn lemma_file_targets_error_stays(peers: Seq<PeerView>, ids: Seq<Seq<char>>, n: int)
    requires
        0 <= n <= ids.len(),
        file_targets(peers, ids.take(n)) is Err,
    ensures
        file_targets(peers, ids) == file_targets(peers, ids.take(n)),
    decreases ids.len() - n,
{
    if n < ids.len() {
        assert(ids.take(n + 1).drop_last() =~= ids.take(n));
        lemma_file_targets_error_stays(peers, ids, n + 1);
    } else {
        assert(ids.take(n) =~= ids);
    }
}

fn resolve_target(state: &PersistedState, peer_id: &str) -> (r: AppResult<Target>)
    ensures
        match file_target(state@.peers, peer_id@) {
            Ok(target) => r is Ok && r->Ok_0@ == target,
            Err(complaint) => r is Err && r->Err_0@ == complaint,
        },
{
    let peer = get_peer(state, peer_id)?;
    if !paired(&peer) {
        return Err(not_paired_text(peer.name.as_str()));
    }
    check_address(&peer)?;
    let secret = shared_secret_of(&peer)?;
    Ok(Target { peer, secret })
}

/// The targets of the given ids, all of which must be reachable and trusted.
pub fn resolve_targets(state: &PersistedState, peer_ids: &[String]) -> (r: AppResult<Vec<Target>>)
    ensures
        match file_targets(state@.peers, views(peer_ids@)) {
            Ok(targets) => r is Ok && views(r->Ok_0@) == targets,
            Err(complaint) => r is Err && r->Err_0@ == complaint,
        },
{
    let ghost ids = views(peer_ids@);
    let mut targets: Vec<Target> = Vec::new();
    let mut i: usize = 0;
    proof {
        assert(ids.take(0) =~= Seq::empty());
        assert(views(targets@) =~= Seq::empty());
    }
    while i < peer_ids.len()
        invariant
            i <= peer_ids@.len(),
            ids == views(peer_ids@),
            file_targets(state@.peers, ids.take(i as int)) == Ok::<Seq<TargetView>, Seq<char>>(
                views(targets@),
            ),
        decreases peer_ids@.len() - i,
    {
        proof {
            assert(ids.take(i + 1).drop_last() =~= ids.take(i as int));
            assert(ids.take(i + 1).last() == peer_ids@[i as int]@);
        }
        match resolve_target(state, peer_ids[i].as_str()) {
            Ok(target) => {
                let ghost before = views(targets@);
                let ghost added = target@;
                targets.push(target);
                proof {
                    assert(views(targets@) =~= before.push(added));
                }
            },
            Err(complaint) => {
                proof {
                    lemma_file_targets_error_stays(state@.peers, ids, i + 1);
                }
                return Err(complaint);
            },
        }
        i = i + 1;
    }
    proof {
        assert(ids.take(i as int) =~= ids);
    }
    Ok(targets)
}

/// Files that are ready to go out.
#[derive(Debug)]
pub struct SendJob {
    /// This device's id.
    pub local_id: String,
    pub targets: Vec<Target>,
}

/// Prepares the sending of files from disk. With no file there is nothing to do;
/// with no target, or one that cannot be sent to, the whole job is refused.
pub fn send_files(state: &PersistedState, peer_ids: &[String], paths: &[String]) -> (r: AppResult<
    Option<SendJob>,
>)
    ensures
        if peer_ids@.len() == 0 {
            r is Err && r->Err_0@ == "No target devices."@
        } else if paths@.len() == 0 {
            r is Ok && r->Ok_0 is None
        } else {
            match file_targets(state@.peers, views(peer_ids@)) {
                Ok(targets) => {
                    &&& r is Ok && r->Ok_0 is Some
                    &&& r->Ok_0->Some_0.local_id@ == state@.setup.device_id
                    &&& views(r->Ok_0->Some_0.targets@) == targets
                },
                Err(complaint) => r is Err && r->Err_0@ == complaint,
            }
        },
{
    if peer_ids.len() == 0 {
        return Err("No target devices.".to_string());
    }
    if paths.len() == 0 {
        return Ok(None);
    }
    let targets = resolve_targets(state, peer_ids)?;
    Ok(Some(SendJob { local_id: state.setup.device_id.clone(), targets }))
}

/// A staged file that is ready to go out.
#[derive(Debug)]
pub struct StagedJob {
    pub job: SendJob,
    /// The name to announce.
    pub name: String,
}

/// Prepares the sending of a staged file, which is `present` or not under the name
/// that its session gives it.
pub fn send_staged_file(
    state: &PersistedState,
    peer_ids: &[String],
    session_id: &str,
    present: bool,
    file_name: &str,
) -> (r: AppResult<StagedJob>)
    ensures
        if peer_ids@.len() == 0 {
            r is Err && r->Err_0@ == "No target devices."@
        } else if staged_name(session_id@) is Err {
            r is Err && r->Err_0@ == staged_name(session_id@)->Err_0
        } else if !present {
            r is Err && r->Err_0@ == "Nothing was staged to send."@
        } else {
            match file_targets(state@.peers, views(peer_ids@)) {
                Ok(targets) => {
                    &&& r is Ok
                    &&& r->Ok_0.job.local_id@ == state@.setup.device_id
                    &&& views(r->Ok_0.job.targets@) == targets
                    &&& r->Ok_0.name@ == if is_blank(file_name@) {
                        "file"@
                    } else {
                        file_name@
                    }
                },
                Err(complaint) => r is Err && r->Err_0@ == complaint,
            }
        },
{
    if peer_ids.len() == 0 {
        return Err("No target devices.".to_string());
    }
    staged_file_path(session_id)?;
    if !present {
        return Err("Nothing was staged to send.".to_string());
    }
    let targets = resolve_targets(state, peer_ids)?;
    proof {
        law_trimmed_empty_iff_blank(file_name@);
    }
    let name = if trim(file_name).is_empty() {
        "file".to_string()
    } else {
        file_name.to_string()
    };
    Ok(StagedJob { job: SendJob { local_id: state.setup.device_id.clone(), targets }, name })
}

/// Where a staged file is read from, and what its message points at.
#[derive(Debug)]
pub struct StagedSource {
    pub send_path: String,
    pub record_path: Option<String>,
}

/// Sends the durable copy of a staged file where there is one, and lets the
/// message point at it; a file that stays transient leaves no path behind.
pub fn staged_source(staged: String, copy: Option<String>) -> (r: StagedSource)
    ensures
        r.send_path@ == match opt_text(copy) {
            Some(path) => path,
            None => staged@,
        },
        opt_text(r.record_path) == opt_text(copy),
{
    match copy {
        Some(path) => StagedSource { send_path: path.clone(), record_path: Some(path) },
        None => StagedSource { send_path: staged, record_path: None },
    }
}

/// The connection to one target of a file.
#[derive(Debug)]
pub struct PeerConn {
    pub peer_id: String,
    pub peer_name: String,
    pub secret: String,
    pub failed: bool,
}

/// View of a [`PeerConn`].
#[verifier::ext_equal]
pub struct ConnView {
    pub peer_id: Seq<char>,
    pub peer_name: Seq<char>,
    pub secret: Seq<char>,
    pub failed: bool,
}

impl View for PeerConn {
    type V = ConnView;

    open spec fn view(&self) -> ConnView {
        ConnView {
            peer_id: self.peer_id@,
            peer_name: self.peer_name@,
            secret: self.secret@,
            failed: self.failed,
        }
    }
}

/// How the reading of a file stands.
#[derive(Debug, Clone, Copy, PartialEq, Eq, Structural)]
pub enum Stream {
    Running,
    Finished,
    Cancelled,
    ReadFailed,
}

/// One file on its way out.
#[derive(Debug)]
pub struct FileSend {
    pub transfer_id: String,
    /// This device's id.
    pub local_id: String,
    pub file_name: String,
    /// The size announced.
    pub total: u64,
    /// The bytes read so far.
    pub sent: u64,
    pub conns: Vec<PeerConn>,
    pub stream: Stream,
}

/// View of a [`FileSend`].
#[verifier::ext_equal]
pub struct FileSendView {
    pub transfer_id: Seq<char>,
    pub local_id: Seq<char>,
    pub file_name: Seq<char>,
    pub total: u64,
    pub sent: u64,
    pub conns: Seq<ConnView>,
    pub stream: Stream,
}

impl View for FileSend {
    type V = FileSendView;

    open spec fn view(&self) -> FileSendView {
        FileSendView {
            transfer_id: self.transfer_id@,
            local_id: self.local_id@,
            file_name: self.file_name@,
            total: self.total,
            sent: self.sent,
            conns: views(self.conns@),
            stream: self.stream,
        }
    }
}

/// What came of trying to read on.
#[derive(Debug)]
pub enum StreamEvent {
    /// The user gave the transfer up.
    Cancelled,
    ReadFailed,
    /// The file was read to its end.
    End,
    Data(Vec<u8>),
}

/// View of a [`StreamEvent`].
#[verifier::ext_equal]
pub enum EventView {
    Cancelled,
    ReadFailed,
    End,
    Data(Seq<u8>),
}

impl View for StreamEvent {
    type V = EventView;

    open spec fn view(&self) -> EventView {
        match self {
            StreamEvent::Cancelled => EventView::Cancelled,
            StreamEvent::ReadFailed => EventView::ReadFailed,
            StreamEvent::End => EventView::End,
            StreamEvent::Data(bytes) => EventView::Data(bytes@),
        }
    }
}

/// The send after the next event. One that has ended stays as it ended.
pub open spec fn stepped(send: FileSendView, event: EventView) -> FileSendView {
    if send.stream != Stream::Running {
        send
    } else {
        match event {
            EventView::Cancelled => FileSendView { stream: Stream::Cancelled, ..send },
            EventView::ReadFailed => FileSendView { stream: Stream::ReadFailed, ..send },
            EventView::End => FileSendView { stream: Stream::Finished, ..send },
            EventView::Data(bytes) => FileSendView {
                sent: (send.sent + bytes.len()) as u64,
                ..send
            },
        }
    }
}

/// The message that carries a chunk of the file.
pub open spec fn chunk_of(send: FileSendView, bytes: Seq<u8>) -> WireView {
    WireView::FileChunk {
        peer_id: send.local_id,
        transfer_id: send.transfer_id,
        data: base64_encoding(bytes),
    }
}

/// The message that follows the last chunk: the end marker of a file read to its
/// end, the word to discard a file given up, and nothing where reading failed.
pub open spec fn closing_of(send: FileSendView) -> Option<WireView> {
    match send.stream {
        Stream::Finished => Some(
            WireView::FileEnd { peer_id: send.local_id, transfer_id: send.transfer_id },
        ),
        Stream::Cancelled => Some(
            WireView::FileCancel { peer_id: send.local_id, transfer_id: send.transfer_id },
        ),
        _ => None,
    }
}

/// A row of the send.
pub open spec fn send_row(
    send: FileSendView,
    peer_id: Seq<char>,
    peer_name: Seq<char>,
    progress: u8,
    state: Seq<char>,
    error: Option<Seq<char>>,
) -> TransferView {
    file_row_view(
        row_id(send.transfer_id, peer_id),
        peer_id,
        peer_name,
        send.file_name,
        progress,
        state,
        error,
    )
}

/// The rows that show the connections still going.
pub open spec fn sending_rows_of(send: FileSendView, conns: Seq<ConnView>, progress: u8) -> Seq<
    TransferView,
>
    decreases conns.len(),
{
    if conns.len() == 0 {
        Seq::empty()
    } else {
        let earlier = sending_rows_of(send, conns.drop_last(), progress);
        let conn = conns.last();
        if conn.failed {
            earlier
        } else {
            earlier.push(
                send_row(send, conn.peer_id, conn.peer_name, progress, "sending"@, None),
            )
        }
    }
}

/// Whether `live` lists, in order, exactly the places of the connections that have
/// not failed.
pub open spec fn is_live_list(conns: Seq<ConnView>, live: Seq<usize>) -> bool {
    &&& forall|j: int|
        0 <= j < live.len() ==> #[trigger] live[j] < conns.len() && !conns[live[j] as int].failed
    &&& forall|j: int, k: int| 0 <= j < k < live.len() ==> #[trigger] live[j] < #[trigger] live[k]
    &&& forall|k: int|
        0 <= k < conns.len() && !(#[trigger] conns[k]).failed ==> exists|j: int|
            0 <= j < live.len() && #[trigger] live[j] == k
}

/// Whether the file went out whole over a connection.
pub open spec fn went_out(send: FileSendView, conn: ConnView) -> bool {
    send.stream == Stream::Finished && !conn.failed
}

/// The last row of a connection.
pub open spec fn terminal_row(send: FileSendView, conn: ConnView) -> TransferView {
    let state = match send.stream {
        Stream::Cancelled => "cancelled"@,
        Stream::ReadFailed => "failed"@,
        _ => if conn.failed {
            "failed"@
        } else {
            "complete"@
        },
    };
    let error = if send.stream == Stream::ReadFailed {
        Some("Could not read the file."@)
    } else {
        None
    };
    send_row(send, conn.peer_id, conn.peer_name, 100, state, error)
}

/// What was recorded of one connection.
#[derive(Debug)]
pub struct Concluded {
    pub row: TransferProgress,
    pub message: Option<ChatMessage>,
}

impl FileSend {
    /// A file that is about to be opened, announced under `display_name` or, where
    /// there is none, under the name it has on disk.
    pub fn new(local_id: &str, path: &str, display_name: Option<String>) -> (r: Self)
        ensures
            is_uuid_text(r@.transfer_id),
            r@.local_id == local_id@,
            match opt_text(display_name) {
                Some(name) => r@.file_name == name,
                None => is_name_at(path@, r@.file_name),
            },
            r@.total == 0,
            r@.sent == 0,
            r@.conns.len() == 0,
            r@.stream == Stream::Running,
    {
        let file_name = match display_name {
            Some(name) => name,
            None => announced_file_name(path),
        };
        FileSend {
            transfer_id: new_uuid(),
            local_id: local_id.to_string(),
            file_name,
            total: 0,
            sent: 0,
            conns: Vec::new(),
            stream: Stream::Running,
        }
    }

    /// The row of a target that could not be reached, or for which the file could
    /// not even be opened.
    pub fn unreached_row(&self, target: &Target, error: String) -> (r: TransferProgress)
        ensures
            r@ == send_row(
                self@,
                target@.peer.id,
                target@.peer.name,
                0,
                "failed"@,
                Some(error@),
            ),
    {
        file_row(
            self.transfer_id.as_str(),
            &target.peer,
            self.file_name.as_str(),
            0,
            "failed",
            Some(error),
        )
    }

    /// Takes the size of the file, once it is open.
    pub fn opened(&mut self, total: u64)
        ensures
            final(self)@ == (FileSendView { total, ..old(self)@ }),
    {
        self.total = total;
    }

    /// The message that announces the file.
    pub fn start_message(&self) -> (r: WireMessage)
        ensures
            r@ == (WireView::FileStart {
                peer_id: self@.local_id,
                transfer_id: self@.transfer_id,
                file_name: self@.file_name,
                total_size: self@.total,
            }),
    {
        WireMessage::FileStart {
            peer_id: self.local_id.clone(),
            transfer_id: self.transfer_id.clone(),
            file_name: self.file_name.clone(),
            total_size: self.total,
        }
    }

    /// Enters the connection to a target that was reached, and gives its first
    /// row. Where the announcement could not be written, the connection has
    /// failed already.
    pub fn dialed(&mut self, target: &Target, started: AppResult<()>) -> (r: TransferProgress)
        ensures
            final(self)@ == (FileSendView {
                conns: old(self)@.conns.push(
                    ConnView {
                        peer_id: target@.peer.id,
                        peer_name: target@.peer.name,
                        secret: target@.secret,
                        failed: started is Err,
                    },
                ),
                ..old(self)@
            }),
            r@ == match started {
                Ok(_) => send_row(
                    old(self)@,
                    target@.peer.id,
                    target@.peer.name,
                    0,
                    "sending"@,
                    None,
                ),
                Err(error) => send_row(
                    old(self)@,
                    target@.peer.id,
                    target@.peer.name,
                    0,
                    "failed"@,
                    Some(error@),
                ),
            },
    {
        let ghost before = self@.conns;
        let failed: bool = started.is_err();
        let row = match started {
            Ok(_) => file_row(
                self.transfer_id.as_str(),
                &target.peer,
                self.file_name.as_str(),
                0,
                "sending",
                None,
            ),
            Err(error) => self.unreached_row(target, error),
        };
        let conn = PeerConn {
            peer_id: target.peer.id.clone(),
            peer_name: target.peer.name.clone(),
            secret: target.secret.clone(),
            failed,
        };
        let ghost added = conn@;
        self.conns.push(conn);
        proof {
            assert(views(self.conns@) =~= before.push(added));
        }
        row
    }

    /// Takes the next event of a stream that has not ended. Data, of which at most
    /// one chunk is read at a time, is to be sent, as the message given, over every
    /// connection that has not failed; any other event ends the stream.
    pub fn next(&mut self, event: StreamEvent) -> (r: Option<WireMessage>)
        requires
            old(self)@.stream == Stream::Running,
            event@ matches EventView::Data(bytes) ==> 0 < bytes.len() <= FILE_CHUNK_SIZE,
            event@ matches EventView::Data(bytes) ==> old(self)@.sent + bytes.len() <= u64::MAX,
        ensures
            final(self)@ == stepped(old(self)@, event@),
            match event@ {
                EventView::Data(bytes) => r is Some && r->Some_0@ == chunk_of(old(self)@, bytes),
                _ => r is None,
            },
    {
        match event {
            StreamEvent::Cancelled => {
                self.stream = Stream::Cancelled;
                None
            },
            StreamEvent::ReadFailed => {
                self.stream = Stream::ReadFailed;
                None
            },
            StreamEvent::End => {
                self.stream = Stream::Finished;
                None
            },
            StreamEvent::Data(bytes) => {
                self.sent = self.sent + bytes.len() as u64;
                Some(
                    WireMessage::FileChunk {
                        peer_id: self.local_id.clone(),
                        transfer_id: self.transfer_id.clone(),
                        data: base64_encode(bytes.as_slice()),
                    },
                )
            },
        }
    }

    /// Leaves behind a connection over which a chunk could not be written, and
    /// gives the row that shows it.
    pub fn write_failed(&mut self, k: usize, progress: u8, error: String) -> (r: TransferProgress)
        requires
            k < old(self)@.conns.len(),
        ensures
            final(self)@ == (FileSendView {
                conns: old(self)@.conns.update(
                    k as int,
                    ConnView { failed: true, ..old(self)@.conns[k as int] },
                ),
                ..old(self)@
            }),
            r@ == send_row(
                old(self)@,
                old(self)@.conns[k as int].peer_id,
                old(self)@.conns[k as int].peer_name,
                progress,
                "failed"@,
                Some(error@),
            ),
    {
        let ghost before = self@.conns;
        let row = peer_row(
            self.transfer_id.as_str(),
            self.conns[k].peer_id.as_str(),
            self.conns[k].peer_name.as_str(),
            self.file_name.as_str(),
            progress,
            "failed",
            Some(error),
        );
        let conn = PeerConn {
            peer_id: self.conns[k].peer_id.clone(),
            peer_name: self.conns[k].peer_name.clone(),
            secret: self.conns[k].secret.clone(),
            failed: true,
        };
        let ghost changed = conn@;
        self.conns.set(k, conn);
        proof {
            assert(views(self.conns@) =~= before.update(k as int, changed));
        }
        row
    }

    /// The places of the connections that have not failed, in order: those that the
    /// next message goes over.
    pub fn live(&self) -> (r: Vec<usize>)
        ensures
            is_live_list(self@.conns, r@),
    {
        let ghost all = self@.conns;
        let mut live: Vec<usize> = Vec::new();
        let mut i: usize = 0;
        while i < self.conns.len()
            invariant
                i <= self.conns@.len(),
                all == self@.conns,
                forall|j: int| 0 <= j < live@.len() ==> #[trigger] live@[j] < i,
                is_live_list(all.take(i as int), live@),
            decreases self.conns@.len() - i,
        {
            let ghost before = live@;
            if !self.conns[i].failed {
                live.push(i);
            }
            proof {
                let seen = all.take(i + 1);
                assert forall|k: int|
                    0 <= k < seen.len() && !(#[trigger] seen[k]).failed implies exists|j: int|
                    0 <= j < live@.len() && #[trigger] live@[j] == k by {
                    if k < i {
                        assert(all.take(i as int)[k] == seen[k]);
                        let j = choose|j: int| 0 <= j < before.len() && #[trigger] before[j] == k;
                        assert(live@[j] == k);
                    } else {
                        assert(live@[live@.len() - 1] == k);
                    }
                }
                assert forall|j: int| 0 <= j < live@.len() implies #[trigger] live@[j] < seen.len()
                    && !seen[live@[j] as int].failed by {
                    if j < before.len() {
                        assert(live@[j] == before[j]);
                        assert(all.take(i as int)[before[j] as int] == seen[before[j] as int]);
                    }
                }
            }
            i = i + 1;
        }
        proof {
            assert(all.take(i as int) =~= all);
        }
        live
    }

    /// The rows that show the connections still going.
    pub fn sending_rows(&self, progress: u8) -> (r: Vec<TransferProgress>)
        ensures
            views(r@) == sending_rows_of(self@, self@.conns, progress),
    {
        let ghost all = self@.conns;
        let mut rows: Vec<TransferProgress> = Vec::new();
        let mut i: usize = 0;
        proof {
            assert(views(rows@) =~= sending_rows_of(self@, all.take(0), progress));
        }
        while i < self.conns.len()
            invariant
                i <= self.conns@.len(),
                all == self@.conns,
                views(rows@) == sending_rows_of(self@, all.take(i as int), progress),
            decreases self.conns@.len() - i,
        {
            proof {
                assert(all.take(i + 1).drop_last() =~= all.take(i as int));
            }
            let ghost before = views(rows@);
            if !self.conns[i].failed {
                let row = peer_row(
                    self.transfer_id.as_str(),
                    self.conns[i].peer_id.as_str(),
                    self.conns[i].peer_name.as_str(),
                    self.file_name.as_str(),
                    progress,
                    "sending",
                    None,
                );
                let ghost added = row@;
                rows.push(row);
                proof {
                    assert(views(rows@) =~= before.push(added));
                }
            }
            i = i + 1;
        }
        proof {
            assert(all.take(i as int) =~= all);
        }
        rows
    }

    /// The message that goes, after the last chunk, over every connection that
    /// has not failed.
    pub fn closing_message(&self) -> (r: Option<WireMessage>)
        ensures
            match closing_of(self@) {
                Some(message) => r is Some && r->Some_0@ == message,
                None => r is None,
            },
    {
        match self.stream {
            Stream::Finished => Some(
                WireMessage::FileEnd {
                    peer_id: self.local_id.clone(),
                    transfer_id: self.transfer_id.clone(),
                },
            ),
            Stream::Cancelled => Some(
                WireMessage::FileCancel {
                    peer_id: self.local_id.clone(),
                    transfer_id: self.transfer_id.clone(),
                },
            ),
            _ => None,
        }
    }

    /// The last row of the `k`th connection.
    pub fn last_row(&self, k: usize) -> (r: TransferProgress)
        requires
            k < self@.conns.len(),
            self@.stream != Stream::Running,
        ensures
            r@ == terminal_row(self@, self@.conns[k as int]),
    {
        let conn = &self.conns[k];
        let state_str = match self.stream {
            Stream::Cancelled => "cancelled",
            Stream::ReadFailed => "failed",
            _ => if conn.failed {
                "failed"
            } else {
                "complete"
            },
        };
        let error = match self.stream {
            Stream::ReadFailed => Some("Could not read the file.".to_string()),
            _ => None,
        };
        peer_row(
            self.transfer_id.as_str(),
            conn.peer_id.as_str(),
            conn.peer_name.as_str(),
            self.file_name.as_str(),
            100,
            state_str,
            error,
        )
    }

    /// Records how the send ended for the `k`th connection: its last row, and a
    /// message about the file where it went out whole.
    pub fn conclude(&self, k: usize, state: &mut PersistedState, record_path: &Option<String>) -> (r:
        Concluded)
        requires
            k < self@.conns.len(),
            self@.stream != Stream::Running,
        ensures
            r.row@ == terminal_row(self@, self@.conns[k as int]),
            ({
                let rowed = with_transfers(old(state)@, seq![r.row@]);
                if went_out(self@, self@.conns[k as int]) {
                    &&& r.message is Some
                    &&& freshly_stamped(r.message->Some_0@)
                    &&& r.message->Some_0@ == file_message(
                        r.message->Some_0@.id,
                        self@.conns[k as int].peer_id,
                        "sent"@,
                        self@.file_name,
                        self@.total,
                        opt_text(*record_path),
                        r.message->Some_0@.created_at,
                    )
                    &&& final(state)@ == with_message(rowed, r.message->Some_0@)
                } else {
                    r.message is None && final(state)@ == rowed
                }
            }),
    {
        let conn = &self.conns[k];
        let row = self.last_row(k);
        let copy = row.clone();
        record_transfer(state, row);
        let whole: bool = match self.stream {
            Stream::Finished => !conn.failed,
            _ => false,
        };
        if whole {
            let message = make_file_message(
                conn.peer_id.clone(),
                "sent",
                self.file_name.as_str(),
                self.total,
                clone_opt(record_path),
            );
            let message_copy = message.clone();
            record_chat_message(state, message);
            Concluded { row: copy, message: Some(message_copy) }
        } else {
            Concluded { row: copy, message: None }
        }
    }
}

/// The send after a run of events.
pub open spec fn after_events(send: FileSendView, events: Seq<EventView>) -> FileSendView
    decreases events.len(),
{
    if events.len() == 0 {
        send
    } else {
        stepped(after_events(send, events.drop_last()), events.last())
    }
}

/// The events of reading a file, given as the chunks it was read in, to its end.
pub open spec fn reading_of(chunks: Seq<Seq<u8>>) -> Seq<EventView> {
    chunks.map_values(|chunk: Seq<u8>| EventView::Data(chunk)).push(EventView::End)
}

/// A chunk goes out as a text from which exactly the bytes read are decoded: at
/// least one, and no more than a chunk holds.
pub proof fn law_chunk_carries_what_was_read(send: FileSendView, bytes: Seq<u8>)
    requires
        0 < bytes.len() <= FILE_CHUNK_SIZE,
    ensures
        base64_decoding(chunk_of(send, bytes)->data) == Ok::<Seq<u8>, Seq<char>>(bytes),
        0 < base64_decoding(chunk_of(send, bytes)->data)->Ok_0.len() <= FILE_CHUNK_SIZE,
{
    law_base64_round_trip(bytes);
}

/// A send that has ended stays as it ended, whatever events follow.
pub proof fn law_ended_send_stays_ended(send: FileSendView, events: Seq<EventView>)
    requires
        send.stream != Stream::Running,
    ensures
        after_events(send, events) == send,
    decreases events.len(),
{
    if events.len() > 0 {
        law_ended_send_stays_ended(send, events.drop_last());
    }
}

proof fn lemma_events_split(send: FileSendView, first: Seq<EventView>, rest: Seq<EventView>)
    ensures
        after_events(send, first + rest) == after_events(after_events(send, first), rest),
    decreases rest.len(),
{
    if rest.len() == 0 {
        assert(first + rest =~= first);
    } else {
        assert((first + rest).drop_last() =~= first + rest.drop_last());
        lemma_events_split(send, first, rest.drop_last());
    }
}

proof fn lemma_events_keep_names(send: FileSendView, events: Seq<EventView>)
    ensures
        after_events(send, events).local_id == send.local_id,
        after_events(send, events).transfer_id == send.transfer_id,
    decreases events.len(),
{
    if events.len() > 0 {
        lemma_events_keep_names(send, events.drop_last());
    }
}

/// A cancel is final: a send given up before it ended counts no more bytes, closes
/// with the word to discard the file and goes out whole over no connection,
/// whatever events follow.
pub proof fn law_cancel_is_final(
    send: FileSendView,
    earlier: Seq<EventView>,
    later: Seq<EventView>,
    conn: ConnView,
)
    requires
        after_events(send, earlier).stream == Stream::Running,
    ensures
        ({
            let end = after_events(send, earlier.push(EventView::Cancelled) + later);
            &&& end == (FileSendView {
                stream: Stream::Cancelled,
                ..after_events(send, earlier)
            })
            &&& closing_of(end) == Some(
                WireView::FileCancel { peer_id: send.local_id, transfer_id: send.transfer_id },
            )
            &&& !went_out(end, conn)
        }),
{
    let cancelled = earlier.push(EventView::Cancelled);
    assert(cancelled.drop_last() =~= earlier);
    lemma_events_split(send, cancelled, later);
    law_ended_send_stays_ended(after_events(send, cancelled), later);
    lemma_events_keep_names(send, earlier);
}

proof fn lemma_data_events_count(send: FileSendView, chunks: Seq<Seq<u8>>)
    requires
        send.stream == Stream::Running,
        send.sent + chunks.flatten().len() <= u64::MAX,
    ensures
        after_events(send, chunks.map_values(|chunk: Seq<u8>| EventView::Data(chunk))) == (
        FileSendView { sent: (send.sent + chunks.flatten().len()) as u64, ..send }),
    decreases chunks.len(),
{
    let data = chunks.map_values(|chunk: Seq<u8>| EventView::Data(chunk));
    if chunks.len() > 0 {
        let head = chunks.drop_last();
        assert(data.drop_last() =~= head.map_values(|chunk: Seq<u8>| EventView::Data(chunk)));
        chunks.lemma_flatten_and_flatten_alt_are_equivalent();
        head.lemma_flatten_and_flatten_alt_are_equivalent();
        assert(chunks.flatten_alt() == head.flatten_alt() + chunks.last());
        lemma_data_events_count(send, head);
    }
}

/// A file read to its end has been sent whole: as many bytes were counted as its
/// chunks hold, nothing else about the send has changed, and the end marker
/// follows.
pub proof fn law_file_read_to_its_end_is_sent(send: FileSendView, chunks: Seq<Seq<u8>>)
    requires
        send.stream == Stream::Running,
        send.sent == 0,
        chunks.flatten().len() <= u64::MAX,
    ensures
        after_events(send, reading_of(chunks)) == (FileSendView {
            sent: chunks.flatten().len() as u64,
            stream: Stream::Finished,
            ..send
        }),
        closing_of(after_events(send, reading_of(chunks))) == Some(
            WireView::FileEnd { peer_id: send.local_id, transfer_id: send.transfer_id },
        ),
{
    let data = chunks.map_values(|chunk: Seq<u8>| EventView::Data(chunk));
    lemma_data_events_count(send, chunks);
    assert(reading_of(chunks).drop_last() =~= data);
}

/// A file sent in chunks arrives whole: a paired receiver that has let it in with
/// the size announced writes, byte for byte, what the sender read.
pub proof fn law_sent_file_arrives_whole(
    send: FileSendView,
    chunks: Seq<Seq<u8>>,
    receiver: StateView,
    incoming: Map<Seq<char>, IncomingView>,
    file: IncomingView,
)
    requires
        paired_check(receiver.peers, send.local_id) is Ok,
        within_limits(incoming),
        send.total == chunks.flatten().len(),
        send.total <= MAX_INCOMING_FILE_SIZE,
        file.expected_size == send.total,
        file.received_size == 0,
    ensures
        written_bytes(
            receiver,
            incoming.insert(send.transfer_id, file),
            send.local_id,
            send.transfer_id,
            chunks.map_values(|chunk: Seq<u8>| chunk_of(send, chunk)->data),
        ) == chunks.flatten(),
{
    let known = incoming.insert(send.transfer_id, file);
    assert(chunks.map_values(|chunk: Seq<u8>| chunk_of(send, chunk)->data) =~= chunk_texts(chunks));
    law_file_arrives_whole(receiver, known, send.local_id, send.transfer_id, chunks);
}

/// Whether files can go to the peer at `k`, the first with the given id: it is paired,
/// has an address and shares a secret with this device.
pub open spec fn is_target_at(peers: Seq<PeerDevice>, id: Seq<char>, k: int) -> bool {
    &&& is_first_of(peers, id, k)
    &&& peers[k].trust_state@ == "paired"@
    &&& peers[k].shared_secret is Some
    &&& exists|i: int| 0 <= i < peers[k].host@.len() && !is_white_space(#[trigger] peers[k].host@[i])
}

/// Whether files can go to the peer of the given id.
pub open spec fn is_target_id(peers: Seq<PeerDevice>, id: Seq<char>) -> bool {
    exists|k: int| #[trigger] is_target_at(peers, id, k)
}

/// Whether there is one target for each id, in order, and each is the known peer of
/// its id with the secret shared with that very peer.
pub open spec fn are_targets_of(
    targets: Seq<Target>,
    peers: Seq<PeerDevice>,
    ids: Seq<String>,
) -> bool {
    &&& targets.len() == ids.len()
    &&& forall|i: int|
        0 <= i < targets.len() ==> {
            let target = #[trigger] targets[i];
            &&& target.peer.id@ == ids[i]@
            &&& target.peer.shared_secret is Some
            &&& target.secret@ == target.peer.shared_secret->Some_0@
            &&& target.peer.trust_state@ == "paired"@
        }
    &&& forall|i: int, k: int|
        0 <= i < targets.len() && is_first_of(peers, ids[i]@, k) ==> (#[trigger] targets[i]).peer@
            == (#[trigger] peers[k])@
}

proof fn lemma_targets_one_by_one(peers: Seq<PeerView>, ids: Seq<Seq<char>>)
    ensures
        match file_targets(peers, ids) {
            Ok(targets) => targets.len() == ids.len() && forall|i: int|
                0 <= i < ids.len() ==> file_target(peers, #[trigger] ids[i]) == Ok::<
                    TargetView,
                    Seq<char>,
                >(targets[i]),
            Err(complaint) => exists|i: int|
                0 <= i < ids.len() && file_target(peers, #[trigger] ids[i]) == Err::<
                    TargetView,
                    Seq<char>,
                >(complaint),
        },
    decreases ids.len(),
{
    if ids.len() > 0 {
        let init = ids.drop_last();
        let last = ids.len() - 1;
        lemma_targets_one_by_one(peers, init);
        assert(ids[last] == ids.last());
        match file_targets(peers, init) {
            Ok(found) => {
                assert forall|i: int| 0 <= i < last implies file_target(peers, #[trigger] ids[i])
                    == Ok::<TargetView, Seq<char>>(found[i]) by {
                    assert(init[i] == ids[i]);
                }
            },
            Err(complaint) => {
                let i = choose|i: int|
                    0 <= i < init.len() && file_target(peers, #[trigger] init[i]) == Err::<
                        TargetView,
                        Seq<char>,
                    >(complaint);
                assert(ids[i] == init[i]);
            },
        }
    }
}

proof fn lemma_target_of_id(peers: Seq<PeerDevice>, id: Seq<char>)
    ensures
        file_target(views(peers), id) is Ok <==> is_target_id(peers, id),
        file_target(views(peers), id) matches Ok(target) ==> {
            &&& target.peer.id == id
            &&& target.peer.shared_secret == Some(target.secret)
            &&& target.peer.trust_state == "paired"@
        },
        forall|k: int|
            is_first_of(peers, id, k) && file_target(views(peers), id) is Ok ==> (
            #[trigger] peers[k])@ == file_target(views(peers), id)->Ok_0.peer,
{
    let k = lemma_known_or_unknown(peers, id);
    lemma_peer_index(views(peers), id);
    assert forall|j: int|
        is_first_of(peers, id, j) && file_target(views(peers), id) is Ok implies (
    #[trigger] peers[j])@ == file_target(views(peers), id)->Ok_0.peer by {
        lemma_first_of(peers, id, j);
    }
    if k >= 0 {
        lemma_first_of(peers, id, k);
        assert(views(peers)[k] == peers[k]@);
        if file_target(views(peers), id) is Ok {
            assert(is_target_at(peers, id, k));
        }
    }
    if is_target_id(peers, id) {
        let j = choose|j: int| #[trigger] is_target_at(peers, id, j);
        lemma_first_of(peers, id, j);
        let host = peers[j].host@;
        let i = choose|i: int| 0 <= i < host.len() && !is_white_space(#[trigger] host[i]);
        assert(!is_blank(host));
    }
}

proof fn lemma_resolved(state: &PersistedState, ids: Seq<String>, targets: Seq<Target>)
    ensures
        file_targets(state@.peers, views(ids)) is Ok <==> forall|i: int|
            0 <= i < ids.len() ==> is_target_id(state.peers@, #[trigger] ids[i]@),
        file_targets(state@.peers, views(ids)) == Ok::<Seq<TargetView>, Seq<char>>(views(targets))
            ==> are_targets_of(targets, state.peers@, ids),
{
    let all = views(ids);
    lemma_targets_one_by_one(state@.peers, all);
    match file_targets(state@.peers, all) {
        Ok(found) => {
            assert forall|i: int| 0 <= i < ids.len() implies is_target_id(
                state.peers@,
                #[trigger] ids[i]@,
            ) by {
                assert(all[i] == ids[i]@);
                lemma_target_of_id(state.peers@, ids[i]@);
            }
            if found == views(targets) {
                assert(targets.len() == views(targets).len());
                assert forall|i: int| 0 <= i < targets.len() implies {
                    let target = #[trigger] targets[i];
                    &&& target.peer.id@ == ids[i]@
                    &&& target.peer.shared_secret is Some
                    &&& target.secret@ == target.peer.shared_secret->Some_0@
                    &&& target.peer.trust_state@ == "paired"@
                } by {
                    assert(all[i] == ids[i]@);
                    assert(views(targets)[i] == targets[i]@);
                    lemma_target_of_id(state.peers@, ids[i]@);
                }
                assert forall|i: int, k: int|
                    0 <= i < targets.len() && is_first_of(state.peers@, ids[i]@, k) implies (
                #[trigger] targets[i]).peer@ == (#[trigger] state.peers@[k])@ by {
                    assert(all[i] == ids[i]@);
                    assert(views(targets)[i] == targets[i]@);
                    lemma_target_of_id(state.peers@, ids[i]@);
                }
            }
        },
        Err(complaint) => {
            let i = choose|i: int|
                0 <= i < all.len() && file_target(state@.peers, #[trigger] all[i]) is Err;
            assert(all[i] == ids[i]@);
            lemma_target_of_id(state.peers@, ids[i]@);
        },
    }
}

/// Targets are resolved exactly if files can go to every peer named, and then there is
/// one for each id, in order: the known peer of that id, with the secret shared with
/// that very peer.
pub proof fn law_resolve_targets(
    state: &PersistedState,
    peer_ids: &[String],
    r: AppResult<Vec<Target>>,
)
    requires
        call_ensures(resolve_targets, (state, peer_ids), r),
    ensures
        r is Ok <==> forall|i: int|
            0 <= i < peer_ids@.len() ==> is_target_id(state.peers@, #[trigger] peer_ids@[i]@),
        r matches Ok(targets) ==> are_targets_of(targets@, state.peers@, peer_ids@),
{
    if let Ok(targets) = r {
        lemma_resolved(state, peer_ids@, targets@);
    } else {
        lemma_resolved(state, peer_ids@, Seq::empty());
    }
}

/// Files go out in this device's name to exactly the peers named, each with the secret
/// shared with it, if there is a peer, there is a file, and files can go to all of
/// them. With no peer, or one that files cannot go to, the job is refused.
pub proof fn law_send_files(
    state: &PersistedState,
    peer_ids: &[String],
    paths: &[String],
    r: AppResult<Option<SendJob>>,
)
    requires
        call_ensures(send_files, (state, peer_ids, paths), r),
    ensures
        peer_ids@.len() == 0 ==> r is Err && r->Err_0@ == "No target devices."@,
        peer_ids@.len() > 0 && paths@.len() == 0 ==> r is Ok && r->Ok_0 is None,
        peer_ids@.len() > 0 && paths@.len() > 0 ==> (r is Ok <==> forall|i: int|
            0 <= i < peer_ids@.len() ==> is_target_id(state.peers@, #[trigger] peer_ids@[i]@)),
        peer_ids@.len() > 0 && paths@.len() > 0 && r is Ok ==> {
            &&& r->Ok_0 is Some
            &&& r->Ok_0->Some_0.local_id@ == state.setup.device_id@
            &&& are_targets_of(r->Ok_0->Some_0.targets@, state.peers@, peer_ids@)
        },
{
    if r is Ok && r->Ok_0 is Some {
        lemma_resolved(state, peer_ids@, r->Ok_0->Some_0.targets@);
    } else {
        lemma_resolved(state, peer_ids@, Seq::empty());
    }
}

/// A staged file goes out in this device's name to exactly the peers named, each with
/// the secret shared with it, under the name given or, where that is blank, "file". It
/// goes out exactly if there is a peer, the session's id is safe, the file is there,
/// and files can go to all peers named.
pub proof fn law_send_staged_file(
    state: &PersistedState,
    peer_ids: &[String],
    session_id: &str,
    present: bool,
    file_name: &str,
    staged: AppResult<String>,
    r: AppResult<StagedJob>,
)
    requires
        call_ensures(send_staged_file, (state, peer_ids, session_id, present, file_name), r),
        call_ensures(staged_file_path, (session_id,), staged),
    ensures
        r is Ok <==> peer_ids@.len() > 0 && staged is Ok && present && forall|i: int|
            0 <= i < peer_ids@.len() ==> is_target_id(state.peers@, #[trigger] peer_ids@[i]@),
        r matches Ok(job) ==> {
            &&& job.job.local_id@ == state.setup.device_id@
            &&& are_targets_of(job.job.targets@, state.peers@, peer_ids@)
            &&& job.name@ == file_name@ || (job.name@ == "file"@ && forall|i: int|
                0 <= i < file_name@.len() ==> is_white_space(#[trigger] file_name@[i]))
            &&& (exists|i: int| 0 <= i < file_name@.len() && !is_white_space(#[trigger] file_name@[i]))
                ==> job.name@ == file_name@
        },
        peer_ids@.len() == 0 ==> r is Err && r->Err_0@ == "No target devices."@,
        peer_ids@.len() > 0 && staged is Ok && !present ==> r is Err && r->Err_0@
            == "Nothing was staged to send."@,
{
    if r is Ok {
        lemma_resolved(state, peer_ids@, r->Ok_0.job.targets@);
    } else {
        lemma_resolved(state, peer_ids@, Seq::empty());
    }
}

/// A staged file is read from its durable copy where there is one, which its message
/// then points at; otherwise from the staging area, and the message points nowhere.
pub proof fn law_staged_source(staged: String, copy: Option<String>, r: StagedSource)
    requires
        call_ensures(staged_source, (staged, copy), r),
    ensures
        match copy {
            Some(path) => {
                &&& r.send_path@ == path@
                &&& r.record_path is Some && r.record_path->Some_0@ == path@
            },
            None => r.send_path@ == staged@ && r.record_path is None,
        },
{
}

/// A file is announced under this send's id, name and size, in this device's name.
pub proof fn law_start_message(send: &FileSend, r: WireMessage)
    requires
        call_ensures(FileSend::start_message, (send,), r),
    ensures
        r is FileStart,
        r->FileStart_peer_id@ == send.local_id@,
        r->FileStart_transfer_id@ == send.transfer_id@,
        r->file_name@ == send.file_name@,
        r->total_size == send.total,
{
}

/// Whether a send kept what it is about.
pub open spec fn is_same_send(before: FileSend, after: FileSend) -> bool {
    &&& after.transfer_id@ == before.transfer_id@
    &&& after.local_id@ == before.local_id@
    &&& after.file_name@ == before.file_name@
}

/// A new send is this device's, under the name to show where one is given; nothing was
/// read yet and nobody dialed.
pub proof fn law_new_send(local_id: &str, path: &str, display_name: Option<String>, r: FileSend)
    requires
        call_ensures(FileSend::new, (local_id, path, display_name), r),
    ensures
        is_uuid_text(r.transfer_id@),
        r.local_id@ == local_id@,
        display_name matches Some(name) ==> r.file_name@ == name@,
        r.total == 0 && r.sent == 0,
        r.conns@.len() == 0,
        r.stream == Stream::Running,
{
    assert(r@.conns.len() == r.conns@.len());
}

/// Opening the file sets the size to announce and nothing else.
pub proof fn law_opened(send: &mut FileSend, total: u64)
    requires
        call_ensures(FileSend::opened, (send, total), ()),
    ensures
        final(send).total == total,
        is_same_send(*old(send), *final(send)),
        final(send).sent == old(send).sent,
        final(send)@.conns == old(send)@.conns,
        final(send).stream == old(send).stream,
{
}

/// The row of a target that could not be reached is that target's, about this file: it
/// shows "failed" at 0 percent with the reason.
pub proof fn law_unreached_row(send: &FileSend, target: &Target, error: String, r: TransferProgress)
    requires
        call_ensures(FileSend::unreached_row, (send, target, error), r),
    ensures
        r.peer_id@ == target.peer.id@,
        r.peer_name@ == target.peer.name@,
        r.label@ == send.file_name@,
        r.kind@ == "file"@,
        r.progress == 0,
        r.state@ == "failed"@,
        r.error is Some && r.error->Some_0@ == error@,
        r.id@ == send.transfer_id@ + ":"@ + target.peer.id@,
{
}

/// A target that was dialed gets the last connection, with the secret shared with that
/// target; it counts as failed exactly if the announcement could not be written. Its
/// row shows "sending", or "failed" with the reason. Earlier connections stay.
pub proof fn law_dialed(
    send: &mut FileSend,
    target: &Target,
    started: AppResult<()>,
    r: TransferProgress,
)
    requires
        call_ensures(FileSend::dialed, (send, target, started), r),
    ensures
        is_same_send(*old(send), *final(send)),
        final(send).total == old(send).total && final(send).sent == old(send).sent,
        final(send).stream == old(send).stream,
        final(send).conns@.len() == old(send).conns@.len() + 1,
        forall|i: int|
            0 <= i < old(send).conns@.len() ==> (#[trigger] final(send).conns@[i])@
                == old(send).conns@[i]@,
        final(send).conns@.last().peer_id@ == target.peer.id@,
        final(send).conns@.last().peer_name@ == target.peer.name@,
        final(send).conns@.last().secret@ == target.secret@,
        final(send).conns@.last().failed <==> started is Err,
        r.peer_id@ == target.peer.id@,
        r.peer_name@ == target.peer.name@,
        r.label@ == old(send).file_name@,
        r.kind@ == "file"@,
        r.progress == 0,
        r.id@ == old(send).transfer_id@ + ":"@ + target.peer.id@,
        match started {
            Ok(_) => r.state@ == "sending"@ && r.error is None,
            Err(error) => r.state@ == "failed"@ && r.error is Some && r.error->Some_0@ == error@,
        },
{
    assert(final(send)@.conns.len() == final(send).conns@.len());
    assert forall|i: int| 0 <= i < old(send).conns@.len() implies (
    #[trigger] final(send).conns@[i])@ == old(send).conns@[i]@ by {
        assert(final(send)@.conns[i] == old(send)@.conns[i]);
    }
    let last = old(send).conns@.len() as int;
    assert(final(send)@.conns[last] == final(send).conns@[last]@);
}

/// Data that was read goes out as a chunk of this send, in this device's name, from
/// which exactly those bytes are decoded, and is counted; every other event ends the
/// stream as what it is and sends nothing. The connections stay.
pub proof fn law_next(send: &mut FileSend, event: StreamEvent, r: Option<WireMessage>)
    requires
        call_ensures(FileSend::next, (send, event), r),
        old(send).stream == Stream::Running,
        event matches StreamEvent::Data(bytes) ==> old(send).sent + bytes@.len() <= u64::MAX,
    ensures
        is_same_send(*old(send), *final(send)),
        final(send).total == old(send).total,
        final(send)@.conns == old(send)@.conns,
        match event {
            StreamEvent::Data(bytes) => {
                &&& r is Some
                &&& r->Some_0 is FileChunk
                &&& r->Some_0->FileChunk_peer_id@ == old(send).local_id@
                &&& r->Some_0->FileChunk_transfer_id@ == old(send).transfer_id@
                &&& base64_decoding(r->Some_0->data@) == Ok::<Seq<u8>, Seq<char>>(bytes@)
                &&& final(send).sent == old(send).sent + bytes@.len()
                &&& final(send).stream == Stream::Running
            },
            StreamEvent::Cancelled => r is None && final(send).stream == Stream::Cancelled
                && final(send).sent == old(send).sent,
            StreamEvent::ReadFailed => r is None && final(send).stream == Stream::ReadFailed
                && final(send).sent == old(send).sent,
            StreamEvent::End => r is None && final(send).stream == Stream::Finished
                && final(send).sent == old(send).sent,
        },
{
    if let StreamEvent::Data(bytes) = event {
        law_base64_round_trip(bytes@);
    }
}

/// A connection that a chunk could not be written to is left behind, and it alone; its
/// row shows "failed" with the reason.
pub proof fn law_write_failed(
    send: &mut FileSend,
    k: usize,
    progress: u8,
    error: String,
    r: TransferProgress,
)
    requires
        call_ensures(FileSend::write_failed, (send, k, progress, error), r),
        k < old(send).conns@.len(),
    ensures
        is_same_send(*old(send), *final(send)),
        final(send).total == old(send).total && final(send).sent == old(send).sent,
        final(send).stream == old(send).stream,
        final(send).conns@.len() == old(send).conns@.len(),
        forall|i: int|
            0 <= i < old(send).conns@.len() && i != k ==> (#[trigger] final(send).conns@[i])@
                == old(send).conns@[i]@,
        final(send).conns@[k as int].failed,
        final(send).conns@[k as int].peer_id@ == old(send).conns@[k as int].peer_id@,
        final(send).conns@[k as int].peer_name@ == old(send).conns@[k as int].peer_name@,
        final(send).conns@[k as int].secret@ == old(send).conns@[k as int].secret@,
        r.peer_id@ == old(send).conns@[k as int].peer_id@,
        r.peer_name@ == old(send).conns@[k as int].peer_name@,
        r.label@ == old(send).file_name@,
        r.kind@ == "file"@,
        r.progress == progress,
        r.state@ == "failed"@,
        r.error is Some && r.error->Some_0@ == error@,
        r.id@ == old(send).transfer_id@ + ":"@ + old(send).conns@[k as int].peer_id@,
{
    assert(final(send)@.conns.len() == final(send).conns@.len());
    assert forall|i: int| 0 <= i < old(send).conns@.len() && i != k implies (
    #[trigger] final(send).conns@[i])@ == old(send).conns@[i]@ by {
        assert(final(send)@.conns[i] == old(send)@.conns[i]);
    }
    assert(final(send)@.conns[k as int] == final(send).conns@[k as int]@);
    assert(old(send)@.conns[k as int] == old(send).conns@[k as int]@);
}

/// The live connections are exactly those that have not failed, in order.
pub proof fn law_live(send: &FileSend, r: Vec<usize>)
    requires
        call_ensures(FileSend::live, (send,), r),
    ensures
        forall|j: int|
            0 <= j < r@.len() ==> #[trigger] r@[j] < send.conns@.len()
                && !send.conns@[r@[j] as int].failed,
        forall|j: int, k: int| 0 <= j < k < r@.len() ==> #[trigger] r@[j] < #[trigger] r@[k],
        forall|k: int|
            0 <= k < send.conns@.len() && !(#[trigger] send.conns@[k]).failed ==> exists|j: int|
                0 <= j < r@.len() && #[trigger] r@[j] == k,
{
    assert forall|k: int|
        0 <= k < send.conns@.len() && !(#[trigger] send.conns@[k]).failed implies exists|j: int|
        0 <= j < r@.len() && #[trigger] r@[j] == k by {
        assert(send@.conns[k] == send.conns@[k]@);
    }
    assert forall|j: int| 0 <= j < r@.len() implies #[trigger] r@[j] < send.conns@.len()
        && !send.conns@[r@[j] as int].failed by {
        assert(send@.conns[r@[j] as int] == send.conns@[r@[j] as int]@);
    }
}

proof fn lemma_rows_of_live(
    send: FileSendView,
    conns: Seq<ConnView>,
    progress: u8,
    live: Seq<usize>,
)
    requires
        is_live_list(conns, live),
    ensures
        sending_rows_of(send, conns, progress).len() == live.len(),
        forall|j: int|
            0 <= j < live.len() ==> #[trigger] sending_rows_of(send, conns, progress)[j]
                == send_row(
                send,
                conns[live[j] as int].peer_id,
                conns[live[j] as int].peer_name,
                progress,
                "sending"@,
                None,
            ),
    decreases conns.len(),
{
    if conns.len() == 0 {
        if live.len() > 0 {
            assert(live[0] < conns.len());
        }
    } else {
        let init = conns.drop_last();
        let last = conns.len() - 1;
        if conns.last().failed {
            assert forall|j: int| 0 <= j < live.len() implies #[trigger] live[j] < init.len()
                && !init[live[j] as int].failed by {
                assert(!conns[live[j] as int].failed);
            }
            assert forall|k: int| 0 <= k < init.len() && !(
            #[trigger] init[k]).failed implies exists|j: int|
                0 <= j < live.len() && #[trigger] live[j] == k by {
                assert(conns[k] == init[k]);
            }
            lemma_rows_of_live(send, init, progress, live);
            assert forall|j: int| 0 <= j < live.len() implies conns[#[trigger] live[j] as int]
                == init[live[j] as int] by {}
        } else {
            assert(!conns[last].failed);
            let top = choose|j: int| 0 <= j < live.len() && #[trigger] live[j] == last;
            assert(top == live.len() - 1) by {
                if top < live.len() - 1 {
                    assert(live[top] < live[live.len() - 1]);
                }
            }
            let rest = live.drop_last();
            assert forall|j: int| 0 <= j < rest.len() implies #[trigger] rest[j] < init.len()
                && !init[rest[j] as int].failed by {
                assert(live[j] < live[top]);
                assert(!conns[live[j] as int].failed);
            }
            assert forall|j: int, k: int| 0 <= j < k < rest.len() implies #[trigger] rest[j]
                < #[trigger] rest[k] by {
                assert(live[j] < live[k]);
            }
            assert forall|k: int| 0 <= k < init.len() && !(
            #[trigger] init[k]).failed implies exists|j: int|
                0 <= j < rest.len() && #[trigger] rest[j] == k by {
                assert(conns[k] == init[k]);
                let j = choose|j: int| 0 <= j < live.len() && #[trigger] live[j] == k;
                assert(rest[j] == k);
            }
            lemma_rows_of_live(send, init, progress, rest);
            assert forall|j: int| 0 <= j < live.len() implies #[trigger] sending_rows_of(
                send,
                conns,
                progress,
            )[j] == send_row(
                send,
                conns[live[j] as int].peer_id,
                conns[live[j] as int].peer_name,
                progress,
                "sending"@,
                None,
            ) by {
                if j < rest.len() {
                    assert(rest[j] == live[j]);
                    assert(sending_rows_of(send, init, progress)[j] == sending_rows_of(
                        send,
                        conns,
                        progress,
                    )[j]);
                    assert(init[rest[j] as int] == conns[live[j] as int]);
                }
            }
        }
    }
}

/// While a file goes out there is one row for each live connection, in order: that of
/// its peer, about this file, "sending" at the progress given.
pub proof fn law_sending_rows(
    send: &FileSend,
    progress: u8,
    live: Vec<usize>,
    r: Vec<TransferProgress>,
)
    requires
        call_ensures(FileSend::live, (send,), live),
        call_ensures(FileSend::sending_rows, (send, progress), r),
    ensures
        r@.len() == live@.len(),
        forall|j: int|
            0 <= j < r@.len() ==> {
                let row = #[trigger] r@[j];
                let conn = send.conns@[live@[j] as int];
                &&& row.peer_id@ == conn.peer_id@
                &&& row.peer_name@ == conn.peer_name@
                &&& row.label@ == send.file_name@
                &&& row.kind@ == "file"@
                &&& row.progress == progress
                &&& row.state@ == "sending"@
                &&& row.error is None
                &&& row.id@ == send.transfer_id@ + ":"@ + conn.peer_id@
            },
{
    lemma_rows_of_live(send@, send@.conns, progress, live@);
    assert(views(r@).len() == r@.len());
    assert forall|j: int| 0 <= j < r@.len() implies {
        let row = #[trigger] r@[j];
        let conn = send.conns@[live@[j] as int];
        &&& row.peer_id@ == conn.peer_id@
        &&& row.peer_name@ == conn.peer_name@
        &&& row.label@ == send.file_name@
        &&& row.kind@ == "file"@
        &&& row.progress == progress
        &&& row.state@ == "sending"@
        &&& row.error is None
        &&& row.id@ == send.transfer_id@ + ":"@ + conn.peer_id@
    } by {
        assert(views(r@)[j] == r@[j]@);
        assert(live@[j] < send@.conns.len());
        assert(send@.conns[live@[j] as int] == send.conns@[live@[j] as int]@);
    }
}

/// The last message of a send is, in this device's name and about this transfer, the
/// end marker where the file was read to its end, the word to discard it where it was
/// given up, and nothing otherwise.
pub proof fn law_closing_message(send: &FileSend, r: Option<WireMessage>)
    requires
        call_ensures(FileSend::closing_message, (send,), r),
    ensures
        r is Some <==> send.stream == Stream::Finished || send.stream == Stream::Cancelled,
        send.stream == Stream::Finished ==> {
            &&& r->Some_0 is FileEnd
            &&& r->Some_0->FileEnd_peer_id@ == send.local_id@
            &&& r->Some_0->FileEnd_transfer_id@ == send.transfer_id@
        },
        send.stream == Stream::Cancelled ==> {
            &&& r->Some_0 is FileCancel
            &&& r->Some_0->FileCancel_peer_id@ == send.local_id@
            &&& r->Some_0->FileCancel_transfer_id@ == send.transfer_id@
        },
{
}

/// The last row of a connection is its peer's, about this file, at 100 percent. It
/// shows "complete" only where the file was read to its end and the connection held;
/// a file given up shows "cancelled", and one that could not be read or written
/// "failed", the former with the reason.
pub proof fn law_last_row(send: &FileSend, k: usize, r: TransferProgress)
    requires
        call_ensures(FileSend::last_row, (send, k), r),
        k < send.conns@.len(),
        send.stream != Stream::Running,
    ensures
        r.peer_id@ == send.conns@[k as int].peer_id@,
        r.peer_name@ == send.conns@[k as int].peer_name@,
        r.label@ == send.file_name@,
        r.kind@ == "file"@,
        r.progress == 100,
        r.id@ == send.transfer_id@ + ":"@ + send.conns@[k as int].peer_id@,
        send.stream == Stream::Finished && !send.conns@[k as int].failed ==> r.state@
            == "complete"@,
        send.stream == Stream::Finished && send.conns@[k as int].failed ==> r.state@ == "failed"@,
        send.stream == Stream::Cancelled ==> r.state@ == "cancelled"@,
        send.stream == Stream::ReadFailed ==> r.state@ == "failed"@ && r.error is Some
            && r.error->Some_0@ == "Could not read the file."@,
        send.stream != Stream::ReadFailed ==> r.error is None,
{
    assert(send@.conns[k as int] == send.conns@[k as int]@);
}

/// A file that went out whole over a connection is recorded, at the end of the history,
/// as a file sent to the peer of that connection, with its name, its size and the place
/// to record; otherwise no message is. Either way the last row of the connection is the
/// last of the transfer list.
pub proof fn law_conclude(
    send: &FileSend,
    k: usize,
    state: &mut PersistedState,
    record_path: &Option<String>,
    row: TransferProgress,
    r: Concluded,
)
    requires
        call_ensures(FileSend::conclude, (send, k, state, record_path), r),
        call_ensures(FileSend::last_row, (send, k), row),
        k < send.conns@.len(),
        send.stream != Stream::Running,
    ensures
        r.row@ == row@,
        final(state)@.transfers.len() > 0 && final(state)@.transfers.last() == row@,
        final(state)@.transfers.is_suffix_of(old(state)@.transfers.push(row@)),
        old(state)@.transfers.len() < 200 ==> final(state)@.transfers
            == old(state)@.transfers.push(row@),
        old(state)@.transfers.len() >= 200 ==> final(state)@.transfers.len() == 200,
        r.message is Some <==> send.stream == Stream::Finished && !send.conns@[k as int].failed,
        r.message matches Some(message) ==> {
            &&& final(state)@.messages == old(state)@.messages.push(message@)
            &&& is_uuid_text(message.id@)
            &&& message.peer_id@ == send.conns@[k as int].peer_id@
            &&& message.direction@ == "sent"@
            &&& message.kind@ == "file"@
            &&& message.text@ == send.file_name@
            &&& message.file_name is Some && message.file_name->Some_0@ == send.file_name@
            &&& message.file_size == Some(send.total)
            &&& opt_text(message.file_path) == opt_text(*record_path)
            &&& message.url is None
        },
        r.message is None ==> final(state)@.messages == old(state)@.messages,
        final(state)@.setup == old(state)@.setup,
        final(state)@.peers == old(state)@.peers,
{
    assert(send@.conns[k as int] == send.conns@[k as int]@);
    let all = old(state)@.transfers + seq![row@];
    law_history_is_capped(old(state)@, seq![row@]);
    assert(all =~= old(state)@.transfers.push(row@));
    assert(all.last() == row@);
}

/// A new send without a name to show is named after its file: in a plain path, the stretch
/// from `n` on.
pub proof fn law_new_send_is_named_after_its_file(local_id: &str, path: &str, n: int, r: FileSend)
    requires
        call_ensures(FileSend::new, (local_id, path, None::<String>), r),
        is_plain_path(path@),
        0 <= n < path@.len(),
        n == 0 || path@[n - 1] == '/',
        forall|k: int| n <= k < path@.len() ==> #[trigger] path@[k] != '/',
        path@.subrange(n, path@.len() as int) != "."@,
        path@.subrange(n, path@.len() as int) != ".."@,
    ensures
        r.file_name@ == path@.subrange(n, path@.len() as int),
{
    lemma_name_in_plain_path(path@, n);
}

/// Where targets are refused, it is for one of the ids: because no peer has it, or because
/// the first that does is not paired, has no address or shares no secret, in this order.
pub proof fn law_refused_target(
    state: &PersistedState,
    peer_ids: &[String],
    r: AppResult<Vec<Target>>,
)
    requires
        call_ensures(resolve_targets, (state, peer_ids), r),
        r is Err,
    ensures
        exists|i: int|
            {
                let id = #[trigger] peer_ids@[i]@;
                &&& 0 <= i < peer_ids@.len()
                &&& is_unknown(state.peers@, id) ==> r->Err_0@ == "Peer not found."@
                &&& forall|k: int|
                    is_first_of(state.peers@, id, k) ==> {
                        let peer = #[trigger] state.peers@[k];
                        if peer.trust_state@ != "paired"@ {
                            r->Err_0@ == peer.name@ + " is not paired."@
                        } else if is_blank(peer.host@) {
                            r->Err_0@ == peer.name@ + " does not have a network address yet."@
                        } else {
                            &&& peer.shared_secret is None
                            &&& r->Err_0@ == peer.name@ + " does not have a shared secret yet."@
                        }
                    }
            },
{
    let ids = views(peer_ids@);
    let complaint = r->Err_0@;
    lemma_targets_one_by_one(state@.peers, ids);
    let i = choose|i: int|
        0 <= i < ids.len() && file_target(state@.peers, #[trigger] ids[i]) == Err::<
            TargetView,
            Seq<char>,
        >(complaint);
    let id = peer_ids@[i]@;
    assert(ids[i] == id);
    let found = lemma_known_or_unknown(state.peers@, id);
    if is_unknown(state.peers@, id) {
        lemma_unknown(state.peers@, id);
    }
    assert forall|k: int| is_first_of(state.peers@, id, k) implies {
        let peer = #[trigger] state.peers@[k];
        if peer.trust_state@ != "paired"@ {
            r->Err_0@ == peer.name@ + " is not paired."@
        } else if is_blank(peer.host@) {
            r->Err_0@ == peer.name@ + " does not have a network address yet."@
        } else {
            &&& peer.shared_secret is None
            &&& r->Err_0@ == peer.name@ + " does not have a shared secret yet."@
        }
    } by {
        lemma_first_of(state.peers@, id, k);
    }
}

} // verus!
