//! Files on their way in.
//!
//! A transfer is known from its first message until it ends, is cancelled, or
//! sends more than it declared. The bytes themselves are written elsewhere; this
//! module decides what may be written and keeps count.

use crate::chat::{
    file_message, freshly_stamped, make_file_message, record_chat_message, with_message,
};
use crate::clock::{auto_open_rate_ok, rate_allows};
use crate::codec::{base64_decode, base64_decoding, base64_encoding, law_base64_round_trip};
use crate::files::{
    extension_in, follows_a_dot, is_inert_extension, is_inert_in, is_raw_path,
    is_safe_to_auto_open, is_verdict_on, sanitize_file_name, sanitized, unix_name, windows_name,
};
use crate::ids::is_uuid_text;
use crate::model::{
    AppResult, ChatMessage, PersistedState, StateView, TransferProgress, TransferView,
    MAX_INCOMING_FILE_SIZE,
};
use crate::peers::{
    ensure_paired, get_peer, is_first_of, is_unknown, lemma_first_of, lemma_unknown, paired_check,
    peer_with_id,
};
use crate::roster::elapsed_fits;
use crate::transfers::{
    file_row_view, incoming_row, law_history_is_capped, record_transfer, with_transfers,
};
use vstd::hash_map::StringHashMap;
use vstd::prelude::*;

verus! {

/// One file on its way in.
#[derive(Debug)]
pub struct IncomingFile {
    /// Where the bytes go.
    pub path: String,
    pub expected_size: u64,
    pub received_size: u64,
    pub peer_name: String,
    pub file_name: String,
}

/// View of an [`IncomingFile`].
#[verifier::ext_equal]
pub struct IncomingView {
    pub path: Seq<char>,
    pub expected_size: u64,
    pub received_size: u64,
    pub peer_name: Seq<char>,
    pub file_name: Seq<char>,
}

impl View for IncomingFile {
    type V = IncomingView;

    open spec fn view(&self) -> IncomingView {
        IncomingView {
            path: self.path@,
            expected_size: self.expected_size,
            received_size: self.received_size,
            peer_name: self.peer_name@,
            file_name: self.file_name@,
        }
    }
}

impl Clone for IncomingFile {
    fn clone(&self) -> (r: Self)
        ensures
            r@ == self@,
    {
        IncomingFile {
            path: self.path.clone(),
            expected_size: self.expected_size,
            received_size: self.received_size,
            peer_name: self.peer_name.clone(),
            file_name: self.file_name.clone(),
        }
    }
}

/// The files on their way in, by transfer id.
pub struct IncomingFiles {
    entries: StringHashMap<IncomingFile>,
}

impl View for IncomingFiles {
    type V = Map<Seq<char>, IncomingView>;

    closed spec fn view(&self) -> Map<Seq<char>, IncomingView> {
        self.entries@.map_values(|file: IncomingFile| file@)
    }
}

/// No file holds more than its sender declared, and none was declared too large.
pub open spec fn within_limits(files: Map<Seq<char>, IncomingView>) -> bool {
    forall|id: Seq<char>| #[trigger]
        files.contains_key(id) ==> files[id].received_size <= files[id].expected_size
            && files[id].expected_size <= MAX_INCOMING_FILE_SIZE
}

impl IncomingFiles {
    /// No files on their way in.
    pub fn new() -> (r: Self)
        ensures
            r@ == Map::<Seq<char>, IncomingView>::empty(),
            within_limits(r@),
    {
        let r = IncomingFiles { entries: StringHashMap::new() };
        proof {
            assert(r@ =~= Map::<Seq<char>, IncomingView>::empty());
        }
        r
    }

    /// The file of the given transfer.
    pub fn get(&self, transfer_id: &str) -> (r: Option<IncomingFile>)
        ensures
            match r {
                Some(file) => self@.contains_key(transfer_id@) && file@ == self@[transfer_id@],
                None => !self@.contains_key(transfer_id@),
            },
    {
        match self.entries.get(transfer_id) {
            Some(file) => Some(file.clone()),
            None => None,
        }
    }

    fn insert(&mut self, transfer_id: &str, file: IncomingFile)
        ensures
            final(self)@ == old(self)@.insert(transfer_id@, file@),
    {
        self.entries.insert(transfer_id.to_string(), file);
        proof {
            assert(self@ =~= old(self)@.insert(transfer_id@, file@));
        }
    }

    fn remove(&mut self, transfer_id: &str)
        ensures
            final(self)@ == old(self)@.remove(transfer_id@),
    {
        self.entries.remove(transfer_id);
        proof {
            assert(self@ =~= old(self)@.remove(transfer_id@));
        }
    }
}

/// A transfer that was let in, before a place was found for its file.
#[derive(Debug)]
pub struct FileReservation {
    /// The file's name, reduced to one path component.
    pub file_name: String,
    pub peer_name: String,
    pub expected_size: u64,
}

/// Whether `r` is what becomes of a transfer that begins.
pub open spec fn is_start_received(
    state: StateView,
    peer_id: Seq<char>,
    file_name: Seq<char>,
    total_size: u64,
    r: AppResult<FileReservation>,
) -> bool {
    match paired_check(state.peers, peer_id) {
        Ok(_) => if total_size > MAX_INCOMING_FILE_SIZE {
            r is Err && r->Err_0@ == "The incoming file is too large."@
        } else {
            &&& r is Ok
            &&& r->Ok_0.file_name@ == sanitized(file_name)
            &&& r->Ok_0.peer_name@ == peer_with_id(state.peers, peer_id)->Ok_0.name
            &&& r->Ok_0.expected_size == total_size
        },
        Err(complaint) => r is Err && r->Err_0@ == complaint,
    }
}

/// Lets a transfer in: from paired peers only, and only up to the size limit.
pub fn receive_file_start(
    state: &PersistedState,
    peer_id: &str,
    file_name: &str,
    total_size: u64,
) -> (r: AppResult<FileReservation>)
    ensures
        is_start_received(state@, peer_id@, file_name@, total_size, r),
{
    ensure_paired(state, peer_id)?;
    if total_size > MAX_INCOMING_FILE_SIZE {
        return Err("The incoming file is too large.".to_string());
    }
    let peer_name = match get_peer(state, peer_id) {
        Ok(peer) => peer.name,
        Err(_) => "Unknown device".to_string(),
    };
    Ok(
        FileReservation {
            file_name: sanitize_file_name(file_name),
            peer_name,
            expected_size: total_size,
        },
    )
}

/// Enters a transfer whose file was created at `path`, and gives its first row.
pub fn file_reserved(
    incoming: &mut IncomingFiles,
    peer_id: &str,
    transfer_id: &str,
    reservation: FileReservation,
    path: String,
) -> (r: TransferProgress)
    requires
        within_limits(old(incoming)@),
        reservation.expected_size <= MAX_INCOMING_FILE_SIZE,
    ensures
        within_limits(final(incoming)@),
        final(incoming)@ == old(incoming)@.insert(
            transfer_id@,
            (IncomingView {
                path: path@,
                expected_size: reservation.expected_size,
                received_size: 0,
                peer_name: reservation.peer_name@,
                file_name: reservation.file_name@,
            }),
        ),
        r@ == file_row_view(
            transfer_id@,
            peer_id@,
            reservation.peer_name@,
            reservation.file_name@,
            0,
            "receiving"@,
            None,
        ),
{
    let row = incoming_row(
        transfer_id,
        peer_id,
        reservation.peer_name.as_str(),
        reservation.file_name.as_str(),
        0,
        "receiving",
    );
    incoming.insert(
        transfer_id,
        IncomingFile {
            path,
            expected_size: reservation.expected_size,
            received_size: 0,
            peer_name: reservation.peer_name,
            file_name: reservation.file_name,
        },
    );
    row
}

/// What is to be done with a chunk.
#[derive(Debug)]
pub enum ChunkPlan {
    /// Nothing but to say why.
    Refuse(String),
    /// Its transfer sent more than it declared and is over: the partial file at
    /// `path` is deleted.
    Discard { path: String, complaint: String },
    /// The bytes are added to the transfer's file.
    Write(Vec<u8>),
}

/// View of a [`ChunkPlan`].
#[verifier::ext_equal]
pub enum PlanView {
    Refuse(Seq<char>),
    Discard { path: Seq<char>, complaint: Seq<char> },
    Write(Seq<u8>),
}

impl View for ChunkPlan {
    type V = PlanView;

    open spec fn view(&self) -> PlanView {
        match self {
            ChunkPlan::Refuse(complaint) => PlanView::Refuse(complaint@),
            ChunkPlan::Discard { path, complaint } => PlanView::Discard {
                path: path@,
                complaint: complaint@,
            },
            ChunkPlan::Write(bytes) => PlanView::Write(bytes@),
        }
    }
}

/// What is to be done with a chunk of a transfer.
pub open spec fn chunk_plan(
    state: StateView,
    incoming: Map<Seq<char>, IncomingView>,
    peer_id: Seq<char>,
    transfer_id: Seq<char>,
    data: Seq<char>,
) -> PlanView {
    match paired_check(state.peers, peer_id) {
        Err(complaint) => PlanView::Refuse(complaint),
        Ok(_) => match base64_decoding(data) {
            Err(complaint) => PlanView::Refuse(complaint),
            Ok(bytes) => if !incoming.contains_key(transfer_id) {
                PlanView::Refuse("Received a chunk for an unknown transfer."@)
            } else if incoming[transfer_id].received_size + bytes.len()
                > incoming[transfer_id].expected_size {
                PlanView::Discard {
                    path: incoming[transfer_id].path,
                    complaint: "Incoming file exceeded its declared size."@,
                }
            } else {
                PlanView::Write(bytes)
            },
        },
    }
}

/// Decides on a chunk. A transfer that would exceed its declared size is over.
pub fn receive_file_chunk(
    state: &PersistedState,
    incoming: &mut IncomingFiles,
    peer_id: &str,
    transfer_id: &str,
    data: &str,
) -> (r: ChunkPlan)
    requires
        within_limits(old(incoming)@),
    ensures
        within_limits(final(incoming)@),
        r@ == chunk_plan(state@, old(incoming)@, peer_id@, transfer_id@, data@),
        final(incoming)@ == if r is Discard {
            old(incoming)@.remove(transfer_id@)
        } else {
            old(incoming)@
        },
{
    if let Err(complaint) = ensure_paired(state, peer_id) {
        return ChunkPlan::Refuse(complaint);
    }
    let bytes = match base64_decode(data) {
        Ok(bytes) => bytes,
        Err(complaint) => return ChunkPlan::Refuse(complaint),
    };
    let file = match incoming.get(transfer_id) {
        Some(file) => file,
        None => return ChunkPlan::Refuse(
            "Received a chunk for an unknown transfer.".to_string(),
        ),
    };
    let room: u64 = file.expected_size - file.received_size;
    if bytes.len() as u64 > room {
        incoming.remove(transfer_id);
        return ChunkPlan::Discard {
            path: file.path,
            complaint: "Incoming file exceeded its declared size.".to_string(),
        };
    }
    ChunkPlan::Write(bytes)
}

/// The files after `len` bytes were written for a transfer.
pub open spec fn with_bytes(
    incoming: Map<Seq<char>, IncomingView>,
    transfer_id: Seq<char>,
    len: int,
) -> Map<Seq<char>, IncomingView> {
    let file = incoming[transfer_id];
    incoming.insert(
        transfer_id,
        IncomingView { received_size: (file.received_size + len) as u64, ..file },
    )
}

/// Counts a chunk of `len` bytes that was written, and gives the file as it now
/// stands. Nothing is counted for a transfer that is over, or past the size it
/// declared.
pub fn chunk_written(incoming: &mut IncomingFiles, transfer_id: &str, len: usize) -> (r: Option<
    IncomingFile,
>)
    requires
        within_limits(old(incoming)@),
    ensures
        within_limits(final(incoming)@),
        ({
            let before = old(incoming)@;
            let file = before[transfer_id@];
            if before.contains_key(transfer_id@) && file.received_size + len
                <= file.expected_size {
                &&& final(incoming)@ == with_bytes(before, transfer_id@, len as int)
                &&& r is Some && r->Some_0@ == final(incoming)@[transfer_id@]
            } else {
                r is None && final(incoming)@ == before
            }
        }),
{
    match incoming.get(transfer_id) {
        Some(known) => {
            let mut file = known;
            let room: u64 = file.expected_size - file.received_size;
            if len as u64 > room {
                return None;
            }
            file.received_size = file.received_size + len as u64;
            let copy = file.clone();
            incoming.insert(transfer_id, file);
            Some(copy)
        },
        None => None,
    }
}

/// The row of a file that is still coming in.
pub fn receiving_row(transfer_id: &str, peer_id: &str, file: &IncomingFile, progress: u8) -> (r:
    TransferProgress)
    ensures
        r@ == file_row_view(
            transfer_id@,
            peer_id@,
            file@.peer_name,
            file@.file_name,
            progress,
            "receiving"@,
            None,
        ),
{
    incoming_row(
        transfer_id,
        peer_id,
        file.peer_name.as_str(),
        file.file_name.as_str(),
        progress,
        "receiving",
    )
}

/// A file that has come in.
#[derive(Debug)]
pub struct FinishedFile {
    pub path: String,
    /// The message that was recorded.
    pub message: ChatMessage,
    /// The row that was recorded.
    pub row: TransferProgress,
    /// Whether to open the file at once.
    pub open: bool,
}

/// The row of a file that has come in.
pub open spec fn finished_file_row(
    transfer_id: Seq<char>,
    peer_id: Seq<char>,
    file: IncomingView,
) -> TransferView {
    file_row_view(transfer_id, peer_id, file.peer_name, file.file_name, 100, "complete"@, None)
}

/// Whether `r` and the values after are what becomes of a transfer that ends. Its
/// file is recorded as a received message and a finished row. It is to be opened
/// at once only if the user asked for that, the last opening was long enough ago,
/// and the file is inert.
pub open spec fn is_end_received(
    before: StateView,
    incoming_before: Map<Seq<char>, IncomingView>,
    last_before: i64,
    peer_id: Seq<char>,
    transfer_id: Seq<char>,
    now: i64,
    after: StateView,
    incoming_after: Map<Seq<char>, IncomingView>,
    last_after: i64,
    r: AppResult<FinishedFile>,
) -> bool {
    match paired_check(before.peers, peer_id) {
        Ok(_) => if incoming_before.contains_key(transfer_id) {
            let file = incoming_before[transfer_id];
            let allowed = before.setup.auto_open && rate_allows(last_before, now);
            &&& r is Ok
            &&& incoming_after == incoming_before.remove(transfer_id)
            &&& r->Ok_0.path@ == file.path
            &&& freshly_stamped(r->Ok_0.message@)
            &&& r->Ok_0.message@ == file_message(
                r->Ok_0.message@.id,
                peer_id,
                "received"@,
                file.file_name,
                file.expected_size,
                Some(file.path),
                r->Ok_0.message@.created_at,
            )
            &&& r->Ok_0.row@ == finished_file_row(transfer_id, peer_id, file)
            &&& after == with_transfers(
                with_message(before, r->Ok_0.message@),
                seq![r->Ok_0.row@],
            )
            &&& last_after == if allowed {
                now
            } else {
                last_before
            }
            &&& if allowed {
                is_verdict_on(file.path, r->Ok_0.open)
            } else {
                !r->Ok_0.open
            }
        } else {
            &&& r is Err && r->Err_0@ == "Received an end marker for an unknown transfer."@
            &&& incoming_after == incoming_before
            &&& after == before
            &&& last_after == last_before
        },
        Err(complaint) => {
            &&& r is Err && r->Err_0@ == complaint
            &&& incoming_after == incoming_before
            &&& after == before
            &&& last_after == last_before
        },
    }
}

/// Ends a transfer, and decides whether to open its file at once.
pub fn receive_file_end(
    state: &mut PersistedState,
    incoming: &mut IncomingFiles,
    last_auto_open: &mut i64,
    peer_id: &str,
    transfer_id: &str,
    now: i64,
) -> (r: AppResult<FinishedFile>)
    requires
        within_limits(old(incoming)@),
        old(state)@.setup.auto_open ==> elapsed_fits(*old(last_auto_open), now),
    ensures
        within_limits(final(incoming)@),
        is_end_received(
            old(state)@,
            old(incoming)@,
            *old(last_auto_open),
            peer_id@,
            transfer_id@,
            now,
            final(state)@,
            final(incoming)@,
            *final(last_auto_open),
            r,
        ),
{
    match ensure_paired(state, peer_id) {
        Ok(_) => {},
        Err(complaint) => return Err(complaint),
    }
    let file = match incoming.get(transfer_id) {
        Some(file) => file,
        None => return Err("Received an end marker for an unknown transfer.".to_string()),
    };
    incoming.remove(transfer_id);
    let message = make_file_message(
        peer_id.to_string(),
        "received",
        file.file_name.as_str(),
        file.expected_size,
        Some(file.path.clone()),
    );
    let message_copy = message.clone();
    record_chat_message(state, message);
    let row = incoming_row(
        transfer_id,
        peer_id,
        file.peer_name.as_str(),
        file.file_name.as_str(),
        100,
        "complete",
    );
    let row_copy = row.clone();
    record_transfer(state, row);
    let open: bool = state.setup.auto_open && auto_open_rate_ok(last_auto_open, now)
        && is_safe_to_auto_open(file.path.as_str());
    Ok(FinishedFile { path: file.path, message: message_copy, row: row_copy, open })
}

/// A transfer that its sender gave up: the partial file is deleted.
#[derive(Debug)]
pub struct CancelledFile {
    pub path: String,
    pub row: TransferProgress,
}

/// Whether `r` and `incoming_after` are what becomes of a transfer that its sender
/// gives up. One that is not known leaves nothing to clean up.
pub open spec fn is_cancel_received(
    state: StateView,
    incoming_before: Map<Seq<char>, IncomingView>,
    peer_id: Seq<char>,
    transfer_id: Seq<char>,
    incoming_after: Map<Seq<char>, IncomingView>,
    r: AppResult<Option<CancelledFile>>,
) -> bool {
    match paired_check(state.peers, peer_id) {
        Ok(_) => {
            &&& incoming_after == incoming_before.remove(transfer_id)
            &&& if incoming_before.contains_key(transfer_id) {
                let file = incoming_before[transfer_id];
                &&& r is Ok && r->Ok_0 is Some
                &&& r->Ok_0->Some_0.path@ == file.path
                &&& r->Ok_0->Some_0.row@ == file_row_view(
                    transfer_id,
                    peer_id,
                    file.peer_name,
                    file.file_name,
                    0,
                    "cancelled"@,
                    None,
                )
            } else {
                r is Ok && r->Ok_0 is None
            }
        },
        Err(complaint) => {
            &&& r is Err && r->Err_0@ == complaint
            &&& incoming_after == incoming_before
        },
    }
}

/// Drops a transfer that its sender gave up.
pub fn receive_file_cancel(
    state: &PersistedState,
    incoming: &mut IncomingFiles,
    peer_id: &str,
    transfer_id: &str,
) -> (r: AppResult<Option<CancelledFile>>)
    requires
        within_limits(old(incoming)@),
    ensures
        within_limits(final(incoming)@),
        is_cancel_received(
            state@,
            old(incoming)@,
            peer_id@,
            transfer_id@,
            final(incoming)@,
            r,
        ),
{
    match ensure_paired(state, peer_id) {
        Ok(_) => {},
        Err(complaint) => return Err(complaint),
    }
    match incoming.get(transfer_id) {
        Some(file) => {
            incoming.remove(transfer_id);
            let row = incoming_row(
                transfer_id,
                peer_id,
                file.peer_name.as_str(),
                file.file_name.as_str(),
                0,
                "cancelled",
            );
            Ok(Some(CancelledFile { path: file.path, row }))
        },
        None => {
            proof {
                assert(old(incoming)@.remove(transfer_id@) =~= old(incoming)@);
            }
            Ok(None)
        },
    }
}

/// The bytes written for a transfer whose chunks arrive in the given order, one
/// base64 text each, up to the first chunk that is not written.
pub open spec fn written_bytes(
    state: StateView,
    incoming: Map<Seq<char>, IncomingView>,
    peer_id: Seq<char>,
    transfer_id: Seq<char>,
    chunks: Seq<Seq<char>>,
) -> Seq<u8>
    decreases chunks.len(),
{
    if chunks.len() == 0 {
        Seq::empty()
    } else {
        match chunk_plan(state, incoming, peer_id, transfer_id, chunks[0]) {
            PlanView::Write(bytes) => bytes + written_bytes(
                state,
                with_bytes(incoming, transfer_id, bytes.len() as int),
                peer_id,
                transfer_id,
                chunks.drop_first(),
            ),
            _ => Seq::empty(),
        }
    }
}

/// The chunks of a file as they travel.
pub open spec fn chunk_texts(chunks: Seq<Seq<u8>>) -> Seq<Seq<char>> {
    chunks.map_values(|chunk: Seq<u8>| base64_encoding(chunk))
}

/// A file arrives as it was sent: where a known transfer of a paired peer has
/// room for all of them, the chunks of a file are written one after the other,
/// byte for byte.
pub proof fn law_file_arrives_whole(
    state: StateView,
    incoming: Map<Seq<char>, IncomingView>,
    peer_id: Seq<char>,
    transfer_id: Seq<char>,
    chunks: Seq<Seq<u8>>,
)
    requires
        paired_check(state.peers, peer_id) is Ok,
        within_limits(incoming),
        incoming.contains_key(transfer_id),
        incoming[transfer_id].received_size + chunks.flatten().len()
            <= incoming[transfer_id].expected_size,
    ensures
        written_bytes(state, incoming, peer_id, transfer_id, chunk_texts(chunks))
            == chunks.flatten(),
    decreases chunks.len(),
{
    if chunks.len() > 0 {
        let texts = chunk_texts(chunks);
        let rest = chunks.drop_first();
        law_base64_round_trip(chunks[0]);
        assert(texts[0] == base64_encoding(chunks[0]));
        assert(texts.drop_first() =~= chunk_texts(rest));
        assert(chunks.flatten() == chunks[0] + rest.flatten());
        let next = with_bytes(incoming, transfer_id, chunks[0].len() as int);
        law_file_arrives_whole(state, next, peer_id, transfer_id, rest);
    }
}

/// However much a peer sends, no more is written for a transfer than its sender
/// declared.
pub proof fn law_file_never_exceeds_its_size(
    state: StateView,
    incoming: Map<Seq<char>, IncomingView>,
    peer_id: Seq<char>,
    transfer_id: Seq<char>,
    chunks: Seq<Seq<char>>,
)
    requires
        within_limits(incoming),
        incoming.contains_key(transfer_id),
    ensures
        incoming[transfer_id].received_size + written_bytes(
            state,
            incoming,
            peer_id,
            transfer_id,
            chunks,
        ).len() <= incoming[transfer_id].expected_size,
    decreases chunks.len(),
{
    if chunks.len() > 0 {
        if let PlanView::Write(bytes) = chunk_plan(
            state,
            incoming,
            peer_id,
            transfer_id,
            chunks[0],
        ) {
            let next = with_bytes(incoming, transfer_id, bytes.len() as int);
            law_file_never_exceeds_its_size(state, next, peer_id, transfer_id, chunks.drop_first());
        }
    }
}

/// A file ends once. The end of a known transfer from a paired peer leaves one more
/// message, the last of the history, which names the file, its size and its place,
/// and one finished row, the last of the list. The file is opened only if the user
/// wants that, the last opening was long enough ago and what follows some dot of
/// its path is inert; where Unix and Windows find the same extension in the path,
/// that extension alone decides the last of the three. A second end marker for the
/// transfer is refused and changes nothing.
pub proof fn law_file_ends_once(
    before: StateView,
    incoming: Map<Seq<char>, IncomingView>,
    last: i64,
    peer_id: Seq<char>,
    transfer_id: Seq<char>,
    now: i64,
    after: StateView,
    incoming_after: Map<Seq<char>, IncomingView>,
    last_after: i64,
    first: AppResult<FinishedFile>,
    later: i64,
    end: StateView,
    incoming_end: Map<Seq<char>, IncomingView>,
    last_end: i64,
    second: AppResult<FinishedFile>,
)
    requires
        paired_check(before.peers, peer_id) is Ok,
        incoming.contains_key(transfer_id),
        is_end_received(
            before,
            incoming,
            last,
            peer_id,
            transfer_id,
            now,
            after,
            incoming_after,
            last_after,
            first,
        ),
        is_end_received(
            after,
            incoming_after,
            last_after,
            peer_id,
            transfer_id,
            later,
            end,
            incoming_end,
            last_end,
            second,
        ),
    ensures
        first is Ok,
        after.messages.len() == before.messages.len() + 1,
        after.messages.last().peer_id == peer_id,
        after.messages.last().direction == "received"@,
        after.messages.last().file_name == Some(incoming[transfer_id].file_name),
        after.messages.last().file_size == Some(incoming[transfer_id].expected_size),
        after.messages.last().file_path == Some(incoming[transfer_id].path),
        after.transfers.len() > 0,
        after.transfers.last() == finished_file_row(transfer_id, peer_id, incoming[transfer_id]),
        !incoming_after.contains_key(transfer_id),
        first->Ok_0.open ==> {
            &&& before.setup.auto_open
            &&& rate_allows(last, now)
            &&& exists|e: Seq<char>| #[trigger]
                follows_a_dot(e, incoming[transfer_id].path) && is_inert_extension(e)
        },
        !is_raw_path(incoming[transfer_id].path) && extension_in(
            unix_name(incoming[transfer_id].path),
        ) == extension_in(windows_name(incoming[transfer_id].path)) ==> first->Ok_0.open == (
        before.setup.auto_open && rate_allows(last, now) && is_inert_in(
            extension_in(unix_name(incoming[transfer_id].path)),
        )),
        second is Err,
        second->Err_0@ == "Received an end marker for an unknown transfer."@,
        end == after,
        incoming_end == incoming_after,
        last_end == last_after,
{
    let row = finished_file_row(transfer_id, peer_id, incoming[transfer_id]);
    let told = with_message(before, first->Ok_0.message@);
    law_history_is_capped(told, seq![row]);
    let all = told.transfers + seq![row];
    assert(all.last() == row);
    let kept = after.transfers;
    assert(kept.last() == all[all.len() - kept.len() + (kept.len() - 1)]);
}

/// A transfer is let in exactly if its sender is a paired peer and it declares no more
/// than 50 GiB. What is then reserved is a place for a file of the size declared, under
/// the name sent, reduced to one path component, from the peer under its name.
pub proof fn law_receive_file_start(
    state: &PersistedState,
    peer_id: &str,
    file_name: &str,
    total_size: u64,
    k: int,
    bare: String,
    r: AppResult<FileReservation>,
)
    requires
        call_ensures(receive_file_start, (state, peer_id, file_name, total_size), r),
        call_ensures(sanitize_file_name, (file_name,), bare),
    ensures
        is_first_of(state.peers@, peer_id@, k) ==> (r is Ok <==> state.peers@[k].trust_state@
            == "paired"@ && total_size <= 53_687_091_200),
        is_unknown(state.peers@, peer_id@) ==> r is Err
            && r->Err_0@ == "Peer not found."@,
        is_first_of(state.peers@, peer_id@, k) && state.peers@[k].trust_state@
            != "paired"@ ==> r is Err && r->Err_0@ == state.peers@[k].name@ + " is not paired."@,
        is_first_of(state.peers@, peer_id@, k) && state.peers@[k].trust_state@ == "paired"@ && r is Err
            ==> r->Err_0@ == "The incoming file is too large."@,
        is_first_of(state.peers@, peer_id@, k) && r is Ok ==> {
            &&& r->Ok_0.file_name@ == bare@
            &&& r->Ok_0.peer_name@ == state.peers@[k].name@
            &&& r->Ok_0.expected_size == total_size
        },
{
    if is_first_of(state.peers@, peer_id@, k) {
        lemma_first_of(state.peers@, peer_id@, k);
    }
    if is_unknown(state.peers@, peer_id@) {
        lemma_unknown(state.peers@, peer_id@);
    }
}

/// A transfer whose file was created is known from then on, under its id: nothing was
/// received yet, and its place, size and names are those reserved. Other transfers stay
/// as they are. Its row is its sender's and shows "receiving" at 0 percent.
pub proof fn law_file_reserved(
    incoming: &mut IncomingFiles,
    peer_id: &str,
    transfer_id: &str,
    reservation: FileReservation,
    path: String,
    other: Seq<char>,
    r: TransferProgress,
)
    requires
        call_ensures(file_reserved, (incoming, peer_id, transfer_id, reservation, path), r),
    ensures
        final(incoming)@.contains_key(transfer_id@),
        final(incoming)@[transfer_id@].path == path@,
        final(incoming)@[transfer_id@].expected_size == reservation.expected_size,
        final(incoming)@[transfer_id@].received_size == 0,
        final(incoming)@[transfer_id@].file_name == reservation.file_name@,
        final(incoming)@[transfer_id@].peer_name == reservation.peer_name@,
        other != transfer_id@ ==> {
            &&& final(incoming)@.contains_key(other) <==> old(incoming)@.contains_key(other)
            &&& final(incoming)@[other] == old(incoming)@[other]
        },
        r.id@ == transfer_id@,
        r.peer_id@ == peer_id@,
        r.peer_name@ == reservation.peer_name@,
        r.label@ == reservation.file_name@,
        r.kind@ == "file"@,
        r.progress == 0,
        r.state@ == "receiving"@,
        r.error is None,
{
}

/// A chunk of a known transfer from a paired peer is written, as the very bytes that it
/// encodes, if the file then holds no more than was declared, and ends the transfer
/// otherwise: the partial file at its place is deleted. A chunk from anyone else, one
/// that is no base64, and one of an unknown transfer are refused. No other transfer is
/// touched.
pub proof fn law_receive_file_chunk(
    state: &PersistedState,
    incoming: &mut IncomingFiles,
    peer_id: &str,
    transfer_id: &str,
    data: &str,
    k: int,
    other: Seq<char>,
    decoded: Result<Vec<u8>, String>,
    r: ChunkPlan,
)
    requires
        call_ensures(receive_file_chunk, (state, incoming, peer_id, transfer_id, data), r),
        call_ensures(base64_decode, (data,), decoded),
    ensures
        is_unknown(state.peers@, peer_id@) ==> r is Refuse && r->Refuse_0@ == "Peer not found."@,
        is_first_of(state.peers@, peer_id@, k) && state.peers@[k].trust_state@ != "paired"@
            ==> r is Refuse && r->Refuse_0@ == state.peers@[k].name@ + " is not paired."@,
        is_first_of(state.peers@, peer_id@, k) && state.peers@[k].trust_state@ == "paired"@
            && decoded is Ok && !old(incoming)@.contains_key(transfer_id@) ==> r is Refuse
            && r->Refuse_0@ == "Received a chunk for an unknown transfer."@,
        decoded is Err || !old(incoming)@.contains_key(transfer_id@) ==> r is Refuse,
        is_first_of(state.peers@, peer_id@, k) && state.peers@[k].trust_state@ == "paired"@
            && old(incoming)@.contains_key(transfer_id@) && decoded is Ok ==> {
            let file = old(incoming)@[transfer_id@];
            if file.received_size + decoded->Ok_0@.len() <= file.expected_size {
                r is Write && r->Write_0@ == decoded->Ok_0@
            } else {
                r is Discard && r->path@ == file.path && r->complaint@
                    == "Incoming file exceeded its declared size."@
            }
        },
        final(incoming)@.contains_key(transfer_id@) <==> old(incoming)@.contains_key(transfer_id@)
            && !(r is Discard),
        other != transfer_id@ || !(r is Discard) ==> {
            &&& final(incoming)@.contains_key(other) <==> old(incoming)@.contains_key(other)
            &&& final(incoming)@[other] == old(incoming)@[other]
        },
{
    if is_first_of(state.peers@, peer_id@, k) {
        lemma_first_of(state.peers@, peer_id@, k);
    }
    if is_unknown(state.peers@, peer_id@) {
        lemma_unknown(state.peers@, peer_id@);
    }
}

/// Bytes written for a known transfer are added to what it has received, if it then
/// holds no more than was declared; nothing else about it changes, and no other
/// transfer. Otherwise nothing is counted.
pub proof fn law_chunk_written(
    incoming: &mut IncomingFiles,
    transfer_id: &str,
    len: usize,
    other: Seq<char>,
    r: Option<IncomingFile>,
)
    requires
        call_ensures(chunk_written, (incoming, transfer_id, len), r),
        within_limits(old(incoming)@),
    ensures
        r is Some <==> old(incoming)@.contains_key(transfer_id@)
            && old(incoming)@[transfer_id@].received_size + len
            <= old(incoming)@[transfer_id@].expected_size,
        r matches Some(file) ==> {
            let before = old(incoming)@[transfer_id@];
            &&& file.received_size == before.received_size + len
            &&& file.expected_size == before.expected_size
            &&& file.path@ == before.path
            &&& file.file_name@ == before.file_name
            &&& file.peer_name@ == before.peer_name
            &&& final(incoming)@.contains_key(transfer_id@)
            &&& final(incoming)@[transfer_id@] == file@
        },
        other != transfer_id@ || r is None ==> {
            &&& final(incoming)@.contains_key(other) <==> old(incoming)@.contains_key(other)
            &&& final(incoming)@[other] == old(incoming)@[other]
        },
{
}

/// The row of a file still coming in is its sender's, about that file, and shows
/// "receiving" at the progress given.
pub proof fn law_receiving_row(
    transfer_id: &str,
    peer_id: &str,
    file: &IncomingFile,
    progress: u8,
    r: TransferProgress,
)
    requires
        call_ensures(receiving_row, (transfer_id, peer_id, file, progress), r),
    ensures
        r.id@ == transfer_id@,
        r.peer_id@ == peer_id@,
        r.peer_name@ == file.peer_name@,
        r.label@ == file.file_name@,
        r.kind@ == "file"@,
        r.progress == progress,
        r.state@ == "receiving"@,
        r.error is None,
{
}

/// The end of a known transfer from a paired peer makes it unknown, and leaves one more
/// message, about a file received from that peer with its name, its declared size and
/// its place, and one finished row, both the last of their lists and both given back.
/// The file is opened only if the user asked for that and the last opening was at least
/// 1.2 s ago. Any other end marker is refused and changes nothing.
pub proof fn law_receive_file_end(
    state: &mut PersistedState,
    incoming: &mut IncomingFiles,
    last_auto_open: &mut i64,
    peer_id: &str,
    transfer_id: &str,
    now: i64,
    k: int,
    other: Seq<char>,
    r: AppResult<FinishedFile>,
)
    requires
        call_ensures(
            receive_file_end,
            (state, incoming, last_auto_open, peer_id, transfer_id, now),
            r,
        ),
    ensures
        is_first_of(old(state).peers@, peer_id@, k) ==> (r is Ok
            <==> old(state).peers@[k].trust_state@ == "paired"@ && old(incoming)@.contains_key(
            transfer_id@,
        )),
        is_unknown(old(state).peers@, peer_id@) ==> r is Err
            && r->Err_0@ == "Peer not found."@,
        is_first_of(old(state).peers@, peer_id@, k) && old(state).peers@[k].trust_state@
            != "paired"@ ==> r is Err && r->Err_0@ == old(state).peers@[k].name@ + " is not paired."@,
        is_first_of(old(state).peers@, peer_id@, k) && old(state).peers@[k].trust_state@
            == "paired"@ && r is Err ==> r->Err_0@
            == "Received an end marker for an unknown transfer."@,
        r matches Ok(done) ==> {
            let file = old(incoming)@[transfer_id@];
            &&& done.path@ == file.path
            &&& final(state)@.messages == old(state)@.messages.push(done.message@)
            &&& is_uuid_text(done.message.id@)
            &&& done.message.peer_id@ == peer_id@
            &&& done.message.direction@ == "received"@
            &&& done.message.kind@ == "file"@
            &&& done.message.text@ == file.file_name
            &&& done.message.file_name is Some && done.message.file_name->Some_0@
                == file.file_name
            &&& done.message.file_size == Some(file.expected_size)
            &&& done.message.file_path is Some && done.message.file_path->Some_0@ == file.path
            &&& done.message.url is None
            &&& final(state)@.transfers.len() > 0
            &&& final(state)@.transfers.last() == done.row@
            &&& final(state)@.transfers.is_suffix_of(old(state)@.transfers.push(done.row@))
            &&& old(state)@.transfers.len() < 200 ==> final(state)@.transfers
                == old(state)@.transfers.push(done.row@)
            &&& old(state)@.transfers.len() >= 200 ==> final(state)@.transfers.len() == 200
            &&& done.row.id@ == transfer_id@
            &&& done.row.peer_id@ == peer_id@
            &&& done.row.peer_name@ == file.peer_name
            &&& done.row.label@ == file.file_name
            &&& done.row.kind@ == "file"@
            &&& done.row.progress == 100
            &&& done.row.state@ == "complete"@
            &&& done.row.error is None
            &&& !final(incoming)@.contains_key(transfer_id@)
            &&& done.open ==> old(state).setup.auto_open && now - *old(last_auto_open) >= 1_200
            &&& *final(last_auto_open) == if old(state).setup.auto_open && now
                - *old(last_auto_open) >= 1_200 {
                now
            } else {
                *old(last_auto_open)
            }
        },
        r is Err ==> {
            &&& final(state)@ == old(state)@
            &&& *final(last_auto_open) == *old(last_auto_open)
        },
        other != transfer_id@ || r is Err ==> {
            &&& final(incoming)@.contains_key(other) <==> old(incoming)@.contains_key(other)
            &&& final(incoming)@[other] == old(incoming)@[other]
        },
        final(state)@.setup == old(state)@.setup,
        final(state)@.peers == old(state)@.peers,
{
    if is_first_of(old(state).peers@, peer_id@, k) {
        lemma_first_of(old(state).peers@, peer_id@, k);
    }
    if is_unknown(old(state).peers@, peer_id@) {
        lemma_unknown(old(state).peers@, peer_id@);
    }
    if let Ok(done) = r {
        let told = with_message(old(state)@, done.message@);
        law_history_is_capped(told, seq![done.row@]);
        let all = told.transfers + seq![done.row@];
        assert(all =~= old(state)@.transfers.push(done.row@));
        assert(all.last() == done.row@);
    }
}

/// A received file is opened exactly if the user asked for that, the last opening was at
/// least 1.2 s ago, and opening it unasked is safe, as `is_safe_to_auto_open` says of its
/// path, where Unix and Windows agree on the extension.
pub proof fn law_finished_file_is_opened_if_safe(
    state: &mut PersistedState,
    incoming: &mut IncomingFiles,
    last_auto_open: &mut i64,
    peer_id: &str,
    transfer_id: &str,
    now: i64,
    path: &str,
    safe: bool,
    r: AppResult<FinishedFile>,
)
    requires
        call_ensures(
            receive_file_end,
            (state, incoming, last_auto_open, peer_id, transfer_id, now),
            r,
        ),
        r is Ok,
        path@ == old(incoming)@[transfer_id@].path,
        !is_raw_path(path@),
        extension_in(unix_name(path@)) == extension_in(windows_name(path@)),
        call_ensures(is_safe_to_auto_open, (path,), safe),
    ensures
        r->Ok_0.open <==> old(state).setup.auto_open && now - *old(last_auto_open) >= 1_200
            && safe,
{
}

/// A cancel of a known transfer from a paired peer makes it unknown and gives the place
/// of the partial file, to be deleted, and a row that shows "cancelled". One of an
/// unknown transfer does nothing, and one from anyone else is refused.
pub proof fn law_receive_file_cancel(
    state: &PersistedState,
    incoming: &mut IncomingFiles,
    peer_id: &str,
    transfer_id: &str,
    k: int,
    other: Seq<char>,
    r: AppResult<Option<CancelledFile>>,
)
    requires
        call_ensures(receive_file_cancel, (state, incoming, peer_id, transfer_id), r),
    ensures
        is_first_of(state.peers@, peer_id@, k) ==> (r is Ok <==> state.peers@[k].trust_state@
            == "paired"@),
        is_unknown(state.peers@, peer_id@) ==> r is Err
            && r->Err_0@ == "Peer not found."@,
        is_first_of(state.peers@, peer_id@, k) && state.peers@[k].trust_state@
            != "paired"@ ==> r is Err && r->Err_0@ == state.peers@[k].name@ + " is not paired."@,
        r is Ok ==> (r->Ok_0 is Some <==> old(incoming)@.contains_key(transfer_id@)),
        r is Ok ==> !final(incoming)@.contains_key(transfer_id@),
        r matches Ok(Some(file)) ==> {
            &&& file.path@ == old(incoming)@[transfer_id@].path
            &&& file.row.id@ == transfer_id@
            &&& file.row.peer_id@ == peer_id@
            &&& file.row.peer_name@ == old(incoming)@[transfer_id@].peer_name
            &&& file.row.label@ == old(incoming)@[transfer_id@].file_name
            &&& file.row.kind@ == "file"@
            &&& file.row.progress == 0
            &&& file.row.state@ == "cancelled"@
            &&& file.row.error is None
        },
        other != transfer_id@ || r is Err ==> {
            &&& final(incoming)@.contains_key(other) <==> old(incoming)@.contains_key(other)
            &&& final(incoming)@[other] == old(incoming)@[other]
        },
{
    if is_first_of(state.peers@, peer_id@, k) {
        lemma_first_of(state.peers@, peer_id@, k);
    }
    if is_unknown(state.peers@, peer_id@) {
        lemma_unknown(state.peers@, peer_id@);
    }
}

/// At first no transfer is known; a known one is given as it is kept, and nothing is given
/// for one that is not known.
pub proof fn law_incoming_files(
    fresh: &IncomingFiles,
    transfer_id: &str,
    nothing: Option<IncomingFile>,
    files: &IncomingFiles,
    r: Option<IncomingFile>,
)
    requires
        call_ensures(IncomingFiles::new, (), *fresh),
        call_ensures(IncomingFiles::get, (fresh, transfer_id), nothing),
        call_ensures(IncomingFiles::get, (files, transfer_id), r),
    ensures
        nothing is None,
        r is Some <==> files@.contains_key(transfer_id@),
        r matches Some(file) ==> {
            &&& file.path@ == files@[transfer_id@].path
            &&& file.expected_size == files@[transfer_id@].expected_size
            &&& file.received_size == files@[transfer_id@].received_size
            &&& file.peer_name@ == files@[transfer_id@].peer_name
            &&& file.file_name@ == files@[transfer_id@].file_name
        },
{
}

} // verus!
