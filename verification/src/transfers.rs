//! The rows of the transfer list and the history kept of them.

use crate::chat::{
    freshly_stamped, link_message, make_link_message, record_chat_message, with_message, Outgoing,
    OutgoingView,
};
use crate::ids::{is_uuid_text, new_uuid};
use crate::links::{is_http, is_http_url};
use crate::model::{
    outcome, views, AppResult, ChatMessage, PeerDevice, PeerView, PersistedState, StateView,
    TransferProgress, TransferView, WireMessage, WireView, MAX_PERSISTED_TRANSFERS,
};
use crate::peers::{
    find_peer, get_peer, is_first_of, is_paired, is_unknown, lemma_first_of,
    lemma_known_or_unknown, lemma_peer_index, lemma_unknown, not_paired_text, paired, peer_index,
    peer_with_id,
};
use crate::text::opt_text;
use vstd::prelude::*;

verus! {

/// The id of the row of one peer in a transfer.
pub open spec fn row_id(transfer_id: Seq<char>, peer_id: Seq<char>) -> Seq<char> {
    transfer_id + ":"@ + peer_id
}

/// The row of one peer in the transfer of a file.
pub open spec fn file_row_view(
    id: Seq<char>,
    peer_id: Seq<char>,
    peer_name: Seq<char>,
    file_name: Seq<char>,
    progress: u8,
    state: Seq<char>,
    error: Option<Seq<char>>,
) -> TransferView {
    TransferView {
        id,
        peer_id,
        peer_name,
        label: file_name,
        kind: "file"@,
        progress,
        state,
        error,
    }
}

/// The id of the row of one peer in a transfer.
pub fn transfer_row_id(transfer_id: &str, peer_id: &str) -> (r: String)
    ensures
        r@ == row_id(transfer_id@, peer_id@),
{
    transfer_id.to_string().concat(":").concat(peer_id)
}

/// The row of one peer in an outgoing transfer.
pub fn peer_row(
    transfer_id: &str,
    peer_id: &str,
    peer_name: &str,
    file_name: &str,
    progress: u8,
    state_str: &str,
    error: Option<String>,
) -> (r: TransferProgress)
    ensures
        r@ == file_row_view(
            row_id(transfer_id@, peer_id@),
            peer_id@,
            peer_name@,
            file_name@,
            progress,
            state_str@,
            opt_text(error),
        ),
{
    TransferProgress {
        id: transfer_row_id(transfer_id, peer_id),
        peer_id: peer_id.to_string(),
        peer_name: peer_name.to_string(),
        label: file_name.to_string(),
        kind: "file".to_string(),
        progress,
        state: state_str.to_string(),
        error,
    }
}

/// The row of one peer in an outgoing transfer.
pub fn file_row(
    transfer_id: &str,
    peer: &PeerDevice,
    file_name: &str,
    progress: u8,
    state_str: &str,
    error: Option<String>,
) -> (r: TransferProgress)
    ensures
        r@ == file_row_view(
            row_id(transfer_id@, peer@.id),
            peer@.id,
            peer@.name,
            file_name@,
            progress,
            state_str@,
            opt_text(error),
        ),
{
    peer_row(
        transfer_id,
        peer.id.as_str(),
        peer.name.as_str(),
        file_name,
        progress,
        state_str,
        error,
    )
}

/// The row of an incoming transfer.
pub fn incoming_row(
    transfer_id: &str,
    peer_id: &str,
    peer_name: &str,
    file_name: &str,
    progress: u8,
    state_str: &str,
) -> (r: TransferProgress)
    ensures
        r@ == file_row_view(
            transfer_id@,
            peer_id@,
            peer_name@,
            file_name@,
            progress,
            state_str@,
            None,
        ),
{
    TransferProgress {
        id: transfer_id.to_string(),
        peer_id: peer_id.to_string(),
        peer_name: peer_name.to_string(),
        label: file_name.to_string(),
        kind: "file".to_string(),
        progress,
        state: state_str.to_string(),
        error: None,
    }
}

/// The last rows of a history, as many as are kept.
pub open spec fn trimmed_history(transfers: Seq<TransferView>) -> Seq<TransferView> {
    if transfers.len() > MAX_PERSISTED_TRANSFERS {
        transfers.skip(transfers.len() - MAX_PERSISTED_TRANSFERS)
    } else {
        transfers
    }
}

/// Drops the oldest rows once the history exceeds its cap.
pub fn trim_transfers(state: &mut PersistedState)
    ensures
        final(state)@ == (StateView {
            transfers: trimmed_history(old(state)@.transfers),
            ..old(state)@
        }),
{
    let len: usize = state.transfers.len();
    if len > MAX_PERSISTED_TRANSFERS {
        let ghost before = state@.transfers;
        let kept = state.transfers.split_off(len - MAX_PERSISTED_TRANSFERS);
        state.transfers = kept;
        proof {
            assert(state@.transfers =~= before.skip(len - MAX_PERSISTED_TRANSFERS));
        }
    }
}

/// The state after rows were added to the history.
pub open spec fn with_transfers(state: StateView, rows: Seq<TransferView>) -> StateView {
    StateView { transfers: trimmed_history(state.transfers + rows), ..state }
}

/// Adds a row to the history.
pub fn record_transfer(state: &mut PersistedState, row: TransferProgress)
    ensures
        final(state)@ == with_transfers(old(state)@, seq![row@]),
{
    let ghost before = state@.transfers;
    state.transfers.push(row);
    proof {
        assert(state@.transfers =~= before + seq![row@]);
    }
    trim_transfers(state);
}

/// Adds rows to the history.
pub fn record_transfers(state: &mut PersistedState, rows: &Vec<TransferProgress>)
    ensures
        final(state)@ == with_transfers(old(state)@, views(rows@)),
{
    let ghost before = state@;
    let mut i: usize = 0;
    proof {
        assert(before.transfers + views(rows@).take(0) =~= before.transfers);
    }
    while i < rows.len()
        invariant
            i <= rows@.len(),
            before == old(state)@,
            state@ == (StateView {
                transfers: before.transfers + views(rows@).take(i as int),
                ..before
            }),
        decreases rows@.len() - i,
    {
        let ghost current = state@.transfers;
        state.transfers.push(rows[i].clone());
        proof {
            assert(state@.transfers =~= current.push(rows@[i as int]@));
            assert(state@.transfers =~= before.transfers + views(rows@).take(i + 1));
        }
        i = i + 1;
    }
    proof {
        assert(views(rows@).take(i as int) =~= views(rows@));
    }
    trim_transfers(state);
}

/// Forgets the transfer history.
pub fn clear_transfers(state: &mut PersistedState)
    ensures
        final(state)@ == (StateView { transfers: Seq::empty(), ..old(state)@ }),
{
    state.transfers.clear();
    proof {
        assert(state@.transfers =~= Seq::empty());
    }
}

/// The paired peer of the given id.
pub open spec fn paired_target(peers: Seq<PeerView>, id: Seq<char>) -> Result<PeerView, Seq<char>> {
    let k = peer_index(peers, id);
    if k < 0 {
        Err("Peer not found: "@ + id)
    } else if is_paired(peers[k]) {
        Ok(peers[k])
    } else {
        Err(peers[k].name + " is not paired."@)
    }
}

/// The paired peers of the given ids, in order; the first id that has none is
/// the one complained of.
pub open spec fn paired_targets(peers: Seq<PeerView>, ids: Seq<Seq<char>>) -> Result<
    Seq<PeerView>,
    Seq<char>,
>
    decreases ids.len(),
{
    if ids.len() == 0 {
        Ok(Seq::empty())
    } else {
        match paired_targets(peers, ids.drop_last()) {
            Ok(found) => match paired_target(peers, ids.last()) {
                Ok(peer) => Ok(found.push(peer)),
                Err(complaint) => Err(complaint),
            },
            Err(complaint) => Err(complaint),
        }
    }
}

/// A finished row for one peer.
pub open spec fn finished_row(
    id: Seq<char>,
    peer: PeerView,
    label: Seq<char>,
    kind: Seq<char>,
) -> TransferView {
    TransferView {
        id,
        peer_id: peer.id,
        peer_name: peer.name,
        label,
        kind,
        progress: 100,
        state: "complete"@,
        error: None,
    }
}

/// Whether `rows` holds one finished row, with a fresh id, for each peer.
pub open spec fn rows_for(
    rows: Seq<TransferView>,
    targets: Seq<PeerView>,
    label: Seq<char>,
    kind: Seq<char>,
) -> bool {
    &&& rows.len() == targets.len()
    &&& forall|i: int|
        0 <= i < rows.len() ==> is_uuid_text((#[trigger] rows[i]).id) && rows[i] == finished_row(
            rows[i].id,
            targets[i],
            label,
            kind,
        )
}

proof fn lemma_targets_error_stays(peers: Seq<PeerView>, ids: Seq<Seq<char>>, n: int)
    requires
        0 <= n <= ids.len(),
        paired_targets(peers, ids.take(n)) is Err,
    ensures
        paired_targets(peers, ids) == paired_targets(peers, ids.take(n)),
    decreases ids.len() - n,
{
    if n < ids.len() {
        assert(ids.take(n + 1).drop_last() =~= ids.take(n));
        lemma_targets_error_stays(peers, ids, n + 1);
    } else {
        assert(ids.take(n) =~= ids);
    }
}

/// One finished row for each of the given peers, all of which must be paired.
pub fn make_transfers(
    state: &PersistedState,
    peer_ids: &[String],
    label: &str,
    kind: &str,
) -> (r: AppResult<Vec<TransferProgress>>)
    ensures
        match paired_targets(state@.peers, views(peer_ids@)) {
            Ok(targets) => r is Ok && rows_for(views(r->Ok_0@), targets, label@, kind@),
            Err(complaint) => r is Err && r->Err_0@ == complaint,
        },
{
    let ghost ids = views(peer_ids@);
    let mut rows: Vec<TransferProgress> = Vec::new();
    let mut i: usize = 0;
    proof {
        assert(ids.take(0) =~= Seq::empty());
    }
    while i < peer_ids.len()
        invariant
            i <= peer_ids@.len(),
            ids == views(peer_ids@),
            paired_targets(state@.peers, ids.take(i as int)) is Ok,
            rows_for(
                views(rows@),
                paired_targets(state@.peers, ids.take(i as int))->Ok_0,
                label@,
                kind@,
            ),
        decreases peer_ids@.len() - i,
    {
        proof {
            assert(ids.take(i + 1).drop_last() =~= ids.take(i as int));
            assert(ids.take(i + 1).last() == peer_ids@[i as int]@);
            lemma_peer_index(state@.peers, peer_ids@[i as int]@);
        }
        match find_peer(state.peers.as_slice(), peer_ids[i].as_str()) {
            None => {
                proof {
                    lemma_targets_error_stays(state@.peers, ids, i + 1);
                }
                return Err("Peer not found: ".to_string().concat(peer_ids[i].as_str()));
            },
            Some(k) => {
                if !paired(&state.peers[k]) {
                    proof {
                        lemma_targets_error_stays(state@.peers, ids, i + 1);
                    }
                    return Err(not_paired_text(state.peers[k].name.as_str()));
                }
                let ghost before = views(rows@);
                let row = TransferProgress {
                    id: new_uuid(),
                    peer_id: state.peers[k].id.clone(),
                    peer_name: state.peers[k].name.clone(),
                    label: label.to_string(),
                    kind: kind.to_string(),
                    progress: 100,
                    state: "complete".to_string(),
                    error: None,
                };
                let ghost added = row@;
                rows.push(row);
                proof {
                    assert(views(rows@) =~= before.push(added));
                }
            },
        }
        i = i + 1;
    }
    proof {
        assert(ids.take(i as int) =~= ids);
    }
    Ok(rows)
}

/// Prepares the sending of a link: one row for each target. Nothing is sent to
/// nobody, only http(s) links are shared, and every target must be paired.
pub fn send_link(state: &PersistedState, peer_ids: &[String], url: &str) -> (r: AppResult<
    Vec<TransferProgress>,
>)
    ensures
        if peer_ids@.len() == 0 {
            r is Ok && r->Ok_0@.len() == 0
        } else if !is_http(url@) {
            r is Err && r->Err_0@ == "Only http(s) links can be shared."@
        } else {
            match paired_targets(state@.peers, views(peer_ids@)) {
                Ok(targets) => r is Ok && rows_for(views(r->Ok_0@), targets, url@, "link"@),
                Err(complaint) => r is Err && r->Err_0@ == complaint,
            }
        },
{
    if peer_ids.len() == 0 {
        return Ok(Vec::new());
    }
    if !is_http_url(url) {
        return Err("Only http(s) links can be shared.".to_string());
    }
    make_transfers(state, peer_ids, url, "link")
}

/// Shows the row of a link that waits for its turn.
pub fn link_queued(row: &mut TransferProgress)
    ensures
        final(row)@ == (TransferView { progress: 0, state: "queued"@, ..old(row)@ }),
{
    row.progress = 0;
    row.state = "queued".to_string();
}

/// Shows the row of a link that is being sent.
pub fn link_sending(row: &mut TransferProgress)
    ensures
        final(row)@ == (TransferView { progress: 35, state: "sending"@, ..old(row)@ }),
{
    row.progress = 35;
    row.state = "sending".to_string();
}

/// What goes out for the row of a link: to the peer of the row, the link in this
/// device's name.
pub open spec fn outgoing_link(state: StateView, peer_id: Seq<char>, url: Seq<char>) -> Result<
    OutgoingView,
    Seq<char>,
> {
    match peer_with_id(state.peers, peer_id) {
        Ok(peer) => Ok(
            OutgoingView {
                peer,
                message: WireView::Link { peer_id: state.setup.device_id, url },
            },
        ),
        Err(complaint) => Err(complaint),
    }
}

/// Prepares the link of one row.
pub fn link_to_send(state: &PersistedState, row: &TransferProgress, url: &str) -> (r: AppResult<
    Outgoing,
>)
    ensures
        outcome(r) == outgoing_link(state@, row@.peer_id, url@),
{
    let peer = get_peer(state, row.peer_id.as_str())?;
    Ok(
        Outgoing {
            peer,
            message: WireMessage::Link {
                peer_id: state.setup.device_id.clone(),
                url: url.to_string(),
            },
        },
    )
}

/// Shows how the sending of a link ended. A link that went out is recorded as a
/// message sent to the peer of the row, which is given back.
pub fn link_done(
    state: &mut PersistedState,
    row: &mut TransferProgress,
    url: &str,
    sent: AppResult<()>,
) -> (r: Option<ChatMessage>)
    ensures
        match sent {
            Ok(_) => {
                &&& final(row)@ == TransferView {
                    progress: 100,
                    state: "complete"@,
                    error: None,
                    ..old(row)@
                }
                &&& r is Some
                &&& freshly_stamped(r->Some_0@)
                &&& r->Some_0@ == link_message(
                    r->Some_0@.id,
                    old(row)@.peer_id,
                    "sent"@,
                    url@,
                    r->Some_0@.created_at,
                )
                &&& final(state)@ == with_message(old(state)@, r->Some_0@)
            },
            Err(complaint) => {
                &&& final(row)@ == TransferView {
                    state: "failed"@,
                    error: Some(complaint@),
                    ..old(row)@
                }
                &&& r is None
                &&& final(state)@ == old(state)@
            },
        },
{
    match sent {
        Ok(_) => {
            row.progress = 100;
            row.state = "complete".to_string();
            row.error = None;
            let message = make_link_message(row.peer_id.clone(), "sent", url);
            let copy = message.clone();
            record_chat_message(state, message);
            Some(copy)
        },
        Err(complaint) => {
            row.state = "failed".to_string();
            row.error = Some(complaint);
            None
        },
    }
}

/// The history never exceeds its cap, and the newest rows are the ones kept.
pub proof fn law_history_is_capped(state: StateView, rows: Seq<TransferView>)
    ensures
        with_transfers(state, rows).transfers.len() <= MAX_PERSISTED_TRANSFERS,
        state.transfers.len() + rows.len() >= MAX_PERSISTED_TRANSFERS ==> with_transfers(
            state,
            rows,
        ).transfers.len() == MAX_PERSISTED_TRANSFERS,
        state.transfers.len() + rows.len() <= MAX_PERSISTED_TRANSFERS ==> with_transfers(
            state,
            rows,
        ).transfers == state.transfers + rows,
        with_transfers(state, rows).transfers.is_suffix_of(state.transfers + rows),
{
    let all = state.transfers + rows;
    let kept = with_transfers(state, rows).transfers;
    assert(all.subrange(all.len() - kept.len(), all.len() as int) =~= kept);
}

proof fn lemma_targets_are_the_peers(peers: Seq<PeerView>, ids: Seq<Seq<char>>)
    ensures
        match paired_targets(peers, ids) {
            Ok(targets) => targets.len() == ids.len() && forall|i: int|
                0 <= i < ids.len() ==> paired_target(peers, #[trigger] ids[i]) == Ok::<
                    PeerView,
                    Seq<char>,
                >(targets[i]),
            Err(complaint) => exists|i: int|
                0 <= i < ids.len() && paired_target(peers, #[trigger] ids[i]) == Err::<
                    PeerView,
                    Seq<char>,
                >(complaint) && forall|j: int|
                    0 <= j < i ==> paired_target(peers, #[trigger] ids[j]) is Ok,
        },
    decreases ids.len(),
{
    if ids.len() > 0 {
        let init = ids.drop_last();
        let last = ids.len() - 1;
        lemma_targets_are_the_peers(peers, init);
        assert(ids[last] == ids.last());
        assert forall|i: int| 0 <= i < last implies #[trigger] ids[i] == init[i] by {}
        match paired_targets(peers, init) {
            Ok(found) => {
                assert forall|i: int| 0 <= i < last implies paired_target(peers, #[trigger] ids[i])
                    == Ok::<PeerView, Seq<char>>(found[i]) by {
                    assert(init[i] == ids[i]);
                }
            },
            Err(complaint) => {
                let i = choose|i: int|
                    0 <= i < init.len() && paired_target(peers, #[trigger] init[i]) == Err::<
                        PeerView,
                        Seq<char>,
                    >(complaint) && forall|j: int|
                        0 <= j < i ==> paired_target(peers, #[trigger] init[j]) is Ok;
                assert(ids[i] == init[i]);
                assert forall|j: int| 0 <= j < i implies paired_target(
                    peers,
                    #[trigger] ids[j],
                ) is Ok by {
                    assert(init[j] == ids[j]);
                }
            },
        }
    }
}

/// Whether the first peer with the given id is in the state "paired".
pub open spec fn is_paired_id(peers: Seq<PeerDevice>, id: Seq<char>) -> bool {
    exists|k: int| is_first_of(peers, id, k) && (#[trigger] peers[k]).trust_state@ == "paired"@
}

proof fn lemma_paired_target(peers: Seq<PeerDevice>, id: Seq<char>)
    ensures
        paired_target(views(peers), id) is Ok <==> is_paired_id(peers, id),
        paired_target(views(peers), id) matches Ok(peer) ==> peer.id == id,
        forall|k: int|
            is_first_of(peers, id, k) ==> peer_index(views(peers), id) == k && (#[trigger] peers[k])@
                == views(peers)[k],
{
    let k = lemma_known_or_unknown(peers, id);
    if k >= 0 {
        assert(views(peers)[k] == peers[k]@);
    }
    assert forall|j: int| is_first_of(peers, id, j) implies peer_index(views(peers), id) == j && (
    #[trigger] peers[j])@ == views(peers)[j] by {
        lemma_first_of(peers, id, j);
    }
}

/// Rows are made exactly if every id names a paired peer, and then one for each id,
/// in order: the `i`th is for the peer of the `i`th id, under that id and that peer's
/// name, with the label and kind given, finished and without an error.
pub proof fn law_make_transfers(
    state: &PersistedState,
    peer_ids: &[String],
    label: &str,
    kind: &str,
    r: AppResult<Vec<TransferProgress>>,
)
    requires
        call_ensures(make_transfers, (state, peer_ids, label, kind), r),
    ensures
        r is Ok <==> forall|i: int|
            0 <= i < peer_ids@.len() ==> is_paired_id(state.peers@, #[trigger] peer_ids@[i]@),
        r matches Ok(rows) ==> {
            &&& rows@.len() == peer_ids@.len()
            &&& forall|i: int|
                0 <= i < rows@.len() ==> {
                    let row = #[trigger] rows@[i];
                    &&& row.peer_id@ == peer_ids@[i]@
                    &&& row.label@ == label@
                    &&& row.kind@ == kind@
                    &&& row.progress == 100
                    &&& row.state@ == "complete"@
                    &&& row.error is None
                    &&& is_uuid_text(row.id@)
                }
            &&& forall|i: int, k: int|
                0 <= i < rows@.len() && is_first_of(state.peers@, peer_ids@[i]@, k) ==> (
                #[trigger] rows@[i]).peer_name@ == (#[trigger] state.peers@[k]).name@
        },
{
    let ids = views(peer_ids@);
    lemma_targets_are_the_peers(state@.peers, ids);
    match r {
        Ok(rows) => {
            let targets = paired_targets(state@.peers, ids)->Ok_0;
            assert forall|i: int| 0 <= i < rows@.len() implies {
                let row = #[trigger] rows@[i];
                &&& row.peer_id@ == peer_ids@[i]@
                &&& row.label@ == label@
                &&& row.kind@ == kind@
                &&& row.progress == 100
                &&& row.state@ == "complete"@
                &&& row.error is None
                &&& is_uuid_text(row.id@)
            } by {
                assert(views(rows@)[i] == rows@[i]@);
                assert(ids[i] == peer_ids@[i]@);
                lemma_paired_target(state.peers@, peer_ids@[i]@);
            }
            assert forall|i: int, k: int|
                0 <= i < rows@.len() && is_first_of(state.peers@, peer_ids@[i]@, k) implies (
            #[trigger] rows@[i]).peer_name@ == (#[trigger] state.peers@[k]).name@ by {
                assert(views(rows@)[i] == rows@[i]@);
                assert(ids[i] == peer_ids@[i]@);
                lemma_paired_target(state.peers@, peer_ids@[i]@);
            }
            assert forall|i: int| 0 <= i < peer_ids@.len() implies is_paired_id(
                state.peers@,
                #[trigger] peer_ids@[i]@,
            ) by {
                assert(ids[i] == peer_ids@[i]@);
                lemma_paired_target(state.peers@, peer_ids@[i]@);
            }
        },
        Err(complaint) => {
            let i = choose|i: int|
                0 <= i < ids.len() && paired_target(state@.peers, #[trigger] ids[i]) is Err;
            assert(ids[i] == peer_ids@[i]@);
            lemma_paired_target(state.peers@, peer_ids@[i]@);
        },
    }
}

/// A link is shared with exactly the peers named: a share with nobody gives no row,
/// anything but http(s) is refused, and otherwise there is one row for each id, in
/// order, under that id and with the name of its peer, exactly if every id names a
/// paired peer.
pub proof fn law_send_link(
    state: &PersistedState,
    peer_ids: &[String],
    url: &str,
    http: bool,
    r: AppResult<Vec<TransferProgress>>,
)
    requires
        call_ensures(send_link, (state, peer_ids, url), r),
        call_ensures(is_http_url, (url,), http),
    ensures
        peer_ids@.len() == 0 ==> r is Ok,
        peer_ids@.len() > 0 ==> (r is Ok <==> http && forall|i: int|
            0 <= i < peer_ids@.len() ==> is_paired_id(state.peers@, #[trigger] peer_ids@[i]@)),
        peer_ids@.len() > 0 && !http ==> r is Err && r->Err_0@
            == "Only http(s) links can be shared."@,
        r matches Ok(rows) ==> {
            &&& rows@.len() == peer_ids@.len()
            &&& forall|i: int|
                0 <= i < rows@.len() ==> {
                    let row = #[trigger] rows@[i];
                    &&& row.peer_id@ == peer_ids@[i]@
                    &&& row.label@ == url@
                    &&& row.kind@ == "link"@
                    &&& row.progress == 100
                    &&& row.state@ == "complete"@
                    &&& row.error is None
                    &&& is_uuid_text(row.id@)
                }
            &&& forall|i: int, k: int|
                0 <= i < rows@.len() && is_first_of(state.peers@, peer_ids@[i]@, k) ==> (
                #[trigger] rows@[i]).peer_name@ == (#[trigger] state.peers@[k]).name@
        },
{
    let ids = views(peer_ids@);
    lemma_targets_are_the_peers(state@.peers, ids);
    if peer_ids@.len() > 0 && http {
        match r {
            Ok(rows) => {
                assert forall|i: int| 0 <= i < rows@.len() implies {
                    let row = #[trigger] rows@[i];
                    &&& row.peer_id@ == peer_ids@[i]@
                    &&& row.label@ == url@
                    &&& row.kind@ == "link"@
                    &&& row.progress == 100
                    &&& row.state@ == "complete"@
                    &&& row.error is None
                    &&& is_uuid_text(row.id@)
                } by {
                    assert(views(rows@)[i] == rows@[i]@);
                    assert(ids[i] == peer_ids@[i]@);
                    lemma_paired_target(state.peers@, peer_ids@[i]@);
                }
                assert forall|i: int, k: int|
                    0 <= i < rows@.len() && is_first_of(state.peers@, peer_ids@[i]@, k) implies (
                #[trigger] rows@[i]).peer_name@ == (#[trigger] state.peers@[k]).name@ by {
                    assert(views(rows@)[i] == rows@[i]@);
                    assert(ids[i] == peer_ids@[i]@);
                    lemma_paired_target(state.peers@, peer_ids@[i]@);
                }
                assert forall|i: int| 0 <= i < peer_ids@.len() implies is_paired_id(
                    state.peers@,
                    #[trigger] peer_ids@[i]@,
                ) by {
                    assert(ids[i] == peer_ids@[i]@);
                    lemma_paired_target(state.peers@, peer_ids@[i]@);
                }
            },
            Err(complaint) => {
                let i = choose|i: int|
                    0 <= i < ids.len() && paired_target(state@.peers, #[trigger] ids[i]) is Err;
                assert(ids[i] == peer_ids@[i]@);
                lemma_paired_target(state.peers@, peer_ids@[i]@);
            },
        }
    }
}

/// The link of a row goes to the peer of that row, as it was given, in this device's
/// name.
pub proof fn law_link_to_send(
    state: &PersistedState,
    row: &TransferProgress,
    url: &str,
    k: int,
    r: AppResult<Outgoing>,
)
    requires
        call_ensures(link_to_send, (state, row, url), r),
    ensures
        is_first_of(state.peers@, row.peer_id@, k) ==> {
            &&& r is Ok
            &&& r->Ok_0.peer@ == state.peers@[k]@
            &&& r->Ok_0.message is Link
            &&& r->Ok_0.message->Link_peer_id@ == state.setup.device_id@
            &&& r->Ok_0.message->url@ == url@
        },
        is_unknown(state.peers@, row.peer_id@) ==> r is Err && r->Err_0@ == "Peer not found."@,
{
    if is_first_of(state.peers@, row.peer_id@, k) {
        lemma_first_of(state.peers@, row.peer_id@, k);
    }
    if is_unknown(state.peers@, row.peer_id@) {
        lemma_unknown(state.peers@, row.peer_id@);
    }
}

/// Whether a row changed in nothing but what it shows of its progress.
pub open spec fn is_same_row(before: TransferProgress, after: TransferProgress) -> bool {
    &&& after.id@ == before.id@
    &&& after.peer_id@ == before.peer_id@
    &&& after.peer_name@ == before.peer_name@
    &&& after.label@ == before.label@
    &&& after.kind@ == before.kind@
}

/// A link that waits shows "queued" at 0 percent, and its row is otherwise the same.
pub proof fn law_link_queued(row: &mut TransferProgress)
    requires
        call_ensures(link_queued, (row,), ()),
    ensures
        is_same_row(*old(row), *final(row)),
        final(row).progress == 0,
        final(row).state@ == "queued"@,
        opt_text(final(row).error) == opt_text(old(row).error),
{
}

/// A link on its way shows "sending" at 35 percent, and its row is otherwise the same.
pub proof fn law_link_sending(row: &mut TransferProgress)
    requires
        call_ensures(link_sending, (row,), ()),
    ensures
        is_same_row(*old(row), *final(row)),
        final(row).progress == 35,
        final(row).state@ == "sending"@,
        opt_text(final(row).error) == opt_text(old(row).error),
{
}

/// A link that went out shows "complete" at 100 percent and is recorded, at the end of
/// the history, as a link sent to the peer of its row. One that did not shows "failed"
/// with the reason and leaves no message.
pub proof fn law_link_done(
    state: &mut PersistedState,
    row: &mut TransferProgress,
    url: &str,
    sent: AppResult<()>,
    r: Option<ChatMessage>,
)
    requires
        call_ensures(link_done, (state, row, url, sent), r),
    ensures
        is_same_row(*old(row), *final(row)),
        r is Some <==> sent is Ok,
        sent is Ok ==> {
            &&& final(row).progress == 100
            &&& final(row).state@ == "complete"@
            &&& final(row).error is None
            &&& final(state)@.messages == old(state)@.messages.push(r->Some_0@)
            &&& is_uuid_text(r->Some_0.id@)
            &&& r->Some_0.peer_id@ == old(row).peer_id@
            &&& r->Some_0.direction@ == "sent"@
            &&& r->Some_0.kind@ == "link"@
            &&& r->Some_0.text@ == url@
            &&& r->Some_0.url is Some && r->Some_0.url->Some_0@ == url@
            &&& r->Some_0.file_name is None && r->Some_0.file_size is None
            &&& r->Some_0.file_path is None
        },
        sent matches Err(complaint) ==> {
            &&& final(row).progress == old(row).progress
            &&& final(row).state@ == "failed"@
            &&& final(row).error is Some && final(row).error->Some_0@ == complaint@
            &&& final(state)@.messages == old(state)@.messages
        },
        final(state)@.setup == old(state)@.setup,
        final(state)@.peers == old(state)@.peers,
        final(state)@.transfers == old(state)@.transfers,
{
}

/// The id of a peer's row joins the transfer's id and the peer's with a colon.
pub proof fn law_transfer_row_id(transfer_id: &str, peer_id: &str, r: String)
    requires
        call_ensures(transfer_row_id, (transfer_id, peer_id), r),
    ensures
        r@ == transfer_id@.push(':') + peer_id@,
{
    reveal_strlit(":");
    assert(transfer_id@ + ":"@ =~= transfer_id@.push(':'));
}

/// The row of a peer in an outgoing transfer is that peer's, about that file, and
/// shows what it is told to show.
pub proof fn law_peer_row(
    transfer_id: &str,
    peer_id: &str,
    peer_name: &str,
    file_name: &str,
    progress: u8,
    state_str: &str,
    error: Option<String>,
    r: TransferProgress,
)
    requires
        call_ensures(
            peer_row,
            (transfer_id, peer_id, peer_name, file_name, progress, state_str, error),
            r,
        ),
    ensures
        r.id@ == transfer_id@.push(':') + peer_id@,
        r.peer_id@ == peer_id@,
        r.peer_name@ == peer_name@,
        r.label@ == file_name@,
        r.kind@ == "file"@,
        r.progress == progress,
        r.state@ == state_str@,
        opt_text(r.error) == opt_text(error),
{
    reveal_strlit(":");
    assert(transfer_id@ + ":"@ =~= transfer_id@.push(':'));
}

/// The row of a peer in an outgoing transfer is that peer's, about that file, and
/// shows what it is told to show.
pub proof fn law_file_row(
    transfer_id: &str,
    peer: &PeerDevice,
    file_name: &str,
    progress: u8,
    state_str: &str,
    error: Option<String>,
    r: TransferProgress,
)
    requires
        call_ensures(file_row, (transfer_id, peer, file_name, progress, state_str, error), r),
    ensures
        r.id@ == transfer_id@.push(':') + peer.id@,
        r.peer_id@ == peer.id@,
        r.peer_name@ == peer.name@,
        r.label@ == file_name@,
        r.kind@ == "file"@,
        r.progress == progress,
        r.state@ == state_str@,
        opt_text(r.error) == opt_text(error),
{
    reveal_strlit(":");
    assert(transfer_id@ + ":"@ =~= transfer_id@.push(':'));
}

/// The row of an incoming transfer is its sender's, about that file, and shows what it
/// is told to show.
pub proof fn law_incoming_row(
    transfer_id: &str,
    peer_id: &str,
    peer_name: &str,
    file_name: &str,
    progress: u8,
    state_str: &str,
    r: TransferProgress,
)
    requires
        call_ensures(
            incoming_row,
            (transfer_id, peer_id, peer_name, file_name, progress, state_str),
            r,
        ),
    ensures
        r.id@ == transfer_id@,
        r.peer_id@ == peer_id@,
        r.peer_name@ == peer_name@,
        r.label@ == file_name@,
        r.kind@ == "file"@,
        r.progress == progress,
        r.state@ == state_str@,
        r.error is None,
{
}

/// Trimming the history keeps its last 200 rows, in order, and all of them where there
/// are no more; nothing else changes.
pub proof fn law_trim_transfers(state: &mut PersistedState)
    requires
        call_ensures(trim_transfers, (state,), ()),
    ensures
        final(state)@.transfers.len() == if old(state)@.transfers.len() > 200 {
            200
        } else {
            old(state)@.transfers.len()
        },
        forall|i: int|
            0 <= i < final(state)@.transfers.len() ==> #[trigger] final(state)@.transfers[i]
                == old(state)@.transfers[old(state)@.transfers.len()
                - final(state)@.transfers.len() + i],
        final(state)@.setup == old(state)@.setup,
        final(state)@.peers == old(state)@.peers,
        final(state)@.messages == old(state)@.messages,
{
}

/// Recording a row puts it last in the history, of which at most 200 rows stay.
pub proof fn law_record_transfer(state: &mut PersistedState, row: TransferProgress)
    requires
        call_ensures(record_transfer, (state, row), ()),
    ensures
        final(state)@.transfers.len() == if old(state)@.transfers.len() >= 200 {
            200
        } else {
            old(state)@.transfers.len() + 1
        },
        final(state)@.transfers.last() == row@,
        forall|i: int|
            0 <= i < final(state)@.transfers.len() - 1 ==> #[trigger] final(state)@.transfers[i]
                == old(state)@.transfers[old(state)@.transfers.len() + 1
                - final(state)@.transfers.len() + i],
        final(state)@.setup == old(state)@.setup,
        final(state)@.peers == old(state)@.peers,
        final(state)@.messages == old(state)@.messages,
{
}

/// Recording rows puts them last in the history, in order; at most 200 rows stay, the
/// newest.
pub proof fn law_record_transfers(state: &mut PersistedState, rows: &Vec<TransferProgress>)
    requires
        call_ensures(record_transfers, (state, rows), ()),
    ensures
        final(state)@.transfers.len() == if old(state)@.transfers.len() + rows@.len() > 200 {
            200
        } else {
            (old(state)@.transfers.len() + rows@.len()) as int
        },
        forall|i: int|
            0 <= i < final(state)@.transfers.len() ==> #[trigger] final(state)@.transfers[i] == (
            old(state)@.transfers + views(rows@))[old(state)@.transfers.len() + rows@.len()
                - final(state)@.transfers.len() + i],
        final(state)@.setup == old(state)@.setup,
        final(state)@.peers == old(state)@.peers,
        final(state)@.messages == old(state)@.messages,
{
}

/// After `clear_transfers` the history is empty, and nothing else changed.
pub proof fn law_clear_transfers(state: &mut PersistedState)
    requires
        call_ensures(clear_transfers, (state,), ()),
    ensures
        final(state)@.transfers.len() == 0,
        final(state)@.setup == old(state)@.setup,
        final(state)@.peers == old(state)@.peers,
        final(state)@.messages == old(state)@.messages,
{
}

/// Where rows are refused, the first id that names no paired peer is the one complained
/// of: as unknown, or as a peer, by its name, that is not paired.
pub proof fn law_first_bad_id_is_complained_of(
    state: &PersistedState,
    peer_ids: &[String],
    label: &str,
    kind: &str,
    r: AppResult<Vec<TransferProgress>>,
)
    requires
        call_ensures(make_transfers, (state, peer_ids, label, kind), r),
        r is Err,
    ensures
        exists|i: int|
            {
                let id = #[trigger] peer_ids@[i]@;
                &&& 0 <= i < peer_ids@.len()
                &&& forall|j: int|
                    0 <= j < i ==> is_paired_id(state.peers@, #[trigger] peer_ids@[j]@)
                &&& is_unknown(state.peers@, id) ==> r->Err_0@ == "Peer not found: "@ + id
                &&& forall|k: int|
                    is_first_of(state.peers@, id, k) ==> (#[trigger] state.peers@[k]).trust_state@
                        != "paired"@ && r->Err_0@ == state.peers@[k].name@ + " is not paired."@
            },
{
    let ids = views(peer_ids@);
    let complaint = r->Err_0@;
    lemma_targets_are_the_peers(state@.peers, ids);
    let i = choose|i: int|
        0 <= i < ids.len() && paired_target(state@.peers, #[trigger] ids[i]) == Err::<
            PeerView,
            Seq<char>,
        >(complaint) && forall|j: int|
            0 <= j < i ==> paired_target(state@.peers, #[trigger] ids[j]) is Ok;
    let id = peer_ids@[i]@;
    assert(ids[i] == id);
    let found = lemma_known_or_unknown(state.peers@, id);
    assert forall|j: int| 0 <= j < i implies is_paired_id(
        state.peers@,
        #[trigger] peer_ids@[j]@,
    ) by {
        assert(ids[j] == peer_ids@[j]@);
        lemma_paired_target(state.peers@, peer_ids@[j]@);
    }
    assert forall|k: int| is_first_of(state.peers@, id, k) implies (
    #[trigger] state.peers@[k]).trust_state@ != "paired"@ && r->Err_0@ == state.peers@[k].name@
        + " is not paired."@ by {
        lemma_first_of(state.peers@, id, k);
    }
    if is_unknown(state.peers@, id) {
        lemma_unknown(state.peers@, id);
    }
}

} // verus!
