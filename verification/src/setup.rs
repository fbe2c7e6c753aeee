//! This computer's own settings.

use crate::chat::{Outgoing, OutgoingView};
use crate::ids::{is_uuid_text, new_uuid};
use crate::keys::{decoded_secret, derive_public_key, derived_public_key, new_identity_secret};
use crate::model::{
    default_theme, views, AppResult, PeerDevice, PeerView, PersistedState, ResponseView,
    SetupResponse, SetupState, SetupView, StateView, WireMessage, WireView, MAX_AVATAR_LEN,
};
use crate::peers::{is_paired, paired};
use crate::roster::{lemma_filter_keeps, lemma_filter_subset, paired_peers};
use crate::text::{
    byte_len, clone_opt, is_blank, law_trimmed_empty_iff_blank, opt_text, same_text, trim, trimmed,
    utf8_len,
};
use vstd::prelude::*;

verus! {

/// The state of a device that was never set up: a fresh identity, and nothing
/// else.
pub open spec fn is_fresh(state: StateView) -> bool {
    &&& state.setup == (SetupView {
        configured: false,
        device_id: state.setup.device_id,
        identity_secret: state.setup.identity_secret,
        device_name: Seq::empty(),
        start_at_login: true,
        avatar: None,
        floating_icon: false,
        auto_open: false,
        theme: "light"@,
        widget_x: None,
        widget_y: None,
    })
    &&& is_uuid_text(state.setup.device_id)
    &&& decoded_secret(state.setup.identity_secret) is Ok
    &&& state.peers.len() == 0
    &&& state.messages.len() == 0
    &&& state.transfers.len() == 0
}

impl Default for PersistedState {
    fn default() -> (r: Self)
        ensures
            is_fresh(r@),
    {
        proof {
            reveal_strlit("");
            assert(""@ =~= Seq::empty());
        }
        PersistedState {
            setup: SetupState {
                configured: false,
                device_id: new_uuid(),
                identity_secret: new_identity_secret(),
                device_name: "".to_string(),
                start_at_login: true,
                avatar: None,
                floating_icon: false,
                auto_open: false,
                theme: default_theme(),
                widget_x: None,
                widget_y: None,
            },
            peers: Vec::new(),
            messages: Vec::new(),
            transfers: Vec::new(),
        }
    }
}

/// What the user interface may see of the settings: all but the identity secret
/// and the icon's position, and the public key in place of the secret.
pub open spec fn response_of(setup: SetupView) -> ResponseView {
    ResponseView {
        configured: setup.configured,
        device_id: setup.device_id,
        device_name: setup.device_name,
        start_at_login: setup.start_at_login,
        avatar: setup.avatar,
        floating_icon: setup.floating_icon,
        auto_open: setup.auto_open,
        theme: setup.theme,
        public_key: match derived_public_key(setup.identity_secret) {
            Ok(key) => Some(key),
            Err(_) => None,
        },
    }
}

/// What the user interface may see of the settings.
pub fn setup_response(setup: &SetupState) -> (r: SetupResponse)
    ensures
        r@ == response_of(setup@),
{
    let public_key = match derive_public_key(setup.identity_secret.as_str()) {
        Ok(key) => Some(key),
        Err(_) => None,
    };
    SetupResponse {
        configured: setup.configured,
        device_id: setup.device_id.clone(),
        device_name: setup.device_name.clone(),
        start_at_login: setup.start_at_login,
        avatar: clone_opt(&setup.avatar),
        floating_icon: setup.floating_icon,
        auto_open: setup.auto_open,
        theme: setup.theme.clone(),
        public_key,
    }
}

/// What the user interface may see of the settings.
pub fn get_setup_state(state: &PersistedState) -> (r: SetupResponse)
    ensures
        r@ == response_of(state@.setup),
{
    setup_response(&state.setup)
}

/// This device's id.
pub fn existing_device_id(state: &PersistedState) -> (r: String)
    ensures
        r@ == state@.setup.device_id,
{
    state.setup.device_id.clone()
}

/// This device's identity secret.
pub fn existing_identity_secret(state: &PersistedState) -> (r: String)
    ensures
        r@ == state@.setup.identity_secret,
{
    state.setup.identity_secret.clone()
}

/// Whether received files and links are to be opened as they arrive.
pub fn auto_open_enabled(state: &PersistedState) -> (r: bool)
    ensures
        r == state@.setup.auto_open,
{
    state.setup.auto_open
}

/// The settings after the device was named.
pub open spec fn named_setup(setup: SetupView, name: Seq<char>, start_at_login: bool) -> SetupView {
    SetupView { configured: true, device_name: trimmed(name), start_at_login, ..setup }
}

/// Names the device and chooses whether it starts at login. Its identity and
/// everything else chosen before stay as they are; a blank name is refused.
pub fn save_setup(state: &mut PersistedState, device_name: &str, start_at_login: bool) -> (r:
    AppResult<SetupResponse>)
    ensures
        if is_blank(device_name@) {
            &&& r is Err && r->Err_0@ == "Device name is required."@
            &&& final(state)@ == old(state)@
        } else {
            &&& final(state)@ == StateView {
                setup: named_setup(old(state)@.setup, device_name@, start_at_login),
                ..old(state)@
            }
            &&& r is Ok && r->Ok_0@ == response_of(final(state)@.setup)
        },
{
    let cleaned = trim(device_name);
    proof {
        law_trimmed_empty_iff_blank(device_name@);
    }
    if cleaned.is_empty() {
        return Err("Device name is required.".to_string());
    }
    state.setup.configured = true;
    state.setup.device_name = cleaned.to_string();
    state.setup.start_at_login = start_at_login;
    Ok(setup_response(&state.setup))
}

/// A copy of the list of known devices.
pub fn list_peers(state: &PersistedState) -> (r: Vec<PeerDevice>)
    ensures
        views(r@) == state@.peers,
{
    let ghost all = state@.peers;
    let mut copies: Vec<PeerDevice> = Vec::new();
    let mut i: usize = 0;
    while i < state.peers.len()
        invariant
            i <= state.peers@.len(),
            all == state@.peers,
            views(copies@) == all.take(i as int),
        decreases state.peers@.len() - i,
    {
        let ghost before = views(copies@);
        copies.push(state.peers[i].clone());
        proof {
            assert(views(copies@) =~= before.push(all[i as int]));
        }
        i = i + 1;
    }
    proof {
        assert(all.take(i as int) =~= all);
    }
    copies
}

/// A new avatar: what the user interface sees, and what goes out to the paired
/// peers.
#[derive(Debug)]
pub struct AvatarChange {
    pub response: SetupResponse,
    pub sends: Vec<Outgoing>,
}

/// The message that tells a peer of this device's avatar.
pub open spec fn profile_send(setup: SetupView, peer: PeerView) -> OutgoingView {
    OutgoingView {
        peer,
        message: WireView::Profile { peer_id: setup.device_id, avatar: setup.avatar },
    }
}

/// The messages that tell the paired peers of this device's avatar.
pub open spec fn profile_sends(setup: SetupView, peers: Seq<PeerView>) -> Seq<OutgoingView> {
    paired_peers(peers).map_values(|peer: PeerView| profile_send(setup, peer))
}

fn profiles_for_paired(state: &PersistedState) -> (r: Vec<Outgoing>)
    ensures
        views(r@) == profile_sends(state@.setup, state@.peers),
{
    let ghost all = state@.peers;
    let ghost setup = state@.setup;
    let mut sends: Vec<Outgoing> = Vec::new();
    let mut i: usize = 0;
    proof {
        reveal(Seq::filter);
        assert(views(sends@) =~= profile_sends(setup, all.take(0)));
    }
    while i < state.peers.len()
        invariant
            i <= state.peers@.len(),
            all == state@.peers,
            setup == state@.setup,
            views(sends@) == profile_sends(setup, all.take(i as int)),
        decreases state.peers@.len() - i,
    {
        let ghost before = views(sends@);
        proof {
            reveal(Seq::filter);
            let next = all.take(i + 1);
            assert(next.drop_last() =~= all.take(i as int));
            assert(next.last() == all[i as int]);
        }
        if paired(&state.peers[i]) {
            let send = Outgoing {
                peer: state.peers[i].clone(),
                message: WireMessage::Profile {
                    peer_id: state.setup.device_id.clone(),
                    avatar: clone_opt(&state.setup.avatar),
                },
            };
            let ghost added = send@;
            sends.push(send);
            proof {
                assert(views(sends@) =~= before.push(added));
                assert(views(sends@) =~= profile_sends(setup, all.take(i + 1)));
            }
        }
        i = i + 1;
    }
    proof {
        assert(all.take(i as int) =~= all);
    }
    sends
}

/// Chooses an avatar, or none, and tells the paired peers. One that is too large
/// is refused.
pub fn set_avatar(state: &mut PersistedState, avatar: Option<String>) -> (r: AppResult<AvatarChange>)
    ensures
        if opt_text(avatar) is Some && utf8_len(opt_text(avatar)->Some_0) > MAX_AVATAR_LEN {
            &&& r is Err && r->Err_0@ == "That image is too large."@
            &&& final(state)@ == old(state)@
        } else {
            &&& final(state)@ == StateView {
                setup: SetupView { avatar: opt_text(avatar), ..old(state)@.setup },
                ..old(state)@
            }
            &&& r is Ok
            &&& r->Ok_0.response@ == response_of(final(state)@.setup)
            &&& views(r->Ok_0.sends@) == profile_sends(final(state)@.setup, old(state)@.peers)
        },
{
    if let Some(value) = &avatar {
        if byte_len(value.as_str()) > MAX_AVATAR_LEN {
            return Err("That image is too large.".to_string());
        }
    }
    state.setup.avatar = avatar;
    let response = setup_response(&state.setup);
    let sends = profiles_for_paired(state);
    Ok(AvatarChange { response, sends })
}

/// Shows or hides the floating icon.
pub fn set_floating_icon(state: &mut PersistedState, enabled: bool) -> (r: SetupResponse)
    ensures
        final(state)@ == (StateView {
            setup: SetupView { floating_icon: enabled, ..old(state)@.setup },
            ..old(state)@
        }),
        r@ == response_of(final(state)@.setup),
{
    state.setup.floating_icon = enabled;
    setup_response(&state.setup)
}

/// Chooses whether received files and links are opened as they arrive.
pub fn set_auto_open(state: &mut PersistedState, enabled: bool) -> (r: SetupResponse)
    ensures
        final(state)@ == (StateView {
            setup: SetupView { auto_open: enabled, ..old(state)@.setup },
            ..old(state)@
        }),
        r@ == response_of(final(state)@.setup),
{
    state.setup.auto_open = enabled;
    setup_response(&state.setup)
}

/// Chooses the theme. Anything but "dark" is taken for "light".
pub fn set_theme(state: &mut PersistedState, theme: &str) -> (r: SetupResponse)
    ensures
        final(state)@ == (StateView {
            setup: SetupView {
                theme: if theme@ == "dark"@ {
                    "dark"@
                } else {
                    "light"@
                },
                ..old(state)@.setup
            },
            ..old(state)@
        }),
        r@ == response_of(final(state)@.setup),
{
    if same_text(theme, "dark") {
        state.setup.theme = "dark".to_string();
    } else {
        state.setup.theme = "light".to_string();
    }
    setup_response(&state.setup)
}

/// Remembers where the floating icon was dragged to, given as the bits of two
/// IEEE doubles. While the icon is expanded its moves are not the user's, and are
/// not remembered. Returns whether it was.
pub fn save_widget_position(state: &mut PersistedState, expanded: bool, x: u64, y: u64) -> (r: bool)
    ensures
        r == !expanded,
        final(state)@ == if expanded {
            old(state)@
        } else {
            StateView {
                setup: SetupView { widget_x: Some(x), widget_y: Some(y), ..old(state)@.setup },
                ..old(state)@
            }
        },
{
    if expanded {
        return false;
    }
    state.setup.widget_x = Some(x);
    state.setup.widget_y = Some(y);
    true
}

/// Naming the device again keeps its identity, so that no pairing is lost.
pub proof fn law_naming_keeps_the_identity(setup: SetupView, name: Seq<char>, start_at_login: bool)
    ensures
        named_setup(setup, name, start_at_login).device_id == setup.device_id,
        named_setup(setup, name, start_at_login).identity_secret == setup.identity_secret,
        response_of(named_setup(setup, name, start_at_login)).public_key == response_of(
            setup,
        ).public_key,
{
}

/// A device that was never set up has a fresh id and a usable identity, knows nobody,
/// holds no message and no row, opens nothing unasked and shows no icon.
pub proof fn law_default_state(r: PersistedState)
    requires
        call_ensures(<PersistedState as Default>::default, (), r),
    ensures
        is_uuid_text(r.setup.device_id@),
        decoded_secret(r.setup.identity_secret@) is Ok,
        !r.setup.configured,
        r.setup.device_name@.len() == 0,
        r.setup.start_at_login,
        r.setup.avatar is None,
        !r.setup.floating_icon,
        !r.setup.auto_open,
        r.setup.theme@ == "light"@,
        r.setup.widget_x is None && r.setup.widget_y is None,
        r.peers@.len() == 0 && r.messages@.len() == 0 && r.transfers@.len() == 0,
{
    assert(r@.peers.len() == r.peers@.len());
    assert(r@.messages.len() == r.messages@.len());
    assert(r@.transfers.len() == r.transfers@.len());
}

/// Whether the user interface is shown the settings as they are, with the public key of
/// this device's identity, if it has one, in place of the secret.
pub open spec fn is_shown(
    setup: SetupState,
    shown: SetupResponse,
    public_key: AppResult<String>,
) -> bool {
    &&& shown.configured == setup.configured
    &&& shown.device_id@ == setup.device_id@
    &&& shown.device_name@ == setup.device_name@
    &&& shown.start_at_login == setup.start_at_login
    &&& opt_text(shown.avatar) == opt_text(setup.avatar)
    &&& shown.floating_icon == setup.floating_icon
    &&& shown.auto_open == setup.auto_open
    &&& shown.theme@ == setup.theme@
    &&& match public_key {
        Ok(key) => shown.public_key is Some && shown.public_key->Some_0@ == key@,
        Err(_) => shown.public_key is None,
    }
}

/// The user interface is shown the settings as they are.
pub proof fn law_setup_is_shown(
    state: &PersistedState,
    setup: &SetupState,
    secret: &str,
    key: AppResult<String>,
    r: SetupResponse,
    s: SetupResponse,
)
    requires
        call_ensures(get_setup_state, (state,), r),
        *setup == state.setup,
        call_ensures(setup_response, (setup,), s),
        secret@ == state.setup.identity_secret@,
        call_ensures(derive_public_key, (secret,), key),
    ensures
        is_shown(state.setup, r, key),
        is_shown(state.setup, s, key),
{
}

/// What is asked of the settings is what they hold.
pub proof fn law_setup_is_read(
    state: &PersistedState,
    id: String,
    secret: String,
    auto_open: bool,
)
    requires
        call_ensures(existing_device_id, (state,), id),
        call_ensures(existing_identity_secret, (state,), secret),
        call_ensures(auto_open_enabled, (state,), auto_open),
    ensures
        id@ == state.setup.device_id@,
        secret@ == state.setup.identity_secret@,
        auto_open == state.setup.auto_open,
{
}

/// Naming the device keeps its identity and everything else chosen before; the name is
/// the one given without the white space around it. A blank name is refused and changes
/// nothing. What is shown afterwards is what the settings then hold.
pub proof fn law_save_setup(
    state: &mut PersistedState,
    device_name: &str,
    start_at_login: bool,
    bare: &str,
    secret: &str,
    key: AppResult<String>,
    r: AppResult<SetupResponse>,
)
    requires
        call_ensures(save_setup, (state, device_name, start_at_login), r),
        call_ensures(trim, (device_name,), bare),
        secret@ == old(state).setup.identity_secret@,
        call_ensures(derive_public_key, (secret,), key),
    ensures
        r is Ok <==> bare@.len() > 0,
        r is Err ==> final(state)@ == old(state)@ && r->Err_0@ == "Device name is required."@,
        r is Ok ==> {
            &&& final(state).setup.device_name@ == bare@
            &&& final(state).setup.start_at_login == start_at_login
            &&& final(state).setup.configured
            &&& final(state).setup.device_id@ == old(state).setup.device_id@
            &&& final(state).setup.identity_secret@ == old(state).setup.identity_secret@
            &&& opt_text(final(state).setup.avatar) == opt_text(old(state).setup.avatar)
            &&& final(state).setup.floating_icon == old(state).setup.floating_icon
            &&& final(state).setup.auto_open == old(state).setup.auto_open
            &&& final(state).setup.theme@ == old(state).setup.theme@
            &&& final(state).setup.widget_x == old(state).setup.widget_x
            &&& final(state).setup.widget_y == old(state).setup.widget_y
            &&& is_shown(final(state).setup, r->Ok_0, key)
        },
        final(state)@.peers == old(state)@.peers,
        final(state)@.messages == old(state)@.messages,
        final(state)@.transfers == old(state)@.transfers,
{
    law_trimmed_empty_iff_blank(device_name@);
    assert(final(state)@.setup == final(state).setup@);
    assert(old(state)@.setup == old(state).setup@);
}

/// The list of known devices is given whole and in order.
pub proof fn law_list_peers(state: &PersistedState, r: Vec<PeerDevice>)
    requires
        call_ensures(list_peers, (state,), r),
    ensures
        r@.len() == state.peers@.len(),
        forall|i: int| 0 <= i < r@.len() ==> (#[trigger] r@[i])@ == state.peers@[i]@,
{
    assert(views(r@).len() == r@.len());
    assert forall|i: int| 0 <= i < r@.len() implies (#[trigger] r@[i])@ == state.peers@[i]@ by {
        assert(views(r@)[i] == state@.peers[i]);
    }
}

proof fn lemma_profiles(setup: SetupView, peers: Seq<PeerView>, send: OutgoingView)
    ensures
        profile_sends(setup, peers).contains(send) <==> exists|k: int|
            0 <= k < peers.len() && is_paired(#[trigger] peers[k]) && send == profile_send(
                setup,
                peers[k],
            ),
        profile_sends(setup, peers).len() == paired_peers(peers).len(),
{
    let chosen = paired_peers(peers);
    let sends = profile_sends(setup, peers);
    if sends.contains(send) {
        let i = choose|i: int| 0 <= i < sends.len() && sends[i] == send;
        assert(chosen.contains(chosen[i]));
        lemma_filter_subset(peers, |p: PeerView| is_paired(p), chosen[i]);
        let k = choose|k: int| 0 <= k < peers.len() && peers[k] == chosen[i];
        assert(is_paired(peers[k]));
    }
    if exists|k: int|
        0 <= k < peers.len() && is_paired(#[trigger] peers[k]) && send == profile_send(
            setup,
            peers[k],
        ) {
        let k = choose|k: int|
            0 <= k < peers.len() && is_paired(#[trigger] peers[k]) && send == profile_send(
                setup,
                peers[k],
            );
        lemma_filter_keeps(peers, |p: PeerView| is_paired(p), peers[k]);
        let i = choose|i: int| 0 <= i < chosen.len() && chosen[i] == peers[k];
        assert(sends[i] == send);
    }
}

/// An avatar of at most 256 KiB, or none, is kept as it was given and told, in this
/// device's name, to every paired peer and to nobody else, once each; a larger one is
/// refused and changes nothing. No other setting changes.
pub proof fn law_set_avatar(
    state: &mut PersistedState,
    avatar: Option<String>,
    send: OutgoingView,
    secret: &str,
    key: AppResult<String>,
    r: AppResult<AvatarChange>,
)
    requires
        call_ensures(set_avatar, (state, avatar), r),
        secret@ == old(state).setup.identity_secret@,
        call_ensures(derive_public_key, (secret,), key),
    ensures
        r is Err <==> avatar is Some && vstd::utf8::encode_utf8(avatar->Some_0@).len() > 262_144,
        r is Err ==> final(state)@ == old(state)@ && r->Err_0@ == "That image is too large."@,
        r is Ok ==> {
            &&& final(state)@.setup == (SetupView { avatar: opt_text(avatar), ..old(state)@.setup })
            &&& is_shown(final(state).setup, r->Ok_0.response, key)
            &&& views(r->Ok_0.sends@).contains(send) <==> {
                &&& send.message == (WireView::Profile {
                    peer_id: old(state).setup.device_id@,
                    avatar: opt_text(avatar),
                })
                &&& old(state)@.peers.contains(send.peer)
                &&& send.peer.trust_state == "paired"@
            }
            &&& r->Ok_0.sends@.len() == old(state)@.peers.filter(
                |peer: PeerView| peer.trust_state == "paired"@,
            ).len()
        },
        final(state)@.peers == old(state)@.peers,
        final(state)@.messages == old(state)@.messages,
        final(state)@.transfers == old(state)@.transfers,
{
    if r is Ok {
        let peers = old(state)@.peers;
        let setup = final(state)@.setup;
        lemma_profiles(setup, peers, send);
        assert(views(r->Ok_0.sends@).len() == r->Ok_0.sends@.len());
        let named = |peer: PeerView| is_paired(peer);
        let plain = |peer: PeerView| peer.trust_state == "paired"@;
        assert(named =~= plain);
        assert(paired_peers(peers) == peers.filter(named));
        if views(r->Ok_0.sends@).contains(send) {
            let k = choose|k: int|
                0 <= k < peers.len() && is_paired(#[trigger] peers[k]) && send == profile_send(
                    setup,
                    peers[k],
                );
            assert(peers[k] == send.peer);
        }
        if peers.contains(send.peer) && is_paired(send.peer) {
            let k = choose|k: int| 0 <= k < peers.len() && peers[k] == send.peer;
            assert(is_paired(peers[k]));
        }
        assert(final(state)@.setup == final(state).setup@);
    }
}

/// Showing or hiding the icon changes that setting, to the value given, and nothing else.
pub proof fn law_set_floating_icon(
    state: &mut PersistedState,
    enabled: bool,
    secret: &str,
    key: AppResult<String>,
    r: SetupResponse,
)
    requires
        call_ensures(set_floating_icon, (state, enabled), r),
        secret@ == old(state).setup.identity_secret@,
        call_ensures(derive_public_key, (secret,), key),
    ensures
        final(state).setup.floating_icon == enabled,
        final(state)@ == (StateView {
            setup: SetupView { floating_icon: enabled, ..old(state)@.setup },
            ..old(state)@
        }),
        is_shown(final(state).setup, r, key),
{
    assert(final(state)@.setup == final(state).setup@);
}

/// Choosing whether received content is opened changes that setting, to the value given,
/// and nothing else.
pub proof fn law_set_auto_open(
    state: &mut PersistedState,
    enabled: bool,
    secret: &str,
    key: AppResult<String>,
    r: SetupResponse,
)
    requires
        call_ensures(set_auto_open, (state, enabled), r),
        secret@ == old(state).setup.identity_secret@,
        call_ensures(derive_public_key, (secret,), key),
    ensures
        final(state).setup.auto_open == enabled,
        final(state)@ == (StateView {
            setup: SetupView { auto_open: enabled, ..old(state)@.setup },
            ..old(state)@
        }),
        is_shown(final(state).setup, r, key),
{
    assert(final(state)@.setup == final(state).setup@);
}

/// The theme is "dark" exactly where that was asked for, and "light" otherwise; nothing
/// else changes.
pub proof fn law_set_theme(
    state: &mut PersistedState,
    theme: &str,
    secret: &str,
    key: AppResult<String>,
    r: SetupResponse,
)
    requires
        call_ensures(set_theme, (state, theme), r),
        secret@ == old(state).setup.identity_secret@,
        call_ensures(derive_public_key, (secret,), key),
    ensures
        theme@ == "dark"@ ==> final(state).setup.theme@ == "dark"@,
        theme@ != "dark"@ ==> final(state).setup.theme@ == "light"@,
        final(state)@ == (StateView {
            setup: SetupView { theme: final(state).setup.theme@, ..old(state)@.setup },
            ..old(state)@
        }),
        is_shown(final(state).setup, r, key),
{
    assert(final(state)@.setup == final(state).setup@);
}

/// The place that the icon was dragged to is remembered, and nothing else changes; while
/// the icon is expanded nothing does.
pub proof fn law_save_widget_position(
    state: &mut PersistedState,
    expanded: bool,
    x: u64,
    y: u64,
    r: bool,
)
    requires
        call_ensures(save_widget_position, (state, expanded, x, y), r),
    ensures
        r <==> !expanded,
        expanded ==> final(state)@ == old(state)@,
        !expanded ==> final(state)@ == (StateView {
            setup: SetupView { widget_x: Some(x), widget_y: Some(y), ..old(state)@.setup },
            ..old(state)@
        }),
{
}

} // verus!
