//! Addressing peers, and the lines that connections carry.

use crate::envelope::{envelope_peer_id, secret_of, sender_of, shared_secret_of};
use crate::model::{
    outcome, AppResult, EnvelopeView, PeerDevice, PeerView, TransportEnvelope, WireMessage,
    WireView, MAX_CONNECTION_THREADS, MAX_LINE_BYTES,
};
use crate::text::{
    chars_of, is_blank, is_white_space, law_trimmed_empty_iff_blank, law_trimmed_ignores_the_end,
    trim, trimmed,
};
use vstd::prelude::*;

verus! {

/// Whether it is known where to reach a peer.
pub open spec fn address_check(peer: PeerView) -> Result<(), Seq<char>> {
    if is_blank(peer.host) {
        Err(peer.name + " does not have a network address yet."@)
    } else {
        Ok(())
    }
}

/// Refuses to dial a peer without an address.
pub fn check_address(peer: &PeerDevice) -> (r: AppResult<()>)
    ensures
        outcome(r) == address_check(peer@),
{
    proof {
        law_trimmed_empty_iff_blank(peer@.host);
    }
    if trim(peer.host.as_str()).is_empty() {
        Err(peer.name.clone().concat(" does not have a network address yet."))
    } else {
        Ok(())
    }
}

/// A message to be sealed and sent to one address.
#[derive(Debug)]
pub struct WireSend {
    pub host: String,
    pub port: u16,
    /// The id under which the message is sealed: that of its sender.
    pub peer_id: String,
    pub secret: String,
    pub message: WireMessage,
}

/// View of a [`WireSend`].
#[verifier::ext_equal]
pub struct WireSendView {
    pub host: Seq<char>,
    pub port: u16,
    pub peer_id: Seq<char>,
    pub secret: Seq<char>,
    pub message: WireView,
}

impl View for WireSend {
    type V = WireSendView;

    open spec fn view(&self) -> WireSendView {
        WireSendView {
            host: self.host@,
            port: self.port,
            peer_id: self.peer_id@,
            secret: self.secret@,
            message: self.message@,
        }
    }
}

/// How a message goes to a peer under seal.
pub open spec fn sealed_send(peer: PeerView, message: WireView) -> Result<
    WireSendView,
    Seq<char>,
> {
    match address_check(peer) {
        Err(complaint) => Err(complaint),
        Ok(_) => match secret_of(peer) {
            Err(complaint) => Err(complaint),
            Ok(secret) => match sender_of(message) {
                None => Err("Pairing messages must be sent without encryption."@),
                Some(peer_id) => Ok(
                    WireSendView { host: peer.host, port: peer.port, peer_id, secret, message },
                ),
            },
        },
    }
}

/// Prepares a message for a peer, to be sealed under the secret shared with it.
pub fn send_wire(peer: &PeerDevice, message: WireMessage) -> (r: AppResult<WireSend>)
    ensures
        outcome(r) == sealed_send(peer@, message@),
{
    check_address(peer)?;
    let secret = shared_secret_of(peer)?;
    let peer_id = match envelope_peer_id(&message) {
        Ok(peer_id) => peer_id.to_string(),
        Err(complaint) => return Err(complaint),
    };
    Ok(WireSend { host: peer.host.clone(), port: peer.port, peer_id, secret, message })
}

/// An envelope to be sent to one address in the clear.
#[derive(Debug)]
pub struct PlainSend {
    pub host: String,
    pub port: u16,
    pub envelope: TransportEnvelope,
}

/// View of a [`PlainSend`].
#[verifier::ext_equal]
pub struct PlainSendView {
    pub host: Seq<char>,
    pub port: u16,
    pub envelope: EnvelopeView,
}

impl View for PlainSend {
    type V = PlainSendView;

    open spec fn view(&self) -> PlainSendView {
        PlainSendView { host: self.host@, port: self.port, envelope: self.envelope@ }
    }
}

/// How a message goes to a peer in the clear.
pub open spec fn plain_send(peer: PeerView, message: WireView) -> Result<
    PlainSendView,
    Seq<char>,
> {
    match address_check(peer) {
        Err(complaint) => Err(complaint),
        Ok(_) => Ok(
            PlainSendView {
                host: peer.host,
                port: peer.port,
                envelope: EnvelopeView::Plain { message },
            },
        ),
    }
}

/// Prepares a message for a peer, to be sent in the clear.
pub fn send_plain_wire(peer: &PeerDevice, message: WireMessage) -> (r: AppResult<PlainSend>)
    ensures
        outcome(r) == plain_send(peer@, message@),
{
    check_address(peer)?;
    Ok(
        PlainSend {
            host: peer.host.clone(),
            port: peer.port,
            envelope: TransportEnvelope::Plain { message },
        },
    )
}

/// The line that carries a body.
pub open spec fn framed(body: Seq<char>) -> Seq<char> {
    body.push('\n')
}

/// The line that carries a serialized envelope.
pub fn frame_line(body: &str) -> (r: String)
    ensures
        r@ == framed(body@),
{
    proof {
        reveal_strlit("\n");
        assert(body@ + "\n"@ =~= body@.push('\n'));
    }
    body.to_string().concat("\n")
}

/// What came of reading one line off a connection.
#[derive(Debug)]
pub enum Line {
    /// The peer is done.
    End,
    /// The line is too long, and the connection is dropped.
    TooLong(String),
    /// There is nothing on the line.
    Blank,
    /// There is an envelope on the line.
    Body(String),
}

/// View of a [`Line`].
#[verifier::ext_equal]
pub enum LineView {
    End,
    TooLong(Seq<char>),
    Blank,
    Body(Seq<char>),
}

impl View for Line {
    type V = LineView;

    open spec fn view(&self) -> LineView {
        match self {
            Line::End => LineView::End,
            Line::TooLong(complaint) => LineView::TooLong(complaint@),
            Line::Blank => LineView::Blank,
            Line::Body(text) => LineView::Body(text@),
        }
    }
}

/// What a read of `read` bytes that gave `text` amounts to.
pub open spec fn line_read(read: int, text: Seq<char>) -> LineView {
    if read == 0 {
        LineView::End
    } else if read >= MAX_LINE_BYTES && !(text.len() > 0 && text.last() == '\n') {
        LineView::TooLong("Incoming message exceeded the size limit."@)
    } else if is_blank(text) {
        LineView::Blank
    } else {
        LineView::Body(trimmed(text))
    }
}

/// Decides on a line: `read` bytes, at most `MAX_LINE_BYTES`, that gave `text`.
pub fn read_line(read: usize, text: &str) -> (r: Line)
    ensures
        r@ == line_read(read as int, text@),
{
    if read == 0 {
        return Line::End;
    }
    let chars = chars_of(text);
    let ended: bool = chars.len() > 0 && chars[chars.len() - 1] == '\n';
    if read as u64 >= MAX_LINE_BYTES && !ended {
        return Line::TooLong("Incoming message exceeded the size limit.".to_string());
    }
    let body = trim(text);
    proof {
        law_trimmed_empty_iff_blank(text@);
    }
    if body.is_empty() {
        Line::Blank
    } else {
        Line::Body(body.to_string())
    }
}

/// Whether another inbound connection may be handled beside `active` others.
pub fn admits_connection(active: usize) -> (r: bool)
    ensures
        r == (active < MAX_CONNECTION_THREADS),
{
    active < MAX_CONNECTION_THREADS
}

/// How often a port is asked for before the transport gives up.
pub const BIND_ATTEMPTS: u32 = 10;

/// The pause between two attempts.
pub const BIND_RETRY_DELAY_MS: u64 = 500;

/// Asking for a port that an earlier instance may still hold.
#[derive(Debug, Clone, Copy)]
pub struct BindRetry {
    /// Attempts that failed.
    pub failed: u32,
}

impl BindRetry {
    /// Before the first attempt.
    pub fn new() -> (r: Self)
        ensures
            r.failed == 0,
    {
        BindRetry { failed: 0 }
    }

    /// Counts a failed attempt and gives the pause before the next one, or
    /// nothing where it was the last.
    pub fn attempt_failed(&mut self) -> (r: Option<u64>)
        requires
            old(self).failed < BIND_ATTEMPTS,
        ensures
            final(self).failed == old(self).failed + 1,
            r == if final(self).failed >= BIND_ATTEMPTS {
                None::<u64>
            } else {
                Some(BIND_RETRY_DELAY_MS)
            },
    {
        self.failed = self.failed + 1;
        if self.failed >= BIND_ATTEMPTS {
            None
        } else {
            Some(BIND_RETRY_DELAY_MS)
        }
    }
}

/// A framed body is read back as it was sent, up to the white space around it,
/// and is never taken for a line that is too long.
pub proof fn law_framed_line_is_read(body: Seq<char>, read: int)
    requires
        !is_blank(body),
        read > 0,
    ensures
        line_read(read, framed(body)) == LineView::Body(trimmed(body)),
{
    law_trimmed_ignores_the_end(body, '\n');
    law_trimmed_empty_iff_blank(body);
    law_trimmed_empty_iff_blank(framed(body));
}

/// Nothing goes out under seal to a peer with whom no secret is shared, and no
/// pairing message ever does.
pub proof fn law_sealed_send_needs_a_secret(peer: PeerView, message: WireView)
    ensures
        sealed_send(peer, message) is Ok ==> peer.shared_secret is Some,
        sealed_send(peer, message) is Ok ==> !crate::envelope::is_pairing(message),
        sealed_send(peer, message) matches Ok(send) ==> send.message == message && Some(send.secret)
            == peer.shared_secret,
{
}

/// A peer is refused for want of an address exactly if its host is blank.
pub proof fn law_check_address(peer: &PeerDevice, r: AppResult<()>)
    requires
        call_ensures(check_address, (peer,), r),
    ensures
        r is Err <==> forall|i: int|
            0 <= i < peer.host@.len() ==> is_white_space(#[trigger] peer.host@[i]),
        r is Err ==> r->Err_0@ == peer.name@ + " does not have a network address yet."@,
{
}

/// What goes out under seal goes to the address under which the peer is known, is
/// sealed under the secret shared with that very peer and named after the sender of
/// the message, and is the message given. It goes out exactly if the peer has an
/// address and a secret and the message is none of the pairing handshake.
pub proof fn law_send_wire(peer: &PeerDevice, message: WireMessage, r: AppResult<WireSend>)
    requires
        call_ensures(send_wire, (peer, message), r),
    ensures
        r matches Ok(send) ==> {
            &&& send.host@ == peer.host@
            &&& send.port == peer.port
            &&& peer.shared_secret is Some
            &&& send.secret@ == peer.shared_secret->Some_0@
            &&& sender_of(message@) == Some(send.peer_id@)
            &&& send.message@ == message@
        },
        r is Ok <==> {
            &&& peer.shared_secret is Some
            &&& !(message is PairRequest) && !(message is PairAccepted)
            &&& exists|i: int|
                0 <= i < peer.host@.len() && !is_white_space(#[trigger] peer.host@[i])
        },
{
}

/// Whatever goes out in the clear goes to the address under which the peer is known,
/// in a plain envelope that holds the message given; it goes out exactly if the peer
/// has an address.
pub proof fn law_send_plain_wire(peer: &PeerDevice, message: WireMessage, r: AppResult<PlainSend>)
    requires
        call_ensures(send_plain_wire, (peer, message), r),
    ensures
        r matches Ok(send) ==> {
            &&& send.host@ == peer.host@
            &&& send.port == peer.port
            &&& send.envelope is Plain
            &&& send.envelope->message@ == message@
        },
        r is Ok <==> exists|i: int|
            0 <= i < peer.host@.len() && !is_white_space(#[trigger] peer.host@[i]),
        r is Err ==> r->Err_0@ == peer.name@ + " does not have a network address yet."@,
{
}

/// A body that is framed as a line and read off again, however many bytes that takes,
/// comes out as it went in, without the white space around it.
pub proof fn law_line_travels(body: &str, line: String, text: &str, read: usize, bare: &str, r: Line)
    requires
        call_ensures(frame_line, (body,), line),
        text@ == line@,
        read > 0,
        call_ensures(read_line, (read, text), r),
        call_ensures(trim, (body,), bare),
    ensures
        bare@.len() > 0 ==> r is Body && r->Body_0@ == bare@,
        bare@.len() == 0 ==> r is Blank,
        line@ == body@.push('\n'),
{
    law_trimmed_ignores_the_end(body@, '\n');
    law_trimmed_empty_iff_blank(body@);
    law_trimmed_empty_iff_blank(line@);
}

/// A line is at its end exactly if nothing was read. One of 1 MiB or more that does
/// not end in a line break is too long, and no other is.
pub proof fn law_read_line(read: usize, text: &str, bare: &str, r: Line)
    requires
        call_ensures(read_line, (read, text), r),
        call_ensures(trim, (text,), bare),
    ensures
        r is End <==> read == 0,
        r is TooLong <==> read >= 1_048_576 && !(text@.len() > 0 && text@.last() == '\n'),
        r is Blank ==> bare@.len() == 0,
        r is Body ==> bare@.len() > 0 && r->Body_0@ == bare@,
{
    law_trimmed_empty_iff_blank(text@);
}

/// Another connection is let in exactly while fewer than 128 are handled.
pub proof fn law_admits_connection(active: usize, r: bool)
    requires
        call_ensures(admits_connection, (active,), r),
    ensures
        r <==> active < 128,
{
}

/// A port is asked for ten times: a failed attempt before the tenth is followed by a
/// pause of half a second, and the tenth by none.
pub proof fn law_attempt_failed(retry: &mut BindRetry, r: Option<u64>)
    requires
        call_ensures(BindRetry::attempt_failed, (retry,), r),
    ensures
        final(retry).failed == old(retry).failed + 1,
        r is None <==> old(retry).failed >= 9,
        r matches Some(pause) ==> pause == 500,
{
}

/// Before the first attempt none has failed.
pub proof fn law_new_retry(r: BindRetry)
    requires
        call_ensures(BindRetry::new, (), r),
    ensures
        r.failed == 0,
{
}

} // verus!
