//! The subscription / session state machine.
//!
//! The session drives the UDP protocol from the client side: it
//! authenticates against the relay server, identifies itself by name and
//! class, classifies every decrypted reply, keeps the queue of lines whose
//! acknowledgement is still outstanding, and falls back to re-authentication
//! when the server expires the subscription.  The caller owns the socket and
//! the clock: datagram bytes and millisecond clock readings come in, payload
//! bytes and classified outcomes go out.

use vstd::prelude::*;
use crate::codec::{
    spec_encrypt, spec_decrypt, encrypt_with_nonce, decrypt, random_u64,
};
use crate::filter::{DuplicateFilter, spec_accept};
use crate::wire::{
    spec_i64_to_le_bytes, spec_i64_from_le_bytes, i64_bytes, bytes_i64, u64_bytes, clone_bytes,
    push_all, subvec,
};

verus! {

/// Tolerance in milliseconds for a message timestamp before it is flagged
/// as outdated or future.
pub const MSG_VALID_TIME: i64 = 10000;

/// Control byte: the client's routing name follows.
pub const CODE_NAME: u8 = 0x01;

/// Status byte: subscription accepted, or a request to re-identify.
pub const CODE_ACCEPT: u8 = 0x02;

/// Control byte: a human-readable notice from the server follows.
pub const CODE_NOTICE: u8 = 0x05;

/// Control byte: acknowledgement of delivery.
pub const CODE_ACK: u8 = 0x06;

/// Control byte: the client's class tag follows.
pub const CODE_CLASS: u8 = 0x11;

/// Control byte: negative acknowledgement of an invalid signature.
pub const CODE_NAK: u8 = 0x15;

/// Control byte: clean shutdown notice.
pub const CODE_QUIT: u8 = 0x18;

/// Status byte: subscription expired or rejected.
pub const CODE_DEAUTH: u8 = 0x19;

/// Milliseconds to wait before retrying after a failed or rejected
/// authentication attempt.
pub const AUTH_RETRY_MILLIS: u64 = 5000;

/// Milliseconds between the ingress polls of one authentication attempt.
pub const AUTH_POLL_MILLIS: u64 = 100;

/// Number of ingress polls per authentication attempt.
pub const AUTH_POLLS: usize = 10;

/// Milliseconds to wait after sending a negative acknowledgement.
pub const NAK_WAIT_MILLIS: u64 = 2000;

/// Milliseconds of sleep per operating tick.
pub const TICK_MILLIS: u64 = 1;

/// Relies on chrono::Local::now for the wall-clock time in milliseconds;
/// nothing is promised of the value.
#[verifier::external_body]
fn now_millis() -> i64 {
    chrono::Local::now().timestamp_millis()
}

/// A message on the wire: the body followed by its eight-byte timestamp.
pub open spec fn spec_stamped(body: Seq<u8>, t: i64) -> Seq<u8> {
    body + spec_i64_to_le_bytes(t)
}

/// `payload` is an encryption of `body`, stamped with time `t`, under `pad`
/// with the eight-byte nonce `nonce`.
pub open spec fn carries_with(
    payload: Seq<u8>,
    pad: Seq<u8>,
    body: Seq<u8>,
    t: i64,
    nonce: Seq<u8>,
) -> bool {
    nonce.len() == 8 && payload == spec_encrypt(spec_stamped(body, t), pad, nonce)
}

/// `payload` is an encryption of `body` under `pad`, stamped with some send
/// time and carrying some nonce.
pub open spec fn carries(payload: Seq<u8>, pad: Seq<u8>, body: Seq<u8>) -> bool {
    exists|t: i64, nonce: Seq<u8>| carries_with(payload, pad, body, t, nonce)
}

/// Every payload that carries `body` under `pad` decrypts under the same
/// pad with a valid signature, and its plaintext is `body` followed by the
/// eight-byte timestamp it was stamped with.
pub proof fn lemma_carries_decrypt(payload: Seq<u8>, pad: Seq<u8>, body: Seq<u8>)
    requires
        pad.len() >= 1,
        carries(payload, pad, body),
    ensures
        payload.len() == body.len() + 24,
        spec_decrypt(payload, pad).0,
        spec_decrypt(payload, pad).1.len() == body.len() + 8,
        spec_decrypt(payload, pad).1.subrange(0, body.len() as int) == body,
        exists|t: i64| spec_decrypt(payload, pad).1 == spec_stamped(body, t),
{
    let (t, nonce) = choose|t: i64, nonce: Seq<u8>| carries_with(payload, pad, body, t, nonce);
    crate::wire::lemma_i64_le_bytes_roundtrip(t);
    crate::codec::lemma_round_trip(spec_stamped(body, t), pad, nonce);
    assert(spec_decrypt(payload, pad).1.subrange(0, body.len() as int) =~= body);
    assert(spec_decrypt(payload, pad).1 == spec_stamped(body, t));
}

/// Append the given millisecond timestamp to a message body.
pub fn stamp_message(body: &Vec<u8>, t: i64) -> (m: Vec<u8>)
    ensures
        m@ == spec_stamped(body@, t),
        m@.len() == body@.len() + 8,
{
    proof {
        crate::wire::lemma_i64_le_bytes_roundtrip(t);
    }
    let mut m = clone_bytes(body);
    let ts = i64_bytes(t);
    push_all(&mut m, &ts);
    m
}

/// Stamp `body` with the time of day and encrypt it under `pad` with a
/// fresh random nonce, yielding the datagram bytes to transmit.
pub fn stamped_payload(body: &Vec<u8>, pad: &Vec<u8>) -> (payload: Vec<u8>)
    requires
        pad@.len() >= 1,
        body@.len() + 24 <= usize::MAX,
    ensures
        payload@.len() == body@.len() + 24,
        carries(payload@, pad@, body@),
{
    let t: i64 = now_millis();
    let stampedbytes = stamp_message(body, t);
    let nonce: u64 = random_u64();
    let noncebytes = u64_bytes(nonce);
    let payload = encrypt_with_nonce(&stampedbytes, pad, &noncebytes);
    proof {
        assert(carries_with(payload@, pad@, body@, t, noncebytes@));
    }
    payload
}

/// Trust placed in a decrypted message: either the signature matched and
/// the timestamp is within tolerance, or the reason it is suspect.
#[derive(PartialEq, Eq, Structural, Clone, Copy, Debug)]
pub enum Flag {
    /// Signature valid, timestamp within tolerance.
    Clean,
    /// The embedded signature did not match.
    BadSig,
    /// The timestamp lies more than the tolerance in the past.
    Outdated,
    /// The timestamp lies more than the tolerance in the future.
    Future,
}

/// The flag earned by a message with the given signature validity and
/// timestamp, observed at time `now`.
pub open spec fn spec_flag(valid: bool, msgtime: i64, now: i64) -> Flag {
    if !valid {
        Flag::BadSig
    } else if msgtime + MSG_VALID_TIME < now {
        Flag::Outdated
    } else if msgtime - MSG_VALID_TIME > now {
        Flag::Future
    } else {
        Flag::Clean
    }
}

/// The executable flag computation.
fn compute_flag(valid: bool, msgtime: i64, now: i64) -> (f: Flag)
    ensures
        f == spec_flag(valid, msgtime, now),
{
    if !valid {
        Flag::BadSig
    } else {
        let mt: i128 = msgtime as i128;
        let nw: i128 = now as i128;
        if mt + (MSG_VALID_TIME as i128) < nw {
            Flag::Outdated
        } else if mt - (MSG_VALID_TIME as i128) > nw {
            Flag::Future
        } else {
            Flag::Clean
        }
    }
}

/// The taxonomy of a decrypted server reply, derived from the flag, the
/// first body byte and the body length.
pub enum Reply {
    /// Subscription-expiry notice: one `CODE_DEAUTH` byte, unflagged.
    Expire,
    /// Request to re-identify: one `CODE_ACCEPT` byte, unflagged.
    ReIdentify,
    /// Single-recipient acknowledgement: one `CODE_ACK` byte, unflagged.
    AckOne,
    /// Fanout acknowledgement: `CODE_ACK` with a big-endian 16-bit count.
    AckFan(u16),
    /// Human-readable notice: `CODE_NOTICE` followed by the text.
    Notice(Seq<u8>),
    /// Anything else: a user-visible message body with its flag.
    User(Seq<u8>, Flag),
}

/// Classify the plaintext of a decrypted datagram.  The plaintext is
/// `body ++ timestamp8`; control interpretations apply only to unflagged
/// messages, and everything else is shown to the operator.
pub open spec fn spec_classify(valid: bool, msg: Seq<u8>, now: i64) -> Reply
    recommends
        msg.len() >= 9,
{
    let body = msg.take(msg.len() - 8);
    let t = spec_i64_from_le_bytes(msg.skip(msg.len() - 8));
    let flag = spec_flag(valid, t, now);
    if flag != Flag::Clean {
        Reply::User(body, flag)
    } else if body.len() == 1 && body[0] == CODE_DEAUTH {
        Reply::Expire
    } else if body.len() == 1 && body[0] == CODE_ACCEPT {
        Reply::ReIdentify
    } else if body.len() == 1 && body[0] == CODE_ACK {
        Reply::AckOne
    } else if body.len() == 3 && body[0] == CODE_ACK {
        Reply::AckFan((body[1] * 256 + body[2]) as u16)
    } else if body[0] == CODE_NOTICE {
        Reply::Notice(body.skip(1))
    } else {
        Reply::User(body, Flag::Clean)
    }
}

/// Split a message body at its first ASCII space: the bytes before it name
/// the sender, the bytes after it are the contents.  A body without a space
/// has no sender part and is all contents.
pub open spec fn spec_split_at_space(body: Seq<u8>) -> (Option<Seq<u8>>, Seq<u8>)
    decreases body.len(),
{
    if body.len() == 0 {
        (None, body)
    } else if body[0] == 0x20 {
        (Some(Seq::empty()), body.skip(1))
    } else {
        let rest = spec_split_at_space(body.skip(1));
        match rest.0 {
            Some(sender) => (Some(seq![body[0]] + sender), rest.1),
            None => (None, body),
        }
    }
}

proof fn lemma_split_with_space(body: Seq<u8>, i: int)
    requires
        0 <= i < body.len(),
        body[i] == 0x20,
        forall|j: int| 0 <= j < i ==> body[j] != 0x20,
    ensures
        spec_split_at_space(body) == (Some(body.take(i)), body.skip(i + 1)),
    decreases body.len(),
{
    if i == 0 {
        assert(body.take(0) =~= Seq::<u8>::empty());
    } else {
        let tail = body.skip(1);
        assert(tail[i - 1] == 0x20);
        assert(forall|j: int| 0 <= j < i - 1 ==> tail[j] != 0x20);
        lemma_split_with_space(tail, i - 1);
        assert(seq![body[0]] + tail.take(i - 1) =~= body.take(i));
        assert(tail.skip(i) =~= body.skip(i + 1));
    }
}

proof fn lemma_split_no_space(body: Seq<u8>)
    requires
        forall|j: int| 0 <= j < body.len() ==> body[j] != 0x20,
    ensures
        spec_split_at_space(body) == (None::<Seq<u8>>, body),
    decreases body.len(),
{
    if body.len() > 0 {
        lemma_split_no_space(body.skip(1));
    }
}

/// The executable split of a body into sender and contents on the first
/// ASCII space.
pub fn split_sender(body: &Vec<u8>) -> (r: (Option<Vec<u8>>, Vec<u8>))
    ensures
        match r.0 {
            Some(sender) => {
                &&& spec_split_at_space(body@).0 == Some(sender@)
                &&& r.1@ == spec_split_at_space(body@).1
            },
            None => {
                &&& spec_split_at_space(body@).0 is None
                &&& r.1@ == body@
            },
        },
{
    let mut i: usize = 0;
    while i < body.len()
        invariant
            i <= body@.len(),
            forall|j: int| 0 <= j < i ==> body@[j] != 0x20,
        decreases body@.len() - i,
    {
        if body[i] == 0x20 {
            let sender = subvec(body, 0, i);
            let contents = subvec(body, i + 1, body.len());
            proof {
                lemma_split_with_space(body@, i as int);
                assert(sender@ =~= body@.take(i as int));
                assert(contents@ =~= body@.skip(i + 1));
            }
            return (Some(sender), contents);
        }
        i = i + 1;
    }
    proof {
        lemma_split_no_space(body@);
    }
    (None, clone_bytes(body))
}

/// The two persistent client states.  Identification happens on the way
/// from `Authenticating` to `Operating`; recovery re-enters
/// `Authenticating`.
#[derive(PartialEq, Eq, Structural, Clone, Copy, Debug)]
pub enum State {
    /// Probing the server for a subscription.
    Authenticating,
    /// Subscribed: relaying messages and acknowledgements.
    Operating,
}

/// What an authentication-phase datagram turned out to be.
#[derive(PartialEq, Eq, Structural, Clone, Copy, Debug)]
pub enum AuthOutcome {
    /// Wrong source or not the exact reply size; ignore and keep polling.
    BadReply,
    /// The reply did not validate: the local pad file is incorrect.
    PadMismatch,
    /// Subscription accepted: identify and start operating.
    Accepted,
    /// Subscription rejected; the server may be full.  Retry after
    /// `AUTH_RETRY_MILLIS`.
    Full,
    /// An unrecognised status byte.
    UnknownStatus(u8),
}

/// What an operating-phase datagram turned out to be, and what the caller
/// should do about it.
#[derive(Debug)]
pub enum Outcome {
    /// Not from the server: ignore silently.
    NotServer,
    /// At most 24 bytes: too short to be a payload, ignore silently.
    TooShort,
    /// Exact bytes already seen: a replay or double-send, ignore silently.
    Duplicate,
    /// Valid expiry notice: the session has recovered to authenticating.
    Expired,
    /// Valid re-identify request: send the name and class payloads again,
    /// and re-send the given unacknowledged head if there is one.
    Reidentify {
        /// Copy of the oldest unacknowledged body, if any.
        resend: Option<Vec<u8>>,
    },
    /// Valid single-recipient acknowledgement: no bookkeeping changes.
    AckSingle,
    /// Valid fanout acknowledgement: the oldest unacknowledged body, if
    /// any, has been popped and is returned with the fanout count.
    AckFanout {
        /// How many peers the server forwarded the message to.
        count: u16,
        /// The body the acknowledgement settles, if one was outstanding.
        acked: Option<Vec<u8>>,
    },
    /// Valid human-readable notice: display the text.
    ServerNotice {
        /// The notice text (body minus its leading control byte).
        text: Vec<u8>,
    },
    /// A user-visible message: display it with its flag and transmit the
    /// given control byte back (an acknowledgement, or a negative one for
    /// an invalid signature, after which the session has recovered).
    UserMessage {
        /// The message body.
        body: Vec<u8>,
        /// The trust flag to display alongside.
        flag: Flag,
        /// The control byte to send back.
        reply: u8,
    },
}

/// One authenticated period of the client: the shared pad, the identity to
/// present, the replay filter, the pending-acknowledgement queue and the
/// protocol state.
pub struct Session {
    /// The shared pad bytes.
    pub pad: Vec<u8>,
    /// Unique routing identifier presented to the server.
    pub name: Vec<u8>,
    /// Non-unique role tag presented to the server.
    pub class: Vec<u8>,
    /// Replay filter over raw ciphertexts.
    pub filter: DuplicateFilter,
    /// Bodies sent but not yet acknowledged, oldest first.
    pub acks: Vec<Vec<u8>>,
    /// Current protocol state.
    pub state: State,
}

impl Session {
    /// The session invariant: a nonempty pad, a bounded filter, and an
    /// identity short enough to stamp and encrypt.
    pub open spec fn wf(&self) -> bool {
        &&& self.pad@.len() >= 1
        &&& self.filter.wf()
        &&& self.name@.len() + 25 <= usize::MAX
        &&& self.class@.len() + 25 <= usize::MAX
    }

    /// A fresh session, not yet subscribed.
    pub fn new(pad: Vec<u8>, name: Vec<u8>, class: Vec<u8>) -> (s: Session)
        requires
            pad@.len() >= 1,
            name@.len() + 25 <= usize::MAX,
            class@.len() + 25 <= usize::MAX,
        ensures
            s.wf(),
            s.pad == pad,
            s.name == name,
            s.class == class,
            s.state == State::Authenticating,
            s.filter@ == Seq::<Seq<u8>>::empty(),
            s.acks@ == Seq::<Vec<u8>>::empty(),
    {
        let s = Session {
            pad,
            name,
            class,
            filter: DuplicateFilter::new(),
            acks: Vec::new(),
            state: State::Authenticating,
        };
        s
    }

    /// Drop the subscription state and return to authenticating: the replay
    /// filter and the acknowledgement queue start over.
    pub fn recover(&mut self)
        requires
            old(self).wf(),
        ensures
            final(self).wf(),
            final(self).pad == old(self).pad,
            final(self).name == old(self).name,
            final(self).class == old(self).class,
            final(self).state == State::Authenticating,
            final(self).filter@ == Seq::<Seq<u8>>::empty(),
            final(self).acks@ == Seq::<Vec<u8>>::empty(),
    {
        self.filter.clear();
        self.acks.clear();
        self.state = State::Authenticating;
    }

    /// The encrypted empty-body probe that requests a subscription.
    pub fn auth_probe(&self) -> (p: Vec<u8>)
        requires
            self.wf(),
        ensures
            p@.len() == 24,
            carries(p@, self.pad@, Seq::<u8>::empty()),
    {
        let body: Vec<u8> = Vec::new();
        stamped_payload(&body, &self.pad)
    }

    /// The encrypted identification message carrying the routing name.
    pub fn name_payload(&self) -> (p: Vec<u8>)
        requires
            self.wf(),
        ensures
            p@.len() == self.name@.len() + 25,
            carries(p@, self.pad@, seq![CODE_NAME] + self.name@),
    {
        let mut body: Vec<u8> = Vec::new();
        body.push(CODE_NAME);
        push_all(&mut body, &self.name);
        proof {
            assert(body@ =~= seq![CODE_NAME] + self.name@);
        }
        stamped_payload(&body, &self.pad)
    }

    /// The encrypted identification message carrying the class tag.
    pub fn class_payload(&self) -> (p: Vec<u8>)
        requires
            self.wf(),
        ensures
            p@.len() == self.class@.len() + 25,
            carries(p@, self.pad@, seq![CODE_CLASS] + self.class@),
    {
        let mut body: Vec<u8> = Vec::new();
        body.push(CODE_CLASS);
        push_all(&mut body, &self.class);
        proof {
            assert(body@ =~= seq![CODE_CLASS] + self.class@);
        }
        stamped_payload(&body, &self.pad)
    }

    /// An encrypted one-byte control message (acknowledgement, negative
    /// acknowledgement, or quit notice).
    pub fn control_payload(&self, code: u8) -> (p: Vec<u8>)
        requires
            self.wf(),
        ensures
            p@.len() == 25,
            carries(p@, self.pad@, seq![code]),
    {
        let mut body: Vec<u8> = Vec::new();
        body.push(code);
        proof {
            assert(body@ =~= seq![code]);
        }
        stamped_payload(&body, &self.pad)
    }

    /// The encrypted payload for a user line.
    pub fn message_payload(&self, body: &Vec<u8>) -> (p: Vec<u8>)
        requires
            self.wf(),
            body@.len() + 24 <= usize::MAX,
        ensures
            p@.len() == body@.len() + 24,
            carries(p@, self.pad@, body@),
    {
        stamped_payload(body, &self.pad)
    }

    /// Record a line whose transmission succeeded: it awaits a fanout
    /// acknowledgement at the tail of the queue.
    pub fn note_sent(&mut self, line: Vec<u8>)
        requires
            old(self).wf(),
        ensures
            final(self).wf(),
            final(self).pad == old(self).pad,
            final(self).name == old(self).name,
            final(self).class == old(self).class,
            final(self).state == old(self).state,
            final(self).filter == old(self).filter,
            final(self).acks@ == old(self).acks@.push(line),
    {
        self.acks.push(line);
    }

    /// Handle a datagram received while authenticating.  Only an exact
    /// 25-byte reply from the server counts; its first plaintext byte is
    /// the subscription status.
    pub fn handle_auth_datagram(&mut self, from_server: bool, data: &Vec<u8>) -> (r: AuthOutcome)
        requires
            old(self).wf(),
            old(self).state == State::Authenticating,
        ensures
            final(self).wf(),
            final(self).pad == old(self).pad,
            final(self).name == old(self).name,
            final(self).class == old(self).class,
            final(self).filter == old(self).filter,
            final(self).acks == old(self).acks,
            match r {
                AuthOutcome::BadReply => {
                    &&& (!from_server || data@.len() != 25)
                    &&& final(self).state == State::Authenticating
                },
                AuthOutcome::PadMismatch => {
                    &&& from_server
                    &&& data@.len() == 25
                    &&& !spec_decrypt(data@, old(self).pad@).0
                    &&& final(self).state == State::Authenticating
                },
                AuthOutcome::Accepted => {
                    &&& from_server
                    &&& data@.len() == 25
                    &&& spec_decrypt(data@, old(self).pad@).0
                    &&& spec_decrypt(data@, old(self).pad@).1[0] == CODE_ACCEPT
                    &&& final(self).state == State::Operating
                },
                AuthOutcome::Full => {
                    &&& from_server
                    &&& data@.len() == 25
                    &&& spec_decrypt(data@, old(self).pad@).0
                    &&& spec_decrypt(data@, old(self).pad@).1[0] == CODE_DEAUTH
                    &&& final(self).state == State::Authenticating
                },
                AuthOutcome::UnknownStatus(b) => {
                    &&& from_server
                    &&& data@.len() == 25
                    &&& spec_decrypt(data@, old(self).pad@).0
                    &&& spec_decrypt(data@, old(self).pad@).1[0] == b
                    &&& b != CODE_ACCEPT
                    &&& b != CODE_DEAUTH
                    &&& final(self).state == State::Authenticating
                },
            },
    {
        if !from_server || data.len() != 25 {
            return AuthOutcome::BadReply;
        }
        let (valid, message) = decrypt(data, &self.pad);
        if !valid {
            return AuthOutcome::PadMismatch;
        }
        let status: u8 = message[0];
        if status == CODE_ACCEPT {
            self.state = State::Operating;
            AuthOutcome::Accepted
        } else if status == CODE_DEAUTH {
            AuthOutcome::Full
        } else {
            AuthOutcome::UnknownStatus(status)
        }
    }

    /// Handle a datagram received while operating: gate it by source and
    /// size, suppress replays, decrypt, classify, and apply the
    /// acknowledgement or state bookkeeping the classification calls for.
    pub fn handle_datagram(&mut self, from_server: bool, data: &Vec<u8>, now: i64) -> (r: Outcome)
        requires
            old(self).wf(),
            old(self).state == State::Operating,
        ensures
            final(self).wf(),
            final(self).pad == old(self).pad,
            final(self).name == old(self).name,
            final(self).class == old(self).class,
            match r {
                Outcome::NotServer => !from_server && *final(self) == *old(self),
                Outcome::TooShort => {
                    &&& from_server
                    &&& data@.len() <= 24
                    &&& *final(self) == *old(self)
                },
                Outcome::Duplicate => {
                    &&& from_server
                    &&& data@.len() > 24
                    &&& old(self).filter@.contains(data@)
                    &&& final(self).state == old(self).state
                    &&& final(self).filter@ == old(self).filter@
                    &&& final(self).acks == old(self).acks
                },
                Outcome::Expired => {
                    &&& Self::fresh_ingress(*old(self), from_server, data@)
                    &&& Self::reply_of(*old(self), data@, now) == Reply::Expire
                    &&& final(self).state == State::Authenticating
                    &&& final(self).filter@ == Seq::<Seq<u8>>::empty()
                    &&& final(self).acks@ == Seq::<Vec<u8>>::empty()
                },
                Outcome::Reidentify { resend } => {
                    &&& Self::fresh_ingress(*old(self), from_server, data@)
                    &&& Self::reply_of(*old(self), data@, now) == Reply::ReIdentify
                    &&& final(self).state == State::Operating
                    &&& final(self).filter@ == spec_accept(old(self).filter@, data@)
                    &&& final(self).acks == old(self).acks
                    &&& match resend {
                        Some(head) => old(self).acks@.len() > 0 && head@ == old(self).acks@[0]@,
                        None => old(self).acks@.len() == 0,
                    }
                },
                Outcome::AckSingle => {
                    &&& Self::fresh_ingress(*old(self), from_server, data@)
                    &&& Self::reply_of(*old(self), data@, now) == Reply::AckOne
                    &&& final(self).state == State::Operating
                    &&& final(self).filter@ == spec_accept(old(self).filter@, data@)
                    &&& final(self).acks == old(self).acks
                },
                Outcome::AckFanout { count, acked } => {
                    &&& Self::fresh_ingress(*old(self), from_server, data@)
                    &&& Self::reply_of(*old(self), data@, now) == Reply::AckFan(count)
                    &&& final(self).state == State::Operating
                    &&& final(self).filter@ == spec_accept(old(self).filter@, data@)
                    &&& match acked {
                        Some(head) => {
                            &&& old(self).acks@.len() > 0
                            &&& head == old(self).acks@[0]
                            &&& final(self).acks@ == old(self).acks@.drop_first()
                        },
                        None => old(self).acks@.len() == 0 && final(self).acks == old(self).acks,
                    }
                },
                Outcome::ServerNotice { text } => {
                    &&& Self::fresh_ingress(*old(self), from_server, data@)
                    &&& Self::reply_of(*old(self), data@, now) == Reply::Notice(text@)
                    &&& final(self).state == State::Operating
                    &&& final(self).filter@ == spec_accept(old(self).filter@, data@)
                    &&& final(self).acks == old(self).acks
                },
                Outcome::UserMessage { body, flag, reply } => {
                    &&& Self::fresh_ingress(*old(self), from_server, data@)
                    &&& Self::reply_of(*old(self), data@, now) == Reply::User(body@, flag)
                    &&& reply == if flag == Flag::BadSig {
                        CODE_NAK
                    } else {
                        CODE_ACK
                    }
                    &&& if flag == Flag::BadSig {
                        &&& final(self).state == State::Authenticating
                        &&& final(self).filter@ == Seq::<Seq<u8>>::empty()
                        &&& final(self).acks@ == Seq::<Vec<u8>>::empty()
                    } else {
                        &&& final(self).state == State::Operating
                        &&& final(self).filter@ == spec_accept(old(self).filter@, data@)
                        &&& final(self).acks == old(self).acks
                    }
                },
            },
    {
        if !from_server {
            return Outcome::NotServer;
        }
        if data.len() <= 24 {
            return Outcome::TooShort;
        }
        let fresh = self.filter.accept(data);
        if !fresh {
            return Outcome::Duplicate;
        }
        let (valid, message) = decrypt(data, &self.pad);
        let n: usize = message.len();
        let body = subvec(&message, 0, n - 8);
        let tsb = subvec(&message, n - 8, n);
        let msgtime: i64 = bytes_i64(&tsb);
        let flag = compute_flag(valid, msgtime, now);
        proof {
            let decoded = spec_decrypt(data@, old(self).pad@);
            assert(body@ =~= decoded.1.take(decoded.1.len() - 8));
            assert(tsb@ =~= decoded.1.skip(decoded.1.len() - 8));
        }
        if flag != Flag::Clean {
            let isbad = flag == Flag::BadSig;
            if isbad {
                self.filter.clear();
                self.acks.clear();
                self.state = State::Authenticating;
            }
            return Outcome::UserMessage {
                body,
                flag,
                reply: if isbad {
                    CODE_NAK
                } else {
                    CODE_ACK
                },
            };
        }
        if body.len() == 1 && body[0] == CODE_DEAUTH {
            self.filter.clear();
            self.acks.clear();
            self.state = State::Authenticating;
            return Outcome::Expired;
        }
        if body.len() == 1 && body[0] == CODE_ACCEPT {
            let resend = if self.acks.len() > 0 {
                Some(clone_bytes(&self.acks[0]))
            } else {
                None
            };
            return Outcome::Reidentify { resend };
        }
        if body.len() == 1 && body[0] == CODE_ACK {
            return Outcome::AckSingle;
        }
        if body.len() == 3 && body[0] == CODE_ACK {
            let count: u16 = (body[1] as u16) * 256 + (body[2] as u16);
            let acked = if self.acks.len() > 0 {
                let ghost before = self.acks@;
                let head = self.acks.remove(0);
                proof {
                    assert(self.acks@ =~= before.drop_first());
                }
                Some(head)
            } else {
                None
            };
            return Outcome::AckFanout { count, acked };
        }
        if body[0] == CODE_NOTICE {
            let text = subvec(&body, 1, body.len());
            proof {
                let decoded = spec_decrypt(data@, old(self).pad@);
                assert(text@ =~= decoded.1.take(decoded.1.len() - 8).skip(1));
            }
            return Outcome::ServerNotice { text };
        }
        Outcome::UserMessage { body, flag: Flag::Clean, reply: CODE_ACK }
    }

    /// A datagram that passed the source, size and replay gates.
    pub open spec fn fresh_ingress(pre: Session, from_server: bool, data: Seq<u8>) -> bool {
        &&& from_server
        &&& data.len() > 24
        &&& !pre.filter@.contains(data)
    }

    /// The classification of a gated datagram under the session pad.
    pub open spec fn reply_of(pre: Session, data: Seq<u8>, now: i64) -> Reply {
        let decoded = spec_decrypt(data, pre.pad@);
        spec_classify(decoded.0, decoded.1, now)
    }
}

} // verus!
