//! A tunnel connection: keys, one counter for each direction, and the
//! state of its life.
//!
//! The connection alone moves its counters. A counter goes up by one
//! before each use, so the first message of a direction has number 1 and
//! no number is used twice; a counter that cannot go up ends the
//! connection instead of wrapping round.

use vstd::prelude::*;
use crate::aead::{nonce_of, ns_and_counter_to_nonce, open_chacha20poly1305, opened_message,
    seal_chacha20poly1305, sealed_message};
use crate::error::CoreError;
use crate::htx::{decode_frame, encode_frame, frame, frame_payload};
use crate::kdf::{k0_client, k0_server, nonce_salt, KeyMaterial};

verus! {

/// The longest plaintext of one message: with the tag of 16 bytes it still
/// fits a frame.
pub const MAX_PLAINTEXT: usize = 65519;

/// Where a connection stands in its life.
#[derive(Clone, Copy, Debug, PartialEq, Eq, Structural)]
pub enum TunnelState {
    /// Keys are installed; not yet has a message gone each way.
    Handshaking,
    /// A message has gone each way.
    Open,
    /// Shutdown was asked for, or a fatal error has happened.
    Closing,
    /// The end. Nothing is sealed or opened any more.
    Closed,
}

/// The side of the connection.
#[derive(Clone, Copy, Debug, PartialEq, Eq, Structural)]
pub enum Role {
    Client,
    Server,
}

/// Whether a connection still carries traffic, and if not, how far its
/// end has come.
#[derive(Clone, Copy, Debug, PartialEq, Eq, Structural)]
enum Phase {
    Active,
    Closing,
    Closed,
}

/// A tunnel connection.
pub struct TunnelConnection {
    keys: KeyMaterial,
    role: Role,
    send_counter: u64,
    recv_counter: u64,
    phase: Phase,
}

/// A connection as plain values.
pub ghost struct TunnelModel {
    pub role: Role,
    pub state: TunnelState,
    /// The number of the last message sent.
    pub send_counter: u64,
    /// The number of the last message received.
    pub recv_counter: u64,
    pub send_key: Seq<u8>,
    pub send_salt: Seq<u8>,
    pub recv_key: Seq<u8>,
    pub recv_salt: Seq<u8>,
}

/// What an operation leaves behind: the connection and the result.
pub ghost struct Step<T> {
    pub next: TunnelModel,
    pub result: Result<T, CoreError>,
}

/// Whether messages are sealed and opened in this state.
pub open spec fn carries_traffic(state: TunnelState) -> bool {
    state is Handshaking || state is Open
}

/// The state once the counters stand as given: a handshaking connection
/// is open as soon as a message has gone each way.
pub open spec fn promoted(state: TunnelState, send_counter: u64, recv_counter: u64) -> TunnelState {
    if state is Handshaking && send_counter >= 1 && recv_counter >= 1 {
        TunnelState::Open
    } else {
        state
    }
}

/// The connection that an exporter secret sets up: handshaking, both
/// counters at 0. A client sends under the client's key and its nonce
/// salt and receives under the server's; a server the other way round.
pub open spec fn fresh_tunnel(exporter: Seq<u8>, role: Role) -> TunnelModel {
    match role {
        Role::Client => TunnelModel {
            role,
            state: TunnelState::Handshaking,
            send_counter: 0,
            recv_counter: 0,
            send_key: k0_client(exporter),
            send_salt: nonce_salt(k0_client(exporter)),
            recv_key: k0_server(exporter),
            recv_salt: nonce_salt(k0_server(exporter)),
        },
        Role::Server => TunnelModel {
            role,
            state: TunnelState::Handshaking,
            send_counter: 0,
            recv_counter: 0,
            send_key: k0_server(exporter),
            send_salt: nonce_salt(k0_server(exporter)),
            recv_key: k0_client(exporter),
            recv_salt: nonce_salt(k0_client(exporter)),
        },
    }
}

impl TunnelModel {
    /// Whether keys and salts have their lengths and the state fits the
    /// counters: a connection is handshaking as long as one direction has
    /// carried no message, and open from then on.
    pub open spec fn well_formed(self) -> bool {
        &&& self.send_key.len() == 32
        &&& self.recv_key.len() == 32
        &&& self.send_salt.len() == 12
        &&& self.recv_salt.len() == 12
        &&& self.state is Handshaking ==> self.send_counter == 0 || self.recv_counter == 0
        &&& self.state is Open ==> self.send_counter >= 1 && self.recv_counter >= 1
    }

    /// The connection in another state.
    pub open spec fn in_state(self, state: TunnelState) -> TunnelModel {
        TunnelModel { state, ..self }
    }

    /// The connection after one more message sent.
    pub open spec fn sent(self) -> TunnelModel {
        TunnelModel {
            send_counter: (self.send_counter + 1) as u64,
            state: promoted(self.state, (self.send_counter + 1) as u64, self.recv_counter),
            ..self
        }
    }

    /// The connection after one more message received.
    pub open spec fn received(self) -> TunnelModel {
        TunnelModel {
            recv_counter: (self.recv_counter + 1) as u64,
            state: promoted(self.state, self.send_counter, (self.recv_counter + 1) as u64),
            ..self
        }
    }

    /// What asking for the next nonce to send under leaves behind. A
    /// connection that carries no traffic refuses and stays as it is. A
    /// counter at its end is a protocol violation and the connection goes
    /// to closing. Otherwise the counter goes up and gives the nonce.
    pub open spec fn after_next_send_nonce(self) -> Step<Seq<u8>> {
        if !carries_traffic(self.state) {
            Step { next: self, result: Err(CoreError::ConnectionClosed) }
        } else if self.send_counter == u64::MAX {
            Step {
                next: self.in_state(TunnelState::Closing),
                result: Err(CoreError::ProtocolViolation),
            }
        } else {
            Step {
                next: self.sent(),
                result: Ok(nonce_of(self.send_salt, (self.send_counter + 1) as u64)),
            }
        }
    }

    /// What checking a received nonce leaves behind. Only the nonce of the
    /// next message is accepted; any other, an earlier one among them, is a
    /// protocol violation and the connection goes to closing.
    pub open spec fn after_validate_receive_nonce(self, nonce: Seq<u8>) -> Step<()> {
        if !carries_traffic(self.state) {
            Step { next: self, result: Err(CoreError::ConnectionClosed) }
        } else if self.recv_counter == u64::MAX || nonce != nonce_of(
            self.recv_salt,
            (self.recv_counter + 1) as u64,
        ) {
            Step {
                next: self.in_state(TunnelState::Closing),
                result: Err(CoreError::ProtocolViolation),
            }
        } else {
            Step { next: self.received(), result: Ok(()) }
        }
    }

    /// What sealing a message leaves behind. A connection that carries no
    /// traffic refuses, and so does a plaintext too long for a frame; both
    /// leave the connection as it is. A counter at its end is a protocol
    /// violation. Otherwise the counter goes up and the cipher seals under
    /// the new number: the result is the frame of what it gives, and what
    /// it refuses is fatal.
    pub open spec fn after_seal(self, aad: Seq<u8>, plain: Seq<u8>) -> Step<Seq<u8>> {
        if !carries_traffic(self.state) {
            Step { next: self, result: Err(CoreError::ConnectionClosed) }
        } else if plain.len() > MAX_PLAINTEXT {
            Step { next: self, result: Err(CoreError::MalformedInput) }
        } else if self.send_counter == u64::MAX {
            Step {
                next: self.in_state(TunnelState::Closing),
                result: Err(CoreError::ProtocolViolation),
            }
        } else {
            match sealed_message(
                self.send_key,
                self.send_salt,
                (self.send_counter + 1) as u64,
                aad,
                plain,
            ) {
                Some(sealed) => Step { next: self.sent(), result: Ok(frame(sealed)) },
                None => Step {
                    next: self.sent().in_state(TunnelState::Closing),
                    result: Err(CoreError::Io),
                },
            }
        }
    }

    /// What opening the frame at the front of `buf` leaves behind. A
    /// connection that carries no traffic refuses, and a frame that is
    /// not yet complete asks for more bytes; both leave the connection as
    /// it is. A counter at its end is a protocol violation. Otherwise the
    /// cipher opens under the next number: on success the counter goes up
    /// and the result is the plaintext; a failed authentication is fatal
    /// and gives nothing of the message.
    pub open spec fn after_open(self, aad: Seq<u8>, buf: Seq<u8>) -> Step<Seq<u8>> {
        if !carries_traffic(self.state) {
            Step { next: self, result: Err(CoreError::ConnectionClosed) }
        } else {
            match frame_payload(buf) {
                None => Step { next: self, result: Err(CoreError::IncompleteData) },
                Some(sealed) => if self.recv_counter == u64::MAX {
                    Step {
                        next: self.in_state(TunnelState::Closing),
                        result: Err(CoreError::ProtocolViolation),
                    }
                } else {
                    match opened_message(
                        self.recv_key,
                        self.recv_salt,
                        (self.recv_counter + 1) as u64,
                        aad,
                        sealed,
                    ) {
                        Some(plain) => Step { next: self.received(), result: Ok(plain) },
                        None => Step {
                            next: self.in_state(TunnelState::Closing),
                            result: Err(CoreError::AuthenticationFailed),
                        },
                    }
                },
            }
        }
    }

    /// The connection after a request to shut down.
    pub open spec fn after_shutdown(self) -> TunnelModel {
        if carries_traffic(self.state) {
            self.in_state(TunnelState::Closing)
        } else {
            self
        }
    }
}

/// Whether a result with bytes is the given result of plain values.
pub open spec fn same_bytes(r: Result<Vec<u8>, CoreError>, m: Result<Seq<u8>, CoreError>) -> bool {
    match r {
        Ok(bytes) => m == Ok::<Seq<u8>, CoreError>(bytes@),
        Err(e) => m == Err::<Seq<u8>, CoreError>(e),
    }
}

/// Tells whether two slices hold the same bytes.
fn same_slice(a: &[u8], b: &[u8]) -> (same: bool)
    ensures
        same == (a@ == b@),
{
    if a.len() != b.len() {
        return false;
    }
    let mut i: usize = 0;
    while i < a.len()
        invariant
            i <= a@.len(),
            a@.len() == b@.len(),
            forall|j: int| 0 <= j < i ==> a@[j] == b@[j],
        decreases a.len() - i,
    {
        if a[i] != b[i] {
            return false;
        }
        i += 1;
    }
    assert(a@ =~= b@);
    true
}

impl TunnelConnection {
    /// Whether the keys have 32 bytes and the salts 12. Every connection
    /// is built so and stays so.
    #[verifier::type_invariant]
    closed spec fn keys_well_formed(&self) -> bool {
        self.keys.well_formed()
    }

    /// The state that the connection shows: while it carries traffic it is
    /// handshaking until a message has gone each way, and open from then
    /// on.
    closed spec fn shown_state(&self) -> TunnelState {
        match self.phase {
            Phase::Active => promoted(
                TunnelState::Handshaking,
                self.send_counter,
                self.recv_counter,
            ),
            Phase::Closing => TunnelState::Closing,
            Phase::Closed => TunnelState::Closed,
        }
    }

    /// The connection as plain values. A client sends under the client's
    /// key and salt and receives under the server's; a server the other
    /// way round.
    pub closed spec fn view(&self) -> TunnelModel {
        match self.role {
            Role::Client => TunnelModel {
                role: self.role,
                state: self.shown_state(),
                send_counter: self.send_counter,
                recv_counter: self.recv_counter,
                send_key: self.keys.k0_client@,
                send_salt: self.keys.ns_client@,
                recv_key: self.keys.k0_server@,
                recv_salt: self.keys.ns_server@,
            },
            Role::Server => TunnelModel {
                role: self.role,
                state: self.shown_state(),
                send_counter: self.send_counter,
                recv_counter: self.recv_counter,
                send_key: self.keys.k0_server@,
                send_salt: self.keys.ns_server@,
                recv_key: self.keys.k0_client@,
                recv_salt: self.keys.ns_client@,
            },
        }
    }

    /// Sets up a connection at the end of the handshake: derives the keys
    /// from the 32-byte exporter secret and starts both counters at 0.
    pub fn new(exporter: &[u8], role: Role) -> (conn: TunnelConnection)
        requires
            exporter@.len() == 32,
        ensures
            conn@ == fresh_tunnel(exporter@, role),
            conn@.well_formed(),
    {
        TunnelConnection {
            keys: KeyMaterial::derive(exporter),
            role,
            send_counter: 0,
            recv_counter: 0,
            phase: Phase::Active,
        }
    }

    /// The state of the connection.
    pub fn state(&self) -> (state: TunnelState)
        ensures
            state == self@.state,
    {
        match self.phase {
            Phase::Active => {
                if self.send_counter >= 1 && self.recv_counter >= 1 {
                    TunnelState::Open
                } else {
                    TunnelState::Handshaking
                }
            },
            Phase::Closing => TunnelState::Closing,
            Phase::Closed => TunnelState::Closed,
        }
    }

    /// Moves the send counter up and gives the nonce of the message to
    /// send.
    pub fn next_send_nonce(&mut self) -> (r: Result<[u8; 12], CoreError>)
        ensures
            final(self)@ == old(self)@.after_next_send_nonce().next,
            final(self)@.well_formed(),
            match r {
                Ok(nonce) => old(self)@.after_next_send_nonce().result == Ok::<
                    Seq<u8>,
                    CoreError,
                >(nonce@),
                Err(e) => old(self)@.after_next_send_nonce().result == Err::<Seq<u8>, CoreError>(
                    e,
                ),
            },
    {
        proof {
            use_type_invariant(&*self);
        }
        if !self.carries() {
            return Err(CoreError::ConnectionClosed);
        }
        if self.send_counter == u64::MAX {
            self.phase = Phase::Closing;
            return Err(CoreError::ProtocolViolation);
        }
        self.send_counter = self.send_counter + 1;
        let nonce: [u8; 12] = match self.role {
            Role::Client => ns_and_counter_to_nonce(
                self.keys.ns_client.as_slice(),
                self.send_counter,
            ),
            Role::Server => ns_and_counter_to_nonce(
                self.keys.ns_server.as_slice(),
                self.send_counter,
            ),
        };
        Ok(nonce)
    }

    /// Checks that `nonce` is the nonce of the next message to receive,
    /// and moves the receive counter up if it is.
    pub fn validate_receive_nonce(&mut self, nonce: &[u8]) -> (r: Result<(), CoreError>)
        ensures
            final(self)@ == old(self)@.after_validate_receive_nonce(nonce@).next,
            final(self)@.well_formed(),
            r == old(self)@.after_validate_receive_nonce(nonce@).result,
    {
        proof {
            use_type_invariant(&*self);
        }
        if !self.carries() {
            return Err(CoreError::ConnectionClosed);
        }
        if self.recv_counter == u64::MAX {
            self.phase = Phase::Closing;
            return Err(CoreError::ProtocolViolation);
        }
        let expected: [u8; 12] = match self.role {
            Role::Client => ns_and_counter_to_nonce(
                self.keys.ns_server.as_slice(),
                self.recv_counter + 1,
            ),
            Role::Server => ns_and_counter_to_nonce(
                self.keys.ns_client.as_slice(),
                self.recv_counter + 1,
            ),
        };
        if !same_slice(nonce, expected.as_slice()) {
            self.phase = Phase::Closing;
            return Err(CoreError::ProtocolViolation);
        }
        self.recv_counter = self.recv_counter + 1;
        Ok(())
    }

    /// Seals `plaintext` as the next message of the send direction and
    /// frames it. A connection that carries traffic seals every plaintext
    /// that fits a frame, until its counter is at its end.
    pub fn seal(&mut self, aad: &[u8], plaintext: &[u8]) -> (r: Result<Vec<u8>, CoreError>)
        ensures
            final(self)@ == old(self)@.after_seal(aad@, plaintext@).next,
            final(self)@.well_formed(),
            same_bytes(r, old(self)@.after_seal(aad@, plaintext@).result),
            (carries_traffic(old(self)@.state) && plaintext@.len() <= MAX_PLAINTEXT
                && old(self)@.send_counter < u64::MAX) ==> r is Ok,
    {
        proof {
            use_type_invariant(&*self);
        }
        if !self.carries() {
            return Err(CoreError::ConnectionClosed);
        }
        if plaintext.len() > MAX_PLAINTEXT {
            return Err(CoreError::MalformedInput);
        }
        if self.send_counter == u64::MAX {
            self.phase = Phase::Closing;
            return Err(CoreError::ProtocolViolation);
        }
        self.send_counter = self.send_counter + 1;
        let sealed: Result<Vec<u8>, CoreError> = match self.role {
            Role::Client => seal_chacha20poly1305(
                self.keys.k0_client.as_slice(),
                self.keys.ns_client.as_slice(),
                self.send_counter,
                aad,
                plaintext,
            ),
            Role::Server => seal_chacha20poly1305(
                self.keys.k0_server.as_slice(),
                self.keys.ns_server.as_slice(),
                self.send_counter,
                aad,
                plaintext,
            ),
        };
        match sealed {
            Ok(bytes) => {
                        Ok(encode_frame(bytes.as_slice()))
            },
            Err(_) => {
                self.phase = Phase::Closing;
                Err(CoreError::Io)
            },
        }
    }

    /// Opens the frame at the front of `buf` as the next message of the
    /// receive direction. The frame takes two bytes more than its payload;
    /// the caller drops that many bytes from its buffer after a success.
    pub fn open(&mut self, aad: &[u8], buf: &[u8]) -> (r: Result<Vec<u8>, CoreError>)
        ensures
            final(self)@ == old(self)@.after_open(aad@, buf@).next,
            final(self)@.well_formed(),
            same_bytes(r, old(self)@.after_open(aad@, buf@).result),
    {
        proof {
            use_type_invariant(&*self);
        }
        if !self.carries() {
            return Err(CoreError::ConnectionClosed);
        }
        let sealed: Vec<u8> = match decode_frame(buf) {
            Some(sealed) => sealed,
            None => {
                return Err(CoreError::IncompleteData);
            },
        };
        if self.recv_counter == u64::MAX {
            self.phase = Phase::Closing;
            return Err(CoreError::ProtocolViolation);
        }
        let opened: Result<Vec<u8>, CoreError> = match self.role {
            Role::Client => open_chacha20poly1305(
                self.keys.k0_server.as_slice(),
                self.keys.ns_server.as_slice(),
                self.recv_counter + 1,
                aad,
                sealed.as_slice(),
            ),
            Role::Server => open_chacha20poly1305(
                self.keys.k0_client.as_slice(),
                self.keys.ns_client.as_slice(),
                self.recv_counter + 1,
                aad,
                sealed.as_slice(),
            ),
        };
        match opened {
            Ok(plain) => {
                self.recv_counter = self.recv_counter + 1;
                        Ok(plain)
            },
            Err(_) => {
                self.phase = Phase::Closing;
                Err(CoreError::AuthenticationFailed)
            },
        }
    }

    /// Asks the connection to shut down: it stops carrying traffic.
    pub fn shutdown(&mut self)
        ensures
            final(self)@ == old(self)@.after_shutdown(),
            final(self)@.well_formed(),
    {
        proof {
            use_type_invariant(&*self);
        }
        if self.carries() {
            self.phase = Phase::Closing;
        }
    }

    /// Ends the connection for good.
    pub fn close(&mut self)
        ensures
            final(self)@ == old(self)@.in_state(TunnelState::Closed),
            final(self)@.well_formed(),
    {
        proof {
            use_type_invariant(&*self);
        }
        self.phase = Phase::Closed;
    }

    /// Tells whether the connection carries traffic.
    fn carries(&self) -> (b: bool)
        ensures
            b == carries_traffic(self@.state),
    {
        match self.phase {
            Phase::Active => true,
            _ => false,
        }
    }
}

/// No operation brings a closed connection back: sealing and opening fail
/// with `ConnectionClosed` and leave it closed.
pub proof fn lemma_closed_is_terminal(m: TunnelModel, aad: Seq<u8>, bytes: Seq<u8>)
    requires
        m.state is Closed,
    ensures
        m.after_seal(aad, bytes) == (Step::<Seq<u8>> {
            next: m,
            result: Err(CoreError::ConnectionClosed),
        }),
        m.after_open(aad, bytes) == (Step::<Seq<u8>> {
            next: m,
            result: Err(CoreError::ConnectionClosed),
        }),
        m.after_next_send_nonce().next == m,
        m.after_validate_receive_nonce(bytes).next == m,
        m.after_shutdown() == m,
{
}

/// Every message that a direction seals has a number above all earlier
/// ones: a successful seal moves the send counter up by exactly one and
/// seals under the new number.
pub proof fn lemma_seal_moves_counter(m: TunnelModel, aad: Seq<u8>, plain: Seq<u8>)
    requires
        m.after_seal(aad, plain).result is Ok,
    ensures
        m.after_seal(aad, plain).next.send_counter == m.send_counter + 1,
        m.after_seal(aad, plain).next.send_salt == m.send_salt,
        m.after_seal(aad, plain).next.send_key == m.send_key,
        sealed_message(m.send_key, m.send_salt, (m.send_counter + 1) as u64, aad, plain) is Some,
{
}

} // verus!
