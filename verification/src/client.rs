//! The presence client: connection state, handshake, framing of outbound
//! commands, and the running merge progress. All socket work is done by the
//! caller, which reports outcomes back as plain values.
use vstd::prelude::*;
use crate::errors::ClientError;
use crate::frame::{frame_bytes, encode_frame, decoded_frame, is_utf8, get_number};
use crate::json::{
    PackagePayload, PackageState, handshake_json, handshake_payload, empty_object, lit_empty_obj,
    set_activity_json, set_activity_payload,
};
use crate::num::{nonce_hex, nonce_hex_bytes};

verus! {

/// The longest identifier or package text a frame may carry; the frame's
/// 32-bit length field forces some such bound.
pub const MAX_TEXT: usize = 0x0100_0000;

/// How a socket read or write ended, as the caller observed it.
#[derive(Clone, Copy, Debug, PartialEq, Eq, Structural)]
pub enum IoStatus {
    /// The operation completed.
    Done,
    /// The peer end was gone: a broken-pipe error.
    BrokenPipe,
    /// The peer end was gone: a connection-reset error.
    ConnectionReset,
    /// Any other I/O failure.
    Failed,
}

/// The client's view of the connection and of the displayed progress.
pub struct Client {
    /// The application identifier sent in the handshake.
    pub client_id: Vec<u8>,
    /// Whether a live connection is held. A broken connection is represented
    /// as no connection at all, never as a connection in an error state.
    pub connected: bool,
    /// The largest "items remaining" count observed since the last reconnect.
    pub merge_len: Option<u32>,
}

/// The merge progress after one "set" command that observed `count` items:
/// the running maximum never regresses.
pub open spec fn merge_step(m: Option<u32>, count: u32) -> u32 {
    match m {
        Some(v) => if v >= count {
            v
        } else {
            count
        },
        None => count,
    }
}

/// The party range shown for a new running maximum: from one past the delta
/// since the maximum, up to the maximum; none when nothing remains.
pub open spec fn party_of(new_count: u32, count: u32) -> Option<(u64, u64)>
    recommends
        count <= new_count,
{
    if new_count == 0 {
        None
    } else {
        Some((((new_count - count) + 1) as u64, new_count as u64))
    }
}

/// Relies on `rand::random`, seeded by the thread-local generator; nothing is
/// promised of the value.
pub assume_specification<T>[ rand::random::<T> ]() -> (r: T)
    where rand::distributions::Standard: rand::distributions::Distribution<T>,
;

/// Draws the raw material of one nonce.
pub fn random_nonce() -> u128 {
    rand::random::<u128>()
}

impl Client {
    /// A fresh client: no connection, no progress observed.
    pub fn new(client_id: Vec<u8>) -> (r: Client)
        ensures
            r.client_id == client_id,
            !r.connected,
            r.merge_len is None,
    {
        Client { client_id, connected: false, merge_len: None }
    }

    /// Whether a live connection is held.
    pub fn is_connected(&self) -> (r: bool)
        ensures
            r == self.connected,
    {
        self.connected
    }

    /// Folds the caller's report of a socket operation into the connection
    /// state: a broken pipe or reset tears the connection down and is a lost
    /// connection; any other failure leaves the state alone.
    pub fn handle_io(&mut self, io: IoStatus) -> (r: Result<(), ClientError>)
        ensures
            final(self).client_id == old(self).client_id,
            final(self).merge_len == old(self).merge_len,
            io is Done ==> final(self).connected == old(self).connected && r is Ok,
            io is Failed ==> final(self).connected == old(self).connected && r == Err::<
                (),
                ClientError,
            >(ClientError::IOError),
            (io is BrokenPipe || io is ConnectionReset) && old(self).connected ==> (!final(
                self).connected && r == Err::<(), ClientError>(ClientError::ConnectionLost)),
            (io is BrokenPipe || io is ConnectionReset) && !old(self).connected ==> (!final(
                self).connected && r is Ok),
    {
        match io {
            IoStatus::Done => Ok(()),
            IoStatus::Failed => Err(ClientError::IOError),
            _ => {
                if self.connected {
                    self.connected = false;
                    Err(ClientError::ConnectionLost)
                } else {
                    Ok(())
                }
            },
        }
    }

    /// The frame that carries one command, ready to write; without a
    /// connection there is nothing to write on.
    pub fn send(&self, opcode: u32, payload: &Vec<u8>) -> (r: Result<Vec<u8>, ClientError>)
        requires
            payload@.len() <= u32::MAX,
        ensures
            self.connected ==> (r matches Ok(f) && f@ == frame_bytes(opcode, payload@)),
            !self.connected ==> r == Err::<Vec<u8>, ClientError>(ClientError::IOError),
    {
        if !self.connected {
            return Err(ClientError::IOError);
        }
        Ok(encode_frame(opcode, payload))
    }

    /// Reads one inbound frame out of the bytes the connection yielded: a
    /// short header is a protocol error, a payload cut short is an I/O error,
    /// and the payload must be UTF-8.
    pub fn recv(&self, bytes: &Vec<u8>) -> (r: Result<(u32, Vec<u8>), ClientError>)
        ensures
            !self.connected ==> r == Err::<(u32, Vec<u8>), ClientError>(ClientError::IOError),
            self.connected ==> match decoded_frame(bytes@) {
                Ok(f) => r matches Ok(x) && x.0 == f.0 && x.1@ == f.1,
                Err(e) => r == Err::<(u32, Vec<u8>), ClientError>(e),
            },
    {
        if !self.connected {
            return Err(ClientError::IOError);
        }
        if bytes.len() < 8 {
            return Err(ClientError::ProtocolError);
        }
        let opcode = match get_number(bytes) {
            Ok(n) => n,
            Err(e) => {
                return Err(e);
            },
        };
        let mut tail: Vec<u8> = Vec::new();
        let mut i: usize = 4;
        while i < 8
            invariant
                4 <= i <= 8,
                bytes@.len() >= 8,
                tail@ == bytes@.subrange(4, i as int),
            decreases 8 - i,
        {
            tail.push(bytes[i]);
            assert(tail@ =~= bytes@.subrange(4, i as int + 1));
            i = i + 1;
        }
        let plen = match get_number(&tail) {
            Ok(n) => n,
            Err(e) => {
                return Err(e);
            },
        };
        if bytes.len() - 8 < plen as usize {
            return Err(ClientError::IOError);
        }
        let mut payload: Vec<u8> = Vec::new();
        let mut j: usize = 8;
        let end: usize = 8 + plen as usize;
        while j < end
            invariant
                8 <= j <= end,
                end == 8 + plen,
                bytes@.len() >= end,
                payload@ == bytes@.subrange(8, j as int),
            decreases end - j,
        {
            payload.push(bytes[j]);
            assert(payload@ =~= bytes@.subrange(8, j as int + 1));
            j = j + 1;
        }
        if !is_utf8(&payload) {
            return Err(ClientError::ProtocolError);
        }
        Ok((opcode, payload))
    }

    /// The handshake frame for this client and nonce; without a connection
    /// there is nothing to write on.
    pub fn handshake(&self, nonce: u128) -> (r: Result<Vec<u8>, ClientError>)
        requires
            self.client_id@.len() <= MAX_TEXT,
        ensures
            self.connected ==> (r matches Ok(f) && f@ == frame_bytes(
                0,
                handshake_json(self.client_id@, nonce_hex(nonce as nat)),
            )),
            !self.connected ==> r == Err::<Vec<u8>, ClientError>(ClientError::IOError),
    {
        if !self.connected {
            return Err(ClientError::IOError);
        }
        let nb = nonce_hex_bytes(nonce);
        let payload = handshake_payload(&self.client_id, &nb);
        proof {
            crate::num::lemma_nonce_hex_len(nonce);
            crate::json::lemma_handshake_json_len(self.client_id@, nonce_hex(nonce as nat));
        }
        self.send(0, &payload)
    }

    /// Takes the caller's report of an endpoint resolution and a socket
    /// attempt, and yields the handshake frame to write on success. A client
    /// that is already connected does nothing.
    pub fn connect(&mut self, endpoint_found: bool, socket_ok: bool, nonce: u128) -> (r: Result<
        Option<Vec<u8>>,
        ClientError,
    >)
        requires
            old(self).client_id@.len() <= MAX_TEXT,
        ensures
            final(self).client_id == old(self).client_id,
            final(self).merge_len == old(self).merge_len,
            old(self).connected ==> final(self).connected && r is Ok && (r matches Ok(f)
                ==> f is None),
            !old(self).connected && !endpoint_found ==> !final(self).connected && r == Err::<
                Option<Vec<u8>>,
                ClientError,
            >(ClientError::EndpointNotFound),
            !old(self).connected && endpoint_found && !socket_ok ==> !final(self).connected && r
                == Err::<Option<Vec<u8>>, ClientError>(ClientError::ConnectionRefused),
            !old(self).connected && endpoint_found && socket_ok ==> final(self).connected && (
            r matches Ok(f) && f matches Some(v) && v@ == frame_bytes(
                0,
                handshake_json(old(self).client_id@, nonce_hex(nonce as nat)),
            )),
    {
        if self.connected {
            return Ok(None);
        }
        if !endpoint_found {
            return Err(ClientError::EndpointNotFound);
        }
        if !socket_ok {
            return Err(ClientError::ConnectionRefused);
        }
        self.connected = true;
        match self.handshake(nonce) {
            Ok(f) => Ok(Some(f)),
            Err(e) => Err(e),
        }
    }

    /// The disconnect notice owed to the peer before a reconnect: an
    /// empty-object frame under the disconnect opcode, when connected.
    pub fn disconnect_notice(&self) -> (r: Option<Vec<u8>>)
        ensures
            self.connected ==> (r matches Some(f) && f@ == frame_bytes(2, lit_empty_obj())),
            !self.connected ==> r is None,
    {
        if !self.connected {
            return None;
        }
        let payload = empty_object();
        match self.send(2, &payload) {
            Ok(f) => Some(f),
            Err(_) => None,
        }
    }

    /// Drops whatever connection was held and takes the caller's report of a
    /// fresh endpoint resolution and socket attempt, yielding the new
    /// handshake frame on success. The merge progress is not touched here.
    pub fn reconnect(&mut self, endpoint_found: bool, socket_ok: bool, nonce: u128) -> (r: Result<
        Vec<u8>,
        ClientError,
    >)
        requires
            old(self).client_id@.len() <= MAX_TEXT,
        ensures
            final(self).client_id == old(self).client_id,
            final(self).merge_len == old(self).merge_len,
            final(self).connected == (endpoint_found && socket_ok),
            !endpoint_found ==> r == Err::<Vec<u8>, ClientError>(ClientError::EndpointNotFound),
            endpoint_found && !socket_ok ==> r == Err::<Vec<u8>, ClientError>(
                ClientError::ConnectionRefused,
            ),
            endpoint_found && socket_ok ==> (r matches Ok(f) && f@ == frame_bytes(
                0,
                handshake_json(old(self).client_id@, nonce_hex(nonce as nat)),
            )),
    {
        self.connected = false;
        if !endpoint_found {
            return Err(ClientError::EndpointNotFound);
        }
        if !socket_ok {
            return Err(ClientError::ConnectionRefused);
        }
        self.connected = true;
        self.handshake(nonce)
    }

    /// Builds the SET_ACTIVITY frame for one package, folding the observed
    /// count into the merge progress; the progress is updated even when no
    /// connection is held and nothing can be written.
    pub fn set_package(
        &mut self,
        payload: &PackagePayload,
        count: u32,
        now_millis: u64,
        nonce: u128,
    ) -> (r: Result<Vec<u8>, ClientError>)
        requires
            payload.category@.len() <= MAX_TEXT,
            payload.package@.len() <= MAX_TEXT,
        ensures
            final(self).client_id == old(self).client_id,
            final(self).connected == old(self).connected,
            final(self).merge_len == Some(merge_step(old(self).merge_len, count)),
            old(self).connected ==> (r matches Ok(f) && f@ == frame_bytes(
                1,
                set_activity_json(
                    payload.category@,
                    payload.package@,
                    payload.state,
                    party_of(merge_step(old(self).merge_len, count), count),
                    now_millis,
                    nonce_hex(nonce as nat),
                ),
            )),
            !old(self).connected ==> r == Err::<Vec<u8>, ClientError>(ClientError::IOError),
    {
        let prev: u32 = match self.merge_len {
            Some(v) => v,
            None => 0,
        };
        let new_count: u32 = if prev >= count {
            prev
        } else {
            count
        };
        self.merge_len = Some(new_count);
        let party: Option<(u64, u64)> = if new_count == 0 {
            None
        } else {
            Some(((new_count - count) as u64 + 1, new_count as u64))
        };
        let nb = nonce_hex_bytes(nonce);
        let text = set_activity_payload(
            &payload.category,
            &payload.package,
            payload.state,
            party,
            now_millis,
            &nb,
        );
        proof {
            crate::num::lemma_nonce_hex_len(nonce);
            crate::json::lemma_set_activity_json_len(
                payload.category@,
                payload.package@,
                payload.state,
                party,
                now_millis,
                nonce_hex(nonce as nat),
            );
        }
        self.send(1, &text)
    }
}

} // verus!
