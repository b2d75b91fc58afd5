//! The debounce/reconnect controller and the per-iteration command handling:
//! what one drained burst of commands does to the client, and when a pending
//! unset turns into a reconnect.
use vstd::prelude::*;
use crate::errors::ClientError;
use crate::client::{Client, MAX_TEXT, merge_step, party_of};
use crate::frame::{frame_bytes, is_utf8, utf8_valid};
use crate::json::{handshake_json, set_activity_json};
use crate::num::nonce_hex;
use crate::parse::{
    last_seg, last_command, is_set_cmd, is_unset_cmd, is_set_cmd_x, is_unset_cmd_x, set_arg,
    set_arg_x, parsed_payload, parse_package_payload, lemma_parsed_payload_len, tail_after_zero,
    trimmed,
};

verus! {

/// How long an unset may stay pending before it turns into a reconnect,
/// in milliseconds.
pub const UNSET_GRACE_MILLIS: u64 = 30000;

/// What one command is, by its prefix.
#[derive(Clone, Copy, Debug, PartialEq, Eq, Structural)]
pub enum CommandKind {
    /// A "set" command.
    SetCmd,
    /// An "unset" command.
    UnsetCmd,
    /// Anything else, which does nothing.
    OtherCmd,
}

/// The kind of a command text.
pub open spec fn kind_of(seg: Seq<u8>) -> CommandKind {
    if is_set_cmd(seg) {
        CommandKind::SetCmd
    } else if is_unset_cmd(seg) {
        CommandKind::UnsetCmd
    } else {
        CommandKind::OtherCmd
    }
}

/// What one processed command does to the pending-unset mark: a set cancels
/// it, an unset renews it, anything else leaves it.
pub open spec fn debounce_step(lu: Option<u64>, k: CommandKind, now: u64) -> Option<u64> {
    match k {
        CommandKind::SetCmd => None,
        CommandKind::UnsetCmd => Some(now),
        CommandKind::OtherCmd => lu,
    }
}

/// The pending-unset mark after a sequence of processed commands.
pub open spec fn debounce_run(lu: Option<u64>, evts: Seq<(CommandKind, u64)>) -> Option<u64>
    decreases evts.len(),
{
    if evts.len() == 0 {
        lu
    } else {
        debounce_step(debounce_run(lu, evts.drop_last()), evts.last().0, evts.last().1)
    }
}

/// Whether a pending unset has outlived its grace period.
pub open spec fn due(lu: Option<u64>, now: u64) -> bool {
    match lu {
        Some(t) => now >= t && now - t > UNSET_GRACE_MILLIS,
        None => false,
    }
}

/// The pending-unset mark after the loop's tick check: a due mark has been
/// turned into a reconnect and cleared.
pub open spec fn after_tick(lu: Option<u64>, now: u64) -> Option<u64> {
    if due(lu, now) {
        None
    } else {
        lu
    }
}

/// Law: after any burst of set and unset commands and one tick check, the
/// controller is pending exactly when the last command processed was an
/// unset whose grace period has not yet passed, and the mark carries that
/// unset's time.
pub proof fn lemma_pending_unset_iff_last_unset(
    lu0: Option<u64>,
    evts: Seq<(CommandKind, u64)>,
    now: u64,
)
    requires
        evts.len() > 0,
        forall|i: int| 0 <= i < evts.len() ==> #[trigger] evts[i].0 != CommandKind::OtherCmd,
    ensures
        debounce_run(lu0, evts) == (if evts.last().0 is UnsetCmd {
            Some(evts.last().1)
        } else {
            None::<u64>
        }),
        after_tick(debounce_run(lu0, evts), now) == (if evts.last().0 is UnsetCmd && !due(
            Some(evts.last().1),
            now,
        ) {
            Some(evts.last().1)
        } else {
            None::<u64>
        }),
{
    assert(evts[evts.len() - 1].0 != CommandKind::OtherCmd);
}

/// The merge progress value a mark stands for.
pub open spec fn merge_val(m: Option<u32>) -> u32 {
    match m {
        Some(v) => v,
        None => 0,
    }
}

/// The merge progress after a sequence of "set" commands that observed the
/// given counts.
pub open spec fn merge_run(m: Option<u32>, counts: Seq<u32>) -> Option<u32>
    decreases counts.len(),
{
    if counts.len() == 0 {
        m
    } else {
        Some(merge_step(merge_run(m, counts.drop_last()), counts.last()))
    }
}

/// Law: across consecutive "set" commands, the merge progress never
/// decreases: any earlier prefix of the observed counts yields a value no
/// larger than any later prefix. It resets only when a reconnect clears it.
pub proof fn lemma_merge_progress_monotone(m: Option<u32>, counts: Seq<u32>, i: int, j: int)
    requires
        0 <= i <= j <= counts.len(),
    ensures
        merge_val(merge_run(m, counts.subrange(0, i))) <= merge_val(
            merge_run(m, counts.subrange(0, j)),
        ),
    decreases j - i,
{
    if i < j {
        lemma_merge_progress_monotone(m, counts, i, j - 1);
        assert(counts.subrange(0, j).drop_last() =~= counts.subrange(0, j - 1));
    }
}

proof fn lemma_tail_after_zero_len(t: Seq<u8>)
    ensures
        tail_after_zero(t).len() <= t.len(),
    decreases t.len(),
{
    if t.len() > 0 && t.last() != 0 {
        lemma_tail_after_zero_len(t.drop_last());
    }
}

/// The session an event loop drives: the client, and the time of the most
/// recent unset still pending.
pub struct Session {
    /// The protocol client.
    pub client: Client,
    /// When the most recent unset command arrived, while none newer has been
    /// cancelled or honoured.
    pub last_unset: Option<u64>,
}

impl Session {
    /// A fresh session around a client: nothing pending.
    pub fn new(client: Client) -> (r: Session)
        ensures
            r.client == client,
            r.last_unset is None,
    {
        Session { client, last_unset: None }
    }

    /// Whether the last command of the burst is a "set" command, so the
    /// caller knows to ask the progress provider before handling it.
    pub fn command_is_set(buf: &Vec<u8>) -> (r: bool)
        ensures
            r == is_set_cmd(last_seg(buf@)),
    {
        let seg = last_command(buf);
        is_set_cmd_x(&seg)
    }

    /// Handles one drained burst of commands: only the last command counts.
    /// A "set" builds the SET_ACTIVITY frame to write and cancels any pending
    /// unset; an "unset" only marks the time; the buffer is cleared once the
    /// burst is handled, and kept on any failure, as an accumulator.
    pub fn handle_buffer(
        &mut self,
        buf: &mut Vec<u8>,
        now: u64,
        count: u32,
        now_millis: u64,
        nonce: u128,
    ) -> (r: Result<Option<Vec<u8>>, ClientError>)
        requires
            old(self).client.client_id@.len() <= MAX_TEXT,
            old(buf)@.len() <= MAX_TEXT,
        ensures
            final(self).client.client_id == old(self).client.client_id,
            final(self).client.connected == old(self).client.connected,
            utf8_valid(old(buf)@) && (is_set_cmd(last_seg(old(buf)@)) ==> (parsed_payload(
                set_arg(last_seg(old(buf)@)),
            ) is Some && old(self).client.connected)) ==> final(self).last_unset == debounce_step(
                old(self).last_unset,
                kind_of(last_seg(old(buf)@)),
                now,
            ),
            !utf8_valid(old(buf)@) ==> *final(self) == *old(self) && final(buf)@ == old(buf)@ && r
                == Err::<Option<Vec<u8>>, ClientError>(ClientError::ProtocolError),
            utf8_valid(old(buf)@) ==> ({
                let seg = last_seg(old(buf)@);
                &&& is_set_cmd(seg) ==> match parsed_payload(set_arg(seg)) {
                    None => *final(self) == *old(self) && final(buf)@ == old(buf)@ && r == Err::<
                        Option<Vec<u8>>,
                        ClientError,
                    >(ClientError::ProtocolError),
                    Some(t) => {
                        &&& final(self).client.merge_len == Some(
                            merge_step(old(self).client.merge_len, count),
                        )
                        &&& old(self).client.connected ==> (r matches Ok(f) && f matches Some(v)
                            && v@ == frame_bytes(
                            1,
                            set_activity_json(
                                t.0,
                                t.1,
                                t.2,
                                party_of(merge_step(old(self).client.merge_len, count), count),
                                now_millis,
                                nonce_hex(nonce as nat),
                            ),
                        ) && final(self).last_unset is None && final(buf)@.len() == 0)
                        &&& !old(self).client.connected ==> (r == Err::<
                            Option<Vec<u8>>,
                            ClientError,
                        >(ClientError::IOError) && final(self).last_unset == old(self).last_unset
                            && final(buf)@ == old(buf)@)
                    },
                }
                &&& !is_set_cmd(seg) && is_unset_cmd(seg) ==> final(self).client
                    == old(self).client && final(self).last_unset == Some(now)
                    && final(buf)@.len() == 0 && (r matches Ok(f) && f is None)
                &&& !is_set_cmd(seg) && !is_unset_cmd(seg) ==> *final(self) == *old(self)
                    && final(buf)@.len() == 0 && (r matches Ok(f) && f is None)
            }),
    {
        if !is_utf8(buf) {
            return Err(ClientError::ProtocolError);
        }
        let seg = last_command(buf);
        proof {
            lemma_tail_after_zero_len(trimmed(buf@));
        }
        if is_set_cmd_x(&seg) {
            let arg = set_arg_x(&seg);
            let payload = match parse_package_payload(&arg) {
                Some(p) => p,
                None => {
                    return Err(ClientError::ProtocolError);
                },
            };
            proof {
                lemma_parsed_payload_len(arg@);
            }
            match self.client.set_package(&payload, count, now_millis, nonce) {
                Ok(f) => {
                    self.last_unset = None;
                    buf.clear();
                    Ok(Some(f))
                },
                Err(e) => Err(e),
            }
        } else if is_unset_cmd_x(&seg) {
            self.last_unset = Some(now);
            buf.clear();
            Ok(None)
        } else {
            buf.clear();
            Ok(None)
        }
    }

    /// Whether the pending unset's grace period has passed, so the caller
    /// knows to tear the connection down and resolve the endpoint afresh.
    pub fn tick_due(&self, now: u64) -> (r: bool)
        ensures
            r == due(self.last_unset, now),
    {
        match self.last_unset {
            Some(t) => now >= t && now - t > UNSET_GRACE_MILLIS,
            None => false,
        }
    }

    /// Honours a due unset: the only way displayed activity is cleared is a
    /// fresh connection, so the client reconnects, the merge progress resets,
    /// and the controller returns to idle whether or not the reconnect
    /// succeeded.
    pub fn tick_reconnect(&mut self, endpoint_found: bool, socket_ok: bool, nonce: u128) -> (r:
        Result<Vec<u8>, ClientError>)
        requires
            old(self).client.client_id@.len() <= MAX_TEXT,
        ensures
            final(self).last_unset is None,
            final(self).client.client_id == old(self).client.client_id,
            final(self).client.connected == (endpoint_found && socket_ok),
            endpoint_found && socket_ok ==> (r matches Ok(f) && f@ == frame_bytes(
                0,
                handshake_json(old(self).client.client_id@, nonce_hex(nonce as nat)),
            ) && final(self).client.merge_len is None),
            !endpoint_found ==> r == Err::<Vec<u8>, ClientError>(ClientError::EndpointNotFound)
                && final(self).client.merge_len == old(self).client.merge_len,
            endpoint_found && !socket_ok ==> r == Err::<Vec<u8>, ClientError>(
                ClientError::ConnectionRefused,
            ) && final(self).client.merge_len == old(self).client.merge_len,
    {
        match self.client.reconnect(endpoint_found, socket_ok, nonce) {
            Ok(f) => {
                self.client.merge_len = None;
                self.last_unset = None;
                Ok(f)
            },
            Err(e) => {
                self.last_unset = None;
                Err(e)
            },
        }
    }
}

} // verus!
