//! The JSON texts the client sends: the handshake payload, the disconnect
//! notice, and the SET_ACTIVITY command, as exact byte sequences.
use vstd::prelude::*;
use crate::num::{dec_rep, hex_digit, push_dec};

verus! {

/// Bytes of the text `/discord-ipc-`.
pub open spec fn lit_ipc_infix() -> Seq<u8> {
    seq![0x2fu8, 0x64, 0x69, 0x73, 0x63, 0x6f, 0x72, 0x64, 0x2d, 0x69, 0x70, 0x63, 0x2d]
}

pub(crate) fn push_lit_ipc_infix(out: &mut Vec<u8>)
    ensures
        final(out)@ == old(out)@ + lit_ipc_infix(),
{
    out.push(0x2f); out.push(0x64); out.push(0x69); out.push(0x73); out.push(0x63);
    out.push(0x6f); out.push(0x72); out.push(0x64); out.push(0x2d); out.push(0x69);
    out.push(0x70); out.push(0x63); out.push(0x2d);
    assert(out@ =~= old(out)@ + lit_ipc_infix());
}

/// Bytes of the text `/tmp`.
pub open spec fn lit_tmp_base() -> Seq<u8> {
    seq![0x2fu8, 0x74, 0x6d, 0x70]
}

pub(crate) fn push_lit_tmp_base(out: &mut Vec<u8>)
    ensures
        final(out)@ == old(out)@ + lit_tmp_base(),
{
    out.push(0x2f); out.push(0x74); out.push(0x6d); out.push(0x70);
    assert(out@ =~= old(out)@ + lit_tmp_base());
}

/// Bytes of the text `{"client_id":"`.
pub open spec fn lit_hs_a() -> Seq<u8> {
    seq![0x7bu8, 0x22, 0x63, 0x6c, 0x69, 0x65, 0x6e, 0x74, 0x5f, 0x69, 0x64, 0x22, 0x3a, 0x22]
}

#[verifier::rlimit(20)]
pub(crate) fn push_lit_hs_a(out: &mut Vec<u8>)
    ensures
        final(out)@ == old(out)@ + lit_hs_a(),
{
    out.push(0x7b); out.push(0x22); out.push(0x63); out.push(0x6c); out.push(0x69);
    out.push(0x65); out.push(0x6e); out.push(0x74); out.push(0x5f); out.push(0x69);
    out.push(0x64); out.push(0x22); out.push(0x3a); out.push(0x22);
    assert(out@ =~= old(out)@ + lit_hs_a());
}

/// Bytes of the text `","nonce":"`.
pub open spec fn lit_hs_b() -> Seq<u8> {
    seq![0x22u8, 0x2c, 0x22, 0x6e, 0x6f, 0x6e, 0x63, 0x65, 0x22, 0x3a, 0x22]
}

#[verifier::rlimit(20)]
pub(crate) fn push_lit_hs_b(out: &mut Vec<u8>)
    ensures
        final(out)@ == old(out)@ + lit_hs_b(),
{
    out.push(0x22); out.push(0x2c); out.push(0x22); out.push(0x6e); out.push(0x6f);
    out.push(0x6e); out.push(0x63); out.push(0x65); out.push(0x22); out.push(0x3a);
    out.push(0x22);
    assert(out@ =~= old(out)@ + lit_hs_b());
}

/// Bytes of the text `","v":1}`.
pub open spec fn lit_hs_c() -> Seq<u8> {
    seq![0x22u8, 0x2c, 0x22, 0x76, 0x22, 0x3a, 0x31, 0x7d]
}

pub(crate) fn push_lit_hs_c(out: &mut Vec<u8>)
    ensures
        final(out)@ == old(out)@ + lit_hs_c(),
{
    out.push(0x22); out.push(0x2c); out.push(0x22); out.push(0x76); out.push(0x22);
    out.push(0x3a); out.push(0x31); out.push(0x7d);
    assert(out@ =~= old(out)@ + lit_hs_c());
}

/// Bytes of the text `{"args":{"activity":{"assets":{"large_image":"gentoodrpgt"},"details":"`.
pub open spec fn lit_act_open() -> Seq<u8> {
    seq![0x7bu8, 0x22, 0x61, 0x72, 0x67, 0x73, 0x22, 0x3a, 0x7b, 0x22, 0x61, 0x63, 0x74, 0x69, 0x76, 0x69, 0x74, 0x79, 0x22, 0x3a, 0x7b, 0x22, 0x61, 0x73, 0x73, 0x65, 0x74, 0x73, 0x22, 0x3a, 0x7b, 0x22, 0x6c, 0x61, 0x72, 0x67, 0x65, 0x5f, 0x69, 0x6d, 0x61, 0x67, 0x65, 0x22, 0x3a, 0x22, 0x67, 0x65, 0x6e, 0x74, 0x6f, 0x6f, 0x64, 0x72, 0x70, 0x67, 0x74, 0x22, 0x7d, 0x2c, 0x22, 0x64, 0x65, 0x74, 0x61, 0x69, 0x6c, 0x73, 0x22, 0x3a, 0x22]
}

#[verifier::rlimit(60)]
pub(crate) fn push_lit_act_open(out: &mut Vec<u8>)
    ensures
        final(out)@ == old(out)@ + lit_act_open(),
{
    out.push(0x7b); out.push(0x22); out.push(0x61); out.push(0x72); out.push(0x67);
    out.push(0x73); out.push(0x22); out.push(0x3a); out.push(0x7b); out.push(0x22);
    out.push(0x61); out.push(0x63); out.push(0x74); out.push(0x69); out.push(0x76);
    out.push(0x69); out.push(0x74); out.push(0x79); out.push(0x22); out.push(0x3a);
    out.push(0x7b); out.push(0x22); out.push(0x61); out.push(0x73); out.push(0x73);
    out.push(0x65); out.push(0x74); out.push(0x73); out.push(0x22); out.push(0x3a);
    out.push(0x7b); out.push(0x22); out.push(0x6c); out.push(0x61); out.push(0x72);
    out.push(0x67); out.push(0x65); out.push(0x5f); out.push(0x69); out.push(0x6d);
    out.push(0x61); out.push(0x67); out.push(0x65); out.push(0x22); out.push(0x3a);
    out.push(0x22); out.push(0x67); out.push(0x65); out.push(0x6e); out.push(0x74);
    out.push(0x6f); out.push(0x6f); out.push(0x64); out.push(0x72); out.push(0x70);
    out.push(0x67); out.push(0x74); out.push(0x22); out.push(0x7d); out.push(0x2c);
    out.push(0x22); out.push(0x64); out.push(0x65); out.push(0x74); out.push(0x61);
    out.push(0x69); out.push(0x6c); out.push(0x73); out.push(0x22); out.push(0x3a);
    out.push(0x22);
    assert(out@ =~= old(out)@ + lit_act_open());
}

/// Bytes of the text `,"party":{"id":"id","size":[`.
pub open spec fn lit_party_open() -> Seq<u8> {
    seq![0x2cu8, 0x22, 0x70, 0x61, 0x72, 0x74, 0x79, 0x22, 0x3a, 0x7b, 0x22, 0x69, 0x64, 0x22, 0x3a, 0x22, 0x69, 0x64, 0x22, 0x2c, 0x22, 0x73, 0x69, 0x7a, 0x65, 0x22, 0x3a, 0x5b]
}

#[verifier::rlimit(30)]
pub(crate) fn push_lit_party_open(out: &mut Vec<u8>)
    ensures
        final(out)@ == old(out)@ + lit_party_open(),
{
    out.push(0x2c); out.push(0x22); out.push(0x70); out.push(0x61); out.push(0x72);
    out.push(0x74); out.push(0x79); out.push(0x22); out.push(0x3a); out.push(0x7b);
    out.push(0x22); out.push(0x69); out.push(0x64); out.push(0x22); out.push(0x3a);
    out.push(0x22); out.push(0x69); out.push(0x64); out.push(0x22); out.push(0x2c);
    out.push(0x22); out.push(0x73); out.push(0x69); out.push(0x7a); out.push(0x65);
    out.push(0x22); out.push(0x3a); out.push(0x5b);
    assert(out@ =~= old(out)@ + lit_party_open());
}

/// Bytes of the text `]}`.
pub open spec fn lit_party_close() -> Seq<u8> {
    seq![0x5du8, 0x7d]
}

pub(crate) fn push_lit_party_close(out: &mut Vec<u8>)
    ensures
        final(out)@ == old(out)@ + lit_party_close(),
{
    out.push(0x5d); out.push(0x7d);
    assert(out@ =~= old(out)@ + lit_party_close());
}

/// Bytes of the text `,"state":"`.
pub open spec fn lit_state_open() -> Seq<u8> {
    seq![0x2cu8, 0x22, 0x73, 0x74, 0x61, 0x74, 0x65, 0x22, 0x3a, 0x22]
}

pub(crate) fn push_lit_state_open(out: &mut Vec<u8>)
    ensures
        final(out)@ == old(out)@ + lit_state_open(),
{
    out.push(0x2c); out.push(0x22); out.push(0x73); out.push(0x74); out.push(0x61);
    out.push(0x74); out.push(0x65); out.push(0x22); out.push(0x3a); out.push(0x22);
    assert(out@ =~= old(out)@ + lit_state_open());
}

/// Bytes of the text `,"timestamps":{"start":`.
pub open spec fn lit_ts_open() -> Seq<u8> {
    seq![0x2cu8, 0x22, 0x74, 0x69, 0x6d, 0x65, 0x73, 0x74, 0x61, 0x6d, 0x70, 0x73, 0x22, 0x3a, 0x7b, 0x22, 0x73, 0x74, 0x61, 0x72, 0x74, 0x22, 0x3a]
}

#[verifier::rlimit(30)]
pub(crate) fn push_lit_ts_open(out: &mut Vec<u8>)
    ensures
        final(out)@ == old(out)@ + lit_ts_open(),
{
    out.push(0x2c); out.push(0x22); out.push(0x74); out.push(0x69); out.push(0x6d);
    out.push(0x65); out.push(0x73); out.push(0x74); out.push(0x61); out.push(0x6d);
    out.push(0x70); out.push(0x73); out.push(0x22); out.push(0x3a); out.push(0x7b);
    out.push(0x22); out.push(0x73); out.push(0x74); out.push(0x61); out.push(0x72);
    out.push(0x74); out.push(0x22); out.push(0x3a);
    assert(out@ =~= old(out)@ + lit_ts_open());
}

/// Bytes of the text `}},"pid":0},"cmd":"SET_ACTIVITY","nonce":"`.
pub open spec fn lit_act_tail() -> Seq<u8> {
    seq![0x7du8, 0x7d, 0x2c, 0x22, 0x70, 0x69, 0x64, 0x22, 0x3a, 0x30, 0x7d, 0x2c, 0x22, 0x63, 0x6d, 0x64, 0x22, 0x3a, 0x22, 0x53, 0x45, 0x54, 0x5f, 0x41, 0x43, 0x54, 0x49, 0x56, 0x49, 0x54, 0x59, 0x22, 0x2c, 0x22, 0x6e, 0x6f, 0x6e, 0x63, 0x65, 0x22, 0x3a, 0x22]
}

#[verifier::rlimit(40)]
pub(crate) fn push_lit_act_tail(out: &mut Vec<u8>)
    ensures
        final(out)@ == old(out)@ + lit_act_tail(),
{
    out.push(0x7d); out.push(0x7d); out.push(0x2c); out.push(0x22); out.push(0x70);
    out.push(0x69); out.push(0x64); out.push(0x22); out.push(0x3a); out.push(0x30);
    out.push(0x7d); out.push(0x2c); out.push(0x22); out.push(0x63); out.push(0x6d);
    out.push(0x64); out.push(0x22); out.push(0x3a); out.push(0x22); out.push(0x53);
    out.push(0x45); out.push(0x54); out.push(0x5f); out.push(0x41); out.push(0x43);
    out.push(0x54); out.push(0x49); out.push(0x56); out.push(0x49); out.push(0x54);
    out.push(0x59); out.push(0x22); out.push(0x2c); out.push(0x22); out.push(0x6e);
    out.push(0x6f); out.push(0x6e); out.push(0x63); out.push(0x65); out.push(0x22);
    out.push(0x3a); out.push(0x22);
    assert(out@ =~= old(out)@ + lit_act_tail());
}

/// Bytes of the text `"}`.
pub open spec fn lit_act_end() -> Seq<u8> {
    seq![0x22u8, 0x7d]
}

pub(crate) fn push_lit_act_end(out: &mut Vec<u8>)
    ensures
        final(out)@ == old(out)@ + lit_act_end(),
{
    out.push(0x22); out.push(0x7d);
    assert(out@ =~= old(out)@ + lit_act_end());
}

/// Bytes of the text `{}`.
pub open spec fn lit_empty_obj() -> Seq<u8> {
    seq![0x7bu8, 0x7d]
}

pub(crate) fn push_lit_empty_obj(out: &mut Vec<u8>)
    ensures
        final(out)@ == old(out)@ + lit_empty_obj(),
{
    out.push(0x7b); out.push(0x7d);
    assert(out@ =~= old(out)@ + lit_empty_obj());
}

/// Bytes of the text `category`.
pub open spec fn lit_key_category() -> Seq<u8> {
    seq![0x63u8, 0x61, 0x74, 0x65, 0x67, 0x6f, 0x72, 0x79]
}

pub(crate) fn push_lit_key_category(out: &mut Vec<u8>)
    ensures
        final(out)@ == old(out)@ + lit_key_category(),
{
    out.push(0x63); out.push(0x61); out.push(0x74); out.push(0x65); out.push(0x67);
    out.push(0x6f); out.push(0x72); out.push(0x79);
    assert(out@ =~= old(out)@ + lit_key_category());
}

/// Bytes of the text `package`.
pub open spec fn lit_key_package() -> Seq<u8> {
    seq![0x70u8, 0x61, 0x63, 0x6b, 0x61, 0x67, 0x65]
}

pub(crate) fn push_lit_key_package(out: &mut Vec<u8>)
    ensures
        final(out)@ == old(out)@ + lit_key_package(),
{
    out.push(0x70); out.push(0x61); out.push(0x63); out.push(0x6b); out.push(0x61);
    out.push(0x67); out.push(0x65);
    assert(out@ =~= old(out)@ + lit_key_package());
}

/// Bytes of the text `state`.
pub open spec fn lit_key_state() -> Seq<u8> {
    seq![0x73u8, 0x74, 0x61, 0x74, 0x65]
}

pub(crate) fn push_lit_key_state(out: &mut Vec<u8>)
    ensures
        final(out)@ == old(out)@ + lit_key_state(),
{
    out.push(0x73); out.push(0x74); out.push(0x61); out.push(0x74); out.push(0x65);
    assert(out@ =~= old(out)@ + lit_key_state());
}

/// Bytes of the text `preparing`.
pub open spec fn lit_st_preparing() -> Seq<u8> {
    seq![0x70u8, 0x72, 0x65, 0x70, 0x61, 0x72, 0x69, 0x6e, 0x67]
}

pub(crate) fn push_lit_st_preparing(out: &mut Vec<u8>)
    ensures
        final(out)@ == old(out)@ + lit_st_preparing(),
{
    out.push(0x70); out.push(0x72); out.push(0x65); out.push(0x70); out.push(0x61);
    out.push(0x72); out.push(0x69); out.push(0x6e); out.push(0x67);
    assert(out@ =~= old(out)@ + lit_st_preparing());
}

/// Bytes of the text `compiling`.
pub open spec fn lit_st_compiling() -> Seq<u8> {
    seq![0x63u8, 0x6f, 0x6d, 0x70, 0x69, 0x6c, 0x69, 0x6e, 0x67]
}

pub(crate) fn push_lit_st_compiling(out: &mut Vec<u8>)
    ensures
        final(out)@ == old(out)@ + lit_st_compiling(),
{
    out.push(0x63); out.push(0x6f); out.push(0x6d); out.push(0x70); out.push(0x69);
    out.push(0x6c); out.push(0x69); out.push(0x6e); out.push(0x67);
    assert(out@ =~= old(out)@ + lit_st_compiling());
}

/// Bytes of the text `installing`.
pub open spec fn lit_st_installing() -> Seq<u8> {
    seq![0x69u8, 0x6e, 0x73, 0x74, 0x61, 0x6c, 0x6c, 0x69, 0x6e, 0x67]
}

pub(crate) fn push_lit_st_installing(out: &mut Vec<u8>)
    ensures
        final(out)@ == old(out)@ + lit_st_installing(),
{
    out.push(0x69); out.push(0x6e); out.push(0x73); out.push(0x74); out.push(0x61);
    out.push(0x6c); out.push(0x6c); out.push(0x69); out.push(0x6e); out.push(0x67);
    assert(out@ =~= old(out)@ + lit_st_installing());
}


/// One of the fixed package states, serialized to the lowercase literal of
/// its name.
#[derive(Clone, Copy, Debug, PartialEq, Eq, Structural)]
pub enum PackageState {
    Preparing,
    Compiling,
    Installing,
}

/// The wire label of a package state.
pub open spec fn state_label(s: PackageState) -> Seq<u8> {
    match s {
        PackageState::Preparing => lit_st_preparing(),
        PackageState::Compiling => lit_st_compiling(),
        PackageState::Installing => lit_st_installing(),
    }
}

pub(crate) fn push_state_label(out: &mut Vec<u8>, s: PackageState)
    ensures
        final(out)@ == old(out)@ + state_label(s),
{
    match s {
        PackageState::Preparing => push_lit_st_preparing(out),
        PackageState::Compiling => push_lit_st_compiling(out),
        PackageState::Installing => push_lit_st_installing(out),
    }
}

/// The package a "set" command describes: category and package text, and an
/// optional state.
pub struct PackagePayload {
    pub category: Vec<u8>,
    pub package: Vec<u8>,
    pub state: Option<PackageState>,
}

/// JSON escape of one byte: quote and backslash get a backslash, the five
/// control characters with short escapes get those, the other control
/// characters become `\u00XX`, and everything else stands as itself.
pub open spec fn esc_byte(b: u8) -> Seq<u8> {
    if b == 0x22 {
        seq![0x5cu8, 0x22]
    } else if b == 0x5c {
        seq![0x5cu8, 0x5c]
    } else if b == 0x08 {
        seq![0x5cu8, 0x62]
    } else if b == 0x09 {
        seq![0x5cu8, 0x74]
    } else if b == 0x0a {
        seq![0x5cu8, 0x6e]
    } else if b == 0x0c {
        seq![0x5cu8, 0x66]
    } else if b == 0x0d {
        seq![0x5cu8, 0x72]
    } else if b < 0x20 {
        seq![0x5cu8, 0x75, 0x30, 0x30, hex_digit((b / 16) as nat), hex_digit((b % 16) as nat)]
    } else {
        seq![b]
    }
}

/// JSON escape of a byte string.
pub open spec fn json_escaped(s: Seq<u8>) -> Seq<u8>
    decreases s.len(),
{
    if s.len() == 0 {
        Seq::empty()
    } else {
        json_escaped(s.drop_last()) + esc_byte(s.last())
    }
}

/// Writes every byte of `v`.
pub(crate) fn push_all(out: &mut Vec<u8>, v: &Vec<u8>)
    ensures
        final(out)@ == old(out)@ + v@,
{
    let mut i: usize = 0;
    while i < v.len()
        invariant
            i <= v@.len(),
            out@ == old(out)@ + v@.subrange(0, i as int),
        decreases v@.len() - i,
    {
        out.push(v[i]);
        assert(out@ =~= old(out)@ + v@.subrange(0, i as int + 1));
        i = i + 1;
    }
    assert(v@.subrange(0, v@.len() as int) =~= v@);
}

/// Writes the JSON escape of `s`.
pub(crate) fn push_escaped(out: &mut Vec<u8>, s: &Vec<u8>)
    ensures
        final(out)@ == old(out)@ + json_escaped(s@),
{
    let mut i: usize = 0;
    while i < s.len()
        invariant
            i <= s@.len(),
            out@ == old(out)@ + json_escaped(s@.subrange(0, i as int)),
        decreases s@.len() - i,
    {
        let b = s[i];
        if b == 0x22 {
            out.push(0x5c);
            out.push(0x22);
        } else if b == 0x5c {
            out.push(0x5c);
            out.push(0x5c);
        } else if b == 0x08 {
            out.push(0x5c);
            out.push(0x62);
        } else if b == 0x09 {
            out.push(0x5c);
            out.push(0x74);
        } else if b == 0x0a {
            out.push(0x5c);
            out.push(0x6e);
        } else if b == 0x0c {
            out.push(0x5c);
            out.push(0x66);
        } else if b == 0x0d {
            out.push(0x5c);
            out.push(0x72);
        } else if b < 0x20 {
            out.push(0x5c);
            out.push(0x75);
            out.push(0x30);
            out.push(0x30);
            out.push(crate::num::hex_digit_byte(b / 16));
            out.push(crate::num::hex_digit_byte(b % 16));
        } else {
            out.push(b);
        }
        proof {
            assert(s@.subrange(0, i as int + 1).drop_last() =~= s@.subrange(0, i as int));
            assert(s@.subrange(0, i as int + 1).last() == s@[i as int]);
            assert(out@ =~= old(out)@ + json_escaped(s@.subrange(0, i as int + 1)));
        }
        i = i + 1;
    }
    assert(s@.subrange(0, s@.len() as int) =~= s@);
}

/// The handshake payload: the protocol version, the client id, and a nonce.
pub open spec fn handshake_json(id: Seq<u8>, nonce: Seq<u8>) -> Seq<u8> {
    lit_hs_a() + json_escaped(id) + lit_hs_b() + nonce + lit_hs_c()
}

/// Builds the handshake payload text.
pub fn handshake_payload(id: &Vec<u8>, nonce: &Vec<u8>) -> (r: Vec<u8>)
    ensures
        r@ == handshake_json(id@, nonce@),
{
    let mut out: Vec<u8> = Vec::new();
    push_lit_hs_a(&mut out);
    push_escaped(&mut out, id);
    push_lit_hs_b(&mut out);
    push_all(&mut out, nonce);
    push_lit_hs_c(&mut out);
    assert(out@ =~= handshake_json(id@, nonce@));
    out
}

/// The disconnect notice payload: an empty object.
pub fn empty_object() -> (r: Vec<u8>)
    ensures
        r@ == lit_empty_obj(),
{
    let mut out: Vec<u8> = Vec::new();
    push_lit_empty_obj(&mut out);
    out
}

/// The party text of an activity, when there is one: current position and
/// running maximum.
pub open spec fn party_part(party: Option<(u64, u64)>) -> Seq<u8> {
    match party {
        None => Seq::empty(),
        Some(p) => lit_party_open() + dec_rep(p.0 as nat) + seq![0x2cu8] + dec_rep(p.1 as nat)
            + lit_party_close(),
    }
}

/// The state text of an activity, when there is one.
pub open spec fn state_part(st: Option<PackageState>) -> Seq<u8> {
    match st {
        None => Seq::empty(),
        Some(s) => lit_state_open() + state_label(s) + seq![0x22u8],
    }
}

/// The SET_ACTIVITY command text: details `category/package`, the fixed
/// large-image asset, the start timestamp, and the optional party and state.
pub open spec fn set_activity_json(
    category: Seq<u8>,
    package: Seq<u8>,
    st: Option<PackageState>,
    party: Option<(u64, u64)>,
    start_millis: u64,
    nonce: Seq<u8>,
) -> Seq<u8> {
    lit_act_open() + json_escaped(category + seq![0x2fu8] + package) + seq![0x22u8] + party_part(
        party,
    ) + state_part(st) + lit_ts_open() + dec_rep(start_millis as nat) + lit_act_tail() + nonce
        + lit_act_end()
}

/// Builds the SET_ACTIVITY command text.
pub fn set_activity_payload(
    category: &Vec<u8>,
    package: &Vec<u8>,
    st: Option<PackageState>,
    party: Option<(u64, u64)>,
    start_millis: u64,
    nonce: &Vec<u8>,
) -> (r: Vec<u8>)
    ensures
        r@ == set_activity_json(category@, package@, st, party, start_millis, nonce@),
{
    let mut details: Vec<u8> = Vec::new();
    push_all(&mut details, category);
    details.push(0x2f);
    push_all(&mut details, package);
    assert(details@ =~= category@ + seq![0x2fu8] + package@);
    let mut out: Vec<u8> = Vec::new();
    push_lit_act_open(&mut out);
    push_escaped(&mut out, &details);
    out.push(0x22);
    match party {
        None => {},
        Some(p) => {
            push_lit_party_open(&mut out);
            push_dec(&mut out, p.0);
            out.push(0x2c);
            push_dec(&mut out, p.1);
            push_lit_party_close(&mut out);
        },
    }
    assert(out@ =~= lit_act_open() + json_escaped(category@ + seq![0x2fu8] + package@) + seq![
        0x22u8,
    ] + party_part(party));
    match st {
        None => {},
        Some(s) => {
            push_lit_state_open(&mut out);
            push_state_label(&mut out, s);
            out.push(0x22);
        },
    }
    push_lit_ts_open(&mut out);
    push_dec(&mut out, start_millis);
    push_lit_act_tail(&mut out);
    push_all(&mut out, nonce);
    push_lit_act_end(&mut out);
    assert(out@ =~= set_activity_json(category@, package@, st, party, start_millis, nonce@));
    out
}

/// The escape of a byte string is at most six times as long.
pub proof fn lemma_json_escaped_len(s: Seq<u8>)
    ensures
        json_escaped(s).len() <= 6 * s.len(),
    decreases s.len(),
{
    if s.len() > 0 {
        lemma_json_escaped_len(s.drop_last());
    }
}

/// The handshake payload is bounded by the lengths of its parts.
pub proof fn lemma_handshake_json_len(id: Seq<u8>, nonce: Seq<u8>)
    ensures
        handshake_json(id, nonce).len() <= 40 + 6 * id.len() + nonce.len(),
{
    lemma_json_escaped_len(id);
}

/// The SET_ACTIVITY payload is bounded by the lengths of its parts.
pub proof fn lemma_set_activity_json_len(
    category: Seq<u8>,
    package: Seq<u8>,
    st: Option<PackageState>,
    party: Option<(u64, u64)>,
    start_millis: u64,
    nonce: Seq<u8>,
)
    ensures
        set_activity_json(category, package, st, party, start_millis, nonce).len() <= 300 + 6 * (
        category.len() + package.len()) + nonce.len(),
{
    lemma_json_escaped_len(category + seq![0x2fu8] + package);
    crate::num::lemma_dec_rep_len_u64(start_millis);
    match party {
        Some(p) => {
            crate::num::lemma_dec_rep_len_u64(p.0);
            crate::num::lemma_dec_rep_len_u64(p.1);
        },
        None => {},
    }
}

} // verus!
