//! The inbound command grammar: commands separated by NUL bytes, and the JSON
//! object text of a "set" command — an object of string fields with the usual
//! escapes, of which `category`, `package` and `state` are read.
use vstd::prelude::*;
use crate::json::{PackagePayload, PackageState, lit_st_preparing, lit_st_compiling,
    lit_st_installing, lit_key_category, lit_key_package, lit_key_state};

verus! {

/// JSON whitespace.
pub open spec fn is_ws(b: u8) -> bool {
    b == 0x20 || b == 0x09 || b == 0x0a || b == 0x0d
}

/// The first position at or after `i` that does not hold whitespace.
pub open spec fn skip_ws(s: Seq<u8>, i: int) -> int
    recommends
        0 <= i <= s.len(),
    decreases s.len() - i when 0 <= i <= s.len()
{
    if i < s.len() && is_ws(s[i]) {
        skip_ws(s, i + 1)
    } else {
        i
    }
}

pub proof fn lemma_skip_ws_bounds(s: Seq<u8>, i: int)
    requires
        0 <= i <= s.len(),
    ensures
        i <= skip_ws(s, i) <= s.len(),
    decreases s.len() - i,
{
    if i < s.len() && is_ws(s[i]) {
        lemma_skip_ws_bounds(s, i + 1);
    }
}

fn skip_ws_x(s: &Vec<u8>, i: usize) -> (r: usize)
    requires
        i <= s@.len(),
    ensures
        r == skip_ws(s@, i as int),
        i <= r <= s@.len(),
    decreases s@.len() - i,
{
    if i < s.len() {
        let b = s[i];
        if b == 0x20 || b == 0x09 || b == 0x0a || b == 0x0d {
            return skip_ws_x(s, i + 1);
        }
    }
    i
}

/// The value of one hexadecimal digit, either case.
pub open spec fn hex_val(b: u8) -> Option<u8> {
    if 0x30 <= b <= 0x39 {
        Some((b - 0x30) as u8)
    } else if 0x41 <= b <= 0x46 {
        Some((b - 0x37) as u8)
    } else if 0x61 <= b <= 0x66 {
        Some((b - 0x57) as u8)
    } else {
        None
    }
}

fn hex_val_x(b: u8) -> (r: Option<u8>)
    ensures
        r == hex_val(b),
{
    if 0x30 <= b && b <= 0x39 {
        Some(b - 0x30)
    } else if 0x41 <= b && b <= 0x46 {
        Some(b - 0x37)
    } else if 0x61 <= b && b <= 0x66 {
        Some(b - 0x57)
    } else {
        None
    }
}

/// The value of four hexadecimal digits at `i`.
pub open spec fn hex4_val(s: Seq<u8>, i: int) -> Option<u32>
    recommends
        0 <= i,
        i + 4 <= s.len(),
{
    match (hex_val(s[i]), hex_val(s[i + 1]), hex_val(s[i + 2]), hex_val(s[i + 3])) {
        (Some(a), Some(b), Some(c), Some(d)) => Some(
            (0x1000 * (a as u32) + 0x100 * (b as u32) + 0x10 * (c as u32) + (d as u32)) as u32,
        ),
        _ => None,
    }
}

fn hex4_val_x(s: &Vec<u8>, i: usize) -> (r: Option<u32>)
    requires
        i + 4 <= s@.len(),
    ensures
        r == hex4_val(s@, i as int),
{
    let n = s.len();
    assert(i + 4 <= n);
    let a = hex_val_x(s[i]);
    let b = hex_val_x(s[i + 1]);
    let c = hex_val_x(s[i + 2]);
    let d = hex_val_x(s[i + 3]);
    match (a, b, c, d) {
        (Some(a), Some(b), Some(c), Some(d)) => Some(
            0x1000 * (a as u32) + 0x100 * (b as u32) + 0x10 * (c as u32) + (d as u32),
        ),
        _ => None,
    }
}

/// The UTF-8 bytes of one code point.
pub open spec fn utf8_enc(cp: u32) -> Seq<u8>
    recommends
        cp < 0x11_0000,
{
    if cp < 0x80 {
        seq![cp as u8]
    } else if cp < 0x800 {
        seq![(0xc0 + cp / 0x40) as u8, (0x80 + cp % 0x40) as u8]
    } else if cp < 0x1_0000 {
        seq![
            (0xe0 + cp / 0x1000) as u8,
            (0x80 + (cp / 0x40) % 0x40) as u8,
            (0x80 + cp % 0x40) as u8,
        ]
    } else {
        seq![
            (0xf0 + cp / 0x4_0000) as u8,
            (0x80 + (cp / 0x1000) % 0x40) as u8,
            (0x80 + (cp / 0x40) % 0x40) as u8,
            (0x80 + cp % 0x40) as u8,
        ]
    }
}

fn push_utf8_enc(out: &mut Vec<u8>, cp: u32)
    requires
        cp < 0x11_0000,
    ensures
        final(out)@ == old(out)@ + utf8_enc(cp),
{
    if cp < 0x80 {
        out.push(cp as u8);
    } else if cp < 0x800 {
        out.push((0xc0 + cp / 0x40) as u8);
        out.push((0x80 + cp % 0x40) as u8);
    } else if cp < 0x1_0000 {
        out.push((0xe0 + cp / 0x1000) as u8);
        out.push((0x80 + (cp / 0x40) % 0x40) as u8);
        out.push((0x80 + cp % 0x40) as u8);
    } else {
        out.push((0xf0 + cp / 0x4_0000) as u8);
        out.push((0x80 + (cp / 0x1000) % 0x40) as u8);
        out.push((0x80 + (cp / 0x40) % 0x40) as u8);
        out.push((0x80 + cp % 0x40) as u8);
    }
    assert(out@ =~= old(out)@ + utf8_enc(cp));
}

/// The decoded content of a JSON string read from position `i` (just past the
/// opening quote) to its closing quote, and the position just past that
/// quote. Unescaped control bytes, bad escapes and lone surrogates are
/// malformed.
pub open spec fn string_body(s: Seq<u8>, i: int) -> Option<(Seq<u8>, int)>
    recommends
        0 <= i,
    decreases s.len() - i when 0 <= i
{
    if i >= s.len() {
        None
    } else if s[i] == 0x22 {
        Some((Seq::empty(), i + 1))
    } else if s[i] == 0x5c {
        if i + 2 > s.len() {
            None
        } else {
            let e = s[i + 1];
            if e == 0x22 || e == 0x5c || e == 0x2f {
                match string_body(s, i + 2) {
                    Some(r) => Some((seq![e] + r.0, r.1)),
                    None => None,
                }
            } else if e == 0x62 {
                match string_body(s, i + 2) {
                    Some(r) => Some((seq![0x08u8] + r.0, r.1)),
                    None => None,
                }
            } else if e == 0x66 {
                match string_body(s, i + 2) {
                    Some(r) => Some((seq![0x0cu8] + r.0, r.1)),
                    None => None,
                }
            } else if e == 0x6e {
                match string_body(s, i + 2) {
                    Some(r) => Some((seq![0x0au8] + r.0, r.1)),
                    None => None,
                }
            } else if e == 0x72 {
                match string_body(s, i + 2) {
                    Some(r) => Some((seq![0x0du8] + r.0, r.1)),
                    None => None,
                }
            } else if e == 0x74 {
                match string_body(s, i + 2) {
                    Some(r) => Some((seq![0x09u8] + r.0, r.1)),
                    None => None,
                }
            } else if e == 0x75 {
                if i + 6 > s.len() {
                    None
                } else {
                    match hex4_val(s, i + 2) {
                        None => None,
                        Some(cp) => {
                            if 0xd800 <= cp < 0xdc00 {
                                if i + 12 > s.len() {
                                    None
                                } else if s[i + 6] == 0x5c && s[i + 7] == 0x75 {
                                    match hex4_val(s, i + 8) {
                                        None => None,
                                        Some(lo) => {
                                            if 0xdc00 <= lo < 0xe000 {
                                                let cp2 = (0x1_0000 + 0x400 * (cp - 0xd800) + (lo
                                                    - 0xdc00)) as u32;
                                                match string_body(s, i + 12) {
                                                    Some(r) => Some((utf8_enc(cp2) + r.0, r.1)),
                                                    None => None,
                                                }
                                            } else {
                                                None
                                            }
                                        },
                                    }
                                } else {
                                    None
                                }
                            } else if 0xdc00 <= cp < 0xe000 {
                                None
                            } else {
                                match string_body(s, i + 6) {
                                    Some(r) => Some((utf8_enc(cp) + r.0, r.1)),
                                    None => None,
                                }
                            }
                        },
                    }
                }
            } else {
                None
            }
        }
    } else if s[i] < 0x20 {
        None
    } else {
        match string_body(s, i + 1) {
            Some(r) => Some((seq![s[i]] + r.0, r.1)),
            None => None,
        }
    }
}

/// A parsed string ends past where it began, within the text, and its content
/// is no longer than the text it was read from.
pub proof fn lemma_string_body_len(s: Seq<u8>, i: int)
    requires
        0 <= i,
        string_body(s, i) is Some,
    ensures
        ({
            let r = string_body(s, i)->Some_0;
            i < r.1 <= s.len() && r.0.len() <= r.1 - i
        }),
    decreases s.len() - i,
{
    if i >= s.len() {
    } else if s[i] == 0x22 {
    } else if s[i] == 0x5c {
        let e = s[i + 1];
        if e == 0x22 || e == 0x5c || e == 0x2f || e == 0x62 || e == 0x66 || e == 0x6e || e == 0x72
            || e == 0x74 {
            lemma_string_body_len(s, i + 2);
        } else if e == 0x75 {
            match hex4_val(s, i + 2) {
                None => {},
                Some(cp) => {
                    if 0xd800 <= cp < 0xdc00 {
                        lemma_string_body_len(s, i + 12);
                    } else {
                        lemma_string_body_len(s, i + 6);
                    }
                },
            }
        }
    } else {
        lemma_string_body_len(s, i + 1);
    }
}

fn string_body_x(s: &Vec<u8>, i: usize) -> (r: Option<(Vec<u8>, usize)>)
    ensures
        match string_body(s@, i as int) {
            Some(t) => r matches Some(x) && x.0@ == t.0 && x.1 == t.1,
            None => r is None,
        },
    decreases s@.len() - i,
{
    if i >= s.len() {
        return None;
    }
    let b = s[i];
    if b == 0x22 {
        return Some((Vec::new(), i + 1));
    }
    if b == 0x5c {
        if s.len() - i < 2 {
            return None;
        }
        let e = s[i + 1];
        let decoded: Option<u8> = if e == 0x22 || e == 0x5c || e == 0x2f {
            Some(e)
        } else if e == 0x62 {
            Some(0x08)
        } else if e == 0x66 {
            Some(0x0c)
        } else if e == 0x6e {
            Some(0x0a)
        } else if e == 0x72 {
            Some(0x0d)
        } else if e == 0x74 {
            Some(0x09)
        } else {
            None
        };
        match decoded {
            Some(d) => {
                match string_body_x(s, i + 2) {
                    Some(t) => {
                        let mut v = t.0;
                        v.insert(0, d);
                        assert(v@ =~= seq![d] + string_body(s@, i as int + 2)->Some_0.0);
                        return Some((v, t.1));
                    },
                    None => {
                        return None;
                    },
                }
            },
            None => {},
        }
        if e != 0x75 {
            return None;
        }
        if s.len() - i < 6 {
            return None;
        }
        let cp = match hex4_val_x(s, i + 2) {
            Some(cp) => cp,
            None => {
                return None;
            },
        };
        if 0xd800 <= cp && cp < 0xdc00 {
            if s.len() - i < 12 {
                return None;
            }
            if !(s[i + 6] == 0x5c && s[i + 7] == 0x75) {
                return None;
            }
            let lo = match hex4_val_x(s, i + 8) {
                Some(lo) => lo,
                None => {
                    return None;
                },
            };
            if !(0xdc00 <= lo && lo < 0xe000) {
                return None;
            }
            let cp2: u32 = 0x1_0000 + 0x400 * (cp - 0xd800) + (lo - 0xdc00);
            match string_body_x(s, i + 12) {
                Some(t) => {
                    let mut v: Vec<u8> = Vec::new();
                    push_utf8_enc(&mut v, cp2);
                    let mut rest = t.0;
                    v.append(&mut rest);
                    assert(v@ =~= utf8_enc(cp2) + string_body(s@, i as int + 12)->Some_0.0);
                    Some((v, t.1))
                },
                None => None,
            }
        } else if 0xdc00 <= cp && cp < 0xe000 {
            None
        } else {
            match string_body_x(s, i + 6) {
                Some(t) => {
                    let mut v: Vec<u8> = Vec::new();
                    push_utf8_enc(&mut v, cp);
                    let mut rest = t.0;
                    v.append(&mut rest);
                    assert(v@ =~= utf8_enc(cp) + string_body(s@, i as int + 6)->Some_0.0);
                    Some((v, t.1))
                },
                None => None,
            }
        }
    } else if b < 0x20 {
        None
    } else {
        match string_body_x(s, i + 1) {
            Some(t) => {
                let mut v = t.0;
                v.insert(0, b);
                assert(v@ =~= seq![b] + string_body(s@, i as int + 1)->Some_0.0);
                Some((v, t.1))
            },
            None => None,
        }
    }
}

/// One `"key" : "value"` pair read from position `i`: its decoded key and
/// value, and the position just past the value.
pub open spec fn parse_pair(s: Seq<u8>, i: int) -> Option<(Seq<u8>, Seq<u8>, int)>
    recommends
        0 <= i <= s.len(),
{
    let j = skip_ws(s, i);
    if 0 <= j < s.len() && s[j] == 0x22 {
        match string_body(s, j + 1) {
            None => None,
            Some(k) => {
                if 0 <= k.1 <= s.len() {
                    let m = skip_ws(s, k.1);
                    if m < s.len() && s[m] == 0x3a {
                        let v0 = skip_ws(s, m + 1);
                        if v0 < s.len() && s[v0] == 0x22 {
                            match string_body(s, v0 + 1) {
                                Some(v) => Some((k.0, v.0, v.1)),
                                None => None,
                            }
                        } else {
                            None
                        }
                    } else {
                        None
                    }
                } else {
                    None
                }
            },
        }
    } else {
        None
    }
}

pub proof fn lemma_parse_pair_bounds(s: Seq<u8>, i: int)
    requires
        0 <= i <= s.len(),
        parse_pair(s, i) is Some,
    ensures
        ({
            let p = parse_pair(s, i)->Some_0;
            i < p.2 <= s.len() && p.0.len() <= s.len() && p.1.len() <= s.len()
        }),
{
    lemma_skip_ws_bounds(s, i);
    let j = skip_ws(s, i);
    lemma_string_body_len(s, j + 1);
    let k = string_body(s, j + 1)->Some_0;
    lemma_skip_ws_bounds(s, k.1);
    let m = skip_ws(s, k.1);
    lemma_skip_ws_bounds(s, m + 1);
    let v0 = skip_ws(s, m + 1);
    lemma_string_body_len(s, v0 + 1);
}

fn parse_pair_x(s: &Vec<u8>, i: usize) -> (r: Option<(Vec<u8>, Vec<u8>, usize)>)
    requires
        i <= s@.len(),
    ensures
        match parse_pair(s@, i as int) {
            Some(t) => r matches Some(x) && x.0@ == t.0 && x.1@ == t.1 && x.2 == t.2,
            None => r is None,
        },
{
    let j = skip_ws_x(s, i);
    if !(j < s.len() && s[j] == 0x22) {
        return None;
    }
    let k = match string_body_x(s, j + 1) {
        Some(k) => k,
        None => {
            return None;
        },
    };
    proof {
        lemma_string_body_len(s@, j as int + 1);
    }
    let m = skip_ws_x(s, k.1);
    if !(m < s.len() && s[m] == 0x3a) {
        return None;
    }
    let v0 = skip_ws_x(s, m + 1);
    if !(v0 < s.len() && s[v0] == 0x22) {
        return None;
    }
    match string_body_x(s, v0 + 1) {
        Some(v) => Some((k.0, v.0, v.1)),
        None => None,
    }
}

/// The fields read from the pairs of the object, from position `i` to the
/// closing brace: the decoded `category`, `package` and `state` values seen
/// so far, and the position just past the brace. A repeated field or a
/// missing comma is malformed; unknown fields are read over.
pub open spec fn parse_pairs(
    s: Seq<u8>,
    i: int,
    cat: Option<Seq<u8>>,
    pkg: Option<Seq<u8>>,
    st: Option<Seq<u8>>,
) -> Option<(Option<Seq<u8>>, Option<Seq<u8>>, Option<Seq<u8>>, int)>
    recommends
        0 <= i <= s.len(),
    decreases s.len() - i when 0 <= i <= s.len() via parse_pairs_dec
{
    match parse_pair(s, i) {
        None => None,
        Some(p) => {
            if (p.0 == lit_key_category() && cat is Some) || (p.0 == lit_key_package()
                && pkg is Some) || (p.0 == lit_key_state() && st is Some) {
                None
            } else {
                let cat2 = if p.0 == lit_key_category() {
                    Some(p.1)
                } else {
                    cat
                };
                let pkg2 = if p.0 == lit_key_package() {
                    Some(p.1)
                } else {
                    pkg
                };
                let st2 = if p.0 == lit_key_state() {
                    Some(p.1)
                } else {
                    st
                };
                if 0 <= p.2 <= s.len() {
                    let j = skip_ws(s, p.2);
                    if j < s.len() && s[j] == 0x2c {
                        parse_pairs(s, j + 1, cat2, pkg2, st2)
                    } else if j < s.len() && s[j] == 0x7d {
                        Some((cat2, pkg2, st2, j + 1))
                    } else {
                        None
                    }
                } else {
                    None
                }
            }
        },
    }
}

#[via_fn]
proof fn parse_pairs_dec(
    s: Seq<u8>,
    i: int,
    cat: Option<Seq<u8>>,
    pkg: Option<Seq<u8>>,
    st: Option<Seq<u8>>,
) {
    if parse_pair(s, i) is Some {
        lemma_parse_pair_bounds(s, i);
        let p = parse_pair(s, i)->Some_0;
        if 0 <= p.2 <= s.len() {
            lemma_skip_ws_bounds(s, p.2);
        }
    }
}

proof fn lemma_parse_pairs_len(
    s: Seq<u8>,
    i: int,
    cat: Option<Seq<u8>>,
    pkg: Option<Seq<u8>>,
    st: Option<Seq<u8>>,
)
    requires
        0 <= i <= s.len(),
        parse_pairs(s, i, cat, pkg, st) is Some,
        cat matches Some(c) ==> c.len() <= s.len(),
        pkg matches Some(c) ==> c.len() <= s.len(),
    ensures
        ({
            let f = parse_pairs(s, i, cat, pkg, st)->Some_0;
            &&& (f.0 matches Some(c) ==> c.len() <= s.len())
            &&& (f.1 matches Some(c) ==> c.len() <= s.len())
        }),
    decreases s.len() - i,
{
    lemma_parse_pair_bounds(s, i);
    let p = parse_pair(s, i)->Some_0;
    let cat2 = if p.0 == lit_key_category() {
        Some(p.1)
    } else {
        cat
    };
    let pkg2 = if p.0 == lit_key_package() {
        Some(p.1)
    } else {
        pkg
    };
    let st2 = if p.0 == lit_key_state() {
        Some(p.1)
    } else {
        st
    };
    let j = skip_ws(s, p.2);
    lemma_skip_ws_bounds(s, p.2);
    if j < s.len() && s[j] == 0x2c {
        lemma_parse_pairs_len(s, j + 1, cat2, pkg2, st2);
    }
}

fn parse_pairs_x(
    s: &Vec<u8>,
    i: usize,
    cat: Option<Vec<u8>>,
    pkg: Option<Vec<u8>>,
    st: Option<Vec<u8>>,
) -> (r: Option<(Option<Vec<u8>>, Option<Vec<u8>>, Option<Vec<u8>>, usize)>)
    requires
        i <= s@.len(),
    ensures
        ({
            let sp = parse_pairs(
                s@,
                i as int,
                match cat {
                    Some(c) => Some(c@),
                    None => None,
                },
                match pkg {
                    Some(c) => Some(c@),
                    None => None,
                },
                match st {
                    Some(c) => Some(c@),
                    None => None,
                },
            );
            match sp {
                Some(t) => r matches Some(x) && (match (x.0, t.0) {
                    (Some(a), Some(b)) => a@ == b,
                    (None, None) => true,
                    _ => false,
                }) && (match (x.1, t.1) {
                    (Some(a), Some(b)) => a@ == b,
                    (None, None) => true,
                    _ => false,
                }) && (match (x.2, t.2) {
                    (Some(a), Some(b)) => a@ == b,
                    (None, None) => true,
                    _ => false,
                }) && x.3 == t.3,
                None => r is None,
            }
        }),
    decreases s@.len() - i,
{
    let p = match parse_pair_x(s, i) {
        Some(p) => p,
        None => {
            return None;
        },
    };
    proof {
        lemma_parse_pair_bounds(s@, i as int);
    }
    let is_cat = vec_is_lit_key_category(&p.0);
    let is_pkg = vec_is_lit_key_package(&p.0);
    let is_st = vec_is_lit_key_state(&p.0);
    if (is_cat && cat.is_some()) || (is_pkg && pkg.is_some()) || (is_st && st.is_some()) {
        return None;
    }
    let (cat2, pkg2, st2) = if is_cat {
        (Some(p.1), pkg, st)
    } else if is_pkg {
        (cat, Some(p.1), st)
    } else if is_st {
        (cat, pkg, Some(p.1))
    } else {
        (cat, pkg, st)
    };
    let j = skip_ws_x(s, p.2);
    if j < s.len() && s[j] == 0x2c {
        parse_pairs_x(s, j + 1, cat2, pkg2, st2)
    } else if j < s.len() && s[j] == 0x7d {
        Some((cat2, pkg2, st2, j + 1))
    } else {
        None
    }
}

fn vec_eq(a: &Vec<u8>, b: &Vec<u8>) -> (r: bool)
    ensures
        r == (a@ == b@),
{
    if a.len() != b.len() {
        return false;
    }
    let mut i: usize = 0;
    while i < a.len()
        invariant
            i <= a@.len(),
            a@.len() == b@.len(),
            forall|k: int| 0 <= k < i ==> a@[k] == b@[k],
        decreases a@.len() - i,
    {
        if a[i] != b[i] {
            return false;
        }
        i = i + 1;
    }
    assert(a@ =~= b@);
    true
}

fn vec_is_lit_key_category(v: &Vec<u8>) -> (r: bool)
    ensures
        r == (v@ == lit_key_category()),
{
    let mut l: Vec<u8> = Vec::new();
    crate::json::push_lit_key_category(&mut l);
    vec_eq(v, &l)
}

fn vec_is_lit_key_package(v: &Vec<u8>) -> (r: bool)
    ensures
        r == (v@ == lit_key_package()),
{
    let mut l: Vec<u8> = Vec::new();
    crate::json::push_lit_key_package(&mut l);
    vec_eq(v, &l)
}

fn vec_is_lit_key_state(v: &Vec<u8>) -> (r: bool)
    ensures
        r == (v@ == lit_key_state()),
{
    let mut l: Vec<u8> = Vec::new();
    crate::json::push_lit_key_state(&mut l);
    vec_eq(v, &l)
}

/// The decoded fields of a whole payload text: an object whose `category`
/// and `package` fields are present, read to the end of the text.
pub open spec fn parsed_fields(s: Seq<u8>) -> Option<(Seq<u8>, Seq<u8>, Option<Seq<u8>>)> {
    let i = skip_ws(s, 0);
    if 0 <= i < s.len() && s[i] == 0x7b {
        match parse_pairs(s, i + 1, None, None, None) {
            None => None,
            Some(f) => {
                if 0 <= f.3 <= s.len() && skip_ws(s, f.3) == s.len() {
                    match (f.0, f.1) {
                        (Some(c), Some(p)) => Some((c, p, f.2)),
                        _ => None,
                    }
                } else {
                    None
                }
            },
        }
    } else {
        None
    }
}

/// The state a wire label stands for.
pub open spec fn state_of_label(l: Seq<u8>) -> Option<PackageState> {
    if l == lit_st_preparing() {
        Some(PackageState::Preparing)
    } else if l == lit_st_compiling() {
        Some(PackageState::Compiling)
    } else if l == lit_st_installing() {
        Some(PackageState::Installing)
    } else {
        None
    }
}

/// The package payload a "set" command's text stands for, or nothing when
/// the text is malformed: not such an object, or a state label outside the
/// fixed set.
pub open spec fn parsed_payload(s: Seq<u8>) -> Option<(Seq<u8>, Seq<u8>, Option<PackageState>)> {
    match parsed_fields(s) {
        None => None,
        Some(f) => match f.2 {
            None => Some((f.0, f.1, None)),
            Some(l) => match state_of_label(l) {
                Some(ps) => Some((f.0, f.1, Some(ps))),
                None => None,
            },
        },
    }
}

/// The category and package of a well-formed payload are no longer than its
/// text.
pub proof fn lemma_parsed_payload_len(s: Seq<u8>)
    requires
        parsed_payload(s) is Some,
    ensures
        ({
            let p = parsed_payload(s)->Some_0;
            p.0.len() <= s.len() && p.1.len() <= s.len()
        }),
{
    lemma_skip_ws_bounds(s, 0);
    let i = skip_ws(s, 0);
    lemma_parse_pairs_len(s, i + 1, None, None, None);
}

/// Reads the package payload out of a "set" command's text.
pub fn parse_package_payload(s: &Vec<u8>) -> (r: Option<PackagePayload>)
    ensures
        match parsed_payload(s@) {
            Some(t) => r matches Some(p) && p.category@ == t.0 && p.package@ == t.1 && p.state
                == t.2,
            None => r is None,
        },
{
    let i = skip_ws_x(s, 0);
    if !(i < s.len() && s[i] == 0x7b) {
        return None;
    }
    let f = match parse_pairs_x(s, i + 1, None, None, None) {
        Some(f) => f,
        None => {
            return None;
        },
    };
    if !(f.3 <= s.len()) {
        return None;
    }
    if skip_ws_x(s, f.3) != s.len() {
        return None;
    }
    let (cat, pkg) = match (f.0, f.1) {
        (Some(c), Some(p)) => (c, p),
        _ => {
            return None;
        },
    };
    let state: Option<PackageState> = match f.2 {
        None => None,
        Some(l) => {
            let mut lp: Vec<u8> = Vec::new();
            crate::json::push_lit_st_preparing(&mut lp);
            let mut lc: Vec<u8> = Vec::new();
            crate::json::push_lit_st_compiling(&mut lc);
            let mut li: Vec<u8> = Vec::new();
            crate::json::push_lit_st_installing(&mut li);
            if vec_eq(&l, &lp) {
                Some(PackageState::Preparing)
            } else if vec_eq(&l, &lc) {
                Some(PackageState::Compiling)
            } else if vec_eq(&l, &li) {
                Some(PackageState::Installing)
            } else {
                return None;
            }
        },
    };
    Some(PackagePayload { category: cat, package: pkg, state })
}

/// The buffer with one trailing NUL terminator dropped, as a terminator-split
/// sees it.
pub open spec fn trimmed(buf: Seq<u8>) -> Seq<u8> {
    if buf.len() > 0 && buf.last() == 0 {
        buf.drop_last()
    } else {
        buf
    }
}

/// The text after the last NUL of `t`, the whole of `t` when it has none.
pub open spec fn tail_after_zero(t: Seq<u8>) -> Seq<u8>
    decreases t.len(),
{
    if t.len() == 0 {
        t
    } else if t.last() == 0 {
        Seq::empty()
    } else {
        tail_after_zero(t.drop_last()).push(t.last())
    }
}

/// The last command of a burst: the text after the last separator, one
/// trailing terminator dropped first.
pub open spec fn last_seg(buf: Seq<u8>) -> Seq<u8> {
    tail_after_zero(trimmed(buf))
}

proof fn lemma_tail_after_zero(t: Seq<u8>, j: int)
    requires
        0 <= j <= t.len(),
        forall|m: int| j <= m < t.len() ==> t[m] != 0,
        j > 0 ==> t[j - 1] == 0,
    ensures
        tail_after_zero(t) == t.subrange(j, t.len() as int),
    decreases t.len(),
{
    if t.len() == j {
        if j == 0 {
            assert(t.subrange(0, 0) =~= tail_after_zero(t));
        } else {
            assert(t.last() == 0);
            assert(t.subrange(j, t.len() as int) =~= Seq::<u8>::empty());
        }
    } else {
        assert(t.last() != 0);
        lemma_tail_after_zero(t.drop_last(), j);
        assert(t.drop_last().subrange(j, t.len() - 1).push(t.last()) =~= t.subrange(
            j,
            t.len() as int,
        ));
    }
}

/// Copies the last command out of the buffer.
pub fn last_command(buf: &Vec<u8>) -> (r: Vec<u8>)
    ensures
        r@ == last_seg(buf@),
{
    let tl: usize = if buf.len() > 0 && buf[buf.len() - 1] == 0 {
        buf.len() - 1
    } else {
        buf.len()
    };
    let ghost t = trimmed(buf@);
    proof {
        assert(buf@.subrange(0, tl as int) =~= t);
    }
    let mut j: usize = tl;
    while j > 0 && buf[j - 1] != 0
        invariant
            0 <= j <= tl <= buf@.len(),
            t == buf@.subrange(0, tl as int),
            forall|m: int| j <= m < tl ==> buf@[m] != 0,
        decreases j,
    {
        j = j - 1;
    }
    proof {
        assert(forall|m: int| j <= m < t.len() ==> t[m] == buf@[m] && t[m] != 0);
        lemma_tail_after_zero(t, j as int);
    }
    let mut out: Vec<u8> = Vec::new();
    let mut k: usize = j;
    while k < tl
        invariant
            j <= k <= tl <= buf@.len(),
            out@ == buf@.subrange(j as int, k as int),
        decreases tl - k,
    {
        out.push(buf[k]);
        assert(out@ =~= buf@.subrange(j as int, k as int + 1));
        k = k + 1;
    }
    proof {
        assert(t.subrange(j as int, t.len() as int) =~= buf@.subrange(j as int, tl as int));
    }
    out
}

/// Whether a command is a "set" command: it begins `set` and a space.
pub open spec fn is_set_cmd(s: Seq<u8>) -> bool {
    s.len() >= 4 && s[0] == 0x73 && s[1] == 0x65 && s[2] == 0x74 && s[3] == 0x20
}

/// Whether a command is an "unset" command: it begins `unset`; anything
/// after that is read over.
pub open spec fn is_unset_cmd(s: Seq<u8>) -> bool {
    s.len() >= 5 && s[0] == 0x75 && s[1] == 0x6e && s[2] == 0x73 && s[3] == 0x65 && s[4] == 0x74
}

/// The argument text of a "set" command: what follows the prefix.
pub open spec fn set_arg(s: Seq<u8>) -> Seq<u8>
    recommends
        is_set_cmd(s),
{
    s.subrange(4, s.len() as int)
}

pub(crate) fn is_set_cmd_x(s: &Vec<u8>) -> (r: bool)
    ensures
        r == is_set_cmd(s@),
{
    s.len() >= 4 && s[0] == 0x73 && s[1] == 0x65 && s[2] == 0x74 && s[3] == 0x20
}

pub(crate) fn is_unset_cmd_x(s: &Vec<u8>) -> (r: bool)
    ensures
        r == is_unset_cmd(s@),
{
    s.len() >= 5 && s[0] == 0x75 && s[1] == 0x6e && s[2] == 0x73 && s[3] == 0x65 && s[4] == 0x74
}

pub(crate) fn set_arg_x(s: &Vec<u8>) -> (r: Vec<u8>)
    requires
        is_set_cmd(s@),
    ensures
        r@ == set_arg(s@),
{
    let mut out: Vec<u8> = Vec::new();
    let mut k: usize = 4;
    while k < s.len()
        invariant
            4 <= k <= s@.len(),
            out@ == s@.subrange(4, k as int),
        decreases s@.len() - k,
    {
        out.push(s[k]);
        assert(out@ =~= s@.subrange(4, k as int + 1));
        k = k + 1;
    }
    out
}

} // verus!
