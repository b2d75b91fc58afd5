//! Decimal and hexadecimal text for the payloads, and the parse of the
//! progress provider's decimal output.
use vstd::prelude::*;

verus! {

/// The byte of one hexadecimal digit, lowercase.
pub open spec fn hex_digit(d: nat) -> u8
    recommends
        d < 16,
{
    if d < 10 {
        (0x30 + d) as u8
    } else {
        (0x57 + d) as u8
    }
}

/// Decimal text of a number, most significant digit first.
pub open spec fn dec_rep(n: nat) -> Seq<u8>
    decreases n,
{
    if n < 10 {
        seq![(0x30 + n) as u8]
    } else {
        dec_rep(n / 10) + seq![(0x30 + n % 10) as u8]
    }
}

/// Hexadecimal text of a number, lowercase, most significant digit first.
pub open spec fn hex_rep(n: nat) -> Seq<u8>
    decreases n,
{
    if n < 16 {
        seq![hex_digit(n)]
    } else {
        hex_rep(n / 16) + seq![hex_digit(n % 16)]
    }
}

/// `k` ASCII zeros.
pub open spec fn zero_pad(k: nat) -> Seq<u8> {
    Seq::new(k, |i: int| 0x30u8)
}

/// The nonce text of a 128-bit value: its lowercase hexadecimal text,
/// left-padded with zeros to at least sixteen digits.
pub open spec fn nonce_hex(n: nat) -> Seq<u8> {
    if hex_rep(n).len() >= 16 {
        hex_rep(n)
    } else {
        zero_pad((16 - hex_rep(n).len()) as nat) + hex_rep(n)
    }
}

/// Writes the decimal text of `n`.
pub fn push_dec(out: &mut Vec<u8>, n: u64)
    ensures
        final(out)@ == old(out)@ + dec_rep(n as nat),
    decreases n,
{
    if n < 10 {
        out.push((0x30 + n) as u8);
        assert(out@ =~= old(out)@ + dec_rep(n as nat));
    } else {
        push_dec(out, n / 10);
        out.push((0x30 + n % 10) as u8);
        assert(out@ =~= old(out)@ + dec_rep(n as nat));
    }
}

pub(crate) fn hex_digit_byte(d: u8) -> (r: u8)
    requires
        d < 16,
    ensures
        r == hex_digit(d as nat),
{
    if d < 10 {
        0x30 + d
    } else {
        0x57 + d
    }
}

fn push_hex(out: &mut Vec<u8>, n: u128)
    ensures
        final(out)@ == old(out)@ + hex_rep(n as nat),
    decreases n,
{
    if n < 16 {
        out.push(hex_digit_byte(n as u8));
        assert(out@ =~= old(out)@ + hex_rep(n as nat));
    } else {
        push_hex(out, n / 16);
        out.push(hex_digit_byte((n % 16) as u8));
        assert(out@ =~= old(out)@ + hex_rep(n as nat));
    }
}

/// The nonce text of a 128-bit value.
pub fn nonce_hex_bytes(n: u128) -> (r: Vec<u8>)
    ensures
        r@ == nonce_hex(n as nat),
{
    let mut v: Vec<u8> = Vec::new();
    push_hex(&mut v, n);
    let ghost rep = hex_rep(n as nat);
    while v.len() < 16
        invariant
            rep.len() >= 1,
            v@.len() >= rep.len(),
            rep.len() >= 16 ==> v@.len() == rep.len(),
            rep.len() < 16 ==> v@.len() <= 16,
            v@ == zero_pad((v@.len() - rep.len()) as nat) + rep,
        decreases 16 - v.len(),
    {
        v.insert(0, 0x30);
        assert(v@ =~= zero_pad((v@.len() - rep.len()) as nat) + rep);
    }
    proof {
        if rep.len() >= 16 {
            assert(zero_pad(0) =~= Seq::<u8>::empty());
            assert(v@ =~= rep);
        }
    }
    v
}

/// Value of a run of ASCII digits.
pub open spec fn digits_val(s: Seq<u8>) -> int
    decreases s.len(),
{
    if s.len() == 0 {
        0
    } else {
        10 * digits_val(s.drop_last()) + (s.last() - 0x30)
    }
}

/// Whether every byte is an ASCII digit.
pub open spec fn all_digits(s: Seq<u8>) -> bool {
    forall|i: int| 0 <= i < s.len() ==> 0x30 <= #[trigger] s[i] <= 0x39
}

/// The count that the progress provider's raw output stands for: the decimal
/// value of its digits (one optional leading `+` accepted), and zero whenever
/// the output is not such a number or does not fit 32 bits.
pub open spec fn count_of_output(s: Seq<u8>) -> u32 {
    let body = if s.len() > 0 && s[0] == 0x2b {
        s.drop_first()
    } else {
        s
    };
    if body.len() > 0 && all_digits(body) && digits_val(body) <= u32::MAX {
        digits_val(body) as u32
    } else {
        0
    }
}

proof fn lemma_digits_val_nonneg(s: Seq<u8>)
    requires
        all_digits(s),
    ensures
        digits_val(s) >= 0,
    decreases s.len(),
{
    if s.len() > 0 {
        assert(all_digits(s.drop_last()));
        lemma_digits_val_nonneg(s.drop_last());
    }
}

proof fn lemma_digits_val_prefix(s: Seq<u8>, i: int)
    requires
        all_digits(s),
        0 <= i <= s.len(),
    ensures
        digits_val(s.subrange(0, i)) <= digits_val(s),
    decreases s.len() - i,
{
    if i == s.len() {
        assert(s.subrange(0, i) =~= s);
    } else {
        lemma_digits_val_prefix(s, i + 1);
        let p = s.subrange(0, i + 1);
        assert(p.drop_last() =~= s.subrange(0, i));
        assert(all_digits(s.subrange(0, i)));
        lemma_digits_val_nonneg(s.subrange(0, i));
        assert(digits_val(s.subrange(0, i)) <= digits_val(p));
    }
}

fn digits_value(v: &Vec<u8>, from: usize) -> (r: Option<u32>)
    requires
        from <= v@.len(),
    ensures
        ({
            let body = v@.subrange(from as int, v@.len() as int);
            if body.len() > 0 && all_digits(body) && digits_val(body) <= u32::MAX {
                r matches Some(n) && n == digits_val(body)
            } else {
                r is None
            }
        }),
{
    let ghost body = v@.subrange(from as int, v@.len() as int);
    if from == v.len() {
        return None;
    }
    let mut acc: u64 = 0;
    let mut i: usize = from;
    while i < v.len()
        invariant
            from <= i <= v@.len(),
            body == v@.subrange(from as int, v@.len() as int),
            all_digits(v@.subrange(from as int, i as int)),
            acc == digits_val(v@.subrange(from as int, i as int)),
            acc <= u32::MAX,
        decreases v@.len() - i,
    {
        let b = v[i];
        if b < 0x30 || b > 0x39 {
            assert(!all_digits(body)) by {
                assert(body[i - from] == v@[i as int]);
            }
            return None;
        }
        assert(v@.subrange(from as int, i as int + 1).drop_last() =~= v@.subrange(
            from as int,
            i as int,
        ));
        acc = 10 * acc + (b - 0x30) as u64;
        i = i + 1;
        if acc > u32::MAX as u64 {
            proof {
                if all_digits(body) {
                    assert(v@.subrange(from as int, i as int) =~= body.subrange(
                        0,
                        i as int - from,
                    ));
                    lemma_digits_val_prefix(body, i as int - from);
                }
            }
            return None;
        }
    }
    assert(v@.subrange(from as int, i as int) =~= body);
    Some(acc as u32)
}

/// Reads the progress provider's output: the decimal count it printed, or
/// zero when the output is not a 32-bit decimal number.
pub fn parse_count(v: &Vec<u8>) -> (r: u32)
    ensures
        r == count_of_output(v@),
{
    let from: usize = if v.len() > 0 && v[0] == 0x2b {
        1
    } else {
        0
    };
    proof {
        if v@.len() > 0 && v@[0] == 0x2b {
            assert(v@.subrange(1, v@.len() as int) =~= v@.drop_first());
        } else {
            assert(v@.subrange(0, v@.len() as int) =~= v@);
        }
    }
    match digits_value(v, from) {
        Some(n) => n,
        None => 0,
    }
}

/// Powers of ten.
pub open spec fn pow10(k: nat) -> nat
    decreases k,
{
    if k == 0 {
        1
    } else {
        10 * pow10((k - 1) as nat)
    }
}

/// Powers of sixteen.
pub open spec fn pow16(k: nat) -> nat
    decreases k,
{
    if k == 0 {
        1
    } else {
        16 * pow16((k - 1) as nat)
    }
}

proof fn lemma_dec_rep_len(n: nat, k: nat)
    requires
        k >= 1,
        n < pow10(k),
    ensures
        dec_rep(n).len() <= k,
    decreases k,
{
    if n >= 10 {
        let p = pow10((k - 1) as nat);
        assert(n / 10 < p) by (nonlinear_arith)
            requires
                n < 10 * p,
                p > 0,
        ;
        lemma_dec_rep_len(n / 10, (k - 1) as nat);
    }
}

/// The decimal text of a 64-bit value has at most twenty digits.
pub proof fn lemma_dec_rep_len_u64(n: u64)
    ensures
        dec_rep(n as nat).len() <= 20,
{
    reveal_with_fuel(pow10, 21);
    assert(pow10(20) > u64::MAX);
    lemma_dec_rep_len(n as nat, 20);
}

proof fn lemma_hex_rep_len(n: nat, k: nat)
    requires
        k >= 1,
        n < pow16(k),
    ensures
        hex_rep(n).len() <= k,
    decreases k,
{
    if n >= 16 {
        let p = pow16((k - 1) as nat);
        assert(n / 16 < p) by (nonlinear_arith)
            requires
                n < 16 * p,
                p > 0,
        ;
        lemma_hex_rep_len(n / 16, (k - 1) as nat);
    }
}

/// The nonce text of a 128-bit value has between sixteen and thirty-two
/// digits.
pub proof fn lemma_nonce_hex_len(n: u128)
    ensures
        16 <= nonce_hex(n as nat).len() <= 32,
{
    reveal_with_fuel(pow16, 33);
    assert(pow16(32) > u128::MAX);
    lemma_hex_rep_len(n as nat, 32);
}

} // verus!
