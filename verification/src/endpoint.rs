//! Endpoint discovery: the base directory is the first configured runtime
//! directory, and the candidate socket names carry a fixed prefix and one
//! digit; the first candidate that exists on disk wins.
use vstd::prelude::*;
use crate::json::{lit_ipc_infix, lit_tmp_base, push_lit_ipc_infix, push_lit_tmp_base, push_all};

verus! {

/// The base directory the candidates live under: the first configured value,
/// with a fixed temporary directory as the fallback.
pub open spec fn base_of(vars: Seq<Option<Seq<u8>>>) -> Seq<u8>
    decreases vars.len(),
{
    if vars.len() == 0 {
        lit_tmp_base()
    } else {
        match vars[0] {
            Some(v) => v,
            None => base_of(vars.drop_first()),
        }
    }
}

/// Picks the base directory out of the configured values, in their fixed
/// order of precedence.
pub fn resolve_base(vars: &Vec<Option<Vec<u8>>>) -> (r: Vec<u8>)
    ensures
        r@ == base_of(vars@.map_values(|v: Option<Vec<u8>>| match v {
            Some(x) => Some(x@),
            None => None,
        })),
{
    let ghost m = vars@.map_values(
        |v: Option<Vec<u8>>|
            match v {
                Some(x) => Some(x@),
                None => None,
            },
    );
    let mut i: usize = 0;
    proof {
        assert(m.subrange(0, m.len() as int) =~= m);
    }
    while i < vars.len()
        invariant
            i <= vars@.len(),
            m == vars@.map_values(
                |v: Option<Vec<u8>>|
                    match v {
                        Some(x) => Some(x@),
                        None => None,
                    },
            ),
            base_of(m) == base_of(m.subrange(i as int, m.len() as int)),
        decreases vars@.len() - i,
    {
        match &vars[i] {
            Some(v) => {
                let mut out: Vec<u8> = Vec::new();
                push_all(&mut out, v);
                proof {
                    assert(m.subrange(i as int, m.len() as int)[0] == m[i as int]);
                }
                return out;
            },
            None => {
                proof {
                    assert(m.subrange(i as int, m.len() as int).drop_first() =~= m.subrange(
                        i as int + 1,
                        m.len() as int,
                    ));
                    assert(m.subrange(i as int, m.len() as int)[0] == m[i as int]);
                }
                i = i + 1;
            },
        }
    }
    proof {
        assert(m.subrange(i as int, m.len() as int) =~= Seq::<Option<Seq<u8>>>::empty());
    }
    let mut out: Vec<u8> = Vec::new();
    push_lit_tmp_base(&mut out);
    out
}

/// The path of the candidate socket with one digit suffix.
pub open spec fn candidate_path(base: Seq<u8>, n: u8) -> Seq<u8>
    recommends
        n < 10,
{
    base + lit_ipc_infix() + seq![(0x30 + n) as u8]
}

/// Builds the path text of candidate `n` under the base directory.
pub fn candidate(base: &Vec<u8>, n: u8) -> (r: Vec<u8>)
    requires
        n < 10,
    ensures
        r@ == candidate_path(base@, n),
{
    let mut out: Vec<u8> = Vec::new();
    push_all(&mut out, base);
    push_lit_ipc_infix(&mut out);
    out.push(0x30 + n);
    assert(out@ =~= candidate_path(base@, n));
    out
}

/// Picks the first candidate that exists, given for each candidate whether
/// its path resolved to an existing entry.
pub fn pick_candidate(exists_flags: &Vec<bool>) -> (r: Option<usize>)
    ensures
        r matches Some(i) ==> i < exists_flags@.len() && exists_flags@[i as int] && (forall|j: int|
            0 <= j < i ==> !exists_flags@[j]),
        r is None ==> forall|j: int| 0 <= j < exists_flags@.len() ==> !exists_flags@[j],
{
    let mut i: usize = 0;
    while i < exists_flags.len()
        invariant
            i <= exists_flags@.len(),
            forall|j: int| 0 <= j < i ==> !exists_flags@[j],
        decreases exists_flags@.len() - i,
    {
        if exists_flags[i] {
            return Some(i);
        }
        i = i + 1;
    }
    None
}

} // verus!
