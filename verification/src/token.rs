//! Derivation of the numeric session token (`ptqrtoken`) from the
//! server-issued session-binding secret (`qrsig`).

use vstd::prelude::*;

verus! {

use vstd::arithmetic::div_mod::{lemma_fundamental_div_mod, lemma_mod_multiples_vanish};

/// 2^31: masking with `0x7FFF_FFFF` amounts to reducing modulo this.
pub const TOKEN_MODULUS: u64 = 0x8000_0000;

/// Hash accumulator over the characters of a secret, before masking:
/// starting from 0, each character with codepoint `c` takes the
/// accumulator `e` to `(e << 5) + e + c`, that is `33 * e + c`, in
/// unbounded precision.
pub open spec fn token_acc(s: Seq<char>) -> nat
    decreases s.len(),
{
    if s.len() == 0 {
        0
    } else {
        33 * token_acc(s.drop_last()) + (s.last() as u32) as nat
    }
}

/// The token bound to a secret: the unbounded accumulator masked to its
/// low 31 bits, so always in `[0, 2^31 - 1]`.
pub open spec fn token_of(s: Seq<char>) -> nat {
    token_acc(s) % (TOKEN_MODULUS as nat)
}

/// The token is always in range, whatever the secret.
pub proof fn lemma_token_in_range(s: Seq<char>)
    ensures
        token_of(s) < 0x8000_0000,
{
}

proof fn lemma_mod_step(a: int, c: int, m: int)
    requires
        m > 0,
        a >= 0,
        c >= 0,
    ensures
        (33 * (a % m) + c) % m == (33 * a + c) % m,
{
    lemma_fundamental_div_mod(a, m);
    let q = a / m;
    let r = a % m;
    assert(33 * a + c == m * (33 * q) + (33 * r + c)) by (nonlinear_arith)
        requires
            a == m * q + r,
    ;
    lemma_mod_multiples_vanish(33 * q, 33 * r + c, m);
}

/// Reducing modulo 2^31 at every step gives the same result as
/// accumulating in unbounded precision and masking once at the end.
pub fn derive_token(secret: &str) -> (t: u32)
    ensures
        t as nat == token_of(secret@),
        t < 0x8000_0000,
{
    let n: usize = secret.unicode_len();
    let mut e: u64 = 0;
    let mut i: usize = 0;
    while i < n
        invariant
            i <= n,
            n == secret@.len(),
            e < TOKEN_MODULUS,
            e as nat == token_acc(secret@.subrange(0, i as int)) % (TOKEN_MODULUS as nat),
        decreases n - i,
    {
        let c = secret.get_char(i);
        proof {
            let pre = secret@.subrange(0, i as int);
            let ext = secret@.subrange(0, i + 1 as int);
            assert(ext.drop_last() =~= pre);
            assert(ext.last() == secret@[i as int]);
            lemma_mod_step(token_acc(pre) as int, (c as u32) as int, TOKEN_MODULUS as int);
        }
        e = (33 * e + c as u64) % TOKEN_MODULUS;
        i += 1;
    }
    proof {
        assert(secret@.subrange(0, n as int) =~= secret@);
    }
    e as u32
}

/// The token for a secret, written as a decimal string, as the poll
/// request carries it.
pub fn get_ptqrtoken(qrsig: &str) -> (t: String)
    ensures
        t@ == crate::digits::dec_digits(token_of(qrsig@)),
{
    let tok = derive_token(qrsig);
    crate::digits::format_u64(tok as u64)
}

} // verus!
