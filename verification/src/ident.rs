//! Identity strings of the form `"<kind>_<n>"`.
//!
//! Each store mints sequential identities from a monotonic counter: the
//! `n`-th record of a kind is named by the kind's prefix followed by the
//! decimal numeral of `n`.  Distinct counter values give distinct identity
//! strings, which is proved here once and reused by every store.

use vstd::prelude::*;
use vstd::string::*;
use vstd::arithmetic::div_mod::lemma_fundamental_div_mod;
use vstd::slice::slice_index_get;
use vstd::utf8::encode_utf8_decode_utf8;

verus! {

/// The character for one decimal digit.
pub open spec fn dec_digit(d: int) -> char {
    if d == 0 {
        '0'
    } else if d == 1 {
        '1'
    } else if d == 2 {
        '2'
    } else if d == 3 {
        '3'
    } else if d == 4 {
        '4'
    } else if d == 5 {
        '5'
    } else if d == 6 {
        '6'
    } else if d == 7 {
        '7'
    } else if d == 8 {
        '8'
    } else {
        '9'
    }
}

/// The decimal numeral of `n`, most significant digit first.
pub open spec fn dec_seq(n: nat) -> Seq<char>
    decreases n,
{
    if n < 10 {
        seq![dec_digit(n as int)]
    } else {
        dec_seq(n / 10) + seq![dec_digit((n % 10) as int)]
    }
}

/// An identity string: a kind prefix followed by a decimal numeral.
pub open spec fn id_seq(prefix: Seq<char>, n: nat) -> Seq<char> {
    prefix + dec_seq(n)
}

/// A numeral is never empty, and has a single digit exactly for `n < 10`.
pub proof fn lemma_dec_seq_len(n: nat)
    ensures
        dec_seq(n).len() >= 1,
        dec_seq(n).len() == 1 <==> n < 10,
    decreases n,
{
    if n >= 10 {
        lemma_dec_seq_len(n / 10);
    }
}

/// Distinct numbers have distinct numerals.
pub proof fn lemma_dec_seq_injective(a: nat, b: nat)
    requires
        dec_seq(a) == dec_seq(b),
    ensures
        a == b,
    decreases a,
{
    lemma_dec_seq_len(a);
    lemma_dec_seq_len(b);
    if a < 10 && b < 10 {
        assert(dec_seq(a)[0] == dec_digit(a as int));
        assert(dec_seq(b)[0] == dec_digit(b as int));
    } else if a >= 10 && b >= 10 {
        let sa = dec_seq(a / 10);
        let sb = dec_seq(b / 10);
        assert(dec_seq(a).last() == dec_digit((a % 10) as int));
        assert(dec_seq(b).last() == dec_digit((b % 10) as int));
        assert((a % 10) as int == (b % 10) as int);
        assert(dec_seq(a).drop_last() =~= sa);
        assert(dec_seq(b).drop_last() =~= sb);
        lemma_dec_seq_injective(a / 10, b / 10);
        lemma_fundamental_div_mod(a as int, 10);
        lemma_fundamental_div_mod(b as int, 10);
    }
}

/// Appending to a common prefix is injective.
pub proof fn lemma_concat_left_cancel<A>(p: Seq<A>, x: Seq<A>, y: Seq<A>)
    requires
        p + x == p + y,
    ensures
        x == y,
{
    assert((p + x).len() == p.len() + x.len());
    assert((p + y).len() == p.len() + y.len());
    assert(x.len() == y.len());
    assert forall|i: int| 0 <= i < x.len() implies x[i] == y[i] by {
        assert((p + x)[p.len() + i] == x[i]);
        assert((p + y)[p.len() + i] == y[i]);
    }
    assert(x =~= y);
}

/// Under one prefix, distinct numbers give distinct identity strings.
pub proof fn lemma_id_seq_injective(prefix: Seq<char>, a: nat, b: nat)
    requires
        id_seq(prefix, a) == id_seq(prefix, b),
    ensures
        a == b,
{
    lemma_concat_left_cancel(prefix, dec_seq(a), dec_seq(b));
    lemma_dec_seq_injective(a, b);
}

/// Two string slices are equal exactly when their character sequences are:
/// decided over the byte encodings, which encode character sequences
/// injectively.
pub(crate) fn str_eq(a: &str, b: &str) -> (r: bool)
    ensures
        r == (a@ == b@),
{
    proof {
        encode_utf8_decode_utf8(a@);
        encode_utf8_decode_utf8(b@);
    }
    let ab = a.as_bytes();
    let bb = b.as_bytes();
    if ab.len() != bb.len() {
        return false;
    }
    let mut i: usize = 0;
    while i < ab.len()
        invariant
            ab@ == a.spec_bytes(),
            bb@ == b.spec_bytes(),
            ab@.len() == bb@.len(),
            i <= ab@.len(),
            forall|j: int| 0 <= j < i ==> ab@[j] == bb@[j],
        decreases ab@.len() - i,
    {
        if *slice_index_get(ab, i) != *slice_index_get(bb, i) {
            return false;
        }
        i += 1;
    }
    proof {
        assert(ab@ =~= bb@);
    }
    true
}

fn digit_str(d: u64) -> (r: &'static str)
    requires
        d < 10,
    ensures
        r@ == seq![dec_digit(d as int)],
{
    if d == 0 {
        proof { reveal_strlit("0"); }
        let r = "0";
        assert(r@ =~= seq![dec_digit(d as int)]);
        r
    } else if d == 1 {
        proof { reveal_strlit("1"); }
        let r = "1";
        assert(r@ =~= seq![dec_digit(d as int)]);
        r
    } else if d == 2 {
        proof { reveal_strlit("2"); }
        let r = "2";
        assert(r@ =~= seq![dec_digit(d as int)]);
        r
    } else if d == 3 {
        proof { reveal_strlit("3"); }
        let r = "3";
        assert(r@ =~= seq![dec_digit(d as int)]);
        r
    } else if d == 4 {
        proof { reveal_strlit("4"); }
        let r = "4";
        assert(r@ =~= seq![dec_digit(d as int)]);
        r
    } else if d == 5 {
        proof { reveal_strlit("5"); }
        let r = "5";
        assert(r@ =~= seq![dec_digit(d as int)]);
        r
    } else if d == 6 {
        proof { reveal_strlit("6"); }
        let r = "6";
        assert(r@ =~= seq![dec_digit(d as int)]);
        r
    } else if d == 7 {
        proof { reveal_strlit("7"); }
        let r = "7";
        assert(r@ =~= seq![dec_digit(d as int)]);
        r
    } else if d == 8 {
        proof { reveal_strlit("8"); }
        let r = "8";
        assert(r@ =~= seq![dec_digit(d as int)]);
        r
    } else {
        proof { reveal_strlit("9"); }
        let r = "9";
        assert(r@ =~= seq![dec_digit(d as int)]);
        r
    }
}

pub(crate) fn push_dec(s: &mut String, n: u64)
    ensures
        final(s)@ == old(s)@ + dec_seq(n as nat),
    decreases n,
{
    let ghost pre = s@;
    if n >= 10 {
        push_dec(s, n / 10);
    }
    let d = digit_str(n % 10);
    s.append(d);
    proof {
        if n < 10 {
            assert(s@ =~= pre + dec_seq(n as nat));
        } else {
            assert((n / 10) as nat == (n as nat) / 10);
            assert((n % 10) as nat == (n as nat) % 10);
            assert(s@ =~= pre + dec_seq(n as nat));
        }
    }
}

/// The identity string for the `n`-th record of a kind.
pub(crate) fn make_id(prefix: &str, n: u64) -> (r: String)
    ensures
        r@ == id_seq(prefix@, n as nat),
{
    let mut s = String::from_str(prefix);
    push_dec(&mut s, n);
    s
}

} // verus!
