//! Natural numbers of any size, as little-endian vectors of 32-bit limbs, with the few
//! operations exact backoff arithmetic needs: multiplying and dividing by a small number,
//! and reading the value back capped to a `u64`.

use vstd::prelude::*;

verus! {

/// The base of the limbs, `2^32`.
pub open spec fn limb_base() -> nat {
    0x1_0000_0000
}

/// The weight of limb `i`: `2^(32·i)`.
pub open spec fn place(i: nat) -> nat
    decreases i,
{
    if i == 0 { 1 } else { limb_base() * place((i - 1) as nat) }
}

/// The number the limbs stand for, least significant limb first.
pub open spec fn limbs_value(s: Seq<u32>) -> nat
    decreases s.len(),
{
    if s.len() == 0 { 0 } else { limbs_value(s.drop_last()) + (s.last() as nat) * place((s.len() - 1) as nat) }
}

/// `b` to the power `e`.
pub open spec fn power(b: nat, e: nat) -> nat
    decreases e,
{
    if e == 0 { 1 } else { b * power(b, (e - 1) as nat) }
}

proof fn lemma_value_single(x: u32)
    ensures
        limbs_value(seq![x]) == x,
        limbs_value(Seq::<u32>::empty()) == 0,
{
    let e = Seq::<u32>::empty();
    assert(limbs_value(e) == 0);
    assert(seq![x].drop_last() =~= e);
    assert(place(0) == 1);
    assert(limbs_value(seq![x]) == limbs_value(e) + x * place(0));
}

proof fn lemma_place_positive(i: nat)
    ensures
        place(i) >= 1,
    decreases i,
{
    if i > 0 {
        lemma_place_positive((i - 1) as nat);
        assert(limb_base() * place((i - 1) as nat) >= 1) by (nonlinear_arith)
            requires place((i - 1) as nat) >= 1;
    }
}

/// Reading the limbs from the least significant one: `s[0] + 2^32 · value(rest)`.
proof fn lemma_value_from_front(s: Seq<u32>)
    requires
        s.len() > 0,
    ensures
        limbs_value(s) == s[0] + limb_base() * limbs_value(s.drop_first()),
    decreases s.len(),
{
    if s.len() == 1 {
        assert(s =~= seq![s[0]]);
        lemma_value_single(s[0]);
        assert(s.drop_first() =~= Seq::<u32>::empty());
    } else {
        let t = s.drop_last();
        lemma_value_from_front(t);
        assert(t[0] == s[0]);
        assert(limbs_value(s) == limbs_value(t) + s.last() * place((s.len() - 1) as nat));
        assert(t.drop_first() =~= s.drop_first().drop_last());
        let r = s.drop_first();
        let n = (s.len() - 1) as nat;
        assert(r.last() == s.last());
        assert(place(n) == limb_base() * place((n - 1) as nat));
        assert(limbs_value(r) == limbs_value(t.drop_first()) + s.last() * place((n - 1) as nat));
        assert(limb_base() * limbs_value(r) == limb_base() * limbs_value(t.drop_first()) + s.last() * place(n)) by (nonlinear_arith)
            requires
                limbs_value(r) == limbs_value(t.drop_first()) + s.last() * place((n - 1) as nat),
                place(n) == limb_base() * place((n - 1) as nat);
    }
}

/// Each limb weighs at most the whole value.
proof fn lemma_limb_below_value(s: Seq<u32>, i: int)
    requires
        0 <= i < s.len(),
    ensures
        s[i] * place(i as nat) <= limbs_value(s),
    decreases s.len(),
{
    if i < s.len() - 1 {
        lemma_limb_below_value(s.drop_last(), i);
        assert(s.drop_last()[i] == s[i]);
    }
}

/// The limbs of `a` times `m`.
pub fn mul_small(a: &Vec<u32>, m: u32) -> (r: Vec<u32>)
    ensures
        limbs_value(r@) == limbs_value(a@) * m,
{
    let mut r: Vec<u32> = Vec::new();
    let mut carry: u64 = 0;
    let mut i: usize = 0;
    proof {
        lemma_value_single(0);
        assert(a@.take(0) =~= Seq::<u32>::empty());
        assert(r@ =~= Seq::<u32>::empty());
    }
    while i < a.len()
        invariant
            i <= a@.len(),
            r@.len() == i,
            carry < limb_base(),
            limbs_value(r@) + carry * place(i as nat) == limbs_value(a@.take(i as int)) * m,
        decreases a@.len() - i,
    {
        let x = a[i];
        assert((x as u64) * (m as u64) + carry <= 0xffff_ffff * 0xffff_ffff + 0xffff_ffff) by (nonlinear_arith)
            requires x <= 0xffff_ffff, m <= 0xffff_ffff, carry <= 0xffff_ffff;
        let cur: u64 = (x as u64) * (m as u64) + carry;
        let low = (cur % 0x1_0000_0000) as u32;
        let next = cur / 0x1_0000_0000;
        proof {
            let p = place(i as nat);
            let t = a@.take(i + 1);
            assert(t.drop_last() =~= a@.take(i as int));
            assert(t.last() == x);
            assert(r@.push(low).drop_last() =~= r@);
            assert(place((i + 1) as nat) == limb_base() * p);
            assert(cur == low + next * limb_base());
            assert(limbs_value(r@) + low * p + next * place((i + 1) as nat) == (limbs_value(a@.take(i as int)) + x * p) * m) by (nonlinear_arith)
                requires
                    limbs_value(r@) + carry * p == limbs_value(a@.take(i as int)) * m,
                    cur == x * m + carry,
                    cur == low + next * limb_base(),
                    place((i + 1) as nat) == limb_base() * p;
            assert(next < limb_base()) by (nonlinear_arith)
                requires cur <= 0xffff_ffff * 0xffff_ffff + 0xffff_ffff, next == cur / 0x1_0000_0000;
        }
        r.push(low);
        carry = next;
        i = i + 1;
    }
    proof {
        assert(a@.take(a@.len() as int) =~= a@);
        assert(r@.push(carry as u32).drop_last() =~= r@);
    }
    r.push(carry as u32);
    r
}

/// The limbs of `a` divided by `d`, rounded down.
pub fn div_small(a: &Vec<u32>, d: u32) -> (q: Vec<u32>)
    requires
        d > 0,
    ensures
        limbs_value(q@) == limbs_value(a@) / (d as nat),
{
    let mut q: Vec<u32> = Vec::new();
    let mut k: usize = 0;
    while k < a.len()
        invariant
            k <= a@.len(),
            q@.len() == k,
            forall|j: int| 0 <= j < k ==> q@[j] == 0,
        decreases a@.len() - k,
    {
        q.push(0);
        k = k + 1;
    }
    let mut rem: u64 = 0;
    let mut j: usize = a.len();
    proof {
        assert(a@.skip(j as int) =~= Seq::<u32>::empty());
        assert(q@.skip(j as int) =~= Seq::<u32>::empty());
        assert(limbs_value(Seq::<u32>::empty()) == 0);
    }
    while j > 0
        invariant
            j <= a@.len(),
            q@.len() == a@.len(),
            rem < d,
            limbs_value(a@.skip(j as int)) == d * limbs_value(q@.skip(j as int)) + rem,
        decreases j,
    {
        let i = j - 1;
        let x = a[i];
        assert(rem * 0x1_0000_0000 + x < d * 0x1_0000_0000) by (nonlinear_arith)
            requires rem < d, x < 0x1_0000_0000;
        let cur: u64 = rem * 0x1_0000_0000 + x as u64;
        let digit = cur / (d as u64);
        let next_rem = cur % (d as u64);
        assert(digit < 0x1_0000_0000) by (nonlinear_arith)
            requires cur < d * 0x1_0000_0000, digit == cur / (d as u64), d > 0;
        let ghost old_q = q@;
        q.set(i, digit as u32);
        proof {
            assert(cur == d * digit + next_rem) by (nonlinear_arith)
                requires digit == cur / (d as u64), next_rem == cur % (d as u64), d > 0;
            assert(a@.skip(i as int).drop_first() =~= a@.skip(j as int));
            assert(q@.skip(i as int).drop_first() =~= old_q.skip(j as int));
            lemma_value_from_front(a@.skip(i as int));
            lemma_value_from_front(q@.skip(i as int));
            assert(a@.skip(i as int)[0] == x);
            assert(q@.skip(i as int)[0] == digit);
            let va = limbs_value(a@.skip(j as int));
            let vq = limbs_value(old_q.skip(j as int));
            assert(x + limb_base() * va == d * (digit + limb_base() * vq) + next_rem) by (nonlinear_arith)
                requires
                    va == d * vq + rem,
                    cur == rem * 0x1_0000_0000 + x,
                    cur == d * digit + next_rem,
                    limb_base() == 0x1_0000_0000;
        }
        rem = next_rem;
        j = i;
    }
    proof {
        assert(a@.skip(0) =~= a@);
        assert(q@.skip(0) =~= q@);
        assert(limbs_value(a@) == limbs_value(q@) * d + rem) by (nonlinear_arith)
            requires limbs_value(a@) == d * limbs_value(q@) + rem;
        vstd::arithmetic::div_mod::lemma_fundamental_div_mod_converse(
            limbs_value(a@) as int, d as int, limbs_value(q@) as int, rem as int);
    }
    q
}

/// The limbs standing for `n`.
pub fn from_u64(n: u64) -> (r: Vec<u32>)
    ensures
        limbs_value(r@) == n,
{
    let low = (n % 0x1_0000_0000) as u32;
    let high = (n / 0x1_0000_0000) as u32;
    let r = vec![low, high];
    proof {
        assert(r@.drop_last() =~= seq![low]);
        assert(seq![low].drop_last() =~= Seq::<u32>::empty());
        lemma_value_single(low);
        assert(place(0) == 1);
        assert(place(1) == limb_base() * place(0));
        assert(r@.last() == high);
        assert(limbs_value(r@) == low + high * place(1));
        assert(n == low + high * 0x1_0000_0000);
    }
    r
}

/// The value of the limbs, or `cap` when it is larger.
pub fn to_u64_capped(a: &Vec<u32>, cap: u64) -> (r: u64)
    ensures
        r == (if limbs_value(a@) > cap { cap as nat } else { limbs_value(a@) }),
{
    let mut i: usize = 2;
    while i < a.len()
        invariant
            2 <= i,
            forall|j: int| 2 <= j < i && j < a@.len() ==> a@[j] == 0,
        decreases a@.len() - i,
    {
        if a[i] != 0 {
            proof {
                lemma_limb_below_value(a@, i as int);
                lemma_place_positive((i - 2) as nat);
                assert(place(i as nat) >= place(2)) by {
                    lemma_place_grows(2, i as nat);
                }
                assert(place(2) == 0x1_0000_0000_0000_0000) by {
                    reveal_with_fuel(place, 3);
                }
                assert(a@[i as int] * place(i as nat) >= place(i as nat)) by (nonlinear_arith)
                    requires a@[i as int] >= 1;
            }
            return cap;
        }
        i = i + 1;
    }
    let low: u64 = if a.len() > 0 { a[0] as u64 } else { 0 };
    let high: u64 = if a.len() > 1 { a[1] as u64 } else { 0 };
    proof {
        lemma_value_of_two_limbs(a@);
    }
    let v: u64 = low + high * 0x1_0000_0000;
    if v > cap { cap } else { v }
}

proof fn lemma_place_grows(i: nat, j: nat)
    requires
        i <= j,
    ensures
        place(i) <= place(j),
    decreases j - i,
{
    if i < j {
        lemma_place_grows(i, (j - 1) as nat);
        lemma_place_positive((j - 1) as nat);
    }
}

/// Limbs that are zero from the third on stand for the first two.
proof fn lemma_value_of_two_limbs(s: Seq<u32>)
    requires
        forall|j: int| 2 <= j < s.len() ==> s[j] == 0,
    ensures
        limbs_value(s) == (if s.len() > 0 { s[0] as nat } else { 0 }) + (if s.len() > 1 { s[1] as nat } else { 0 }) * 0x1_0000_0000,
    decreases s.len(),
{
    if s.len() > 2 {
        let t = s.drop_last();
        assert forall|j: int| 2 <= j < t.len() implies t[j] == 0 by {
            assert(t[j] == s[j]);
        }
        lemma_value_of_two_limbs(t);
        assert(s.last() == 0);
        assert(t[0] == s[0] && t[1] == s[1]);
        assert(limbs_value(s) == limbs_value(t) + s.last() * place((s.len() - 1) as nat));
    } else if s.len() == 2 {
        let t = s.drop_last();
        assert(t =~= seq![s[0]]);
        lemma_value_single(s[0]);
        assert(limbs_value(t) == s[0]);
        assert(place(1) == limb_base() * place(0));
        assert(limbs_value(s) == limbs_value(t) + s.last() * place(1));
    } else if s.len() == 1 {
        assert(s =~= seq![s[0]]);
        lemma_value_single(s[0]);
    } else {
        lemma_value_single(0);
        assert(s =~= Seq::<u32>::empty());
    }
}

} // verus!
