//! Fixed-width big-endian numbers and the lexicographic order of byte strings.

use vstd::prelude::*;

verus! {

/// 256 to the power `n`.
pub open spec fn pow256(n: nat) -> nat
    decreases n,
{
    if n == 0 {
        1
    } else {
        256 * pow256((n - 1) as nat)
    }
}

/// The `n` big-endian bytes of `v`, most significant byte first.
pub open spec fn be_bytes(v: nat, n: nat) -> Seq<u8>
    decreases n,
{
    if n == 0 {
        Seq::empty()
    } else {
        be_bytes(v / 256, (n - 1) as nat).push((v % 256) as u8)
    }
}

/// The number that a big-endian byte string denotes.
pub open spec fn be_value(bytes: Seq<u8>) -> nat
    decreases bytes.len(),
{
    if bytes.len() == 0 {
        0
    } else {
        be_value(bytes.drop_last()) * 256 + bytes.last() as nat
    }
}

/// Strict lexicographic order on byte strings: `a` is a proper prefix of
/// `b`, or the first byte in which they differ is smaller in `a`.
pub open spec fn lex_lt(a: Seq<u8>, b: Seq<u8>) -> bool {
    ||| (a.len() < b.len() && a == b.subrange(0, a.len() as int))
    ||| exists|i: int|
        0 <= i < a.len() && i < b.len() && a[i] < b[i] && a.subrange(0, i) == b.subrange(0, i)
}

pub proof fn lemma_pow256_values()
    ensures
        pow256(0) == 1,
        pow256(1) == 0x100,
        pow256(2) == 0x1_0000,
        pow256(3) == 0x100_0000,
        pow256(4) == 0x1_0000_0000,
        pow256(5) == 0x100_0000_0000,
        pow256(6) == 0x1_0000_0000_0000,
        pow256(7) == 0x100_0000_0000_0000,
        pow256(8) == 0x1_0000_0000_0000_0000,
{
    reveal_with_fuel(pow256, 9);
}

pub proof fn lemma_be_bytes_len(v: nat, n: nat)
    ensures
        be_bytes(v, n).len() == n,
    decreases n,
{
    if n > 0 {
        lemma_be_bytes_len(v / 256, (n - 1) as nat);
    }
}

/// A number below 256^n is read back from its n bytes.
pub proof fn lemma_be_value_of_bytes(v: nat, n: nat)
    requires
        v < pow256(n),
    ensures
        be_value(be_bytes(v, n)) == v,
    decreases n,
{
    if n > 0 {
        let rest = be_bytes(v / 256, (n - 1) as nat);
        lemma_be_value_of_bytes(v / 256, (n - 1) as nat);
        assert(rest.push((v % 256) as u8).drop_last() =~= rest);
    }
}

/// A byte string is the fixed-width writing of the number it denotes.
pub proof fn lemma_be_bytes_of_value(bytes: Seq<u8>)
    ensures
        be_value(bytes) < pow256(bytes.len()),
        be_bytes(be_value(bytes), bytes.len()) == bytes,
    decreases bytes.len(),
{
    if bytes.len() > 0 {
        let front = bytes.drop_last();
        lemma_be_bytes_of_value(front);
        let v = be_value(bytes);
        assert(v / 256 == be_value(front));
        assert(v % 256 == bytes.last() as nat);
        assert(be_bytes(v, bytes.len()) =~= bytes);
    }
}

/// Among numbers of one width, the smaller number has the smaller bytes.
pub proof fn lemma_be_bytes_ordered(a: nat, b: nat, n: nat)
    requires
        a < b < pow256(n),
    ensures
        lex_lt(be_bytes(a, n), be_bytes(b, n)),
    decreases n,
{
    lemma_be_bytes_len(a, n);
    lemma_be_bytes_len(b, n);
    if n > 0 {
        let m = (n - 1) as nat;
        let fa = be_bytes(a / 256, m);
        let fb = be_bytes(b / 256, m);
        let wa = be_bytes(a, n);
        let wb = be_bytes(b, n);
        lemma_be_bytes_len(a / 256, m);
        lemma_be_bytes_len(b / 256, m);
        if a / 256 < b / 256 {
            lemma_be_bytes_ordered(a / 256, b / 256, m);
            assert(!(fa.len() < fb.len()));
            let i = choose|i: int|
                0 <= i < fa.len() && i < fb.len() && fa[i] < fb[i] && fa.subrange(0, i)
                    == fb.subrange(0, i);
            assert(wa.subrange(0, i) =~= fa.subrange(0, i));
            assert(wb.subrange(0, i) =~= fb.subrange(0, i));
            assert(wa[i] == fa[i] && wb[i] == fb[i]);
        } else {
            assert(a / 256 == b / 256);
            assert(a % 256 < b % 256);
            let i = m as int;
            assert(wa.subrange(0, i) =~= fa);
            assert(wb.subrange(0, i) =~= fb);
            assert(wa[i] < wb[i]);
        }
    }
}

/// The order of byte strings survives a common prefix.
pub proof fn lemma_lex_lt_prefixed(prefix: Seq<u8>, a: Seq<u8>, b: Seq<u8>)
    requires
        lex_lt(a, b),
    ensures
        lex_lt(prefix + a, prefix + b),
{
    let pa = prefix + a;
    let pb = prefix + b;
    let p = prefix.len() as int;
    if a.len() < b.len() && a == b.subrange(0, a.len() as int) {
        assert(pa =~= pb.subrange(0, pa.len() as int));
    } else {
        let i = choose|i: int|
            0 <= i < a.len() && i < b.len() && a[i] < b[i] && a.subrange(0, i) == b.subrange(0, i);
        assert(pa.subrange(0, p + i) =~= prefix + a.subrange(0, i));
        assert(pb.subrange(0, p + i) =~= prefix + b.subrange(0, i));
        assert(pa[p + i] == a[i] && pb[p + i] == b[i]);
    }
}

/// No byte string is below itself.
pub proof fn lemma_lex_lt_irreflexive(a: Seq<u8>)
    ensures
        !lex_lt(a, a),
{
}

/// The order of byte strings is transitive.
pub proof fn lemma_lex_lt_transitive(a: Seq<u8>, b: Seq<u8>, c: Seq<u8>)
    requires
        lex_lt(a, b),
        lex_lt(b, c),
    ensures
        lex_lt(a, c),
{
    let ab_prefix = a.len() < b.len() && a == b.subrange(0, a.len() as int);
    let bc_prefix = b.len() < c.len() && b == c.subrange(0, b.len() as int);
    if ab_prefix {
        if bc_prefix {
            assert(a =~= c.subrange(0, a.len() as int));
        } else {
            let j = choose|j: int|
                0 <= j < b.len() && j < c.len() && b[j] < c[j] && b.subrange(0, j) == c.subrange(
                    0,
                    j,
                );
            if j < a.len() {
                assert(a.subrange(0, j) =~= b.subrange(0, j));
                assert(a[j] == b[j]);
            } else {
                assert forall|k: int| 0 <= k < a.len() implies a[k] == c[k] by {
                    assert(b.subrange(0, j)[k] == c.subrange(0, j)[k]);
                }
                assert(a =~= c.subrange(0, a.len() as int));
            }
        }
    } else {
        let i = choose|i: int|
            0 <= i < a.len() && i < b.len() && a[i] < b[i] && a.subrange(0, i) == b.subrange(0, i);
        if bc_prefix {
            assert(a.subrange(0, i) =~= c.subrange(0, i)) by {
                assert(b.subrange(0, i) =~= c.subrange(0, b.len() as int).subrange(0, i));
            }
            assert(b[i] == c[i]);
        } else {
            let j = choose|j: int|
                0 <= j < b.len() && j < c.len() && b[j] < c[j] && b.subrange(0, j) == c.subrange(
                    0,
                    j,
                );
            if i <= j {
                assert(b.subrange(0, i) =~= c.subrange(0, i)) by {
                    assert forall|k: int| 0 <= k < i implies b[k] == c[k] by {
                        assert(b.subrange(0, j)[k] == c.subrange(0, j)[k]);
                    }
                }
                if i < j {
                    assert(b.subrange(0, j)[i] == c.subrange(0, j)[i]);
                }
                assert(a[i] < c[i]);
                assert(a.subrange(0, i) == c.subrange(0, i));
            } else {
                assert(a.subrange(0, j) =~= b.subrange(0, j)) by {
                    assert forall|k: int| 0 <= k < j implies a[k] == b[k] by {
                        assert(a.subrange(0, i)[k] == b.subrange(0, i)[k]);
                    }
                }
                assert(a.subrange(0, i)[j] == b.subrange(0, i)[j]);
                assert(a[j] < c[j]);
            }
        }
    }
}

/// Appends the `width` big-endian bytes of `v`.
pub fn push_be(out: &mut Vec<u8>, v: u64, width: u8)
    requires
        width <= 8,
    ensures
        final(out)@ == old(out)@ + be_bytes(v as nat, width as nat),
    decreases width,
{
    if width > 0 {
        push_be(out, v / 256, width - 1);
        out.push((v % 256) as u8);
        assert(out@ =~= old(out)@ + be_bytes(v as nat, width as nat));
    } else {
        assert(out@ =~= old(out)@ + be_bytes(v as nat, width as nat));
    }
}

/// Reads the big-endian number in `bytes[start .. start + width]`.
pub fn read_be(bytes: &Vec<u8>, start: usize, width: u8) -> (v: u64)
    requires
        width <= 8,
        start + width <= bytes.len(),
    ensures
        v as nat == be_value(bytes@.subrange(start as int, start + width)),
{
    let mut acc: u64 = 0;
    let mut i: u8 = 0;
    proof {
        lemma_pow256_values();
    }
    while i < width
        invariant
            i <= width <= 8,
            start + width <= bytes.len(),
            acc as nat == be_value(bytes@.subrange(start as int, start + i)),
            acc < pow256(i as nat),
        decreases width - i,
    {
        let b = bytes[start + i as usize];
        proof {
            lemma_pow256_values();
            let next = bytes@.subrange(start as int, start + i + 1);
            assert(next.drop_last() =~= bytes@.subrange(start as int, start + i));
            assert(next.last() == b);
            assert(pow256((i + 1) as nat) == 256 * pow256(i as nat));
        }
        acc = acc * 256 + b as u64;
        i = i + 1;
    }
    acc
}

/// Whether the first bytes come before the second in the order of
/// [`lex_lt`].
pub fn bytes_lt(a: &[u8], b: &[u8]) -> (less: bool)
    ensures
        less == lex_lt(a@, b@),
{
    let mut i: usize = 0;
    assert(a@.subrange(0, 0) =~= b@.subrange(0, 0));
    while i < a.len() && i < b.len()
        invariant
            i <= a.len(),
            i <= b.len(),
            a@.subrange(0, i as int) == b@.subrange(0, i as int),
        decreases a.len() - i,
    {
        if a[i] != b[i] {
            proof {
                if a@[i as int] > b@[i as int] {
                    assert(!(a@.len() < b@.len() && a@ == b@.subrange(0, a@.len() as int))) by {
                        if a@.len() < b@.len() && a@ == b@.subrange(0, a@.len() as int) {
                            assert(b@.subrange(0, a@.len() as int)[i as int] == b@[i as int]);
                        }
                    }
                    assert forall|j: int|
                        0 <= j < a@.len() && j < b@.len() && a@[j] < b@[j] implies a@.subrange(0, j)
                            != b@.subrange(0, j) by {
                        if j < i {
                            assert(a@.subrange(0, i as int)[j] == a@[j]);
                            assert(b@.subrange(0, i as int)[j] == b@[j]);
                        } else if j > i {
                            assert(a@.subrange(0, j)[i as int] == a@[i as int]);
                            assert(b@.subrange(0, j)[i as int] == b@[i as int]);
                        }
                    }
                }
            }
            return a[i] < b[i];
        }
        i = i + 1;
        assert(a@.subrange(0, i as int) =~= a@.subrange(0, i - 1).push(a@[i - 1]));
        assert(b@.subrange(0, i as int) =~= b@.subrange(0, i - 1).push(b@[i - 1]));
    }
    proof {
        if a@.len() < b@.len() {
            assert(a@.subrange(0, a@.len() as int) =~= a@);
        } else {
            assert forall|j: int|
                0 <= j < a@.len() && j < b@.len() && a@[j] < b@[j] implies a@.subrange(0, j)
                    != b@.subrange(0, j) by {
                assert(a@.subrange(0, i as int)[j] == a@[j]);
                assert(b@.subrange(0, i as int)[j] == b@[j]);
            }
        }
    }
    a.len() < b.len()
}

} // verus!
