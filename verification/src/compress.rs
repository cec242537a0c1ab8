use vstd::prelude::*;

use crate::errors::Error;

verus! {

/// The length of the initial run of equal bytes.
pub open spec fn run_len(x: Seq<u8>) -> nat
    decreases x.len(),
{
    if x.len() == 0 {
        0
    } else if x.len() >= 2 && x[1] == x[0] {
        (1 + run_len(x.skip(1))) as nat
    } else {
        1
    }
}

/// The initial run capped to what one count byte can carry, and
/// clamped into the string, so that it is always a step forward.
pub open spec fn cap_run(x: Seq<u8>) -> nat {
    let r = run_len(x);
    let c: nat = if r < 1 {
        1
    } else if r > 256 {
        256
    } else {
        r
    };
    if c > x.len() {
        x.len()
    } else {
        c
    }
}

/// The run-length form of a byte string: each run of up to 256 equal
/// bytes becomes a count byte (the run length less one) and the byte.
pub open spec fn rle_encode(x: Seq<u8>) -> Seq<u8>
    decreases x.len(),
{
    if x.len() == 0 {
        Seq::empty()
    } else {
        seq![(cap_run(x) - 1) as u8, x[0]] + rle_encode(x.skip(cap_run(x) as int))
    }
}

/// The byte string a run-length stream expands to, if it is made of
/// whole count-byte pairs.
pub open spec fn rle_decode(s: Seq<u8>) -> Option<Seq<u8>>
    decreases s.len(),
{
    if s.len() == 0 {
        Some(Seq::empty())
    } else if s.len() == 1 {
        None
    } else {
        match rle_decode(s.skip(2)) {
            None => None,
            Some(t) => Some(Seq::new((s[0] + 1) as nat, |i: int| s[1]) + t),
        }
    }
}

/// The initial run is between one and the whole string, is made of
/// copies of the first byte, and ends at a different byte or the end.
proof fn lemma_run_len(x: Seq<u8>)
    requires
        x.len() > 0,
    ensures
        1 <= run_len(x) <= x.len(),
        forall|k: int| 0 <= k < run_len(x) ==> #[trigger] x[k] == x[0],
        run_len(x) == x.len() || x[run_len(x) as int] != x[0],
    decreases x.len(),
{
    if x.len() >= 2 && x[1] == x[0] {
        lemma_run_len(x.skip(1));
        assert forall|k: int| 0 <= k < run_len(x) implies #[trigger] x[k] == x[0] by {
            if k >= 1 {
                assert(x.skip(1)[k - 1] == x.skip(1)[0]);
            }
        }
        if run_len(x) < x.len() {
            assert(x.skip(1)[run_len(x) as int - 1] == x[run_len(x) as int]);
        }
    }
}

/// A run of at least `m` equal bytes makes the initial run at least `m`.
proof fn lemma_run_len_ge(x: Seq<u8>, m: int)
    requires
        1 <= m <= x.len(),
        forall|k: int| 0 <= k < m ==> #[trigger] x[k] == x[0],
    ensures
        run_len(x) >= m,
    decreases x.len(),
{
    if m >= 2 {
        assert(x[1] == x[0]);
        assert forall|k: int| 0 <= k < m - 1 implies #[trigger] x.skip(1)[k] == x.skip(1)[0] by {
            assert(x[k + 1] == x[0]);
        }
        lemma_run_len_ge(x.skip(1), m - 1);
    }
}

/// A run of exactly `m` equal bytes makes the initial run exactly `m`.
proof fn lemma_run_len_eq(x: Seq<u8>, m: int)
    requires
        1 <= m <= x.len(),
        forall|k: int| 0 <= k < m ==> #[trigger] x[k] == x[0],
        m == x.len() || x[m] != x[0],
    ensures
        run_len(x) == m,
{
    lemma_run_len(x);
    lemma_run_len_ge(x, m);
    if run_len(x) > m {
        assert(x[m] == x[0]);
    }
}

/// Expanding the run-length form of a byte string gives the string
/// back: the compression layer is lossless.
pub proof fn lemma_rle_round_trip(x: Seq<u8>)
    ensures
        rle_decode(rle_encode(x)) == Some(x),
    decreases x.len(),
{
    if x.len() == 0 {
        assert(x =~= Seq::<u8>::empty());
    } else {
        lemma_run_len(x);
        let n = cap_run(x);
        let enc = rle_encode(x);
        let rest = rle_encode(x.skip(n as int));
        lemma_rle_round_trip(x.skip(n as int));
        assert(enc == seq![(n - 1) as u8, x[0]] + rest);
        assert(enc.skip(2) =~= rest);
        assert(enc[0] == (n - 1) as u8 && enc[1] == x[0]);
        assert((enc[0] + 1) as nat == n);
        assert(Seq::new(n, |i: int| x[0]) + x.skip(n as int) =~= x);
    }
}

/// Compresses a byte string into its run-length form, which always
/// expands back to the input.
pub fn compress(x: &Vec<u8>) -> (r: Vec<u8>)
    ensures
        r@ == rle_encode(x@),
        rle_decode(r@) == Some(x@),
{
    proof {
        lemma_rle_round_trip(x@);
    }
    let mut out: Vec<u8> = Vec::new();
    let mut i: usize = 0;
    proof {
        assert(x@.skip(0) =~= x@);
        Seq::add_empty_left(out@, rle_encode(x@));
    }
    while i < x.len()
        invariant
            i <= x.len(),
            rle_encode(x@) == out@ + rle_encode(x@.skip(i as int)),
        decreases x.len() - i,
    {
        let b = x[i];
        let mut j: usize = i + 1;
        while j < x.len() && x[j] == b && j - i < 256
            invariant
                i < j <= x.len(),
                j - i <= 256,
                b == x@[i as int],
                forall|k: int| i <= k < j ==> x@[k] == b,
            decreases x.len() - j,
        {
            j = j + 1;
        }
        let ghost s = x@.skip(i as int);
        let ghost m = j - i;
        proof {
            assert forall|k: int| 0 <= k < m implies #[trigger] s[k] == s[0] by {
                assert(x@[i + k] == b);
            }
            if m == 256 {
                lemma_run_len_ge(s, m);
                lemma_run_len(s);
            } else {
                if m < s.len() {
                    assert(s[m] == x@[i + m]);
                }
                lemma_run_len_eq(s, m);
            }
            assert(cap_run(s) == m);
            assert(s[0] == b);
            assert(rle_encode(s) == seq![(m - 1) as u8, b] + rle_encode(s.skip(m)));
            assert(s.skip(m) =~= x@.skip(j as int));
            vstd::seq_lib::lemma_concat_associative(
                out@,
                seq![(m - 1) as u8, b],
                rle_encode(x@.skip(j as int)),
            );
            assert(out@ + seq![(m - 1) as u8, b] =~= out@.push((m - 1) as u8).push(b));
        }
        out.push((j - i - 1) as u8);
        out.push(b);
        i = j;
    }
    proof {
        assert(rle_encode(x@.skip(x@.len() as int)) =~= Seq::<u8>::empty());
        Seq::add_empty_right(out@, rle_encode(x@.skip(x@.len() as int)));
    }
    out
}

/// Expands a run-length stream. Fails with `CompressionError` exactly
/// when the stream is malformed: a trailing count byte with no data
/// byte after it.
pub fn decompress(c: &Vec<u8>) -> (r: Result<Vec<u8>, Error>)
    ensures
        match r {
            Ok(v) => rle_decode(c@) == Some(v@),
            Err(e) => rle_decode(c@) is None && e matches Error::CompressionError,
        },
{
    let mut out: Vec<u8> = Vec::new();
    let mut i: usize = 0;
    proof {
        assert(c@.skip(0) =~= c@);
        if rle_decode(c@) is Some {
            Seq::add_empty_left(out@, rle_decode(c@).unwrap());
        }
    }
    while i < c.len()
        invariant
            i <= c.len(),
            (match rle_decode(c@.skip(i as int)) {
                Some(t) => rle_decode(c@) == Some(out@ + t),
                None => rle_decode(c@) is None,
            }),
        decreases c.len() - i,
    {
        if c.len() - i < 2 {
            proof {
                assert(c@.skip(i as int).len() == 1);
            }
            return Err(Error::CompressionError);
        }
        let cnt: usize = c[i] as usize + 1;
        let b = c[i + 1];
        let ghost out0 = out@;
        let mut k: usize = 0;
        while k < cnt
            invariant
                k <= cnt,
                b == c@[i as int + 1],
                out@ =~= out0 + Seq::new(k as nat, |q: int| b),
            decreases cnt - k,
        {
            out.push(b);
            k = k + 1;
            proof {
                assert(out@ =~= out0 + Seq::new(k as nat, |q: int| b));
            }
        }
        proof {
            let s = c@.skip(i as int);
            assert(s.skip(2) =~= c@.skip(i as int + 2));
            assert(s[0] == c@[i as int] && s[1] == c@[i as int + 1]);
            assert(Seq::new(cnt as nat, |q: int| b) =~= Seq::new((s[0] + 1) as nat, |q: int| s[1]));
            if rle_decode(c@.skip(i as int + 2)) is Some {
                let t = rle_decode(c@.skip(i as int + 2)).unwrap();
                vstd::seq_lib::lemma_concat_associative(
                    out0,
                    Seq::new((s[0] + 1) as nat, |q: int| s[1]),
                    t,
                );
            }
        }
        i = i + 2;
    }
    proof {
        assert(c@.skip(c@.len() as int).len() == 0);
        Seq::add_empty_right(out@, rle_decode(c@.skip(c@.len() as int)).unwrap());
    }
    Ok(out)
}

} // verus!
