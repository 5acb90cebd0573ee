use vstd::prelude::*;

verus! {

/// One scalar coordinate, held exactly as a count of nanounits
/// (billionths of a unit).  Model files carry short decimal literals, so a
/// fixed-point representation keeps every stage of the pipeline over plain
/// integers; the host converts to floating point only at buffer upload.
#[derive(Clone, Copy, PartialEq, Eq, Structural, Debug)]
pub struct Scalar {
    pub nanos: i64,
}

pub const NANOS_PER_UNIT: i64 = 1_000_000_000;

impl Scalar {
    pub fn zero() -> (r: Scalar)
        ensures
            r.nanos == 0,
    {
        Scalar { nanos: 0 }
    }

    pub fn one() -> (r: Scalar)
        ensures
            r.nanos == NANOS_PER_UNIT,
    {
        Scalar { nanos: NANOS_PER_UNIT }
    }

    pub fn from_nanos(nanos: i64) -> (r: Scalar)
        ensures
            r.nanos == nanos,
    {
        Scalar { nanos }
    }

    /// Exact sum of two scalars; the caller keeps the result in range.
    pub fn plus(self, other: Scalar) -> (r: Scalar)
        requires
            i64::MIN <= self.nanos + other.nanos <= i64::MAX,
        ensures
            r.nanos == self.nanos + other.nanos,
    {
        Scalar { nanos: self.nanos + other.nanos }
    }
}

/// A triple of scalar coordinates (a position, a normal).
#[derive(Clone, Copy, PartialEq, Eq, Structural, Debug)]
pub struct Vec3S {
    pub x: Scalar,
    pub y: Scalar,
    pub z: Scalar,
}

/// A pair of scalar coordinates (a texture coordinate).
#[derive(Clone, Copy, PartialEq, Eq, Structural, Debug)]
pub struct Vec2S {
    pub x: Scalar,
    pub y: Scalar,
}

impl Vec3S {
    pub fn zero() -> (r: Vec3S)
        ensures
            r.x.nanos == 0 && r.y.nanos == 0 && r.z.nanos == 0,
    {
        Vec3S { x: Scalar::zero(), y: Scalar::zero(), z: Scalar::zero() }
    }

    pub fn one() -> (r: Vec3S)
        ensures
            r.x.nanos == NANOS_PER_UNIT && r.y.nanos == NANOS_PER_UNIT && r.z.nanos
                == NANOS_PER_UNIT,
    {
        Vec3S { x: Scalar::one(), y: Scalar::one(), z: Scalar::one() }
    }

    /// Componentwise exact sum; the caller keeps each component in range.
    pub fn plus(self, other: Vec3S) -> (r: Vec3S)
        requires
            i64::MIN <= self.x.nanos + other.x.nanos <= i64::MAX,
            i64::MIN <= self.y.nanos + other.y.nanos <= i64::MAX,
            i64::MIN <= self.z.nanos + other.z.nanos <= i64::MAX,
        ensures
            r.x.nanos == self.x.nanos + other.x.nanos,
            r.y.nanos == self.y.nanos + other.y.nanos,
            r.z.nanos == self.z.nanos + other.z.nanos,
    {
        Vec3S { x: self.x.plus(other.x), y: self.y.plus(other.y), z: self.z.plus(other.z) }
    }
}

pub open spec fn pow10(n: nat) -> int
    decreases n,
{
    if n == 0 {
        1
    } else {
        10 * pow10((n - 1) as nat)
    }
}

pub open spec fn is_ascii_digit(b: u8) -> bool {
    48 <= b <= 57
}

pub open spec fn all_digits(s: Seq<u8>) -> bool {
    forall|i: int| 0 <= i < s.len() ==> is_ascii_digit(#[trigger] s[i])
}

/// The number written by a sequence of ASCII digits, most significant first.
pub open spec fn digits_value(s: Seq<u8>) -> int
    decreases s.len(),
{
    if s.len() == 0 {
        0
    } else {
        digits_value(s.drop_last()) * 10 + (s.last() - 48)
    }
}

pub proof fn lemma_pow10_values()
    ensures
        pow10(0) == 1,
        pow10(1) == 10,
        pow10(2) == 100,
        pow10(3) == 1000,
        pow10(4) == 10000,
        pow10(5) == 100000,
        pow10(6) == 1000000,
        pow10(7) == 10000000,
        pow10(8) == 100000000,
        pow10(9) == 1_000_000_000,
        pow10(10) == 10_000_000_000,
{
    assert(pow10(0) == 1);
    assert(pow10(1) == 10);
    assert(pow10(2) == 100);
    assert(pow10(3) == 1000);
    assert(pow10(4) == 10000);
    assert(pow10(5) == 100000);
    assert(pow10(6) == 1000000);
    assert(pow10(7) == 10000000);
    assert(pow10(8) == 100000000);
    assert(pow10(9) == 1_000_000_000);
    assert(pow10(10) == 10_000_000_000);
}

pub proof fn lemma_pow10_pos(n: nat)
    ensures
        pow10(n) >= 1,
    decreases n,
{
    if n > 0 {
        lemma_pow10_pos((n - 1) as nat);
    }
}

pub proof fn lemma_pow10_mono(a: nat, b: nat)
    requires
        a <= b,
    ensures
        pow10(a) <= pow10(b),
    decreases b,
{
    if a < b {
        lemma_pow10_mono(a, (b - 1) as nat);
        lemma_pow10_pos((b - 1) as nat);
    }
}

pub proof fn lemma_digits_value_bound(s: Seq<u8>)
    requires
        all_digits(s),
    ensures
        0 <= digits_value(s) < pow10(s.len()),
    decreases s.len(),
{
    if s.len() > 0 {
        assert(all_digits(s.drop_last())) by {
            assert(forall|i: int|
                0 <= i < s.len() - 1 ==> s.drop_last()[i] == #[trigger] s[i]);
        }
        lemma_digits_value_bound(s.drop_last());
    }
}

pub proof fn lemma_digits_value_take_succ(s: Seq<u8>, i: int)
    requires
        0 <= i < s.len(),
    ensures
        digits_value(s.take(i + 1)) == digits_value(s.take(i)) * 10 + (s[i] - 48),
{
    assert(s.take(i + 1).drop_last() =~= s.take(i));
    assert(s.take(i + 1).last() == s[i]);
}

/// Index of the first occurrence of `b` in `s` at or after `i`, or -1.
pub open spec fn find_byte_from(s: Seq<u8>, b: u8, i: int) -> int
    decreases s.len() - i,
{
    if i < 0 || i >= s.len() {
        -1
    } else if s[i] == b {
        i
    } else {
        find_byte_from(s, b, i + 1)
    }
}

pub open spec fn find_byte(s: Seq<u8>, b: u8) -> int {
    find_byte_from(s, b, 0)
}

pub proof fn lemma_find_byte_from_bounds(s: Seq<u8>, b: u8, i: int)
    requires
        0 <= i <= s.len(),
    ensures
        find_byte_from(s, b, i) == -1 ==> forall|j: int| i <= j < s.len() ==> s[j] != b,
        find_byte_from(s, b, i) != -1 ==> {
            let r = find_byte_from(s, b, i);
            &&& i <= r < s.len()
            &&& s[r] == b
            &&& forall|j: int| i <= j < r ==> s[j] != b
        },
    decreases s.len() - i,
{
    if i < s.len() && s[i] != b {
        lemma_find_byte_from_bounds(s, b, i + 1);
    }
}

/// Copy of the bytes of `v` in `[start, end)`.
pub fn subvec(v: &Vec<u8>, start: usize, end: usize) -> (r: Vec<u8>)
    requires
        start <= end <= v@.len(),
    ensures
        r@ == v@.subrange(start as int, end as int),
{
    let mut r: Vec<u8> = Vec::new();
    let mut i: usize = start;
    while i < end
        invariant
            start <= i <= end <= v@.len(),
            r@ == v@.subrange(start as int, i as int),
        decreases end - i,
    {
        r.push(v[i]);
        proof {
            assert(r@ =~= v@.subrange(start as int, i + 1));
        }
        i += 1;
    }
    r
}

/// First occurrence of `b` in `v` at or after `start`.
pub fn find_byte_exec(v: &Vec<u8>, b: u8, start: usize) -> (r: Option<usize>)
    requires
        start <= v@.len(),
    ensures
        match r {
            Some(j) => start <= j < v@.len() && find_byte_from(v@, b, start as int) == j,
            None => find_byte_from(v@, b, start as int) == -1,
        },
{
    let mut i: usize = start;
    while i < v.len()
        invariant
            start <= i <= v@.len(),
            find_byte_from(v@, b, start as int) == find_byte_from(v@, b, i as int),
        decreases v@.len() - i,
    {
        if v[i] == b {
            return Some(i);
        }
        proof {
            assert(find_byte_from(v@, b, i as int) == find_byte_from(v@, b, i + 1));
        }
        i += 1;
    }
    None
}

/// Whether every byte of `v` is an ASCII digit.
pub fn check_all_digits(v: &Vec<u8>) -> (r: bool)
    ensures
        r == all_digits(v@),
{
    let mut i: usize = 0;
    while i < v.len()
        invariant
            0 <= i <= v@.len(),
            forall|j: int| 0 <= j < i ==> is_ascii_digit(#[trigger] v@[j]),
        decreases v@.len() - i,
    {
        let b = v[i];
        if b < 48 || b > 57 {
            return false;
        }
        i += 1;
    }
    true
}

/// The number written by `v`, when `v` is all digits and short enough that
/// the value cannot overflow.
pub fn digits_of(v: &Vec<u8>) -> (r: Option<u64>)
    requires
        v@.len() <= 10,
    ensures
        match r {
            Some(x) => all_digits(v@) && x == digits_value(v@),
            None => !all_digits(v@),
        },
{
    let mut acc: u64 = 0;
    let mut i: usize = 0;
    while i < v.len()
        invariant
            0 <= i <= v@.len() <= 10,
            forall|j: int| 0 <= j < i ==> is_ascii_digit(#[trigger] v@[j]),
            acc == digits_value(v@.take(i as int)),
            acc < pow10(i as nat),
        decreases v@.len() - i,
    {
        let b = v[i];
        if b < 48 || b > 57 {
            return None;
        }
        proof {
            lemma_digits_value_take_succ(v@, i as int);
            assert(pow10((i + 1) as nat) == 10 * pow10(i as nat));
            lemma_pow10_values();
            lemma_pow10_mono(i as nat, 9);
        }
        acc = acc * 10 + ((b - 48) as u64);
        i += 1;
    }
    proof {
        assert(v@.take(v@.len() as int) =~= v@);
    }
    Some(acc)
}

/// The grammar of a numeric token: an optional minus sign, one to ten
/// integer digits, then optionally a dot and at least one fractional digit.
/// Fractional digits beyond the ninth are read but do not contribute.  The
/// token is malformed if its magnitude does not fit the nanounit range.
pub open spec fn spec_parse_scalar(s: Seq<u8>) -> Option<Scalar> {
    let neg = s.len() > 0 && s[0] == 45;
    let body = if neg {
        s.skip(1)
    } else {
        s
    };
    let dot = find_byte(body, 46);
    let ip = if dot == -1 {
        body
    } else {
        body.take(dot)
    };
    let fp = if dot == -1 {
        Seq::<u8>::empty()
    } else {
        body.skip(dot + 1)
    };
    if ip.len() == 0 || ip.len() > 10 || !all_digits(ip) {
        None
    } else if dot != -1 && (fp.len() == 0 || !all_digits(fp)) {
        None
    } else {
        let kept = if fp.len() > 9 {
            fp.take(9)
        } else {
            fp
        };
        let mag = digits_value(ip) * pow10(9) + digits_value(kept) * pow10((9 - kept.len()) as nat);
        if mag > i64::MAX {
            None
        } else {
            Some(
                Scalar {
                    nanos: (if neg {
                        -mag
                    } else {
                        mag
                    }) as i64,
                },
            )
        }
    }
}

fn pow10_u64(e: usize) -> (r: u64)
    requires
        e <= 9,
    ensures
        r == pow10(e as nat),
{
    let mut r: u64 = 1;
    let mut i: usize = 0;
    while i < e
        invariant
            0 <= i <= e <= 9,
            r == pow10(i as nat),
        decreases e - i,
    {
        proof {
            assert(pow10((i + 1) as nat) == 10 * pow10(i as nat));
            lemma_pow10_values();
            lemma_pow10_mono(i as nat, 8);
        }
        r = r * 10;
        i += 1;
    }
    r
}

/// Parse one numeric token into an exact fixed-point scalar.
pub fn parse_scalar(tok: &Vec<u8>) -> (r: Option<Scalar>)
    ensures
        r == spec_parse_scalar(tok@),
{
    let n = tok.len();
    let neg = n > 0 && tok[0] == 45;
    let off: usize = if neg {
        1
    } else {
        0
    };
    let body = subvec(tok, off, n);
    proof {
        assert(body@ =~= if neg { tok@.skip(1) } else { tok@ });
    }
    let dot = find_byte_exec(&body, 46, 0);
    let (ip, fp) = match dot {
        None => {
            proof {
                assert(body@.subrange(0, body@.len() as int) =~= body@);
            }
            (subvec(&body, 0, body.len()), Vec::<u8>::new())
        },
        Some(d) => {
            proof {
                lemma_find_byte_from_bounds(body@, 46, 0);
                assert(body@.subrange(d + 1, body@.len() as int) =~= body@.skip(d + 1));
                assert(body@.subrange(0, d as int) =~= body@.take(d as int));
            }
            (subvec(&body, 0, d), subvec(&body, d + 1, body.len()))
        },
    };
    if ip.len() == 0 || ip.len() > 10 {
        return None;
    }
    let ipv = match digits_of(&ip) {
        None => {
            return None;
        },
        Some(x) => x,
    };
    if dot.is_some() {
        if fp.len() == 0 || !check_all_digits(&fp) {
            return None;
        }
    }
    let k: usize = if fp.len() > 9 {
        9
    } else {
        fp.len()
    };
    let kept = subvec(&fp, 0, k);
    proof {
        assert(kept@ =~= if fp@.len() > 9 { fp@.take(9) } else { fp@ });
        assert(all_digits(kept@)) by {
            assert(forall|j: int| 0 <= j < kept@.len() ==> kept@[j] == #[trigger] fp@[j]);
        }
    }
    let fv = match digits_of(&kept) {
        None => {
            proof {
                assert(false);
            }
            return None;
        },
        Some(x) => x,
    };
    let scale = pow10_u64(9 - k);
    proof {
        lemma_digits_value_bound(ip@);
        lemma_digits_value_bound(kept@);
        lemma_pow10_values();
        lemma_pow10_mono(ip@.len(), 10);
        lemma_pow10_mono(kept@.len(), 9);
        lemma_pow10_mono((9 - kept@.len()) as nat, 9);
        assert((fv as int) * (scale as int) <= 1_000_000_000_000_000_000) by (nonlinear_arith)
            requires
                0 <= fv as int <= 1_000_000_000,
                0 <= scale as int <= 1_000_000_000,
        ;
    }
    let mag: u128 = (ipv as u128) * 1_000_000_000u128 + (fv as u128) * (scale as u128);
    if mag > i64::MAX as u128 {
        return None;
    }
    let nanos: i64 = if neg {
        -(mag as i64)
    } else {
        mag as i64
    };
    Some(Scalar { nanos })
}

} // verus!
