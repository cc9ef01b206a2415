//! Fixed-point sine and cosine read from a quarter-wave table, and the
//! bearing of a vector found by searching that table.
//!
//! Angles are whole numbers of table steps: a quarter turn is as many steps
//! as the table has intervals, a full turn four times that. Sines and
//! cosines are scaled by `ONE`.

use vstd::prelude::*;

verus! {

/// The fixed-point representation of 1.
pub const ONE: i64 = 65536;

/// The most intervals a quarter-wave table may have.
pub const MAX_QUARTER_TURN: usize = 1048576;

/// Whether `s` samples a sine over a quarter turn: from 0 up to `ONE`,
/// never falling, and above 0 from the first step on, so that no angle
/// but 0 itself has the sine of 0.
pub open spec fn valid_quarter_wave(s: Seq<i64>) -> bool {
    &&& 2 <= s.len() <= MAX_QUARTER_TURN + 1
    &&& s[0] == 0
    &&& s[1] > 0
    &&& s[s.len() - 1] == ONE
    &&& forall|i: int, j: int| 0 <= i <= j < s.len() ==> s[i] <= s[j]
}

/// The sine of `a`, unfolded from the quarter wave by its symmetries.
pub open spec fn wave(s: Seq<i64>, a: int) -> int {
    let q = s.len() - 1;
    let r = a % (4 * q);
    if r <= q {
        s[r] as int
    } else if r <= 2 * q {
        s[2 * q - r] as int
    } else if r <= 3 * q {
        -s[r - 2 * q]
    } else {
        -s[4 * q - r]
    }
}

/// The number of angle steps in a quarter turn of the table `s`.
pub open spec fn quarter(s: Seq<i64>) -> int {
    s.len() - 1
}

/// The cosine of `a`: the sine a quarter turn further on.
pub open spec fn cosine(s: Seq<i64>, a: int) -> int {
    wave(s, a + quarter(s))
}

/// Whether the table angle `k` of the first quadrant lies at or before the
/// direction of `(dx, dy)`, counter-clockwise: `tan k <= dy / dx`.
pub open spec fn not_past(s: Seq<i64>, dy: int, dx: int, k: int) -> bool {
    s[k] * dx <= s[s.len() - 1 - k] * dy
}

/// The greatest table angle in `[0, k]` that is not past the direction of
/// `(dx, dy)`.
pub open spec fn last_not_past(s: Seq<i64>, dy: int, dx: int, k: int) -> int
    decreases k,
{
    if k <= 0 || not_past(s, dy, dx, k) {
        k
    } else {
        last_not_past(s, dy, dx, k - 1)
    }
}

/// The bearing of the vector `(dx, dy)` in table steps, within half a turn
/// of zero: the first-quadrant angle of `(|dx|, |dy|)`, rounded down to a
/// table step and reflected into the quadrant of the vector. The bearing of
/// the zero vector is 0.
pub open spec fn bearing(s: Seq<i64>, dy: int, dx: int) -> int {
    let q = s.len() - 1;
    let ax = if dx < 0 { -dx } else { dx };
    let ay = if dy < 0 { -dy } else { dy };
    let k = last_not_past(s, ay, ax, q);
    if dx == 0 && dy == 0 {
        0
    } else if dx >= 0 && dy >= 0 {
        k
    } else if dy >= 0 {
        2 * q - k
    } else if dx < 0 {
        k - 2 * q
    } else {
        -k
    }
}

/// An angle brought into the half-open turn `(-half, half]` around zero.
pub open spec fn normalized(a: int, half: int) -> int {
    let r = a % (2 * half);
    if r > half {
        r - 2 * half
    } else {
        r
    }
}

/// No sine exceeds `ONE` in size.
pub proof fn lemma_wave_bound(s: Seq<i64>, a: int)
    requires
        valid_quarter_wave(s),
    ensures
        -ONE <= wave(s, a) <= ONE,
{
    let q = s.len() - 1;
    vstd::arithmetic::div_mod::lemma_mod_bound(a, 4 * q);
    let r = a % (4 * q);
    let i = if r <= q {
        r
    } else if r <= 2 * q {
        2 * q - r
    } else if r <= 3 * q {
        r - 2 * q
    } else {
        4 * q - r
    };
    assert(s[0] <= s[i] <= s[q]);
}

/// Angles a whole number of turns apart have the same sine and cosine.
pub proof fn lemma_periodic(s: Seq<i64>, a: int, b: int)
    requires
        s.len() >= 2,
        a % (4 * quarter(s)) == b % (4 * quarter(s)),
    ensures
        wave(s, a) == wave(s, b),
        cosine(s, a) == cosine(s, b),
{
    let n = 4 * quarter(s);
    let q = quarter(s);
    vstd::arithmetic::div_mod::lemma_add_mod_noop(a, q, n);
    vstd::arithmetic::div_mod::lemma_add_mod_noop(b, q, n);
}

proof fn lemma_not_past_downward(s: Seq<i64>, dy: int, dx: int, k: int, m: int)
    requires
        valid_quarter_wave(s),
        0 <= dx,
        0 <= dy,
        0 <= k <= m < s.len(),
        not_past(s, dy, dx, m),
    ensures
        not_past(s, dy, dx, k),
{
    let q = s.len() - 1;
    assert(s[k] <= s[m]);
    assert(s[q - m] <= s[q - k]);
    assert(0 <= s[k]);
    assert(0 <= s[q - m]);
    assert(s[k] * dx <= s[q - k] * dy) by (nonlinear_arith)
        requires
            0 <= s[k] <= s[m],
            0 <= s[q - m] <= s[q - k],
            0 <= dx,
            0 <= dy,
            s[m] * dx <= s[q - m] * dy,
    ;
}

/// A table angle that is not past a vector, with the next one past it,
/// is the first-quadrant angle found for the vector.
pub proof fn lemma_last_not_past(s: Seq<i64>, dy: int, dx: int, k: int, top: int)
    requires
        valid_quarter_wave(s),
        0 <= dx,
        0 <= dy,
        0 <= k <= top < s.len(),
        not_past(s, dy, dx, k),
        k == top || !not_past(s, dy, dx, k + 1),
    ensures
        last_not_past(s, dy, dx, top) == k,
    decreases top - k,
{
    if top > k {
        if not_past(s, dy, dx, top) {
            lemma_not_past_downward(s, dy, dx, k + 1, top);
        }
        lemma_last_not_past(s, dy, dx, k, top - 1);
    }
}

/// The first-quadrant angle found for a vector is a table angle that is
/// not past the vector, and the next table angle, if there is one, is past it.
pub proof fn lemma_last_not_past_bounds(s: Seq<i64>, dy: int, dx: int, top: int)
    requires
        valid_quarter_wave(s),
        0 <= dx,
        0 <= dy,
        0 <= top < s.len(),
    ensures
        0 <= last_not_past(s, dy, dx, top) <= top,
        not_past(s, dy, dx, last_not_past(s, dy, dx, top)),
        last_not_past(s, dy, dx, top) < top ==> !not_past(
            s,
            dy,
            dx,
            last_not_past(s, dy, dx, top) + 1,
        ),
    decreases top,
{
    if top <= 0 {
        assert(s[0] * dx == 0) by (nonlinear_arith)
            requires
                s[0] == 0,
        ;
        assert(0 <= s[s.len() - 1] * dy) by (nonlinear_arith)
            requires
                s[s.len() - 1] == ONE,
                0 <= dy,
        ;
    } else if !not_past(s, dy, dx, top) {
        lemma_last_not_past_bounds(s, dy, dx, top - 1);
    }
}

/// A validated quarter-wave sine table.
pub struct TrigTable {
    quarter: Vec<i64>,
}

impl View for TrigTable {
    type V = Seq<i64>;

    closed spec fn view(&self) -> Seq<i64> {
        self.quarter@
    }
}

impl TrigTable {
    #[verifier::type_invariant]
    spec fn inv(&self) -> bool {
        valid_quarter_wave(self.quarter@)
    }

    /// Accepts `samples` as a table when it rises from 0 to `ONE` without
    /// ever falling, over at least one and at most `MAX_QUARTER_TURN`
    /// intervals, and leaves 0 at its first step.
    pub fn new(samples: Vec<i64>) -> (table: Option<TrigTable>)
        ensures
            table.is_some() == valid_quarter_wave(samples@),
            table matches Some(t) ==> t@ == samples@,
    {
        let n = samples.len();
        if n < 2 || n > MAX_QUARTER_TURN + 1 {
            return None;
        }
        if samples[0] != 0 || samples[1] <= 0 || samples[n - 1] != ONE {
            return None;
        }
        let mut i: usize = 1;
        while i < n
            invariant
                1 <= i <= n,
                n == samples.len(),
                forall|a: int, b: int| 0 <= a <= b < i ==> samples[a] <= samples[b],
            decreases n - i,
        {
            if samples[i - 1] > samples[i] {
                return None;
            }
            i = i + 1;
        }
        Some(TrigTable { quarter: samples })
    }

    /// The number of angle steps in a quarter turn.
    pub fn quarter_turn(&self) -> (q: i64)
        ensures
            q == quarter(self@),
            valid_quarter_wave(self@),
    {
        proof {
            use_type_invariant(self);
        }
        (self.quarter.len() - 1) as i64
    }

    /// The sine of the angle `a`, scaled by `ONE`.
    pub fn sin(&self, a: i64) -> (r: i64)
        ensures
            r == wave(self@, a as int),
            -ONE <= r <= ONE,
    {
        proof {
            use_type_invariant(self);
        }
        let q: i64 = (self.quarter.len() - 1) as i64;
        let r: i64 = match a.checked_rem_euclid(4 * q) {
            Some(r) => r,
            None => 0,
        };
        proof {
            vstd::arithmetic::div_mod::lemma_mod_bound(a as int, 4 * q as int);
            lemma_wave_bound(self@, a as int);
        }
        if r <= q {
            self.quarter[r as usize]
        } else if r <= 2 * q {
            self.quarter[(2 * q - r) as usize]
        } else if r <= 3 * q {
            -self.quarter[(r - 2 * q) as usize]
        } else {
            -self.quarter[(4 * q - r) as usize]
        }
    }

    /// The cosine of the angle `a`, scaled by `ONE`.
    pub fn cos(&self, a: i64) -> (r: i64)
        ensures
            r == cosine(self@, a as int),
            -ONE <= r <= ONE,
    {
        proof {
            use_type_invariant(self);
        }
        let q: i64 = (self.quarter.len() - 1) as i64;
        let r: i64 = match a.checked_rem_euclid(4 * q) {
            Some(r) => r,
            None => 0,
        };
        proof {
            vstd::arithmetic::div_mod::lemma_mod_bound(a as int, 4 * q as int);
            vstd::arithmetic::div_mod::lemma_mod_twice(a as int, 4 * q as int);
            lemma_periodic(self@, r as int, a as int);
        }
        self.sin(r + q)
    }

    /// The sum of two angles, brought into one turn from zero.
    pub fn turn(&self, a: i64, b: i64) -> (r: i64)
        ensures
            r == (a + b) % (4 * quarter(self@)),
            0 <= r < 4 * quarter(self@),
            wave(self@, r as int) == wave(self@, a + b),
            cosine(self@, r as int) == cosine(self@, a + b),
    {
        proof {
            use_type_invariant(self);
        }
        let n: i128 = 4 * ((self.quarter.len() - 1) as i128);
        proof {
            vstd::arithmetic::div_mod::lemma_mod_bound(a + b, n as int);
            vstd::arithmetic::div_mod::lemma_mod_twice(a + b, n as int);
            lemma_periodic(self@, (a + b) % (n as int), a + b);
        }
        match (a as i128 + b as i128).checked_rem_euclid(n) {
            Some(r) => r as i64,
            None => 0,
        }
    }

    /// The angle `a` brought within half a turn of zero.
    pub fn normalize(&self, a: i128) -> (r: i64)
        ensures
            r == normalized(a as int, 2 * quarter(self@)),
            -2 * quarter(self@) < r <= 2 * quarter(self@),
    {
        proof {
            use_type_invariant(self);
        }
        let half: i128 = 2 * ((self.quarter.len() - 1) as i128);
        proof {
            vstd::arithmetic::div_mod::lemma_mod_bound(a as int, 2 * half as int);
        }
        let r: i128 = match a.checked_rem_euclid(2 * half) {
            Some(r) => r,
            None => 0,
        };
        if r > half {
            (r - 2 * half) as i64
        } else {
            r as i64
        }
    }

    /// The angle from `from` round to `to`, within half a turn of zero.
    pub fn angle_diff(&self, to: i64, from: i64) -> (r: i64)
        ensures
            r == normalized(to - from, 2 * quarter(self@)),
            -2 * quarter(self@) < r <= 2 * quarter(self@),
    {
        self.normalize(to as i128 - from as i128)
    }

    /// The bearing of the vector `(dx, dy)`: see `bearing`.
    pub fn atan2(&self, dy: i64, dx: i64) -> (r: i64)
        ensures
            r == bearing(self@, dy as int, dx as int),
            -2 * quarter(self@) <= r <= 2 * quarter(self@),
    {
        proof {
            use_type_invariant(self);
        }
        let q: usize = self.quarter.len() - 1;
        if dx == 0 && dy == 0 {
            return 0;
        }
        let ax: i128 = if dx < 0 { -(dx as i128) } else { dx as i128 };
        let ay: i128 = if dy < 0 { -(dy as i128) } else { dy as i128 };
        let mut lo: usize = 0;
        let mut hi: usize = q;
        proof {
            lemma_last_not_past_bounds(self@, ay as int, ax as int, 0);
        }
        while lo < hi
            invariant
                valid_quarter_wave(self.quarter@),
                q == self.quarter@.len() - 1,
                0 <= ax <= 0x8000_0000_0000_0000,
                0 <= ay <= 0x8000_0000_0000_0000,
                0 <= lo <= hi <= q,
                not_past(self.quarter@, ay as int, ax as int, lo as int),
                hi == q || !not_past(self.quarter@, ay as int, ax as int, hi + 1),
            decreases hi - lo,
        {
            let mid: usize = lo + (hi - lo + 1) / 2;
            let s_mid: i128 = self.quarter[mid] as i128;
            let c_mid: i128 = self.quarter[q - mid] as i128;
            proof {
                assert(0 <= self.quarter@[0] <= s_mid <= self.quarter@[q as int]);
                assert(0 <= self.quarter@[0] <= c_mid <= self.quarter@[q as int]);
                assert(0 <= s_mid * ax <= 0x1_0000 * 0x8000_0000_0000_0000) by (nonlinear_arith)
                    requires
                        0 <= s_mid <= 0x1_0000,
                        0 <= ax <= 0x8000_0000_0000_0000,
                ;
                assert(0 <= c_mid * ay <= 0x1_0000 * 0x8000_0000_0000_0000) by (nonlinear_arith)
                    requires
                        0 <= c_mid <= 0x1_0000,
                        0 <= ay <= 0x8000_0000_0000_0000,
                ;
            }
            if s_mid * ax <= c_mid * ay {
                lo = mid;
            } else {
                hi = mid - 1;
            }
        }
        proof {
            lemma_last_not_past(self@, ay as int, ax as int, lo as int, q as int);
        }
        let k: i64 = lo as i64;
        let qq: i64 = q as i64;
        if dx >= 0 && dy >= 0 {
            k
        } else if dy >= 0 {
            2 * qq - k
        } else if dx < 0 {
            k - 2 * qq
        } else {
            -k
        }
    }
}

} // verus!
