use vstd::prelude::*;

verus! {

// The agent's mood, its confidences and its scores are single-precision
// binary floating-point numbers. They are held here exactly, as integer
// counts of 2^-64, and every operation on them rounds as single precision
// does: to the nearest representable value, ties to an even last digit.
/// One, in counts of 2^-64.
pub const UM: i128 = 18446744073709551616;

/// The largest magnitude held (2^34); larger values are brought to it.
pub const LIMITE: i128 = 0x4_0000_0000_0000_0000_0000_0000;

/// 2 to the power `j`.
pub open spec fn potencia2(j: nat) -> nat
    decreases j,
{
    if j == 0 {
        1
    } else {
        2 * potencia2((j - 1) as nat)
    }
}

/// The least `i >= j` with `n < d * 2^24 * 2^i`, looked for at most `k`
/// steps.
pub open spec fn expoente(n: nat, d: nat, j: nat, k: nat) -> nat
    decreases k,
{
    if k == 0 || n < d * 16777216 * potencia2(j) {
        j
    } else {
        expoente(n, d, j + 1, (k - 1) as nat)
    }
}

/// The spacing of the single-precision values next to `n / d`: values in
/// `[2^(23+i), 2^(24+i))` are `2^i` apart, values below `2^24` one apart.
pub open spec fn passo(n: nat, d: nat) -> nat {
    potencia2(expoente(n, d, 0, n + 1))
}

/// `n / d` (with `n >= 0`) rounded to the nearest multiple of its spacing,
/// a tie going to the even multiple. For integers, and for values from
/// `2^23` on, this is the nearest single-precision value.
pub open spec fn arred_pos(n: nat, d: nat) -> nat {
    let q = passo(n, d);
    let f = n / (d * q);
    let r = n % (d * q);
    if 2 * r > d * q || (2 * r == d * q && f % 2 == 1) {
        (f + 1) * q
    } else {
        f * q
    }
}

/// `n / d` rounded to single precision, the sign kept.
pub open spec fn arred(n: int, d: nat) -> int {
    if n < 0 {
        -(arred_pos((-n) as nat, d) as int)
    } else {
        arred_pos(n as nat, d) as int
    }
}

/// `x` brought into `[-LIMITE, LIMITE]`.
pub open spec fn contido(x: int) -> int {
    if x < -LIMITE {
        -LIMITE
    } else if x > LIMITE {
        LIMITE as int
    } else {
        x
    }
}

/// The single-precision sum of `a` and `b`.
pub open spec fn soma(a: int, b: int) -> int {
    arred(contido(a) + contido(b), 1)
}

/// The single-precision product of `a` and the number `m / 2^24`.
pub open spec fn produto(a: int, m: int) -> int {
    arred(contido(a) * m, 16777216)
}

/// The single-precision quotient of the whole numbers `a` and `b`, each
/// first made single precision.
pub open spec fn razao(a: nat, b: nat) -> int {
    let x = arred(a as int, 1);
    let y = arred(b as int, 1);
    arred(x * UM, y as nat)
}

fn arredondar_pos(n: u128, d: u128) -> (r: (u128, u128))
    requires
        0 < d < 0x10_0000_0000_0000_0000_0000_0000,
        n < 0x1000_0000_0000_0000_0000_0000_0000_0000,
    ensures
        r.0 == arred_pos(n as nat, d as nat),
        r.1 == passo(n as nat, d as nat),
        r.0 <= 2 * n + 1,
        d == 1 && n > 0 ==> r.0 >= 1,
        r.1 >= 1,
        r.0 % r.1 == 0,
        r.0 <= 16777216 * r.1,
{
    let lim = d * 16777216;
    let mut q: u128 = 1;
    let ghost mut j: nat = 0;
    assert(lim * q == lim);
    while n >= lim * q
        invariant
            0 < d < 0x10_0000_0000_0000_0000_0000_0000,
            n < 0x1000_0000_0000_0000_0000_0000_0000_0000,
            lim == d * 16777216,
            q == potencia2(j),
            1 <= q,
            j <= q,
            j <= n,
            lim * q <= 2 * n + lim,
            q == 1 || d * 8388608 * q <= n,
            expoente(n as nat, d as nat, 0, (n + 1) as nat) == expoente(
                n as nat,
                d as nat,
                j,
                (n + 1 - j) as nat,
            ),
        decreases n - q,
    {
        assert(lim * (2 * q) == 2 * (lim * q)) by (nonlinear_arith);
        assert(d * 8388608 * (2 * q) == lim * q) by (nonlinear_arith)
            requires
                lim == d * 16777216,
        ;
        assert(2 * q <= d * 8388608 * (2 * q)) by (nonlinear_arith)
            requires
                d >= 1,
                q >= 1,
        ;
        assert(2 * q <= lim * q) by (nonlinear_arith)
            requires
                lim >= 2,
                q >= 1,
        ;
        q = q * 2;
        proof {
            j = j + 1;
        }
    }
    assert(d * q <= lim * q) by (nonlinear_arith)
        requires
            lim == d * 16777216,
            q >= 1,
    ;
    let dq = d * q;
    assert(dq >= 1) by (nonlinear_arith)
        requires
            dq == d * q,
            d >= 1,
            q >= 1,
    ;
    let f = n / dq;
    let r = n % dq;
    assert(f * q <= n) by (nonlinear_arith)
        requires
            dq == d * q,
            d >= 1,
            q >= 1,
            f == n / dq,
            dq >= 1,
    ;
    assert(q <= n + 1) by (nonlinear_arith)
        requires
            q == 1 || d * 8388608 * q <= n,
            d >= 1,
            q >= 1,
    ;
    assert(d == 1 && n > 0 ==> f * q >= 1) by (nonlinear_arith)
        requires
            dq == d * q,
            q >= 1,
            f == n / dq,
            q == 1 || d * 8388608 * q <= n,
    ;
    assert((f + 1) * q == f * q + q) by (nonlinear_arith);
    assert(f + 1 <= 16777216) by (nonlinear_arith)
        requires
            dq == d * q,
            f == n / dq,
            n < lim * q,
            lim == d * 16777216,
            dq >= 1,
    ;
    assert((f + 1) * q <= 16777216 * q) by (nonlinear_arith)
        requires
            f + 1 <= 16777216,
    ;
    let g = if r * 2 > dq || (r * 2 == dq && f % 2 == 1) {
        f + 1
    } else {
        f
    };
    proof {
        vstd::arithmetic::div_mod::lemma_mod_multiples_basic(g as int, q as int);
    }
    (g * q, q)
}

/// `n / d` rounded to single precision.
pub fn arredondar(n: i128, d: u128) -> (r: i128)
    requires
        -0x1000_0000_0000_0000_0000_0000_0000_0000 < n < 0x1000_0000_0000_0000_0000_0000_0000_0000,
        0 < d < 0x1_0000_0000_0000_0000,
    ensures
        r == arred(n as int, d as nat),
        n >= 0 ==> 0 <= r <= 2 * n + 1,
        d == 1 && n > 0 ==> r >= 1,
{
    if n < 0 {
        let (a, _) = arredondar_pos((-n) as u128, d);
        -(a as i128)
    } else {
        let (a, _) = arredondar_pos(n as u128, d);
        a as i128
    }
}

fn conter(x: i128) -> (r: i128)
    ensures
        r == contido(x as int),
{
    if x < -LIMITE {
        -LIMITE
    } else if x > LIMITE {
        LIMITE
    } else {
        x
    }
}

/// The single-precision sum of `a` and `b`.
pub fn somar(a: i128, b: i128) -> (r: i128)
    ensures
        r == soma(a as int, b as int),
{
    arredondar(conter(a) + conter(b), 1)
}

/// The single-precision product of `a` and the number `m / 2^24`.
pub fn multiplicar(a: i128, m: i128) -> (r: i128)
    requires
        0 <= m < 16777216,
    ensures
        r == produto(a as int, m as int),
{
    let c = conter(a);
    assert(-0x1000_0000_0000_0000_0000_0000_0000_0000 < c * m < 0x1000_0000_0000_0000_0000_0000_0000_0000)
        by (nonlinear_arith)
        requires
            -LIMITE <= c <= LIMITE,
            0 <= m < 16777216,
    ;
    arredondar(c * m, 16777216)
}

/// The single-precision quotient of the whole numbers `a <= b`.
pub fn dividir(a: u64, b: u64) -> (r: i128)
    requires
        0 < b,
        a <= b,
    ensures
        r == razao(a as nat, b as nat),
{
    let (x, qx) = arredondar_pos(a as u128, 1);
    let (y, qy) = arredondar_pos(b as u128, 1);
    proof {
        lemma_arred_monotono(a as nat, b as nat, 1);
        lemma_arred_um(b as nat);
    }
    assert(arred(a as int, 1) == x as int && arred(b as int, 1) == y as int);
    let m = if qx <= qy {
        qx
    } else {
        qy
    };
    proof {
        let ex = expoente(a as nat, 1, 0, a as nat + 1);
        let ey = expoente(b as nat, 1, 0, b as nat + 1);
        assert(qx == potencia2(ex) && qy == potencia2(ey));
        if qx <= qy {
            if ex > ey {
                lemma_potencia2_cresce(ey, ex);
            }
            lemma_potencia2_soma(ex, (ey - ex) as nat);
            lemma_divide_multiplo(y as nat, qy as nat, qx as nat, potencia2((ey - ex) as nat));
        } else {
            if ey > ex {
                lemma_potencia2_cresce(ex, ey);
            }
            lemma_potencia2_soma(ey, (ex - ey) as nat);
            lemma_divide_multiplo(x as nat, qx as nat, qy as nat, potencia2((ex - ey) as nat));
        }
    }
    let xn = x / m;
    let yn = y / m;
    assert(xn * m == x && yn * m == y) by (nonlinear_arith)
        requires
            m >= 1,
            x % m == 0,
            y % m == 0,
            xn == x / m,
            yn == y / m,
    ;
    assert(x <= 16777216 * m);
    assert(xn <= 16777216) by (nonlinear_arith)
        requires
            xn * m == x,
            x <= 16777216 * m,
            m >= 1,
    ;
    assert(1 <= yn <= y) by (nonlinear_arith)
        requires
            yn * m == y,
            y >= 1,
            m >= 1,
    ;
    let n = xn * 18446744073709551616;
    let (z, _) = arredondar_pos(n, yn);
    proof {
        lemma_escala(n as nat, yn as nat, m as nat);
        assert(n * m == x * UM) by (nonlinear_arith)
            requires
                n == xn * 18446744073709551616,
                xn * m == x,
        ;
    }
    z as i128
}

/// `x`, a multiple of `q`, is a multiple of `p` where `q == p * k`.
proof fn lemma_divide_multiplo(x: nat, q: nat, p: nat, k: nat)
    requires
        q >= 1,
        x % q == 0,
        q == p * k,
        p >= 1,
    ensures
        x % p == 0,
{
    vstd::arithmetic::div_mod::lemma_fundamental_div_mod(x as int, q as int);
    let g = x / q;
    assert(x == (g * k) * p) by (nonlinear_arith)
        requires
            x == q * g + x % q,
            x % q == 0,
            q == p * k,
    ;
    vstd::arithmetic::div_mod::lemma_mod_multiples_basic((g * k) as int, p as int);
}

proof fn lemma_potencia2_soma(i: nat, j: nat)
    ensures
        potencia2(i + j) == potencia2(i) * potencia2(j),
    decreases j,
{
    if j == 0 {
        assert(i + j == i);
        assert(potencia2(0) == 1);
        assert(potencia2(i) * 1 == potencia2(i));
    } else {
        lemma_potencia2_soma(i, (j - 1) as nat);
        assert((i + j - 1) as nat == i + (j - 1) as nat);
        assert(potencia2(i + j) == 2 * potencia2((i + j - 1) as nat));
        assert(potencia2(j) == 2 * potencia2((j - 1) as nat));
        assert(2 * (potencia2(i) * potencia2((j - 1) as nat)) == potencia2(i) * (2 * potencia2(
            (j - 1) as nat,
        ))) by (nonlinear_arith);
    }
}

/// Scaling the numerator and the denominator alike does not change how
/// their quotient rounds.
pub proof fn lemma_escala(n: nat, d: nat, t: nat)
    requires
        d >= 1,
        t >= 1,
    ensures
        arred_pos(n * t, d * t) == arred_pos(n, d),
{
    let nt = n * t;
    let dt = d * t;
    assert(dt >= 1) by (nonlinear_arith)
        requires
            dt == d * t,
            d >= 1,
            t >= 1,
    ;
    let e1 = expoente(n, d, 0, n + 1);
    let e2 = expoente(nt, dt, 0, nt + 1);
    lemma_expoente_cobre(n, d, 0, n + 1);
    lemma_expoente_cobre(nt, dt, 0, nt + 1);
    if e1 < e2 {
        lemma_expoente_minimo(nt, dt, 0, nt + 1, e1);
        let p = potencia2(e1);
        assert(false) by (nonlinear_arith)
            requires
                nt == n * t,
                dt == d * t,
                nt >= dt * 16777216 * p,
                n < d * 16777216 * p,
                t >= 1,
        ;
    }
    if e2 < e1 {
        lemma_expoente_minimo(n, d, 0, n + 1, e2);
        let p = potencia2(e2);
        assert(false) by (nonlinear_arith)
            requires
                nt == n * t,
                dt == d * t,
                nt < dt * 16777216 * p,
                n >= d * 16777216 * p,
                t >= 1,
        ;
    }
    let q = potencia2(e1);
    lemma_potencia2_positiva(e1);
    assert(passo(n, d) == q && passo(nt, dt) == q);
    let dq = d * q;
    let dtq = dt * q;
    assert(dq >= 1 && dtq == dq * t) by (nonlinear_arith)
        requires
            dq == d * q,
            dtq == dt * q,
            dt == d * t,
            d >= 1,
            q >= 1,
    ;
    let f = n / dq;
    let r = n % dq;
    assert(f * dq + r == n && 0 <= r < dq) by (nonlinear_arith)
        requires
            dq >= 1,
            f == n / dq,
            r == n % dq,
    ;
    assert(nt == f * dtq + r * t && 0 <= r * t < dtq) by (nonlinear_arith)
        requires
            f * dq + r == n,
            0 <= r < dq,
            nt == n * t,
            dtq == dq * t,
            t >= 1,
    ;
    vstd::arithmetic::div_mod::lemma_fundamental_div_mod_converse(
        nt as int,
        dtq as int,
        f as int,
        (r * t) as int,
    );
    assert((2 * (r * t) > dtq) == (2 * r > dq)) by (nonlinear_arith)
        requires
            dtq == dq * t,
            t >= 1,
    ;
    assert((2 * (r * t) == dtq) == (2 * r == dq)) by (nonlinear_arith)
        requires
            dtq == dq * t,
            t >= 1,
    ;
}

proof fn lemma_expoente(n: nat, d: nat, j: nat, k: nat)
    requires
        d >= 1,
        j == 0 || d * 8388608 * potencia2(j) <= n,
    ensures
        expoente(n, d, j, k) == 0 || d * 8388608 * potencia2(expoente(n, d, j, k)) <= n,
    decreases k,
{
    if k == 0 || n < d * 16777216 * potencia2(j) {
    } else {
        assert(potencia2(j + 1) == 2 * potencia2(j));
        assert(d * 8388608 * potencia2(j + 1) == d * 16777216 * potencia2(j)) by (nonlinear_arith)
            requires
                potencia2(j + 1) == 2 * potencia2(j),
        ;
        lemma_expoente(n, d, j + 1, (k - 1) as nat);
    }
}

proof fn lemma_potencia2_positiva(j: nat)
    ensures
        potencia2(j) >= 1,
    decreases j,
{
    if j > 0 {
        lemma_potencia2_positiva((j - 1) as nat);
    }
}

/// Rounding `n / d` moves it by less than its spacing, and the spacing is 1
/// or at most a 2^23-th of `n / d`.
pub proof fn lemma_arred_perto(n: nat, d: nat)
    requires
        d >= 1,
    ensures
        passo(n, d) >= 1,
        passo(n, d) == 1 || d * 8388608 * passo(n, d) <= n,
        arred_pos(n, d) * d <= n + d * passo(n, d),
        arred_pos(n, d) * d + d * passo(n, d) >= n,
        d == 1 && passo(n, d) == 1 ==> arred_pos(n, d) == n,
{
    lemma_expoente(n, d, 0, n + 1);
    lemma_potencia2_positiva(expoente(n, d, 0, n + 1));
    let q = passo(n, d);
    assert(q == 1 || d * 8388608 * q <= n);
    let dq = d * q;
    assert(dq >= 1) by (nonlinear_arith)
        requires
            dq == d * q,
            d >= 1,
            q >= 1,
    ;
    let f = n / dq;
    let r = n % dq;
    assert(f * dq + r == n && 0 <= r < dq) by (nonlinear_arith)
        requires
            dq >= 1,
            f == n / dq,
            r == n % dq,
    ;
    assert(f * q * d == f * dq && (f + 1) * q * d == f * dq + dq) by (nonlinear_arith)
        requires
            dq == d * q,
    ;
    if d == 1 && q == 1 {
        assert(dq == 1);
        assert(f == n && r == 0);
    }
}

/// Taking a number of at least 2^50 counts from one in `[0, 1]` gives at
/// most that one.
pub proof fn lemma_soma_desce(x: int, c: int)
    requires
        0 <= x <= UM,
        0x4_0000_0000_0000 <= c <= UM,
    ensures
        soma(x, -c) <= x,
{
    let n = x - c;
    assert(contido(x) == x && contido(-c) == -c);
    assert(soma(x, -c) == arred(n, 1));
    if n >= 0 {
        lemma_arred_perto(n as nat, 1);
        let q = passo(n as nat, 1);
        assert(q <= 0x4_0000_0000_0000) by (nonlinear_arith)
            requires
                q == 1 || 1 * 8388608 * q <= n,
                n <= UM,
        ;
        assert(arred_pos(n as nat, 1) <= n + q);
        assert(arred(n, 1) == arred_pos(n as nat, 1));
    } else {
        assert(arred(n, 1) <= 0);
    }
}

/// A sum is at most 2^102 in magnitude.
pub proof fn lemma_soma_limitada(a: int, b: int)
    ensures
        -0x40_0000_0000_0000_0000_0000_0000 <= soma(a, b) <= 0x40_0000_0000_0000_0000_0000_0000,
{
    let n = contido(a) + contido(b);
    let m: nat = if n < 0 {
        (-n) as nat
    } else {
        n as nat
    };
    lemma_arred_perto(m, 1);
    let q = passo(m, 1);
    assert(q <= m + 1) by (nonlinear_arith)
        requires
            q == 1 || 1 * 8388608 * q <= m,
            q >= 1,
    ;
}

/// A sum of two numbers, the first at least `a >= 0` and the second `b >=
/// 0`, is at least `(a + b)(1 - 2^-23)`.
pub proof fn lemma_soma_ao_menos(x: int, a: int, b: int)
    requires
        0 <= a <= x,
        0 <= b <= LIMITE,
        a + b <= LIMITE,
    ensures
        soma(x, b) * 8388608 >= (a + b) * 8388607,
{
    let n = contido(x) + b;
    assert(contido(x) >= a);
    assert(contido(b) == b);
    assert(soma(x, b) == arred(n, 1));
    lemma_arred_perto(n as nat, 1);
    let q = passo(n as nat, 1);
    assert(arred_pos(n as nat, 1) + q >= n);
    assert(arred(n, 1) == arred_pos(n as nat, 1));
    if q != 1 {
        assert((1 as nat) * 8388608 * q <= n as nat);
        assert(q * 8388608 <= n) by (nonlinear_arith)
            requires
                (1 as nat) * 8388608 * q <= n as nat,
                n >= 0,
        ;
    }
}

proof fn lemma_potencia2_ate(j: nat)
    requires
        j <= 40,
    ensures
        potencia2(j) <= 0x100_0000_0000,
    decreases 40 - j,
{
    if j == 40 {
        assert(potencia2(40) == 0x100_0000_0000) by {
            reveal_with_fuel(potencia2, 41);
        }
    } else {
        lemma_potencia2_ate(j + 1);
        lemma_potencia2_positiva(j);
        assert(potencia2(j + 1) == 2 * potencia2(j));
    }
}

proof fn lemma_expoente_um(x: nat, j: nat, k: nat)
    requires
        x >= 1,
        j <= 41,
        k + j >= 42,
    ensures
        expoente(x * (UM as nat), x, j, k) == 41,
    decreases 41 - j,
{
    let n = x * (UM as nat);
    if j == 41 {
        assert(potencia2(41) == 0x200_0000_0000) by {
            reveal_with_fuel(potencia2, 42);
        }
        assert(n < x * 16777216 * potencia2(41)) by (nonlinear_arith)
            requires
                n == x * (UM as nat),
                potencia2(41) == 0x200_0000_0000,
                x >= 1,
        ;
    } else {
        lemma_potencia2_ate(j);
        assert(n >= x * 16777216 * potencia2(j)) by (nonlinear_arith)
            requires
                n == x * (UM as nat),
                potencia2(j) <= 0x100_0000_0000,
                x >= 1,
        ;
        lemma_expoente_um(x, j + 1, (k - 1) as nat);
    }
}

/// A whole number of at least 1 rounds to a number of at least 1.
proof fn lemma_arred_um(m: nat)
    requires
        m >= 1,
    ensures
        arred_pos(m, 1) >= 1,
{
    lemma_arred_perto(m, 1);
    let q = passo(m, 1);
    if q != 1 {
        assert(q * 8388608 <= m) by (nonlinear_arith)
            requires
                (1 as nat) * 8388608 * q <= m,
        ;
    }
}

/// `x * 2^64 / x` rounds to exactly 1.
pub proof fn lemma_um_exato(x: nat)
    requires
        x >= 1,
    ensures
        arred_pos(x * (UM as nat), x) == UM,
{
    let v = x * (UM as nat);
    assert(v >= UM) by (nonlinear_arith)
        requires
            v == x * (UM as nat),
            x >= 1,
    ;
    lemma_expoente_um(x, 0, v + 1);
    assert(potencia2(41) == 0x200_0000_0000) by {
        reveal_with_fuel(potencia2, 42);
    }
    let q: nat = 0x200_0000_0000;
    assert(passo(v, x) == q);
    let dq = x * q;
    assert(v == (8388608 as nat) * dq) by (nonlinear_arith)
        requires
            v == x * (UM as nat),
            dq == x * q,
            q == 0x200_0000_0000,
    ;
    assert(dq > 0) by (nonlinear_arith)
        requires
            dq == x * q,
            x >= 1,
            q == 0x200_0000_0000,
    ;
    vstd::arithmetic::div_mod::lemma_div_by_multiple(8388608, dq as int);
    vstd::arithmetic::div_mod::lemma_mod_multiples_basic(8388608, dq as int);
    assert(v / dq == 8388608);
    assert(v % dq == 0);
}

/// A whole number of at least 1 over itself is exactly 1.
pub proof fn lemma_razao_propria(n: nat)
    requires
        n >= 1,
    ensures
        razao(n, n) == UM,
{
    let m: nat = n;
    lemma_arred_um(m);
    let x: nat = arred_pos(m, 1);
    assert(arred(m as int, 1) == x as int);
    assert(x * UM == x * (UM as nat));
    lemma_um_exato(x);
}

proof fn lemma_potencia2_cresce(i: nat, j: nat)
    requires
        i <= j,
    ensures
        potencia2(i) <= potencia2(j),
        i < j ==> 2 * potencia2(i) <= potencia2(j),
    decreases j - i,
{
    if i < j {
        lemma_potencia2_cresce(i, (j - 1) as nat);
        lemma_potencia2_positiva((j - 1) as nat);
    }
}

proof fn lemma_potencia2_maior(j: nat)
    ensures
        potencia2(j) >= j + 1,
    decreases j,
{
    if j > 0 {
        lemma_potencia2_maior((j - 1) as nat);
    }
}

proof fn lemma_expoente_cobre(n: nat, d: nat, j: nat, k: nat)
    requires
        d >= 1,
        k + j >= n + 1,
    ensures
        n < d * 16777216 * potencia2(expoente(n, d, j, k)),
    decreases k,
{
    if n < d * 16777216 * potencia2(j) {
    } else if k == 0 {
        lemma_potencia2_maior(j);
        assert(potencia2(j) <= d * 16777216 * potencia2(j)) by (nonlinear_arith)
            requires
                d >= 1,
        ;
    } else {
        lemma_expoente_cobre(n, d, j + 1, (k - 1) as nat);
    }
}

proof fn lemma_expoente_minimo(n: nat, d: nat, j: nat, k: nat, i: nat)
    requires
        j <= i < expoente(n, d, j, k),
    ensures
        n >= d * 16777216 * potencia2(i),
    decreases k,
{
    if k == 0 || n < d * 16777216 * potencia2(j) {
    } else if i > j {
        lemma_expoente_minimo(n, d, j + 1, (k - 1) as nat, i);
    }
}

/// Rounding keeps the order of numbers over a common denominator.
pub proof fn lemma_arred_monotono(a: nat, b: nat, d: nat)
    requires
        a <= b,
        d >= 1,
    ensures
        arred_pos(a, d) <= arred_pos(b, d),
{
    let ea = expoente(a, d, 0, a + 1);
    let eb = expoente(b, d, 0, b + 1);
    lemma_expoente_cobre(a, d, 0, a + 1);
    lemma_expoente_cobre(b, d, 0, b + 1);
    if eb < ea {
        lemma_expoente_minimo(a, d, 0, a + 1, eb);
    }
    assert(ea <= eb);
    lemma_potencia2_positiva(ea);
    lemma_potencia2_positiva(eb);
    let qa = potencia2(ea);
    let qb = potencia2(eb);
    let dqa = d * qa;
    let dqb = d * qb;
    assert(dqa >= 1 && dqb >= 1) by (nonlinear_arith)
        requires
            dqa == d * qa,
            dqb == d * qb,
            d >= 1,
            qa >= 1,
            qb >= 1,
    ;
    let fa = a / dqa;
    let ra = a % dqa;
    let fb = b / dqb;
    let rb = b % dqb;
    assert(passo(a, d) == qa && passo(b, d) == qb);
    assert((fa + 1) * qa == fa * qa + qa && (fb + 1) * qb == fb * qb + qb) by (nonlinear_arith);
    assert(arred_pos(a, d) <= (fa + 1) * qa && arred_pos(a, d) >= fa * qa);
    assert(arred_pos(b, d) >= fb * qb);
    assert(fa * dqa + ra == a && 0 <= ra < dqa) by (nonlinear_arith)
        requires
            dqa >= 1,
            fa == a / dqa,
            ra == a % dqa,
    ;
    assert(fb * dqb + rb == b && 0 <= rb < dqb) by (nonlinear_arith)
        requires
            dqb >= 1,
            fb == b / dqb,
            rb == b % dqb,
    ;
    if ea == eb {
        if fa < fb {
            assert((fa + 1) * qa <= fb * qa) by (nonlinear_arith)
                requires
                    fa + 1 <= fb,
                    qa >= 1,
            ;
        } else {
            assert(fa <= fb) by (nonlinear_arith)
                requires
                    fa * dqa + ra == a,
                    fb * dqa + rb == b,
                    0 <= ra < dqa,
                    0 <= rb < dqa,
                    a <= b,
            ;
            assert(ra <= rb);
            assert(fa == fb);
            assert(arred_pos(a, d) <= arred_pos(b, d));
        }
    } else {
        lemma_potencia2_cresce(ea, (eb - 1) as nat);
        lemma_expoente_minimo(b, d, 0, b + 1, (eb - 1) as nat);
        assert(qb == 2 * potencia2((eb - 1) as nat));
        let p = potencia2((eb - 1) as nat);
        assert(fa + 1 <= 16777216) by (nonlinear_arith)
            requires
                fa * dqa + ra == a,
                0 <= ra,
                a < d * 16777216 * qa,
                dqa == d * qa,
                dqa >= 1,
        ;
        assert(fb >= 8388608) by (nonlinear_arith)
            requires
                fb * dqb + rb == b,
                rb < dqb,
                b >= d * 16777216 * p,
                dqb == d * qb,
                qb == 2 * p,
                dqb >= 1,
        ;
        assert((fa + 1) * qa <= 16777216 * qa) by (nonlinear_arith)
            requires
                fa + 1 <= 16777216,
                qa >= 1,
        ;
        assert(16777216 * qa <= fb * qb) by (nonlinear_arith)
            requires
                fb >= 8388608,
                qb == 2 * p,
                qa <= p,
        ;
        assert(fb * qb <= (fb + 1) * qb) by (nonlinear_arith)
            requires
                qb >= 1,
        ;
    }
}

/// The quotient of a whole number by one at least as large is in `[0, 1]`.
pub proof fn lemma_razao_ate_um(c: nat, u: nat)
    requires
        c <= u,
        u >= 1,
    ensures
        0 <= razao(c, u) <= UM,
{
    let c1: nat = c;
    let u1: nat = u;
    lemma_arred_monotono(c1, u1, 1);
    lemma_arred_um(u1);
    let x = arred_pos(c1, 1);
    let y = arred_pos(u1, 1);
    assert(arred(c1 as int, 1) == x as int && arred(u1 as int, 1) == y as int);
    assert(x * (UM as nat) <= y * (UM as nat)) by (nonlinear_arith)
        requires
            x <= y,
    ;
    lemma_arred_monotono(x * (UM as nat), y * (UM as nat), y);
    lemma_um_exato(y);
    assert(x * UM == x * (UM as nat));
}

/// The larger of `a` and `b`.
pub open spec fn maior(a: int, b: int) -> int {
    if a >= b {
        a
    } else {
        b
    }
}

/// The smaller of `a` and `b`.
pub open spec fn menor(a: int, b: int) -> int {
    if a <= b {
        a
    } else {
        b
    }
}

} // verus!
