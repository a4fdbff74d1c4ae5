//! Numeric coercion: reads a free-form decimal text into a currency value in
//! whole cents, tolerating absent, empty or malformed input, which all coerce
//! to zero. This is the single place where numeric error tolerance lives:
//! upstream XML content comes from an external payroll system and is not
//! trusted to be well formed.
//!
//! The accepted shape is an optional sign (`-` or `+`), one to fourteen
//! integer digits, and optionally a point followed by at least one digit.
//! The value is read to whole cents; fraction digits past the second are
//! disregarded. Anything else — including an empty text — coerces to `0`.

use vstd::prelude::*;

use crate::texto::eh_digito;
use crate::texto::primeiro;
use crate::texto::ate;
use crate::texto::lema_primeiro_limites;

verus! {

/// Every coerced value lies strictly between `-LIMITE_CENTAVOS` and
/// `LIMITE_CENTAVOS` (ten to the sixteenth): at most fourteen integer digits
/// and two cent digits.
pub const LIMITE_CENTAVOS: i64 = 10000000000000000;

/// Position of the first byte of the digits: one past a leading sign.
pub open spec fn inicio_corpo(s: Seq<u8>) -> int {
    if s.len() > 0 && (s[0] == 0x2d || s[0] == 0x2b) {
        1
    } else {
        0
    }
}

/// The text carries a leading minus sign.
pub open spec fn eh_negativo(s: Seq<u8>) -> bool {
    s.len() > 0 && s[0] == 0x2d
}

/// Position of the decimal point, or the length when there is none.
pub open spec fn pos_ponto(s: Seq<u8>) -> int {
    primeiro(s, inicio_corpo(s), 0x2e)
}

/// The text is a decimal this library can coerce: sign, one to fourteen
/// integer digits, and an optional point with at least one fraction digit.
pub open spec fn decimal_valido(s: Seq<u8>) -> bool {
    let a = inicio_corpo(s);
    let p = pos_ponto(s);
    &&& a + 1 <= p <= a + 14
    &&& forall|k: int| a <= k < p ==> eh_digito(#[trigger] s[k])
    &&& (p == s.len() || (p + 2 <= s.len() && forall|k: int|
        p < k < s.len() ==> eh_digito(#[trigger] s[k])))
}

/// Numeric value of a digit run, most significant first.
pub open spec fn valor_digitos(s: Seq<u8>) -> int
    decreases s.len(),
{
    if s.len() == 0 {
        0
    } else {
        valor_digitos(s.drop_last()) * 10 + (s.last() - 0x30)
    }
}

/// Cents read from the fraction digits `s[p+1 ..]`: the first digit counts
/// tens of cents, the second counts cents, the rest is disregarded.
pub open spec fn centavos_fracao(s: Seq<u8>, p: int) -> int {
    (s[p + 1] - 0x30) * 10 + (if p + 2 < s.len() {
        (s[p + 2] - 0x30) as int
    } else {
        0
    })
}

/// The coerced value of a decimal text, in whole cents: `0` for anything
/// that is not a valid decimal.
pub open spec fn coagir(s: Seq<u8>) -> int {
    if !decimal_valido(s) {
        0
    } else {
        let a = inicio_corpo(s);
        let p = pos_ponto(s);
        let mag = valor_digitos(s.subrange(a, p)) * 100 + (if p < s.len() {
            centavos_fracao(s, p)
        } else {
            0
        });
        if eh_negativo(s) {
            -mag
        } else {
            mag
        }
    }
}

/// Coercion of a field that may be absent: absence counts as zero.
pub open spec fn coagir_opcional(s: Option<Seq<u8>>) -> int {
    match s {
        Some(t) => coagir(t),
        None => 0,
    }
}

/// Ten to the `n`.
pub open spec fn pot10(n: nat) -> int
    decreases n,
{
    if n == 0 {
        1
    } else {
        10 * pot10((n - 1) as nat)
    }
}

/// Ten to the fourteenth, spelled out once for the digit-count bound.
pub proof fn lema_pot10_14()
    ensures
        pot10(14) == 100000000000000,
{
    reveal_with_fuel(pot10, 15);
}

pub proof fn lema_valor_digitos_limite(s: Seq<u8>)
    requires
        forall|k: int| 0 <= k < s.len() ==> eh_digito(#[trigger] s[k]),
    ensures
        0 <= valor_digitos(s) < pot10(s.len()),
    decreases s.len(),
{
    if s.len() > 0 {
        lema_valor_digitos_limite(s.drop_last());
    }
}

pub proof fn lema_pot10_cresce(a: nat, b: nat)
    requires
        a <= b,
    ensures
        0 < pot10(a) <= pot10(b),
    decreases b,
{
    if a < b {
        lema_pot10_cresce(a, (b - 1) as nat);
    } else if b > 0 {
        lema_pot10_cresce((a - 1) as nat, (b - 1) as nat);
    }
}

/// The coerced value of any text lies strictly inside the cent limit.
pub proof fn lema_coagir_limite(s: Seq<u8>)
    ensures
        -LIMITE_CENTAVOS < coagir(s) < LIMITE_CENTAVOS,
{
    if decimal_valido(s) {
        let a = inicio_corpo(s);
        let p = pos_ponto(s);
        let d = s.subrange(a, p);
        lema_primeiro_limites(s, a, 0x2e);
        assert(forall|k: int| 0 <= k < d.len() ==> eh_digito(#[trigger] d[k]));
        lema_valor_digitos_limite(d);
        lema_pot10_cresce(d.len(), 14);
        lema_pot10_14();
    }
}

/// Reads a decimal text as whole cents; absent, empty or malformed input
/// gives exactly zero. This is the executable face of `coagir`.
pub fn coagir_texto(s: &Vec<u8>) -> (r: i64)
    ensures
        r as int == coagir(s@),
        -LIMITE_CENTAVOS < r < LIMITE_CENTAVOS,
{
    proof {
        lema_coagir_limite(s@);
    }
    let n = s.len();
    let inicio: usize = if n > 0 && (s[0] == 0x2d || s[0] == 0x2b) {
        1
    } else {
        0
    };
    let p = ate(s, inicio, 0x2e);
    if p == inicio || p > inicio + 14 {
        return 0;
    }
    let mut acc: i64 = 0;
    let mut k: usize = inicio;
    while k < p
        invariant
            inicio <= k <= p,
            acc == valor_digitos(s@.subrange(inicio as int, k as int)),
            0 <= acc < pot10((k - inicio) as nat),
            forall|m: int| inicio <= m < k ==> eh_digito(#[trigger] s@[m]),
        decreases p - k,
    {
        if s[k] < 0x30 || s[k] > 0x39 {
            return 0;
        }
        proof {
            let d = s@.subrange(inicio as int, k as int);
            let d2 = s@.subrange(inicio as int, k + 1);
            assert(d2.drop_last() =~= d);
            lema_pot10_cresce((k + 1 - inicio) as nat, 14nat);
            lema_pot10_14();
        }
        acc = acc * 10 + (s[k] - 0x30) as i64;
        k = k + 1;
    }
    let frac: i64;
    if p == n {
        frac = 0;
    } else {
        if p + 2 > n {
            return 0;
        }
        let mut m: usize = p + 1;
        while m < n
            invariant
                p + 1 <= m <= n,
                forall|j: int| p < j < m ==> eh_digito(#[trigger] s@[j]),
            decreases n - m,
        {
            if s[m] < 0x30 || s[m] > 0x39 {
                return 0;
            }
            m = m + 1;
        }
        let d1 = (s[p + 1] - 0x30) as i64;
        let d2: i64 = if p + 2 < n {
            (s[p + 2] - 0x30) as i64
        } else {
            0
        };
        frac = d1 * 10 + d2;
    }
    proof {
        lema_valor_digitos_limite(s@.subrange(inicio as int, p as int));
        lema_pot10_cresce((p - inicio) as nat, 14nat);
        lema_pot10_14();
    }
    let mag = acc * 100 + frac;
    if n > 0 && s[0] == 0x2d {
        -mag
    } else {
        mag
    }
}

/// Coerces a field that may be absent; absence counts as zero.
pub fn coagir_campo(s: &Option<Vec<u8>>) -> (r: i64)
    ensures
        r as int == coagir_opcional(match s { Some(t) => Some(t@), None => None }),
        -LIMITE_CENTAVOS < r < LIMITE_CENTAVOS,
{
    match s {
        Some(t) => coagir_texto(t),
        None => 0,
    }
}

} // verus!
