//! Byte-level scanning helpers shared by the XML reader, the decimal
//! coercion and the CSV renderer: byte classes, "first occurrence of a
//! byte", "first non-blank byte" and literal matching, each with its
//! executable counterpart proved against the spec.

use vstd::prelude::*;

verus! {

/// ASCII decimal digit.
pub open spec fn eh_digito(c: u8) -> bool {
    0x30 <= c && c <= 0x39
}

/// XML whitespace: space, tab, line feed, carriage return.
pub open spec fn eh_espaco(c: u8) -> bool {
    c == 0x20 || c == 0x09 || c == 0x0a || c == 0x0d
}

/// First position at or after `i` holding `alvo`, or the length when none does.
pub open spec fn primeiro(s: Seq<u8>, i: int, alvo: u8) -> int
    decreases s.len() - i when 0 <= i <= s.len()
{
    if i >= s.len() {
        s.len() as int
    } else if s[i] == alvo {
        i
    } else {
        primeiro(s, i + 1, alvo)
    }
}

/// First position at or after `i` whose byte is not XML whitespace, or the length.
pub open spec fn fim_espacos(s: Seq<u8>, i: int) -> int
    decreases s.len() - i when 0 <= i <= s.len()
{
    if i >= s.len() {
        s.len() as int
    } else if eh_espaco(s[i]) {
        fim_espacos(s, i + 1)
    } else {
        i
    }
}

/// The literal `lit` occurs in `s` starting at `i`.
pub open spec fn casa_em(s: Seq<u8>, i: int, lit: Seq<u8>) -> bool {
    &&& 0 <= i
    &&& i + lit.len() <= s.len()
    &&& forall|k: int| 0 <= k < lit.len() ==> s[i + k] == #[trigger] lit[k]
}

pub proof fn lema_primeiro_limites(s: Seq<u8>, i: int, alvo: u8)
    requires
        0 <= i <= s.len(),
    ensures
        i <= primeiro(s, i, alvo) <= s.len(),
        primeiro(s, i, alvo) < s.len() ==> s[primeiro(s, i, alvo)] == alvo,
        forall|k: int| i <= k < primeiro(s, i, alvo) ==> #[trigger] s[k] != alvo,
    decreases s.len() - i,
{
    if i < s.len() && s[i] != alvo {
        lema_primeiro_limites(s, i + 1, alvo);
    }
}

pub proof fn lema_fim_espacos_limites(s: Seq<u8>, i: int)
    requires
        0 <= i <= s.len(),
    ensures
        i <= fim_espacos(s, i) <= s.len(),
        fim_espacos(s, i) < s.len() ==> !eh_espaco(s[fim_espacos(s, i)]),
        forall|k: int| i <= k < fim_espacos(s, i) ==> eh_espaco(#[trigger] s[k]),
    decreases s.len() - i,
{
    if i < s.len() && eh_espaco(s[i]) {
        lema_fim_espacos_limites(s, i + 1);
    }
}

/// Scans for the first occurrence of `alvo` at or after `i`.
pub fn ate(s: &Vec<u8>, i: usize, alvo: u8) -> (j: usize)
    requires
        i <= s@.len(),
    ensures
        j as int == primeiro(s@, i as int, alvo),
        i <= j <= s@.len(),
        j < s@.len() ==> s@[j as int] == alvo,
{
    let mut j: usize = i;
    while j < s.len() && s[j] != alvo
        invariant
            i <= j <= s@.len(),
            forall|k: int| i <= k < j ==> #[trigger] s@[k] != alvo,
        decreases s@.len() - j,
    {
        j = j + 1;
    }
    proof {
        lema_primeiro_achado(s@, i as int, j as int, alvo);
    }
    j
}

proof fn lema_primeiro_achado(s: Seq<u8>, i: int, j: int, alvo: u8)
    requires
        0 <= i <= j <= s.len(),
        forall|k: int| i <= k < j ==> #[trigger] s[k] != alvo,
        j == s.len() || s[j] == alvo,
    ensures
        primeiro(s, i, alvo) == j,
    decreases j - i,
{
    if i < j {
        lema_primeiro_achado(s, i + 1, j, alvo);
    }
}

/// Scans past XML whitespace starting at `i`.
pub fn salta_espacos(s: &Vec<u8>, i: usize) -> (j: usize)
    requires
        i <= s@.len(),
    ensures
        j as int == fim_espacos(s@, i as int),
        i <= j <= s@.len(),
{
    let mut j: usize = i;
    while j < s.len() && (s[j] == 0x20 || s[j] == 0x09 || s[j] == 0x0a || s[j] == 0x0d)
        invariant
            i <= j <= s@.len(),
            forall|k: int| i <= k < j ==> eh_espaco(#[trigger] s@[k]),
        decreases s@.len() - j,
    {
        j = j + 1;
    }
    proof {
        lema_fim_espacos_achado(s@, i as int, j as int);
    }
    j
}

proof fn lema_fim_espacos_achado(s: Seq<u8>, i: int, j: int)
    requires
        0 <= i <= j <= s.len(),
        forall|k: int| i <= k < j ==> eh_espaco(#[trigger] s[k]),
        j == s.len() || !eh_espaco(s[j]),
    ensures
        fim_espacos(s, i) == j,
    decreases j - i,
{
    if i < j {
        lema_fim_espacos_achado(s, i + 1, j);
    }
}

/// Whether the bytes of `lit` occur in `s` starting at `i`.
pub fn casa(s: &Vec<u8>, i: usize, lit: &Vec<u8>) -> (r: bool)
    requires
        i <= s@.len(),
    ensures
        r == casa_em(s@, i as int, lit@),
{
    if s.len() - i < lit.len() {
        return false;
    }
    let mut k: usize = 0;
    while k < lit.len()
        invariant
            0 <= k <= lit@.len(),
            i + lit@.len() <= s@.len(),
            forall|m: int| 0 <= m < k ==> s@[i + m] == #[trigger] lit@[m],
        decreases lit@.len() - k,
    {
        if s[i + k] != lit[k] {
            return false;
        }
        k = k + 1;
    }
    true
}

/// Copies a byte vector.
pub fn duplica(v: &Vec<u8>) -> (r: Vec<u8>)
    ensures
        r@ == v@,
{
    let r = fatia(v, 0, v.len());
    proof {
        assert(r@ =~= v@);
    }
    r
}

/// Whether two byte vectors hold the same bytes.
pub fn iguais(a: &Vec<u8>, b: &Vec<u8>) -> (r: bool)
    ensures
        r == (a@ == b@),
{
    if a.len() != b.len() {
        return false;
    }
    let mut k: usize = 0;
    while k < a.len()
        invariant
            0 <= k <= a@.len(),
            a@.len() == b@.len(),
            forall|m: int| 0 <= m < k ==> a@[m] == #[trigger] b@[m],
        decreases a@.len() - k,
    {
        if a[k] != b[k] {
            return false;
        }
        k = k + 1;
    }
    proof {
        assert(a@ =~= b@);
    }
    true
}

/// Copies `s[a..b]` into a fresh vector.
pub fn fatia(s: &Vec<u8>, a: usize, b: usize) -> (r: Vec<u8>)
    requires
        a <= b <= s@.len(),
    ensures
        r@ == s@.subrange(a as int, b as int),
{
    let mut r: Vec<u8> = Vec::new();
    let mut k: usize = a;
    while k < b
        invariant
            a <= k <= b <= s@.len(),
            r@ == s@.subrange(a as int, k as int),
        decreases b - k,
    {
        r.push(s[k]);
        proof {
            assert(r@ =~= s@.subrange(a as int, k + 1));
        }
        k = k + 1;
    }
    r
}

} // verus!
