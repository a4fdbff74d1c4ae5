//! CSV rendering: one header line per variant, then one line per output
//! row, fields joined by semicolons and lines ended by a line feed. A field
//! holding a semicolon, a double quote or a line break is wrapped in double
//! quotes with inner quotes doubled; every other field is written verbatim.
//!
//! The module also defines, at the specification level, how such a file
//! reads back into records, and proves the round trip: rendering any rows
//! and reading the result recovers the header and the rows exactly.

use vstd::prelude::*;

use crate::esquema::Etiqueta;
use crate::esquema::Variante;
use crate::esquema::nome_etiqueta;
use crate::esquema::nome_exec;

verus! {

/// A byte that forces quoting: semicolon, double quote, line feed or
/// carriage return.
pub open spec fn byte_especial(c: u8) -> bool {
    c == 0x3b || c == 0x22 || c == 0x0a || c == 0x0d
}

/// The field cannot be written verbatim.
pub open spec fn precisa_aspas(f: Seq<u8>) -> bool {
    exists|k: int| 0 <= k < f.len() && byte_especial(#[trigger] f[k])
}

/// The field's bytes with every double quote doubled.
pub open spec fn escapa(f: Seq<u8>) -> Seq<u8>
    decreases f.len(),
{
    if f.len() == 0 {
        Seq::empty()
    } else if f[0] == 0x22 {
        seq![0x22u8, 0x22u8] + escapa(f.skip(1))
    } else {
        seq![f[0]] + escapa(f.skip(1))
    }
}

/// A rendered field: verbatim, or quoted with inner quotes doubled.
pub open spec fn campo_csv(f: Seq<u8>) -> Seq<u8> {
    if precisa_aspas(f) {
        seq![0x22u8] + escapa(f) + seq![0x22u8]
    } else {
        f
    }
}

/// A rendered line: fields joined by semicolons, ended by a line feed.
pub open spec fn linha_csv(campos: Seq<Seq<u8>>) -> Seq<u8>
    decreases campos.len(),
{
    if campos.len() == 0 {
        seq![0x0au8]
    } else if campos.len() == 1 {
        campo_csv(campos[0]) + seq![0x0au8]
    } else {
        campo_csv(campos[0]) + seq![0x3bu8] + linha_csv(campos.skip(1))
    }
}

/// Rendered lines, one after the other.
pub open spec fn corpo_csv(linhas: Seq<Seq<Seq<u8>>>) -> Seq<u8>
    decreases linhas.len(),
{
    if linhas.len() == 0 {
        Seq::empty()
    } else {
        linha_csv(linhas[0]) + corpo_csv(linhas.skip(1))
    }
}

/// The fixed header of a variant: the commission set carries the
/// bonus-target column, the vale set omits it. Column order never changes.
pub open spec fn cabecalho(v: Variante) -> Seq<Seq<u8>> {
    match v {
        Variante::Comissao => seq![
            nome_etiqueta(Etiqueta::Fantasia),
            nome_etiqueta(Etiqueta::Razao),
            nome_etiqueta(Etiqueta::Cnpj),
            nome_etiqueta(Etiqueta::MesAno),
            nome_etiqueta(Etiqueta::Cpf),
            nome_etiqueta(Etiqueta::Valor),
            nome_etiqueta(Etiqueta::MetaPremio),
        ],
        Variante::Vales => seq![
            nome_etiqueta(Etiqueta::Fantasia),
            nome_etiqueta(Etiqueta::Razao),
            nome_etiqueta(Etiqueta::Cnpj),
            nome_etiqueta(Etiqueta::MesAno),
            nome_etiqueta(Etiqueta::Cpf),
            nome_etiqueta(Etiqueta::Valor),
        ],
    }
}

/// A whole rendered file: the variant's header line, then the rows.
pub open spec fn documento_csv(v: Variante, linhas: Seq<Seq<Seq<u8>>>) -> Seq<u8> {
    linha_csv(cabecalho(v)) + corpo_csv(linhas)
}

/// `escapa` grows by one unit per byte appended at the end.
proof fn lema_escapa_anexa(f: Seq<u8>, x: u8)
    ensures
        escapa(f.push(x)) == escapa(f) + (if x == 0x22 {
            seq![0x22u8, 0x22u8]
        } else {
            seq![x]
        }),
    decreases f.len(),
{
    let unidade: Seq<u8> = if x == 0x22 {
        seq![0x22u8, 0x22u8]
    } else {
        seq![x]
    };
    let g = f.push(x);
    if f.len() == 0 {
        assert(g[0] == x);
        assert(g.skip(1) =~= Seq::<u8>::empty());
        assert(escapa(Seq::<u8>::empty()) == Seq::<u8>::empty());
        assert(escapa(g) =~= escapa(f) + unidade);
    } else {
        assert(g[0] == f[0]);
        assert(g.skip(1) =~= f.skip(1).push(x));
        lema_escapa_anexa(f.skip(1), x);
        if f[0] == 0x22 {
            assert(escapa(g) == seq![0x22u8, 0x22u8] + escapa(g.skip(1)));
            assert(escapa(f) == seq![0x22u8, 0x22u8] + escapa(f.skip(1)));
        } else {
            assert(escapa(g) == seq![g[0]] + escapa(g.skip(1)));
            assert(escapa(f) == seq![f[0]] + escapa(f.skip(1)));
        }
        assert(escapa(g) =~= escapa(f) + unidade);
    }
}

/// Appends a rendered field to the output.
fn anexa_campo(saida: &mut Vec<u8>, campo: &Vec<u8>)
    ensures
        final(saida)@ == old(saida)@ + campo_csv(campo@),
{
    let mut especial = false;
    let mut k: usize = 0;
    while k < campo.len()
        invariant
            k <= campo@.len(),
            especial == exists|m: int| 0 <= m < k && byte_especial(#[trigger] campo@[m]),
        decreases campo@.len() - k,
    {
        let c = campo[k];
        if c == 0x3b || c == 0x22 || c == 0x0a || c == 0x0d {
            especial = true;
        }
        k = k + 1;
    }
    if !especial {
        let mut m: usize = 0;
        while m < campo.len()
            invariant
                m <= campo@.len(),
                saida@ == old(saida)@ + campo@.take(m as int),
            decreases campo@.len() - m,
        {
            saida.push(campo[m]);
            proof {
                assert(old(saida)@ + campo@.take(m + 1) =~= (old(saida)@ + campo@.take(
                    m as int,
                )).push(campo@[m as int]));
            }
            m = m + 1;
        }
        proof {
            assert(campo@.take(campo@.len() as int) =~= campo@);
        }
    } else {
        saida.push(0x22);
        proof {
            assert(escapa(campo@.take(0)) =~= Seq::<u8>::empty());
            assert(saida@ =~= old(saida)@ + seq![0x22u8] + escapa(campo@.take(0)));
        }
        let mut m: usize = 0;
        while m < campo.len()
            invariant
                m <= campo@.len(),
                saida@ == old(saida)@ + seq![0x22u8] + escapa(campo@.take(m as int)),
            decreases campo@.len() - m,
        {
            let c = campo[m];
            if c == 0x22 {
                saida.push(0x22);
                saida.push(0x22);
            } else {
                saida.push(c);
            }
            proof {
                assert(campo@.take(m + 1) =~= campo@.take(m as int).push(campo@[m as int]));
                lema_escapa_anexa(campo@.take(m as int), campo@[m as int]);
                assert(saida@ =~= old(saida)@ + seq![0x22u8] + escapa(campo@.take(m + 1)));
            }
            m = m + 1;
        }
        saida.push(0x22);
        proof {
            assert(campo@.take(campo@.len() as int) =~= campo@);
            assert(saida@ =~= old(saida)@ + (seq![0x22u8] + escapa(campo@) + seq![0x22u8]));
        }
    }
}

/// Appends a rendered line to the output.
fn anexa_linha(saida: &mut Vec<u8>, linha: &Vec<Vec<u8>>)
    ensures
        final(saida)@ == old(saida)@ + linha_csv(linha.deep_view()),
{
    let ghost dv: Seq<Seq<u8>> = linha.deep_view();
    if linha.len() == 0 {
        saida.push(0x0a);
        proof {
            assert(saida@ =~= old(saida)@ + linha_csv(dv));
        }
        return ;
    }
    let ultimo = linha.len() - 1;
    let mut k: usize = 0;
    let ghost pref: Seq<u8> = Seq::empty();
    proof {
        assert(saida@ =~= old(saida)@ + pref);
    }
    let mut pref_g = Ghost(pref);
    proof {
        assert(dv.skip(0) =~= dv);
        assert(pref_g@ + linha_csv(dv) =~= linha_csv(dv));
    }
    while k < ultimo
        invariant
            k <= ultimo,
            ultimo == dv.len() - 1,
            dv.len() == linha.deep_view().len(),
            dv == linha.deep_view(),
            saida@ == old(saida)@ + pref_g@,
            linha_csv(dv) == pref_g@ + linha_csv(dv.skip(k as int)),
        decreases ultimo - k,
    {
        anexa_campo(saida, &linha[k]);
        saida.push(0x3b);
        proof {
            assert(linha@[k as int]@ =~= dv[k as int]);
            assert(dv.skip(k as int).skip(1) =~= dv.skip(k + 1));
            assert(dv.skip(k as int)[0] == dv[k as int]);
            pref_g@ = pref_g@ + campo_csv(dv[k as int]) + seq![0x3bu8];
            assert(saida@ =~= old(saida)@ + pref_g@);
            assert(linha_csv(dv) =~= pref_g@ + linha_csv(dv.skip(k + 1)));
        }
        k = k + 1;
    }
    anexa_campo(saida, &linha[ultimo]);
    saida.push(0x0a);
    proof {
        assert(linha@[ultimo as int]@ =~= dv[ultimo as int]);
        assert(dv.skip(ultimo as int)[0] == dv[ultimo as int]);
        assert(dv.skip(ultimo as int).len() == 1);
        assert(saida@ =~= old(saida)@ + (pref_g@ + (campo_csv(dv[ultimo as int]) + seq![
            0x0au8,
        ])));
        assert(linha_csv(dv) =~= pref_g@ + (campo_csv(dv[ultimo as int]) + seq![0x0au8]));
    }
}

/// Builds the header fields of a variant.
fn campos_cabecalho(v: Variante) -> (r: Vec<Vec<u8>>)
    ensures
        r.deep_view() == cabecalho(v),
{
    let mut r: Vec<Vec<u8>> = Vec::new();
    r.push(nome_exec(Etiqueta::Fantasia));
    r.push(nome_exec(Etiqueta::Razao));
    r.push(nome_exec(Etiqueta::Cnpj));
    r.push(nome_exec(Etiqueta::MesAno));
    r.push(nome_exec(Etiqueta::Cpf));
    r.push(nome_exec(Etiqueta::Valor));
    match v {
        Variante::Comissao => {
            r.push(nome_exec(Etiqueta::MetaPremio));
        },
        Variante::Vales => {},
    }
    proof {
        assert(r.deep_view() =~~= cabecalho(v));
    }
    r
}

/// Renders the whole file: the variant's header line, then one line per
/// row, exactly as `documento_csv` lays them out.
pub fn emitir_csv(linhas: &Vec<Vec<Vec<u8>>>, v: Variante) -> (saida: Vec<u8>)
    ensures
        saida@ == documento_csv(v, linhas.deep_view()),
{
    let ghost dv: Seq<Seq<Seq<u8>>> = linhas.deep_view();
    let mut saida: Vec<u8> = Vec::new();
    let cab = campos_cabecalho(v);
    anexa_linha(&mut saida, &cab);
    let ghost pref: Seq<u8> = linha_csv(cabecalho(v));
    let mut pref_g = Ghost(pref);
    proof {
        assert(saida@ =~= pref_g@);
        assert(dv.skip(0) =~= dv);
    }
    let mut k: usize = 0;
    while k < linhas.len()
        invariant
            k <= dv.len(),
            dv.len() == linhas.deep_view().len(),
            dv == linhas.deep_view(),
            saida@ == pref_g@,
            documento_csv(v, dv) == pref_g@ + corpo_csv(dv.skip(k as int)),
        decreases dv.len() - k,
    {
        anexa_linha(&mut saida, &linhas[k]);
        proof {
            assert(linhas[k as int].deep_view() =~= dv[k as int]);
            assert(dv.skip(k as int).skip(1) =~= dv.skip(k + 1));
            assert(dv.skip(k as int)[0] == dv[k as int]);
            pref_g@ = pref_g@ + linha_csv(dv[k as int]);
            assert(documento_csv(v, dv) =~= pref_g@ + corpo_csv(dv.skip(k + 1)));
        }
        k = k + 1;
    }
    proof {
        assert(dv.skip(dv.len() as int) =~= Seq::<Seq<Seq<u8>>>::empty());
        assert(documento_csv(v, dv) =~= saida@);
    }
    saida
}


/// A field terminator in an unquoted field: semicolon or line feed.
pub open spec fn fim_bruto(s: Seq<u8>, i: int) -> int
    decreases s.len() - i when 0 <= i <= s.len()
{
    if i >= s.len() {
        s.len() as int
    } else if s[i] == 0x3b || s[i] == 0x0a {
        i
    } else {
        fim_bruto(s, i + 1)
    }
}

/// Reads the inside of a quoted field from `i`: a doubled quote is one
/// literal quote, a lone quote closes the field. `None` when the quote
/// never closes. Yields the field text and the position after the closing
/// quote.
pub open spec fn le_aspas(s: Seq<u8>, i: int) -> Option<(Seq<u8>, int)>
    decreases s.len() - i when 0 <= i <= s.len()
{
    if i >= s.len() {
        None
    } else if s[i] != 0x22 {
        match le_aspas(s, i + 1) {
            None => None,
            Some((t, j)) => Some((seq![s[i]] + t, j)),
        }
    } else if i + 1 < s.len() && s[i + 1] == 0x22 {
        match le_aspas(s, i + 2) {
            None => None,
            Some((t, j)) => Some((seq![0x22u8] + t, j)),
        }
    } else {
        Some((Seq::empty(), i + 1))
    }
}

/// Reads one field from `i`: quoted when a quote opens it, otherwise the
/// verbatim run up to the next semicolon or line feed. Yields the field
/// and the position of its terminator.
pub open spec fn le_campo(s: Seq<u8>, i: int) -> Option<(Seq<u8>, int)> {
    if 0 <= i < s.len() && s[i] == 0x22 {
        le_aspas(s, i + 1)
    } else {
        Some((s.subrange(i, fim_bruto(s, i)), fim_bruto(s, i)))
    }
}

/// Reads one line from `i`: fields separated by semicolons, closed by a
/// line feed. Yields the fields and the position after the line feed.
pub open spec fn le_linha(s: Seq<u8>, i: int) -> Option<(Seq<Seq<u8>>, int)>
    decreases s.len() - i when 0 <= i <= s.len()
{
    match le_campo(s, i) {
        None => None,
        Some((f, j)) => if i <= j < s.len() && s[j] == 0x3b {
            match le_linha(s, j + 1) {
                None => None,
                Some((fs, k)) => Some((seq![f] + fs, k)),
            }
        } else if i <= j < s.len() && s[j] == 0x0a {
            Some((seq![f], j + 1))
        } else {
            None
        },
    }
}

/// Reads lines until the end of the bytes. A line that would not advance
/// is refused, which cannot happen on rendered output.
pub open spec fn le_documento(s: Seq<u8>, i: int) -> Option<Seq<Seq<Seq<u8>>>>
    decreases s.len() - i when 0 <= i <= s.len()
{
    if i == s.len() {
        Some(Seq::empty())
    } else {
        match le_linha(s, i) {
            None => None,
            Some((fs, j)) => if i < j <= s.len() {
                match le_documento(s, j) {
                    None => None,
                    Some(ls) => Some(seq![fs] + ls),
                }
            } else {
                None
            },
        }
    }
}

/// How a whole delimited file reads back into records.
pub open spec fn analisa_csv(s: Seq<u8>) -> Option<Seq<Seq<Seq<u8>>>> {
    le_documento(s, 0)
}

proof fn lema_fim_bruto_achado(s: Seq<u8>, i: int, j: int)
    requires
        0 <= i <= j <= s.len(),
        forall|k: int| i <= k < j ==> !(#[trigger] s[k] == 0x3b || s[k] == 0x0a),
        j == s.len() || s[j] == 0x3b || s[j] == 0x0a,
    ensures
        fim_bruto(s, i) == j,
    decreases j - i,
{
    if i < j {
        lema_fim_bruto_achado(s, i + 1, j);
    }
}

/// Pointwise reading of a placed piece: when `t` stands in `s` at `i`,
/// any inner window of `t` stands in `s` shifted by `i`.
proof fn lema_subtrecho_dentro(s: Seq<u8>, i: int, t: Seq<u8>, a: int, b: int)
    requires
        0 <= i,
        i + t.len() <= s.len(),
        s.subrange(i, i + t.len()) == t,
        0 <= a <= b <= t.len(),
    ensures
        s.subrange(i + a, i + b) == t.subrange(a, b),
{
    assert(forall|k: int| i <= k < i + t.len() ==> #[trigger] s[k] == t[k - i]) by {
        assert(forall|k: int| i <= k < i + t.len() ==> s.subrange(i, i + t.len())[k - i]
            == #[trigger] s[k]);
    }
    assert(s.subrange(i + a, i + b) =~= t.subrange(a, b));
}

/// One byte of a placed piece.
proof fn lema_byte_dentro(s: Seq<u8>, i: int, t: Seq<u8>, n: int)
    requires
        0 <= i,
        i + t.len() <= s.len(),
        s.subrange(i, i + t.len()) == t,
        0 <= n < t.len(),
    ensures
        s[i + n] == t[n],
{
    assert(s.subrange(i, i + t.len())[n] == s[i + n]);
}

/// Reading a quoted rendering recovers the field: with `escapa(f)` at `i`,
/// a closing quote after it, and no quote right after that, the quoted
/// reader yields exactly `f`.
proof fn lema_le_aspas_rendida(s: Seq<u8>, i: int, f: Seq<u8>)
    requires
        0 <= i,
        i + escapa(f).len() + 1 <= s.len(),
        s.subrange(i, i + escapa(f).len()) == escapa(f),
        s[i + escapa(f).len()] == 0x22,
        i + escapa(f).len() + 1 == s.len() || s[i + escapa(f).len() + 1] != 0x22,
    ensures
        le_aspas(s, i) == Some((f, i + escapa(f).len() + 1)),
    decreases f.len(),
{
    let esc = escapa(f);
    let m = esc.len() as int;
    if f.len() == 0 {
        assert(s[i] == 0x22);
        assert(!(i + 1 < s.len() && s[i + 1] == 0x22));
    } else if f[0] == 0x22 {
        let esc1 = escapa(f.skip(1));
        assert(esc == seq![0x22u8, 0x22u8] + esc1);
        lema_byte_dentro(s, i, esc, 0);
        lema_byte_dentro(s, i, esc, 1);
        assert(s[i] == 0x22 && s[i + 1] == 0x22);
        lema_subtrecho_dentro(s, i, esc, 2, m);
        assert(esc.subrange(2, m) =~= esc1);
        lema_le_aspas_rendida(s, i + 2, f.skip(1));
        assert(seq![0x22u8] + f.skip(1) =~= f);
    } else {
        let esc1 = escapa(f.skip(1));
        assert(esc == seq![f[0]] + esc1);
        lema_byte_dentro(s, i, esc, 0);
        assert(s[i] == f[0]);
        assert(s[i] != 0x22);
        lema_subtrecho_dentro(s, i, esc, 1, m);
        assert(esc.subrange(1, m) =~= esc1);
        lema_le_aspas_rendida(s, i + 1, f.skip(1));
        assert(seq![s[i]] + f.skip(1) =~= f);
    }
}

/// Reading a rendered field recovers it: with `campo_csv(f)` at `i` and a
/// terminator right after, the field reader yields exactly `f` and stops
/// on the terminator.
proof fn lema_le_campo_rendido(s: Seq<u8>, i: int, f: Seq<u8>)
    requires
        0 <= i,
        i + campo_csv(f).len() <= s.len(),
        s.subrange(i, i + campo_csv(f).len()) == campo_csv(f),
        i + campo_csv(f).len() == s.len() || s[i + campo_csv(f).len()] == 0x3b || s[i
            + campo_csv(f).len()] == 0x0a,
    ensures
        le_campo(s, i) == Some((f, i + campo_csv(f).len())),
{
    let cf = campo_csv(f);
    let m = cf.len() as int;
    if precisa_aspas(f) {
        let esc = escapa(f);
        assert(cf == seq![0x22u8] + esc + seq![0x22u8]);
        lema_byte_dentro(s, i, cf, 0);
        assert(s[i] == 0x22);
        lema_subtrecho_dentro(s, i, cf, 1, 1 + esc.len() as int);
        assert(cf.subrange(1, 1 + esc.len() as int) =~= esc);
        lema_byte_dentro(s, i, cf, m - 1);
        assert(s[i + 1 + esc.len()] == 0x22);
        lema_le_aspas_rendida(s, i + 1, f);
    } else {
        assert(cf == f);
        assert(forall|k: int| i <= k < i + m ==> #[trigger] s[k] == f[k - i]) by {
            assert(forall|k: int| i <= k < i + m ==> s.subrange(i, i + m)[k - i]
                == #[trigger] s[k]);
        }
        assert(forall|k: int| i <= k < i + m ==> !(#[trigger] s[k] == 0x3b || s[k] == 0x0a))
            by {
            assert(forall|k: int| 0 <= k < f.len() ==> !byte_especial(#[trigger] f[k]));
        }
        lema_fim_bruto_achado(s, i, i + m);
        if i < s.len() {
            if m > 0 {
                assert(s[i] == f[0]);
                assert(!byte_especial(f[0]));
                assert(s[i] != 0x22);
            } else {
                assert(s[i] == 0x3b || s[i] == 0x0a);
                assert(s[i] != 0x22);
            }
        }
        assert(s.subrange(i, i + m) =~= f);
    }
}

/// Reading a rendered line recovers its fields, in order.
proof fn lema_le_linha_rendida(s: Seq<u8>, i: int, campos: Seq<Seq<u8>>)
    requires
        campos.len() >= 1,
        0 <= i,
        i + linha_csv(campos).len() <= s.len(),
        s.subrange(i, i + linha_csv(campos).len()) == linha_csv(campos),
    ensures
        le_linha(s, i) == Some((campos, i + linha_csv(campos).len())),
    decreases campos.len(),
{
    let lc = linha_csv(campos);
    let c0 = campo_csv(campos[0]);
    if campos.len() == 1 {
        assert(lc == c0 + seq![0x0au8]);
        lema_subtrecho_dentro(s, i, lc, 0, c0.len() as int);
        assert(lc.subrange(0, c0.len() as int) =~= c0);
        lema_byte_dentro(s, i, lc, c0.len() as int);
        assert(s[i + c0.len()] == 0x0a);
        lema_le_campo_rendido(s, i, campos[0]);
        assert(seq![campos[0]] =~= campos);
    } else {
        let resto = linha_csv(campos.skip(1));
        assert(lc == c0 + seq![0x3bu8] + resto);
        lema_subtrecho_dentro(s, i, lc, 0, c0.len() as int);
        assert(lc.subrange(0, c0.len() as int) =~= c0);
        lema_byte_dentro(s, i, lc, c0.len() as int);
        assert(s[i + c0.len()] == 0x3b);
        lema_le_campo_rendido(s, i, campos[0]);
        let a = c0.len() + 1;
        lema_subtrecho_dentro(s, i, lc, a as int, lc.len() as int);
        assert(lc.subrange(a as int, lc.len() as int) =~= resto);
        lema_le_linha_rendida(s, i + a, campos.skip(1));
        assert(seq![campos[0]] + campos.skip(1) =~= campos);
    }
}

/// Reading rendered lines that fill the rest of the bytes recovers them.
proof fn lema_le_documento_rendido(s: Seq<u8>, i: int, linhas: Seq<Seq<Seq<u8>>>)
    requires
        forall|k: int| 0 <= k < linhas.len() ==> #[trigger] linhas[k].len() >= 1,
        0 <= i,
        i + corpo_csv(linhas).len() == s.len(),
        s.subrange(i, s.len() as int) == corpo_csv(linhas),
    ensures
        le_documento(s, i) == Some(linhas),
    decreases linhas.len(),
{
    if linhas.len() == 0 {
        assert(i == s.len());
    } else {
        let corpo = corpo_csv(linhas);
        let l0 = linha_csv(linhas[0]);
        let resto = corpo_csv(linhas.skip(1));
        assert(corpo == l0 + resto);
        assert(s.subrange(i, i + corpo.len()) == corpo);
        lema_subtrecho_dentro(s, i, corpo, 0, l0.len() as int);
        assert(corpo.subrange(0, l0.len() as int) =~= l0);
        lema_le_linha_rendida(s, i, linhas[0]);
        let j = i + l0.len();
        lema_subtrecho_dentro(s, i, corpo, l0.len() as int, corpo.len() as int);
        assert(corpo.subrange(l0.len() as int, corpo.len() as int) =~= resto);
        assert(s.subrange(j, s.len() as int) == resto);
        lema_le_documento_rendido(s, j, linhas.skip(1));
        assert(seq![linhas[0]] + linhas.skip(1) =~= linhas);
    }
}

/// Round trip: rendering any rows (each with at least one column) and
/// reading the bytes back recovers the header and the rows, in order.
pub proof fn lema_ida_e_volta_csv(v: Variante, linhas: Seq<Seq<Seq<u8>>>)
    requires
        forall|k: int| 0 <= k < linhas.len() ==> #[trigger] linhas[k].len() >= 1,
    ensures
        analisa_csv(documento_csv(v, linhas)) == Some(seq![cabecalho(v)] + linhas),
{
    let todas = seq![cabecalho(v)] + linhas;
    let s = documento_csv(v, linhas);
    assert(todas[0] == cabecalho(v));
    assert(todas.skip(1) =~= linhas);
    assert(corpo_csv(todas) == linha_csv(cabecalho(v)) + corpo_csv(todas.skip(1)));
    assert(s =~= corpo_csv(todas));
    assert(s.subrange(0, s.len() as int) =~= corpo_csv(todas));
    assert(forall|k: int| 0 <= k < todas.len() ==> #[trigger] todas[k].len() >= 1);
    lema_le_documento_rendido(s, 0, todas);
}

} // verus!
