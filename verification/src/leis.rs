//! The general properties of the pipeline, stated and proved over the same
//! spec functions the executable contracts use.

use vstd::prelude::*;

use crate::conversao::DesfechoVista;
use crate::conversao::resultado_conversao;
use crate::esquema::Variante;
use crate::esquema::classificacao;
use crate::linhas::linhas_de;
use crate::linhas::resumo_de;
use crate::linhas::soma_valores;
use crate::modelo::EmpresaVista;
use crate::modelo::FuncionarioVista;
use crate::moeda::coagir;
use crate::moeda::decimal_valido;
use crate::planilha::analisa_csv;
use crate::planilha::cabecalho;
use crate::planilha::documento_csv;
use crate::planilha::lema_ida_e_volta_csv;
use crate::xml::documento_em;

verus! {

/// Every output row has the variant's column count: seven for commission,
/// six for vales.
pub proof fn lema_colunas_linha(e: EmpresaVista, v: Variante)
    ensures
        forall|k: int| 0 <= k < linhas_de(e, v).len() ==> #[trigger] linhas_de(e, v)[k].len()
            == cabecalho(v).len(),
{
}

/// For a valid commission document with `n` employees, `n >= 1`, the
/// rendered file reads back as exactly `n + 1` records - the header and
/// one per employee - and the summary's primary total is the sum of the
/// coerced `Valor` fields.
pub proof fn lei_comissao_registros_e_total(e: EmpresaVista)
    requires
        e.funcionarios.len() >= 1,
    ensures
        analisa_csv(documento_csv(Variante::Comissao, linhas_de(e, Variante::Comissao)))
            == Some(seq![cabecalho(Variante::Comissao)] + linhas_de(e, Variante::Comissao)),
        (seq![cabecalho(Variante::Comissao)] + linhas_de(e, Variante::Comissao)).len()
            == e.funcionarios.len() + 1,
        resumo_de(e, Variante::Comissao).total_valor == soma_valores(e.funcionarios),
        resumo_de(e, Variante::Comissao).quantidade == e.funcionarios.len(),
{
    lema_colunas_linha(e, Variante::Comissao);
    lema_ida_e_volta_csv(Variante::Comissao, linhas_de(e, Variante::Comissao));
}

/// A document whose employee list is empty yields the distinct
/// "nothing to export" outcome, never a rendered file.
pub proof fn lei_sem_funcionarios(tronco: Seq<u8>, conteudo: Seq<u8>)
    requires
        classificacao(tronco) is Some,
        documento_em(conteudo, classificacao(tronco)->0) is Some,
        (documento_em(conteudo, classificacao(tronco)->0)->0).funcionarios.len() == 0,
    ensures
        resultado_conversao(tronco, conteudo) == DesfechoVista::SemFuncionarios,
{
}

/// Removing one entry takes exactly its coerced value out of the total.
proof fn lema_soma_valores_retira(fs: Seq<FuncionarioVista>, k: int)
    requires
        0 <= k < fs.len(),
    ensures
        soma_valores(fs.remove(k)) == soma_valores(fs) - coagir(fs[k].valor),
    decreases fs.len(),
{
    if k == fs.len() - 1 {
        assert(fs.remove(k) =~= fs.drop_last());
    } else {
        assert(fs.remove(k).drop_last() =~= fs.drop_last().remove(k));
        assert(fs.remove(k).last() == fs.last());
        lema_soma_valores_retira(fs.drop_last(), k);
    }
}

/// An employee whose `Valor` is not a valid decimal keeps that text
/// verbatim in the row's `Valor` column, while it contributes exactly
/// zero to the primary total.
pub proof fn lei_valor_invalido(e: EmpresaVista, v: Variante, k: int)
    requires
        0 <= k < e.funcionarios.len(),
        !decimal_valido(e.funcionarios[k].valor),
    ensures
        linhas_de(e, v)[k][5] == e.funcionarios[k].valor,
        coagir(e.funcionarios[k].valor) == 0,
        soma_valores(e.funcionarios.remove(k)) == soma_valores(e.funcionarios),
{
    lema_soma_valores_retira(e.funcionarios, k);
}

/// Round trip: rendering the rows of any document and reading the bytes
/// back recovers, record by record and in order, the same tax-id and
/// amount-text pairs the source employees carried.
pub proof fn lei_ida_e_volta(e: EmpresaVista, v: Variante)
    ensures
        analisa_csv(documento_csv(v, linhas_de(e, v))) == Some(
            seq![cabecalho(v)] + linhas_de(e, v),
        ),
        forall|k: int| 0 <= k < e.funcionarios.len() ==> (seq![cabecalho(v)] + linhas_de(e, v))[k
            + 1][4] == (#[trigger] e.funcionarios[k]).cpf,
        forall|k: int| 0 <= k < e.funcionarios.len() ==> (seq![cabecalho(v)] + linhas_de(e, v))[k
            + 1][5] == (#[trigger] e.funcionarios[k]).valor,
{
    lema_colunas_linha(e, v);
    lema_ida_e_volta_csv(v, linhas_de(e, v));
}

} // verus!
