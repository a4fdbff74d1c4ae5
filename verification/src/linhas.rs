//! Row flattener and aggregator: walks the employees of a company in
//! document order, repeats the company fields verbatim on every row (the
//! output is one flat file per company, so the denormalization is
//! deliberate), and accumulates the running totals and the employee count.
//! Amount texts go into the rows exactly as they stood in the source;
//! the totals coerce the same texts to cents, so a malformed amount keeps
//! its text but contributes zero.

use vstd::prelude::*;

use crate::esquema::Variante;
use crate::modelo::Empresa;
use crate::modelo::EmpresaVista;
use crate::modelo::FuncionarioVista;
use crate::moeda::LIMITE_CENTAVOS;
use crate::moeda::coagir;
use crate::moeda::coagir_opcional;
use crate::moeda::coagir_texto;
use crate::moeda::coagir_campo;
use crate::texto::duplica;

verus! {

/// Counts and totals of one conversion. Totals are in whole cents; the
/// secondary total belongs to the commission variant alone and is zero for
/// vales.
pub struct Resumo {
    pub quantidade: usize,
    pub total_valor: i128,
    pub total_meta: i128,
}

/// Mathematical image of a summary.
pub ghost struct ResumoVista {
    pub quantidade: int,
    pub total_valor: int,
    pub total_meta: int,
}

impl View for Resumo {
    type V = ResumoVista;

    open spec fn view(&self) -> ResumoVista {
        ResumoVista {
            quantidade: self.quantidade as int,
            total_valor: self.total_valor as int,
            total_meta: self.total_meta as int,
        }
    }
}

/// The bonus-target text of a row: empty when the field is absent.
pub open spec fn meta_ou_vazia(f: FuncionarioVista) -> Seq<u8> {
    match f.meta_premio {
        Some(m) => m,
        None => Seq::empty(),
    }
}

/// One output row: the company fields, then the employee's, verbatim. The
/// commission variant carries the bonus-target column; vales omit it.
pub open spec fn linha_de(e: EmpresaVista, f: FuncionarioVista, v: Variante) -> Seq<Seq<u8>> {
    match v {
        Variante::Comissao => seq![
            e.fantasia,
            e.razao,
            e.cnpj,
            e.mes_ano,
            f.cpf,
            f.valor,
            meta_ou_vazia(f),
        ],
        Variante::Vales => seq![e.fantasia, e.razao, e.cnpj, e.mes_ano, f.cpf, f.valor],
    }
}

/// All output rows of a company, one per employee, in document order.
pub open spec fn linhas_de(e: EmpresaVista, v: Variante) -> Seq<Seq<Seq<u8>>> {
    Seq::new(e.funcionarios.len(), |k: int| linha_de(e, e.funcionarios[k], v))
}

/// Sum of the coerced `Valor` fields, in cents.
pub open spec fn soma_valores(fs: Seq<FuncionarioVista>) -> int
    decreases fs.len(),
{
    if fs.len() == 0 {
        0
    } else {
        soma_valores(fs.drop_last()) + coagir(fs.last().valor)
    }
}

/// Sum of the coerced bonus targets, in cents; absent targets count zero.
pub open spec fn soma_metas(fs: Seq<FuncionarioVista>) -> int
    decreases fs.len(),
{
    if fs.len() == 0 {
        0
    } else {
        soma_metas(fs.drop_last()) + coagir_opcional(fs.last().meta_premio)
    }
}

/// The summary a company yields under a variant.
pub open spec fn resumo_de(e: EmpresaVista, v: Variante) -> ResumoVista {
    ResumoVista {
        quantidade: e.funcionarios.len() as int,
        total_valor: soma_valores(e.funcionarios),
        total_meta: match v {
            Variante::Comissao => soma_metas(e.funcionarios),
            Variante::Vales => 0,
        },
    }
}

/// Flattens a company into output rows and the running summary. Rows copy
/// every field verbatim; the totals are the coerced sums; the count is the
/// number of employees.
pub fn achatar(e: &Empresa, v: Variante) -> (r: (Vec<Vec<Vec<u8>>>, Resumo))
    ensures
        r.0.deep_view() == linhas_de(e@, v),
        r.1@ == resumo_de(e@, v),
{
    let ghost fs: Seq<FuncionarioVista> = e@.funcionarios;
    let mut linhas: Vec<Vec<Vec<u8>>> = Vec::new();
    let mut total_valor: i128 = 0;
    let mut total_meta: i128 = 0;
    let mut k: usize = 0;
    proof {
        assert(linhas.deep_view() =~~= linhas_de(e@, v).take(0));
        assert(fs.take(0) =~= Seq::<FuncionarioVista>::empty());
    }
    while k < e.funcionarios.len()
        invariant
            k <= e.funcionarios@.len(),
            fs.len() == e.funcionarios@.len(),
            linhas.deep_view() == linhas_de(e@, v).take(k as int),
            total_valor == soma_valores(fs.take(k as int)),
            total_meta == soma_metas(fs.take(k as int)),
            -(k as int) * (LIMITE_CENTAVOS as int) <= total_valor <= (k as int) * (
            LIMITE_CENTAVOS as int),
            -(k as int) * (LIMITE_CENTAVOS as int) <= total_meta <= (k as int) * (
            LIMITE_CENTAVOS as int),
        decreases e.funcionarios@.len() - k,
    {
        let f = &e.funcionarios[k];
        proof {
            assert(f@ == fs[k as int]);
        }
        let mut linha: Vec<Vec<u8>> = Vec::new();
        linha.push(duplica(&e.fantasia));
        linha.push(duplica(&e.razao));
        linha.push(duplica(&e.cnpj));
        linha.push(duplica(&e.mes_ano));
        linha.push(duplica(&f.cpf));
        linha.push(duplica(&f.valor));
        match v {
            Variante::Comissao => {
                let meta = match &f.meta_premio {
                    Some(m) => duplica(m),
                    None => Vec::new(),
                };
                linha.push(meta);
            },
            Variante::Vales => {},
        }
        proof {
            assert(linha.deep_view() =~~= linha_de(e@, fs[k as int], v));
        }
        let dv = coagir_texto(&f.valor);
        let dm = coagir_campo(&f.meta_premio);
        proof {
            assert(fs.take(k + 1).drop_last() =~= fs.take(k as int));
            assert(fs.take(k + 1).last() == fs[k as int]);
            assert((k + 1) as int * (LIMITE_CENTAVOS as int) <= fs.len() as int * (
            LIMITE_CENTAVOS as int));
            assert(fs.len() as int * (LIMITE_CENTAVOS as int) <= usize::MAX as int * (
            LIMITE_CENTAVOS as int));
        }
        total_valor = total_valor + dv as i128;
        total_meta = total_meta + dm as i128;
        linhas.push(linha);
        proof {
            assert(linhas.deep_view() =~~= linhas_de(e@, v).take(k + 1));
        }
        k = k + 1;
    }
    proof {
        assert(fs.take(fs.len() as int) =~= fs);
        assert(linhas_de(e@, v).take(linhas_de(e@, v).len() as int) =~= linhas_de(e@, v));
    }
    let resumo = Resumo {
        quantidade: e.funcionarios.len(),
        total_valor: total_valor,
        total_meta: match v {
            Variante::Comissao => total_meta,
            Variante::Vales => 0,
        },
    };
    (linhas, resumo)
}

} // verus!
