//! Conversion orchestrator: classify the file name stem, read the document
//! under the matched variant, short-circuit a company without employees to
//! the distinct "nothing to export" outcome, otherwise flatten and render.
//! Any step's failure ends the attempt with its own outcome; there are no
//! retries, these are one-shot deterministic transformations. Writing the
//! rendered bytes next to the input, and reporting, are the caller's part.

use vstd::prelude::*;

use crate::esquema::Variante;
use crate::esquema::classificacao;
use crate::esquema::classificar;
use crate::linhas::Resumo;
use crate::linhas::ResumoVista;
use crate::linhas::achatar;
use crate::linhas::linhas_de;
use crate::linhas::resumo_de;
use crate::planilha::documento_csv;
use crate::planilha::emitir_csv;
use crate::xml::documento;
use crate::xml::documento_em;

verus! {

/// How one conversion attempt ends. `Convertido` carries the rendered
/// bytes and the summary; `SemFuncionarios` is the valid document with
/// nothing to export, for which no file may be written; the two last are
/// the unsupported stem and the malformed document.
pub enum Desfecho {
    Convertido(Vec<u8>, Resumo),
    SemFuncionarios,
    EsquemaNaoSuportado,
    DocumentoInvalido,
}

/// Mathematical image of an outcome.
pub ghost enum DesfechoVista {
    Convertido(Seq<u8>, ResumoVista),
    SemFuncionarios,
    EsquemaNaoSuportado,
    DocumentoInvalido,
}

impl View for Desfecho {
    type V = DesfechoVista;

    open spec fn view(&self) -> DesfechoVista {
        match self {
            Desfecho::Convertido(csv, resumo) => DesfechoVista::Convertido(csv@, resumo@),
            Desfecho::SemFuncionarios => DesfechoVista::SemFuncionarios,
            Desfecho::EsquemaNaoSuportado => DesfechoVista::EsquemaNaoSuportado,
            Desfecho::DocumentoInvalido => DesfechoVista::DocumentoInvalido,
        }
    }
}

/// What one conversion returns, for every stem and every byte content:
/// the unsupported stem; the malformed document of the classified variant;
/// the empty employee list; or the rendered file with its summary.
pub open spec fn resultado_conversao(tronco: Seq<u8>, conteudo: Seq<u8>) -> DesfechoVista {
    match classificacao(tronco) {
        None => DesfechoVista::EsquemaNaoSuportado,
        Some(v) => match documento_em(conteudo, v) {
            None => DesfechoVista::DocumentoInvalido,
            Some(e) => if e.funcionarios.len() == 0 {
                DesfechoVista::SemFuncionarios
            } else {
                DesfechoVista::Convertido(
                    documento_csv(v, linhas_de(e, v)),
                    resumo_de(e, v),
                )
            },
        },
    }
}

/// Converts one selected input: the stem of its file name, and its bytes.
pub fn converter(tronco: &Vec<u8>, conteudo: &Vec<u8>) -> (d: Desfecho)
    ensures
        d@ == resultado_conversao(tronco@, conteudo@),
{
    let v = match classificar(tronco) {
        None => {
            return Desfecho::EsquemaNaoSuportado;
        },
        Some(v) => v,
    };
    let e = match documento(conteudo, v) {
        None => {
            return Desfecho::DocumentoInvalido;
        },
        Some(e) => e,
    };
    if e.funcionarios.len() == 0 {
        return Desfecho::SemFuncionarios;
    }
    let par = achatar(&e, v);
    let csv = emitir_csv(&par.0, v);
    Desfecho::Convertido(csv, par.1)
}

} // verus!
