//! The two supported document schemas and their fixed vocabulary: the XML
//! element names shared by both variants, and the purely lexical classifier
//! that picks a variant from a file name stem. The stem's prefix before the
//! first underscore is matched case-sensitively against `comissao` and
//! `vales`; any other prefix - including a stem with no underscore, whose
//! whole text is then the candidate - is unsupported. Classification never
//! looks at document content.

use vstd::prelude::*;

use crate::texto::primeiro;
use crate::texto::ate;
use crate::texto::fatia;
use crate::texto::iguais;

verus! {

/// The two document variants: monthly sales commissions, or advance-payment
/// ("vale") disbursements. They share one payload shape and differ in the
/// root element and in the bonus-target column.
#[derive(Clone, Copy, PartialEq, Eq, Structural, Debug)]
pub enum Variante {
    Comissao,
    Vales,
}

/// The XML element names both schemas are built from.
#[derive(Clone, Copy, PartialEq, Eq, Structural, Debug)]
pub enum Etiqueta {
    Comissao,
    Vales,
    Empresa,
    Funcionario,
    Fantasia,
    Razao,
    Cnpj,
    MesAno,
    Cpf,
    Valor,
    MetaPremio,
}

/// The bytes of an element name.
pub open spec fn nome_etiqueta(e: Etiqueta) -> Seq<u8> {
    match e {
        Etiqueta::Comissao => seq![67u8, 111u8, 109u8, 105u8, 115u8, 115u8, 97u8, 111u8],
        Etiqueta::Vales => seq![86u8, 97u8, 108u8, 101u8, 115u8],
        Etiqueta::Empresa => seq![69u8, 109u8, 112u8, 114u8, 101u8, 115u8, 97u8],
        Etiqueta::Funcionario => seq![70u8, 117u8, 110u8, 99u8, 105u8, 111u8, 110u8, 97u8, 114u8, 105u8, 111u8],
        Etiqueta::Fantasia => seq![70u8, 97u8, 110u8, 116u8, 97u8, 115u8, 105u8, 97u8],
        Etiqueta::Razao => seq![82u8, 97u8, 122u8, 97u8, 111u8],
        Etiqueta::Cnpj => seq![67u8, 78u8, 80u8, 74u8],
        Etiqueta::MesAno => seq![77u8, 101u8, 115u8, 65u8, 110u8, 111u8],
        Etiqueta::Cpf => seq![67u8, 80u8, 70u8],
        Etiqueta::Valor => seq![86u8, 97u8, 108u8, 111u8, 114u8],
        Etiqueta::MetaPremio => seq![77u8, 101u8, 116u8, 97u8, 80u8, 114u8, 101u8, 109u8, 105u8, 111u8],
    }
}

/// The root element of a variant.
pub open spec fn raiz_variante(v: Variante) -> Etiqueta {
    match v {
        Variante::Comissao => Etiqueta::Comissao,
        Variante::Vales => Etiqueta::Vales,
    }
}

/// The stem prefix a variant answers to: `comissao` or `vales`.
pub open spec fn rotulo_variante(v: Variante) -> Seq<u8> {
    match v {
        Variante::Comissao => seq![99u8, 111u8, 109u8, 105u8, 115u8, 115u8, 97u8, 111u8],
        Variante::Vales => seq![118u8, 97u8, 108u8, 101u8, 115u8],
    }
}

/// The part of the stem before its first underscore; the whole stem when
/// there is none.
pub open spec fn prefixo_tronco(s: Seq<u8>) -> Seq<u8> {
    s.take(primeiro(s, 0, 0x5f))
}

/// The variant a file name stem selects, or `None` for an unsupported stem.
pub open spec fn classificacao(s: Seq<u8>) -> Option<Variante> {
    if prefixo_tronco(s) == rotulo_variante(Variante::Comissao) {
        Some(Variante::Comissao)
    } else if prefixo_tronco(s) == rotulo_variante(Variante::Vales) {
        Some(Variante::Vales)
    } else {
        None
    }
}

/// Builds the bytes of an element name.
pub fn nome_exec(e: Etiqueta) -> (v: Vec<u8>)
    ensures
        v@ == nome_etiqueta(e),
{
    let mut v: Vec<u8> = Vec::new();
    match e {
        Etiqueta::Comissao => {
            v.push(67);
            v.push(111);
            v.push(109);
            v.push(105);
            v.push(115);
            v.push(115);
            v.push(97);
            v.push(111);
        }
        Etiqueta::Vales => {
            v.push(86);
            v.push(97);
            v.push(108);
            v.push(101);
            v.push(115);
        }
        Etiqueta::Empresa => {
            v.push(69);
            v.push(109);
            v.push(112);
            v.push(114);
            v.push(101);
            v.push(115);
            v.push(97);
        }
        Etiqueta::Funcionario => {
            v.push(70);
            v.push(117);
            v.push(110);
            v.push(99);
            v.push(105);
            v.push(111);
            v.push(110);
            v.push(97);
            v.push(114);
            v.push(105);
            v.push(111);
        }
        Etiqueta::Fantasia => {
            v.push(70);
            v.push(97);
            v.push(110);
            v.push(116);
            v.push(97);
            v.push(115);
            v.push(105);
            v.push(97);
        }
        Etiqueta::Razao => {
            v.push(82);
            v.push(97);
            v.push(122);
            v.push(97);
            v.push(111);
        }
        Etiqueta::Cnpj => {
            v.push(67);
            v.push(78);
            v.push(80);
            v.push(74);
        }
        Etiqueta::MesAno => {
            v.push(77);
            v.push(101);
            v.push(115);
            v.push(65);
            v.push(110);
            v.push(111);
        }
        Etiqueta::Cpf => {
            v.push(67);
            v.push(80);
            v.push(70);
        }
        Etiqueta::Valor => {
            v.push(86);
            v.push(97);
            v.push(108);
            v.push(111);
            v.push(114);
        }
        Etiqueta::MetaPremio => {
            v.push(77);
            v.push(101);
            v.push(116);
            v.push(97);
            v.push(80);
            v.push(114);
            v.push(101);
            v.push(109);
            v.push(105);
            v.push(111);
        }
    }
    proof {
        assert(v@ =~= nome_etiqueta(e));
    }
    v
}

/// Builds the stem prefix a variant answers to.
pub fn rotulo_exec(v: Variante) -> (r: Vec<u8>)
    ensures
        r@ == rotulo_variante(v),
{
    let mut r: Vec<u8> = Vec::new();
    match v {
        Variante::Comissao => {
            r.push(99);
            r.push(111);
            r.push(109);
            r.push(105);
            r.push(115);
            r.push(115);
            r.push(97);
            r.push(111);
        }
        Variante::Vales => {
            r.push(118);
            r.push(97);
            r.push(108);
            r.push(101);
            r.push(115);
        }
    }
    proof {
        assert(r@ =~= rotulo_variante(v));
    }
    r
}

/// Classifies a file name stem by the prefix before its first underscore.
pub fn classificar(tronco: &Vec<u8>) -> (r: Option<Variante>)
    ensures
        r == classificacao(tronco@),
{
    let p = ate(tronco, 0, 0x5f);
    let prefixo = fatia(tronco, 0, p);
    proof {
        assert(prefixo@ =~= prefixo_tronco(tronco@));
    }
    if iguais(&prefixo, &rotulo_exec(Variante::Comissao)) {
        Some(Variante::Comissao)
    } else if iguais(&prefixo, &rotulo_exec(Variante::Vales)) {
        Some(Variante::Vales)
    } else {
        None
    }
}

} // verus!
