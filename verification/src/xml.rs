//! Reader for the XML subset both schemas use. The accepted shape is the
//! documented one: optional whitespace and an optional `<? ... ?>` prolog,
//! then the variant's root element wrapping one `Empresa` element, whose
//! children come in document order - `Fantasia`, `Razao`, `CNPJ`, `MesAno`,
//! then any number of `Funcionario` elements, each holding `CPF`, `Valor`
//! and an optional `MetaPremio`. Leaf text runs verbatim up to the next
//! `<`; elements carry no attributes. Every required field missing, stray
//! content, or a root that does not match the variant is a malformed
//! document, never a soft default. An empty employee list is well formed:
//! it is the meaningful "nothing to export" state.
//!
//! Each executable reader returns exactly what its spec-level counterpart
//! denotes, so the grammar above is the one contract callers see.

use vstd::prelude::*;

use crate::esquema::Etiqueta;
use crate::esquema::Variante;
use crate::esquema::nome_etiqueta;
use crate::esquema::nome_exec;
use crate::esquema::raiz_variante;
use crate::modelo::Empresa;
use crate::modelo::EmpresaVista;
use crate::modelo::Funcionario;
use crate::modelo::FuncionarioVista;
use crate::modelo::vistas_funcionarios;
use crate::texto::casa;
use crate::texto::casa_em;
use crate::texto::ate;
use crate::texto::fatia;
use crate::texto::fim_espacos;
use crate::texto::primeiro;
use crate::texto::salta_espacos;

verus! {

/// An opening tag `<Nome>` stands in `s` at `i`.
pub open spec fn abre_em(s: Seq<u8>, i: int, e: Etiqueta) -> bool {
    &&& 0 <= i
    &&& i + nome_etiqueta(e).len() + 2 <= s.len()
    &&& s[i] == 0x3c
    &&& casa_em(s, i + 1, nome_etiqueta(e))
    &&& s[i + 1 + nome_etiqueta(e).len()] == 0x3e
}

/// A closing tag `</Nome>` stands in `s` at `i`.
pub open spec fn fecha_em(s: Seq<u8>, i: int, e: Etiqueta) -> bool {
    &&& 0 <= i
    &&& i + nome_etiqueta(e).len() + 3 <= s.len()
    &&& s[i] == 0x3c
    &&& s[i + 1] == 0x2f
    &&& casa_em(s, i + 2, nome_etiqueta(e))
    &&& s[i + 2 + nome_etiqueta(e).len()] == 0x3e
}

/// Length of an opening tag.
pub open spec fn tam_abre(e: Etiqueta) -> int {
    nome_etiqueta(e).len() + 2int
}

/// Length of a closing tag.
pub open spec fn tam_fecha(e: Etiqueta) -> int {
    nome_etiqueta(e).len() + 3int
}

/// A leaf element read from `i`: optional whitespace, `<Nome>`, verbatim
/// text up to the next `<`, `</Nome>`. Yields the text and the position
/// past the closing tag.
pub open spec fn folha_em(s: Seq<u8>, i: int, e: Etiqueta) -> Option<(Seq<u8>, int)> {
    let a = fim_espacos(s, i);
    if !abre_em(s, a, e) {
        None
    } else {
        let t0 = a + tam_abre(e);
        let t1 = primeiro(s, t0, 0x3c);
        if fecha_em(s, t1, e) {
            Some((s.subrange(t0, t1), t1 + tam_fecha(e)))
        } else {
            None
        }
    }
}

/// One `Funcionario` element: `CPF`, `Valor`, then an optional
/// `MetaPremio`, wrapped in its tags.
pub open spec fn funcionario_em(s: Seq<u8>, i: int) -> Option<(FuncionarioVista, int)> {
    let a = fim_espacos(s, i);
    if !abre_em(s, a, Etiqueta::Funcionario) {
        None
    } else {
        match folha_em(s, a + tam_abre(Etiqueta::Funcionario), Etiqueta::Cpf) {
            None => None,
            Some((cpf, i2)) => match folha_em(s, i2, Etiqueta::Valor) {
                None => None,
                Some((valor, i3)) => {
                    let a3 = fim_espacos(s, i3);
                    if abre_em(s, a3, Etiqueta::MetaPremio) {
                        match folha_em(s, i3, Etiqueta::MetaPremio) {
                            None => None,
                            Some((meta, i4)) => fim_funcionario(s, i4, cpf, valor, Some(meta)),
                        }
                    } else {
                        fim_funcionario(s, i3, cpf, valor, None)
                    }
                },
            },
        }
    }
}

/// The closing `</Funcionario>` after the fields, and the finished entry.
pub open spec fn fim_funcionario(
    s: Seq<u8>,
    j: int,
    cpf: Seq<u8>,
    valor: Seq<u8>,
    meta: Option<Seq<u8>>,
) -> Option<(FuncionarioVista, int)> {
    let b = fim_espacos(s, j);
    if fecha_em(s, b, Etiqueta::Funcionario) {
        Some(
            (
                FuncionarioVista { cpf: cpf, valor: valor, meta_premio: meta },
                b + tam_fecha(Etiqueta::Funcionario),
            ),
        )
    } else {
        None
    }
}

/// The run of `Funcionario` elements from `i`, possibly empty; stops in
/// front of the first position where none opens. A step that would not
/// advance is refused, which the bounds lemmas show cannot happen.
pub open spec fn funcionarios_em(s: Seq<u8>, i: int) -> Option<(Seq<FuncionarioVista>, int)>
    decreases s.len() - i when 0 <= i <= s.len()
{
    let a = fim_espacos(s, i);
    if abre_em(s, a, Etiqueta::Funcionario) {
        match funcionario_em(s, i) {
            None => None,
            Some((f, j)) => if i < j <= s.len() {
                match funcionarios_em(s, j) {
                    None => None,
                    Some((fs, k)) => Some((seq![f] + fs, k)),
                }
            } else {
                None
            },
        }
    } else {
        Some((Seq::empty(), i))
    }
}

/// The `Empresa` element: the four company fields in document order, the
/// employee run, and the closing tag.
pub open spec fn empresa_em(s: Seq<u8>, i: int) -> Option<(EmpresaVista, int)> {
    let a = fim_espacos(s, i);
    if !abre_em(s, a, Etiqueta::Empresa) {
        None
    } else {
        match folha_em(s, a + tam_abre(Etiqueta::Empresa), Etiqueta::Fantasia) {
            None => None,
            Some((fantasia, i2)) => match folha_em(s, i2, Etiqueta::Razao) {
                None => None,
                Some((razao, i3)) => match folha_em(s, i3, Etiqueta::Cnpj) {
                    None => None,
                    Some((cnpj, i4)) => match folha_em(s, i4, Etiqueta::MesAno) {
                        None => None,
                        Some((mes_ano, i5)) => if 0 <= i5 <= s.len() {
                            match funcionarios_em(s, i5) {
                                None => None,
                                Some((fs, i6)) => {
                                    let b = fim_espacos(s, i6);
                                    if fecha_em(s, b, Etiqueta::Empresa) {
                                        Some(
                                            (
                                                EmpresaVista {
                                                    fantasia: fantasia,
                                                    razao: razao,
                                                    cnpj: cnpj,
                                                    mes_ano: mes_ano,
                                                    funcionarios: fs,
                                                },
                                                b + tam_fecha(Etiqueta::Empresa),
                                            ),
                                        )
                                    } else {
                                        None
                                    }
                                },
                            }
                        } else {
                            None
                        },
                    },
                },
            },
        }
    }
}

/// Position after the optional `<? ... ?>` prolog, whitespace skipped;
/// `None` when a prolog opens and never closes. The prolog may not hold a
/// `>` before its closing `?>`.
pub open spec fn inicio_documento(s: Seq<u8>) -> Option<int> {
    let a = fim_espacos(s, 0);
    if a + 2 <= s.len() && s[a] == 0x3c && s[a + 1] == 0x3f {
        let q = primeiro(s, a + 2, 0x3e);
        if q < s.len() && s[q - 1] == 0x3f {
            Some(q + 1)
        } else {
            None
        }
    } else {
        Some(a)
    }
}

/// A whole document of the given variant: prolog, the variant's root
/// element wrapping one `Empresa`, and nothing but whitespace after it.
pub open spec fn documento_em(s: Seq<u8>, v: Variante) -> Option<EmpresaVista> {
    let r = raiz_variante(v);
    match inicio_documento(s) {
        None => None,
        Some(i0) => {
            let a = fim_espacos(s, i0);
            if !abre_em(s, a, r) {
                None
            } else {
                match empresa_em(s, a + tam_abre(r)) {
                    None => None,
                    Some((e, j)) => {
                        let b = fim_espacos(s, j);
                        if fecha_em(s, b, r) && fim_espacos(s, b + tam_fecha(r)) == s.len() {
                            Some(e)
                        } else {
                            None
                        }
                    },
                }
            }
        },
    }
}

/// Whether an opening tag for `e` stands at `i`.
pub fn abre(s: &Vec<u8>, i: usize, e: Etiqueta) -> (r: bool)
    requires
        i <= s@.len(),
    ensures
        r == abre_em(s@, i as int, e),
{
    let nome = nome_exec(e);
    if s.len() - i < nome.len() + 2 {
        return false;
    }
    if s[i] != 0x3c {
        return false;
    }
    if !casa(s, i + 1, &nome) {
        return false;
    }
    s[i + 1 + nome.len()] == 0x3e
}

/// Whether a closing tag for `e` stands at `i`.
pub fn fecha(s: &Vec<u8>, i: usize, e: Etiqueta) -> (r: bool)
    requires
        i <= s@.len(),
    ensures
        r == fecha_em(s@, i as int, e),
{
    let nome = nome_exec(e);
    if s.len() - i < nome.len() + 3 {
        return false;
    }
    if s[i] != 0x3c || s[i + 1] != 0x2f {
        return false;
    }
    if !casa(s, i + 2, &nome) {
        return false;
    }
    s[i + 2 + nome.len()] == 0x3e
}

/// Reads a leaf element; the text comes back verbatim.
pub fn folha(s: &Vec<u8>, i: usize, e: Etiqueta) -> (r: Option<(Vec<u8>, usize)>)
    requires
        i <= s@.len(),
    ensures
        match r {
            Some(par) => {
                &&& folha_em(s@, i as int, e) == Some((par.0@, par.1 as int))
                &&& i < par.1 <= s@.len()
            },
            None => folha_em(s@, i as int, e) is None,
        },
{
    proof {
        assert(s@.len() == s.len());
    }
    let a = salta_espacos(s, i);
    if !abre(s, a, e) {
        return None;
    }
    let nome_tam = nome_exec(e).len();
    let t0 = a + nome_tam + 2;
    let t1 = ate(s, t0, 0x3c);
    if !fecha(s, t1, e) {
        return None;
    }
    let texto = fatia(s, t0, t1);
    Some((texto, t1 + nome_tam + 3))
}

/// Reads one `Funcionario` element.
pub fn funcionario(s: &Vec<u8>, i: usize) -> (r: Option<(Funcionario, usize)>)
    requires
        i <= s@.len(),
    ensures
        match r {
            Some(par) => {
                &&& funcionario_em(s@, i as int) == Some((par.0@, par.1 as int))
                &&& i < par.1 <= s@.len()
            },
            None => funcionario_em(s@, i as int) is None,
        },
{
    proof {
        assert(s@.len() == s.len());
    }
    let a = salta_espacos(s, i);
    if !abre(s, a, Etiqueta::Funcionario) {
        return None;
    }
    let i1 = a + nome_exec(Etiqueta::Funcionario).len() + 2;
    let (cpf, i2) = match folha(s, i1, Etiqueta::Cpf) {
        None => {
            return None;
        },
        Some(par) => par,
    };
    let (valor, i3) = match folha(s, i2, Etiqueta::Valor) {
        None => {
            return None;
        },
        Some(par) => par,
    };
    let a3 = salta_espacos(s, i3);
    let meta: Option<Vec<u8>>;
    let j: usize;
    if abre(s, a3, Etiqueta::MetaPremio) {
        match folha(s, i3, Etiqueta::MetaPremio) {
            None => {
                return None;
            },
            Some(par) => {
                meta = Some(par.0);
                j = par.1;
            },
        }
    } else {
        meta = None;
        j = i3;
    }
    let b = salta_espacos(s, j);
    if !fecha(s, b, Etiqueta::Funcionario) {
        return None;
    }
    let fim = b + nome_exec(Etiqueta::Funcionario).len() + 3;
    Some((Funcionario { cpf: cpf, valor: valor, meta_premio: meta }, fim))
}

/// Reads the run of `Funcionario` elements from `i`.
pub fn funcionarios(s: &Vec<u8>, i: usize) -> (r: Option<(Vec<Funcionario>, usize)>)
    requires
        i <= s@.len(),
    ensures
        match r {
            Some(par) => {
                &&& funcionarios_em(s@, i as int) == Some(
                    (vistas_funcionarios(par.0@), par.1 as int),
                )
                &&& i <= par.1 <= s@.len()
            },
            None => funcionarios_em(s@, i as int) is None,
        },
{
    let mut acc: Vec<Funcionario> = Vec::new();
    let mut cur: usize = i;
    proof {
        assert(vistas_funcionarios(acc@) =~= Seq::<FuncionarioVista>::empty());
    }
    loop
        invariant
            i <= cur <= s@.len(),
            funcionarios_em(s@, i as int) == match funcionarios_em(s@, cur as int) {
                None => None::<(Seq<FuncionarioVista>, int)>,
                Some((fs, k)) => Some((vistas_funcionarios(acc@) + fs, k)),
            },
        decreases s@.len() - cur,
    {
        let a = salta_espacos(s, cur);
        if !abre(s, a, Etiqueta::Funcionario) {
            proof {
                assert(funcionarios_em(s@, cur as int) == Some(
                    (Seq::<FuncionarioVista>::empty(), cur as int),
                ));
                assert(vistas_funcionarios(acc@) + Seq::<FuncionarioVista>::empty()
                    =~= vistas_funcionarios(acc@));
            }
            return Some((acc, cur));
        }
        match funcionario(s, cur) {
            None => {
                return None;
            },
            Some((f, j)) => {
                proof {
                    let anterior = acc@;
                    assert(vistas_funcionarios(anterior.push(f)) =~= vistas_funcionarios(
                        anterior,
                    ).push(f@));
                    assert(funcionarios_em(s@, cur as int) == match funcionarios_em(
                        s@,
                        j as int,
                    ) {
                        None => None::<(Seq<FuncionarioVista>, int)>,
                        Some((fs, k)) => Some((seq![f@] + fs, k)),
                    });
                    if funcionarios_em(s@, j as int) is Some {
                        let (fs, _k) = funcionarios_em(s@, j as int).unwrap();
                        assert(vistas_funcionarios(anterior) + (seq![f@] + fs)
                            =~= vistas_funcionarios(anterior.push(f)) + fs);
                    }
                }
                acc.push(f);
                cur = j;
            },
        }
    }
}

/// Reads the `Empresa` element.
pub fn empresa(s: &Vec<u8>, i: usize) -> (r: Option<(Empresa, usize)>)
    requires
        i <= s@.len(),
    ensures
        match r {
            Some(par) => {
                &&& empresa_em(s@, i as int) == Some((par.0@, par.1 as int))
                &&& i < par.1 <= s@.len()
            },
            None => empresa_em(s@, i as int) is None,
        },
{
    proof {
        assert(s@.len() == s.len());
    }
    let a = salta_espacos(s, i);
    if !abre(s, a, Etiqueta::Empresa) {
        return None;
    }
    let i1 = a + nome_exec(Etiqueta::Empresa).len() + 2;
    let (fantasia, i2) = match folha(s, i1, Etiqueta::Fantasia) {
        None => {
            return None;
        },
        Some(par) => par,
    };
    let (razao, i3) = match folha(s, i2, Etiqueta::Razao) {
        None => {
            return None;
        },
        Some(par) => par,
    };
    let (cnpj, i4) = match folha(s, i3, Etiqueta::Cnpj) {
        None => {
            return None;
        },
        Some(par) => par,
    };
    let (mes_ano, i5) = match folha(s, i4, Etiqueta::MesAno) {
        None => {
            return None;
        },
        Some(par) => par,
    };
    let (funcs, i6) = match funcionarios(s, i5) {
        None => {
            return None;
        },
        Some(par) => par,
    };
    let b = salta_espacos(s, i6);
    if !fecha(s, b, Etiqueta::Empresa) {
        return None;
    }
    let fim = b + nome_exec(Etiqueta::Empresa).len() + 3;
    Some(
        (
            Empresa {
                fantasia: fantasia,
                razao: razao,
                cnpj: cnpj,
                mes_ano: mes_ano,
                funcionarios: funcs,
            },
            fim,
        ),
    )
}

/// Deserializes a whole document of the given variant, or reports it
/// malformed. `Some` comes back exactly for the byte runs the module
/// grammar generates; the company is returned with every field verbatim.
pub fn documento(s: &Vec<u8>, v: Variante) -> (r: Option<Empresa>)
    ensures
        match r {
            Some(e) => documento_em(s@, v) == Some(e@),
            None => documento_em(s@, v) is None,
        },
{
    let raiz = match v {
        Variante::Comissao => Etiqueta::Comissao,
        Variante::Vales => Etiqueta::Vales,
    };
    proof {
        assert(s@.len() == s.len());
    }
    let a0 = salta_espacos(s, 0);
    let i0: usize;
    if s.len() - a0 >= 2 && s[a0] == 0x3c && s[a0 + 1] == 0x3f {
        let q = ate(s, a0 + 2, 0x3e);
        if q == s.len() || s[q - 1] != 0x3f {
            return None;
        }
        i0 = q + 1;
    } else {
        i0 = a0;
    }
    let a = salta_espacos(s, i0);
    if !abre(s, a, raiz) {
        return None;
    }
    let i1 = a + nome_exec(raiz).len() + 2;
    let (emp, j) = match empresa(s, i1) {
        None => {
            return None;
        },
        Some(par) => par,
    };
    let b = salta_espacos(s, j);
    if !fecha(s, b, raiz) {
        return None;
    }
    let fim = b + nome_exec(raiz).len() + 3;
    let resto = salta_espacos(s, fim);
    if resto != s.len() {
        return None;
    }
    Some(emp)
}

} // verus!
