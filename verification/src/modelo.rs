//! Typed representation of the payload both schemas share: a company with
//! its ordered employee list. Amount fields are kept as raw, unvalidated
//! text exactly as they stood in the source document; only the aggregate
//! totals ever coerce them to numbers. The bonus target (`MetaPremio`) is
//! the one optional field; it is meaningful only in the commission variant.

use vstd::prelude::*;

verus! {

/// One employee entry: tax id, raw amount text, and the optional raw
/// bonus-target text.
pub struct Funcionario {
    pub cpf: Vec<u8>,
    pub valor: Vec<u8>,
    pub meta_premio: Option<Vec<u8>>,
}

/// A company and its employees, in original document order.
pub struct Empresa {
    pub fantasia: Vec<u8>,
    pub razao: Vec<u8>,
    pub cnpj: Vec<u8>,
    pub mes_ano: Vec<u8>,
    pub funcionarios: Vec<Funcionario>,
}

/// Mathematical image of an employee entry.
pub ghost struct FuncionarioVista {
    pub cpf: Seq<u8>,
    pub valor: Seq<u8>,
    pub meta_premio: Option<Seq<u8>>,
}

/// Mathematical image of a company.
pub ghost struct EmpresaVista {
    pub fantasia: Seq<u8>,
    pub razao: Seq<u8>,
    pub cnpj: Seq<u8>,
    pub mes_ano: Seq<u8>,
    pub funcionarios: Seq<FuncionarioVista>,
}

impl View for Funcionario {
    type V = FuncionarioVista;

    open spec fn view(&self) -> FuncionarioVista {
        FuncionarioVista {
            cpf: self.cpf@,
            valor: self.valor@,
            meta_premio: match self.meta_premio {
                Some(m) => Some(m@),
                None => None,
            },
        }
    }
}

/// The images of a run of employee entries, in order.
pub open spec fn vistas_funcionarios(fs: Seq<Funcionario>) -> Seq<FuncionarioVista> {
    fs.map_values(|f: Funcionario| f@)
}

impl View for Empresa {
    type V = EmpresaVista;

    open spec fn view(&self) -> EmpresaVista {
        EmpresaVista {
            fantasia: self.fantasia@,
            razao: self.razao@,
            cnpj: self.cnpj@,
            mes_ano: self.mes_ano@,
            funcionarios: vistas_funcionarios(self.funcionarios@),
        }
    }
}

} // verus!
