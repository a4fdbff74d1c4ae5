//! Conversor de folhas de pagamento: reads a commission or advance-payment
//! ("vale") XML document, flattens the company/employee tree into delimited
//! rows, and renders a semicolon-separated CSV file together with aggregate
//! totals. Classification between the two schemas is purely lexical on the
//! file name stem; amounts are carried verbatim as text and coerced to whole
//! cents only for the totals.

#![verifier::loop_isolation(false)]

pub mod conversao;
pub mod esquema;
pub mod leis;
pub mod linhas;
pub mod modelo;
pub mod moeda;
pub mod planilha;
pub mod texto;
pub mod xml;
