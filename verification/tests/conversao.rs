use conversorxmlcsv::conversao::{converter, Desfecho};
use conversorxmlcsv::esquema::{classificar, Variante};
use conversorxmlcsv::moeda::coagir_texto;

fn comissao_exemplo() -> Vec<u8> {
    b"<Comissao>\n  <Empresa>\n    <Fantasia>Acme</Fantasia>\n    <Razao>Acme LTDA</Razao>\n    <CNPJ>00.000.000/0001-00</CNPJ>\n    <MesAno>01/2024</MesAno>\n    <Funcionario>\n      <CPF>111</CPF>\n      <Valor>100.50</Valor>\n      <MetaPremio>10.00</MetaPremio>\n    </Funcionario>\n    <Funcionario>\n      <CPF>222</CPF>\n      <Valor>200.00</Valor>\n    </Funcionario>\n  </Empresa>\n</Comissao>\n".to_vec()
}

#[test]
fn exemplo_comissao_completo() {
    let d = converter(&b"comissao_jan2024".to_vec(), &comissao_exemplo());
    match d {
        Desfecho::Convertido(csv, resumo) => {
            let esperado = b"Fantasia;Razao;CNPJ;MesAno;CPF;Valor;MetaPremio\nAcme;Acme LTDA;00.000.000/0001-00;01/2024;111;100.50;10.00\nAcme;Acme LTDA;00.000.000/0001-00;01/2024;222;200.00;\n".to_vec();
            assert_eq!(csv, esperado);
            assert_eq!(resumo.quantidade, 2);
            assert_eq!(resumo.total_valor, 30050);
            assert_eq!(resumo.total_meta, 1000);
        }
        _ => panic!("esperava Convertido"),
    }
}

#[test]
fn classificacao_por_nome_apenas() {
    // A vale-named file holding commission-shaped XML is classified as
    // Vale and then fails as malformed; it is never reclassified.
    let d = converter(&b"vales_2024".to_vec(), &comissao_exemplo());
    assert!(matches!(d, Desfecho::DocumentoInvalido));
}

#[test]
fn vales_convertido() {
    let xml = b"<Vales><Empresa><Fantasia>Acme</Fantasia><Razao>Acme LTDA</Razao><CNPJ>1</CNPJ><MesAno>02/2024</MesAno><Funcionario><CPF>333</CPF><Valor>50.25</Valor></Funcionario></Empresa></Vales>".to_vec();
    let d = converter(&b"vales_fev2024".to_vec(), &xml);
    match d {
        Desfecho::Convertido(csv, resumo) => {
            let esperado =
                b"Fantasia;Razao;CNPJ;MesAno;CPF;Valor\nAcme;Acme LTDA;1;02/2024;333;50.25\n"
                    .to_vec();
            assert_eq!(csv, esperado);
            assert_eq!(resumo.quantidade, 1);
            assert_eq!(resumo.total_valor, 5025);
            assert_eq!(resumo.total_meta, 0);
        }
        _ => panic!("esperava Convertido"),
    }
}

#[test]
fn vales_ignora_meta_premio() {
    // The shared payload may carry MetaPremio in a vale document; the
    // column is omitted and the secondary total stays zero.
    let xml = b"<Vales><Empresa><Fantasia>A</Fantasia><Razao>B</Razao><CNPJ>1</CNPJ><MesAno>03/2024</MesAno><Funcionario><CPF>4</CPF><Valor>10</Valor><MetaPremio>5</MetaPremio></Funcionario></Empresa></Vales>".to_vec();
    let d = converter(&b"vales_mar".to_vec(), &xml);
    match d {
        Desfecho::Convertido(csv, resumo) => {
            assert_eq!(csv, b"Fantasia;Razao;CNPJ;MesAno;CPF;Valor\nA;B;1;03/2024;4;10\n".to_vec());
            assert_eq!(resumo.total_meta, 0);
        }
        _ => panic!("esperava Convertido"),
    }
}

#[test]
fn sem_funcionarios() {
    let xml = b"<Comissao><Empresa><Fantasia>A</Fantasia><Razao>B</Razao><CNPJ>1</CNPJ><MesAno>01/2024</MesAno></Empresa></Comissao>".to_vec();
    let d = converter(&b"comissao_vazio".to_vec(), &xml);
    assert!(matches!(d, Desfecho::SemFuncionarios));
}

#[test]
fn tronco_nao_suportado() {
    let d = converter(&b"relatorio_jan2024".to_vec(), &comissao_exemplo());
    assert!(matches!(d, Desfecho::EsquemaNaoSuportado));
}

#[test]
fn campo_obrigatorio_ausente() {
    // CNPJ missing is a malformed document, not a soft default.
    let xml = b"<Comissao><Empresa><Fantasia>A</Fantasia><Razao>B</Razao><MesAno>01/2024</MesAno></Empresa></Comissao>".to_vec();
    let d = converter(&b"comissao_x".to_vec(), &xml);
    assert!(matches!(d, Desfecho::DocumentoInvalido));
}

#[test]
fn documento_truncado() {
    let xml = b"<Comissao><Empresa><Fantasia>A</Fantasia>".to_vec();
    let d = converter(&b"comissao_x".to_vec(), &xml);
    assert!(matches!(d, Desfecho::DocumentoInvalido));
}

#[test]
fn valor_invalido_vai_verbatim_e_soma_zero() {
    let xml = b"<Comissao><Empresa><Fantasia>A</Fantasia><Razao>B</Razao><CNPJ>1</CNPJ><MesAno>01/2024</MesAno><Funcionario><CPF>1</CPF><Valor>abc</Valor></Funcionario><Funcionario><CPF>2</CPF><Valor>3.50</Valor></Funcionario></Empresa></Comissao>".to_vec();
    let d = converter(&b"comissao_x".to_vec(), &xml);
    match d {
        Desfecho::Convertido(csv, resumo) => {
            let texto = String::from_utf8(csv).unwrap();
            assert!(texto.contains(";1;abc;\n"));
            assert_eq!(resumo.total_valor, 350);
            assert_eq!(resumo.quantidade, 2);
        }
        _ => panic!("esperava Convertido"),
    }
}

#[test]
fn prologo_e_espacos_aceitos() {
    let xml = b"  <?xml version=\"1.0\" encoding=\"UTF-8\"?>\n<Comissao> <Empresa> <Fantasia>A</Fantasia> <Razao>B</Razao> <CNPJ>1</CNPJ> <MesAno>01/2024</MesAno> <Funcionario> <CPF>9</CPF> <Valor>1.00</Valor> </Funcionario> </Empresa> </Comissao>  ".to_vec();
    let d = converter(&b"comissao_x".to_vec(), &xml);
    match d {
        Desfecho::Convertido(_, resumo) => {
            assert_eq!(resumo.quantidade, 1);
            assert_eq!(resumo.total_valor, 100);
        }
        _ => panic!("esperava Convertido"),
    }
}

#[test]
fn campo_com_delimitador_sai_entre_aspas() {
    let xml = b"<Comissao><Empresa><Fantasia>A;B</Fantasia><Razao>diz \"oi\"</Razao><CNPJ>1</CNPJ><MesAno>01/2024</MesAno><Funcionario><CPF>1</CPF><Valor>2</Valor></Funcionario></Empresa></Comissao>".to_vec();
    let d = converter(&b"comissao_x".to_vec(), &xml);
    match d {
        Desfecho::Convertido(csv, _) => {
            let texto = String::from_utf8(csv).unwrap();
            assert!(texto.contains("\"A;B\""));
            assert!(texto.contains("\"diz \"\"oi\"\"\""));
        }
        _ => panic!("esperava Convertido"),
    }
}

#[test]
fn classificador() {
    assert_eq!(classificar(&b"comissao_jan2024".to_vec()), Some(Variante::Comissao));
    assert_eq!(classificar(&b"vales_2024".to_vec()), Some(Variante::Vales));
    assert_eq!(classificar(&b"comissao".to_vec()), Some(Variante::Comissao));
    assert_eq!(classificar(&b"Comissao_x".to_vec()), None);
    assert_eq!(classificar(&b"outro_arquivo".to_vec()), None);
    assert_eq!(classificar(&b"".to_vec()), None);
}

#[test]
fn coercao_decimal() {
    assert_eq!(coagir_texto(&b"100.50".to_vec()), 10050);
    assert_eq!(coagir_texto(&b"200.00".to_vec()), 20000);
    assert_eq!(coagir_texto(&b"7".to_vec()), 700);
    assert_eq!(coagir_texto(&b"-10.5".to_vec()), -1050);
    assert_eq!(coagir_texto(&b"+3".to_vec()), 300);
    assert_eq!(coagir_texto(&b"10.505".to_vec()), 1050);
    assert_eq!(coagir_texto(&b"abc".to_vec()), 0);
    assert_eq!(coagir_texto(&b"".to_vec()), 0);
    assert_eq!(coagir_texto(&b"10.".to_vec()), 0);
    assert_eq!(coagir_texto(&b".5".to_vec()), 0);
    assert_eq!(coagir_texto(&b"1,5".to_vec()), 0);
    assert_eq!(coagir_texto(&b"99999999999999".to_vec()), 9999999999999900);
    assert_eq!(coagir_texto(&b"999999999999999".to_vec()), 0);
}
