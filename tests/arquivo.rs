use leitor_arquivos::arquivo::Arquivo;
use leitor_arquivos::bytes::Bytes;
use leitor_arquivos::leitor::Leitor;

#[test]
fn vazio_soma_zero() {
    let a = Arquivo::new("skylab.txt", String::new());
    let b = Bytes::contar_bytes(&a);
    assert_eq!(b.byte_count(), 0);
}

#[test]
fn letra_a_soma_65() {
    let a = Arquivo::new("skylab.txt", "A".to_string());
    assert_eq!(Bytes::contar_bytes(&a).byte_count(), 65);
}

#[test]
fn soma_usa_bytes_utf8() {
    let a = Arquivo::new("x", "é".to_string());
    assert_eq!(Bytes::contar_bytes(&a).byte_count(), 0xc3 + 0xa9);
    let t = "ola mundo";
    let a = Arquivo::new("x", t.to_string());
    let esperado: i64 = t.bytes().map(|b| b as i64).sum();
    assert_eq!(Bytes::contar_bytes(&a).byte_count(), esperado);
    assert_eq!(esperado, 895);
}

#[test]
fn soma_guarda_copia_da_fonte() {
    let a = Arquivo::new("skylab.txt", "ola mundo".to_string());
    let b = Bytes::contar_bytes(&a);
    assert_eq!(b.source().conteudo(), "ola mundo");
    assert_eq!(b.source().nome(), "skylab.txt");
}

#[test]
fn duplicado_tem_nome_e_bytes() {
    let a = Arquivo::new("skylab.txt", "ola\nmundo é".to_string());
    let (nome, bytes) = a.duplicar();
    assert_eq!(nome, "skylab.txt.duplicado");
    assert_eq!(bytes, "ola\nmundo é".as_bytes().to_vec());
}

#[test]
fn duplicado_de_vazio_e_vazio() {
    let a = Arquivo::new("skylab.txt", String::new());
    let (nome, bytes) = a.duplicar();
    assert_eq!(nome, "skylab.txt.duplicado");
    assert!(bytes.is_empty());
}

#[test]
fn exibir_e_clone_guardam_o_texto() {
    let a = Arquivo::new("f", "x y".to_string());
    assert_eq!(a.exibir(), "x y");
    let c = a.clone();
    assert_eq!(c.conteudo(), a.conteudo());
    assert_eq!(c.nome(), a.nome());
}
