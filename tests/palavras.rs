use leitor_arquivos::arquivo::Arquivo;
use leitor_arquivos::leitor::Leitor;
use leitor_arquivos::palavras::{eh_espaco, inverte_palavras, separa_palavras};

fn arquivo(texto: &str) -> Arquivo {
    Arquivo::new("skylab.txt", texto.to_string())
}

#[test]
fn ola_mundo_inverte_sem_separador() {
    assert_eq!(arquivo("ola mundo").reverter_conteudo(), "mundoola");
}

#[test]
fn texto_vazio_inverte_para_vazio() {
    assert_eq!(arquivo("").reverter_conteudo(), "");
}

#[test]
fn so_espacos_inverte_para_vazio() {
    assert_eq!(arquivo("  \t\n \r ").reverter_conteudo(), "");
}

#[test]
fn inverter_duas_vezes_nao_reconstroi() {
    let texto = "um  dois\ttres\n";
    let uma = inverte_palavras(texto);
    assert_eq!(uma, "tresdoisum");
    assert_eq!(inverte_palavras(&uma), uma);
    assert_ne!(inverte_palavras(&uma), texto);
}

#[test]
fn espacos_nas_pontas_sao_descartados() {
    assert_eq!(inverte_palavras("  a b  c  "), "cba");
}

#[test]
fn espacos_unicode_separam_palavras() {
    assert_eq!(inverte_palavras("a\u{3000}b\u{a0}c\u{2028}d"), "dcba");
    assert_eq!(inverte_palavras("a\u{200b}b"), "a\u{200b}b");
}

#[test]
fn separa_em_palavras_na_ordem() {
    let ws = separa_palavras(" ola\n\nmundo  cruel ");
    assert_eq!(ws, vec!["ola".to_string(), "mundo".to_string(), "cruel".to_string()]);
    assert!(separa_palavras("   ").is_empty());
}

#[test]
fn eh_espaco_concorda_com_is_whitespace() {
    for u in 0u32..0x110000 {
        if let Some(c) = char::from_u32(u) {
            assert_eq!(eh_espaco(c), c.is_whitespace(), "{:x}", u);
        }
    }
}
