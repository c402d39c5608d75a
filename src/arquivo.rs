//! A text loaded from a named file.

use vstd::prelude::*;
use vstd::string::*;
use vstd::utf8::encode_utf8;
use crate::leitor::Leitor;

verus! {

/// The suffix appended to a file's name to name its duplicate.
pub open spec fn sufixo() -> Seq<char> {
    seq!['.', 'd', 'u', 'p', 'l', 'i', 'c', 'a', 'd', 'o']
}

/// A file's name and the text it held when it was read.
#[derive(Debug)]
pub struct Arquivo {
    nome: String,
    inner: String,
}

impl Arquivo {
    /// The name the file was read from.
    pub closed spec fn nome_spec(&self) -> Seq<char> {
        self.nome@
    }

    /// The file named `nome`, holding the text `conteudo`.
    pub fn new(nome: &str, conteudo: String) -> (r: Arquivo)
        ensures
            r.nome_spec() == nome@,
            r.texto() == conteudo@,
    {
        Arquivo { nome: String::from_str(nome), inner: conteudo }
    }

    /// The name the file was read from.
    pub fn nome(&self) -> (r: &String)
        ensures
            r@ == self.nome_spec(),
    {
        &self.nome
    }

    /// What a duplicate of the file is: its name, the file's name followed by
    /// `.duplicado`, and its bytes, those of the text encoded as UTF-8.
    pub fn duplicar(&self) -> (r: (String, Vec<u8>))
        ensures
            r.0@ == self.nome_spec() + sufixo(),
            r.1@ == encode_utf8(self.texto()),
    {
        let mut nome = self.nome.clone();
        let s = ".duplicado";
        proof {
            reveal_strlit(".duplicado");
            assert(s@ =~= sufixo());
        }
        nome.append(s);
        (nome, self.inner.as_str().as_bytes_vec())
    }

    /// The text, as the file's printed form.
    pub fn exibir(&self) -> (r: String)
        ensures
            r@ == self.texto(),
    {
        self.inner.clone()
    }
}

impl Clone for Arquivo {
    fn clone(&self) -> (r: Self)
        ensures
            r == *self,
    {
        Arquivo { nome: self.nome.clone(), inner: self.inner.clone() }
    }
}

impl Leitor for Arquivo {
    closed spec fn texto(&self) -> Seq<char> {
        self.inner@
    }

    fn conteudo(&self) -> (r: &String) {
        &self.inner
    }
}

} // verus!
