//! The capability of holding a text read from a named source.

use vstd::prelude::*;
use crate::palavras::{inverte_palavras, invertidas};

verus! {

/// A value that holds a text, with the word-order reversal of that text.
pub trait Leitor {
    /// The text held.
    spec fn texto(&self) -> Seq<char>;

    /// The text held, borrowed.
    fn conteudo(&self) -> (r: &String)
        ensures
            r@ == self.texto(),
    ;

    /// The words of the text in reverse order, joined with no separator.
    fn reverter_conteudo(&self) -> (r: String)
        ensures
            r@ == invertidas(self.texto()),
    {
        inverte_palavras(self.conteudo().as_str())
    }
}

} // verus!
