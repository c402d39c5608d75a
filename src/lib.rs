//! A small text-file reader: word-order reversal, byte sums and duplicates,
//! each stated over the file's text and proved.

pub mod palavras;
pub mod leitor;
pub mod arquivo;
pub mod bytes;
