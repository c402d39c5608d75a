//! The sum of the bytes of a text, paired with a copy of its source.

use vstd::prelude::*;
use vstd::utf8::encode_utf8;
use crate::leitor::Leitor;

verus! {

/// The sum of the bytes in `b`, each read as an unsigned value.
pub open spec fn soma(b: Seq<u8>) -> int
    decreases b.len(),
{
    if b.len() == 0 {
        0
    } else {
        soma(b.drop_last()) + b.last()
    }
}

/// The sum of the bytes of `t` encoded as UTF-8.
pub open spec fn soma_texto(t: Seq<char>) -> int {
    soma(encode_utf8(t))
}

/// The largest number of bytes whose sum is sure to fit in an `i64`.
pub const LIMITE_BYTES: u64 = 36170086419038336;

/// A copy of a source, with the sum of the bytes of its text.
#[derive(Debug, Clone)]
pub struct Bytes<T> {
    source: T,
    byte_count: i64,
}

impl<T: Leitor + Clone> Bytes<T> {
    /// The copy of the source.
    pub closed spec fn fonte(&self) -> T {
        self.source
    }

    /// The sum of the bytes.
    pub closed spec fn total(&self) -> int {
        self.byte_count as int
    }

    /// Sums the bytes of the text of `x`, encoded as UTF-8, and keeps a clone
    /// of `x`.
    pub fn contar_bytes(x: &T) -> (r: Bytes<T>)
        requires
            encode_utf8(x.texto()).len() <= LIMITE_BYTES,
        ensures
            r.total() == soma_texto(x.texto()),
            cloned(*x, r.fonte()),
    {
        let b = x.conteudo().as_str().as_bytes();
        let mut c: i64 = 0;
        let mut i: usize = 0;
        while i < b.len()
            invariant
                b@ == encode_utf8(x.texto()),
                b@.len() <= LIMITE_BYTES,
                i <= b@.len(),
                0 <= c <= 255 * i,
                c == soma(b@.take(i as int)),
            decreases b@.len() - i,
        {
            assert(b@.take(i + 1).drop_last() =~= b@.take(i as int));
            c = c + b[i] as i64;
            i = i + 1;
        }
        assert(b@.take(i as int) =~= b@);
        Bytes { source: x.clone(), byte_count: c }
    }

    /// The copy of the source.
    pub fn source(&self) -> (r: &T)
        ensures
            *r == self.fonte(),
    {
        &self.source
    }

    /// The sum of the bytes.
    pub fn byte_count(&self) -> (r: i64)
        ensures
            r == self.total(),
    {
        self.byte_count
    }
}

} // verus!
