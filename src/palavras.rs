//! Splitting text into whitespace-delimited words, and joining the words
//! back in reverse order with no separator.

use vstd::prelude::*;
use vstd::string::*;

verus! {

/// The characters with Unicode's White_Space property, the set that
/// `char::is_whitespace` tests.
pub open spec fn espaco(c: char) -> bool {
    let u = c as u32;
    (0x9 <= u && u <= 0xd) || u == 0x20 || u == 0x85 || u == 0xa0 || u == 0x1680
        || (0x2000 <= u && u <= 0x200a) || u == 0x2028 || u == 0x2029 || u == 0x202f
        || u == 0x205f || u == 0x3000
}

/// Whether `c` separates words.
pub fn eh_espaco(c: char) -> (r: bool)
    ensures
        r == espaco(c),
{
    let u = c as u32;
    (0x9 <= u && u <= 0xd) || u == 0x20 || u == 0x85 || u == 0xa0 || u == 0x1680
        || (0x2000 <= u && u <= 0x200a) || u == 0x2028 || u == 0x2029 || u == 0x202f
        || u == 0x205f || u == 0x3000
}

/// The word made of `atual` alone, if it is not empty.
pub open spec fn fecha(atual: Seq<char>) -> Seq<Seq<char>> {
    if atual.len() == 0 {
        Seq::empty()
    } else {
        seq![atual]
    }
}

/// The words of `s`, read left to right, when the word `atual` is already
/// open before it.
pub open spec fn palavras_de(s: Seq<char>, atual: Seq<char>) -> Seq<Seq<char>>
    decreases s.len(),
{
    if s.len() == 0 {
        fecha(atual)
    } else if espaco(s[0]) {
        fecha(atual) + palavras_de(s.drop_first(), Seq::empty())
    } else {
        palavras_de(s.drop_first(), atual.push(s[0]))
    }
}

/// The maximal runs of non-whitespace characters of `s`, in order.
pub open spec fn palavras(s: Seq<char>) -> Seq<Seq<char>> {
    palavras_de(s, Seq::empty())
}

/// The words joined end to end, with nothing between them.
pub open spec fn juntas(ws: Seq<Seq<char>>) -> Seq<char>
    decreases ws.len(),
{
    if ws.len() == 0 {
        Seq::empty()
    } else {
        juntas(ws.drop_last()) + ws.last()
    }
}

/// The words of `s` in reverse order, joined with no separator.
pub open spec fn invertidas(s: Seq<char>) -> Seq<char> {
    juntas(palavras(s).reverse())
}

/// Whether `s` holds no whitespace.
pub open spec fn sem_espaco(s: Seq<char>) -> bool {
    forall|i: int| 0 <= i < s.len() ==> !espaco(#[trigger] s[i])
}

proof fn palavras_sem_espaco(s: Seq<char>, atual: Seq<char>)
    requires
        sem_espaco(atual),
    ensures
        forall|k: int|
            0 <= k < palavras_de(s, atual).len() ==> sem_espaco(#[trigger] palavras_de(s, atual)[k]),
    decreases s.len(),
{
    let a = fecha(atual);
    assert forall|k: int| 0 <= k < a.len() implies sem_espaco(#[trigger] a[k]) by {
        assert(a[k] == atual);
    }
    if s.len() > 0 {
        if espaco(s[0]) {
            palavras_sem_espaco(s.drop_first(), Seq::empty());
            let b = palavras_de(s.drop_first(), Seq::empty());
            assert(palavras_de(s, atual) == a + b);
            assert forall|k: int| 0 <= k < (a + b).len() implies sem_espaco(#[trigger] (a + b)[k]) by {
                if k >= a.len() {
                    assert((a + b)[k] == b[k - a.len()]);
                } else {
                    assert((a + b)[k] == a[k]);
                }
            }
        } else {
            let p = atual.push(s[0]);
            assert forall|i: int| 0 <= i < p.len() implies !espaco(#[trigger] p[i]) by {
                if i < atual.len() {
                    assert(p[i] == atual[i]);
                }
            }
            palavras_sem_espaco(s.drop_first(), p);
            assert(palavras_de(s, atual) == palavras_de(s.drop_first(), p));
        }
    } else {
        assert(palavras_de(s, atual) == a);
    }
}

proof fn juntas_sem_espaco(ws: Seq<Seq<char>>)
    requires
        forall|k: int| 0 <= k < ws.len() ==> sem_espaco(#[trigger] ws[k]),
    ensures
        sem_espaco(juntas(ws)),
    decreases ws.len(),
{
    if ws.len() > 0 {
        let init = ws.drop_last();
        assert forall|k: int| 0 <= k < init.len() implies sem_espaco(#[trigger] init[k]) by {
            assert(init[k] == ws[k]);
        }
        juntas_sem_espaco(init);
        let a = juntas(init);
        let b = ws.last();
        assert(sem_espaco(b));
        assert forall|i: int| 0 <= i < (a + b).len() implies !espaco(#[trigger] (a + b)[i]) by {
            if i >= a.len() {
                assert((a + b)[i] == b[i - a.len()]);
            }
        }
    }
}

proof fn palavras_de_sem_espaco(s: Seq<char>, atual: Seq<char>)
    requires
        sem_espaco(s),
    ensures
        palavras_de(s, atual) == fecha(atual + s),
    decreases s.len(),
{
    if s.len() == 0 {
        assert(atual + s =~= atual);
    } else {
        assert(!espaco(s[0]));
        let r = s.drop_first();
        assert(sem_espaco(r)) by {
            assert forall|i: int| 0 <= i < r.len() implies !espaco(#[trigger] r[i]) by {
                assert(r[i] == s[i + 1]);
            }
        }
        palavras_de_sem_espaco(r, atual.push(s[0]));
        assert(atual.push(s[0]) + r =~= atual + s);
    }
}

/// The result of reversing the word order holds no whitespace, so reversing
/// it again gives it back unchanged: a text of two or more words is not
/// rebuilt, since the separators are gone.
pub proof fn lei_inversao_idempotente(t: Seq<char>)
    ensures
        sem_espaco(invertidas(t)),
        invertidas(invertidas(t)) == invertidas(t),
{
    let ws = palavras(t);
    palavras_sem_espaco(t, Seq::empty());
    assert forall|k: int| 0 <= k < ws.reverse().len() implies sem_espaco(#[trigger] ws.reverse()[k]) by {
        assert(ws.reverse()[k] == ws[ws.len() - 1 - k]);
    }
    juntas_sem_espaco(ws.reverse());
    let u = invertidas(t);
    palavras_de_sem_espaco(u, Seq::empty());
    assert(Seq::<char>::empty() + u =~= u);
    assert(palavras(u) == fecha(u));
    assert(juntas(Seq::<Seq<char>>::empty()) == Seq::<char>::empty());
    if u.len() == 0 {
        assert(fecha(u).reverse() =~= Seq::<Seq<char>>::empty());
        assert(u =~= Seq::<char>::empty());
    } else {
        assert(fecha(u).reverse() =~= seq![u]);
        assert(seq![u].drop_last() =~= Seq::<Seq<char>>::empty());
        assert(juntas(seq![u]) == juntas(seq![u].drop_last()) + u);
    }
}

/// A text with no words reverses to the empty text.
pub proof fn lei_sem_palavras(t: Seq<char>)
    requires
        palavras(t).len() == 0,
    ensures
        invertidas(t) == Seq::<char>::empty(),
{
    assert(palavras(t).reverse() =~= Seq::<Seq<char>>::empty());
}

/// Relies on `String::push`: appends `c` to the end of `s`.
#[verifier::external_body]
fn empurra(s: &mut String, c: char)
    ensures
        final(s)@ == old(s)@.push(c),
{
    s.push(c)
}

/// The views of a list of strings.
pub open spec fn vistas(v: Seq<String>) -> Seq<Seq<char>> {
    v.map_values(|w: String| w@)
}

/// Splits `s` on runs of whitespace into its words, in order.
pub fn separa_palavras(s: &str) -> (r: Vec<String>)
    ensures
        vistas(r@) == palavras(s@),
{
    broadcast use axiom_spec_iter;

    let mut lista: Vec<String> = Vec::new();
    let mut atual = String::new();
    proof {
        assert(s@.skip(0) =~= s@);
        assert(vistas(lista@) =~= Seq::<Seq<char>>::empty());
    }
    for c in it: s.chars()
        invariant
            it.seq() == s@,
            it.index() <= s@.len(),
            palavras(s@) == vistas(lista@) + palavras_de(s@.skip(it.index() as int), atual@),
    {
        let ghost i = it.index() as int;
        assert(s@.skip(i).drop_first() == s@.skip(i + 1));
        assert(s@.skip(i)[0] == c);
        if eh_espaco(c) {
            let ghost antes = vistas(lista@);
            assert(palavras_de(s@.skip(i), atual@) == fecha(atual@) + palavras_de(
                s@.skip(i + 1),
                Seq::empty(),
            ));
            let ghost old_atual = atual@;
            if !atual.as_str().is_empty() {
                let w = atual;
                lista.push(w);
                atual = String::new();
                assert(vistas(lista@) == vistas(lista@.drop_last()) + seq![w@]);
            }
            assert(vistas(lista@) =~= antes + fecha(old_atual));
            assert(atual@ =~= Seq::<char>::empty());
            assert(vistas(lista@) + palavras_de(s@.skip(i + 1), atual@) =~= antes + (fecha(
                old_atual,
            ) + palavras_de(s@.skip(i + 1), Seq::empty())));
        } else {
            assert(palavras_de(s@.skip(i), atual@) == palavras_de(
                s@.skip(i + 1),
                atual@.push(c),
            ));
            empurra(&mut atual, c);
        }
    }
    proof {
        assert(s@.skip(s@.len() as int) =~= Seq::<char>::empty());
    }
    if !atual.as_str().is_empty() {
        lista.push(atual);
    }
    assert(vistas(lista@) =~= palavras(s@));
    lista
}

/// The words of `s` in reverse order, joined with no separator: the
/// whitespace of `s` is dropped, not kept between the words.
pub fn inverte_palavras(s: &str) -> (r: String)
    ensures
        r@ == invertidas(s@),
{
    let lista = separa_palavras(s);
    let ghost ws = vistas(lista@).reverse();
    let n = lista.len();
    let mut r = String::new();
    let mut i: usize = n;
    proof {
        assert(ws.take(0) =~= Seq::<Seq<char>>::empty());
    }
    while i > 0
        invariant
            i <= n == lista@.len(),
            ws == vistas(lista@).reverse(),
            r@ == juntas(ws.take(n - i)),
        decreases i,
    {
        i = i - 1;
        r.append(lista[i].as_str());
        proof {
            let k = (n - i - 1) as int;
            assert(ws.take(k + 1).drop_last() =~= ws.take(k));
            assert(ws[k] == lista@[i as int]@);
        }
    }
    assert(ws.take(n as int) =~= ws);
    r
}

} // verus!
