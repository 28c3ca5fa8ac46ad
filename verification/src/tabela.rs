//! Association tables: vectors of (key, value) pairs with no repeated key.
//! They model the host's durable records keyed by composite tuples, and
//! every table of the ledger is one of them.

use vstd::prelude::*;
use vstd::laws_eq::obeys_concrete_eq;

verus! {

/// No two entries share a key.
pub open spec fn chaves_unicas<K, V>(s: Seq<(K, V)>) -> bool {
    forall|i: int, j: int| 0 <= i < j < s.len() ==> (#[trigger] s[i]).0 != (#[trigger] s[j]).0
}

/// Some entry carries this key.
pub open spec fn tem_chave<K, V>(s: Seq<(K, V)>, chave: K) -> bool {
    exists|i: int| 0 <= i < s.len() && (#[trigger] s[i]).0 == chave
}

/// The position of the entry with this key, when one exists.
pub open spec fn indice_da_chave<K, V>(s: Seq<(K, V)>, chave: K) -> int {
    choose|i: int| 0 <= i < s.len() && (#[trigger] s[i]).0 == chave
}

/// The value stored under this key, when one exists.
pub open spec fn valor_da_chave<K, V>(s: Seq<(K, V)>, chave: K) -> V {
    s[indice_da_chave(s, chave)].1
}

/// In a table without repeated keys, an entry that carries the key sits at
/// `indice_da_chave` and carries `valor_da_chave`.
pub proof fn lema_indice_da_chave<K, V>(s: Seq<(K, V)>, chave: K, i: int)
    requires
        chaves_unicas(s),
        0 <= i < s.len(),
        s[i].0 == chave,
    ensures
        tem_chave(s, chave),
        indice_da_chave(s, chave) == i,
        valor_da_chave(s, chave) == s[i].1,
{
    assert(tem_chave(s, chave));
    let j = indice_da_chave(s, chave);
    assert(0 <= j < s.len() && s[j].0 == chave);
    if j < i {
        assert(s[j].0 != s[i].0);
    } else if i < j {
        assert(s[i].0 != s[j].0);
    }
}

/// Finds the position of the entry with this key.
pub fn indice_de<K: PartialEq, V>(tab: &Vec<(K, V)>, chave: &K) -> (r: Option<usize>)
    requires
        obeys_concrete_eq::<K>(),
    ensures
        match r {
            Some(i) => i < tab@.len() && tab@[i as int].0 == *chave,
            None => !tem_chave(tab@, *chave),
        },
{
    proof {
        reveal(vstd::laws_eq::obeys_concrete_eq);
    }
    let mut i: usize = 0;
    while i < tab.len()
        invariant
            obeys_concrete_eq::<K>(),
            i <= tab@.len(),
            forall|j: int| 0 <= j < i ==> (#[trigger] tab@[j]).0 != *chave,
        decreases tab@.len() - i,
    {
        proof {
            reveal(vstd::laws_eq::obeys_concrete_eq);
        }
        if tab[i].0 == *chave {
            return Some(i);
        }
        i = i + 1;
    }
    None
}

/// Replacing the entry at a position, key kept, leaves every other key's
/// presence and value as they were.
proof fn lema_atualizar<K, V>(s: Seq<(K, V)>, i: int, par: (K, V))
    requires
        chaves_unicas(s),
        0 <= i < s.len(),
        s[i].0 == par.0,
    ensures
        chaves_unicas(s.update(i, par)),
        tem_chave(s.update(i, par), par.0),
        valor_da_chave(s.update(i, par), par.0) == par.1,
        forall|k: K|
            k != par.0 ==> #[trigger] tem_chave(s.update(i, par), k) == tem_chave(s, k),
        forall|k: K|
            k != par.0 && tem_chave(s, k) ==> #[trigger] valor_da_chave(s.update(i, par), k)
                == valor_da_chave(s, k),
{
    let s2 = s.update(i, par);
    assert forall|a: int, b: int| 0 <= a < b < s2.len() implies (#[trigger] s2[a]).0
        != (#[trigger] s2[b]).0 by {
        assert(s[a].0 != s[b].0);
    }
    lema_indice_da_chave(s2, par.0, i);
    assert forall|k: K| k != par.0 implies #[trigger] tem_chave(s2, k) == tem_chave(s, k) by {
        if tem_chave(s, k) {
            let w = indice_da_chave(s, k);
            assert(s2[w].0 == k);
            assert(tem_chave(s2, k));
        }
        if tem_chave(s2, k) {
            let w = indice_da_chave(s2, k);
            assert(s[w].0 == k);
            assert(tem_chave(s, k));
        }
    }
    assert forall|k: K| k != par.0 && tem_chave(s, k) implies #[trigger] valor_da_chave(s2, k)
        == valor_da_chave(s, k) by {
        let w = indice_da_chave(s, k);
        lema_indice_da_chave(s, k, w);
        assert(s2[w].0 == k);
        lema_indice_da_chave(s2, k, w);
    }
}

/// Appending an entry under a fresh key leaves every other key's presence
/// and value as they were.
proof fn lema_acrescentar<K, V>(s: Seq<(K, V)>, par: (K, V))
    requires
        chaves_unicas(s),
        !tem_chave(s, par.0),
    ensures
        chaves_unicas(s.push(par)),
        tem_chave(s.push(par), par.0),
        valor_da_chave(s.push(par), par.0) == par.1,
        forall|k: K| k != par.0 ==> #[trigger] tem_chave(s.push(par), k) == tem_chave(s, k),
        forall|k: K|
            k != par.0 && tem_chave(s, k) ==> #[trigger] valor_da_chave(s.push(par), k)
                == valor_da_chave(s, k),
{
    let s2 = s.push(par);
    assert forall|a: int, b: int| 0 <= a < b < s2.len() implies (#[trigger] s2[a]).0
        != (#[trigger] s2[b]).0 by {
        if b < s.len() {
            assert(s[a].0 != s[b].0);
        } else {
            assert(s2[b] == par);
            if s[a].0 == par.0 {
                assert(tem_chave(s, par.0));
            }
        }
    }
    lema_indice_da_chave(s2, par.0, s.len() as int);
    assert forall|k: K| k != par.0 implies #[trigger] tem_chave(s2, k) == tem_chave(s, k) by {
        if tem_chave(s, k) {
            let w = indice_da_chave(s, k);
            assert(s2[w].0 == k);
            assert(tem_chave(s2, k));
        }
        if tem_chave(s2, k) {
            let w = indice_da_chave(s2, k);
            assert(0 <= w < s2.len() && s2[w].0 == k);
            assert(w < s.len());
            assert(s[w].0 == k);
            assert(tem_chave(s, k));
        }
    }
    assert forall|k: K| k != par.0 && tem_chave(s, k) implies #[trigger] valor_da_chave(s2, k)
        == valor_da_chave(s, k) by {
        let w = indice_da_chave(s, k);
        lema_indice_da_chave(s, k, w);
        assert(s2[w].0 == k);
        lema_indice_da_chave(s2, k, w);
    }
}

/// Stores a value under a key: replaces the entry when the key is present,
/// appends one when it is not. Every other key keeps its presence and value.
pub fn definir<K: PartialEq + Copy, V>(tab: &mut Vec<(K, V)>, chave: K, valor: V)
    requires
        obeys_concrete_eq::<K>(),
        chaves_unicas(old(tab)@),
    ensures
        chaves_unicas(final(tab)@),
        tem_chave(final(tab)@, chave),
        valor_da_chave(final(tab)@, chave) == valor,
        forall|k: K| k != chave ==> #[trigger] tem_chave(final(tab)@, k) == tem_chave(old(tab)@, k),
        forall|k: K|
            k != chave && tem_chave(old(tab)@, k) ==> #[trigger] valor_da_chave(final(tab)@, k)
                == valor_da_chave(old(tab)@, k),
        tem_chave(old(tab)@, chave) ==> final(tab)@ == old(tab)@.update(
            indice_da_chave(old(tab)@, chave),
            (chave, valor),
        ),
        !tem_chave(old(tab)@, chave) ==> final(tab)@ == old(tab)@.push((chave, valor)),
{
    match indice_de(tab, &chave) {
        Some(i) => {
            let ghost antes = tab@;
            tab[i] = (chave, valor);
            proof {
                lema_indice_da_chave(antes, chave, i as int);
                lema_atualizar(antes, i as int, (chave, valor));
            }
        },
        None => {
            let ghost antes = tab@;
            tab.push((chave, valor));
            proof {
                lema_acrescentar(antes, (chave, valor));
            }
        },
    }
}

/// Dropping the entry at a position leaves every other key's presence and
/// value as they were.
proof fn lema_remover_entrada<K, V>(s: Seq<(K, V)>, i: int)
    requires
        chaves_unicas(s),
        0 <= i < s.len(),
    ensures
        chaves_unicas(s.remove(i)),
        !tem_chave(s.remove(i), s[i].0),
        forall|k: K| k != s[i].0 ==> #[trigger] tem_chave(s.remove(i), k) == tem_chave(s, k),
        forall|k: K|
            k != s[i].0 && tem_chave(s, k) ==> #[trigger] valor_da_chave(s.remove(i), k)
                == valor_da_chave(s, k),
{
    let s2 = s.remove(i);
    assert forall|a: int, b: int| 0 <= a < b < s2.len() implies (#[trigger] s2[a]).0
        != (#[trigger] s2[b]).0 by {
        let a0 = if a < i { a } else { a + 1 };
        let b0 = if b < i { b } else { b + 1 };
        assert(s2[a] == s[a0]);
        assert(s2[b] == s[b0]);
        assert(s[a0].0 != s[b0].0);
    }
    assert forall|w: int| 0 <= w < s2.len() implies (#[trigger] s2[w]).0 != s[i].0 by {
        let w0 = if w < i { w } else { w + 1 };
        assert(s2[w] == s[w0]);
        if w0 < i {
            assert(s[w0].0 != s[i].0);
        } else {
            assert(s[i].0 != s[w0].0);
        }
    }
    assert forall|k: K| k != s[i].0 implies #[trigger] tem_chave(s2, k) == tem_chave(s, k) by {
        if tem_chave(s, k) {
            let w = indice_da_chave(s, k);
            assert(0 <= w < s.len() && s[w].0 == k);
            let w2 = if w < i { w } else { w - 1 };
            assert(s2[w2] == s[w]);
            assert(tem_chave(s2, k));
        }
        if tem_chave(s2, k) {
            let w = indice_da_chave(s2, k);
            let w0 = if w < i { w } else { w + 1 };
            assert(s2[w] == s[w0]);
            assert(tem_chave(s, k));
        }
    }
    assert forall|k: K| k != s[i].0 && tem_chave(s, k) implies #[trigger] valor_da_chave(s2, k)
        == valor_da_chave(s, k) by {
        let w = indice_da_chave(s, k);
        lema_indice_da_chave(s, k, w);
        let w2 = if w < i { w } else { w - 1 };
        assert(s2[w2] == s[w]);
        lema_indice_da_chave(s2, k, w2);
    }
}

/// Drops the entry with this key, when one is present. Every other key keeps
/// its presence and value.
pub fn retirar<K: PartialEq + Copy, V>(tab: &mut Vec<(K, V)>, chave: &K)
    requires
        obeys_concrete_eq::<K>(),
        chaves_unicas(old(tab)@),
    ensures
        chaves_unicas(final(tab)@),
        !tem_chave(final(tab)@, *chave),
        forall|k: K|
            k != *chave ==> #[trigger] tem_chave(final(tab)@, k) == tem_chave(old(tab)@, k),
        forall|k: K|
            k != *chave && tem_chave(old(tab)@, k) ==> #[trigger] valor_da_chave(final(tab)@, k)
                == valor_da_chave(old(tab)@, k),
        tem_chave(old(tab)@, *chave) ==> final(tab)@ == old(tab)@.remove(
            indice_da_chave(old(tab)@, *chave),
        ),
        !tem_chave(old(tab)@, *chave) ==> final(tab)@ == old(tab)@,
{
    match indice_de(tab, chave) {
        Some(i) => {
            let ghost antes = tab@;
            tab.remove(i);
            proof {
                lema_indice_da_chave(antes, *chave, i as int);
                lema_remover_entrada(antes, i as int);
                assert(antes[i as int].0 == *chave);
            }
        },
        None => {},
    }
}

} // verus!
