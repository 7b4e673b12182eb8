use vstd::prelude::*;

verus! {

/// The keys of an association list, in order.
pub open spec fn chaves<V>(s: Seq<(Seq<char>, V)>) -> Seq<Seq<char>> {
    s.map_values(|e: (Seq<char>, V)| e.0)
}

/// The position of the first occurrence of `k` in `ks`, or -1.
pub open spec fn indice(ks: Seq<Seq<char>>, k: Seq<char>) -> int
    decreases ks.len(),
{
    if ks.len() == 0 {
        -1
    } else {
        let r = indice(ks.drop_last(), k);
        if r >= 0 {
            r
        } else if ks.last() == k {
            ks.len() - 1
        } else {
            -1
        }
    }
}

/// What an association list holds for `k`.
pub open spec fn ler<V>(s: Seq<(Seq<char>, V)>, k: Seq<char>) -> Option<V> {
    let i = indice(chaves(s), k);
    if i >= 0 {
        Some(s[i].1)
    } else {
        None
    }
}

/// The association list with `k` bound to `v`: in place where `k` is bound,
/// at the end where it is not.
pub open spec fn gravar<V>(s: Seq<(Seq<char>, V)>, k: Seq<char>, v: V) -> Seq<(Seq<char>, V)> {
    let i = indice(chaves(s), k);
    if i >= 0 {
        s.update(i, (k, v))
    } else {
        s.push((k, v))
    }
}

/// `indice` finds the first occurrence, and -1 only where there is none.
pub proof fn lemma_indice(ks: Seq<Seq<char>>, k: Seq<char>)
    ensures
        -1 <= indice(ks, k) < ks.len(),
        indice(ks, k) >= 0 ==> ks[indice(ks, k)] == k,
        forall|j: int| 0 <= j < indice(ks, k) ==> ks[j] != k,
        indice(ks, k) == -1 ==> forall|j: int| 0 <= j < ks.len() ==> ks[j] != k,
        indice(ks, k) == -1 <==> !ks.contains(k),
    decreases ks.len(),
{
    if ks.len() > 0 {
        lemma_indice(ks.drop_last(), k);
        assert forall|j: int| 0 <= j < ks.len() - 1 implies ks.drop_last()[j] == ks[j] by {}
    }
    if indice(ks, k) == -1 {
        assert(forall|j: int| 0 <= j < ks.len() ==> ks[j] != k);
    } else {
        assert(ks[indice(ks, k)] == k);
    }
}

/// The first position `i` with `ks[i] == k` is `indice(ks, k)`.
pub proof fn lemma_indice_primeiro(ks: Seq<Seq<char>>, k: Seq<char>, i: int)
    requires
        0 <= i < ks.len(),
        ks[i] == k,
        forall|j: int| 0 <= j < i ==> ks[j] != k,
    ensures
        indice(ks, k) == i,
{
    lemma_indice(ks, k);
}

/// Keys keep their first positions where a list is extended at the end.
pub proof fn lemma_indice_push(ks: Seq<Seq<char>>, x: Seq<char>, k: Seq<char>)
    ensures
        indice(ks.push(x), k) == if indice(ks, k) >= 0 {
            indice(ks, k)
        } else if x == k {
            ks.len() as int
        } else {
            -1
        },
{
    assert(ks.push(x).drop_last() =~= ks);
}

/// Reading a key back after writing it gives what was written, and writing
/// one key leaves what every other key reads unchanged.
pub proof fn lei_ler_apos_gravar<V>(s: Seq<(Seq<char>, V)>, k: Seq<char>, v: V, outra: Seq<char>)
    ensures
        ler(gravar(s, k, v), k) == Some(v),
        outra != k ==> ler(gravar(s, k, v), outra) == ler(s, outra),
{
    let ks = chaves(s);
    let i = indice(ks, k);
    lemma_indice(ks, k);
    lemma_indice(ks, outra);
    if i >= 0 {
        assert(chaves(gravar(s, k, v)) =~= ks);
    } else {
        assert(chaves(gravar(s, k, v)) =~= ks.push(k));
        lemma_indice_push(ks, k, k);
        lemma_indice_push(ks, k, outra);
    }
}

/// Writing keeps the keys of an association list distinct.
pub proof fn lei_gravar_sem_repeticao<V>(s: Seq<(Seq<char>, V)>, k: Seq<char>, v: V)
    requires
        chaves(s).no_duplicates(),
    ensures
        chaves(gravar(s, k, v)).no_duplicates(),
{
    let ks = chaves(s);
    lemma_indice(ks, k);
    if indice(ks, k) >= 0 {
        assert(chaves(gravar(s, k, v)) =~= ks);
    } else {
        assert(chaves(gravar(s, k, v)) =~= ks.push(k));
    }
}

/// The position of the first entry with key `k`.
pub fn achar<V>(v: &Vec<(String, V)>, k: &String) -> (r: Option<usize>)
    ensures
        match r {
            Some(i) => i < v.len() && i == indice(
                v@.map_values(|e: (String, V)| e.0@),
                k@,
            ),
            None => indice(v@.map_values(|e: (String, V)| e.0@), k@) == -1,
        },
{
    let ghost ks = v@.map_values(|e: (String, V)| e.0@);
    let mut i: usize = 0;
    while i < v.len()
        invariant
            i <= v.len(),
            ks == v@.map_values(|e: (String, V)| e.0@),
            forall|j: int| 0 <= j < i ==> ks[j] != k@,
        decreases v.len() - i,
    {
        if v[i].0 == *k {
            proof {
                lemma_indice_primeiro(ks, k@, i as int);
            }
            return Some(i);
        }
        i += 1;
    }
    proof {
        lemma_indice(ks, k@);
        if indice(ks, k@) >= 0 {
            assert(ks[indice(ks, k@)] == k@);
        }
    }
    None
}

} // verus!
