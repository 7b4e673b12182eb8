use vstd::prelude::*;

use crate::binario::{dividir, razao, soma, somar, UM};
use crate::texto::{contem_string, termos, termos_relevantes, vistas};

verus! {

/// How many entries of `a` also occur in `b`.
pub open spec fn comuns(a: Seq<Seq<char>>, b: Seq<Seq<char>>) -> nat
    decreases a.len(),
{
    if a.len() == 0 {
        0
    } else {
        comuns(a.drop_last(), b) + if b.contains(a.last()) {
            1nat
        } else {
            0nat
        }
    }
}

/// How many entries of `b` do not occur in `a`.
pub open spec fn fora(b: Seq<Seq<char>>, a: Seq<Seq<char>>) -> nat
    decreases b.len(),
{
    if b.len() == 0 {
        0
    } else {
        fora(b.drop_last(), a) + if a.contains(b.last()) {
            0nat
        } else {
            1nat
        }
    }
}

/// The size of the union of two lists of distinct terms.
pub open spec fn uniao(a: Seq<Seq<char>>, b: Seq<Seq<char>>) -> nat {
    a.len() + fora(b, a)
}

/// The Jaccard similarity of two texts, `comuns / uniao` over their sets of
/// terms, kept as the exact fraction; it is zero where the union is empty.
#[derive(Clone, Copy)]
pub struct Similaridade {
    pub comuns: usize,
    pub uniao: usize,
}

/// 0.2 in single precision, in counts of 2^-64: how similar an episode is
/// to be recalled.
pub const LIMIAR_EPISODIO: i128 = 3689348869717491712;
/// 0.24 in single precision: how high a belief scores to be recalled.
pub const LIMIAR_FATO: i128 = 4427218478734245888;

/// The similarity as a single-precision number: `comuns / uniao`, each made
/// single precision and divided in single precision (`comuns` taken as at
/// most `uniao`, as the terms in common are among all terms); 0 where there
/// are no terms.
pub open spec fn valor(s: Similaridade) -> int {
    if s.uniao == 0 {
        0
    } else if s.comuns > s.uniao {
        UM as int
    } else {
        razao(s.comuns as nat, s.uniao as nat)
    }
}

/// The similarity of two texts as a single-precision number, over the
/// counts of their terms.
pub open spec fn valor_textual(a: Seq<char>, b: Seq<char>) -> int {
    let u = uniao(termos(a), termos(b));
    if u == 0 {
        0
    } else {
        razao(comuns(termos(a), termos(b)), u)
    }
}

/// Whether the similarity is greater than `limite`.
pub open spec fn supera(s: Similaridade, limite: int) -> bool {
    valor(s) > limite
}

/// Whether `a` is a greater similarity than `b`.
pub open spec fn mais_similar(a: Similaridade, b: Similaridade) -> bool {
    valor(a) > valor(b)
}

/// The similarity of two texts over their terms.
pub open spec fn similaridade(a: Seq<char>, b: Seq<char>) -> Similaridade {
    Similaridade {
        comuns: comuns(termos(a), termos(b)) as usize,
        uniao: uniao(termos(a), termos(b)) as usize,
    }
}

pub proof fn lemma_comuns_limitado(a: Seq<Seq<char>>, b: Seq<Seq<char>>)
    ensures
        comuns(a, b) <= a.len(),
    decreases a.len(),
{
    if a.len() > 0 {
        lemma_comuns_limitado(a.drop_last(), b);
    }
}

/// Over a list of distinct entries, `comuns` counts the entries the two
/// lists share.
pub proof fn lemma_comuns_conjunto(a: Seq<Seq<char>>, b: Seq<Seq<char>>)
    requires
        a.no_duplicates(),
    ensures
        comuns(a, b) == a.to_set().intersect(b.to_set()).len(),
    decreases a.len(),
{
    broadcast use vstd::set::group_set_axioms, vstd::seq_lib::seq_to_set_is_finite;

    if a.len() == 0 {
        assert(a.to_set().intersect(b.to_set()) =~= Set::empty());
    } else {
        let a0 = a.drop_last();
        let x = a.last();
        assert(a0.no_duplicates()) by {
            assert forall|i: int, j: int| 0 <= i < a0.len() && 0 <= j < a0.len() && i != j implies a0[i]
                != a0[j] by {
                assert(a0[i] == a[i] && a0[j] == a[j]);
            }
        }
        lemma_comuns_conjunto(a0, b);
        assert(!a0.to_set().contains(x)) by {
            if a0.contains(x) {
                let i = choose|i: int| 0 <= i < a0.len() && a0[i] == x;
                assert(a[i] == a[a.len() - 1]);
            }
        }
        assert(a.to_set() =~= a0.to_set().insert(x)) by {
            assert forall|y| a.to_set().contains(y) implies a0.to_set().insert(x).contains(y) by {
                let i = choose|i: int| 0 <= i < a.len() && a[i] == y;
                if i < a.len() - 1 {
                    assert(a0[i] == y);
                }
            }
            assert forall|y| a0.to_set().insert(x).contains(y) implies a.to_set().contains(y) by {
                if y == x {
                    assert(a[a.len() - 1] == y);
                } else {
                    let i = choose|i: int| 0 <= i < a0.len() && a0[i] == y;
                    assert(a[i] == y);
                }
            }
        }
        let s0 = a0.to_set().intersect(b.to_set());
        if b.contains(x) {
            assert(b.to_set().contains(x));
            assert(a.to_set().intersect(b.to_set()) =~= s0.insert(x));
        } else {
            assert(a.to_set().intersect(b.to_set()) =~= s0);
        }
    }
}

/// Over a list of distinct entries, `fora` counts the entries of the first
/// list that the second lacks.
pub proof fn lemma_fora_conjunto(b: Seq<Seq<char>>, a: Seq<Seq<char>>)
    requires
        b.no_duplicates(),
    ensures
        fora(b, a) == b.to_set().difference(a.to_set()).len(),
    decreases b.len(),
{
    broadcast use vstd::set::group_set_axioms, vstd::seq_lib::seq_to_set_is_finite;

    if b.len() == 0 {
        assert(b.to_set().difference(a.to_set()) =~= Set::empty());
    } else {
        let b0 = b.drop_last();
        let x = b.last();
        assert(b0.no_duplicates()) by {
            assert forall|i: int, j: int| 0 <= i < b0.len() && 0 <= j < b0.len() && i != j implies b0[i]
                != b0[j] by {
                assert(b0[i] == b[i] && b0[j] == b[j]);
            }
        }
        lemma_fora_conjunto(b0, a);
        assert(!b0.to_set().contains(x)) by {
            if b0.contains(x) {
                let i = choose|i: int| 0 <= i < b0.len() && b0[i] == x;
                assert(b[i] == b[b.len() - 1]);
            }
        }
        assert(b.to_set() =~= b0.to_set().insert(x)) by {
            assert forall|y| b.to_set().contains(y) implies b0.to_set().insert(x).contains(y) by {
                let i = choose|i: int| 0 <= i < b.len() && b[i] == y;
                if i < b.len() - 1 {
                    assert(b0[i] == y);
                }
            }
            assert forall|y| b0.to_set().insert(x).contains(y) implies b.to_set().contains(y) by {
                if y == x {
                    assert(b[b.len() - 1] == y);
                } else {
                    let i = choose|i: int| 0 <= i < b0.len() && b0[i] == y;
                    assert(b[i] == y);
                }
            }
        }
        let s0 = b0.to_set().difference(a.to_set());
        if a.contains(x) {
            assert(a.to_set().contains(x));
            assert(b.to_set().difference(a.to_set()) =~= s0);
        } else {
            assert(b.to_set().difference(a.to_set()) =~= s0.insert(x));
        }
    }
}

/// Over lists of distinct entries, `uniao` counts the entries of either.
pub proof fn lemma_uniao_conjunto(a: Seq<Seq<char>>, b: Seq<Seq<char>>)
    requires
        a.no_duplicates(),
        b.no_duplicates(),
    ensures
        uniao(a, b) == a.to_set().union(b.to_set()).len(),
{
    broadcast use vstd::set::group_set_axioms, vstd::seq_lib::seq_to_set_is_finite;

    lemma_fora_conjunto(b, a);
    a.unique_seq_to_set();
    let d = b.to_set().difference(a.to_set());
    assert(a.to_set().disjoint(d));
    vstd::set_lib::lemma_set_disjoint_lens(a.to_set(), d);
    assert(a.to_set() + d =~= a.to_set().union(b.to_set()));
}

/// The lexical similarity of two texts: how many terms they share, and how
/// many terms they have together.
pub fn similaridade_textual(a: &str, b: &str) -> (r: Similaridade)
    ensures
        r == similaridade(a@, b@),
        r.comuns <= r.uniao,
        r.comuns as nat == comuns(termos(a@), termos(b@)),
        r.uniao as nat == uniao(termos(a@), termos(b@)),
        valor(r) == valor_textual(a@, b@),
{
    let ta = termos_relevantes(a);
    let tb = termos_relevantes(b);
    let mut c: usize = 0;
    let mut i: usize = 0;
    while i < ta.len()
        invariant
            i <= ta.len(),
            c == comuns(vistas(ta@).take(i as int), vistas(tb@)),
            c <= i,
        decreases ta.len() - i,
    {
        assert(vistas(ta@).take(i + 1).drop_last() =~= vistas(ta@).take(i as int));
        if contem_string(&tb, &ta[i]) {
            c += 1;
        }
        i += 1;
    }
    assert(vistas(ta@).take(i as int) =~= vistas(ta@));
    let mut u: Vec<String> = Vec::new();
    let mut k: usize = 0;
    while k < ta.len()
        invariant
            k <= ta.len(),
            u@.len() == k,
        decreases ta.len() - k,
    {
        u.push(ta[k].clone());
        k += 1;
    }
    let mut j: usize = 0;
    while j < tb.len()
        invariant
            j <= tb.len(),
            u@.len() == ta@.len() + fora(vistas(tb@).take(j as int), vistas(ta@)),
        decreases tb.len() - j,
    {
        assert(vistas(tb@).take(j + 1).drop_last() =~= vistas(tb@).take(j as int));
        if !contem_string(&ta, &tb[j]) {
            u.push(tb[j].clone());
        }
        j += 1;
    }
    assert(vistas(tb@).take(j as int) =~= vistas(tb@));
    proof {
        lemma_comuns_limitado(vistas(ta@), vistas(tb@));
    }
    Similaridade { comuns: c, uniao: u.len() }
}

impl Similaridade {
    /// The similarity as a single-precision number.
    pub fn valor(&self) -> (r: i128)
        ensures
            r == valor(*self),
    {
        if self.uniao == 0 {
            0
        } else if self.comuns > self.uniao {
            UM
        } else {
            dividir(self.comuns as u64, self.uniao as u64)
        }
    }

    /// Whether the similarity is greater than `limite`.
    pub fn supera(&self, limite: i128) -> (r: bool)
        ensures
            r == supera(*self, limite as int),
    {
        self.valor() > limite
    }

    /// Whether this similarity is greater than `outra`.
    pub fn mais_similar_que(&self, outra: &Similaridade) -> (r: bool)
        ensures
            r == mais_similar(*self, *outra),
    {
        self.valor() > outra.valor()
    }
}

/// How well a belief answers a query: the lexical similarity of its key to
/// the query, plus a tenth of how often the two came up together, counting
/// at most four times.
#[derive(Clone, Copy)]
pub struct Pontuacao {
    pub lexica: Similaridade,
    pub topologica: u8,
}

/// The score as a single-precision number: the lexical similarity plus the
/// count over ten, at most 0.4 (`topologica` keeps the count up to 4).
pub open spec fn valor_pontuacao(p: Pontuacao) -> int {
    let t: nat = if p.topologica > 4 {
        4
    } else {
        p.topologica as nat
    };
    soma(valor(p.lexica), razao(t, 10))
}

/// Whether the score is above 0.24.
pub open spec fn acima_do_limiar(p: Pontuacao) -> bool {
    valor_pontuacao(p) > LIMIAR_FATO
}

/// Whether `a` is a higher score than `b`.
pub open spec fn melhor(a: Pontuacao, b: Pontuacao) -> bool {
    valor_pontuacao(a) > valor_pontuacao(b)
}

impl Pontuacao {
    /// The score as a single-precision number.
    pub fn valor(&self) -> (r: i128)
        ensures
            r == valor_pontuacao(*self),
    {
        let t: u64 = if self.topologica > 4 {
            4
        } else {
            self.topologica as u64
        };
        somar(self.lexica.valor(), dividir(t, 10))
    }

    /// Whether the score is above 0.24.
    pub fn acima_do_limiar(&self) -> (r: bool)
        ensures
            r == acima_do_limiar(*self),
    {
        self.valor() > LIMIAR_FATO
    }

    /// Whether this score is higher than `outra`.
    pub fn melhor_que(&self, outra: &Pontuacao) -> (r: bool)
        ensures
            r == melhor(*self, *outra),
    {
        self.valor() > outra.valor()
    }
}

} // verus!
