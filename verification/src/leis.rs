use vstd::prelude::*;

use crate::agente::{
    lugar_topico, ordem_topicos, pedido_ofensivo, texto_recusa, AgenteVista, RespostaVista,
    Salvamento,
};
use crate::dicionario::{chaves, gravar, indice, lei_gravar_sem_repeticao, lei_ler_apos_gravar, ler};
use crate::binario::{lemma_razao_ate_um, lemma_razao_propria, lemma_soma_ao_menos, lemma_soma_limitada, lemma_soma_desce, maior, produto, UM};
use crate::emocao::{
    EstadoEmocional, DESCANSO_CURIOSIDADE, DESCANSO_EXCITACAO, DESCANSO_FADIGA,
};
use crate::memoria::{
    contar_todos, incrementa, incrementa_par, ligar, ligar_com, mais_um, topicos_lacunas,
    LacunaVista,
    consolidar_conceitos, episodio_relevante, escolha, fato_inicial, lugar, ordenados,
    pontuacao_em, revisao, similaridade_episodio, FatoVista, MemoriaVista, RevisaoVista,
    CONFIANCA_MAXIMA, CONFIANCA_MINIMA, DESCONTO, MAX_LACUNAS, MAX_REFLEXOES, REFORCO,
};
use crate::similaridade::{
    acima_do_limiar, comuns, lemma_comuns_conjunto, lemma_comuns_limitado, uniao, lemma_uniao_conjunto, mais_similar, melhor, similaridade,
    valor_textual, Similaridade,
};
use crate::texto::{
    aparada, bytes_utf8, comeca_com, minusculas, normalizada, palavras, primeiros, relevante, termos,
    termos_de, Criterio,
};

verus! {

/// Teaching a value for a key and then asking for that key gives back the
/// key, normalised, and the value taught, trimmed, as stated by its source.
pub proof fn lei_ensinar_e_recuperar(
    m: MemoriaVista,
    chave: Seq<char>,
    valor: Seq<char>,
    fonte: Seq<char>,
    turno: usize,
)
    requires
        normalizada(chave).len() > 0,
        aparada(valor, Criterio::Espaco).len() > 0,
    ensures
        m.com_fato(chave, valor, fonte, turno).recuperado(chave) matches Some((k, f)) && k
            == normalizada(chave) && f.valor == aparada(valor, Criterio::Espaco) && f.fonte
            == fonte,
{
    let k = normalizada(chave);
    let v = aparada(valor, Criterio::Espaco);
    let base = match ler(m.semantica, k) {
        Some(f) => f,
        None => fato_inicial(v, fonte),
    };
    lei_ler_apos_gravar(m.semantica, k, revisao(base, v, fonte), k);
}

/// Teaching one key leaves what every other key is believed to mean as it
/// was.
pub proof fn lei_outras_crencas_intactas(
    m: MemoriaVista,
    chave: Seq<char>,
    valor: Seq<char>,
    fonte: Seq<char>,
    turno: usize,
    outra: Seq<char>,
)
    requires
        outra != normalizada(chave),
    ensures
        ler(m.com_fato(chave, valor, fonte, turno).semantica, outra) == ler(m.semantica, outra),
{
    let k = normalizada(chave);
    let v = aparada(valor, Criterio::Espaco);
    let base = match ler(m.semantica, k) {
        Some(f) => f,
        None => fato_inicial(v, fonte),
    };
    lei_ler_apos_gravar(m.semantica, k, revisao(base, v, fonte), outra);
}

/// Every statement of a fact is logged as one revision, with the value held
/// before (if any) and the value now held; the count of statements of the
/// belief grows by one (up to `usize::MAX`).
pub proof fn lei_revisao_registrada(
    m: MemoriaVista,
    chave: Seq<char>,
    valor: Seq<char>,
    fonte: Seq<char>,
    turno: usize,
)
    requires
        normalizada(chave).len() > 0,
        aparada(valor, Criterio::Espaco).len() > 0,
    ensures
        ({
            let k = normalizada(chave);
            let m2 = m.com_fato(chave, valor, fonte, turno);
            let anterior = ler(m.semantica, k);
            &&& m2.revisoes.len() == m.revisoes.len() + 1
            &&& m2.revisoes.last() == (RevisaoVista {
                chave: k,
                valor_anterior: match anterior {
                    Some(f) => Some(f.valor),
                    None => None,
                },
                valor_novo: aparada(valor, Criterio::Espaco),
                turno,
            })
            &&& ler(m2.semantica, k) matches Some(f) && f.revisoes == match anterior {
                Some(a) => if a.revisoes < usize::MAX {
                    (a.revisoes + 1) as usize
                } else {
                    a.revisoes
                },
                None => 1usize,
            }
        }),
{
    let k = normalizada(chave);
    let v = aparada(valor, Criterio::Espaco);
    let base = match ler(m.semantica, k) {
        Some(f) => f,
        None => fato_inicial(v, fonte),
    };
    lei_ler_apos_gravar(m.semantica, k, revisao(base, v, fonte), k);
}

/// After a statement the confidence is at most 0.99; it is at least 0.1
/// where it was not negative, and at least 0.459 where the value changed or
/// the confidence was 0.35 or more (as for a new belief).
pub proof fn lei_confianca_limitada(f: FatoVista, valor: Seq<char>, fonte: Seq<char>)
    ensures
        revisao(f, valor, fonte).confianca <= CONFIANCA_MAXIMA,
        f.confianca >= 0 ==> revisao(f, valor, fonte).confianca >= 1844674407370955162,
        f.valor != valor || f.confianca >= CONFIANCA_MINIMA ==> revisao(f, valor, fonte).confianca
            >= 8467055529832684192,
{
    let mudou = f.valor != valor;
    let c1 = if mudou {
        maior(produto(f.confianca as int, DESCONTO as int), CONFIANCA_MINIMA as int)
    } else {
        f.confianca as int
    };
    lemma_soma_limitada(c1, REFORCO as int);
    if c1 >= 0 {
        lemma_soma_ao_menos(c1, 0, REFORCO as int);
    }
    if c1 >= CONFIANCA_MINIMA {
        lemma_soma_ao_menos(c1, CONFIANCA_MINIMA as int, REFORCO as int);
    }
}

/// Stating facts keeps the keys of the beliefs distinct.
pub proof fn lei_chaves_unicas_fato(
    m: MemoriaVista,
    chave: Seq<char>,
    valor: Seq<char>,
    fonte: Seq<char>,
    turno: usize,
)
    requires
        chaves(m.semantica).no_duplicates(),
    ensures
        chaves(m.com_fato(chave, valor, fonte, turno).semantica).no_duplicates(),
{
    let k = normalizada(chave);
    let v = aparada(valor, Criterio::Espaco);
    let base = match ler(m.semantica, k) {
        Some(f) => f,
        None => fato_inicial(v, fonte),
    };
    lei_gravar_sem_repeticao(m.semantica, k, revisao(base, v, fonte));
}

proof fn lemma_consolidar_sem_repeticao(
    sem: Seq<(Seq<char>, FatoVista)>,
    cs: Seq<(Seq<char>, usize)>,
)
    requires
        chaves(sem).no_duplicates(),
    ensures
        chaves(consolidar_conceitos(sem, cs)).no_duplicates(),
    decreases cs.len(),
{
    if cs.len() > 0 {
        lemma_consolidar_sem_repeticao(sem, cs.drop_last());
        let s = consolidar_conceitos(sem, cs.drop_last());
        lei_gravar_sem_repeticao(s, cs.last().0, crate::memoria::fato_recorrente(cs.last().1));
    }
}

/// Consolidation keeps the keys of the beliefs distinct, and keeps at most
/// 1500 reflections.
pub proof fn lei_consolidacao(m: MemoriaVista, turno: usize)
    ensures
        chaves(m.semantica).no_duplicates() ==> chaves(
            m.consolidada(turno).semantica,
        ).no_duplicates(),
        m.consolidada(turno).reflexoes.len() <= MAX_REFLEXOES,
{
    if chaves(m.semantica).no_duplicates() {
        lemma_consolidar_sem_repeticao(m.semantica, m.conceitos);
    }
}

/// The gaps in knowledge never grow past 80.
pub proof fn lei_lacunas_limitadas(m: MemoriaVista, topico: Seq<char>)
    requires
        m.lacunas.len() <= MAX_LACUNAS,
    ensures
        m.com_lacuna(topico).lacunas.len() <= MAX_LACUNAS,
{
    crate::dicionario::lemma_indice(
        crate::memoria::topicos_lacunas(m.lacunas),
        normalizada(topico),
    );
}

/// Whether each dimension of a mood is in its range.
pub open spec fn humor_valido(e: EstadoEmocional) -> bool {
    &&& -UM <= e.valencia <= UM
    &&& 0 <= e.excitacao <= UM
    &&& 0 <= e.fadiga <= UM
    &&& 0 <= e.curiosidade <= UM
}

/// After a message the mood is in range, whatever it was; a rest keeps it
/// in range.
pub proof fn lei_humor_limitado(e: EstadoEmocional, texto: Seq<char>)
    ensures
        humor_valido(e.apos_entrada(texto)),
        humor_valido(e.normalizado()),
        humor_valido(e) ==> humor_valido(e.descansado()),
{
    if humor_valido(e) {
        lemma_soma_desce(e.excitacao as int, DESCANSO_EXCITACAO as int);
        lemma_soma_desce(e.fadiga as int, DESCANSO_FADIGA as int);
        lemma_soma_desce(e.curiosidade as int, DESCANSO_CURIOSIDADE as int);
    }
}

/// In safe mode, a message that is no command and asks for something
/// offensive is refused, and the refusal is saved with the turn.
pub proof fn lei_modo_seguro(a: AgenteVista, entrada: Seq<char>)
    requires
        a.modo_seguro,
        !comeca_com(entrada, "/"@),
        pedido_ofensivo(minusculas(entrada)),
    ensures
        a.resposta(entrada).1 == (RespostaVista::Texto {
            texto: texto_recusa(),
            salvar: Salvamento::ComAviso,
        }),
{
}

proof fn lemma_termos_de_relevantes(ws: Seq<Seq<char>>)
    ensures
        forall|i: int| 0 <= i < termos_de(ws).len() ==> relevante(#[trigger] termos_de(ws)[i]),
        termos_de(ws).no_duplicates(),
    decreases ws.len(),
{
    if ws.len() > 0 {
        lemma_termos_de_relevantes(ws.drop_last());
        let r = termos_de(ws.drop_last());
        let t = normalizada(ws.last());
        if relevante(t) && !r.contains(t) {
            assert forall|i: int| 0 <= i < r.push(t).len() implies relevante(
                #[trigger] r.push(t)[i],
            ) by {
                if i < r.len() {
                    assert(r.push(t)[i] == r[i]);
                }
            }
            assert forall|i: int, j: int|
                0 <= i < r.push(t).len() && 0 <= j < r.push(t).len() && i != j implies r.push(
                t,
            )[i] != r.push(t)[j] by {
                if i == r.len() as int {
                    assert(r[j] != t);
                } else if j == r.len() as int {
                    assert(r[i] != t);
                }
            }
        }
    }
}

/// The terms of a text are each relevant (longer than two bytes, not a word
/// without a topic) and each occurs once.
pub proof fn lei_termos_relevantes(texto: Seq<char>)
    ensures
        forall|i: int| 0 <= i < termos(texto).len() ==> relevante(#[trigger] termos(texto)[i]),
        termos(texto).no_duplicates(),
{
    lemma_termos_de_relevantes(palavras(texto));
}

/// Similarity does not depend on the order of the two texts, lies between
/// 0 and 1, and a text with terms is fully similar to itself.
pub proof fn lei_similaridade_simetrica(a: Seq<char>, b: Seq<char>)
    ensures
        similaridade(a, b) == similaridade(b, a),
        valor_textual(a, b) == valor_textual(b, a),
        0 <= valor_textual(a, b) <= UM,
        termos(a).len() > 0 ==> valor_textual(a, a) == UM,
{
    lei_termos_relevantes(a);
    lei_termos_relevantes(b);
    let ta = termos(a);
    let tb = termos(b);
    lemma_comuns_conjunto(ta, tb);
    lemma_comuns_conjunto(tb, ta);
    assert(ta.to_set().intersect(tb.to_set()) =~= tb.to_set().intersect(ta.to_set()));
    lemma_uniao_conjunto(ta, tb);
    lemma_uniao_conjunto(tb, ta);
    assert(ta.to_set().union(tb.to_set()) =~= tb.to_set().union(ta.to_set()));
    lemma_comuns_limitado(ta, tb);
    if uniao(ta, tb) > 0 {
        lemma_razao_ate_um(comuns(ta, tb), uniao(ta, tb));
    }
    if ta.len() > 0 {
        lemma_comuns_conjunto(ta, ta);
        lemma_uniao_conjunto(ta, ta);
        assert(ta.to_set().intersect(ta.to_set()) =~= ta.to_set());
        assert(ta.to_set().union(ta.to_set()) =~= ta.to_set());
        ta.unique_seq_to_set();
        lemma_razao_propria(ta.len());
    }
}

/// Two scores no lower than one another in turn: the first is no higher
/// than the third.
proof fn lemma_nao_melhor_transitivo(
    a: crate::similaridade::Pontuacao,
    b: crate::similaridade::Pontuacao,
    c: crate::similaridade::Pontuacao,
)
    requires
        !melhor(a, b),
        !melhor(b, c),
    ensures
        !melhor(a, c),
{
}

proof fn lemma_escolha(m: MemoriaVista, q: Seq<char>, n: nat)
    requires
        n <= m.semantica.len(),
    ensures
        -1 <= escolha(m, q, n) < n,
        escolha(m, q, n) == -1 <==> forall|j: int|
            0 <= j < n ==> !acima_do_limiar(#[trigger] pontuacao_em(m, q, j)),
        escolha(m, q, n) >= 0 ==> acima_do_limiar(pontuacao_em(m, q, escolha(m, q, n))),
        escolha(m, q, n) >= 0 ==> forall|j: int|
            0 <= j < n && acima_do_limiar(#[trigger] pontuacao_em(m, q, j)) ==> !melhor(
                pontuacao_em(m, q, j),
                pontuacao_em(m, q, escolha(m, q, n)),
            ),
    decreases n,
{
    if n > 0 {
        let b = escolha(m, q, (n - 1) as nat);
        lemma_escolha(m, q, (n - 1) as nat);
        let p = pontuacao_em(m, q, n - 1);
        if acima_do_limiar(p) && (b < 0 || !melhor(pontuacao_em(m, q, b), p)) {
            assert forall|j: int|
                0 <= j < n && acima_do_limiar(#[trigger] pontuacao_em(m, q, j)) implies !melhor(
                pontuacao_em(m, q, j),
                p,
            ) by {
                if j < n - 1 {
                    lemma_nao_melhor_transitivo(
                        pontuacao_em(m, q, j),
                        pontuacao_em(m, q, b),
                        p,
                    );
                }
            }
        } else {
            assert forall|j: int|
                0 <= j < n && acima_do_limiar(#[trigger] pontuacao_em(m, q, j)) implies !melhor(
                pontuacao_em(m, q, j),
                pontuacao_em(m, q, escolha(m, q, n)),
            ) by {}
        }
    }
}

/// Where no belief is about the query's key, the belief recovered is one
/// whose score is above 0.24 and that no other belief scores higher than;
/// none is recovered only where no belief scores above 0.24.
pub proof fn lei_recuperado_o_melhor(m: MemoriaVista, consulta: Seq<char>)
    requires
        ler(m.semantica, normalizada(consulta)) is None,
    ensures
        ({
            let q = normalizada(consulta);
            &&& m.recuperado(consulta) is None <==> forall|j: int|
                0 <= j < m.semantica.len() ==> !acima_do_limiar(#[trigger] pontuacao_em(m, q, j))
            &&& m.recuperado(consulta) matches Some(e) ==> exists|i: int|
                0 <= i < m.semantica.len() && m.semantica[i] == e && acima_do_limiar(
                    pontuacao_em(m, q, i),
                ) && forall|j: int|
                    0 <= j < m.semantica.len() && acima_do_limiar(
                        #[trigger] pontuacao_em(m, q, j),
                    ) ==> !melhor(pontuacao_em(m, q, j), pontuacao_em(m, q, i))
        }),
{
    let q = normalizada(consulta);
    lemma_escolha(m, q, m.semantica.len());
}

/// Similarities no greater than one another in turn: the first is no
/// greater than the third.
proof fn lemma_similaridade_transitiva(a: Similaridade, b: Similaridade, c: Similaridade)
    requires
        !mais_similar(a, b),
        !mais_similar(b, c),
    ensures
        !mais_similar(a, c),
{
}

proof fn lemma_lugar(m: MemoriaVista, c: Seq<char>, l: Seq<usize>, j: int)
    ensures
        lugar(m, c, l, j) <= l.len(),
        forall|k: int|
            0 <= k < lugar(m, c, l, j) ==> !mais_similar(
                similaridade_episodio(m, c, j),
                similaridade_episodio(m, c, #[trigger] l[k] as int),
            ),
        lugar(m, c, l, j) < l.len() ==> mais_similar(
            similaridade_episodio(m, c, j),
            similaridade_episodio(m, c, l[lugar(m, c, l, j) as int] as int),
        ),
    decreases l.len(),
{
    if l.len() > 0 {
        lemma_lugar(m, c, l.drop_first(), j);
        if !mais_similar(similaridade_episodio(m, c, j), similaridade_episodio(m, c, l[0] as int)) {
            assert forall|k: int| 0 <= k < lugar(m, c, l, j) implies !mais_similar(
                similaridade_episodio(m, c, j),
                similaridade_episodio(m, c, #[trigger] l[k] as int),
            ) by {
                if k > 0 {
                    assert(l[k] == l.drop_first()[k - 1]);
                }
            }
        }
    }
}

/// Whether the episodes at `l` go from the most similar down.
pub open spec fn em_ordem(m: MemoriaVista, c: Seq<char>, l: Seq<usize>) -> bool {
    forall|a: int, b: int|
        #![trigger l[a], l[b]]
        0 <= a < b < l.len() ==> !mais_similar(
            similaridade_episodio(m, c, l[b] as int),
            similaridade_episodio(m, c, l[a] as int),
        )
}

proof fn lemma_ordenados(m: MemoriaVista, c: Seq<char>, n: nat)
    requires
        n <= usize::MAX,
    ensures
        forall|k: int| 0 <= k < ordenados(m, c, n).len() ==> #[trigger] ordenados(m, c, n)[k] < n,
        forall|k: int|
            0 <= k < ordenados(m, c, n).len() ==> episodio_relevante(
                m,
                c,
                #[trigger] ordenados(m, c, n)[k] as int,
            ),
        ordenados(m, c, n).no_duplicates(),
        em_ordem(m, c, ordenados(m, c, n)),
        forall|i: int|
            0 <= i < n && #[trigger] episodio_relevante(m, c, i) ==> ordenados(m, c, n).contains(
                i as usize,
            ),
    decreases n,
{
    if n > 0 {
        let l = ordenados(m, c, (n - 1) as nat);
        lemma_ordenados(m, c, (n - 1) as nat);
        let j = n - 1;
        if episodio_relevante(m, c, j) {
            let p = lugar(m, c, l, j) as int;
            lemma_lugar(m, c, l, j);
            let l2 = l.insert(p, j as usize);
            l.insert_ensures(p, j as usize);
            assert(l2.len() == l.len() + 1);
            assert forall|k: int| 0 <= k < l2.len() implies (k < p ==> l2[k] == l[k]) && (k == p
                ==> l2[k] == j) && (k > p ==> l2[k] == l[k - 1]) by {
                if k > p {
                    assert(l.insert(p, j as usize)[(k - 1) + 1] == l[k - 1]);
                }
            }
            assert forall|k: int| 0 <= k < l2.len() implies #[trigger] l2[k] < n
                && episodio_relevante(m, c, l2[k] as int) by {
                if k > p {
                    assert(l2[k] == l[k - 1]);
                }
            }
            assert forall|a: int, b: int| 0 <= a < l2.len() && 0 <= b < l2.len() && a != b implies l2[a]
                != l2[b] by {
                if a != p && b != p {
                    let a1 = if a < p {
                        a
                    } else {
                        a - 1
                    };
                    let b1 = if b < p {
                        b
                    } else {
                        b - 1
                    };
                    assert(l2[a] == l[a1] && l2[b] == l[b1]);
                } else if a == p {
                    let b1 = if b < p {
                        b
                    } else {
                        b - 1
                    };
                    assert(l2[b] == l[b1]);
                } else {
                    let a1 = if a < p {
                        a
                    } else {
                        a - 1
                    };
                    assert(l2[a] == l[a1]);
                }
            }
            let sj = similaridade_episodio(m, c, j);
            assert forall|a: int, b: int| 0 <= a < b < l2.len() implies !mais_similar(
                similaridade_episodio(m, c, #[trigger] l2[b] as int),
                similaridade_episodio(m, c, #[trigger] l2[a] as int),
            ) by {
                if b < p {
                    assert(l2[a] == l[a] && l2[b] == l[b]);
                } else if b == p {
                    assert(l2[a] == l[a]);
                } else if a > p {
                    assert(l2[a] == l[a - 1] && l2[b] == l[b - 1]);
                } else if a == p {
                    assert(l2[b] == l[b - 1]);
                    let sp = similaridade_episodio(m, c, l[p] as int);
                    if b - 1 > p {
                        assert(l[p] == l[p]);
                        lemma_similaridade_transitiva(
                            similaridade_episodio(m, c, l[b - 1] as int),
                            sp,
                            sj,
                        );
                    }
                } else {
                    assert(l2[a] == l[a] && l2[b] == l[b - 1]);
                }
            }
            assert forall|i: int|
                0 <= i < n && #[trigger] episodio_relevante(m, c, i) implies l2.contains(
                i as usize,
            ) by {
                if i == j {
                    assert(l2[p] == j);
                } else {
                    let k = choose|k: int| 0 <= k < l.len() && l[k] == i as usize;
                    if k < p {
                        assert(l2[k] == l[k]);
                    } else {
                        assert(l2[k + 1] == l[k]);
                    }
                }
            }
        } else {
            assert forall|i: int|
                0 <= i < n && #[trigger] episodio_relevante(m, c, i) implies l.contains(
                i as usize,
            ) by {}
        }
    }
}

/// The episodes recalled for a query are distinct and related to it (its
/// similarity to them is above 0.2), go from the most similar down, and are
/// at least as similar as any related episode left out; fewer than `limite`
/// are recalled only where every related episode is.
pub proof fn lei_episodios_relevantes(m: MemoriaVista, consulta: Seq<char>, limite: usize)
    requires
        m.episodica.len() <= usize::MAX,
    ensures
        ({
            let r = m.relevantes(consulta, limite);
            &&& r.len() <= limite
            &&& r.no_duplicates()
            &&& forall|k: int|
                0 <= k < r.len() ==> #[trigger] r[k] < m.episodica.len() && episodio_relevante(
                    m,
                    consulta,
                    r[k] as int,
                )
            &&& em_ordem(m, consulta, r)
            &&& forall|i: int|
                0 <= i < m.episodica.len() && #[trigger] episodio_relevante(m, consulta, i)
                    && !r.contains(i as usize) ==> r.len() == limite && forall|k: int|
                    0 <= k < r.len() ==> !mais_similar(
                        similaridade_episodio(m, consulta, i),
                        similaridade_episodio(m, consulta, #[trigger] r[k] as int),
                    )
        }),
{
    let l = ordenados(m, consulta, m.episodica.len());
    lemma_ordenados(m, consulta, m.episodica.len());
    let r = primeiros(l, limite as nat);
    assert forall|k: int| 0 <= k < r.len() implies r[k] == l[k] by {}
    assert forall|i: int|
        0 <= i < m.episodica.len() && #[trigger] episodio_relevante(m, consulta, i)
            && !r.contains(i as usize) implies r.len() == limite && forall|k: int|
            0 <= k < r.len() ==> !mais_similar(
                similaridade_episodio(m, consulta, i),
                similaridade_episodio(m, consulta, #[trigger] r[k] as int),
            ) by {
        let x = choose|x: int| 0 <= x < l.len() && l[x] == i as usize;
        if x < r.len() {
            assert(r[x] == l[x]);
        }
        assert forall|k: int| 0 <= k < r.len() implies !mais_similar(
            similaridade_episodio(m, consulta, i),
            similaridade_episodio(m, consulta, #[trigger] r[k] as int),
        ) by {
            assert(r[k] == l[k]);
            assert(l[x] == i as usize);
            assert(k < x);
            assert(!mais_similar(
                similaridade_episodio(m, consulta, l[x] as int),
                similaridade_episodio(m, consulta, l[k] as int),
            ));
        }
    }
}

proof fn lemma_lugar_topico_prop(l: Seq<(Seq<char>, usize)>, n: usize)
    ensures
        lugar_topico(l, n) <= l.len(),
        forall|k: int| 0 <= k < lugar_topico(l, n) ==> #[trigger] l[k].1 >= n,
        lugar_topico(l, n) < l.len() ==> n > l[lugar_topico(l, n) as int].1,
    decreases l.len(),
{
    if l.len() > 0 {
        lemma_lugar_topico_prop(l.drop_first(), n);
        if !(n > l[0].1) {
            assert forall|k: int| 0 <= k < lugar_topico(l, n) implies #[trigger] l[k].1 >= n by {
                if k > 0 {
                    assert(l[k] == l.drop_first()[k - 1]);
                }
            }
        }
    }
}

/// `/topicos` orders the concepts from the most mentioned down, each concept
/// once for each time it is counted.
pub proof fn lei_topicos_ordenados(cs: Seq<(Seq<char>, usize)>)
    ensures
        ordem_topicos(cs).len() == cs.len(),
        forall|a: int, b: int|
            0 <= a < b < cs.len() ==> #[trigger] ordem_topicos(cs)[a].1 >= #[trigger] ordem_topicos(
                cs,
            )[b].1,
        ordem_topicos(cs).to_multiset() == cs.to_multiset(),
    decreases cs.len(),
{
    if cs.len() > 0 {
        let l = ordem_topicos(cs.drop_last());
        lei_topicos_ordenados(cs.drop_last());
        let x = cs.last();
        let p = lugar_topico(l, x.1) as int;
        lemma_lugar_topico_prop(l, x.1);
        l.insert_ensures(p, x);
        let l2 = l.insert(p, x);
        assert forall|k: int| 0 <= k < l2.len() implies (k < p ==> l2[k] == l[k]) && (k == p
            ==> l2[k] == x) && (k > p ==> l2[k] == l[k - 1]) by {
            if k > p {
                assert(l.insert(p, x)[(k - 1) + 1] == l[k - 1]);
            }
        }
        assert forall|a: int, b: int| 0 <= a < b < l2.len() implies #[trigger] l2[a].1
            >= #[trigger] l2[b].1 by {
            if b < p {
            } else if b == p {
            } else if a > p {
                assert(l[a - 1].1 >= l[b - 1].1);
            } else if a == p {
                assert(l[p].1 >= l[b - 1].1 || b - 1 == p);
            } else {
                assert(l[a].1 >= l[b - 1].1);
            }
        }
        vstd::seq_lib::to_multiset_insert(l, p, x);
        assert(cs =~= cs.drop_last().push(x));
        vstd::seq_lib::to_multiset_build(cs.drop_last(), x);
    } else {
        assert(ordem_topicos(cs) =~= cs);
    }
}

/// What every state of the memory keeps: each key believed once, at most
/// 80 gaps, at most 1500 reflections.
pub open spec fn memoria_valida(m: MemoriaVista) -> bool {
    &&& chaves(m.semantica).no_duplicates()
    &&& chaves(m.conceitos).no_duplicates()
    &&& linhas_unicas(m.coocorrencia)
    &&& chaves(m.perfil.preferencias).no_duplicates()
    &&& topicos_lacunas(m.lacunas).no_duplicates()
    &&& m.lacunas.len() <= MAX_LACUNAS
    &&& m.reflexoes.len() <= MAX_REFLEXOES
}

/// Whether a co-occurrence table names each term once, and each of its rows
/// names each term once.
pub open spec fn linhas_unicas(c: Seq<(Seq<char>, Seq<(Seq<char>, usize)>)>) -> bool {
    &&& chaves(c).no_duplicates()
    &&& forall|i: int| 0 <= i < c.len() ==> chaves(#[trigger] c[i].1).no_duplicates()
}

proof fn lemma_incrementa_unica(s: Seq<(Seq<char>, usize)>, k: Seq<char>)
    requires
        chaves(s).no_duplicates(),
    ensures
        chaves(incrementa(s, k)).no_duplicates(),
{
    lei_gravar_sem_repeticao(
        s,
        k,
        mais_um(
            match ler(s, k) {
                Some(n) => n,
                None => 0,
            },
        ),
    );
}

proof fn lemma_contar_todos_unica(s: Seq<(Seq<char>, usize)>, ts: Seq<Seq<char>>)
    requires
        chaves(s).no_duplicates(),
    ensures
        chaves(contar_todos(s, ts)).no_duplicates(),
    decreases ts.len(),
{
    if ts.len() > 0 {
        lemma_contar_todos_unica(s, ts.drop_last());
        lemma_incrementa_unica(contar_todos(s, ts.drop_last()), ts.last());
    }
}

proof fn lemma_incrementa_par_unica(
    c: Seq<(Seq<char>, Seq<(Seq<char>, usize)>)>,
    a: Seq<char>,
    b: Seq<char>,
)
    requires
        linhas_unicas(c),
    ensures
        linhas_unicas(incrementa_par(c, a, b)),
{
    crate::dicionario::lemma_indice(chaves(c), a);
    let j = indice(chaves(c), a);
    let linha = match ler(c, a) {
        Some(l) => l,
        None => Seq::empty(),
    };
    if j >= 0 {
        assert(linha == c[j].1);
    } else {
        assert(chaves(linha) =~= Seq::<Seq<char>>::empty());
    }
    lemma_incrementa_unica(linha, b);
    let nova = incrementa(linha, b);
    lei_gravar_sem_repeticao(c, a, nova);
    let g = gravar(c, a, nova);
    assert(g == incrementa_par(c, a, b));
    assert forall|i: int| 0 <= i < g.len() implies chaves(#[trigger] g[i].1).no_duplicates() by {
        if j >= 0 {
            if i != j {
                assert(g[i] == c[i]);
            }
        } else if i < c.len() {
            assert(g[i] == c[i]);
        }
    }
}

proof fn lemma_ligar_com_unica(
    c: Seq<(Seq<char>, Seq<(Seq<char>, usize)>)>,
    a: Seq<char>,
    bs: Seq<Seq<char>>,
)
    requires
        linhas_unicas(c),
    ensures
        linhas_unicas(ligar_com(c, a, bs)),
    decreases bs.len(),
{
    if bs.len() > 0 {
        lemma_incrementa_par_unica(c, a, bs[0]);
        lemma_incrementa_par_unica(incrementa_par(c, a, bs[0]), bs[0], a);
        lemma_ligar_com_unica(
            incrementa_par(incrementa_par(c, a, bs[0]), bs[0], a),
            a,
            bs.drop_first(),
        );
    }
}

proof fn lemma_ligar_unica(c: Seq<(Seq<char>, Seq<(Seq<char>, usize)>)>, ts: Seq<Seq<char>>)
    requires
        linhas_unicas(c),
    ensures
        linhas_unicas(ligar(c, ts)),
    decreases ts.len(),
{
    if ts.len() > 0 {
        lemma_ligar_com_unica(c, ts[0], ts.drop_first());
        lemma_ligar_unica(ligar_com(c, ts[0], ts.drop_first()), ts.drop_first());
    }
}

proof fn lemma_lacunas_unicas(m: MemoriaVista, topico: Seq<char>)
    requires
        topicos_lacunas(m.lacunas).no_duplicates(),
    ensures
        topicos_lacunas(m.com_lacuna(topico).lacunas).no_duplicates(),
{
    let t = normalizada(topico);
    let ts = topicos_lacunas(m.lacunas);
    crate::dicionario::lemma_indice(ts, t);
    let i = indice(ts, t);
    if bytes_utf8(t) >= 3 {
        if i >= 0 {
            let l = m.lacunas.update(
                i,
                LacunaVista { topico: t, tentativas: mais_um(m.lacunas[i].tentativas) },
            );
            assert(topicos_lacunas(l) =~= ts);
        } else {
            let base = if m.lacunas.len() >= MAX_LACUNAS {
                m.lacunas.drop_first()
            } else {
                m.lacunas
            };
            let tb = topicos_lacunas(base);
            assert(forall|k: int| 0 <= k < tb.len() ==> tb[k] != t) by {
                assert forall|k: int| 0 <= k < tb.len() implies tb[k] != t by {
                    if m.lacunas.len() >= MAX_LACUNAS {
                        assert(tb[k] == ts[k + 1]);
                    } else {
                        assert(tb[k] == ts[k]);
                    }
                }
            }
            assert(tb.no_duplicates()) by {
                assert forall|x: int, y: int|
                    0 <= x < tb.len() && 0 <= y < tb.len() && x != y implies tb[x] != tb[y] by {
                    if m.lacunas.len() >= MAX_LACUNAS {
                        assert(tb[x] == ts[x + 1] && tb[y] == ts[y + 1]);
                    } else {
                        assert(tb[x] == ts[x] && tb[y] == ts[y]);
                    }
                }
            }
            let l = base.push(LacunaVista { topico: t, tentativas: 1 });
            assert(topicos_lacunas(l) =~= tb.push(t));
            assert(tb.push(t).no_duplicates()) by {
                assert forall|x: int, y: int|
                    0 <= x < tb.len() + 1 && 0 <= y < tb.len() + 1 && x != y implies tb.push(t)[x]
                    != tb.push(t)[y] by {
                    if x < tb.len() && y < tb.len() {
                        assert(tb.push(t)[x] == tb[x] && tb.push(t)[y] == tb[y]);
                    }
                }
            }
        }
    }
}

/// What every state of the agent keeps: a valid memory and a mood in range.
pub open spec fn agente_valido(a: AgenteVista) -> bool {
    memoria_valida(a.memoria) && humor_valido(a.emocao)
}

proof fn lemma_fato_valido(m: MemoriaVista, chave: Seq<char>, valor: Seq<char>, fonte: Seq<
    char,
>, turno: usize)
    requires
        memoria_valida(m),
    ensures
        memoria_valida(m.com_fato(chave, valor, fonte, turno)),
{
    lei_chaves_unicas_fato(m, chave, valor, fonte, turno);
}

proof fn lemma_texto_valido(m: MemoriaVista, texto: Seq<char>, turno: usize)
    requires
        memoria_valida(m),
    ensures
        memoria_valida(m.com_texto(texto, turno)),
{
    let l = aparada(texto, Criterio::Espaco);
    let u = "usuario"@;
    let m1 = m.com_marcador(l, " é "@, turno);
    let m2 = m1.com_marcador(l, " sao "@, turno);
    let m3 = m2.com_marcador(l, " são "@, turno);
    let m4 = m3.com_marcador(l, " significa "@, turno);
    let m5 = m4.com_marcador(l, " quer dizer "@, turno);
    let m6 = m5.com_marcador(l, "="@, turno);
    lemma_fato_valido(m, crate::texto::antes(l, " é "@), crate::texto::depois(l, " é "@), u, turno);
    lemma_fato_valido(
        m1,
        crate::texto::antes(l, " sao "@),
        crate::texto::depois(l, " sao "@),
        u,
        turno,
    );
    lemma_fato_valido(
        m2,
        crate::texto::antes(l, " são "@),
        crate::texto::depois(l, " são "@),
        u,
        turno,
    );
    lemma_fato_valido(
        m3,
        crate::texto::antes(l, " significa "@),
        crate::texto::depois(l, " significa "@),
        u,
        turno,
    );
    lemma_fato_valido(
        m4,
        crate::texto::antes(l, " quer dizer "@),
        crate::texto::depois(l, " quer dizer "@),
        u,
        turno,
    );
    lemma_fato_valido(m5, crate::texto::antes(l, "="@), crate::texto::depois(l, "="@), u, turno);
    let low = minusculas(l);
    let p = m6.perfil;
    if crate::texto::contem(low, "eu gosto de "@) {
        lei_gravar_sem_repeticao(
            p.preferencias,
            "gosto"@,
            aparada(crate::texto::depois(low, "eu gosto de "@), Criterio::Espaco),
        );
    }
    let m7 = m6.com_perfil(l);
    lemma_contar_todos_unica(m7.conceitos, termos(l));
    lemma_ligar_unica(m7.coocorrencia, termos(l));
}

proof fn lemma_turno_valido(a: AgenteVista, entrada: Seq<char>, resposta: Seq<char>)
    requires
        agente_valido(a),
    ensures
        agente_valido(a.com_turno(entrada, resposta)),
{
    lei_humor_limitado(a.emocao, entrada);
    let m = a.memoria.com_episodio(
        crate::memoria::EpisodioVista {
            turno: a.turno,
            entrada,
            resposta,
            topicos: termos(entrada),
            valencia_no_momento: a.emocao.valencia,
        },
    );
    lei_consolidacao(m, a.turno);
}

proof fn lemma_curiosa_valida(a: AgenteVista, entrada: Seq<char>)
    requires
        agente_valido(a),
    ensures
        agente_valido(a.curiosa(entrada).0),
        agente_valido(a.viva(entrada).0),
{
    match crate::agente::primeiro_desconhecido(a.memoria.semantica, termos(entrada)) {
        Some(t) => {
            lei_lacunas_limitadas(a.memoria, t);
            lemma_lacunas_unicas(a.memoria, t);
        },
        None => {},
    }
}

proof fn lemma_comando_valido(a: AgenteVista, entrada: Seq<char>)
    requires
        agente_valido(a),
    ensures
        a.comando(entrada) matches Some((s, _)) ==> agente_valido(s),
{
    let resto = aparada(crate::texto::sem_prefixos(entrada, "/ensinar "@), Criterio::Espaco);
    if crate::texto::contem(resto, "="@) {
        let t = mais_um(a.turno);
        lemma_fato_valido(
            a.memoria,
            crate::texto::antes(resto, "="@),
            crate::texto::depois(resto, "="@),
            "comando_ensinar"@,
            t,
        );
    }
}

proof fn lemma_conversa_valida(a: AgenteVista, entrada: Seq<char>)
    requires
        agente_valido(a),
    ensures
        agente_valido(a.conversa(entrada).0),
{
    let s1 = AgenteVista {
        turno: mais_um(a.turno),
        emocao: a.emocao.apos_entrada(entrada),
        ..a
    };
    lei_humor_limitado(a.emocao, entrada);
    if s1.violacao(entrada) {
        lemma_turno_valido(s1, entrada, texto_recusa());
    } else {
        lemma_texto_valido(s1.memoria, entrada, s1.turno);
        let s2 = AgenteVista { memoria: s1.memoria.com_texto(entrada, s1.turno), ..s1 };
        lemma_curiosa_valida(s2, entrada);
        let (s3, r) = s2.resposta_livre(entrada);
        lemma_turno_valido(s3, entrada, r);
    }
}

/// Every answer keeps the agent valid: each key believed once, each concept
/// counted under one entry, each co-occurrence row and each of its terms
/// once, each preference and each gap once, at most 80 gaps, at most 1500
/// reflections, the mood in range.
pub proof fn lei_invariante_do_agente(a: AgenteVista, entrada: Seq<char>)
    requires
        agente_valido(a),
    ensures
        agente_valido(a.resposta(entrada).0),
{
    lemma_comando_valido(a, entrada);
    lemma_conversa_valida(a, entrada);
}

/// A new agent is valid.
pub proof fn lei_agente_inicial_valido()
    ensures
        memoria_valida(MemoriaVista::vazia()),
        humor_valido(EstadoEmocional::inicial()),
{
    let v = MemoriaVista::vazia();
    assert(chaves(v.semantica) =~= Seq::<Seq<char>>::empty());
    assert(chaves(v.conceitos) =~= Seq::<Seq<char>>::empty());
    assert(chaves(v.coocorrencia) =~= Seq::<Seq<char>>::empty());
    assert(chaves(v.perfil.preferencias) =~= Seq::<Seq<char>>::empty());
    assert(topicos_lacunas(v.lacunas) =~= Seq::<Seq<char>>::empty());
}

proof fn lemma_juntar_comeca(ts: Seq<Seq<char>>, sep: Seq<char>)
    requires
        ts.len() >= 1,
    ensures
        ts[0].len() <= crate::texto::juntar(ts, sep).len(),
        crate::texto::juntar(ts, sep).take(ts[0].len() as int) == ts[0],
    decreases ts.len(),
{
    if ts.len() > 1 {
        lemma_juntar_comeca(ts.drop_last(), sep);
        let j = crate::texto::juntar(ts.drop_last(), sep);
        assert((j + sep + ts.last()).take(ts[0].len() as int) =~= j.take(ts[0].len() as int));
    }
}

/// After `/ensinar chave=valor`, what the agent answers when asked about
/// `chave` begins with the belief just taught: the normalised key, the
/// trimmed value, and the command as its source.
pub proof fn lei_agente_ensina_e_lembra(a: AgenteVista, resto: Seq<char>, entrada: Seq<char>)
    requires
        crate::texto::contem(resto, "="@),
        normalizada(crate::texto::antes(resto, "="@)).len() > 0,
        aparada(crate::texto::depois(resto, "="@), Criterio::Espaco).len() > 0,
    ensures
        ({
            let k = crate::texto::antes(resto, "="@);
            let depois = a.ensinar(resto, entrada).0;
            exists|f: FatoVista|
                {
                    &&& f.valor == aparada(crate::texto::depois(resto, "="@), Criterio::Espaco)
                    &&& f.fonte == "comando_ensinar"@
                    &&& #[trigger] crate::agente::texto_fato(normalizada(k), f).len()
                        <= depois.resposta_memoria(k).len()
                    &&& depois.resposta_memoria(k).take(
                        crate::agente::texto_fato(normalizada(k), f).len() as int,
                    ) == crate::agente::texto_fato(normalizada(k), f)
                }
        }),
{
    let k = crate::texto::antes(resto, "="@);
    let v = crate::texto::depois(resto, "="@);
    let t = mais_um(a.turno);
    lei_ensinar_e_recuperar(a.memoria, k, v, "comando_ensinar"@, t);
    let depois = a.ensinar(resto, entrada).0;
    let m1 = a.memoria.com_fato(k, v, "comando_ensinar"@, t);
    assert(depois.memoria.semantica == m1.semantica);
    let q = normalizada(k);
    let vv = aparada(v, Criterio::Espaco);
    let base = match ler(a.memoria.semantica, q) {
        Some(f0) => f0,
        None => fato_inicial(vv, "comando_ensinar"@),
    };
    let f = revisao(base, vv, "comando_ensinar"@);
    lei_ler_apos_gravar(a.memoria.semantica, q, f, q);
    assert(ler(depois.memoria.semantica, q) == Some(f));
    assert(depois.memoria.recuperado(k) == Some((q, f)));
    let p = crate::agente::partes_memoria(depois.memoria, k);
    assert(p[0] == crate::agente::texto_fato(normalizada(k), f));
    lemma_juntar_comeca(p, " "@);
    assert(crate::agente::texto_fato(normalizada(k), f).len() <= depois.resposta_memoria(k).len());
}

} // verus!
