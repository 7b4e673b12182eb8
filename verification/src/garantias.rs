use vstd::prelude::*;

use crate::agente::{AgenteVista, RespostaVista};
use crate::dicionario::{chaves, indice, lei_ler_apos_gravar, lemma_indice, lemma_indice_push, ler};
use crate::leis::lei_termos_relevantes;
use crate::memoria::{consolidar_conceitos, FatoVista, MemoriaVista, CONFIANCA_RECORRENTE};
use crate::texto::{
    antes, aparada, comeca_com, contem, depois, minusculas, normalizada, numeral, termos, Criterio,
};

verus! {

/// The markers that state a fact in a sentence, in the order they are read:
/// `sujeito é predicado`, `... sao ...`, `... são ...`, `... significa ...`,
/// `... quer dizer ...` and `chave = valor`.
pub open spec fn marcadores() -> Seq<Seq<char>> {
    seq![" é "@, " sao "@, " são "@, " significa "@, " quer dizer "@, "="@]
}

/// A sentence that holds exactly one of the markers, with a subject and a
/// predicate around it, teaches that belief: after learning from it the
/// memory reads, at the normalised subject, the trimmed predicate stated by
/// the user, and one revision from the subject to the predicate is logged.
pub proof fn lei_frase_ensina(m: MemoriaVista, texto: Seq<char>, turno: usize, i: int)
    requires
        0 <= i < 6,
        contem(aparada(texto, Criterio::Espaco), marcadores()[i]),
        forall|j: int|
            0 <= j < 6 && j != i ==> !contem(
                aparada(texto, Criterio::Espaco),
                #[trigger] marcadores()[j],
            ),
        normalizada(antes(aparada(texto, Criterio::Espaco), marcadores()[i])).len() > 0,
        aparada(depois(aparada(texto, Criterio::Espaco), marcadores()[i]), Criterio::Espaco).len()
            > 0,
    ensures
        ({
            let l = aparada(texto, Criterio::Espaco);
            let k = normalizada(antes(l, marcadores()[i]));
            let v = aparada(depois(l, marcadores()[i]), Criterio::Espaco);
            let depois_m = m.com_texto(texto, turno);
            &&& ler(depois_m.semantica, k) matches Some(f) && f.valor == v && f.fonte == "usuario"@
            &&& depois_m.revisoes.len() == m.revisoes.len() + 1
            &&& depois_m.revisoes.last().chave == k
            &&& depois_m.revisoes.last().valor_novo == v
            &&& depois_m.revisoes.last().turno == turno
            &&& forall|outra: Seq<char>|
                outra != k ==> #[trigger] ler(depois_m.semantica, outra) == ler(
                    m.semantica,
                    outra,
                )
        }),
{
    let l = aparada(texto, Criterio::Espaco);
    let ms = marcadores();
    assert(ms[0] == " é "@ && ms[1] == " sao "@ && ms[2] == " são "@ && ms[3] == " significa "@
        && ms[4] == " quer dizer "@ && ms[5] == "="@);
    let mk = ms[i];
    let k = normalizada(antes(l, mk));
    let v = aparada(depois(l, mk), Criterio::Espaco);
    let u = "usuario"@;
    let antes_f = if i == 0 {
        m
    } else if i == 1 {
        m.com_marcador(l, ms[0], turno)
    } else if i == 2 {
        m.com_marcador(l, ms[0], turno).com_marcador(l, ms[1], turno)
    } else if i == 3 {
        m.com_marcador(l, ms[0], turno).com_marcador(l, ms[1], turno).com_marcador(
            l,
            ms[2],
            turno,
        )
    } else if i == 4 {
        m.com_marcador(l, ms[0], turno).com_marcador(l, ms[1], turno).com_marcador(
            l,
            ms[2],
            turno,
        ).com_marcador(l, ms[3], turno)
    } else {
        m.com_marcador(l, ms[0], turno).com_marcador(l, ms[1], turno).com_marcador(
            l,
            ms[2],
            turno,
        ).com_marcador(l, ms[3], turno).com_marcador(l, ms[4], turno)
    };
    assert(!contem(l, ms[0]) || i == 0);
    assert(!contem(l, ms[1]) || i == 1);
    assert(!contem(l, ms[2]) || i == 2);
    assert(!contem(l, ms[3]) || i == 3);
    assert(!contem(l, ms[4]) || i == 4);
    assert(!contem(l, ms[5]) || i == 5);
    assert(antes_f == m);
    let base = match ler(m.semantica, k) {
        Some(f) => f,
        None => crate::memoria::fato_inicial(v, u),
    };
    let nova = crate::memoria::revisao(base, v, u);
    lei_ler_apos_gravar(m.semantica, k, nova, k);
    assert forall|outra: Seq<char>| outra != k implies #[trigger] ler(
        crate::dicionario::gravar(m.semantica, k, nova),
        outra,
    ) == ler(m.semantica, outra) by {
        lei_ler_apos_gravar(m.semantica, k, nova, outra);
    }
}

/// When the belief about a query is `v`, and there is a belief about `v`
/// (normalised) too, the two are chained: the inference names the query's
/// key, `v`, the normalised `v` as the bridge, and what is believed of it.
pub proof fn lei_inferencia_encadeia(m: MemoriaVista, consulta: Seq<char>)
    ensures
        ({
            let q = normalizada(consulta);
            match ler(m.semantica, q) {
                None => m.inferencia(consulta) is None,
                Some(direto) => {
                    let ponte = normalizada(direto.valor);
                    match ler(m.semantica, ponte) {
                        None => m.inferencia(consulta) is None,
                        Some(segundo) => m.inferencia(consulta) == Some(
                            "inferência: se "@ + q + " => "@ + direto.valor + " e "@ + ponte
                                + " => "@ + segundo.valor + ", então "@ + q
                                + " se relaciona com "@ + segundo.valor,
                        ),
                    }
                },
            }
        }),
{
}

/// How a list of counters reads `k` once `(x, n)` is appended, where `x`
/// was not counted yet.
proof fn lemma_ler_push(cs: Seq<(Seq<char>, usize)>, x: Seq<char>, n: usize, k: Seq<char>)
    requires
        !chaves(cs).contains(x),
    ensures
        ler(cs.push((x, n)), k) == if k == x {
            Some(n)
        } else {
            ler(cs, k)
        },
{
    assert(chaves(cs.push((x, n))) =~= chaves(cs).push(x));
    lemma_indice(chaves(cs), k);
    lemma_indice(chaves(cs), x);
    lemma_indice_push(chaves(cs), x, k);
}

proof fn lemma_consolidar(sem: Seq<(Seq<char>, FatoVista)>, cs: Seq<(Seq<char>, usize)>, k: Seq<
    char,
>)
    requires
        chaves(cs).no_duplicates(),
    ensures
        ler(sem, k) is Some ==> ler(consolidar_conceitos(sem, cs), k) == ler(sem, k),
        ler(sem, k) is None ==> match ler(cs, k) {
            Some(n) => if n >= 4 {
                ler(consolidar_conceitos(sem, cs), k) == Some(
                    FatoVista {
                        valor: "conceito recorrente ("@ + numeral(n as nat) + " menções)"@,
                        confianca: CONFIANCA_RECORRENTE,
                        revisoes: 1,
                        fonte: "consolidacao"@,
                    },
                )
            } else {
                ler(consolidar_conceitos(sem, cs), k) is None
            },
            None => ler(consolidar_conceitos(sem, cs), k) is None,
        },
    decreases cs.len(),
{
    if cs.len() == 0 {
        assert(chaves(cs) =~= Seq::<Seq<char>>::empty());
        lemma_indice(chaves(cs), k);
    } else {
        let c0 = cs.drop_last();
        let x = cs.last().0;
        let n = cs.last().1;
        assert(cs == c0.push((x, n)));
        assert(chaves(c0) =~= chaves(cs).drop_last());
        assert(chaves(c0).no_duplicates()) by {
            assert forall|a: int, b: int|
                0 <= a < chaves(c0).len() && 0 <= b < chaves(c0).len() && a != b implies chaves(
                c0,
            )[a] != chaves(c0)[b] by {
                assert(chaves(c0)[a] == chaves(cs)[a] && chaves(c0)[b] == chaves(cs)[b]);
            }
        }
        assert(!chaves(c0).contains(x)) by {
            if chaves(c0).contains(x) {
                let a = choose|a: int| 0 <= a < chaves(c0).len() && chaves(c0)[a] == x;
                assert(chaves(cs)[a] == chaves(cs)[cs.len() - 1]);
            }
        }
        lemma_consolidar(sem, c0, k);
        lemma_consolidar(sem, c0, x);
        lemma_ler_push(c0, x, n, k);
        lemma_ler_push(c0, x, n, x);
        lemma_indice(chaves(c0), x);
        let s = consolidar_conceitos(sem, c0);
        let fr = crate::memoria::fato_recorrente(n);
        lei_ler_apos_gravar(s, x, fr, k);
    }
}

/// Consolidation keeps every belief held, and adds one for a concept not
/// yet believed exactly where it was mentioned at least four times: the
/// belief that it recurs, with that count.
pub proof fn lei_consolidacao_so_recorrentes(m: MemoriaVista, turno: usize, k: Seq<char>)
    requires
        chaves(m.conceitos).no_duplicates(),
    ensures
        ler(m.semantica, k) is Some ==> ler(m.consolidada(turno).semantica, k) == ler(
            m.semantica,
            k,
        ),
        ler(m.semantica, k) is None && ler(m.consolidada(turno).semantica, k) is Some ==> (ler(
            m.conceitos,
            k,
        ) matches Some(n) && n >= 4),
        ler(m.semantica, k) is None ==> match ler(m.conceitos, k) {
            Some(n) => n >= 4 ==> ler(m.consolidada(turno).semantica, k) == Some(
                FatoVista {
                    valor: "conceito recorrente ("@ + numeral(n as nat) + " menções)"@,
                    confianca: CONFIANCA_RECORRENTE,
                    revisoes: 1,
                    fonte: "consolidacao"@,
                },
            ),
            None => true,
        },
{
    lemma_consolidar(m.semantica, m.conceitos, k);
}

/// No term of a text is a Portuguese word without a topic of its own.
pub proof fn lei_termos_sem_palavras_vazias(texto: Seq<char>)
    ensures
        forall|i: int|
            0 <= i < termos(texto).len() ==> {
                let t = #[trigger] termos(texto)[i];
                &&& t != "de"@ && t != "da"@ && t != "do"@ && t != "das"@ && t != "dos"@
                &&& t != "a"@ && t != "o"@ && t != "e"@ && t != "um"@ && t != "uma"@
                &&& t != "que"@ && t != "como"@ && t != "para"@ && t != "com"@ && t != "sem"@
                &&& t != "por"@ && t != "em"@ && t != "no"@ && t != "na"@ && t != "nos"@
                &&& t != "nas"@ && t != "eu"@ && t != "você"@ && t != "voce"@ && t != "me"@
                &&& t != "te"@
            },
{
    lei_termos_relevantes(texto);
}

/// A message that is no command, is not refused, does not ask what the
/// agent knows and does not begin with "lembra de ", and that asks for
/// "passo a passo", is answered with the step-by-step tutorial.
pub proof fn lei_passo_a_passo(a: AgenteVista, entrada: Seq<char>)
    requires
        !comeca_com(entrada, "/"@),
        !(a.modo_seguro && crate::agente::pedido_ofensivo(minusculas(entrada))),
        !contem(minusculas(entrada), "o que você sabe"@),
        !contem(minusculas(entrada), "o que voce sabe"@),
        !comeca_com(minusculas(entrada), "lembra de "@),
        contem(minusculas(entrada), "passo a passo"@),
    ensures
        a.resposta(entrada).1 == (RespostaVista::Texto {
            texto: "PASSO A PASSO (do zero):\n1) Instale Rust: https://rustup.rs\n2) Abra o terminal e entre no projeto: cd /workspace/AI\n3) Formate: cargo fmt\n4) Teste: cargo test\n5) Execute: cargo run\n6) Ensine: /ensinar capital do brasil = brasilia\n7) Consulte: /fato capital do brasil ou lembra de capital do brasil\n8) Veja status: /status\n9) Ajuste segurança: /modo-seguro on|off\n10) Encerrar: sair\nObs.: o arquivo ./.aurora_memoria.json guarda o aprendizado entre sessões."@,
            salvar: crate::agente::Salvamento::ComAviso,
        }),
{
}

} // verus!
