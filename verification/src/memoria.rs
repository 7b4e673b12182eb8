use std::collections::VecDeque;
use vstd::prelude::*;

use crate::binario::{maior, menor, multiplicar, produto, soma, somar};
use crate::dicionario::{achar, chaves, gravar, indice, lemma_indice, ler};
use crate::similaridade::{
    acima_do_limiar, mais_similar, melhor, LIMIAR_EPISODIO, similaridade, similaridade_textual, supera, Pontuacao,
    Similaridade,
};
use crate::texto::{
    anexar, anexar_numero, antes, aparada, aparar, bytes_utf8, caracteres, contem, contem_literal,
    depois, dividir_uma_vez, juntar, mais_de_dois_bytes, minusculas, normalizada, normalizar_chave,
    numeral, para_minusculas, para_string, primeiros, termos, termos_relevantes, vistas, Criterio,
};

verus! {

/// `n + 1`, held at `usize::MAX`.
pub open spec fn mais_um(n: usize) -> usize {
    if n < usize::MAX {
        (n + 1) as usize
    } else {
        n
    }
}

/// `n + 1`, held at `usize::MAX`.
pub fn incrementar(n: usize) -> (r: usize)
    ensures
        r == mais_um(n),
{
    if n < usize::MAX {
        n + 1
    } else {
        n
    }
}

/// One turn of the conversation as it was lived.
pub struct Episodio {
    pub turno: usize,
    pub entrada: String,
    pub resposta: String,
    pub topicos: Vec<String>,
    /// The valence at that moment, a single-precision number in counts of
    /// 2^-64.
    pub valencia_no_momento: i128,
}

/// What an episode is, as the contracts speak of it.
pub struct EpisodioVista {
    pub turno: usize,
    pub entrada: Seq<char>,
    pub resposta: Seq<char>,
    pub topicos: Seq<Seq<char>>,
    pub valencia_no_momento: i128,
}

impl View for Episodio {
    type V = EpisodioVista;

    open spec fn view(&self) -> EpisodioVista {
        EpisodioVista {
            turno: self.turno,
            entrada: self.entrada@,
            resposta: self.resposta@,
            topicos: vistas(self.topicos@),
            valencia_no_momento: self.valencia_no_momento,
        }
    }
}

/// A belief: what a key stands for, how sure of it the agent is, how many
/// times it was stated, and who stated it last.
pub struct FatoSemantico {
    pub valor: String,
    /// Confidence, a single-precision number in counts of 2^-64.
    pub confianca: i128,
    pub revisoes: usize,
    pub fonte: String,
}

/// What a belief is, as the contracts speak of it.
pub struct FatoVista {
    pub valor: Seq<char>,
    pub confianca: i128,
    pub revisoes: usize,
    pub fonte: Seq<char>,
}

impl View for FatoSemantico {
    type V = FatoVista;

    open spec fn view(&self) -> FatoVista {
        FatoVista {
            valor: self.valor@,
            confianca: self.confianca,
            revisoes: self.revisoes,
            fonte: self.fonte@,
        }
    }
}

impl FatoSemantico {
    /// A copy of the belief.
    pub fn copia(&self) -> (r: FatoSemantico)
        ensures
            r@ == self@,
    {
        FatoSemantico {
            valor: self.valor.clone(),
            confianca: self.confianca,
            revisoes: self.revisoes,
            fonte: self.fonte.clone(),
        }
    }
}

/// One change of belief: the key, what it held before, and what it holds now.
pub struct RevisaoFato {
    pub chave: String,
    pub valor_anterior: Option<String>,
    pub valor_novo: String,
    pub turno: usize,
}

/// What a revision is, as the contracts speak of it.
pub struct RevisaoVista {
    pub chave: Seq<char>,
    pub valor_anterior: Option<Seq<char>>,
    pub valor_novo: Seq<char>,
    pub turno: usize,
}

impl View for RevisaoFato {
    type V = RevisaoVista;

    open spec fn view(&self) -> RevisaoVista {
        RevisaoVista {
            chave: self.chave@,
            valor_anterior: match self.valor_anterior {
                Some(s) => Some(s@),
                None => None,
            },
            valor_novo: self.valor_novo@,
            turno: self.turno,
        }
    }
}

/// A topic the agent was curious about and has not been taught.
pub struct LacunaConhecimento {
    pub topico: String,
    pub tentativas: usize,
}

/// What a gap is, as the contracts speak of it.
pub struct LacunaVista {
    pub topico: Seq<char>,
    pub tentativas: usize,
}

impl View for LacunaConhecimento {
    type V = LacunaVista;

    open spec fn view(&self) -> LacunaVista {
        LacunaVista { topico: self.topico@, tentativas: self.tentativas }
    }
}

/// What the agent has learnt of its user.
pub struct PerfilUsuario {
    pub preferencias: Vec<(String, String)>,
    pub objetivo_atual: Option<String>,
    pub estilo: Option<String>,
}

/// What the profile is, as the contracts speak of it.
pub struct PerfilVista {
    pub preferencias: Seq<(Seq<char>, Seq<char>)>,
    pub objetivo_atual: Option<Seq<char>>,
    pub estilo: Option<Seq<char>>,
}

/// The view of an optional string.
pub open spec fn vista_opcional(o: Option<String>) -> Option<Seq<char>> {
    match o {
        Some(s) => Some(s@),
        None => None,
    }
}

impl View for PerfilUsuario {
    type V = PerfilVista;

    open spec fn view(&self) -> PerfilVista {
        PerfilVista {
            preferencias: self.preferencias@.map_values(|e: (String, String)| (e.0@, e.1@)),
            objetivo_atual: vista_opcional(self.objetivo_atual),
            estilo: vista_opcional(self.estilo),
        }
    }
}

/// The views of the entries of the semantic memory.
pub open spec fn vista_semantica(s: Seq<(String, FatoSemantico)>) -> Seq<(Seq<char>, FatoVista)> {
    s.map_values(|e: (String, FatoSemantico)| (e.0@, e.1@))
}

/// The views of a list of counters.
pub open spec fn vista_contagens(s: Seq<(String, usize)>) -> Seq<(Seq<char>, usize)> {
    s.map_values(|e: (String, usize)| (e.0@, e.1))
}

/// The views of the co-occurrence table.
pub open spec fn vista_coocorrencia(s: Seq<(String, Vec<(String, usize)>)>) -> Seq<
    (Seq<char>, Seq<(Seq<char>, usize)>),
> {
    s.map_values(|e: (String, Vec<(String, usize)>)| (e.0@, vista_contagens(e.1@)))
}

/// All the agent remembers: episodes, beliefs and their revisions, how often
/// each concept came up and with which others, its reflections, the gaps in
/// its knowledge, and what it knows of its user.
pub struct Memoria {
    pub episodica: Vec<Episodio>,
    pub semantica: Vec<(String, FatoSemantico)>,
    pub revisoes: Vec<RevisaoFato>,
    pub conceitos_vistos: Vec<(String, usize)>,
    pub coocorrencia: Vec<(String, Vec<(String, usize)>)>,
    pub reflexoes: Vec<String>,
    pub lacunas: VecDeque<LacunaConhecimento>,
    pub perfil_usuario: PerfilUsuario,
}

/// What the memory is, as the contracts speak of it.
pub struct MemoriaVista {
    pub episodica: Seq<EpisodioVista>,
    pub semantica: Seq<(Seq<char>, FatoVista)>,
    pub revisoes: Seq<RevisaoVista>,
    pub conceitos: Seq<(Seq<char>, usize)>,
    pub coocorrencia: Seq<(Seq<char>, Seq<(Seq<char>, usize)>)>,
    pub reflexoes: Seq<Seq<char>>,
    pub lacunas: Seq<LacunaVista>,
    pub perfil: PerfilVista,
}

impl View for Memoria {
    type V = MemoriaVista;

    open spec fn view(&self) -> MemoriaVista {
        MemoriaVista {
            episodica: self.episodica@.map_values(|e: Episodio| e@),
            semantica: vista_semantica(self.semantica@),
            revisoes: self.revisoes@.map_values(|r: RevisaoFato| r@),
            conceitos: vista_contagens(self.conceitos_vistos@),
            coocorrencia: vista_coocorrencia(self.coocorrencia@),
            reflexoes: vistas(self.reflexoes@),
            lacunas: self.lacunas@.map_values(|l: LacunaConhecimento| l@),
            perfil: self.perfil_usuario@,
        }
    }
}

/// 0.45 in single precision, in counts of 2^-64: the confidence of a new
/// belief.
pub const CONFIANCA_INICIAL: i128 = 8301034613266972672;
/// 0.4 in single precision: the confidence of a recurrent concept.
pub const CONFIANCA_RECORRENTE: i128 = 7378697739434983424;
/// 0.35 in single precision: the least confidence left after a change.
pub const CONFIANCA_MINIMA: i128 = 6456360315847180288;
/// 0.11 in single precision: what each statement adds.
pub const REFORCO: i128 = 2029141837112934400;
/// 0.99 in single precision: the most confidence a belief has.
pub const CONFIANCA_MAXIMA: i128 = 18262276808894316544;
/// 0.88 in single precision, as a multiple of 2^-24.
pub const DESCONTO: i128 = 14763950;

/// A belief as it is first held, before it is counted as stated.
pub open spec fn fato_inicial(valor: Seq<char>, fonte: Seq<char>) -> FatoVista {
    FatoVista { valor, confianca: CONFIANCA_INICIAL, revisoes: 0, fonte }
}

/// The confidence after one more statement: a changed value multiplies it
/// by 0.88 and brings it up to 0.35 at least; then every statement adds
/// 0.11 and brings it down to 0.99 at most; all in single precision.
pub open spec fn confianca_revista(c: i128, mudou: bool) -> int {
    let c1 = if mudou {
        maior(produto(c as int, DESCONTO as int), CONFIANCA_MINIMA as int)
    } else {
        c as int
    };
    menor(soma(c1, REFORCO as int), CONFIANCA_MAXIMA as int)
}

/// A belief after one more statement of `valor` by `fonte`.
pub open spec fn revisao(f: FatoVista, valor: Seq<char>, fonte: Seq<char>) -> FatoVista {
    FatoVista {
        valor,
        confianca: confianca_revista(f.confianca, f.valor != valor) as i128,
        revisoes: mais_um(f.revisoes),
        fonte,
    }
}

impl FatoSemantico {
    fn revisto(self, valor: &String, fonte: &str) -> (r: FatoSemantico)
        ensures
            r@ == revisao(self@, valor@, fonte@),
    {
        let c1: i128 = if self.valor != *valor {
            let p = multiplicar(self.confianca, DESCONTO);
            if p >= CONFIANCA_MINIMA {
                p
            } else {
                CONFIANCA_MINIMA
            }
        } else {
            self.confianca
        };
        let c2 = somar(c1, REFORCO);
        let confianca: i128 = if c2 <= CONFIANCA_MAXIMA {
            c2
        } else {
            CONFIANCA_MAXIMA
        };
        FatoSemantico {
            valor: valor.clone(),
            confianca,
            revisoes: incrementar(self.revisoes),
            fonte: fonte.to_owned(),
        }
    }
}

impl MemoriaVista {
    /// The memory that remembers nothing.
    pub open spec fn vazia() -> MemoriaVista {
        MemoriaVista {
            episodica: Seq::empty(),
            semantica: Seq::empty(),
            revisoes: Seq::empty(),
            conceitos: Seq::empty(),
            coocorrencia: Seq::empty(),
            reflexoes: Seq::empty(),
            lacunas: Seq::empty(),
            perfil: PerfilVista {
                preferencias: Seq::empty(),
                objetivo_atual: None,
                estilo: None,
            },
        }
    }

    /// The memory after `valor` is stated for `chave` by `fonte` at `turno`:
    /// the key is normalised and the value trimmed; where either is empty
    /// nothing changes; else the belief is revised and the revision logged.
    pub open spec fn com_fato(
        self,
        chave: Seq<char>,
        valor: Seq<char>,
        fonte: Seq<char>,
        turno: usize,
    ) -> MemoriaVista {
        let k = normalizada(chave);
        let v = aparada(valor, Criterio::Espaco);
        if k.len() == 0 || v.len() == 0 {
            self
        } else {
            let anterior = ler(self.semantica, k);
            let base = match anterior {
                Some(f) => f,
                None => fato_inicial(v, fonte),
            };
            MemoriaVista {
                semantica: gravar(self.semantica, k, revisao(base, v, fonte)),
                revisoes: self.revisoes.push(
                    RevisaoVista {
                        chave: k,
                        valor_anterior: match anterior {
                            Some(f) => Some(f.valor),
                            None => None,
                        },
                        valor_novo: v,
                        turno,
                    },
                ),
                ..self
            }
        }
    }
}

/// The most gaps in knowledge the memory keeps.
pub const MAX_LACUNAS: usize = 80;

/// The topics of a list of gaps.
pub open spec fn topicos_lacunas(l: Seq<LacunaVista>) -> Seq<Seq<char>> {
    l.map_values(|x: LacunaVista| x.topico)
}

/// A list of counters with `k` counted once more.
pub open spec fn incrementa(s: Seq<(Seq<char>, usize)>, k: Seq<char>) -> Seq<(Seq<char>, usize)> {
    gravar(
        s,
        k,
        mais_um(
            match ler(s, k) {
                Some(n) => n,
                None => 0,
            },
        ),
    )
}

/// A list of counters with each of `ts` counted once more, in order.
pub open spec fn contar_todos(s: Seq<(Seq<char>, usize)>, ts: Seq<Seq<char>>) -> Seq<
    (Seq<char>, usize),
>
    decreases ts.len(),
{
    if ts.len() == 0 {
        s
    } else {
        incrementa(contar_todos(s, ts.drop_last()), ts.last())
    }
}

/// The co-occurrence table with the pair `a`, `b` counted once more.
pub open spec fn incrementa_par(
    c: Seq<(Seq<char>, Seq<(Seq<char>, usize)>)>,
    a: Seq<char>,
    b: Seq<char>,
) -> Seq<(Seq<char>, Seq<(Seq<char>, usize)>)> {
    gravar(
        c,
        a,
        incrementa(
            match ler(c, a) {
                Some(linha) => linha,
                None => Seq::empty(),
            },
            b,
        ),
    )
}

/// The co-occurrence table with `a` counted with each of `bs`, both ways.
pub open spec fn ligar_com(
    c: Seq<(Seq<char>, Seq<(Seq<char>, usize)>)>,
    a: Seq<char>,
    bs: Seq<Seq<char>>,
) -> Seq<(Seq<char>, Seq<(Seq<char>, usize)>)>
    decreases bs.len(),
{
    if bs.len() == 0 {
        c
    } else {
        ligar_com(incrementa_par(incrementa_par(c, a, bs[0]), bs[0], a), a, bs.drop_first())
    }
}

/// The co-occurrence table with every pair of `ts` counted both ways.
pub open spec fn ligar(c: Seq<(Seq<char>, Seq<(Seq<char>, usize)>)>, ts: Seq<Seq<char>>) -> Seq<
    (Seq<char>, Seq<(Seq<char>, usize)>),
>
    decreases ts.len(),
{
    if ts.len() == 0 {
        c
    } else {
        ligar(ligar_com(c, ts[0], ts.drop_first()), ts.drop_first())
    }
}

impl MemoriaVista {
    /// The memory after the agent was curious about `topico` without knowing
    /// it: a known gap counts one more attempt; a new one is appended, the
    /// oldest dropped when the list is full. Topics under three bytes are
    /// ignored.
    pub open spec fn com_lacuna(self, topico: Seq<char>) -> MemoriaVista {
        let t = normalizada(topico);
        if bytes_utf8(t) < 3 {
            self
        } else {
            let i = indice(topicos_lacunas(self.lacunas), t);
            let l = if i >= 0 {
                self.lacunas.update(
                    i,
                    LacunaVista { topico: t, tentativas: mais_um(self.lacunas[i].tentativas) },
                )
            } else {
                let base = if self.lacunas.len() >= MAX_LACUNAS {
                    self.lacunas.drop_first()
                } else {
                    self.lacunas
                };
                base.push(LacunaVista { topico: t, tentativas: 1 })
            };
            MemoriaVista { lacunas: l, ..self }
        }
    }

    /// The memory with one more episode.
    pub open spec fn com_episodio(self, e: EpisodioVista) -> MemoriaVista {
        MemoriaVista { episodica: self.episodica.push(e), ..self }
    }

    /// The memory after reading the user's profile from `texto`: a liking
    /// after "eu gosto de ", a goal after "meu objetivo ", a style of answer.
    pub open spec fn com_perfil(self, texto: Seq<char>) -> MemoriaVista {
        self.com_perfil_minusculo(minusculas(texto))
    }

    /// The memory after reading the user's profile from the lower-case text
    /// `low`.
    pub open spec fn com_perfil_minusculo(self, low: Seq<char>) -> MemoriaVista {
        let p = self.perfil;
        let preferencias = if contem(low, "eu gosto de "@) {
            gravar(
                p.preferencias,
                "gosto"@,
                aparada(depois(low, "eu gosto de "@), Criterio::Espaco),
            )
        } else {
            p.preferencias
        };
        let objetivo_atual = if contem(low, "meu objetivo "@) {
            Some(aparada(depois(low, "meu objetivo "@), Criterio::Espaco))
        } else {
            p.objetivo_atual
        };
        let estilo = if contem(low, "responda curto"@) {
            Some("curto"@)
        } else if contem(low, "responda detalhado"@) {
            Some("detalhado"@)
        } else {
            p.estilo
        };
        MemoriaVista { perfil: PerfilVista { preferencias, objetivo_atual, estilo }, ..self }
    }

    /// The memory after the terms of `texto` were counted, alone and in pairs.
    pub open spec fn com_topologia(self, texto: Seq<char>) -> MemoriaVista {
        let ts = termos(texto);
        MemoriaVista {
            conceitos: contar_todos(self.conceitos, ts),
            coocorrencia: ligar(self.coocorrencia, ts),
            ..self
        }
    }

    /// The memory after the fact `chave <marcador> valor` in `limpo`, if the
    /// marker occurs there, was stated by the user.
    pub open spec fn com_marcador(
        self,
        limpo: Seq<char>,
        marcador: Seq<char>,
        turno: usize,
    ) -> MemoriaVista {
        if contem(limpo, marcador) {
            self.com_fato(antes(limpo, marcador), depois(limpo, marcador), "usuario"@, turno)
        } else {
            self
        }
    }

    /// The memory after learning from a sentence of the user: facts stated
    /// with " é ", " sao ", " são ", " significa ", " quer dizer " and "=",
    /// then the profile, then the terms.
    pub open spec fn com_texto(self, texto: Seq<char>, turno: usize) -> MemoriaVista {
        let l = aparada(texto, Criterio::Espaco);
        self.com_marcador(l, " é "@, turno).com_marcador(l, " sao "@, turno).com_marcador(
            l,
            " são "@,
            turno,
        ).com_marcador(l, " significa "@, turno).com_marcador(l, " quer dizer "@, turno).com_marcador(
            l,
            "="@,
            turno,
        ).com_perfil(l).com_topologia(l)
    }
}

/// Counts `k` once more.
fn incrementar_contagem(v: &mut Vec<(String, usize)>, k: &String)
    ensures
        vista_contagens(final(v)@) == incrementa(vista_contagens(old(v)@), k@),
{
    let idx = achar(v, k);
    let ghost ks = chaves(vista_contagens(v@));
    assert(v@.map_values(|e: (String, usize)| e.0@) =~= ks);
    let ghost antes = v@;
    match idx {
        Some(i) => {
            let n = incrementar(v[i].1);
            v.set(i, (k.clone(), n));
            assert(vista_contagens(v@) =~= vista_contagens(antes).update(i as int, (k@, n)));
        },
        None => {
            v.push((k.clone(), 1));
            assert(vista_contagens(v@) =~= vista_contagens(antes).push((k@, 1)));
        },
    }
}

/// Counts `b` once more among the companions of `a`.
fn incrementar_par(c: &mut Vec<(String, Vec<(String, usize)>)>, a: &String, b: &String)
    ensures
        vista_coocorrencia(final(c)@) == incrementa_par(vista_coocorrencia(old(c)@), a@, b@),
{
    let idx = achar(c, a);
    let ghost ks = chaves(vista_coocorrencia(c@));
    assert(c@.map_values(|e: (String, Vec<(String, usize)>)| e.0@) =~= ks);
    let ghost antes = c@;
    match idx {
        Some(i) => {
            let (_, mut linha) = c.remove(i);
            assert(vista_contagens(linha@) == vista_coocorrencia(antes)[i as int].1);
            incrementar_contagem(&mut linha, b);
            c.insert(i, (a.clone(), linha));
            assert(vista_coocorrencia(c@) =~= vista_coocorrencia(antes).update(
                i as int,
                (a@, vista_contagens(linha@)),
            ));
        },
        None => {
            let mut linha: Vec<(String, usize)> = Vec::new();
            assert(vista_contagens(linha@) =~= Seq::<(Seq<char>, usize)>::empty());
            incrementar_contagem(&mut linha, b);
            c.push((a.clone(), linha));
            assert(vista_coocorrencia(c@) =~= vista_coocorrencia(antes).push(
                (a@, vista_contagens(linha@)),
            ));
        },
    }
}

/// The most reflections the memory keeps.
pub const MAX_REFLEXOES: usize = 1500;

/// The belief that a concept mentioned `freq` times comes up again and again.
pub open spec fn fato_recorrente(freq: usize) -> FatoVista {
    FatoVista {
        valor: "conceito recorrente ("@ + numeral(freq as nat) + " menções)"@,
        confianca: CONFIANCA_RECORRENTE,
        revisoes: 1,
        fonte: "consolidacao"@,
    }
}

/// The beliefs after every concept mentioned four times or more, and not yet
/// believed anything of, is believed to be recurrent.
pub open spec fn consolidar_conceitos(
    sem: Seq<(Seq<char>, FatoVista)>,
    cs: Seq<(Seq<char>, usize)>,
) -> Seq<(Seq<char>, FatoVista)>
    decreases cs.len(),
{
    if cs.len() == 0 {
        sem
    } else {
        let s = consolidar_conceitos(sem, cs.drop_last());
        let k = cs.last().0;
        let f = cs.last().1;
        if f >= 4 && ler(s, k) is None {
            gravar(s, k, fato_recorrente(f))
        } else {
            s
        }
    }
}

/// The reflection written when the memory is consolidated at `turno`.
pub open spec fn reflexao(turno: usize, n_fatos: nat, lacunas: Seq<LacunaVista>) -> Seq<char> {
    "Turno "@ + numeral(turno as nat) + ": consolidei "@ + numeral(n_fatos) + " fatos; lacunas ativas ["@
        + juntar(primeiros(topicos_lacunas(lacunas), 3), ", "@) + "]."@
}

/// The inference that chains two beliefs: `q` means `b`, and `b` means `c`.
pub open spec fn texto_inferencia(q: Seq<char>, direto: Seq<char>, ponte: Seq<char>, segundo: Seq<
    char,
>) -> Seq<char> {
    "inferência: se "@ + q + " => "@ + direto + " e "@ + ponte + " => "@ + segundo + ", então "@ + q
        + " se relaciona com "@ + segundo
}

impl MemoriaVista {
    /// The memory after consolidation at `turno`: recurrent concepts become
    /// beliefs, a reflection is written, and only the latest reflections are
    /// kept.
    pub open spec fn consolidada(self, turno: usize) -> MemoriaVista {
        let sem = consolidar_conceitos(self.semantica, self.conceitos);
        let r = self.reflexoes.push(reflexao(turno, sem.len(), self.lacunas));
        MemoriaVista {
            semantica: sem,
            reflexoes: if r.len() > MAX_REFLEXOES {
                r.skip(r.len() - MAX_REFLEXOES)
            } else {
                r
            },
            ..self
        }
    }

    /// A summary of what the memory holds.
    pub open spec fn resumo(self) -> Seq<char> {
        numeral(self.semantica.len()) + " fatos | "@ + numeral(self.episodica.len())
            + " episódios | "@ + numeral(self.lacunas.len()) + " lacunas | "@ + numeral(
            self.revisoes.len(),
        ) + " revisões de crença"@
    }

    /// The inference that `consulta` supports by chaining two beliefs, if any.
    pub open spec fn inferencia(self, consulta: Seq<char>) -> Option<Seq<char>> {
        let q = normalizada(consulta);
        match ler(self.semantica, q) {
            None => None,
            Some(direto) => {
                let ponte = normalizada(direto.valor);
                match ler(self.semantica, ponte) {
                    None => None,
                    Some(segundo) => Some(
                        texto_inferencia(q, direto.valor, ponte, segundo.valor),
                    ),
                }
            },
        }
    }
}

/// How often `q` and `k` came up together.
pub open spec fn contagem_topologica(m: MemoriaVista, q: Seq<char>, k: Seq<char>) -> usize {
    match ler(m.coocorrencia, q) {
        Some(linha) => match ler(linha, k) {
            Some(n) => n,
            None => 0,
        },
        None => 0,
    }
}

/// The score of the belief about `k` for the query `q`.
pub open spec fn pontuacao(m: MemoriaVista, q: Seq<char>, k: Seq<char>) -> Pontuacao {
    let c = contagem_topologica(m, q, k);
    Pontuacao {
        lexica: similaridade(k, q),
        topologica: if c < 4 {
            c as u8
        } else {
            4u8
        },
    }
}

/// The score of the `i`-th belief for the query `q`.
pub open spec fn pontuacao_em(m: MemoriaVista, q: Seq<char>, i: int) -> Pontuacao {
    pontuacao(m, q, m.semantica[i].0)
}

/// Among the first `n` beliefs, the position of the last one of highest
/// score above 0.24 for `q`, or -1.
pub open spec fn escolha(m: MemoriaVista, q: Seq<char>, n: nat) -> int
    decreases n,
{
    if n == 0 {
        -1
    } else {
        let b = escolha(m, q, (n - 1) as nat);
        let p = pontuacao_em(m, q, n - 1);
        if acima_do_limiar(p) && (b < 0 || !melhor(pontuacao_em(m, q, b), p)) {
            n - 1
        } else {
            b
        }
    }
}

impl MemoriaVista {
    /// The belief that answers `consulta`: the one about its key, else the
    /// best scored above 0.24.
    pub open spec fn recuperado(self, consulta: Seq<char>) -> Option<(Seq<char>, FatoVista)> {
        let q = normalizada(consulta);
        match ler(self.semantica, q) {
            Some(f) => Some((q, f)),
            None => {
                let i = escolha(self, q, self.semantica.len());
                if i >= 0 {
                    Some(self.semantica[i])
                } else {
                    None
                }
            },
        }
    }
}

/// The similarity of a query to what was said in the `i`-th episode.
pub open spec fn similaridade_episodio(m: MemoriaVista, c: Seq<char>, i: int) -> Similaridade {
    similaridade(c, m.episodica[i].entrada)
}

/// Whether the `i`-th episode relates to the query: similarity above 0.2.
pub open spec fn episodio_relevante(m: MemoriaVista, c: Seq<char>, i: int) -> bool {
    supera(similaridade_episodio(m, c, i), LIMIAR_EPISODIO as int)
}

/// Where the `j`-th episode goes in the list `l`, ordered from the most
/// similar down: after every episode at least as similar.
pub open spec fn lugar(m: MemoriaVista, c: Seq<char>, l: Seq<usize>, j: int) -> nat
    decreases l.len(),
{
    if l.len() == 0 {
        0
    } else if mais_similar(similaridade_episodio(m, c, j), similaridade_episodio(m, c, l[0] as int)) {
        0
    } else {
        1 + lugar(m, c, l.drop_first(), j)
    }
}

/// The relevant episodes among the first `n`, from the most similar down,
/// the earlier first among equally similar ones.
pub open spec fn ordenados(m: MemoriaVista, c: Seq<char>, n: nat) -> Seq<usize>
    decreases n,
{
    if n == 0 {
        Seq::empty()
    } else {
        let l = ordenados(m, c, (n - 1) as nat);
        if episodio_relevante(m, c, n - 1) {
            l.insert(lugar(m, c, l, n - 1) as int, (n - 1) as usize)
        } else {
            l
        }
    }
}

impl MemoriaVista {
    /// At most `limite` of the episodes that relate to `consulta`, the most
    /// similar first.
    pub open spec fn relevantes(self, consulta: Seq<char>, limite: usize) -> Seq<usize> {
        primeiros(ordenados(self, consulta, self.episodica.len()), limite as nat)
    }
}

/// Turns the recurrent concepts into beliefs.
fn consolidar_semantica(sem: &mut Vec<(String, FatoSemantico)>, conceitos: &Vec<(String, usize)>)
    ensures
        vista_semantica(final(sem)@) == consolidar_conceitos(
            vista_semantica(old(sem)@),
            vista_contagens(conceitos@),
        ),
{
    let ghost cs = vista_contagens(conceitos@);
    let ghost s0 = vista_semantica(sem@);
    let mut k: usize = 0;
    while k < conceitos.len()
        invariant
            k <= conceitos.len(),
            cs == vista_contagens(conceitos@),
            s0 == vista_semantica(old(sem)@),
            vista_semantica(sem@) == consolidar_conceitos(s0, cs.take(k as int)),
        decreases conceitos.len() - k,
    {
        assert(cs.take(k + 1).drop_last() =~= cs.take(k as int));
        let freq = conceitos[k].1;
        if freq >= 4 {
            let idx = achar(sem, &conceitos[k].0);
            let ghost ks = chaves(vista_semantica(sem@));
            assert(sem@.map_values(|e: (String, FatoSemantico)| e.0@) =~= ks);
            if idx.is_none() {
                let mut v: Vec<char> = Vec::new();
                anexar(&mut v, "conceito recorrente (");
                anexar_numero(&mut v, freq);
                anexar(&mut v, " menções)");
                let fato = FatoSemantico {
                    valor: para_string(&v),
                    confianca: CONFIANCA_RECORRENTE,
                    revisoes: 1,
                    fonte: "consolidacao".to_owned(),
                };
                let ghost antes = sem@;
                sem.push((conceitos[k].0.clone(), fato));
                assert(vista_semantica(sem@) =~= vista_semantica(antes).push(
                    (conceitos@[k as int].0@, fato_recorrente(freq)),
                ));
            }
        }
        k += 1;
    }
    assert(cs.take(k as int) =~= cs);
}

/// Counts each of `termos` once more.
fn contar_termos(c: &mut Vec<(String, usize)>, termos: &Vec<String>)
    ensures
        vista_contagens(final(c)@) == contar_todos(vista_contagens(old(c)@), vistas(termos@)),
{
    let ghost ts = vistas(termos@);
    let ghost c0 = vista_contagens(c@);
    let mut k: usize = 0;
    while k < termos.len()
        invariant
            k <= termos.len(),
            ts == vistas(termos@),
            c0 == vista_contagens(old(c)@),
            vista_contagens(c@) == contar_todos(c0, ts.take(k as int)),
        decreases termos.len() - k,
    {
        assert(ts.take(k + 1).drop_last() =~= ts.take(k as int));
        incrementar_contagem(c, &termos[k]);
        k += 1;
    }
    assert(ts.take(k as int) =~= ts);
}

/// Counts every pair of `termos` once more, both ways.
fn ligar_termos(c: &mut Vec<(String, Vec<(String, usize)>)>, termos: &Vec<String>)
    ensures
        vista_coocorrencia(final(c)@) == ligar(vista_coocorrencia(old(c)@), vistas(termos@)),
{
    let ghost ts = vistas(termos@);
    let ghost p0 = vista_coocorrencia(c@);
    let mut i: usize = 0;
    assert(ts.skip(0) =~= ts);
    while i < termos.len()
        invariant
            i <= termos.len(),
            ts == vistas(termos@),
            p0 == vista_coocorrencia(old(c)@),
            ligar(p0, ts) == ligar(vista_coocorrencia(c@), ts.skip(i as int)),
        decreases termos.len() - i,
    {
        let ghost ci = vista_coocorrencia(c@);
        let ghost a = ts[i as int];
        assert(ts.skip(i as int).drop_first() =~= ts.skip(i + 1));
        assert(ts.skip(i as int)[0] == a);
        let mut j: usize = i + 1;
        while j < termos.len()
            invariant
                i < j <= termos.len(),
                ts == vistas(termos@),
                a == ts[i as int],
                a == termos@[i as int]@,
                ligar_com(ci, a, ts.skip(i + 1)) == ligar_com(
                    vista_coocorrencia(c@),
                    a,
                    ts.skip(j as int),
                ),
            decreases termos.len() - j,
        {
            assert(ts.skip(j as int).drop_first() =~= ts.skip(j + 1));
            assert(ts.skip(j as int)[0] == termos@[j as int]@);
            incrementar_par(c, &termos[i], &termos[j]);
            incrementar_par(c, &termos[j], &termos[i]);
            j += 1;
        }
        assert(ts.skip(j as int) =~= Seq::<Seq<char>>::empty());
        i += 1;
    }
    assert(ts.skip(i as int) =~= Seq::<Seq<char>>::empty());
}

/// The position of the first gap about `t`.
fn achar_lacuna(l: &VecDeque<LacunaConhecimento>, t: &String) -> (r: Option<usize>)
    ensures
        match r {
            Some(i) => i < l.len() && i == indice(
                topicos_lacunas(l@.map_values(|x: LacunaConhecimento| x@)),
                t@,
            ),
            None => indice(topicos_lacunas(l@.map_values(|x: LacunaConhecimento| x@)), t@) == -1,
        },
{
    let ghost ts = topicos_lacunas(l@.map_values(|x: LacunaConhecimento| x@));
    let mut i: usize = 0;
    while i < l.len()
        invariant
            i <= l.len(),
            ts == topicos_lacunas(l@.map_values(|x: LacunaConhecimento| x@)),
            forall|j: int| 0 <= j < i ==> ts[j] != t@,
        decreases l.len() - i,
    {
        if l[i].topico == *t {
            proof {
                crate::dicionario::lemma_indice_primeiro(ts, t@, i as int);
            }
            return Some(i);
        }
        i += 1;
    }
    proof {
        lemma_indice(ts, t@);
        if indice(ts, t@) >= 0 {
            assert(ts[indice(ts, t@)] == t@);
        }
    }
    None
}

impl Memoria {
    /// An empty memory.
    pub fn nova() -> (m: Memoria)
        ensures
            m@ == MemoriaVista::vazia(),
    {
        let m = Memoria {
            episodica: Vec::new(),
            semantica: Vec::new(),
            revisoes: Vec::new(),
            conceitos_vistos: Vec::new(),
            coocorrencia: Vec::new(),
            reflexoes: Vec::new(),
            lacunas: VecDeque::new(),
            perfil_usuario: PerfilUsuario {
                preferencias: Vec::new(),
                objetivo_atual: None,
                estilo: None,
            },
        };
        assert(m@.episodica =~= Seq::empty());
        assert(m@.semantica =~= Seq::empty());
        assert(m@.revisoes =~= Seq::empty());
        assert(m@.conceitos =~= Seq::empty());
        assert(m@.coocorrencia =~= Seq::empty());
        assert(m@.reflexoes =~= Seq::empty());
        assert(m@.lacunas =~= Seq::empty());
        assert(m@.perfil.preferencias =~= Seq::empty());
        m
    }

    /// Records that `valor` was stated for `chave` by `fonte` at `turno`.
    pub fn registrar_fato(&mut self, chave: &str, valor: &str, fonte: &str, turno: usize)
        ensures
            final(self)@ == old(self)@.com_fato(chave@, valor@, fonte@, turno),
    {
        let key = normalizar_chave(chave);
        let vv = caracteres(valor);
        let value_cs = aparar(&vv, Criterio::Espaco);
        if key.as_str().is_empty() || value_cs.len() == 0 {
            return ;
        }
        let value = para_string(&value_cs);
        let idx = achar(&self.semantica, &key);
        let ghost ks = chaves(vista_semantica(self.semantica@));
        assert(self.semantica@.map_values(|e: (String, FatoSemantico)| e.0@) =~= ks);
        let (anterior, base) = match idx {
            Some(i) => (Some(self.semantica[i].1.valor.clone()), self.semantica[i].1.copia()),
            None => (
                None,
                FatoSemantico {
                    valor: value.clone(),
                    confianca: CONFIANCA_INICIAL,
                    revisoes: 0,
                    fonte: fonte.to_owned(),
                },
            ),
        };
        let novo = base.revisto(&value, fonte);
        let ghost antes = self.semantica@;
        match idx {
            Some(i) => {
                self.semantica.set(i, (key.clone(), novo));
                assert(vista_semantica(self.semantica@) =~= vista_semantica(antes).update(
                    i as int,
                    (key@, novo@),
                ));
            },
            None => {
                self.semantica.push((key.clone(), novo));
                assert(vista_semantica(self.semantica@) =~= vista_semantica(antes).push(
                    (key@, novo@),
                ));
            },
        }
        let ghost rev_antes = self.revisoes@;
        self.revisoes.push(
            RevisaoFato { chave: key, valor_anterior: anterior, valor_novo: value, turno },
        );
        assert(self.revisoes@.map_values(|r: RevisaoFato| r@) =~= rev_antes.map_values(
            |r: RevisaoFato| r@,
        ).push(self.revisoes@.last()@));
    }

    /// Records that the agent met `topico` without knowing it.
    pub fn registrar_lacuna(&mut self, topico: &str)
        ensures
            final(self)@ == old(self)@.com_lacuna(topico@),
    {
        let t = normalizar_chave(topico);
        let cs = caracteres(t.as_str());
        if !mais_de_dois_bytes(&cs) {
            return ;
        }
        let ghost antes = self.lacunas@;
        match achar_lacuna(&self.lacunas, &t) {
            Some(i) => {
                let n = incrementar(self.lacunas[i].tentativas);
                let _ = self.lacunas.remove(i);
                self.lacunas.insert(i, LacunaConhecimento { topico: t, tentativas: n });
                assert(self.lacunas@.map_values(|l: LacunaConhecimento| l@) =~= antes.map_values(
                    |l: LacunaConhecimento| l@,
                ).update(i as int, LacunaVista { topico: t@, tentativas: n }));
                return ;
            },
            None => {},
        }
        if self.lacunas.len() >= MAX_LACUNAS {
            let _ = self.lacunas.pop_front();
            assert(self.lacunas@.map_values(|l: LacunaConhecimento| l@) =~= antes.map_values(
                |l: LacunaConhecimento| l@,
            ).drop_first());
        }
        let ghost meio = self.lacunas@;
        self.lacunas.push_back(LacunaConhecimento { topico: t, tentativas: 1 });
        assert(self.lacunas@.map_values(|l: LacunaConhecimento| l@) =~= meio.map_values(
            |l: LacunaConhecimento| l@,
        ).push(LacunaVista { topico: t@, tentativas: 1 }));
    }

    /// Keeps an episode.
    pub fn registrar_episodio(&mut self, episodio: Episodio)
        ensures
            final(self)@ == old(self)@.com_episodio(episodio@),
    {
        let ghost antes = self.episodica@;
        self.episodica.push(episodio);
        assert(self.episodica@.map_values(|e: Episodio| e@) =~= antes.map_values(|e: Episodio| e@).push(
            episodio@,
        ));
    }

    /// Learns the user's likings, goal and preferred style from `texto`.
    pub fn aprender_perfil_usuario(&mut self, texto: &str)
        ensures
            final(self)@ == old(self)@.com_perfil(texto@),
    {
        let low_s = para_minusculas(texto);
        self.aprender_perfil_minusculo(low_s.as_str());
    }

    /// Learns the user's likings, goal and preferred style from the lower-case
    /// text `low_s`.
    pub fn aprender_perfil_minusculo(&mut self, low_s: &str)
        ensures
            final(self)@ == old(self)@.com_perfil_minusculo(low_s@),
    {
        let low = caracteres(low_s);
        match dividir_uma_vez(&low, "eu gosto de ") {
            Some((_, valor)) => {
                let v = para_string(&aparar(&valor, Criterio::Espaco));
                let k = "gosto".to_owned();
                let prefs = &mut self.perfil_usuario.preferencias;
                let idx = achar(prefs, &k);
                let ghost antes = prefs@;
                let ghost ks = chaves(antes.map_values(|e: (String, String)| (e.0@, e.1@)));
                assert(antes.map_values(|e: (String, String)| e.0@) =~= ks);
                match idx {
                    Some(i) => {
                        prefs.set(i, (k, v));
                    },
                    None => {
                        prefs.push((k, v));
                    },
                }
                assert(prefs@.map_values(|e: (String, String)| (e.0@, e.1@)) =~= gravar(
                    antes.map_values(|e: (String, String)| (e.0@, e.1@)),
                    "gosto"@,
                    v@,
                ));
            },
            None => {},
        }
        match dividir_uma_vez(&low, "meu objetivo ") {
            Some((_, valor)) => {
                self.perfil_usuario.objetivo_atual = Some(
                    para_string(&aparar(&valor, Criterio::Espaco)),
                );
            },
            None => {},
        }
        if contem_literal(&low, "responda curto") {
            self.perfil_usuario.estilo = Some("curto".to_owned());
        } else if contem_literal(&low, "responda detalhado") {
            self.perfil_usuario.estilo = Some("detalhado".to_owned());
        }
    }

    /// Counts the terms of `texto`, each alone and each pair together.
    pub fn atualizar_topologia(&mut self, texto: &str)
        ensures
            final(self)@ == old(self)@.com_topologia(texto@),
    {
        let termos_v = termos_relevantes(texto);
        contar_termos(&mut self.conceitos_vistos, &termos_v);
        ligar_termos(&mut self.coocorrencia, &termos_v);
    }

    /// Consolidates the memory at `turno`.
    pub fn consolidar(&mut self, turno: usize)
        ensures
            final(self)@ == old(self)@.consolidada(turno),
    {
        consolidar_semantica(&mut self.semantica, &self.conceitos_vistos);
        let mut v: Vec<char> = Vec::new();
        anexar(&mut v, "Turno ");
        anexar_numero(&mut v, turno);
        anexar(&mut v, ": consolidei ");
        anexar_numero(&mut v, self.semantica.len());
        anexar(&mut v, " fatos; lacunas ativas [");
        let ghost ts = topicos_lacunas(self@.lacunas);
        let n: usize = if self.lacunas.len() < 3 {
            self.lacunas.len()
        } else {
            3
        };
        let ghost base = v@;
        let mut i: usize = 0;
        while i < n
            invariant
                i <= n <= self.lacunas.len(),
                n == if self.lacunas.len() < 3 {
                    self.lacunas.len()
                } else {
                    3
                },
                ts == topicos_lacunas(self.lacunas@.map_values(|l: LacunaConhecimento| l@)),
                v@ == base + juntar(ts.take(i as int), ", "@),
            decreases n - i,
        {
            assert(ts.take(i + 1).drop_last() =~= ts.take(i as int));
            assert(ts.take(i + 1).last() == self.lacunas@[i as int].topico@);
            if i > 0 {
                anexar(&mut v, ", ");
            } else {
                assert(juntar(ts.take(0), ", "@) =~= Seq::<char>::empty());
            }
            anexar(&mut v, self.lacunas[i].topico.as_str());
            assert(v@ =~= base + juntar(ts.take(i + 1), ", "@));
            i += 1;
        }
        assert(ts.take(n as int) =~= primeiros(ts, 3));
        anexar(&mut v, "].");
        let ghost r0 = vistas(self.reflexoes@);
        self.reflexoes.push(para_string(&v));
        assert(vistas(self.reflexoes@) =~= r0.push(v@));
        if self.reflexoes.len() > MAX_REFLEXOES {
            let remove = self.reflexoes.len() - MAX_REFLEXOES;
            let ghost r1 = self.reflexoes@;
            let resto = self.reflexoes.split_off(remove);
            self.reflexoes = resto;
            assert(vistas(self.reflexoes@) =~= vistas(r1).skip(remove as int));
        }
    }

    /// A summary of what the memory holds.
    pub fn resumo(&self) -> (r: String)
        ensures
            r@ == self@.resumo(),
    {
        let mut v: Vec<char> = Vec::new();
        anexar_numero(&mut v, self.semantica.len());
        anexar(&mut v, " fatos | ");
        anexar_numero(&mut v, self.episodica.len());
        anexar(&mut v, " episódios | ");
        anexar_numero(&mut v, self.lacunas.len());
        anexar(&mut v, " lacunas | ");
        anexar_numero(&mut v, self.revisoes.len());
        anexar(&mut v, " revisões de crença");
        para_string(&v)
    }

    /// Chains two beliefs: what `consulta` means, and what that means in turn.
    pub fn inferir_fato(&self, consulta: &str) -> (r: Option<String>)
        ensures
            r matches Some(s) ==> self@.inferencia(consulta@) == Some(s@),
            r is None ==> self@.inferencia(consulta@) is None,
    {
        let q = normalizar_chave(consulta);
        let ghost ks = chaves(vista_semantica(self.semantica@));
        assert(self.semantica@.map_values(|e: (String, FatoSemantico)| e.0@) =~= ks);
        let i = achar(&self.semantica, &q)?;
        let direto = &self.semantica[i].1.valor;
        let ponte = normalizar_chave(direto.as_str());
        let j = achar(&self.semantica, &ponte)?;
        let segundo = &self.semantica[j].1.valor;
        let mut v: Vec<char> = Vec::new();
        anexar(&mut v, "inferência: se ");
        anexar(&mut v, q.as_str());
        anexar(&mut v, " => ");
        anexar(&mut v, direto.as_str());
        anexar(&mut v, " e ");
        anexar(&mut v, ponte.as_str());
        anexar(&mut v, " => ");
        anexar(&mut v, segundo.as_str());
        anexar(&mut v, ", então ");
        anexar(&mut v, q.as_str());
        anexar(&mut v, " se relaciona com ");
        anexar(&mut v, segundo.as_str());
        Some(para_string(&v))
    }

    /// The belief that answers `consulta`.
    pub fn recuperar_fato(&self, consulta: &str) -> (r: Option<(String, FatoSemantico)>)
        ensures
            r matches Some((k, f)) ==> self@.recuperado(consulta@) == Some((k@, f@)),
            r is None ==> self@.recuperado(consulta@) is None,
    {
        let q = normalizar_chave(consulta);
        let ghost m = self@;
        let ghost ks = chaves(vista_semantica(self.semantica@));
        assert(self.semantica@.map_values(|e: (String, FatoSemantico)| e.0@) =~= ks);
        match achar(&self.semantica, &q) {
            Some(i) => {
                return Some((q.clone(), self.semantica[i].1.copia()));
            },
            None => {},
        }
        let ghost cks = chaves(vista_coocorrencia(self.coocorrencia@));
        assert(self.coocorrencia@.map_values(|e: (String, Vec<(String, usize)>)| e.0@) =~= cks);
        let linha = achar(&self.coocorrencia, &q);
        let mut escolhido: Option<usize> = None;
        let mut melhor_p = Pontuacao { lexica: Similaridade { comuns: 0, uniao: 0 }, topologica: 0 };
        let mut k: usize = 0;
        while k < self.semantica.len()
            invariant
                k <= self.semantica.len(),
                m == self@,
                linha matches Some(li) ==> li < self.coocorrencia.len() && ler(
                    m.coocorrencia,
                    q@,
                ) == Some(vista_contagens(self.coocorrencia@[li as int].1@)),
                linha is None ==> ler(m.coocorrencia, q@) is None,
                match escolhido {
                    Some(i) => i < k && i == escolha(m, q@, k as nat) && melhor_p == pontuacao_em(
                        m,
                        q@,
                        i as int,
                    ),
                    None => escolha(m, q@, k as nat) == -1,
                },
            decreases self.semantica.len() - k,
        {
            let chave = &self.semantica[k].0;
            let lex = similaridade_textual(chave.as_str(), q.as_str());
            let c: usize = match linha {
                Some(li) => {
                    let l = &self.coocorrencia[li].1;
                    let ghost lks = chaves(vista_contagens(l@));
                    assert(l@.map_values(|e: (String, usize)| e.0@) =~= lks);
                    match achar(l, chave) {
                        Some(x) => l[x].1,
                        None => 0,
                    }
                },
                None => 0,
            };
            let p = Pontuacao {
                lexica: lex,
                topologica: if c < 4 {
                    c as u8
                } else {
                    4
                },
            };
            assert(p == pontuacao_em(m, q@, k as int));
            if p.acima_do_limiar() && (escolhido.is_none() || !melhor_p.melhor_que(&p)) {
                escolhido = Some(k);
                melhor_p = p;
            }
            k += 1;
        }
        match escolhido {
            Some(i) => Some((self.semantica[i].0.clone(), self.semantica[i].1.copia())),
            None => None,
        }
    }

    /// The positions of at most `limite` episodes that relate to `consulta`,
    /// the most similar first.
    pub fn episodios_relevantes(&self, consulta: &str, limite: usize) -> (r: Vec<usize>)
        ensures
            r@ == self@.relevantes(consulta@, limite),
            forall|k: int| 0 <= k < r@.len() ==> r@[k] < self.episodica.len(),
    {
        let ghost m = self@;
        let n = self.episodica.len();
        let mut sims: Vec<Similaridade> = Vec::new();
        let mut i: usize = 0;
        while i < n
            invariant
                i <= n == self.episodica.len(),
                m == self@,
                sims@.len() == i,
                forall|k: int| 0 <= k < i ==> sims@[k] == similaridade_episodio(m, consulta@, k),
            decreases n - i,
        {
            sims.push(similaridade_textual(consulta, self.episodica[i].entrada.as_str()));
            i += 1;
        }
        let mut l: Vec<usize> = Vec::new();
        let mut j: usize = 0;
        while j < n
            invariant
                j <= n == self.episodica.len(),
                m == self@,
                sims@.len() == n,
                forall|k: int| 0 <= k < n ==> sims@[k] == similaridade_episodio(m, consulta@, k),
                l@ == ordenados(m, consulta@, j as nat),
                forall|k: int| 0 <= k < l@.len() ==> l@[k] < j,
            decreases n - j,
        {
            if sims[j].supera(LIMIAR_EPISODIO) {
                let mut p: usize = 0;
                assert(l@.skip(0) =~= l@);
                while p < l.len() && !sims[j].mais_similar_que(&sims[l[p]])
                    invariant
                        p <= l.len(),
                        j < n,
                        sims@.len() == n,
                        forall|k: int| 0 <= k < l@.len() ==> l@[k] < j,
                        forall|k: int|
                            0 <= k < n ==> sims@[k] == similaridade_episodio(m, consulta@, k),
                        lugar(m, consulta@, l@, j as int) == p + lugar(
                            m,
                            consulta@,
                            l@.skip(p as int),
                            j as int,
                        ),
                    decreases l.len() - p,
                {
                    assert(l@.skip(p as int).drop_first() =~= l@.skip(p + 1));
                    p += 1;
                }
                proof {
                    if p < l.len() {
                        assert(l@.skip(p as int)[0] == l@[p as int]);
                    }
                }
                let ghost antes = l@;
                l.insert(p, j);
                assert forall|k: int| 0 <= k < l@.len() implies l@[k] < j + 1 by {
                    if k < p {
                        assert(l@[k] == antes[k]);
                    } else if k > p {
                        assert(l@[k] == antes[k - 1]);
                    }
                }
            }
            j += 1;
        }
        if l.len() > limite {
            l.truncate(limite);
        }
        l
    }

    fn aprender_marcador(&mut self, limpo: &Vec<char>, marcador: &str, turno: usize)
        ensures
            final(self)@ == old(self)@.com_marcador(limpo@, marcador@, turno),
    {
        match dividir_uma_vez(limpo, marcador) {
            Some((a, b)) => {
                let sa = para_string(&a);
                let sb = para_string(&b);
                self.registrar_fato(sa.as_str(), sb.as_str(), "usuario", turno);
            },
            None => {},
        }
    }

    /// Learns from a sentence of the user: the facts it states, the user's
    /// profile, and the terms it relates.
    pub fn aprender_semantica_texto(&mut self, texto: &str, turno: usize)
        ensures
            final(self)@ == old(self)@.com_texto(texto@, turno),
    {
        let cs = caracteres(texto);
        let limpo = aparar(&cs, Criterio::Espaco);
        self.aprender_marcador(&limpo, " é ", turno);
        self.aprender_marcador(&limpo, " sao ", turno);
        self.aprender_marcador(&limpo, " são ", turno);
        self.aprender_marcador(&limpo, " significa ", turno);
        self.aprender_marcador(&limpo, " quer dizer ", turno);
        self.aprender_marcador(&limpo, "=", turno);
        let ls = para_string(&limpo);
        self.aprender_perfil_usuario(ls.as_str());
        self.atualizar_topologia(ls.as_str());
    }
}

} // verus!
