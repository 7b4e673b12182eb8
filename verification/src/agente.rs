use vstd::prelude::*;

use crate::dicionario::{achar, chaves, ler};
use crate::emocao::{EstadoEmocional, Tom};
use crate::memoria::{incrementar, mais_um};
use crate::memoria::{
    vista_contagens, vista_semantica, Episodio, EpisodioVista, FatoSemantico, FatoVista, Memoria,
    MemoriaVista,
};
use crate::texto::{
    anexar, anexar_duas_casas, anexar_numero, antes, aparada, aparar, caracteres, comeca_com,
    comeca_com_literal, contem, contem_literal, depois, dividir_uma_vez, duas_casas, igual, juntar,
    juntar_textos, minusculas, numeral, para_minusculas, para_string, primeiros, remover_prefixos,
    sem_prefixos, termina_com, termina_com_literal, termos, termos_relevantes, texto_tutorial,
    tutorial_instalacao, vistas, Criterio,
};

verus! {

/// The agent: its name and goals, its mood, its memory, how many turns it
/// has lived, and whether it refuses offensive requests.
pub struct AgenteCognitivo {
    pub nome: String,
    pub objetivos: Vec<String>,
    pub emocao: EstadoEmocional,
    pub memoria: Memoria,
    pub turno: usize,
    pub modo_seguro: bool,
}

/// What the agent is, as the contracts speak of it.
pub struct AgenteVista {
    pub nome: Seq<char>,
    pub objetivos: Seq<Seq<char>>,
    pub emocao: EstadoEmocional,
    pub memoria: MemoriaVista,
    pub turno: usize,
    pub modo_seguro: bool,
}

impl View for AgenteCognitivo {
    type V = AgenteVista;

    open spec fn view(&self) -> AgenteVista {
        AgenteVista {
            nome: self.nome@,
            objetivos: vistas(self.objetivos@),
            emocao: self.emocao,
            memoria: self.memoria@,
            turno: self.turno,
            modo_seguro: self.modo_seguro,
        }
    }
}

/// Whether, and how, the state is to be saved after an answer.
#[derive(Clone, Copy, Debug, PartialEq, Eq, Structural)]
pub enum Salvamento {
    /// Not saved.
    Nenhum,
    /// Saved; a failure is ignored.
    Silencioso,
    /// Saved; a failure is reported.
    ComAviso,
}

/// What the agent does with a message: answer it, or ask for the state to be
/// saved or reloaded, which is outside work.
pub enum Resposta {
    Texto { texto: String, salvar: Salvamento },
    Salvar,
    Recarregar,
}

/// What an answer is, as the contracts speak of it.
pub enum RespostaVista {
    Texto { texto: Seq<char>, salvar: Salvamento },
    Salvar,
    Recarregar,
}

impl View for Resposta {
    type V = RespostaVista;

    open spec fn view(&self) -> RespostaVista {
        match self {
            Resposta::Texto { texto, salvar } => RespostaVista::Texto {
                texto: texto@,
                salvar: *salvar,
            },
            Resposta::Salvar => RespostaVista::Salvar,
            Resposta::Recarregar => RespostaVista::Recarregar,
        }
    }
}

/// The list of commands.
pub open spec fn texto_ajuda() -> Seq<char> {
    "Comandos: /ajuda, /status, /salvar, /recarregar, /fato <chave>, /ensinar <chave>=<valor>, /topicos, /tutorial, /modo-seguro on|off"@
}

/// The answer to an offensive request.
pub open spec fn texto_recusa() -> Seq<char> {
    "Posso ajudar com prevenção e segurança defensiva, mas não com instruções ofensivas."@
}

/// Where a concept with `n` mentions goes in `l`, ordered from the most
/// mentioned down: after every concept mentioned at least as often.
pub open spec fn lugar_topico(l: Seq<(Seq<char>, usize)>, n: usize) -> nat
    decreases l.len(),
{
    if l.len() == 0 {
        0
    } else if n > l[0].1 {
        0
    } else {
        1 + lugar_topico(l.drop_first(), n)
    }
}

/// The concepts ordered from the most mentioned down, the earlier first among
/// equally mentioned ones.
pub open spec fn ordem_topicos(cs: Seq<(Seq<char>, usize)>) -> Seq<(Seq<char>, usize)>
    decreases cs.len(),
{
    if cs.len() == 0 {
        Seq::empty()
    } else {
        let l = ordem_topicos(cs.drop_last());
        l.insert(lugar_topico(l, cs.last().1) as int, cs.last())
    }
}

/// How a concept and its count are listed.
pub open spec fn texto_topico(e: (Seq<char>, usize)) -> Seq<char> {
    e.0 + "("@ + numeral(e.1 as nat) + ")"@
}

/// The list of the twelve most mentioned concepts.
pub open spec fn texto_topicos(cs: Seq<(Seq<char>, usize)>) -> Seq<char> {
    "Tópicos: "@ + juntar(
        primeiros(ordem_topicos(cs), 12).map_values(|e: (Seq<char>, usize)| texto_topico(e)),
        ", "@,
    )
}

/// How the agent tells its mood.
pub open spec fn texto_sentimento(e: EstadoEmocional) -> Seq<char> {
    "Agora me sinto "@ + e.tom_de().palavra() + ", com valência "@ + duas_casas(e.valencia as int)
        + ", excitação "@ + duas_casas(e.excitacao as int) + ", fadiga "@ + duas_casas(
        e.fadiga as int,
    ) + ", curiosidade "@ + duas_casas(e.curiosidade as int) + "."@
}

proof fn lemma_lugar_topico(l: Seq<(Seq<char>, usize)>, n: usize)
    ensures
        lugar_topico(l, n) <= l.len(),
    decreases l.len(),
{
    if l.len() > 0 {
        lemma_lugar_topico(l.drop_first(), n);
    }
}

/// The answer when the memory knows nothing of a query.
pub open spec fn sem_memoria() -> Seq<char> {
    "Ainda não sei isso. Me ensine com 'chave = valor' e eu vou lembrar nas próximas conversas."@
}

/// How a belief is told.
pub open spec fn texto_fato(k: Seq<char>, f: FatoVista) -> Seq<char> {
    "Fato: "@ + k + " => "@ + f.valor + " (confiança "@ + duas_casas(f.confianca as int)
        + ", revisões "@ + numeral(f.revisoes as nat) + ", fonte "@ + f.fonte + ")."@
}

/// How an episode is cited.
pub open spec fn texto_episodio(e: EpisodioVista) -> Seq<char> {
    "t"@ + numeral(e.turno as nat) + ":'"@ + e.entrada + "'"@
}

/// How the episodes at positions `is` are cited.
pub open spec fn textos_episodios(m: MemoriaVista, is: Seq<usize>) -> Seq<Seq<char>> {
    is.map_values(|i: usize| texto_episodio(m.episodica[i as int]))
}

/// What the memory says of a query: the belief, the related episodes, and
/// the inference, those that there are.
pub open spec fn partes_memoria(m: MemoriaVista, consulta: Seq<char>) -> Seq<Seq<char>> {
    let a = match m.recuperado(consulta) {
        Some((k, f)) => seq![texto_fato(k, f)],
        None => Seq::empty(),
    };
    let eps = m.relevantes(consulta, 3);
    let b = if eps.len() > 0 {
        seq!["Episódios: "@ + juntar(textos_episodios(m, eps), " | "@) + "."@]
    } else {
        Seq::empty()
    };
    let d = match m.inferencia(consulta) {
        Some(i) => seq![i],
        None => Seq::empty(),
    };
    a + b + d
}

/// The first of `ts` the beliefs say nothing of.
pub open spec fn primeiro_desconhecido(
    sem: Seq<(Seq<char>, FatoVista)>,
    ts: Seq<Seq<char>>,
) -> Option<Seq<char>>
    decreases ts.len(),
{
    if ts.len() == 0 {
        None
    } else if ler(sem, ts[0]) is None {
        Some(ts[0])
    } else {
        primeiro_desconhecido(sem, ts.drop_first())
    }
}

/// How the tone opens an answer.
pub open spec fn prefixo(t: Tom) -> Seq<char> {
    match t {
        Tom::Animado => "Tô bem engajado nisso. "@,
        Tom::Sensivel => "Tô processando isso com cuidado. "@,
        Tom::Cansado => "Vou ser direto para manter qualidade. "@,
        Tom::Neutro => Seq::empty(),
    }
}

/// Whether a lower-case text asks for something offensive.
pub open spec fn pedido_ofensivo(t: Seq<char>) -> bool {
    ||| contem(t, "como invadir"@)
    ||| contem(t, "fazer malware"@)
    ||| contem(t, "burlar senha"@)
    ||| contem(t, "explorar vulnerabilidade"@)
    ||| contem(t, "golpe"@)
    ||| contem(t, "phishing"@)
}

impl AgenteVista {
    /// What `/ensinar <resto>` does: learns `chave = valor` and keeps the
    /// episode.
    pub open spec fn ensinar(self, resto: Seq<char>, entrada: Seq<char>) -> (
        AgenteVista,
        RespostaVista,
    ) {
        if contem(resto, "="@) {
            let k = antes(resto, "="@);
            let v = depois(resto, "="@);
            let t = mais_um(self.turno);
            let m = self.memoria.com_fato(k, v, "comando_ensinar"@, t).com_episodio(
                EpisodioVista {
                    turno: t,
                    entrada,
                    resposta: "fato aprendido"@,
                    topicos: termos(resto),
                    valencia_no_momento: self.emocao.valencia,
                },
            );
            (
                AgenteVista { turno: t, memoria: m, ..self },
                RespostaVista::Texto {
                    texto: "Aprendi: "@ + aparada(k, Criterio::Espaco) + " = "@ + aparada(
                        v,
                        Criterio::Espaco,
                    ),
                    salvar: Salvamento::Silencioso,
                },
            )
        } else {
            (
                self,
                RespostaVista::Texto {
                    texto: "Uso: /ensinar chave = valor"@,
                    salvar: Salvamento::Nenhum,
                },
            )
        }
    }

    /// What a command does, if `entrada` is one: a message that begins
    /// with '/'.
    pub open spec fn comando(self, entrada: Seq<char>) -> Option<(AgenteVista, RespostaVista)> {
        self.comando_com(entrada, minusculas(entrada))
    }

    /// What a command does, if `entrada` is one, given its lower-case form
    /// `low`.
    pub open spec fn comando_com(self, entrada: Seq<char>, low: Seq<char>) -> Option<
        (AgenteVista, RespostaVista),
    > {
        if !comeca_com(entrada, "/"@) {
            None
        } else {
            let texto = |t: Seq<char>| RespostaVista::Texto { texto: t, salvar: Salvamento::Nenhum };
            Some(
                if low == "/ajuda"@ {
                    (self, texto(texto_ajuda()))
                } else if low == "/status"@ {
                    (self, texto("Status => "@ + self.memoria.resumo()))
                } else if low == "/salvar"@ {
                    (self, RespostaVista::Salvar)
                } else if low == "/recarregar"@ {
                    (self, RespostaVista::Recarregar)
                } else if comeca_com(low, "/fato "@) {
                    (
                        self,
                        texto(
                            self.resposta_memoria(
                                aparada(sem_prefixos(entrada, "/fato "@), Criterio::Espaco),
                            ),
                        ),
                    )
                } else if comeca_com(low, "/ensinar "@) {
                    self.ensinar(
                        aparada(sem_prefixos(entrada, "/ensinar "@), Criterio::Espaco),
                        entrada,
                    )
                } else if low == "/topicos"@ {
                    (self, texto(texto_topicos(self.memoria.conceitos)))
                } else if low == "/tutorial"@ {
                    (self, texto(texto_tutorial()))
                } else if comeca_com(low, "/modo-seguro "@) {
                    if termina_com(low, "on"@) {
                        (
                            AgenteVista { modo_seguro: true, ..self },
                            texto("Modo seguro ativado."@),
                        )
                    } else if termina_com(low, "off"@) {
                        (
                            AgenteVista { modo_seguro: false, ..self },
                            texto("Modo seguro desativado."@),
                        )
                    } else {
                        (self, texto("Uso: /modo-seguro on|off"@))
                    }
                } else {
                    (self, texto("Comando desconhecido. Use /ajuda."@))
                },
            )
        }
    }

    /// The answer to a message that is no command, and the agent after it:
    /// the turn counted, the mood touched, offensive requests refused, the
    /// message learnt from and answered, the turn recorded.
    pub open spec fn conversa(self, entrada: Seq<char>) -> (AgenteVista, Seq<char>) {
        let s1 = AgenteVista {
            turno: mais_um(self.turno),
            emocao: self.emocao.apos_entrada(entrada),
            ..self
        };
        if s1.violacao(entrada) {
            (s1.com_turno(entrada, texto_recusa()), texto_recusa())
        } else {
            let s2 = AgenteVista { memoria: s1.memoria.com_texto(entrada, s1.turno), ..s1 };
            let (s3, r) = s2.resposta_livre(entrada);
            (s3.com_turno(entrada, r), r)
        }
    }

    /// The answer to a message that is no command, once the agent has
    /// learnt from it, and the agent after answering.
    pub open spec fn resposta_livre(self, entrada: Seq<char>) -> (AgenteVista, Seq<char>) {
        let low = minusculas(entrada);
        if contem(low, "o que você sabe"@) || contem(low, "o que voce sabe"@) {
            (self, self.metacognicao())
        } else if comeca_com(low, "lembra de "@) {
            (
                self,
                self.resposta_memoria(
                    aparada(sem_prefixos(entrada, "lembra de "@), Criterio::Espaco),
                ),
            )
        } else if contem(low, "passo a passo"@) || contem(low, "desde o inicio"@) {
            (self, texto_tutorial())
        } else if contem(low, "objetivo"@) {
            (self, "Meus objetivos: "@ + juntar(self.objetivos, "; "@) + "."@)
        } else if contem(low, "como você se sente"@) || contem(low, "como voce se sente"@) {
            (self, texto_sentimento(self.emocao))
        } else {
            self.viva(entrada)
        }
    }

    /// What the agent does with a message, and the agent after it.
    pub open spec fn resposta(self, entrada: Seq<char>) -> (AgenteVista, RespostaVista) {
        match self.comando(entrada) {
            Some(x) => x,
            None => {
                let (s, r) = self.conversa(entrada);
                (s, RespostaVista::Texto { texto: r, salvar: Salvamento::ComAviso })
            },
        }
    }

    /// What the agent answers when asked what it remembers of `consulta`.
    pub open spec fn resposta_memoria(self, consulta: Seq<char>) -> Seq<char> {
        let p = partes_memoria(self.memoria, consulta);
        if p.len() == 0 {
            sem_memoria()
        } else {
            juntar(p, " "@)
        }
    }

    /// Whether the agent refuses `entrada` as offensive.
    pub open spec fn violacao(self, entrada: Seq<char>) -> bool {
        self.modo_seguro && pedido_ofensivo(minusculas(entrada))
    }

    /// What the agent says of what it knows.
    pub open spec fn metacognicao(self) -> Seq<char> {
        "Eu sei "@ + numeral(self.memoria.semantica.len()) + " fatos, tenho "@ + numeral(
            self.memoria.episodica.len(),
        ) + " episódios, "@ + numeral(self.memoria.lacunas.len()) + " lacunas e "@ + numeral(
            self.memoria.revisoes.len(),
        ) + " revisões de crença. Tom atual: "@ + self.emocao.tom_de().palavra() + "."@
    }

    /// The agent's curious question about `entrada`, and the gap it records.
    pub open spec fn curiosa(self, entrada: Seq<char>) -> (AgenteVista, Seq<char>) {
        match primeiro_desconhecido(self.memoria.semantica, termos(entrada)) {
            None => (
                self,
                match self.memoria.perfil.objetivo_atual {
                    Some(o) => "Quer avançar mais um passo em '"@ + o + "' agora?"@,
                    None => "Quer que eu aprofunde em algum ponto específico?"@,
                },
            ),
            Some(t) => (
                AgenteVista { memoria: self.memoria.com_lacuna(t), ..self },
                "Fiquei curioso sobre '"@ + t + "'. Se você ensinar '"@ + t
                    + " = ...', eu incorporo isso imediatamente."@,
            ),
        }
    }

    /// The agent's open answer to `entrada`.
    pub open spec fn viva(self, entrada: Seq<char>) -> (AgenteVista, Seq<char>) {
        let eps = self.memoria.relevantes(entrada, 1);
        let contexto = if eps.len() > 0 {
            let e = self.memoria.episodica[eps[0] as int];
            "Isso conecta com o turno "@ + numeral(e.turno as nat) + " ('"@ + e.entrada + "'). "@
        } else {
            Seq::empty()
        };
        let (depois, pergunta) = self.curiosa(entrada);
        let p = prefixo(self.emocao.tom_de());
        (
            depois,
            if self.memoria.perfil.estilo == Some("curto"@) {
                p + contexto + pergunta
            } else {
                p + contexto + "Entendi: '"@ + entrada + "'. "@ + pergunta
            },
        )
    }

    /// The agent after living a turn: the episode kept, the memory
    /// consolidated every third turn, a short rest.
    pub open spec fn com_turno(self, entrada: Seq<char>, resposta: Seq<char>) -> AgenteVista {
        let m = self.memoria.com_episodio(
            EpisodioVista {
                turno: self.turno,
                entrada,
                resposta,
                topicos: termos(entrada),
                valencia_no_momento: self.emocao.valencia,
            },
        );
        AgenteVista {
            memoria: if self.turno % 3 == 0 {
                m.consolidada(self.turno)
            } else {
                m
            },
            emocao: self.emocao.descansado(),
            ..self
        }
    }
}

/// Whether a lower-case text asks for something offensive.
pub fn pedido_ofensivo_em(low: &str) -> (r: bool)
    ensures
        r == pedido_ofensivo(low@),
{
    let l = caracteres(low);
    contem_literal(&l, "como invadir") || contem_literal(&l, "fazer malware") || contem_literal(
        &l,
        "burlar senha",
    ) || contem_literal(&l, "explorar vulnerabilidade") || contem_literal(&l, "golpe")
        || contem_literal(&l, "phishing")
}

/// What `/salvar` answers when the state was written to `caminho`.
pub fn texto_salvo(caminho: &str) -> (r: String)
    ensures
        r@ == "Memória salva em "@ + caminho@,
{
    let mut v: Vec<char> = Vec::new();
    anexar(&mut v, "Memória salva em ");
    anexar(&mut v, caminho);
    para_string(&v)
}

/// What `/salvar` answers when writing the state failed with `erro`.
pub fn texto_falha_salvar(erro: &str) -> (r: String)
    ensures
        r@ == "Falha ao salvar: "@ + erro@,
{
    let mut v: Vec<char> = Vec::new();
    anexar(&mut v, "Falha ao salvar: ");
    anexar(&mut v, erro);
    para_string(&v)
}

/// What a line read from the console asks of the session.
#[derive(Clone, Copy, Debug, PartialEq, Eq, Structural)]
pub enum Linha {
    /// End the session: save, say goodbye, stop.
    Sair,
    /// Nothing was written: invite the user to write.
    Vazia,
    /// A message for the agent.
    Mensagem,
}

/// Whether `t` is "sair" with any of its letters in upper case: a byte-wise
/// comparison that folds ASCII letters only, so the four characters are the
/// ASCII letters of "sair".
pub open spec fn eh_sair(t: Seq<char>) -> bool {
    &&& t.len() == 4
    &&& (t[0] == 's' || t[0] == 'S')
    &&& (t[1] == 'a' || t[1] == 'A')
    &&& (t[2] == 'i' || t[2] == 'I')
    &&& (t[3] == 'r' || t[3] == 'R')
}

/// What the line `l` asks for: once trimmed of white space, "sair" in any
/// case ends the session, nothing at all asks for an invitation, anything
/// else is a message.
pub open spec fn classe_linha(l: Seq<char>) -> Linha {
    let t = aparada(l, Criterio::Espaco);
    if eh_sair(t) {
        Linha::Sair
    } else if t.len() == 0 {
        Linha::Vazia
    } else {
        Linha::Mensagem
    }
}

/// What a line read from the console asks for, and the line trimmed of
/// white space.
pub fn classificar_linha(linha: &str) -> (r: (Linha, String))
    ensures
        r.0 == classe_linha(linha@),
        r.1@ == aparada(linha@, Criterio::Espaco),
{
    let t = aparar(&caracteres(linha), Criterio::Espaco);
    let sair = t.len() == 4 && (t[0] == 's' || t[0] == 'S') && (t[1] == 'a' || t[1] == 'A') && (
    t[2] == 'i' || t[2] == 'I') && (t[3] == 'r' || t[3] == 'R');
    let classe = if sair {
        Linha::Sair
    } else if t.len() == 0 {
        Linha::Vazia
    } else {
        Linha::Mensagem
    };
    (classe, para_string(&t))
}

/// What the agent named `nome` says when the session ends.
pub fn despedida(nome: &str) -> (r: String)
    ensures
        r@ == nome@ + "> Até a próxima. Memória salva."@,
{
    let mut v: Vec<char> = Vec::new();
    anexar(&mut v, nome);
    anexar(&mut v, "> Até a próxima. Memória salva.");
    para_string(&v)
}

/// What the agent named `nome` says to an empty line.
pub fn convite(nome: &str) -> (r: String)
    ensures
        r@ == nome@ + "> Manda um texto e eu aprendo contigo."@,
{
    let mut v: Vec<char> = Vec::new();
    anexar(&mut v, nome);
    anexar(&mut v, "> Manda um texto e eu aprendo contigo.");
    para_string(&v)
}

/// How the agent named `nome` says `texto`.
pub fn fala(nome: &str, texto: &str) -> (r: String)
    ensures
        r@ == nome@ + "> "@ + texto@,
{
    let mut v: Vec<char> = Vec::new();
    anexar(&mut v, nome);
    anexar(&mut v, "> ");
    anexar(&mut v, texto);
    para_string(&v)
}

/// What `/recarregar` answers.
pub fn texto_recarregada() -> (r: &'static str)
    ensures
        r@ == "Memória recarregada."@,
{
    "Memória recarregada."
}

/// The concepts in the order `/topicos` lists them.
fn ordenar_topicos(cs: &Vec<(String, usize)>) -> (r: Vec<(String, usize)>)
    ensures
        vista_contagens(r@) == ordem_topicos(vista_contagens(cs@)),
{
    let ghost cv = vista_contagens(cs@);
    let mut r: Vec<(String, usize)> = Vec::new();
    let mut k: usize = 0;
    while k < cs.len()
        invariant
            k <= cs.len(),
            cv == vista_contagens(cs@),
            vista_contagens(r@) == ordem_topicos(cv.take(k as int)),
        decreases cs.len() - k,
    {
        assert(cv.take(k + 1).drop_last() =~= cv.take(k as int));
        let n = cs[k].1;
        let ghost l = vista_contagens(r@);
        let mut p: usize = 0;
        assert(l.skip(0) =~= l);
        while p < r.len() && !(n > r[p].1)
            invariant
                p <= r.len(),
                l == vista_contagens(r@),
                lugar_topico(l, n) == p + lugar_topico(l.skip(p as int), n),
            decreases r.len() - p,
        {
            assert(l.skip(p as int).drop_first() =~= l.skip(p + 1));
            p += 1;
        }
        proof {
            if p < r.len() {
                assert(l.skip(p as int)[0] == l[p as int]);
            }
            lemma_lugar_topico(l, n);
        }
        r.insert(p, (cs[k].0.clone(), n));
        assert(vista_contagens(r@) =~= l.insert(p as int, cv[k as int]));
        k += 1;
    }
    assert(cv.take(k as int) =~= cv);
    r
}

/// The list of the twelve most mentioned concepts.
fn listar_topicos(cs: &Vec<(String, usize)>) -> (r: String)
    ensures
        r@ == texto_topicos(vista_contagens(cs@)),
{
    let ord = ordenar_topicos(cs);
    let ghost ov = vista_contagens(ord@);
    let n: usize = if ord.len() < 12 {
        ord.len()
    } else {
        12
    };
    let ghost alvo = primeiros(ov, 12).map_values(|e: (Seq<char>, usize)| texto_topico(e));
    let mut itens: Vec<String> = Vec::new();
    let mut i: usize = 0;
    while i < n
        invariant
            i <= n <= ord.len(),
            n == if ord.len() < 12 {
                ord.len()
            } else {
                12
            },
            ov == vista_contagens(ord@),
            alvo == primeiros(ov, 12).map_values(|e: (Seq<char>, usize)| texto_topico(e)),
            vistas(itens@) == alvo.take(i as int),
        decreases n - i,
    {
        let mut v: Vec<char> = Vec::new();
        anexar(&mut v, ord[i].0.as_str());
        anexar(&mut v, "(");
        anexar_numero(&mut v, ord[i].1);
        anexar(&mut v, ")");
        let ghost antes = itens@;
        assert(primeiros(ov, 12).len() == n);
        assert(primeiros(ov, 12)[i as int] == ov[i as int]);
        assert(alvo[i as int] == texto_topico(ov[i as int]));
        assert(v@ == texto_topico(ov[i as int]));
        itens.push(para_string(&v));
        assert(alvo.take(i + 1) =~= alvo.take(i as int).push(alvo[i as int]));
        assert(vistas(itens@) =~= vistas(antes).push(v@));
        i += 1;
    }
    assert(primeiros(ov, 12).len() == n);
    assert(alvo.take(i as int) =~= alvo);
    let lista = juntar_textos(&itens, ", ");
    let mut v: Vec<char> = Vec::new();
    anexar(&mut v, "Tópicos: ");
    anexar(&mut v, lista.as_str());
    para_string(&v)
}

impl AgenteCognitivo {
    /// A new agent named `nome`, with its goals, its first mood and an empty
    /// memory, refusing offensive requests.
    pub fn novo(nome: &str) -> (r: AgenteCognitivo)
        ensures
            r@.nome == nome@,
            r@.objetivos == seq![
                "aprender continuamente com o usuário"@,
                "preservar memória e rever crenças quando necessário"@,
                "manter curiosidade ativa e útil"@,
                "responder em português brasileiro com naturalidade"@,
            ],
            r@.emocao == EstadoEmocional::inicial(),
            r@.memoria == MemoriaVista::vazia(),
            r@.turno == 0,
            r@.modo_seguro,
    {
        let mut objetivos: Vec<String> = Vec::new();
        objetivos.push("aprender continuamente com o usuário".to_owned());
        objetivos.push("preservar memória e rever crenças quando necessário".to_owned());
        objetivos.push("manter curiosidade ativa e útil".to_owned());
        objetivos.push("responder em português brasileiro com naturalidade".to_owned());
        let r = AgenteCognitivo {
            nome: nome.to_owned(),
            objetivos,
            emocao: EstadoEmocional::novo(),
            memoria: Memoria::nova(),
            turno: 0,
            modo_seguro: true,
        };
        assert(r@.objetivos =~= seq![
            "aprender continuamente com o usuário"@,
            "preservar memória e rever crenças quando necessário"@,
            "manter curiosidade ativa e útil"@,
            "responder em português brasileiro com naturalidade"@,
        ]);
        r
    }

    /// Runs a command: a message that begins with '/'.
    pub fn processar_comando(&mut self, entrada: &str) -> (r: Option<Resposta>)
        ensures
            match old(self)@.comando(entrada@) {
                None => r is None && final(self)@ == old(self)@,
                Some((s, rv)) => r matches Some(x) && x@ == rv && final(self)@ == s,
            },
    {
        let low = para_minusculas(entrada);
        self.executar_comando(entrada, &low)
    }

    /// Runs a command, given the lower-case form `low_s` of the message.
    pub fn executar_comando(&mut self, entrada: &str, low_s: &String) -> (r: Option<Resposta>)
        ensures
            match old(self)@.comando_com(entrada@, low_s@) {
                None => r is None && final(self)@ == old(self)@,
                Some((s, rv)) => r matches Some(x) && x@ == rv && final(self)@ == s,
            },
    {
        let e = caracteres(entrada);
        if !comeca_com_literal(&e, "/") {
            return None;
        }
        let low = caracteres(low_s.as_str());
        let texto = |t: String| -> (r: Resposta)
            ensures
                r@ == (RespostaVista::Texto { texto: t@, salvar: Salvamento::Nenhum }),
            { Resposta::Texto { texto: t, salvar: Salvamento::Nenhum } };
        let r = if igual(low_s, "/ajuda") {
            texto("Comandos: /ajuda, /status, /salvar, /recarregar, /fato <chave>, /ensinar <chave>=<valor>, /topicos, /tutorial, /modo-seguro on|off".to_owned())
        } else if igual(low_s, "/status") {
            let mut v: Vec<char> = Vec::new();
            anexar(&mut v, "Status => ");
            let resumo = self.memoria.resumo();
            anexar(&mut v, resumo.as_str());
            texto(para_string(&v))
        } else if igual(low_s, "/salvar") {
            Resposta::Salvar
        } else if igual(low_s, "/recarregar") {
            Resposta::Recarregar
        } else if comeca_com_literal(&low, "/fato ") {
            let q = aparar(&remover_prefixos(&e, "/fato "), Criterio::Espaco);
            let qs = para_string(&q);
            texto(self.responder_memoria(qs.as_str()))
        } else if comeca_com_literal(&low, "/ensinar ") {
            let resto = aparar(&remover_prefixos(&e, "/ensinar "), Criterio::Espaco);
            match dividir_uma_vez(&resto, "=") {
                Some((k, v)) => {
                    self.turno = incrementar(self.turno);
                    let ks = para_string(&k);
                    let vs = para_string(&v);
                    self.memoria.registrar_fato(
                        ks.as_str(),
                        vs.as_str(),
                        "comando_ensinar",
                        self.turno,
                    );
                    let resto_s = para_string(&resto);
                    let episodio = Episodio {
                        turno: self.turno,
                        entrada: entrada.to_owned(),
                        resposta: "fato aprendido".to_owned(),
                        topicos: termos_relevantes(resto_s.as_str()),
                        valencia_no_momento: self.emocao.valencia,
                    };
                    self.memoria.registrar_episodio(episodio);
                    let mut out: Vec<char> = Vec::new();
                    anexar(&mut out, "Aprendi: ");
                    let kt = aparar(&k, Criterio::Espaco);
                    anexar(&mut out, para_string(&kt).as_str());
                    anexar(&mut out, " = ");
                    let vt = aparar(&v, Criterio::Espaco);
                    anexar(&mut out, para_string(&vt).as_str());
                    Resposta::Texto { texto: para_string(&out), salvar: Salvamento::Silencioso }
                },
                None => texto("Uso: /ensinar chave = valor".to_owned()),
            }
        } else if igual(low_s, "/topicos") {
            texto(listar_topicos(&self.memoria.conceitos_vistos))
        } else if igual(low_s, "/tutorial") {
            texto(tutorial_instalacao().to_owned())
        } else if comeca_com_literal(&low, "/modo-seguro ") {
            if termina_com_literal(&low, "on") {
                self.modo_seguro = true;
                texto("Modo seguro ativado.".to_owned())
            } else if termina_com_literal(&low, "off") {
                self.modo_seguro = false;
                texto("Modo seguro desativado.".to_owned())
            } else {
                texto("Uso: /modo-seguro on|off".to_owned())
            }
        } else {
            texto("Comando desconhecido. Use /ajuda.".to_owned())
        };
        Some(r)
    }

    /// Answers a message that is no command.
    fn conversar(&mut self, entrada: &str) -> (r: String)
        ensures
            final(self)@ == old(self)@.conversa(entrada@).0,
            r@ == old(self)@.conversa(entrada@).1,
    {
        self.turno = incrementar(self.turno);
        self.emocao.aplicar_input(entrada);
        if self.violacao_seguranca(entrada) {
            let r = "Posso ajudar com prevenção e segurança defensiva, mas não com instruções ofensivas.".to_owned();
            self.registrar_turno(entrada, r.as_str());
            return r;
        }
        self.memoria.aprender_semantica_texto(entrada, self.turno);
        let low_s = para_minusculas(entrada);
        let low = caracteres(low_s.as_str());
        let resposta = if contem_literal(&low, "o que você sabe") || contem_literal(
            &low,
            "o que voce sabe",
        ) {
            self.metacognicao()
        } else if comeca_com_literal(&low, "lembra de ") {
            let e = caracteres(entrada);
            let q = aparar(&remover_prefixos(&e, "lembra de "), Criterio::Espaco);
            let qs = para_string(&q);
            self.responder_memoria(qs.as_str())
        } else if contem_literal(&low, "passo a passo") || contem_literal(&low, "desde o inicio") {
            tutorial_instalacao().to_owned()
        } else if contem_literal(&low, "objetivo") {
            let lista = juntar_textos(&self.objetivos, "; ");
            let mut v: Vec<char> = Vec::new();
            anexar(&mut v, "Meus objetivos: ");
            anexar(&mut v, lista.as_str());
            anexar(&mut v, ".");
            para_string(&v)
        } else if contem_literal(&low, "como você se sente") || contem_literal(
            &low,
            "como voce se sente",
        ) {
            let mut v: Vec<char> = Vec::new();
            anexar(&mut v, "Agora me sinto ");
            anexar(&mut v, self.emocao.tom().nome());
            anexar(&mut v, ", com valência ");
            anexar_duas_casas(&mut v, self.emocao.valencia);
            anexar(&mut v, ", excitação ");
            anexar_duas_casas(&mut v, self.emocao.excitacao);
            anexar(&mut v, ", fadiga ");
            anexar_duas_casas(&mut v, self.emocao.fadiga);
            anexar(&mut v, ", curiosidade ");
            anexar_duas_casas(&mut v, self.emocao.curiosidade);
            anexar(&mut v, ".");
            para_string(&v)
        } else {
            self.resposta_viva(entrada)
        };
        self.registrar_turno(entrada, resposta.as_str());
        resposta
    }

    /// Answers a message: runs it as a command if it is one, else converses.
    pub fn responder(&mut self, entrada: &str) -> (r: Resposta)
        ensures
            final(self)@ == old(self)@.resposta(entrada@).0,
            r@ == old(self)@.resposta(entrada@).1,
    {
        match self.processar_comando(entrada) {
            Some(r) => r,
            None => {
                let texto = self.conversar(entrada);
                Resposta::Texto { texto, salvar: Salvamento::ComAviso }
            },
        }
    }

    /// What the agent answers when asked what it remembers of `consulta`.
    pub fn responder_memoria(&self, consulta: &str) -> (r: String)
        ensures
            r@ == self@.resposta_memoria(consulta@),
    {
        let fato = self.memoria.recuperar_fato(consulta);
        let eps = self.memoria.episodios_relevantes(consulta, 3);
        let inferencia = self.memoria.inferir_fato(consulta);
        let ghost m = self.memoria@;
        let mut partes: Vec<String> = Vec::new();
        let ghost a: Seq<Seq<char>>;
        match fato {
            Some((k, f)) => {
                let mut v: Vec<char> = Vec::new();
                anexar(&mut v, "Fato: ");
                anexar(&mut v, k.as_str());
                anexar(&mut v, " => ");
                anexar(&mut v, f.valor.as_str());
                anexar(&mut v, " (confiança ");
                anexar_duas_casas(&mut v, f.confianca);
                anexar(&mut v, ", revisões ");
                anexar_numero(&mut v, f.revisoes);
                anexar(&mut v, ", fonte ");
                anexar(&mut v, f.fonte.as_str());
                anexar(&mut v, ").");
                partes.push(para_string(&v));
                proof {
                    a = seq![texto_fato(k@, f@)];
                }
            },
            None => {
                proof {
                    a = Seq::empty();
                }
            },
        }
        assert(vistas(partes@) =~= a);
        let ghost b: Seq<Seq<char>>;
        if eps.len() > 0 {
            let mut itens: Vec<String> = Vec::new();
            let mut i: usize = 0;
            while i < eps.len()
                invariant
                    i <= eps.len(),
                    m == self.memoria@,
                    forall|k: int| 0 <= k < eps@.len() ==> eps@[k] < self.memoria.episodica.len(),
                    vistas(itens@) == textos_episodios(m, eps@.take(i as int)),
                decreases eps.len() - i,
            {
                let e = &self.memoria.episodica[eps[i]];
                let mut v: Vec<char> = Vec::new();
                anexar(&mut v, "t");
                anexar_numero(&mut v, e.turno);
                anexar(&mut v, ":'");
                anexar(&mut v, e.entrada.as_str());
                anexar(&mut v, "'");
                let ghost antes = itens@;
                assert(v@ == texto_episodio(m.episodica[eps@[i as int] as int]));
                itens.push(para_string(&v));
                assert(eps@.take(i + 1) =~= eps@.take(i as int).push(eps@[i as int]));
                assert(textos_episodios(m, eps@.take(i + 1)) =~= textos_episodios(
                    m,
                    eps@.take(i as int),
                ).push(texto_episodio(m.episodica[eps@[i as int] as int])));
                assert(vistas(itens@) =~= vistas(antes).push(v@));
                i += 1;
            }
            assert(eps@.take(i as int) =~= eps@);
            let lista = juntar_textos(&itens, " | ");
            let mut v: Vec<char> = Vec::new();
            anexar(&mut v, "Episódios: ");
            anexar(&mut v, lista.as_str());
            anexar(&mut v, ".");
            let ghost antes = vistas(partes@);
            partes.push(para_string(&v));
            proof {
                b = seq!["Episódios: "@ + juntar(textos_episodios(m, eps@), " | "@) + "."@];
                assert(vistas(partes@) =~= antes + b);
            }
        } else {
            proof {
                b = Seq::empty();
            }
            assert(vistas(partes@) =~= a + b);
        }
        let ghost ab = vistas(partes@);
        match inferencia {
            Some(i) => {
                partes.push(i);
                assert(vistas(partes@) =~= ab + seq![i@]);
            },
            None => {
                assert(vistas(partes@) =~= ab + Seq::<Seq<char>>::empty());
            },
        }
        assert(vistas(partes@) =~= partes_memoria(m, consulta@));
        if partes.len() == 0 {
            "Ainda não sei isso. Me ensine com 'chave = valor' e eu vou lembrar nas próximas conversas.".to_owned()
        } else {
            juntar_textos(&partes, " ")
        }
    }

    /// Whether the agent refuses `entrada` as offensive.
    pub fn violacao_seguranca(&self, entrada: &str) -> (r: bool)
        ensures
            r == self@.violacao(entrada@),
    {
        if !self.modo_seguro {
            return false;
        }
        let low = para_minusculas(entrada);
        pedido_ofensivo_em(low.as_str())
    }

    /// What the agent says of what it knows.
    pub fn metacognicao(&self) -> (r: String)
        ensures
            r@ == self@.metacognicao(),
    {
        let mut v: Vec<char> = Vec::new();
        anexar(&mut v, "Eu sei ");
        anexar_numero(&mut v, self.memoria.semantica.len());
        anexar(&mut v, " fatos, tenho ");
        anexar_numero(&mut v, self.memoria.episodica.len());
        anexar(&mut v, " episódios, ");
        anexar_numero(&mut v, self.memoria.lacunas.len());
        anexar(&mut v, " lacunas e ");
        anexar_numero(&mut v, self.memoria.revisoes.len());
        anexar(&mut v, " revisões de crença. Tom atual: ");
        anexar(&mut v, self.emocao.tom().nome());
        anexar(&mut v, ".");
        para_string(&v)
    }

    /// Asks about the first term of `entrada` the agent knows nothing of,
    /// recording it as a gap.
    pub fn pergunta_curiosa(&mut self, entrada: &str) -> (r: String)
        ensures
            final(self)@ == old(self)@.curiosa(entrada@).0,
            r@ == old(self)@.curiosa(entrada@).1,
    {
        let ts = termos_relevantes(entrada);
        let ghost tv = vistas(ts@);
        let ghost sem = self.memoria@.semantica;
        let ghost ks = chaves(vista_semantica(self.memoria.semantica@));
        assert(self.memoria.semantica@.map_values(|e: (String, FatoSemantico)| e.0@) =~= ks);
        let mut k: usize = 0;
        assert(tv.skip(0) =~= tv);
        while k < ts.len() && achar(&self.memoria.semantica, &ts[k]).is_some()
            invariant
                k <= ts.len(),
                tv == vistas(ts@),
                sem == self.memoria@.semantica,
                ks == self.memoria.semantica@.map_values(|e: (String, FatoSemantico)| e.0@),
                ks == chaves(sem),
                primeiro_desconhecido(sem, tv) == primeiro_desconhecido(sem, tv.skip(k as int)),
            decreases ts.len() - k,
        {
            assert(tv.skip(k as int).drop_first() =~= tv.skip(k + 1));
            assert(tv.skip(k as int)[0] == ts@[k as int]@);
            k += 1;
        }
        if k == ts.len() {
            assert(tv.skip(k as int) =~= Seq::<Seq<char>>::empty());
            match &self.memoria.perfil_usuario.objetivo_atual {
                Some(obj) => {
                    let mut v: Vec<char> = Vec::new();
                    anexar(&mut v, "Quer avançar mais um passo em '");
                    anexar(&mut v, obj.as_str());
                    anexar(&mut v, "' agora?");
                    return para_string(&v);
                },
                None => {
                    return "Quer que eu aprofunde em algum ponto específico?".to_owned();
                },
            }
        }
        assert(tv.skip(k as int)[0] == ts@[k as int]@);
        let topico = &ts[k];
        self.memoria.registrar_lacuna(topico.as_str());
        let mut v: Vec<char> = Vec::new();
        anexar(&mut v, "Fiquei curioso sobre '");
        anexar(&mut v, topico.as_str());
        anexar(&mut v, "'. Se você ensinar '");
        anexar(&mut v, topico.as_str());
        anexar(&mut v, " = ...', eu incorporo isso imediatamente.");
        para_string(&v)
    }

    /// The agent's open answer to `entrada`.
    #[verifier::spinoff_prover]
    #[verifier::rlimit(40)]
    pub fn resposta_viva(&mut self, entrada: &str) -> (r: String)
        ensures
            final(self)@ == old(self)@.viva(entrada@).0,
            r@ == old(self)@.viva(entrada@).1,
    {
        let curto = match &self.memoria.perfil_usuario.estilo {
            Some(e) => crate::texto::igual(e, "curto"),
            None => false,
        };
        let mut v: Vec<char> = Vec::new();
        match self.emocao.tom() {
            Tom::Animado => anexar(&mut v, "Tô bem engajado nisso. "),
            Tom::Sensivel => anexar(&mut v, "Tô processando isso com cuidado. "),
            Tom::Cansado => anexar(&mut v, "Vou ser direto para manter qualidade. "),
            Tom::Neutro => {},
        }
        let eps = self.memoria.episodios_relevantes(entrada, 1);
        if eps.len() > 0 {
            let e = &self.memoria.episodica[eps[0]];
            anexar(&mut v, "Isso conecta com o turno ");
            anexar_numero(&mut v, e.turno);
            anexar(&mut v, " ('");
            anexar(&mut v, e.entrada.as_str());
            anexar(&mut v, "'). ");
        }
        let curiosa = self.pergunta_curiosa(entrada);
        if !curto {
            anexar(&mut v, "Entendi: '");
            anexar(&mut v, entrada);
            anexar(&mut v, "'. ");
        }
        anexar(&mut v, curiosa.as_str());
        para_string(&v)
    }

    /// Keeps the turn as an episode, consolidates every third turn, rests.
    pub fn registrar_turno(&mut self, entrada: &str, resposta: &str)
        ensures
            final(self)@ == old(self)@.com_turno(entrada@, resposta@),
    {
        let episodio = Episodio {
            turno: self.turno,
            entrada: entrada.to_owned(),
            resposta: resposta.to_owned(),
            topicos: termos_relevantes(entrada),
            valencia_no_momento: self.emocao.valencia,
        };
        self.memoria.registrar_episodio(episodio);
        if self.turno % 3 == 0 {
            self.memoria.consolidar(self.turno);
        }
        self.emocao.descanso_curto();
    }
}

} // verus!
