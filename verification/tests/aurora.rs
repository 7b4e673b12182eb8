use aurora::agente::{
    classificar_linha, convite, despedida, fala, texto_falha_salvar, texto_recarregada, texto_salvo,
    Linha,
};
use aurora::binario::{arredondar, dividir, multiplicar, somar, UM};
use aurora::memoria::FatoSemantico;
use aurora::similaridade::LIMIAR_EPISODIO;
use aurora::texto::{anexar_duas_casas, eh_espaco};
use aurora::{
    normalizar_chave, similaridade_textual, termos_relevantes, tutorial_instalacao,
    AgenteCognitivo, EstadoEmocional, Memoria, Resposta, Salvamento, Tom,
};

fn texto(r: Resposta) -> String {
    match r {
        Resposta::Texto { texto, .. } => texto,
        Resposta::Salvar => panic!("pediu para salvar"),
        Resposta::Recarregar => panic!("pediu para recarregar"),
    }
}

/// A number held by the library as the single-precision number it is.
fn f(c: i128) -> f32 {
    (c as f64 / 18446744073709551616.0) as f32
}

/// A single-precision number as the library holds it.
fn u(x: f32) -> i128 {
    (x as f64 * 18446744073709551616.0) as i128
}

/// The mood as single-precision numbers, changed as the agent changes it.
#[derive(Clone, Copy)]
struct Humor {
    valencia: f32,
    excitacao: f32,
    fadiga: f32,
    curiosidade: f32,
}

impl Humor {
    fn novo() -> Self {
        Humor { valencia: 0.2, excitacao: 0.35, fadiga: 0.0, curiosidade: 0.65 }
    }
    fn aplicar(&mut self, texto: &str) {
        let t = texto.to_lowercase();
        if ["obrigado", "valeu", "show", "perfeito", "boa"].iter().any(|k| t.contains(k)) {
            self.valencia += 0.10;
            self.excitacao += 0.05;
        }
        if ["ruim", "triste", "raiva", "frustrado", "decepcionado"].iter().any(|k| t.contains(k)) {
            self.valencia -= 0.14;
            self.excitacao += 0.06;
        }
        if ["?", "como", "por que", "me ensina", "passo a passo"].iter().any(|k| t.contains(k)) {
            self.curiosidade += 0.12;
        }
        self.fadiga += 0.02;
        self.valencia = self.valencia.clamp(-1.0, 1.0);
        self.excitacao = self.excitacao.clamp(0.0, 1.0);
        self.fadiga = self.fadiga.clamp(0.0, 1.0);
        self.curiosidade = self.curiosidade.clamp(0.0, 1.0);
    }
    fn descansar(&mut self) {
        self.fadiga = (self.fadiga - 0.013).max(0.0);
        self.excitacao = (self.excitacao - 0.01).max(0.0);
        self.curiosidade = (self.curiosidade - 0.006).max(0.0);
    }
    fn igual(&self, e: &EstadoEmocional) -> bool {
        f(e.valencia) == self.valencia
            && f(e.excitacao) == self.excitacao
            && f(e.fadiga) == self.fadiga
            && f(e.curiosidade) == self.curiosidade
    }
}

fn duas_casas(x: i128) -> String {
    let mut v: Vec<char> = Vec::new();
    anexar_duas_casas(&mut v, x);
    v.into_iter().collect()
}

fn salvamento(r: &Resposta) -> Option<Salvamento> {
    match r {
        Resposta::Texto { salvar, .. } => Some(*salvar),
        _ => None,
    }
}

#[test]
fn aprende_por_comando_e_recupera() {
    let mut a = AgenteCognitivo::novo("Teste");
    let _ = a.responder("/ensinar python = linguagem");
    let r = texto(a.responder("/fato python"));
    assert!(r.contains("linguagem"));
}

#[test]
fn revisa_crenca() {
    let mut a = AgenteCognitivo::novo("Teste");
    let _ = a.responder("terra é planeta");
    let _ = a.responder("terra é nosso lar");
    let r = texto(a.responder("/fato terra"));
    assert!(r.contains("revisões"));
}

#[test]
fn inferencia_basica() {
    let mut a = AgenteCognitivo::novo("Teste");
    let _ = a.responder("rust é linguagem");
    let _ = a.responder("linguagem é ferramenta de pensamento");
    let r = texto(a.responder("/fato rust"));
    assert!(r.contains("inferência"));
}

#[test]
fn tutorial_contem_execucao() {
    assert!(tutorial_instalacao().contains("cargo run"));
}

#[test]
fn similaridade_ok() {
    let s = similaridade_textual("aprender rust rápido", "rust para aprender");
    assert!(f(s.valor()) > 0.2);
}

#[test]
fn similaridade_exata() {
    let s = similaridade_textual("aprender rust rápido", "rust para aprender");
    assert_eq!((s.comuns, s.uniao), (2, 3));
    assert_eq!(f(s.valor()), 2.0f32 / 3.0f32);
    assert!(s.supera(LIMIAR_EPISODIO));
    assert!(!s.supera(s.valor()));
    let vazia = similaridade_textual("de a o", "rust");
    assert_eq!((vazia.comuns, vazia.uniao), (0, 1));
    assert_eq!(vazia.valor(), 0);
    assert!(!vazia.supera(0));
}

#[test]
fn normaliza_chaves() {
    assert_eq!(normalizar_chave("  Capital do Brasil?! "), "capital do brasil");
    assert_eq!(normalizar_chave("--Olá--"), "olá");
    assert_eq!(normalizar_chave("a   b"), "a  b");
    assert_eq!(normalizar_chave("\t*São Paulo*\n"), "são paulo");
    assert_eq!(normalizar_chave("..."), "");
}

#[test]
fn termos_sem_palavras_vazias_nem_repeticao() {
    let t = termos_relevantes("Eu gosto de Rust e de rust, para aprender você");
    assert_eq!(t, vec!["gosto".to_string(), "rust".to_string(), "aprender".to_string()]);
    assert!(termos_relevantes("de a o eu").is_empty());
    // "né" has three bytes in UTF-8 and counts; "oi" has two and does not.
    assert_eq!(termos_relevantes("oi né"), vec!["né".to_string()]);
}

#[test]
fn espaco_como_std() {
    for n in 0u32..=0x10ffff {
        if let Some(c) = char::from_u32(n) {
            assert_eq!(eh_espaco(c), c.is_whitespace(), "{:x}", n);
        }
    }
}

#[test]
fn confianca_e_revisoes_de_um_fato() {
    let mut m = Memoria::nova();
    m.registrar_fato("Céu", " azul ", "usuario", 1);
    assert_eq!(m.semantica.len(), 1);
    assert_eq!(m.semantica[0].0, "céu");
    assert_eq!(m.semantica[0].1.valor, "azul");
    let c1 = 0.45f32 + 0.11f32;
    assert_eq!(f(m.semantica[0].1.confianca), c1);
    assert_eq!(m.semantica[0].1.revisoes, 1);
    m.registrar_fato("céu", "cinza", "comando_ensinar", 2);
    let c2 = ((c1 * 0.88f32).max(0.35f32) + 0.11f32).min(0.99f32);
    assert_eq!(f(m.semantica[0].1.confianca), c2);
    assert_eq!(m.semantica[0].1.confianca, 11119697542256787456);
    assert_eq!(m.semantica[0].1.revisoes, 2);
    assert_eq!(m.semantica[0].1.fonte, "comando_ensinar");
    assert_eq!(m.revisoes.len(), 2);
    assert_eq!(m.revisoes[1].valor_anterior.as_deref(), Some("azul"));
    assert_eq!(m.revisoes[1].valor_novo, "cinza");
    for _ in 0..10 {
        m.registrar_fato("céu", "cinza", "usuario", 3);
    }
    assert_eq!(f(m.semantica[0].1.confianca), 0.99f32);
    m.registrar_fato("   ", "x", "usuario", 4);
    m.registrar_fato("k", "   ", "usuario", 4);
    assert_eq!(m.semantica.len(), 1);
    assert_eq!(m.revisoes.len(), 12);
}

#[test]
fn inferencia_texto_exato() {
    let mut m = Memoria::nova();
    m.registrar_fato("rust", "linguagem", "usuario", 1);
    m.registrar_fato("linguagem", "ferramenta", "usuario", 2);
    assert_eq!(
        m.inferir_fato("Rust").as_deref(),
        Some("inferência: se rust => linguagem e linguagem => ferramenta, então rust se relaciona com ferramenta")
    );
    assert_eq!(m.inferir_fato("python"), None);
}

#[test]
fn recupera_por_semelhanca() {
    let mut m = Memoria::nova();
    m.registrar_fato("capital do brasil", "brasília", "usuario", 1);
    m.registrar_fato("cor do mar", "azul", "usuario", 2);
    let (k, f) = m.recuperar_fato("capital brasil").unwrap();
    assert_eq!(k, "capital do brasil");
    assert_eq!(f.valor, "brasília");
    assert!(m.recuperar_fato("xyz").is_none());
}

#[test]
fn lacunas_limitadas() {
    let mut m = Memoria::nova();
    m.registrar_lacuna("ab");
    assert!(m.lacunas.is_empty());
    m.registrar_lacuna("Quântica");
    m.registrar_lacuna("quântica");
    assert_eq!(m.lacunas.len(), 1);
    assert_eq!(m.lacunas[0].tentativas, 2);
    for i in 0..100 {
        m.registrar_lacuna(&format!("topico{i}"));
    }
    assert_eq!(m.lacunas.len(), 80);
    assert_eq!(m.lacunas[79].topico, "topico99");
    assert_eq!(m.lacunas[0].topico, "topico20");
}

#[test]
fn consolidacao_e_reflexao() {
    let mut m = Memoria::nova();
    for _ in 0..4 {
        m.atualizar_topologia("memória viva");
    }
    m.registrar_lacuna("alfa");
    m.registrar_lacuna("beta");
    m.consolidar(3);
    assert_eq!(m.semantica.len(), 2);
    assert_eq!(m.semantica[0].0, "memória");
    assert_eq!(m.semantica[0].1.valor, "conceito recorrente (4 menções)");
    assert_eq!(f(m.semantica[0].1.confianca), 0.4f32);
    assert_eq!(m.reflexoes[0], "Turno 3: consolidei 2 fatos; lacunas ativas [alfa, beta].");
    assert_eq!(m.resumo(), "2 fatos | 0 episódios | 2 lacunas | 0 revisões de crença");
    for t in 0..1600 {
        m.consolidar(t);
    }
    assert_eq!(m.reflexoes.len(), 1500);
}

#[test]
fn topologia_conta_pares() {
    let mut m = Memoria::nova();
    m.atualizar_topologia("rust memória rust");
    assert_eq!(m.conceitos_vistos, vec![("rust".to_string(), 1), ("memória".to_string(), 1)]);
    assert_eq!(m.coocorrencia.len(), 2);
    assert_eq!(m.coocorrencia[0].1, vec![("memória".to_string(), 1)]);
    assert_eq!(m.coocorrencia[1].1, vec![("rust".to_string(), 1)]);
}

#[test]
fn perfil_do_usuario() {
    let mut m = Memoria::nova();
    m.aprender_perfil_usuario("Eu gosto de Café forte . Responda curto");
    assert_eq!(m.perfil_usuario.preferencias, vec![("gosto".to_string(), "café forte . responda curto".to_string())]);
    assert_eq!(m.perfil_usuario.estilo.as_deref(), Some("curto"));
    m.aprender_perfil_usuario("meu objetivo é aprender");
    assert_eq!(m.perfil_usuario.objetivo_atual.as_deref(), Some("é aprender"));
}

#[test]
fn episodios_mais_semelhantes_primeiro() {
    let mut a = AgenteCognitivo::novo("Teste");
    let _ = a.responder("rust memória");
    let _ = a.responder("rust memória viva");
    let _ = a.responder("gatos dormem");
    let idx = a.memoria.episodios_relevantes("rust memória", 3);
    assert_eq!(idx, vec![0, 1]);
    assert_eq!(a.memoria.episodios_relevantes("rust memória", 1), vec![0]);
}

#[test]
fn comandos_basicos() {
    let mut a = AgenteCognitivo::novo("Teste");
    assert!(texto(a.responder("/AJUDA")).starts_with("Comandos: /ajuda"));
    assert_eq!(
        texto(a.responder("/status")),
        "Status => 0 fatos | 0 episódios | 0 lacunas | 0 revisões de crença"
    );
    assert!(matches!(a.responder("/salvar"), Resposta::Salvar));
    assert!(matches!(a.responder("/recarregar"), Resposta::Recarregar));
    assert_eq!(texto(a.responder("/xyz")), "Comando desconhecido. Use /ajuda.");
    assert_eq!(texto(a.responder("/ensinar sem igual")), "Uso: /ensinar chave = valor");
    assert_eq!(texto(a.responder("/tutorial")), tutorial_instalacao());
    assert_eq!(texto(a.responder("/modo-seguro off")), "Modo seguro desativado.");
    assert!(!a.modo_seguro);
    assert_eq!(texto(a.responder("/modo-seguro on")), "Modo seguro ativado.");
    assert!(a.modo_seguro);
    assert_eq!(texto(a.responder("/modo-seguro talvez")), "Uso: /modo-seguro on|off");
    assert_eq!(a.turno, 0);
    let r = a.responder("/ensinar Capital = Brasília ");
    assert_eq!(salvamento(&r), Some(Salvamento::Silencioso));
    assert_eq!(texto(r), "Aprendi: Capital = Brasília");
    assert_eq!(a.turno, 1);
    assert_eq!(a.memoria.episodica.len(), 1);
    assert_eq!(a.memoria.episodica[0].resposta, "fato aprendido");
    assert_eq!(salvamento(&a.responder("sem barra")), Some(Salvamento::ComAviso));
}

#[test]
fn topicos_ordenados() {
    let mut a = AgenteCognitivo::novo("Teste");
    a.memoria.atualizar_topologia("alfa beta");
    a.memoria.atualizar_topologia("beta gama");
    a.memoria.atualizar_topologia("beta gama");
    assert_eq!(texto(a.responder("/topicos")), "Tópicos: beta(3), gama(2), alfa(1)");
}

#[test]
fn fato_sem_memoria() {
    let a = AgenteCognitivo::novo("Teste");
    assert_eq!(
        a.responder_memoria("nada"),
        "Ainda não sei isso. Me ensine com 'chave = valor' e eu vou lembrar nas próximas conversas."
    );
}

#[test]
fn fato_com_confianca_formatada() {
    let mut a = AgenteCognitivo::novo("Teste");
    let _ = a.responder("/ensinar python = linguagem");
    assert_eq!(
        texto(a.responder("/fato python")),
        "Fato: python => linguagem (confiança 0.56, revisões 1, fonte comando_ensinar). Episódios: t1:'/ensinar python = linguagem'."
    );
}

#[test]
fn modo_seguro_recusa() {
    let mut a = AgenteCognitivo::novo("Teste");
    let r = texto(a.responder("me ensina como invadir um servidor"));
    assert_eq!(r, "Posso ajudar com prevenção e segurança defensiva, mas não com instruções ofensivas.");
    assert_eq!(a.turno, 1);
    let _ = a.responder("/modo-seguro off");
    let r = texto(a.responder("me ensina como invadir um servidor"));
    assert_ne!(r, "Posso ajudar com prevenção e segurança defensiva, mas não com instruções ofensivas.");
}

#[test]
fn curiosidade_registra_lacuna() {
    let mut a = AgenteCognitivo::novo("Teste");
    let r = texto(a.responder("quântica"));
    assert_eq!(
        r,
        "Entendi: 'quântica'. Fiquei curioso sobre 'quântica'. Se você ensinar 'quântica = ...', eu incorporo isso imediatamente."
    );
    assert_eq!(a.memoria.lacunas.len(), 1);
    assert_eq!(a.memoria.lacunas[0].topico, "quântica");
}

#[test]
fn metacognicao_e_sentimento() {
    let mut a = AgenteCognitivo::novo("Teste");
    assert_eq!(
        texto(a.responder("o que você sabe")),
        "Eu sei 0 fatos, tenho 0 episódios, 0 lacunas e 0 revisões de crença. Tom atual: neutro."
    );
    assert_eq!(
        texto(a.responder("como você se sente")),
        "Agora me sinto neutro, com valência 0.20, excitação 0.34, fadiga 0.03, curiosidade 0.76."
    );
    let mut h = Humor::novo();
    h.aplicar("o que você sabe");
    h.descansar();
    h.aplicar("como você se sente");
    assert_eq!(
        format!(
            "{:.2} {:.2} {:.2} {:.2}",
            h.valencia, h.excitacao, h.fadiga, h.curiosidade
        ),
        "0.20 0.34 0.03 0.76"
    );
    assert!(texto(a.responder("quais são seus objetivo")).starts_with("Meus objetivos: aprender continuamente com o usuário; "));
    assert_eq!(a.turno, 3);
    assert_eq!(a.memoria.reflexoes.len(), 1);
}

#[test]
fn humor() {
    let mut e = EstadoEmocional::novo();
    let mut h = Humor::novo();
    assert!(h.igual(&e));
    for m in ["Obrigado, show!", "que raiva, estou triste?", "boa, valeu", "ruim", "como?"] {
        e.aplicar_input(m);
        h.aplicar(m);
        assert!(h.igual(&e), "depois de {m}");
        e.descanso_curto();
        h.descansar();
        assert!(h.igual(&e), "descansado depois de {m}");
    }
    for _ in 0..10 {
        e.aplicar_input("valeu");
    }
    assert_eq!(e.valencia, UM);
    assert_eq!(e.tom(), Tom::Animado);
    e.fadiga = u(0.8) + 1;
    assert_eq!(e.tom(), Tom::Cansado);
    e.fadiga = u(0.8);
    assert_eq!(e.tom(), Tom::Animado);
    let mut g = EstadoEmocional { valencia: -5 * UM, excitacao: 5 * UM, fadiga: -3, curiosidade: 2 };
    g.normalizar();
    assert_eq!((g.valencia, g.excitacao, g.fadiga, g.curiosidade), (-UM, UM, 0, 2));
    assert_eq!(Tom::Sensivel.nome(), "sensível");
}

#[test]
fn humor_ao_longo_de_uma_conversa() {
    // The mood shown after the sixth message keeps fatigue 0.054999996, which
    // is written 0.05.
    let mut a = AgenteCognitivo::novo("Teste");
    let mut h = Humor::novo();
    let msgs = ["oi", "tudo bem", "legal", "certo", "ok", "como você se sente"];
    let mut ultima = String::new();
    for m in msgs {
        ultima = texto(a.responder(m));
        h.aplicar(m);
        if m != "como você se sente" {
            h.descansar();
        }
    }
    let esperado = format!(
        "Agora me sinto neutro, com valência {:.2}, excitação {:.2}, fadiga {:.2}, curiosidade {:.2}.",
        h.valencia, h.excitacao, h.fadiga, h.curiosidade
    );
    assert_eq!(ultima, esperado);
    assert!(ultima.contains("fadiga 0.05,"));
}

#[test]
fn confianca_apos_mudancas_alternadas() {
    let mut a = AgenteCognitivo::novo("Teste");
    let mut c = 0.45f32 + 0.11f32;
    let _ = a.responder("/ensinar tempo = sol");
    for i in 0..10 {
        let v = if i % 2 == 0 { "chuva" } else { "sol" };
        let _ = a.responder(&format!("/ensinar tempo = {v}"));
        c = ((c * 0.88f32).max(0.35f32) + 0.11f32).min(0.99f32);
    }
    let r = texto(a.responder("/fato tempo"));
    assert!(r.contains(&format!("confiança {:.2},", c)), "{r}");
    assert!(r.contains("confiança 0.82,"), "{r}");
}

#[test]
fn aritmetica_de_precisao_simples() {
    let valores: Vec<f32> = vec![
        0.0, 0.2, 0.35, 0.45, 0.56, 0.6028, 0.99, 1.0, -1.0, -0.35, 0.013, 0.001, 0.054999996,
        0.1234567, 0.7777777, 0.5, 0.25, 0.75, 1.5, 3.0, 0.00390625, 123.456,
    ];
    let constantes: Vec<f32> = vec![0.10, 0.05, -0.14, 0.06, 0.12, 0.02, -0.013, -0.01, -0.006, 0.11];
    for &x in &valores {
        for &c in &constantes {
            assert_eq!(f(somar(u(x), u(c))), x + c, "{x} + {c}");
        }
        assert_eq!(f(multiplicar(u(x), 14763950)), x * 0.88f32, "{x} * 0.88");
    }
    let mut x = 0.2f32;
    for _ in 0..200 {
        let y = f(somar(u(x), u(0.0123)));
        x += 0.0123;
        assert_eq!(y, x);
    }
    for i in 0..40u64 {
        for j in 1..40u64 {
            if i <= j {
                assert_eq!(f(dividir(i, j)), i as f32 / j as f32, "{i} / {j}");
            }
        }
        if i <= 10 {
            assert_eq!(f(dividir(i, 10)), i as f32 / 10.0, "{i} / 10");
        }
    }
    let grandes: Vec<u64> = vec![
        1,
        3,
        16777217,
        (1u64 << 36) + 12345,
        (1u64 << 40) + 1,
        (1u64 << 50) + 999,
        1u64 << 60,
        u64::MAX - 5,
        u64::MAX,
    ];
    for &a in &grandes {
        for &b in &grandes {
            if a <= b {
                assert_eq!(f(dividir(a, b)), a as f32 / b as f32, "{a} / {b}");
            }
        }
    }
    assert_eq!(arredondar(16777217, 1), 16777216);
    assert_eq!(arredondar(16777219, 1), 16777220);
    assert_eq!(arredondar(-16777219, 1), -16777220);
}

#[test]
fn duas_casas_como_o_formato() {
    let mut valores: Vec<f32> = vec![0.125, 0.375, 0.625, 0.875, -0.125, 0.005, -0.001, 0.054999996];
    for k in -400..400 {
        valores.push(k as f32 / 128.0);
        valores.push(k as f32 * 0.0037);
    }
    for x in valores {
        assert_eq!(duas_casas(u(x)), format!("{:.2}", x), "{x}");
    }
}

#[test]
fn mensagens_de_persistencia() {
    assert_eq!(texto_salvo("/tmp/x.json"), "Memória salva em /tmp/x.json");
    assert_eq!(texto_falha_salvar("disco cheio"), "Falha ao salvar: disco cheio");
    assert_eq!(texto_recarregada(), "Memória recarregada.");
}

#[test]
fn lembra_de_usa_memoria() {
    let mut a = AgenteCognitivo::novo("Teste");
    let _ = a.responder("/ensinar capital do brasil = brasilia");
    let r = texto(a.responder("lembra de capital do brasil"));
    assert!(r.starts_with("Fato: capital do brasil => brasilia"));
}

#[test]
fn estilo_curto_sem_eco() {
    let mut a = AgenteCognitivo::novo("Teste");
    let _ = a.responder("responda curto");
    let r = texto(a.responder("quântica"));
    assert_eq!(r, "Fiquei curioso sobre 'quântica'. Se você ensinar 'quântica = ...', eu incorporo isso imediatamente.");
}

#[test]
fn ensinar_e_recuperar_sem_tocar_outras() {
    let mut m = Memoria::nova();
    m.registrar_fato("mar", "salgado", "usuario", 1);
    m.registrar_fato("  Python ", " linguagem  ", "usuario", 2);
    let (k, f) = m.recuperar_fato("PYTHON").unwrap();
    assert_eq!(k, "python");
    assert_eq!(f.valor, "linguagem");
    assert_eq!(f.fonte, "usuario");
    let (k, f) = m.recuperar_fato("mar").unwrap();
    assert_eq!((k.as_str(), f.valor.as_str()), ("mar", "salgado"));
}

#[test]
fn recupera_o_melhor_pontuado() {
    let mut m = Memoria::nova();
    m.registrar_fato("capital da frança", "paris", "usuario", 1);
    m.registrar_fato("capital do brasil", "brasília", "usuario", 2);
    m.registrar_fato("cor do mar", "azul", "usuario", 3);
    let (k, _) = m.recuperar_fato("capital brasil").unwrap();
    assert_eq!(k, "capital do brasil");
    let (k, _) = m.recuperar_fato("capital frança").unwrap();
    assert_eq!(k, "capital da frança");
}

#[test]
fn agente_mantem_limites() {
    let mut a = AgenteCognitivo::novo("Teste");
    for i in 0..200 {
        let _ = a.responder(&format!("palavra{i} é valor{i}"));
        let _ = a.responder(&format!("palavra{} é outro", i % 7));
    }
    assert!(a.memoria.lacunas.len() <= 80);
    assert!(a.memoria.reflexoes.len() <= 1500);
    let mut chaves: Vec<&String> = a.memoria.semantica.iter().map(|(k, _)| k).collect();
    let n = chaves.len();
    chaves.sort();
    chaves.dedup();
    assert_eq!(chaves.len(), n);
    assert!(a.emocao.fadiga >= 0 && a.emocao.fadiga <= UM);
    assert!(a.emocao.valencia >= -UM && a.emocao.valencia <= UM);
    assert_eq!(a.turno, 400);
}

#[test]
fn consolida_a_cada_tres_turnos() {
    let mut a = AgenteCognitivo::novo("Teste");
    let _ = a.responder("um");
    let _ = a.responder("dois");
    assert!(a.memoria.reflexoes.is_empty());
    let _ = a.responder("três");
    assert_eq!(a.memoria.reflexoes.len(), 1);
    assert!(a.memoria.reflexoes[0].starts_with("Turno 3: consolidei"));
}

#[test]
fn limiar_de_recuperacao_em_precisao_simples() {
    // A key sharing 1 of 25 terms with the query, seen twice with it: in
    // single precision 1/25 + 2/10 is 0.24000001, above 0.24.
    let chave = "alfa bravo charlie delta echo foxtrot golf hotel india juliet kilo lima mike";
    let consulta = "alfa november oscar papa quebec romeo sierra tango uniform victor whiskey xray yankee";
    let mut m = Memoria::nova();
    m.semantica.push((
        chave.to_string(),
        FatoSemantico { valor: "v".to_string(), confianca: u(0.56), revisoes: 1, fonte: "usuario".to_string() },
    ));
    m.coocorrencia.push((consulta.to_string(), vec![(chave.to_string(), 2)]));
    let s = similaridade_textual(chave, consulta);
    assert_eq!((s.comuns, s.uniao), (1, 25));
    assert!(1.0f32 / 25.0 + 2.0f32 / 10.0 > 0.24f32);
    let r = m.recuperar_fato(consulta);
    assert_eq!(r.map(|(k, _)| k), Some(chave.to_string()));
    m.coocorrencia[0].1[0].1 = 1;
    assert!(m.recuperar_fato(consulta).is_none());
}

#[test]
fn linhas_do_console() {
    assert_eq!(classificar_linha("  sair \n"), (Linha::Sair, "sair".to_string()));
    assert_eq!(classificar_linha("SaIr").0, Linha::Sair);
    assert_eq!(classificar_linha("sair já").0, Linha::Mensagem);
    assert_eq!(classificar_linha("saír").0, Linha::Mensagem);
    assert_eq!(classificar_linha(" \t\n"), (Linha::Vazia, String::new()));
    assert_eq!(classificar_linha("  oi Aurora \n"), (Linha::Mensagem, "oi Aurora".to_string()));
    for l in ["sair", "SAIR", " Sair ", "sair!", "", "  ", "oi"] {
        let t = l.trim();
        let esperado = if t.eq_ignore_ascii_case("sair") {
            Linha::Sair
        } else if t.is_empty() {
            Linha::Vazia
        } else {
            Linha::Mensagem
        };
        assert_eq!(classificar_linha(l).0, esperado, "{l:?}");
    }
    assert_eq!(despedida("Aurora"), "Aurora> Até a próxima. Memória salva.");
    assert_eq!(convite("Aurora"), "Aurora> Manda um texto e eu aprendo contigo.");
    assert_eq!(fala("Aurora", "oi"), "Aurora> oi");
}
