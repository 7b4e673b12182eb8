use vstd::prelude::*;

use crate::binario::{maior, soma, somar, UM};
use crate::texto::{caracteres, contem, contem_literal, minusculas, para_minusculas};

verus! {

/// The agent's mood, each dimension a single-precision number held in counts
/// of 2^-64 (see `binario`): valence in [-1, 1], arousal, fatigue and
/// curiosity in [0, 1].
#[derive(Clone, Copy)]
pub struct EstadoEmocional {
    pub valencia: i128,
    pub excitacao: i128,
    pub fadiga: i128,
    pub curiosidade: i128,
}

/// 0.2 in single precision, in counts of 2^-64.
pub const VALENCIA_INICIAL: i128 = 3689348869717491712;
/// 0.35 in single precision.
pub const EXCITACAO_INICIAL: i128 = 6456360315847180288;
/// 0.65 in single precision.
pub const CURIOSIDADE_INICIAL: i128 = 11990383208106557440;
/// 0.10 in single precision.
pub const VALENCIA_ELOGIO: i128 = 1844674434858745856;
/// 0.05 in single precision.
pub const EXCITACAO_ELOGIO: i128 = 922337217429372928;
/// 0.14 in single precision.
pub const VALENCIA_QUEIXA: i128 = 2582544181314453504;
/// 0.06 in single precision.
pub const EXCITACAO_QUEIXA: i128 = 1106804619683561472;
/// 0.12 in single precision.
pub const CURIOSIDADE_PERGUNTA: i128 = 2213609239367122944;
/// 0.02 in single precision.
pub const CANSACO: i128 = 368934873227853824;
/// 0.013 in single precision.
pub const DESCANSO_FADIGA: i128 = 239807677906026496;
/// 0.01 in single precision.
pub const DESCANSO_EXCITACAO: i128 = 184467436613926912;
/// 0.006 in single precision.
pub const DESCANSO_CURIOSIDADE: i128 = 110680465404329984;
/// 0.8 in single precision.
pub const LIMIAR_CANSADO: i128 = 14757395478869966848;
/// 0.45 in single precision.
pub const LIMIAR_ANIMADO: i128 = 8301034613266972672;
/// 0.35 in single precision.
pub const LIMIAR_SENSIVEL: i128 = 6456360315847180288;

/// The tone the mood gives the agent's answers.
#[derive(Clone, Copy, Debug, PartialEq, Eq, Structural)]
pub enum Tom {
    Cansado,
    Animado,
    Sensivel,
    Neutro,
}

impl Tom {
    /// The word for the tone.
    pub open spec fn palavra(self) -> Seq<char> {
        match self {
            Tom::Cansado => "cansado"@,
            Tom::Animado => "animado"@,
            Tom::Sensivel => "sensível"@,
            Tom::Neutro => "neutro"@,
        }
    }

    /// The word for the tone.
    pub fn nome(&self) -> (r: &'static str)
        ensures
            r@ == self.palavra(),
    {
        match self {
            Tom::Cansado => "cansado",
            Tom::Animado => "animado",
            Tom::Sensivel => "sensível",
            Tom::Neutro => "neutro",
        }
    }
}

/// `x` brought into `[lo, hi]`.
pub open spec fn limitar(x: int, lo: int, hi: int) -> int {
    if x < lo {
        lo
    } else if x > hi {
        hi
    } else {
        x
    }
}

/// Whether a lower-case text thanks or praises.
pub open spec fn elogio(t: Seq<char>) -> bool {
    ||| contem(t, "obrigado"@)
    ||| contem(t, "valeu"@)
    ||| contem(t, "show"@)
    ||| contem(t, "perfeito"@)
    ||| contem(t, "boa"@)
}

/// Whether a lower-case text complains.
pub open spec fn queixa(t: Seq<char>) -> bool {
    ||| contem(t, "ruim"@)
    ||| contem(t, "triste"@)
    ||| contem(t, "raiva"@)
    ||| contem(t, "frustrado"@)
    ||| contem(t, "decepcionado"@)
}

/// Whether a lower-case text asks or asks to be taught.
pub open spec fn pergunta(t: Seq<char>) -> bool {
    ||| contem(t, "?"@)
    ||| contem(t, "como"@)
    ||| contem(t, "por que"@)
    ||| contem(t, "me ensina"@)
    ||| contem(t, "passo a passo"@)
}

impl EstadoEmocional {
    /// The mood the agent starts with.
    pub open spec fn inicial() -> EstadoEmocional {
        EstadoEmocional {
            valencia: VALENCIA_INICIAL,
            excitacao: EXCITACAO_INICIAL,
            fadiga: 0,
            curiosidade: CURIOSIDADE_INICIAL,
        }
    }

    /// The mood with each dimension brought into its range.
    pub open spec fn normalizado(self) -> EstadoEmocional {
        EstadoEmocional {
            valencia: limitar(self.valencia as int, -UM, UM as int) as i128,
            excitacao: limitar(self.excitacao as int, 0, UM as int) as i128,
            fadiga: limitar(self.fadiga as int, 0, UM as int) as i128,
            curiosidade: limitar(self.curiosidade as int, 0, UM as int) as i128,
        }
    }

    /// The mood after reading `texto`.
    pub open spec fn apos_entrada(self, texto: Seq<char>) -> EstadoEmocional {
        self.reagido(minusculas(texto))
    }

    /// The mood after reading a message whose lower-case form is `t`: praise
    /// adds 0.10 to valence and 0.05 to arousal, a complaint takes 0.14 from
    /// valence and adds 0.06 to arousal, a question adds 0.12 to curiosity,
    /// and every message adds 0.02 to fatigue, each in single precision;
    /// then each dimension is brought into its range.
    pub open spec fn reagido(self, t: Seq<char>) -> EstadoEmocional {
        let v1 = if elogio(t) {
            soma(self.valencia as int, VALENCIA_ELOGIO as int)
        } else {
            self.valencia as int
        };
        let e1 = if elogio(t) {
            soma(self.excitacao as int, EXCITACAO_ELOGIO as int)
        } else {
            self.excitacao as int
        };
        let v = if queixa(t) {
            soma(v1, -VALENCIA_QUEIXA)
        } else {
            v1
        };
        let e = if queixa(t) {
            soma(e1, EXCITACAO_QUEIXA as int)
        } else {
            e1
        };
        let c = if pergunta(t) {
            soma(self.curiosidade as int, CURIOSIDADE_PERGUNTA as int)
        } else {
            self.curiosidade as int
        };
        let f = soma(self.fadiga as int, CANSACO as int);
        EstadoEmocional {
            valencia: limitar(v, -UM, UM as int) as i128,
            excitacao: limitar(e, 0, UM as int) as i128,
            fadiga: limitar(f, 0, UM as int) as i128,
            curiosidade: limitar(c, 0, UM as int) as i128,
        }
    }

    /// The mood after a short rest between turns: fatigue less 0.013,
    /// arousal less 0.01 and curiosity less 0.006, in single precision and
    /// none below 0.
    pub open spec fn descansado(self) -> EstadoEmocional {
        EstadoEmocional {
            valencia: self.valencia,
            excitacao: maior(soma(self.excitacao as int, -DESCANSO_EXCITACAO), 0) as i128,
            fadiga: maior(soma(self.fadiga as int, -DESCANSO_FADIGA), 0) as i128,
            curiosidade: maior(soma(self.curiosidade as int, -DESCANSO_CURIOSIDADE), 0) as i128,
        }
    }

    /// The tone of the mood.
    pub open spec fn tom_de(self) -> Tom {
        if self.fadiga > LIMIAR_CANSADO {
            Tom::Cansado
        } else if self.valencia > LIMIAR_ANIMADO {
            Tom::Animado
        } else if self.valencia < -LIMIAR_SENSIVEL {
            Tom::Sensivel
        } else {
            Tom::Neutro
        }
    }

    /// The mood the agent starts with.
    pub fn novo() -> (r: EstadoEmocional)
        ensures
            r == EstadoEmocional::inicial(),
    {
        EstadoEmocional {
            valencia: VALENCIA_INICIAL,
            excitacao: EXCITACAO_INICIAL,
            fadiga: 0,
            curiosidade: CURIOSIDADE_INICIAL,
        }
    }

    /// Reacts to a message.
    pub fn aplicar_input(&mut self, texto: &str)
        ensures
            *final(self) == old(self).apos_entrada(texto@),
    {
        let low = para_minusculas(texto);
        self.reagir(low.as_str());
    }

    /// Reacts to a message whose lower-case form is `low`.
    pub fn reagir(&mut self, low: &str)
        ensures
            *final(self) == old(self).reagido(low@),
    {
        let t = caracteres(low);
        let elogio = contem_literal(&t, "obrigado") || contem_literal(&t, "valeu")
            || contem_literal(&t, "show") || contem_literal(&t, "perfeito") || contem_literal(
            &t,
            "boa",
        );
        let queixa = contem_literal(&t, "ruim") || contem_literal(&t, "triste") || contem_literal(
            &t,
            "raiva",
        ) || contem_literal(&t, "frustrado") || contem_literal(&t, "decepcionado");
        let pergunta = contem_literal(&t, "?") || contem_literal(&t, "como") || contem_literal(
            &t,
            "por que",
        ) || contem_literal(&t, "me ensina") || contem_literal(&t, "passo a passo");
        let mut v = self.valencia;
        let mut e = self.excitacao;
        let mut c = self.curiosidade;
        if elogio {
            v = somar(v, VALENCIA_ELOGIO);
            e = somar(e, EXCITACAO_ELOGIO);
        }
        if queixa {
            v = somar(v, -VALENCIA_QUEIXA);
            e = somar(e, EXCITACAO_QUEIXA);
        }
        if pergunta {
            c = somar(c, CURIOSIDADE_PERGUNTA);
        }
        let f = somar(self.fadiga, CANSACO);
        self.valencia = limitar_exec(v, -UM, UM);
        self.excitacao = limitar_exec(e, 0, UM);
        self.fadiga = limitar_exec(f, 0, UM);
        self.curiosidade = limitar_exec(c, 0, UM);
    }

    /// Rests a little between turns.
    pub fn descanso_curto(&mut self)
        ensures
            *final(self) == old(self).descansado(),
    {
        let e = somar(self.excitacao, -DESCANSO_EXCITACAO);
        let f = somar(self.fadiga, -DESCANSO_FADIGA);
        let c = somar(self.curiosidade, -DESCANSO_CURIOSIDADE);
        self.excitacao = if e < 0 {
            0
        } else {
            e
        };
        self.fadiga = if f < 0 {
            0
        } else {
            f
        };
        self.curiosidade = if c < 0 {
            0
        } else {
            c
        };
    }

    /// Brings each dimension into its range.
    pub fn normalizar(&mut self)
        ensures
            *final(self) == old(self).normalizado(),
    {
        self.valencia = limitar_exec(self.valencia, -UM, UM);
        self.excitacao = limitar_exec(self.excitacao, 0, UM);
        self.fadiga = limitar_exec(self.fadiga, 0, UM);
        self.curiosidade = limitar_exec(self.curiosidade, 0, UM);
    }

    /// The tone of the mood.
    pub fn tom(&self) -> (r: Tom)
        ensures
            r == self.tom_de(),
    {
        if self.fadiga > LIMIAR_CANSADO {
            Tom::Cansado
        } else if self.valencia > LIMIAR_ANIMADO {
            Tom::Animado
        } else if self.valencia < -LIMIAR_SENSIVEL {
            Tom::Sensivel
        } else {
            Tom::Neutro
        }
    }
}

fn limitar_exec(x: i128, lo: i128, hi: i128) -> (r: i128)
    requires
        lo <= hi,
    ensures
        r == limitar(x as int, lo as int, hi as int),
{
    if x < lo {
        lo
    } else if x > hi {
        hi
    } else {
        x
    }
}

} // verus!
