//! Aurora: a small conversational agent with an auditable memory. It learns
//! facts and the topics of a conversation, revises its beliefs, infers by
//! chaining them, asks about what it does not know, and keeps a mood.
pub mod agente;
pub mod binario;
pub mod dicionario;
pub mod emocao;
pub mod garantias;
pub mod leis;
pub mod memoria;
pub mod similaridade;
pub mod texto;

pub use agente::{AgenteCognitivo, Resposta, Salvamento};
pub use emocao::{EstadoEmocional, Tom};
pub use memoria::{
    Episodio, FatoSemantico, LacunaConhecimento, Memoria, PerfilUsuario, RevisaoFato,
};
pub use similaridade::{similaridade_textual, Pontuacao, Similaridade};
pub use texto::{normalizar_chave, termos_relevantes, tutorial_instalacao};
