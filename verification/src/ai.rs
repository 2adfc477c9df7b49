//! What the bot asks the language model, and how it treats the model's answers.
use vstd::prelude::*;

verus! {

/// Errors of talking to the language model.
#[derive(Debug)]
pub enum AiError {
    CouldntConvertToJSON,
    CouldntGenerateResponseFromAI,
}

/// The answer the language model is asked to give, as JSON.
#[derive(Debug, Clone)]
pub struct ResponseMessage {
    pub message: String,
    pub reply: Option<String>,
    pub learned: Option<String>,
    pub question: bool,
}

/// The instructions that follow the conversation id and precede the
/// conversation in every request to the model.
pub const REPLY_INSTRUCTIONS: &'static str = "\nLeia as mensagens e dê uma resposta convincente ao assunto deles, quero que o que você me envie seja apenas o que a personagem falaria. Outra coisa, você não pode responder com \"oi gente\" ou coisas parecidas no começo da frase e não precisa tentar dizer o que está acontecendo, apenas dê uma resposta convincente. Mas lembrando, você tem que se comportar como o/a personagem. Quero que você inclua a resposta dentro de um arquivo JSON. A fala do personagem tem que estar na chave 'message' e haverá também uma chave chamada 'reply' que será colocado o valor do 'ID DA MENSAGEM' dentro da mensagem que a personagem estiver respondendo, mas isso só se ela estiver respondendo a uma mensagem específica, caso contrário esse campo deverá conter 'null'. Se alguém tiver acabado de te explicar a algo, você deverá responder a ultima mensagem desta pessoa. Quero que além dessas duas chaves haja uma chave chamada 'learned' onde o valor será uma memória do que a personagem aprendeu com as mensagens. A chave 'learned' precisa ser preenchida, mas se ABSOLUTAMENTE nada de importante foi aprendido, o valor poderá ser preenchido como 'null', tente o máximo possível extrair algo para preencher esse campo. Deve existir uma chave com o nome 'question' em que será definido como true caso o valor de 'message' seja uma pergunta ou caso alguém estiver querendo te ensinar algo, caso o contrário seja false. Quero também que haja uma chave com o nome 'emotion' em que os valores serão definidos a partir do que a personagem sentiu com a conversa, os valores poderão ser 'angry', 'happy', 'neutral', 'sad', 'fear', 'disgust', 'surprise' \n ";

/// The opening of the memories section of a prompt.
pub const MEMORIES_OPENING: &'static str = "\nSuas memórias são: ";

/// The prompt with the bot's memories, when there are any, put in front.
pub open spec fn with_memories(prompt: Seq<char>, memories: Option<Seq<char>>) -> Seq<char> {
    match memories {
        Some(m) => MEMORIES_OPENING@ + m + "\n"@ + prompt,
        None => prompt,
    }
}

/// The full request to the model: the conversation id, the instructions, and
/// the prompt with the memories.
pub open spec fn reply_request(
    prompt: Seq<char>,
    memories: Option<Seq<char>>,
    parent_message_id: Seq<char>,
) -> Seq<char> {
    parent_message_id + REPLY_INSTRUCTIONS@ + with_memories(prompt, memories)
}

/// Builds the request that asks the model to answer a conversation.
pub fn reply_prompt(prompt: String, memories: Option<String>, parent_message_id: &str) -> (request: String)
    ensures
        request@ == reply_request(
            prompt@,
            match memories {
                Some(m) => Some(m@),
                None => None,
            },
            parent_message_id@,
        ),
{
    let mut prompt = prompt;
    match memories {
        Some(memories) => {
            let mut with = String::from_str(MEMORIES_OPENING);
            with.append(memories.as_str());
            with.append("\n");
            with.append(prompt.as_str());
            prompt = with;
        },
        None => {},
    }
    let mut request = String::from_str(parent_message_id);
    request.append(REPLY_INSTRUCTIONS);
    request.append(prompt.as_str());
    request
}

/// How many times the model is asked before the bot gives up.
pub const REPLY_ATTEMPTS: u32 = 3;

/// What to do after an attempt to get an answer from the model.
#[derive(Debug)]
pub enum ReplyStep {
    /// Ask again.
    Retry,
    /// The model answered in the expected form.
    Answered(ResponseMessage),
    /// Every attempt failed.
    GaveUp(AiError),
}

/// After attempt number `attempt` (counting from 0), with the parsed answer
/// or `None` where the model could not be asked or its answer did not parse:
/// an answer ends the exchange, a failure leads to another attempt until
/// `REPLY_ATTEMPTS` have been made, then to `CouldntGenerateResponseFromAI`.
pub fn reply_step(attempt: u32, outcome: Option<ResponseMessage>) -> (step: ReplyStep)
    requires
        attempt < REPLY_ATTEMPTS,
    ensures
        match outcome {
            Some(r) => step == ReplyStep::Answered(r),
            None => if attempt + 1 < REPLY_ATTEMPTS {
                step is Retry
            } else {
                step matches ReplyStep::GaveUp(AiError::CouldntGenerateResponseFromAI)
            },
        },
{
    match outcome {
        Some(r) => ReplyStep::Answered(r),
        None => if attempt + 1 < REPLY_ATTEMPTS {
            ReplyStep::Retry
        } else {
            ReplyStep::GaveUp(AiError::CouldntGenerateResponseFromAI)
        },
    }
}

} // verus!
