//! What is asked of the engine: the requests of every call that the
//! application makes.

use crate::config::EngineConfig;
use crate::error::EngineError;
use crate::metadata::insert_text;
use crate::preview::{disabled_runtime_status, EngineRuntimeStatus};
use crate::wire::{
    ContextSessionAppendRequest, InferenceRequest, LoadModelRequest, SearchRequest,
    UnloadModelRequest,
};
use std::collections::HashMap;
use vstd::prelude::*;

verus! {

/// What an answer is asked with.
#[derive(Clone, Debug, PartialEq, Eq)]
pub struct EngineInferenceParams {
    pub grpc_url: String,
    pub model_id: String,
    pub prompt: String,
    pub system_prompt: Option<String>,
}

/// Builds the requests of the engine's services.
#[derive(Clone, Default)]
pub struct EngineClient;

/// How the status of the engine is to be told.
pub enum StatusQuery {
    /// The engine is switched off: this is its status.
    Disabled(EngineRuntimeStatus),
    /// The engine is to be asked at this URL.
    Ask(String),
}

/// The number of turns that a question and its answer make.
pub const SESSION_TURNS: usize = 2;

/// How it goes on with turns that are added to a session one after the other.
pub enum AppendStep {
    /// The turn with this index is to be sent.
    Send(usize),
    /// No more turns are to be sent, and this is the result.
    Finished(Result<(), EngineError>),
}

/// The parameters of every answer.
pub open spec fn runtime_parameters() -> Map<Seq<char>, Seq<char>> {
    map!["temperature"@ => "1.0"@, "top_p"@ => "0.95"@, "top_k"@ => "64"@]
}

/// The number that keeps the low 32 bits of `n`, read with a sign.
pub open spec fn signed_32(n: u32) -> int {
    if n <= i32::MAX {
        n as int
    } else {
        n - 0x1_0000_0000
    }
}

proof fn lemma_empty_deep_view(map: HashMap<String, String>)
    requires
        map@ == Map::<String, String>::empty(),
    ensures
        map.deep_view() == Map::<Seq<char>, Seq<char>>::empty(),
{
    vstd::std_specs::hash::lemma_hashmap_deepview_dom(map);
    assert(map.deep_view() =~= Map::<Seq<char>, Seq<char>>::empty());
}

/// The parameters of every answer: the sampling that answers from Ollama have.
pub fn default_runtime_parameters() -> (res: HashMap<String, String>)
    ensures
        res.deep_view() == runtime_parameters(),
{
    let mut parameters: HashMap<String, String> = HashMap::new();
    proof {
        lemma_empty_deep_view(parameters);
    }
    insert_text(&mut parameters, "temperature".to_owned(), "1.0".to_owned());
    insert_text(&mut parameters, "top_p".to_owned(), "0.95".to_owned());
    insert_text(&mut parameters, "top_k".to_owned(), "64".to_owned());
    assert(parameters.deep_view() =~= runtime_parameters());
    parameters
}

/// Whether the engine is to be asked for its status. While it is switched off
/// it is not.
pub fn status_query(config: &EngineConfig) -> (res: StatusQuery)
    ensures
        match res {
            StatusQuery::Disabled(status) => {
                &&& !config.enabled
                &&& !status.reachable
                &&& !status.healthy
                &&& status.version@.len() == 0
                &&& status.loaded_models@.len() == 0
            },
            StatusQuery::Ask(url) => config.enabled && url == config.grpc_url,
        },
{
    if !config.enabled {
        StatusQuery::Disabled(disabled_runtime_status())
    } else {
        StatusQuery::Ask(config.grpc_url.clone())
    }
}

/// How it goes on after `sent` turns of a session were sent, given how the last
/// of them was answered: a turn that is refused is the end, and the turns after
/// it are not sent.
pub open spec fn append_step(sent: int, answer: Result<(), EngineError>) -> AppendStep {
    if answer is Ok && sent < SESSION_TURNS {
        AppendStep::Send(sent as usize)
    } else {
        AppendStep::Finished(answer)
    }
}

/// How it goes on after `sent` turns of a session were sent, given how the last
/// of them was answered.
pub fn after_append(sent: usize, answer: Result<(), EngineError>) -> (res: AppendStep)
    ensures
        res == append_step(sent as int, answer),
{
    if answer.is_ok() && sent < SESSION_TURNS {
        AppendStep::Send(sent)
    } else {
        AppendStep::Finished(answer)
    }
}

/// How many turns have been sent once turns from the one with the index `next`
/// on were answered like this, and the result, if it is there by then.
pub open spec fn append_run(next: int, answers: Seq<Result<(), EngineError>>) -> (
    int,
    Option<Result<(), EngineError>>,
)
    decreases answers.len(),
{
    if answers.len() == 0 {
        (next, None)
    } else {
        match append_step(next + 1, answers.first()) {
            AppendStep::Send(index) => append_run(index as int, answers.drop_first()),
            AppendStep::Finished(result) => (next + 1, Some(result)),
        }
    }
}

/// Where the turn of the user is refused, that of the assistant is not sent, and
/// the refusal is the result. Otherwise both are sent, and how the second is
/// answered is the result.
pub proof fn law_refused_turn_is_the_last(
    first: Result<(), EngineError>,
    second: Result<(), EngineError>,
)
    ensures
        first is Err ==> append_run(0, seq![first, second]) == (1int, Some(first)),
        first is Ok ==> append_run(0, seq![first, second]) == (2int, Some(second)),
{
    reveal_with_fuel(append_run, 2);
    assert(seq![first, second].drop_first() =~= seq![second]);
}

impl EngineClient {
    /// Asks to load a model, without further options.
    pub fn load_model_request(&self, model_id: &str) -> (res: LoadModelRequest)
        ensures
            res.model_id@ == model_id@,
            res.options@ == Map::<String, String>::empty(),
    {
        LoadModelRequest { model_id: model_id.to_owned(), options: HashMap::new() }
    }

    /// Asks to unload a model.
    pub fn unload_model_request(&self, model_id: &str) -> (res: UnloadModelRequest)
        ensures
            res.model_id@ == model_id@,
    {
        UnloadModelRequest { model_id: model_id.to_owned() }
    }

    /// Asks for the documents that fit a query best, without filters. Where no
    /// document is wanted nothing is asked. The number wanted goes out with a
    /// sign, in the same 32 bits.
    pub fn search_rag_request(&self, query: &str, top_k: u32) -> (res: Option<SearchRequest>)
        ensures
            match res {
                Some(request) => {
                    &&& top_k != 0
                    &&& request.query@ == query@
                    &&& request.top_k == signed_32(top_k)
                    &&& request.filters@ == Map::<String, String>::empty()
                },
                None => top_k == 0,
            },
    {
        if top_k == 0 {
            return None;
        }
        let wanted: i32 = #[verifier::truncate] (top_k as i32);
        proof {
            assert(top_k <= 0x7fff_ffff ==> (top_k as i32) == top_k) by (bit_vector);
            assert(top_k > 0x7fff_ffff ==> (top_k as i32) == top_k - 0x1_0000_0000) by (bit_vector);
        }
        Some(SearchRequest { query: query.to_owned(), top_k: wanted, filters: HashMap::new() })
    }

    /// Adds a question and its answer to a session, in the order in which they
    /// are to be sent: the turn of the user, then that of the assistant.
    pub fn session_turn_requests(
        &self,
        session_id: &str,
        user_content: &str,
        assistant_content: &str,
    ) -> (res: Vec<ContextSessionAppendRequest>)
        ensures
            res@.len() == SESSION_TURNS,
            res@[0].session_id@ == session_id@,
            res@[0].role@ == "user"@,
            res@[0].content@ == user_content@,
            res@[0].metadata@ == Map::<String, String>::empty(),
            res@[1].session_id@ == session_id@,
            res@[1].role@ == "assistant"@,
            res@[1].content@ == assistant_content@,
            res@[1].metadata@ == Map::<String, String>::empty(),
    {
        let mut requests: Vec<ContextSessionAppendRequest> = Vec::new();
        requests.push(
            ContextSessionAppendRequest {
                session_id: session_id.to_owned(),
                role: "user".to_owned(),
                content: user_content.to_owned(),
                metadata: HashMap::new(),
            },
        );
        requests.push(
            ContextSessionAppendRequest {
                session_id: session_id.to_owned(),
                role: "assistant".to_owned(),
                content: assistant_content.to_owned(),
                metadata: HashMap::new(),
            },
        );
        requests
    }

    /// Asks for an answer, with the parameters of every answer, from whatever
    /// provider the engine picks, and without references to stored context.
    pub fn inference_request(&self, params: EngineInferenceParams) -> (res: InferenceRequest)
        ensures
            res.model_id == params.model_id,
            res.prompt == params.prompt,
            res.parameters.deep_view() == runtime_parameters(),
            res.provider@ == Seq::<char>::empty(),
            res.context_refs@ == Seq::<String>::empty(),
            res.system_prompt == params.system_prompt,
    {
        InferenceRequest {
            model_id: params.model_id,
            prompt: params.prompt,
            parameters: default_runtime_parameters(),
            provider: String::new(),
            context_refs: Vec::new(),
            system_prompt: params.system_prompt,
        }
    }
}

/// A turn that is refused ends the appending with its refusal, wherever it
/// stands. A turn that is accepted is followed by the next, and after the second
/// of the two turns all went well.
pub proof fn law_turns_follow_one_another(sent: int, error: EngineError)
    ensures
        append_step(sent, Err(error)) == AppendStep::Finished(Err(error)),
        append_step(0, Ok(())) == AppendStep::Send(0),
        append_step(1, Ok(())) == AppendStep::Send(1),
        sent >= 2 ==> append_step(sent, Ok(())) == AppendStep::Finished(Ok(())),
{
}

/// The number of documents that is asked for is the wanted one modulo the
/// numbers of 32 bits, and it is the wanted one itself wherever a signed number
/// can hold it.
pub proof fn law_wanted_number_keeps_its_bits(n: u32)
    ensures
        i32::MIN <= signed_32(n) <= i32::MAX,
        (n - signed_32(n)) % 0x1_0000_0000 == 0,
        n <= i32::MAX ==> signed_32(n) == n,
{
}

/// Answers are asked for with three parameters and no other: a temperature of
/// 1.0, a nucleus of 0.95 and the best 64 words.
pub proof fn law_three_parameters_go_with_every_question(key: Seq<char>)
    ensures
        runtime_parameters().contains_key(key) <==> key == "temperature"@ || key == "top_p"@ || key
            == "top_k"@,
        runtime_parameters()["temperature"@] == "1.0"@,
        runtime_parameters()["top_p"@] == "0.95"@,
        runtime_parameters()["top_k"@] == "64"@,
{
    reveal_strlit("temperature");
    reveal_strlit("top_p");
    reveal_strlit("top_k");
    assert("top_p"@[4] != "top_k"@[4]);
    assert("temperature"@.len() != "top_p"@.len());
}

/// The library asks like this: a model by its id, with no options; a question
/// with its own model, prompt and system prompt, the parameters of every
/// question, no provider and no references; documents only where some are
/// wanted, with the query as it is and no filters.
pub proof fn law_requests_carry_what_they_were_given(
    client: EngineClient,
    id: &str,
    load: LoadModelRequest,
    unload: UnloadModelRequest,
    query: &str,
    top_k: u32,
    search: Option<SearchRequest>,
    params: EngineInferenceParams,
    question: InferenceRequest,
)
    requires
        call_ensures(EngineClient::load_model_request, (&client, id), load),
        call_ensures(EngineClient::unload_model_request, (&client, id), unload),
        call_ensures(EngineClient::search_rag_request, (&client, query, top_k), search),
        call_ensures(EngineClient::inference_request, (&client, params), question),
    ensures
        load.model_id@ == id@ && load.options@ == Map::<String, String>::empty(),
        unload.model_id@ == id@,
        search is None <==> top_k == 0,
        search matches Some(request) ==> {
            &&& request.query@ == query@
            &&& top_k <= i32::MAX ==> request.top_k == top_k
            &&& request.filters@ == Map::<String, String>::empty()
        },
        question.model_id@ == params.model_id@,
        question.prompt@ == params.prompt@,
        question.system_prompt == params.system_prompt,
        question.provider@.len() == 0,
        question.context_refs@.len() == 0,
        question.parameters.deep_view()["temperature"@] == "1.0"@,
        question.parameters.deep_view()["top_p"@] == "0.95"@,
        question.parameters.deep_view()["top_k"@] == "64"@,
{
    law_three_parameters_go_with_every_question("top_k"@);
}

/// The library adds two turns to a session: first the user's, then the
/// assistant's, both to that session and without metadata; a refusal ends it.
pub proof fn law_session_gets_question_and_answer(
    client: EngineClient,
    session: &str,
    asked: &str,
    answered: &str,
    turns: Vec<ContextSessionAppendRequest>,
    sent: usize,
    answer: Result<(), EngineError>,
    step: AppendStep,
)
    requires
        call_ensures(
            EngineClient::session_turn_requests,
            (&client, session, asked, answered),
            turns,
        ),
        call_ensures(after_append, (sent, answer), step),
    ensures
        turns@.len() == 2,
        turns@[0].session_id@ == session@ && turns@[1].session_id@ == session@,
        turns@[0].role@ == "user"@ && turns@[1].role@ == "assistant"@,
        turns@[0].content@ == asked@ && turns@[1].content@ == answered@,
        turns@[0].metadata@ == Map::<String, String>::empty(),
        turns@[1].metadata@ == Map::<String, String>::empty(),
        answer is Err ==> step == AppendStep::Finished(answer),
        answer is Ok && sent < 2 ==> step == AppendStep::Send(sent),
        answer is Ok && sent >= 2 ==> step == AppendStep::Finished(answer),
{
}

/// The library asks for the status of exactly an enabled engine, at its own URL.
pub proof fn law_only_an_enabled_engine_is_asked(config: EngineConfig, query: StatusQuery)
    requires
        call_ensures(status_query, (&config,), query),
    ensures
        query is Ask <==> config.enabled,
        query matches StatusQuery::Ask(url) ==> url@ == config.grpc_url@,
        query matches StatusQuery::Disabled(status) ==> !status.reachable && !status.healthy,
{
}

} // verus!
