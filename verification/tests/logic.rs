use std::collections::HashMap;
use std::path::{Path, PathBuf};

use thuki_engine::metadata::{first_metadata_value, metadata_bool};
use thuki_engine::number::{parse_port, push_decimal};
use thuki_engine::preview::disabled_runtime_status;
use thuki_engine::supervisor::working_dir_in;
use thuki_engine::text::{chars_of, same_text, trim_text};
use thuki_engine::wire::{ModelInfo, RagStatus, SearchResult};
use thuki_engine::{
    after_append, after_probe, build_augmented_prompt, map_model_info, map_models, map_rag_result,
    map_rag_results, map_rag_status, parse_endpoint, plan_start, remove_service_block,
    status_query, truncate_chars, AppConfig, AppendStep, ContextSourcePreview, EngineClient,
    EngineConfig, EngineError, EngineInferenceParams, EngineStreamEvent, EngineSupervisor, InferenceStream,
    ProbeVerdict, StartDecision, StatusQuery, StreamInput, StreamStep, WaitOutcome,
};

fn properties(pairs: &[(&str, &str)]) -> HashMap<String, String> {
    let mut map = HashMap::new();
    for (key, value) in pairs {
        map.insert(key.to_string(), value.to_string());
    }
    map
}

fn model(id: &str, name: &str, pairs: &[(&str, &str)]) -> ModelInfo {
    ModelInfo {
        id: id.to_string(),
        name: name.to_string(),
        path: String::new(),
        size_bytes: 0,
        loaded: false,
        metadata: properties(pairs),
    }
}

fn endpoint(url: &str) -> (String, u16) {
    parse_endpoint(url, "fallback", 42)
}

fn at(host: &str, port: u16) -> (String, u16) {
    (host.to_string(), port)
}

// Text and numbers.

#[test]
fn white_space_is_trimmed_off_both_ends() {
    assert_eq!(trim_text(" \t\r\n a b \u{a0}\u{3000}\u{2028}"), "a b");
    assert_eq!(trim_text("\u{200b}a\u{180e}"), "\u{200b}a\u{180e}");
    assert_eq!(trim_text(" \u{85}\u{1680}\u{2003}\u{202f}\u{205f} "), "");
    for n in 0u32..0x3100 {
        if let Some(c) = char::from_u32(n) {
            let padded = format!("{}x{}", c, c);
            assert_eq!(trim_text(&padded), padded.trim());
        }
    }
}

#[test]
fn texts_are_compared_by_their_characters() {
    assert!(same_text("", ""));
    assert!(same_text("h\u{e9}", "h\u{e9}"));
    assert!(!same_text("ab", "abc"));
    assert!(!same_text("ab", "aB"));
}

#[test]
fn decimals_are_written_and_ports_read_back() {
    for n in [0u64, 9, 10, 99, 100, 65535, u64::MAX] {
        let mut out = String::from("n=");
        push_decimal(&mut out, n);
        assert_eq!(out, format!("n={}", n));
    }
    for port in 0u16..=65535 {
        let mut out = String::new();
        push_decimal(&mut out, port as u64);
        assert_eq!(parse_port(&chars_of(&out)), Some(port));
    }
}

#[test]
fn port_numbers_are_read_like_unsigned_numbers() {
    for text in [
        "", "+", "-", "+80", "++80", "-0", "00080", "80 ", " 80", "8a", "65535", "65536", "65545",
        "99999999999999999999", "0065535", "0x50", "8_0", "\u{0661}",
    ] {
        assert_eq!(parse_port(&chars_of(text)), text.parse::<u16>().ok());
    }
}

// Endpoints.

#[test]
fn host_and_port_are_read_back() {
    assert_eq!(endpoint("https://example.org:443/a:b/c"), at("example.org", 443));
    assert_eq!(endpoint("example.org:0"), at("example.org", 0));
    assert_eq!(endpoint("  http://h:1 \n"), at("h", 1));
    assert_eq!(endpoint("http:// h:1 /x"), at("h", 1));
    assert_eq!(endpoint("::1:8080"), at("::1", 8080));
    assert_eq!(endpoint("h:+7"), at("h", 7));
}

#[test]
fn brackets_around_a_host_are_dropped() {
    assert_eq!(endpoint("http://[::1]:50051/x"), at("::1", 50051));
    assert_eq!(endpoint("[[h]]:5"), at("h", 5));
    assert_eq!(endpoint("[h]"), at("[h]", 42));
    assert_eq!(endpoint("[]:5"), at("fallback", 5));
}

#[test]
fn what_a_url_does_not_say_falls_back() {
    assert_eq!(endpoint(" \t "), at("fallback", 42));
    assert_eq!(endpoint("http://"), at("fallback", 42));
    assert_eq!(endpoint("/only/a/path"), at("fallback", 42));
    assert_eq!(endpoint("http://h:99999"), at("h", 42));
    assert_eq!(endpoint("h:"), at("h", 42));
    assert_eq!(endpoint("h:x/8080"), at("h", 42));
    assert_eq!(endpoint("ftp://h:21"), at("ftp", 42));
    assert_eq!(endpoint("HTTP://h:21"), at("HTTP", 42));
    assert_eq!(endpoint("http://https://h:21"), at("https", 42));
    assert_eq!(parse_endpoint("", "", 3), at("", 3));
}

// Metadata and previews.

#[test]
fn flags_mean_yes_in_any_case_and_spacing() {
    let map = properties(&[
        ("a", " TRUE "),
        ("b", "1"),
        ("c", "Yes\n"),
        ("d", "no"),
        ("e", "true!"),
        ("f", ""),
    ]);
    assert!(metadata_bool(&map, "a"));
    assert!(metadata_bool(&map, "b"));
    assert!(metadata_bool(&map, "c"));
    assert!(!metadata_bool(&map, "d"));
    assert!(!metadata_bool(&map, "e"));
    assert!(!metadata_bool(&map, "f"));
    assert!(!metadata_bool(&map, "missing"));
}

#[test]
fn first_value_that_is_not_blank_is_taken() {
    let map = properties(&[("a", "  "), ("b", " two "), ("c", "three")]);
    assert_eq!(
        first_metadata_value(&map, &["x", "a", "b", "c"]),
        Some("two".to_string())
    );
    assert_eq!(first_metadata_value(&map, &["x", "a"]), None);
    assert_eq!(first_metadata_value(&map, &[]), None);
}

#[test]
fn blank_model_names_give_way_to_the_id() {
    assert_eq!(map_model_info(&model("id", " \t", &[])).name, "id");
    assert_eq!(map_model_info(&model("id", " Name ", &[])).name, " Name ");
    let mapped = map_models(&[
        model("a", "", &[("vision", "yes")]),
        model("b", "B", &[("thinking", "YES")]),
    ]);
    assert_eq!(mapped.len(), 2);
    assert_eq!(mapped[0].id, "a");
    assert!(mapped[0].vision && !mapped[0].thinking);
    assert_eq!(mapped[1].name, "B");
    assert!(!mapped[1].vision && mapped[1].thinking);
}

#[test]
fn hits_are_shown_under_the_first_key_that_has_a_value() {
    let hit = |pairs: &[(&str, &str)]| {
        map_rag_result(SearchResult {
            document_id: "doc".to_string(),
            chunk_text: " text ".to_string(),
            metadata: properties(pairs),
        })
    };
    let named = hit(&[("title", " "), ("name", " N "), ("path", "/p"), ("source", "s")]);
    assert_eq!(named.title, "N");
    assert_eq!(named.uri, "s");
    assert_eq!(named.snippet, " text ");
    let by_path = hit(&[("path", "/p")]);
    assert_eq!(by_path.title, "/p");
    assert_eq!(by_path.uri, "/p");
    assert_eq!(hit(&[("url", "u"), ("source", "s")]).uri, "u");
}

#[test]
fn hits_keep_their_order() {
    let results = vec![
        SearchResult {
            document_id: "one".to_string(),
            chunk_text: "1".to_string(),
            metadata: HashMap::new(),
        },
        SearchResult {
            document_id: "two".to_string(),
            chunk_text: "2".to_string(),
            metadata: HashMap::new(),
        },
    ];
    let mapped = map_rag_results(results);
    assert_eq!(mapped.len(), 2);
    assert_eq!(mapped[0].title, "one");
    assert_eq!(mapped[1].snippet, "2");
}

#[test]
fn index_status_is_shown_as_it_is() {
    let shown = map_rag_status(RagStatus {
        document_count: -3,
        chunk_count: 12,
        embedding_model: "m".to_string(),
        embedding_provider: "p".to_string(),
        requires_reindex: true,
        reindex_reasons: vec!["r".to_string()],
    });
    assert_eq!(shown.document_count, -3);
    assert_eq!(shown.chunk_count, 12);
    assert_eq!(shown.embedding_model, "m");
    assert_eq!(shown.embedding_provider, "p");
    assert!(shown.requires_reindex);
    assert_eq!(shown.reindex_reasons, vec!["r".to_string()]);
}

// Prompts.

#[test]
fn prompt_quotes_every_source_under_its_number() {
    let source = |title: &str, uri: &str, snippet: &str| ContextSourcePreview {
        title: title.to_string(),
        uri: uri.to_string(),
        snippet: snippet.to_string(),
    };
    assert_eq!(
        build_augmented_prompt("m", &[source(" A ", " u ", " s\n"), source("B", "", "")]),
        "Local context:\n[1] A\nURI: u\ns\n\n[2] B\nURI: \n\n\nUser request:\nm"
    );
    let many: Vec<ContextSourcePreview> = vec![source("T", "U", "S"); 12];
    assert!(build_augmented_prompt("m", &many).contains("\n\n[12] T\nURI: U\nS\n\nUser request:\nm"));
}

#[test]
fn long_texts_are_cut_by_characters() {
    assert_eq!(truncate_chars("h\u{e9}llo", 2), "h\u{e9}...");
    assert_eq!(truncate_chars("h\u{e9}llo", 5), "h\u{e9}llo");
    assert_eq!(truncate_chars("a", 0), "...");
    assert_eq!(truncate_chars("", 0), "");
    let exact = "y".repeat(900);
    let prompt = build_augmented_prompt(
        "m",
        &[ContextSourcePreview {
            title: String::new(),
            uri: String::new(),
            snippet: format!("  {}  ", exact),
        }],
    );
    assert!(prompt.contains(&exact));
    assert!(!prompt.contains("..."));
}

// Requests.

#[test]
fn requests_carry_what_they_are_given() {
    let client = EngineClient;
    let load = client.load_model_request("m");
    assert_eq!(load.model_id, "m");
    assert!(load.options.is_empty());
    assert_eq!(client.unload_model_request("m").model_id, "m");

    let turns = client.session_turn_requests("s", "question", "answer");
    assert_eq!(turns.len(), 2);
    assert_eq!(turns[0].session_id, "s");
    assert_eq!(turns[0].role, "user");
    assert_eq!(turns[0].content, "question");
    assert!(turns[0].metadata.is_empty());
    assert_eq!(turns[1].session_id, "s");
    assert_eq!(turns[1].role, "assistant");
    assert_eq!(turns[1].content, "answer");
    assert!(turns[1].metadata.is_empty());

    let ask = client.inference_request(EngineInferenceParams {
        grpc_url: "url".to_string(),
        model_id: "m".to_string(),
        prompt: "p".to_string(),
        system_prompt: Some("sys".to_string()),
    });
    assert_eq!(ask.model_id, "m");
    assert_eq!(ask.prompt, "p");
    assert_eq!(ask.parameters.len(), 3);
    assert_eq!(ask.provider, "");
    assert!(ask.context_refs.is_empty());
    assert_eq!(ask.system_prompt, Some("sys".to_string()));
}

#[test]
fn refused_turn_ends_the_appending() {
    let refusal = EngineError::Status("full".to_string());
    assert!(matches!(after_append(1, Ok(())), AppendStep::Send(1)));
    assert!(matches!(after_append(2, Ok(())), AppendStep::Finished(Ok(()))));
    for sent in [1, 2] {
        match after_append(sent, Err(refusal.clone())) {
            AppendStep::Finished(Err(error)) => assert_eq!(error, refusal),
            _ => panic!("a refusal is the end"),
        }
    }
}

#[test]
fn nothing_is_searched_for_where_nothing_is_wanted() {
    let client = EngineClient;
    assert!(client.search_rag_request("q", 0).is_none());
    let search = client.search_rag_request("q", 5).unwrap();
    assert_eq!(search.query, "q");
    assert_eq!(search.top_k, 5);
    assert!(search.filters.is_empty());
    assert_eq!(
        client.search_rag_request("q", 0x7fff_ffff).unwrap().top_k,
        i32::MAX
    );
    assert_eq!(client.search_rag_request("q", u32::MAX).unwrap().top_k, -1);
    assert_eq!(
        client.search_rag_request("q", 0x8000_0000).unwrap().top_k,
        i32::MIN
    );
}

#[test]
fn disabled_engine_is_not_asked_for_its_status() {
    let mut config = EngineConfig::default();
    config.grpc_url = "http://h:1".to_string();
    match status_query(&config) {
        StatusQuery::Ask(url) => assert_eq!(url, "http://h:1"),
        StatusQuery::Disabled(_) => panic!("the engine is enabled"),
    }
    config.enabled = false;
    match status_query(&config) {
        StatusQuery::Ask(_) => panic!("the engine is disabled"),
        StatusQuery::Disabled(status) => {
            assert_eq!(status, disabled_runtime_status());
            assert!(!status.reachable);
            assert!(!status.healthy);
            assert_eq!(status.version, "");
            assert!(status.loaded_models.is_empty());
        }
    }
}

// Streams.

fn piece(token: &str, complete: bool) -> StreamInput {
    StreamInput::Response {
        token: token.to_string(),
        complete,
    }
}

fn run(inputs: Vec<StreamInput>) -> (Vec<EngineStreamEvent>, Option<Result<String, EngineError>>) {
    let mut told = Vec::new();
    let mut stream = InferenceStream::new();
    for input in inputs {
        match stream.step(input) {
            StreamStep::Open {
                stream: next,
                events,
            } => {
                told.extend(events);
                stream = next;
            }
            StreamStep::Closed { events, result } => {
                told.extend(events);
                return (told, Some(result));
            }
        }
    }
    (told, None)
}

fn token(text: &str) -> EngineStreamEvent {
    EngineStreamEvent::Token(text.to_string())
}

#[test]
fn answer_is_the_tokens_that_were_told() {
    assert_eq!(
        run(vec![piece("Hel", false), piece("", false), piece("lo", true)]),
        (
            vec![token("Hel"), token("lo"), EngineStreamEvent::Done],
            Some(Ok("Hello".to_string()))
        )
    );
    assert_eq!(
        run(vec![piece("a", false), piece("", true)]),
        (
            vec![token("a"), EngineStreamEvent::Done],
            Some(Ok("a".to_string()))
        )
    );
}

#[test]
fn stream_may_end_without_a_last_piece() {
    assert_eq!(
        run(vec![piece("a", false), StreamInput::Ended]),
        (vec![token("a")], Some(Ok("a".to_string())))
    );
    assert_eq!(run(vec![piece("a", false)]), (vec![token("a")], None));
}

#[test]
fn cancelled_stream_keeps_what_has_come() {
    assert_eq!(
        run(vec![piece("a", false), StreamInput::Cancelled]),
        (
            vec![token("a"), EngineStreamEvent::Cancelled],
            Some(Ok("a".to_string()))
        )
    );
}

#[test]
fn failed_stream_gives_its_error() {
    let error = EngineError::Status("broken".to_string());
    assert_eq!(
        run(vec![piece("a", false), StreamInput::Failed(error.clone())]),
        (vec![token("a")], Some(Err(error)))
    );
}

// Errors.

#[test]
fn errors_are_told_in_words() {
    assert_eq!(
        EngineError::Transport("x".to_string()).message(),
        "failed to connect to rag-engine: x"
    );
    assert_eq!(
        EngineError::Status("x".to_string()).message(),
        "rag-engine gRPC error: x"
    );
    assert_eq!(
        EngineError::MissingBinary.message(),
        "rag-engine sidecar binary was not found"
    );
    assert_eq!(
        EngineError::StartupTimeout.message(),
        "rag-engine startup timed out"
    );
    assert_eq!(
        EngineError::Io("x".to_string()).message(),
        "engine I/O failed: x"
    );
    assert_eq!(
        EngineError::Path("x".to_string()).message(),
        "failed to resolve app path: x"
    );
}

// The process.

#[test]
fn process_that_does_not_run_is_let_go() {
    let mut supervisor = EngineSupervisor::default();
    assert!(!supervisor.has_child());
    assert!(!supervisor.is_running(WaitOutcome::Running));
    assert!(!supervisor.stop());

    for outcome in [WaitOutcome::Exited, WaitOutcome::Unknown] {
        supervisor.adopt();
        assert!(supervisor.is_running(WaitOutcome::Running));
        assert!(supervisor.has_child());
        assert!(!supervisor.is_running(outcome));
        assert!(!supervisor.has_child());
    }

    supervisor.adopt();
    assert!(supervisor.stop());
    assert!(!supervisor.stop());
}

#[test]
fn start_is_planned_unless_the_engine_runs_or_is_missing() {
    let config = AppConfig::default();
    let data = Path::new("/data");
    let binary = PathBuf::from("/opt/engine/ai-engine-server");

    assert!(matches!(
        plan_start(true, None, data, &config),
        Ok(StartDecision::AlreadyRunning)
    ));
    assert!(matches!(
        plan_start(false, None, data, &config),
        Err(EngineError::MissingBinary)
    ));
    match plan_start(false, Some(binary.clone()), data, &config) {
        Ok(StartDecision::Launch(plan)) => {
            assert_eq!(plan.binary, binary);
            assert_eq!(plan.engine_dir, data.join("rag-engine"));
            assert_eq!(plan.config_path, data.join("rag-engine").join("config.yaml"));
            assert_eq!(
                plan.config_text,
                thuki_engine::render_engine_config(data, &config)
            );
            assert_eq!(plan.working_dir, PathBuf::from("/opt/engine"));
        }
        _ => panic!("the engine is to be started"),
    }
}

#[test]
fn engine_runs_in_the_directory_of_its_program() {
    let config = AppConfig::default();
    let data = Path::new("/data");
    for (binary, dir) in [
        ("/opt/engine/ai-engine-server", "/opt/engine"),
        ("bin/ai-engine-server", "bin"),
        ("/ai-engine-server", "/"),
        ("ai-engine-server", ""),
        ("/", "."),
        ("", "."),
    ] {
        match plan_start(false, Some(PathBuf::from(binary)), data, &config) {
            Ok(StartDecision::Launch(plan)) => {
                assert_eq!(plan.working_dir.to_str(), Some(dir));
            }
            _ => panic!("the engine is to be started"),
        }
    }
    assert_eq!(working_dir_in(Some(PathBuf::from("/a"))), PathBuf::from("/a"));
    assert_eq!(working_dir_in(None), PathBuf::from("."));
}

#[test]
fn wait_ends_with_an_answer_or_when_time_is_up() {
    assert!(matches!(
        after_probe(0, true, 5),
        ProbeVerdict::Finished(Ok(()))
    ));
    assert!(matches!(
        after_probe(1, true, 2_000_000_000),
        ProbeVerdict::Finished(Ok(()))
    ));
    assert!(matches!(
        after_probe(1, false, 999_999_999),
        ProbeVerdict::RetryAfterMs(250)
    ));
    assert!(matches!(
        after_probe(1, false, 1_000_000_000),
        ProbeVerdict::Finished(Err(EngineError::StartupTimeout))
    ));
    assert!(matches!(
        after_probe(0, false, 0),
        ProbeVerdict::Finished(Err(EngineError::StartupTimeout))
    ));
    assert!(matches!(
        after_probe(u64::MAX, false, u64::MAX as u128),
        ProbeVerdict::RetryAfterMs(250)
    ));
}

// Contracts.

#[test]
fn service_is_taken_out_of_a_contract() {
    let proto = "a\nservice MCP {\n  rpc X(Y) returns (Z) { option o = 1; }\n}\nservice Rag {\n}\n";
    assert_eq!(
        remove_service_block(proto, "MCP"),
        "a\nservice Rag {\n}\n"
    );
    assert_eq!(
        remove_service_block("service A {}\r\nb", "A"),
        "b"
    );
    assert_eq!(remove_service_block("service A {}\n\nb", "A"), "\nb");
    assert_eq!(remove_service_block("x service A { \u{e9} } y", "A"), "x  y");
}

#[test]
fn contract_without_the_service_is_left_alone() {
    for proto in ["", "service Rag {}\n", "service  MCP {}", "service MCP { {}\n"] {
        assert_eq!(remove_service_block(proto, "MCP"), proto);
    }
}

#[test]
fn only_the_first_service_of_a_name_is_taken_out() {
    assert_eq!(
        remove_service_block("service A {1}service A {2}", "A"),
        "service A {2}"
    );
}
