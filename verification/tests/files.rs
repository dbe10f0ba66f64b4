use std::cell::RefCell;
use std::path::{Path, PathBuf};

use thuki_engine::locate::{
    candidate_engine_binary_paths_for, engine_binary_search_order, first_path_where,
    has_windows_paths, pick_marked,
};
use thuki_engine::render::{render_config_for_dirs, EngineDirs};
use thuki_engine::yaml::{slash_text, yaml_escape, yaml_path};
use thuki_engine::{
    engine_root_dir, first_existing_file, render_engine_config, resolve_engine_binary, AppConfig,
};

const FULL_CONFIG: &str = r#"server:
  host: "localhost"
  port: 8081
  mode: "production"
  grpc:
    host: "a\"b"
    port: 50051
  cors:
    enabled: true
    allowed_origins:
      - "http://localhost:*"
      - "http://127.0.0.1:*"
      - "app://ai-engine"
    allowed_headers:
      - "Content-Type"
      - "Authorization"

daemon:
  host: "127.0.0.1"
  port: 50061
  required: true
  command: ""
  args: []
  startup_timeout: 33s
  restart_backoff: 3s
  ready_timeout: 10s
  llama_cli: "llama-cli"
  training_cli: "llama-train"

services:
  enable_training: false
  enable_mcp: false

storage:
  lancedb_uri: "/data/rag-engine/rag"
  enable_fts: true
  enable_hybrid_search: true

runtime:
  models_path: "/data/rag-engine/models"
  backend: "mistralrs"
  providers: []
  mistralrs:
    force_cpu: false
    max_num_seqs: 32
    auto_isq: ""
    paged_attn_block_size: 0
    paged_attn_gpu_mem_ctx: 0
    paged_attn_cache_dtype: ""

huggingface:
  enabled: true
  endpoint: "https://huggingface.co"
  max_download_bytes: 0
  compatible_extensions:
    - ".gguf"
    - ".ggml"
    - ".bin"

context:
  enabled: true
  service_url: "http://127.0.0.1:9191"
  binary_path: "context_server"
  data_dir: "/data/rag-engine/context"
  auto_start: true
  startup_timeout: 20s
  managed_roots:
    - "workspace=."
  openviking:
    url: ""
    api_key: ""

rag:
  storage_path: "/data/rag-engine/rag"
  embedding_provider: "fastembed"
  embedding_model: "sentence-transformers/all-MiniLM-L6-v2"
  embedding_cache_dir: "/data/rag-engine/embedding-cache"
  embedding_allow_download: true
  chunk_size: 512
  chunk_overlap: 50
  top_k: 7

training:
  working_dir: "/data/rag-engine/training"
  max_concurrent_jobs: 2

mcp:
  timeout: 30s
  retries: 3

logging:
  level: "info"
  format: "json"
"#;

fn tuned_config() -> AppConfig {
    let mut config = AppConfig::default();
    config.engine.http_url = "https://localhost:8081/health".to_string();
    config.engine.grpc_url = "a\"b:no-port".to_string();
    config.engine.startup_timeout_s = 33;
    config.engine.context_top_k = 7;
    config
}

#[test]
fn whole_config_file_is_rendered() {
    assert_eq!(
        render_engine_config(Path::new("/data"), &tuned_config()),
        FULL_CONFIG
    );
}

#[test]
fn config_for_given_dirs_is_rendered() {
    let dirs = EngineDirs {
        models: PathBuf::from("\\data\\rag-engine\\models"),
        rag: PathBuf::from("/data/rag-engine/rag"),
        context: PathBuf::from("/data/rag-engine/context"),
        embedding_cache: PathBuf::from("/data/rag-engine/embedding-cache"),
        training: PathBuf::from("/data/rag-engine\\training"),
    };
    assert_eq!(render_config_for_dirs(&dirs, &tuned_config()), FULL_CONFIG);
}

#[test]
fn data_directory_may_end_in_a_slash_or_be_empty() {
    let config = AppConfig::default();
    let slash = render_engine_config(Path::new("/data/"), &config);
    assert!(slash.contains("models_path: \"/data/rag-engine/models\"\n"));
    let empty = render_engine_config(Path::new(""), &config);
    assert!(empty.contains("models_path: \"rag-engine/models\"\n"));
}

#[test]
fn quotes_in_the_data_directory_stay_inside_their_quotes() {
    let yaml = render_engine_config(Path::new("/da\"ta"), &AppConfig::default());
    assert!(yaml.contains("models_path: \"/da\\\"ta/rag-engine/models\"\n"));
}

#[test]
fn large_numbers_are_rendered_in_full() {
    let mut config = AppConfig::default();
    config.engine.startup_timeout_s = u64::MAX;
    config.engine.context_top_k = u32::MAX;
    let yaml = render_engine_config(Path::new("/data"), &config);
    assert!(yaml.contains("  startup_timeout: 18446744073709551615s\n"));
    assert!(yaml.contains("  top_k: 4294967295\n"));
}

#[test]
fn escaping_marks_quotes_and_backslashes_alone() {
    assert_eq!(yaml_escape("a\\b\"c"), "a\\\\b\\\"c");
    assert_eq!(yaml_escape("plain / text \u{e9}"), "plain / text \u{e9}");
    assert_eq!(yaml_escape(""), "");
    assert_eq!(slash_text("a\\b/c"), "a/b/c");
    assert_eq!(yaml_path(Path::new("C:\\x\"y")), "C:/x\\\"y");
}

#[test]
fn engine_directory_is_below_the_data_directory() {
    assert_eq!(
        engine_root_dir(Path::new("base")),
        Path::new("base").join("rag-engine")
    );
    assert_eq!(engine_root_dir(Path::new("")), PathBuf::from("rag-engine"));
}

#[test]
fn program_is_looked_for_in_four_places() {
    let root = Path::new("repo");
    let unix = candidate_engine_binary_paths_for(root, false);
    assert_eq!(
        unix,
        vec![
            root.join("ai-engine-server"),
            root.join("binaries").join("ai-engine-server"),
            root.join("src-tauri").join("binaries").join("ai-engine-server"),
            root.join("external")
                .join("rag-engine")
                .join("engine")
                .join("go")
                .join("bin")
                .join("ai-engine-server"),
        ]
    );
    let windows = candidate_engine_binary_paths_for(root, true);
    assert_eq!(windows[1], root.join("binaries").join("ai-engine-server.exe"));
    assert_eq!(windows.len(), 4);
}

#[test]
fn search_order_starts_with_the_requested_program() {
    let order = engine_binary_search_order(
        Some(PathBuf::from("/opt/engine")),
        Some(Path::new("res")),
        None,
        Some(Path::new("exe")),
        false,
    );
    assert_eq!(order.len(), 9);
    assert_eq!(order[0], PathBuf::from("/opt/engine"));
    assert_eq!(order[1], Path::new("res").join("ai-engine-server"));
    assert_eq!(order[5], Path::new("exe").join("ai-engine-server"));
    let none = engine_binary_search_order(None, None, None, None, false);
    assert!(none.is_empty());
}

#[test]
fn first_marked_path_is_picked() {
    let paths = vec![PathBuf::from("a"), PathBuf::from("b"), PathBuf::from("c")];
    assert_eq!(
        pick_marked(paths.clone(), &[false, true, true]),
        Some(PathBuf::from("b"))
    );
    assert_eq!(pick_marked(paths.clone(), &[false, false]), None);
    assert_eq!(pick_marked(paths, &[]), None);
}

#[test]
fn first_regular_file_is_found() {
    let missing = PathBuf::from("/proc/self/no-such-entry");
    let directory = PathBuf::from("/proc/self");
    let file = PathBuf::from("/proc/self/exe");
    assert_eq!(
        first_existing_file(vec![missing.clone(), directory.clone(), file.clone()]),
        Some(file.clone())
    );
    assert_eq!(first_existing_file(vec![missing, directory]), None);
    assert_eq!(first_existing_file(vec![]), None);
}

#[test]
fn requested_program_wins_if_it_is_a_file() {
    let file = PathBuf::from("/proc/self/exe");
    assert_eq!(
        resolve_engine_binary(Some(file.clone()), Some(Path::new("/nowhere")), None, None),
        Some(file)
    );
    assert_eq!(
        resolve_engine_binary(
            Some(PathBuf::from("/proc/self")),
            Some(Path::new("/nowhere")),
            None,
            Some(Path::new("/nowhere/app"))
        ),
        None
    );
}

#[test]
fn paths_are_asked_about_in_order_until_one_fits() {
    let paths = vec![
        PathBuf::from("missing"),
        PathBuf::from("directory"),
        PathBuf::from("server"),
        PathBuf::from("later"),
    ];
    let asked = RefCell::new(Vec::new());
    let fits = |path: &Path| {
        asked.borrow_mut().push(path.to_path_buf());
        path == Path::new("server") || path == Path::new("later")
    };
    assert_eq!(first_path_where(paths.clone(), fits), Some(PathBuf::from("server")));
    assert_eq!(*asked.borrow(), paths[..3].to_vec());
    assert_eq!(first_path_where(paths, |_: &Path| false), None);
    assert_eq!(first_path_where(Vec::new(), |_: &Path| true), None);
}

#[test]
fn windows_is_told_by_its_paths() {
    assert!(has_windows_paths('\\', true));
    assert!(!has_windows_paths('\\', false));
    assert!(!has_windows_paths('/', true));
    assert!(!has_windows_paths('/', false));
}

#[test]
fn joined_name_stands_behind_a_separator() {
    for base in ["\\\\?\\C:\\data", "\\\\?\\", "/data/", "data", "/"] {
        let text = slash_text(engine_root_dir(Path::new(base)).to_str().unwrap());
        assert!(text.ends_with("/rag-engine"));
    }
}
