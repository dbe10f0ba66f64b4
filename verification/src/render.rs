//! The configuration file of a managed engine.

use crate::config::AppConfig;
use crate::endpoint::parse_endpoint;
#[allow(unused_imports)]
use crate::endpoint;
use crate::locate::engine_root_dir;
#[allow(unused_imports)]
use crate::locate::ENGINE_DATA_DIR_NAME;
use crate::number::push_decimal;
#[allow(unused_imports)]
use crate::number;
use crate::path::{borrowed, join_plain};
#[allow(unused_imports)]
use crate::path;
#[allow(unused_imports)]
use crate::text;
#[allow(unused_imports)]
use crate::text::CharClass;
use crate::yaml::{yaml_escape, yaml_path};
#[allow(unused_imports)]
use crate::yaml;
use std::path::{Path, PathBuf};
use vstd::prelude::*;

verus! {

/// The port of the engine's worker process.
pub const DEFAULT_ENGINE_DAEMON_PORT: u16 = 50061;

/// The port of the engine's context service.
pub const DEFAULT_CONTEXT_SERVICE_PORT: u16 = 9191;

/// The host that stands in for one that a URL does not name.
pub const FALLBACK_HOST: &'static str = "127.0.0.1";

/// The diagnostics port that stands in for one that a URL does not name.
pub const FALLBACK_HTTP_PORT: u16 = 8080;

/// The gRPC port that stands in for one that a URL does not name.
pub const FALLBACK_GRPC_PORT: u16 = 50051;

pub const CORS_AND_DAEMON: &'static str = r#"  cors:
    enabled: true
    allowed_origins:
      - "http://localhost:*"
      - "http://127.0.0.1:*"
      - "app://ai-engine"
    allowed_headers:
      - "Content-Type"
      - "Authorization"

daemon:
  host: "127.0.0.1"
  port: "#;

pub const DAEMON_COMMAND: &'static str = r#"  required: true
  command: ""
  args: []
  startup_timeout: "#;

pub const DAEMON_LIMITS_AND_SERVICES: &'static str = r#"  restart_backoff: 3s
  ready_timeout: 10s
  llama_cli: "llama-cli"
  training_cli: "llama-train"

services:
  enable_training: false
  enable_mcp: false

storage:
  lancedb_uri: "#;

pub const STORAGE_OPTIONS_AND_RUNTIME: &'static str = r#"
  enable_fts: true
  enable_hybrid_search: true

runtime:
  models_path: "#;

pub const RUNTIME_OPTIONS_AND_CONTEXT: &'static str = r#"
  backend: "mistralrs"
  providers: []
  mistralrs:
    force_cpu: false
    max_num_seqs: 32
    auto_isq: ""
    paged_attn_block_size: 0
    paged_attn_gpu_mem_ctx: 0
    paged_attn_cache_dtype: ""

huggingface:
  enabled: true
  endpoint: "https://huggingface.co"
  max_download_bytes: 0
  compatible_extensions:
    - ".gguf"
    - ".ggml"
    - ".bin"

context:
  enabled: true
  "#;

pub const CONTEXT_OPTIONS_AND_RAG: &'static str = r#"
  auto_start: true
  startup_timeout: 20s
  managed_roots:
    - "workspace=."
  openviking:
    url: ""
    api_key: ""

rag:
  storage_path: "#;

pub const RAG_EMBEDDING: &'static str = r#"
  embedding_provider: "fastembed"
  embedding_model: "sentence-transformers/all-MiniLM-L6-v2"
  embedding_cache_dir: "#;

pub const RAG_CHUNKS: &'static str = r#"
  embedding_allow_download: true
  chunk_size: 512
  chunk_overlap: 50
  "#;

pub const CLOSING_SECTIONS: &'static str = r#"
  max_concurrent_jobs: 2

mcp:
  timeout: 30s
  retries: 3

logging:
  level: "info"
  format: "json"
"#;

/// The directories that a managed engine works in.
pub struct EngineDirs {
    pub models: PathBuf,
    pub rag: PathBuf,
    pub context: PathBuf,
    pub embedding_cache: PathBuf,
    pub training: PathBuf,
}

/// The texts of the directories that a managed engine works in.
pub struct EngineDirTexts {
    pub models: Seq<char>,
    pub rag: Seq<char>,
    pub context: Seq<char>,
    pub embedding_cache: Seq<char>,
    pub training: Seq<char>,
}

impl View for EngineDirs {
    type V = EngineDirTexts;

    open spec fn view(&self) -> EngineDirTexts {
        EngineDirTexts {
            models: path::path_buf_text(self.models),
            rag: path::path_buf_text(self.rag),
            context: path::path_buf_text(self.context),
            embedding_cache: path::path_buf_text(self.embedding_cache),
            training: path::path_buf_text(self.training),
        }
    }
}

/// What the configuration file says of the application's settings.
pub struct ConfigValues {
    pub http: (Seq<char>, u16),
    pub grpc: (Seq<char>, u16),
    pub startup_timeout_s: u64,
    pub context_top_k: u32,
}

/// What the configuration file says of given settings: host and port of both
/// URLs, the time that a start may take, and how much context is searched for.
pub open spec fn config_values(config: AppConfig) -> ConfigValues {
    ConfigValues {
        http: endpoint::endpoint(config.engine.http_url@, FALLBACK_HOST@, FALLBACK_HTTP_PORT),
        grpc: endpoint::endpoint(config.engine.grpc_url@, FALLBACK_HOST@, FALLBACK_GRPC_PORT),
        startup_timeout_s: config.engine.startup_timeout_s,
        context_top_k: config.engine.context_top_k,
    }
}

/// A text in double quotes.
pub open spec fn quoted(s: Seq<char>) -> Seq<char> {
    seq!['"'] + yaml::escaped(s) + seq!['"']
}

/// The text of a path in double quotes.
pub open spec fn quoted_path(s: Seq<char>) -> Seq<char> {
    quoted(yaml::slashed(s))
}

pub open spec fn server_section(http: (Seq<char>, u16), grpc: (Seq<char>, u16)) -> Seq<char> {
    "server:\n  host: "@ + quoted(http.0) + "\n  port: "@ + number::decimal(http.1 as nat)
        + "\n  mode: \"production\"\n  grpc:\n    host: "@ + quoted(grpc.0) + "\n    port: "@
        + number::decimal(grpc.1 as nat)
}

pub open spec fn daemon_section(startup_timeout_s: u64) -> Seq<char> {
    "\n"@ + CORS_AND_DAEMON@ + number::decimal(DEFAULT_ENGINE_DAEMON_PORT as nat) + "\n"@
        + DAEMON_COMMAND@ + number::decimal(startup_timeout_s as nat)
}

pub open spec fn storage_section(dirs: EngineDirTexts) -> Seq<char> {
    "s\n"@ + DAEMON_LIMITS_AND_SERVICES@ + quoted_path(dirs.rag) + STORAGE_OPTIONS_AND_RUNTIME@
        + quoted_path(dirs.models)
}

pub open spec fn context_section(dirs: EngineDirTexts) -> Seq<char> {
    RUNTIME_OPTIONS_AND_CONTEXT@ + "service_url: \"http://127.0.0.1:"@ + number::decimal(
        DEFAULT_CONTEXT_SERVICE_PORT as nat,
    ) + "\"\n  binary_path: \"context_server\"\n  data_dir: "@ + quoted_path(dirs.context)
}

pub open spec fn rag_section(dirs: EngineDirTexts, context_top_k: u32) -> Seq<char> {
    CONTEXT_OPTIONS_AND_RAG@ + quoted_path(dirs.rag) + RAG_EMBEDDING@ + quoted_path(
        dirs.embedding_cache,
    ) + RAG_CHUNKS@ + "top_k: "@ + number::decimal(context_top_k as nat)
}

pub open spec fn training_section(dirs: EngineDirTexts) -> Seq<char> {
    "\n\ntraining:\n  working_dir: "@ + quoted_path(dirs.training) + CLOSING_SECTIONS@
}

/// The configuration file of an engine that works in given directories under
/// given settings.
pub open spec fn config_text(dirs: EngineDirTexts, values: ConfigValues) -> Seq<char> {
    server_section(values.http, values.grpc) + daemon_section(values.startup_timeout_s)
        + storage_section(dirs) + context_section(dirs) + rag_section(dirs, values.context_top_k)
        + training_section(dirs)
}

fn push_quoted(out: &mut String, value: &str)
    ensures
        final(out)@ == old(out)@ + quoted(value@),
{
    out.push('"');
    out.append(yaml_escape(value).as_str());
    out.push('"');
    assert(out@ =~= old(out)@ + quoted(value@));
}

fn push_quoted_path(out: &mut String, dir: &PathBuf)
    ensures
        final(out)@ == old(out)@ + quoted_path(path::path_buf_text(*dir)),
{
    out.push('"');
    out.append(yaml_path(borrowed(dir)).as_str());
    out.push('"');
    assert(out@ =~= old(out)@ + quoted_path(path::path_buf_text(*dir)));
}

fn push_server_section(out: &mut String, http: &(String, u16), grpc: &(String, u16))
    ensures
        final(out)@ == old(out)@ + server_section((http.0@, http.1), (grpc.0@, grpc.1)),
{
    out.append("server:\n  host: ");
    push_quoted(out, http.0.as_str());
    out.append("\n  port: ");
    push_decimal(out, http.1 as u64);
    out.append("\n  mode: \"production\"\n  grpc:\n    host: ");
    push_quoted(out, grpc.0.as_str());
    out.append("\n    port: ");
    push_decimal(out, grpc.1 as u64);
    assert(out@ =~= old(out)@ + server_section((http.0@, http.1), (grpc.0@, grpc.1)));
}

fn push_daemon_section(out: &mut String, startup_timeout_s: u64)
    ensures
        final(out)@ == old(out)@ + daemon_section(startup_timeout_s),
{
    out.append("\n");
    out.append(CORS_AND_DAEMON);
    push_decimal(out, DEFAULT_ENGINE_DAEMON_PORT as u64);
    out.append("\n");
    out.append(DAEMON_COMMAND);
    push_decimal(out, startup_timeout_s);
    assert(out@ =~= old(out)@ + daemon_section(startup_timeout_s));
}

fn push_storage_section(out: &mut String, dirs: &EngineDirs)
    ensures
        final(out)@ == old(out)@ + storage_section(dirs@),
{
    out.append("s\n");
    out.append(DAEMON_LIMITS_AND_SERVICES);
    push_quoted_path(out, &dirs.rag);
    out.append(STORAGE_OPTIONS_AND_RUNTIME);
    push_quoted_path(out, &dirs.models);
    assert(out@ =~= old(out)@ + storage_section(dirs@));
}

fn push_context_section(out: &mut String, dirs: &EngineDirs)
    ensures
        final(out)@ == old(out)@ + context_section(dirs@),
{
    out.append(RUNTIME_OPTIONS_AND_CONTEXT);
    out.append("service_url: \"http://127.0.0.1:");
    push_decimal(out, DEFAULT_CONTEXT_SERVICE_PORT as u64);
    out.append("\"\n  binary_path: \"context_server\"\n  data_dir: ");
    push_quoted_path(out, &dirs.context);
    assert(out@ =~= old(out)@ + context_section(dirs@));
}

fn push_rag_section(out: &mut String, dirs: &EngineDirs, context_top_k: u32)
    ensures
        final(out)@ == old(out)@ + rag_section(dirs@, context_top_k),
{
    out.append(CONTEXT_OPTIONS_AND_RAG);
    push_quoted_path(out, &dirs.rag);
    out.append(RAG_EMBEDDING);
    push_quoted_path(out, &dirs.embedding_cache);
    out.append(RAG_CHUNKS);
    out.append("top_k: ");
    push_decimal(out, context_top_k as u64);
    assert(out@ =~= old(out)@ + rag_section(dirs@, context_top_k));
}

fn push_training_section(out: &mut String, dirs: &EngineDirs)
    ensures
        final(out)@ == old(out)@ + training_section(dirs@),
{
    out.append("\n\ntraining:\n  working_dir: ");
    push_quoted_path(out, &dirs.training);
    out.append(CLOSING_SECTIONS);
    assert(out@ =~= old(out)@ + training_section(dirs@));
}

/// The configuration file of an engine that works in given directories.
pub fn render_config_for_dirs(dirs: &EngineDirs, config: &AppConfig) -> (res: String)
    ensures
        res@ == config_text(dirs@, config_values(*config)),
{
    let http = parse_endpoint(config.engine.http_url.as_str(), FALLBACK_HOST, FALLBACK_HTTP_PORT);
    let grpc = parse_endpoint(config.engine.grpc_url.as_str(), FALLBACK_HOST, FALLBACK_GRPC_PORT);
    let mut out = String::new();
    push_server_section(&mut out, &http, &grpc);
    push_daemon_section(&mut out, config.engine.startup_timeout_s);
    push_storage_section(&mut out, dirs);
    push_context_section(&mut out, dirs);
    push_rag_section(&mut out, dirs, config.engine.context_top_k);
    push_training_section(&mut out, dirs);
    assert(out@ =~= config_text(dirs@, config_values(*config)));
    out
}

/// The names that lead from the application's data directory to one of the
/// directories of the engine.
pub open spec fn dir_names(name: Seq<char>) -> Seq<Seq<char>> {
    seq![ENGINE_DATA_DIR_NAME@, name]
}

/// Whether these are the directories of an engine in `engine_dir`.
pub open spec fn are_engine_dirs(engine_dir: &Path, dirs: EngineDirs) -> bool {
    &&& path::is_join(engine_dir, "models"@, dirs.models)
    &&& path::is_join(engine_dir, "rag"@, dirs.rag)
    &&& path::is_join(engine_dir, "context"@, dirs.context)
    &&& path::is_join(engine_dir, "embedding-cache"@, dirs.embedding_cache)
    &&& path::is_join(engine_dir, "training"@, dirs.training)
}

/// Whether `text` is the configuration file of an engine in `engine_dir`.
pub open spec fn is_config_in(engine_dir: PathBuf, config: AppConfig, text: Seq<char>) -> bool {
    exists|at: &Path, dirs: EngineDirs|
        {
            &&& path::is_borrow(engine_dir, at)
            &&& #[trigger] are_engine_dirs(at, dirs)
            &&& text == config_text(dirs@, config_values(config))
        }
}

/// The directories of an engine below `root`, told with slashes.
pub open spec fn slashed_engine_dirs(root: Seq<char>) -> EngineDirTexts {
    let base = yaml::slashed(root);
    EngineDirTexts {
        models: base + path::slash_path(dir_names("models"@)),
        rag: base + path::slash_path(dir_names("rag"@)),
        context: base + path::slash_path(dir_names("context"@)),
        embedding_cache: base + path::slash_path(dir_names("embedding-cache"@)),
        training: base + path::slash_path(dir_names("training"@)),
    }
}

proof fn lemma_dir_names_are_plain()
    ensures
        path::is_plain_name(ENGINE_DATA_DIR_NAME@),
        path::is_plain_name("models"@),
        path::is_plain_name("rag"@),
        path::is_plain_name("context"@),
        path::is_plain_name("embedding-cache"@),
        path::is_plain_name("training"@),
{
    assert(path::has_plain_chars("rag-engine"@) && "rag-engine"@.len() > 2) by {
        reveal_strlit("rag-engine");
    }
    assert(path::has_plain_chars("models"@) && "models"@.len() > 2) by {
        reveal_strlit("models");
    }
    assert(path::has_plain_chars("rag"@) && "rag"@.len() > 2) by {
        reveal_strlit("rag");
    }
    assert(path::has_plain_chars("context"@) && "context"@.len() > 2) by {
        reveal_strlit("context");
    }
    assert(path::has_plain_chars("embedding-cache"@) && "embedding-cache"@.len() > 2) by {
        reveal_strlit("embedding-cache");
    }
    assert(path::has_plain_chars("training"@) && "training"@.len() > 2) by {
        reveal_strlit("training");
    }
}

/// The directories that an engine works in, below its own directory.
pub fn engine_dirs(engine_dir: &Path) -> (res: EngineDirs)
    ensures
        are_engine_dirs(engine_dir, res),
{
    proof {
        lemma_dir_names_are_plain();
    }
    EngineDirs {
        models: join_plain(engine_dir, "models"),
        rag: join_plain(engine_dir, "rag"),
        context: join_plain(engine_dir, "context"),
        embedding_cache: join_plain(engine_dir, "embedding-cache"),
        training: join_plain(engine_dir, "training"),
    }
}

proof fn lemma_quoted_dir(
    root: Seq<char>,
    engine_dir: Seq<char>,
    name: Seq<char>,
    dir: Seq<char>,
)
    requires
        path::is_plain_dir(root),
        path::is_plain_name(ENGINE_DATA_DIR_NAME@),
        path::is_plain_name(name),
        path::is_joined(root, ENGINE_DATA_DIR_NAME@, engine_dir),
        path::is_joined(engine_dir, name, dir),
    ensures
        quoted_path(dir) == quoted_path(yaml::slashed(root) + path::slash_path(dir_names(name))),
{
    let names = dir_names(name);
    path::law_text_joined_to_plain_dir(root, ENGINE_DATA_DIR_NAME@, engine_dir);
    path::law_text_joined_to_plain_dir(engine_dir, name, dir);
    reveal_with_fuel(path::slash_path, 3);
    assert(names.drop_last().drop_last() =~= seq![]);
    assert(names.drop_last().last() == ENGINE_DATA_DIR_NAME@);
    assert(yaml::slashed(dir) =~= yaml::slashed(root) + path::slash_path(names));
    assert(yaml::slashed(yaml::slashed(dir)) =~= yaml::slashed(dir));
}

/// Below a plain directory the configuration file is the same on every
/// platform: each directory of the engine is written as the text of the data
/// directory, `/rag-engine/` and the directory's own name, with slashes alone.
pub proof fn law_config_below_plain_dir(
    app_data_dir: &Path,
    engine_dir: PathBuf,
    config: AppConfig,
    text: Seq<char>,
)
    requires
        path::is_plain_dir(path::path_text(app_data_dir)),
        path::is_join(app_data_dir, ENGINE_DATA_DIR_NAME@, engine_dir),
        is_config_in(engine_dir, config, text),
    ensures
        text == config_text(
            slashed_engine_dirs(path::path_text(app_data_dir)),
            config_values(config),
        ),
{
    let (at, dirs) = choose|at: &Path, dirs: EngineDirs|
        {
            &&& path::is_borrow(engine_dir, at)
            &&& #[trigger] are_engine_dirs(at, dirs)
            &&& text == config_text(dirs@, config_values(config))
        };
    let root = path::path_text(app_data_dir);
    let base = path::path_buf_text(engine_dir);
    lemma_dir_names_are_plain();
    lemma_quoted_dir(root, base, "models"@, dirs@.models);
    lemma_quoted_dir(root, base, "rag"@, dirs@.rag);
    lemma_quoted_dir(root, base, "context"@, dirs@.context);
    lemma_quoted_dir(root, base, "embedding-cache"@, dirs@.embedding_cache);
    lemma_quoted_dir(root, base, "training"@, dirs@.training);
}

/// The configuration file of an engine in its own directory.
pub fn render_config_in(engine_dir: &PathBuf, config: &AppConfig) -> (res: String)
    ensures
        is_config_in(*engine_dir, *config, res@),
{
    let at = borrowed(engine_dir);
    let dirs = engine_dirs(at);
    let text = render_config_for_dirs(&dirs, config);
    assert(are_engine_dirs(at, dirs));
    text
}

/// The configuration file of an engine whose data stands below the
/// application's data directory.
pub fn render_engine_config(app_data_dir: &Path, config: &AppConfig) -> (res: String)
    ensures
        exists|engine_dir: PathBuf|
            {
                &&& #[trigger] path::is_join(app_data_dir, ENGINE_DATA_DIR_NAME@, engine_dir)
                &&& is_config_in(engine_dir, *config, res@)
            },
        path::is_plain_dir(path::path_text(app_data_dir)) ==> res@ == config_text(
            slashed_engine_dirs(path::path_text(app_data_dir)),
            config_values(*config),
        ),
{
    let engine_dir = engine_root_dir(app_data_dir);
    let text = render_config_in(&engine_dir, config);
    proof {
        if path::is_plain_dir(path::path_text(app_data_dir)) {
            law_config_below_plain_dir(app_data_dir, engine_dir, *config, text@);
        }
    }
    text
}

// ---------------------------------------------------------------------------
// Laws
// ---------------------------------------------------------------------------

/// Whether `text` holds `key` with a quoted value after it that reads as `value`.
pub open spec fn states_text(text: Seq<char>, key: Seq<char>, value: Seq<char>) -> bool {
    exists|at: int|
        {
            let from = at + key.len();
            &&& #[trigger] text::occurs_at(text, key, at)
            &&& from < text.len()
            &&& text[from] == '"'
            &&& yaml::read_quoted(text.skip(from + 1)) matches Some((read, _))
            &&& read == value
        }
}

/// Whether `text` holds `key` with exactly the decimal of `value` after it.
pub open spec fn states_number(text: Seq<char>, key: Seq<char>, value: nat) -> bool {
    exists|at: int|
        {
            let to = at + key.len() + number::decimal(value).len();
            &&& #[trigger] text::occurs_at(text, key + number::decimal(value), at)
            &&& to < text.len()
            &&& !number::is_digit(text[to])
        }
}

proof fn lemma_states_text(
    text: Seq<char>,
    before: Seq<char>,
    key: Seq<char>,
    value: Seq<char>,
    after: Seq<char>,
)
    requires
        text == before + key + quoted(value) + after,
    ensures
        states_text(text, key, value),
{
    let at = before.len() as int;
    let from = at + key.len();
    assert(text.subrange(at, from) =~= key);
    assert(text::occurs_at(text, key, at));
    assert(text.skip(from + 1) =~= yaml::escaped(value) + seq!['"'] + after);
    yaml::law_escaped_text_reads_back(value, after);
}

proof fn lemma_states_number(
    text: Seq<char>,
    before: Seq<char>,
    key: Seq<char>,
    value: nat,
    after: Seq<char>,
)
    requires
        text == before + key + number::decimal(value) + after,
        after.len() > 0,
        !number::is_digit(after.first()),
    ensures
        states_number(text, key, value),
{
    let piece = key + number::decimal(value);
    let at = before.len() as int;
    assert(text.subrange(at, at + piece.len()) =~= piece);
    assert(text::occurs_at(text, piece, at));
    assert(text[at + piece.len()] == after[0]);
}

proof fn lemma_server_states(http: (Seq<char>, u16), grpc: (Seq<char>, u16), post: Seq<char>)
    requires
        post.len() > 0,
        !number::is_digit(post.first()),
    ensures
        ({
            let text = server_section(http, grpc) + post;
            &&& states_text(text, "server:\n  host: "@, http.0)
            &&& states_number(text, "\n  port: "@, http.1 as nat)
            &&& states_text(
                text,
                "\n  mode: \"production\"\n  grpc:\n    host: "@,
                grpc.0,
            )
            &&& states_number(text, "\n    port: "@, grpc.1 as nat)
        }),
{
    let text = server_section(http, grpc) + post;
    let k1 = "server:\n  host: "@;
    let v1 = quoted(http.0);
    let k2 = "\n  port: "@;
    let v2 = number::decimal(http.1 as nat);
    let k3 = "\n  mode: \"production\"\n  grpc:\n    host: "@;
    let v3 = quoted(grpc.0);
    let k4 = "\n    port: "@;
    let v4 = number::decimal(grpc.1 as nat);
    assert(text =~= seq![] + k1 + v1 + (k2 + v2 + k3 + v3 + k4 + v4 + post));
    lemma_states_text(text, seq![], k1, http.0, k2 + v2 + k3 + v3 + k4 + v4 + post);
    let after = k3 + v3 + k4 + v4 + post;
    assert(text =~= (k1 + v1) + k2 + v2 + after);
    assert(k3.len() > 0 && k3[0] == '\n') by {
        reveal_strlit("\n  mode: \"production\"\n  grpc:\n    host: ");
    }
    assert(after.first() == k3[0]);
    lemma_states_number(text, k1 + v1, k2, http.1 as nat, after);
    assert(text =~= (k1 + v1 + k2 + v2) + k3 + v3 + (k4 + v4 + post));
    lemma_states_text(text, k1 + v1 + k2 + v2, k3, grpc.0, k4 + v4 + post);
    assert(text =~= (k1 + v1 + k2 + v2 + k3 + v3) + k4 + v4 + post);
    lemma_states_number(text, k1 + v1 + k2 + v2 + k3 + v3, k4, grpc.1 as nat, post);
}

proof fn lemma_daemon_states(pre: Seq<char>, startup_timeout_s: u64, post: Seq<char>)
    requires
        post.len() > 0,
        !number::is_digit(post.first()),
    ensures
        ({
            let text = pre + daemon_section(startup_timeout_s) + post;
            &&& states_number(text, CORS_AND_DAEMON@, DEFAULT_ENGINE_DAEMON_PORT as nat)
            &&& states_number(text, DAEMON_COMMAND@, startup_timeout_s as nat)
        }),
{
    let text = pre + daemon_section(startup_timeout_s) + post;
    let nl = "\n"@;
    let k1 = CORS_AND_DAEMON@;
    let v1 = number::decimal(DEFAULT_ENGINE_DAEMON_PORT as nat);
    let k2 = DAEMON_COMMAND@;
    let v2 = number::decimal(startup_timeout_s as nat);
    let after = nl + k2 + v2 + post;
    assert(text =~= (pre + nl) + k1 + v1 + after);
    assert(nl.len() > 0 && nl[0] == '\n') by {
        reveal_strlit("\n");
    }
    assert(after.first() == nl[0]);
    lemma_states_number(text, pre + nl, k1, DEFAULT_ENGINE_DAEMON_PORT as nat, after);
    assert(text =~= (pre + nl + k1 + v1 + nl) + k2 + v2 + post);
    lemma_states_number(
        text,
        pre + nl + k1 + v1 + nl,
        k2,
        startup_timeout_s as nat,
        post,
    );
}

proof fn lemma_storage_states(pre: Seq<char>, dirs: EngineDirTexts, post: Seq<char>)
    ensures
        ({
            let text = pre + storage_section(dirs) + post;
            &&& states_text(text, DAEMON_LIMITS_AND_SERVICES@, yaml::slashed(dirs.rag))
            &&& states_text(text, STORAGE_OPTIONS_AND_RUNTIME@, yaml::slashed(dirs.models))
        }),
{
    let text = pre + storage_section(dirs) + post;
    let unit = "s\n"@;
    let k1 = DAEMON_LIMITS_AND_SERVICES@;
    let v1 = quoted_path(dirs.rag);
    let k2 = STORAGE_OPTIONS_AND_RUNTIME@;
    let v2 = quoted_path(dirs.models);
    assert(text =~= (pre + unit) + k1 + v1 + (k2 + v2 + post));
    lemma_states_text(text, pre + unit, k1, yaml::slashed(dirs.rag), k2 + v2 + post);
    assert(text =~= (pre + unit + k1 + v1) + k2 + v2 + post);
    lemma_states_text(text, pre + unit + k1 + v1, k2, yaml::slashed(dirs.models), post);
}

proof fn lemma_context_states(pre: Seq<char>, dirs: EngineDirTexts, post: Seq<char>)
    ensures
        ({
            let text = pre + context_section(dirs) + post;
            &&& states_number(
                text,
                "service_url: \"http://127.0.0.1:"@,
                DEFAULT_CONTEXT_SERVICE_PORT as nat,
            )
            &&& states_text(
                text,
                "\"\n  binary_path: \"context_server\"\n  data_dir: "@,
                yaml::slashed(dirs.context),
            )
        }),
{
    let text = pre + context_section(dirs) + post;
    let k0 = RUNTIME_OPTIONS_AND_CONTEXT@;
    let k1 = "service_url: \"http://127.0.0.1:"@;
    let v1 = number::decimal(DEFAULT_CONTEXT_SERVICE_PORT as nat);
    let k2 = "\"\n  binary_path: \"context_server\"\n  data_dir: "@;
    let v2 = quoted_path(dirs.context);
    let after = k2 + v2 + post;
    assert(text =~= (pre + k0) + k1 + v1 + after);
    assert(k2.len() > 0 && k2[0] == '"') by {
        reveal_strlit("\"\n  binary_path: \"context_server\"\n  data_dir: ");
    }
    assert(after.first() == k2[0]);
    lemma_states_number(text, pre + k0, k1, DEFAULT_CONTEXT_SERVICE_PORT as nat, after);
    assert(text =~= (pre + k0 + k1 + v1) + k2 + v2 + post);
    lemma_states_text(text, pre + k0 + k1 + v1, k2, yaml::slashed(dirs.context), post);
}

proof fn lemma_rag_states(
    pre: Seq<char>,
    dirs: EngineDirTexts,
    context_top_k: u32,
    post: Seq<char>,
)
    requires
        post.len() > 0,
        !number::is_digit(post.first()),
    ensures
        ({
            let text = pre + rag_section(dirs, context_top_k) + post;
            &&& states_text(text, CONTEXT_OPTIONS_AND_RAG@, yaml::slashed(dirs.rag))
            &&& states_text(text, RAG_EMBEDDING@, yaml::slashed(dirs.embedding_cache))
            &&& states_number(text, "top_k: "@, context_top_k as nat)
        }),
{
    let text = pre + rag_section(dirs, context_top_k) + post;
    let k1 = CONTEXT_OPTIONS_AND_RAG@;
    let v1 = quoted_path(dirs.rag);
    let k2 = RAG_EMBEDDING@;
    let v2 = quoted_path(dirs.embedding_cache);
    let k3 = RAG_CHUNKS@;
    let k4 = "top_k: "@;
    let v4 = number::decimal(context_top_k as nat);
    assert(text =~= pre + k1 + v1 + (k2 + v2 + k3 + k4 + v4 + post));
    lemma_states_text(text, pre, k1, yaml::slashed(dirs.rag), k2 + v2 + k3 + k4 + v4 + post);
    assert(text =~= (pre + k1 + v1) + k2 + v2 + (k3 + k4 + v4 + post));
    lemma_states_text(
        text,
        pre + k1 + v1,
        k2,
        yaml::slashed(dirs.embedding_cache),
        k3 + k4 + v4 + post,
    );
    assert(text =~= (pre + k1 + v1 + k2 + v2 + k3) + k4 + v4 + post);
    lemma_states_number(
        text,
        pre + k1 + v1 + k2 + v2 + k3,
        k4,
        context_top_k as nat,
        post,
    );
}

proof fn lemma_training_states(pre: Seq<char>, dirs: EngineDirTexts)
    ensures
        states_text(
            pre + training_section(dirs),
            "\n\ntraining:\n  working_dir: "@,
            yaml::slashed(dirs.training),
        ),
{
    let text = pre + training_section(dirs);
    let k1 = "\n\ntraining:\n  working_dir: "@;
    assert(text =~= pre + k1 + quoted_path(dirs.training) + CLOSING_SECTIONS@);
    lemma_states_text(text, pre, k1, yaml::slashed(dirs.training), CLOSING_SECTIONS@);
}

/// The configuration file states both endpoints, the ports of the engine's own
/// services, the limits and every directory, each after its key and in a form
/// that reads as the value it was given. No value, whatever characters it
/// holds, can spill out of its quotes.
pub proof fn law_config_states_its_values(dirs: EngineDirTexts, values: ConfigValues)
    ensures
        ({
            let text = config_text(dirs, values);
            &&& states_text(text, "server:\n  host: "@, values.http.0)
            &&& states_number(text, "\n  port: "@, values.http.1 as nat)
            &&& states_text(
                text,
                "\n  mode: \"production\"\n  grpc:\n    host: "@,
                values.grpc.0,
            )
            &&& states_number(text, "\n    port: "@, values.grpc.1 as nat)
            &&& states_number(text, CORS_AND_DAEMON@, DEFAULT_ENGINE_DAEMON_PORT as nat)
            &&& states_number(text, DAEMON_COMMAND@, values.startup_timeout_s as nat)
            &&& states_text(text, DAEMON_LIMITS_AND_SERVICES@, yaml::slashed(dirs.rag))
            &&& states_text(text, STORAGE_OPTIONS_AND_RUNTIME@, yaml::slashed(dirs.models))
            &&& states_number(
                text,
                "service_url: \"http://127.0.0.1:"@,
                DEFAULT_CONTEXT_SERVICE_PORT as nat,
            )
            &&& states_text(
                text,
                "\"\n  binary_path: \"context_server\"\n  data_dir: "@,
                yaml::slashed(dirs.context),
            )
            &&& states_text(text, CONTEXT_OPTIONS_AND_RAG@, yaml::slashed(dirs.rag))
            &&& states_text(text, RAG_EMBEDDING@, yaml::slashed(dirs.embedding_cache))
            &&& states_number(text, "top_k: "@, values.context_top_k as nat)
            &&& states_text(
                text,
                "\n\ntraining:\n  working_dir: "@,
                yaml::slashed(dirs.training),
            )
        }),
{
    let s1 = server_section(values.http, values.grpc);
    let s2 = daemon_section(values.startup_timeout_s);
    let s3 = storage_section(dirs);
    let s4 = context_section(dirs);
    let s5 = rag_section(dirs, values.context_top_k);
    let s6 = training_section(dirs);
    let text = config_text(dirs, values);
    let n1 = "\n"@;
    let n3 = "s\n"@;
    let n6 = "\n\ntraining:\n  working_dir: "@;
    assert(n1.len() > 0 && n1[0] == '\n') by {
        reveal_strlit("\n");
    }
    assert(n3.len() > 0 && n3[0] == 's') by {
        reveal_strlit("s\n");
    }
    assert(n6.len() > 0 && n6[0] == '\n') by {
        reveal_strlit("\n\ntraining:\n  working_dir: ");
    }
    assert(text =~= s1 + (s2 + s3 + s4 + s5 + s6));
    assert((s2 + s3 + s4 + s5 + s6).first() == n1[0]);
    lemma_server_states(values.http, values.grpc, s2 + s3 + s4 + s5 + s6);
    assert(text =~= s1 + s2 + (s3 + s4 + s5 + s6));
    assert((s3 + s4 + s5 + s6).first() == n3[0]);
    lemma_daemon_states(s1, values.startup_timeout_s, s3 + s4 + s5 + s6);
    assert(text =~= (s1 + s2) + s3 + (s4 + s5 + s6));
    lemma_storage_states(s1 + s2, dirs, s4 + s5 + s6);
    assert(text =~= (s1 + s2 + s3) + s4 + (s5 + s6));
    lemma_context_states(s1 + s2 + s3, dirs, s5 + s6);
    assert(text =~= (s1 + s2 + s3 + s4) + s5 + s6);
    assert(s6.first() == n6[0]);
    lemma_rag_states(s1 + s2 + s3 + s4, dirs, values.context_top_k, s6);
    lemma_training_states(s1 + s2 + s3 + s4 + s5, dirs);
}

/// Whether a URL spells out a host and a port that are read back from it.
pub open spec fn names_endpoint(
    url: Seq<char>,
    scheme: Seq<char>,
    host: Seq<char>,
    port: u16,
    path: Seq<char>,
) -> bool {
    &&& url == scheme + (host + seq![':'] + number::decimal(port as nat)) + path
    &&& endpoint::is_scheme(scheme)
    &&& endpoint::is_path(path)
    &&& host.len() > 0
    &&& !host.contains('/')
    &&& !CharClass::White.has(host.first())
    &&& !CharClass::Bracket.has(host.first())
    &&& !CharClass::Bracket.has(host.last())
}

/// The engine is told to listen where the application will look for it: the
/// configuration file states the host and the port that the gRPC URL of the
/// settings spells out.
pub proof fn law_config_names_the_grpc_endpoint(
    dirs: EngineDirTexts,
    config: AppConfig,
    scheme: Seq<char>,
    host: Seq<char>,
    port: u16,
    path: Seq<char>,
)
    requires
        names_endpoint(config.engine.grpc_url@, scheme, host, port, path),
    ensures
        ({
            let text = config_text(dirs, config_values(config));
            &&& states_text(
                text,
                "\n  mode: \"production\"\n  grpc:\n    host: "@,
                host,
            )
            &&& states_number(text, "\n    port: "@, port as nat)
        }),
{
    assert forall|i: int| 0 <= i < host.len() implies #[trigger] host[i] != '/' by {
        assert(host.contains(host[i]));
    }
    endpoint::law_host_and_port_read_back(
        scheme,
        host,
        port,
        path,
        FALLBACK_HOST@,
        FALLBACK_GRPC_PORT,
    );
    law_config_states_its_values(dirs, config_values(config));
}

/// The same of the diagnostics URL.
pub proof fn law_config_names_the_http_endpoint(
    dirs: EngineDirTexts,
    config: AppConfig,
    scheme: Seq<char>,
    host: Seq<char>,
    port: u16,
    path: Seq<char>,
)
    requires
        names_endpoint(config.engine.http_url@, scheme, host, port, path),
    ensures
        ({
            let text = config_text(dirs, config_values(config));
            &&& states_text(text, "server:\n  host: "@, host)
            &&& states_number(text, "\n  port: "@, port as nat)
        }),
{
    assert forall|i: int| 0 <= i < host.len() implies #[trigger] host[i] != '/' by {
        assert(host.contains(host[i]));
    }
    endpoint::law_host_and_port_read_back(
        scheme,
        host,
        port,
        path,
        FALLBACK_HOST@,
        FALLBACK_HTTP_PORT,
    );
    law_config_states_its_values(dirs, config_values(config));
}

/// The configuration file, word for word. Its values are the host and port of
/// both URLs, with 127.0.0.1 and the ports 8080 and 50051 for what they do not
/// say, the time that a start may take, the number of pieces of context, and the
/// directories with slashes for backslashes. Texts are escaped inside their
/// quotes, and numbers are written in decimal.
pub proof fn law_config_word_for_word(dirs: EngineDirTexts, config: AppConfig)
    ensures
        ({
            let http = endpoint::endpoint(config.engine.http_url@, "127.0.0.1"@, 8080);
            let grpc = endpoint::endpoint(config.engine.grpc_url@, "127.0.0.1"@, 50051);
            let text = |value: Seq<char>| seq!['"'] + yaml::escaped(value) + seq!['"'];
            let server = "server:\n  host: "@
                + text(http.0)
                + "\n  port: "@
                + number::decimal(http.1 as nat)
                + "\n  mode: \"production\"\n  grpc:\n    host: "@
                + text(grpc.0)
                + "\n    port: "@
                + number::decimal(grpc.1 as nat);
            let daemon = "\n"@
                + r#"  cors:
    enabled: true
    allowed_origins:
      - "http://localhost:*"
      - "http://127.0.0.1:*"
      - "app://ai-engine"
    allowed_headers:
      - "Content-Type"
      - "Authorization"

daemon:
  host: "127.0.0.1"
  port: "#@
                + number::decimal(50061)
                + "\n"@
                + r#"  required: true
  command: ""
  args: []
  startup_timeout: "#@
                + number::decimal(config.engine.startup_timeout_s as nat);
            let storage = "s\n"@
                + r#"  restart_backoff: 3s
  ready_timeout: 10s
  llama_cli: "llama-cli"
  training_cli: "llama-train"

services:
  enable_training: false
  enable_mcp: false

storage:
  lancedb_uri: "#@
                + text(yaml::slashed(dirs.rag))
                + r#"
  enable_fts: true
  enable_hybrid_search: true

runtime:
  models_path: "#@
                + text(yaml::slashed(dirs.models));
            let context = r#"
  backend: "mistralrs"
  providers: []
  mistralrs:
    force_cpu: false
    max_num_seqs: 32
    auto_isq: ""
    paged_attn_block_size: 0
    paged_attn_gpu_mem_ctx: 0
    paged_attn_cache_dtype: ""

huggingface:
  enabled: true
  endpoint: "https://huggingface.co"
  max_download_bytes: 0
  compatible_extensions:
    - ".gguf"
    - ".ggml"
    - ".bin"

context:
  enabled: true
  "#@
                + "service_url: \"http://127.0.0.1:"@
                + number::decimal(9191)
                + "\"\n  binary_path: \"context_server\"\n  data_dir: "@
                + text(yaml::slashed(dirs.context));
            let rag = r#"
  auto_start: true
  startup_timeout: 20s
  managed_roots:
    - "workspace=."
  openviking:
    url: ""
    api_key: ""

rag:
  storage_path: "#@
                + text(yaml::slashed(dirs.rag))
                + r#"
  embedding_provider: "fastembed"
  embedding_model: "sentence-transformers/all-MiniLM-L6-v2"
  embedding_cache_dir: "#@
                + text(yaml::slashed(dirs.embedding_cache))
                + r#"
  embedding_allow_download: true
  chunk_size: 512
  chunk_overlap: 50
  "#@
                + "top_k: "@
                + number::decimal(config.engine.context_top_k as nat);
            let training = "\n\ntraining:\n  working_dir: "@
                + text(yaml::slashed(dirs.training))
                + r#"
  max_concurrent_jobs: 2

mcp:
  timeout: 30s
  retries: 3

logging:
  level: "info"
  format: "json"
"#@;
            config_text(dirs, config_values(config)) == server + daemon + storage + context + rag
                + training
        }),
{
}

/// Where the diagnostics URL names no port, the file opens with the host of
/// that URL, or 127.0.0.1 where it names none either, and the port 8080,
/// whatever the other settings are.
pub proof fn law_diagnostics_port_is_8080_unless_named(
    dirs: EngineDirTexts,
    config: AppConfig,
    lead: Seq<char>,
    scheme: Seq<char>,
    left: Seq<char>,
    host: Seq<char>,
    right: Seq<char>,
    path: Seq<char>,
    trail: Seq<char>,
)
    requires
        endpoint::is_blank(lead),
        scheme == ""@ || scheme == "http://"@ || scheme == "https://"@,
        endpoint::is_blank(left),
        forall|i: int| 0 <= i < host.len() ==> #[trigger] host[i] != '/' && host[i] != ':',
        host.len() > 0 ==> !text::is_white_space(host.first()) && !text::is_white_space(
            host.last(),
        ),
        endpoint::is_blank(right),
        path.len() == 0 || path.first() == '/',
        endpoint::is_blank(trail),
        config.engine.http_url@ == lead + scheme + left + host + right + path + trail,
    ensures
        ("server:\n  host: "@ + (seq!['"'] + yaml::escaped(
            if host.len() == 0 {
                "127.0.0.1"@
            } else {
                host
            },
        ) + seq!['"']) + "\n  port: "@ + seq!['8', '0', '8', '0']
            + "\n  mode: \"production\"\n  grpc:\n    host: "@).is_prefix_of(
            config_text(dirs, config_values(config)),
        ),
{
    endpoint::law_endpoint_without_colon(
        lead,
        scheme,
        left,
        host,
        right,
        path,
        trail,
        "127.0.0.1"@,
        8080,
    );
    assert(number::decimal(8080) =~= seq!['8', '0', '8', '0']) by {
        number::law_decimal_is_positional(808, 0);
        number::law_decimal_is_positional(80, 8);
        number::law_decimal_is_positional(8, 0);
    }
    let values = config_values(config);
    let text = config_text(dirs, values);
    let head = "server:\n  host: "@ + quoted(values.http.0) + "\n  port: "@ + number::decimal(
        values.http.1 as nat,
    ) + "\n  mode: \"production\"\n  grpc:\n    host: "@;
    assert(text.subrange(0, head.len() as int) =~= head);
}

/// Where the gRPC URL names no port, the file gives the gRPC server the host of
/// that URL, or 127.0.0.1 where it names none either, and the port 50051, right
/// behind the endpoint of the diagnostics server.
pub proof fn law_grpc_port_is_50051_unless_named(
    dirs: EngineDirTexts,
    config: AppConfig,
    lead: Seq<char>,
    scheme: Seq<char>,
    left: Seq<char>,
    host: Seq<char>,
    right: Seq<char>,
    path: Seq<char>,
    trail: Seq<char>,
)
    requires
        endpoint::is_blank(lead),
        scheme == ""@ || scheme == "http://"@ || scheme == "https://"@,
        endpoint::is_blank(left),
        forall|i: int| 0 <= i < host.len() ==> #[trigger] host[i] != '/' && host[i] != ':',
        host.len() > 0 ==> !text::is_white_space(host.first()) && !text::is_white_space(
            host.last(),
        ),
        endpoint::is_blank(right),
        path.len() == 0 || path.first() == '/',
        endpoint::is_blank(trail),
        config.engine.grpc_url@ == lead + scheme + left + host + right + path + trail,
    ensures
        ({
            let http = endpoint::endpoint(config.engine.http_url@, "127.0.0.1"@, 8080);
            ("server:\n  host: "@ + (seq!['"'] + yaml::escaped(http.0) + seq!['"'])
                + "\n  port: "@ + number::decimal(http.1 as nat)
                + "\n  mode: \"production\"\n  grpc:\n    host: "@ + (seq!['"'] + yaml::escaped(
                if host.len() == 0 {
                    "127.0.0.1"@
                } else {
                    host
                },
            ) + seq!['"']) + "\n    port: "@ + seq!['5', '0', '0', '5', '1'] + "\n"@).is_prefix_of(
                config_text(dirs, config_values(config)),
            )
        }),
{
    endpoint::law_endpoint_without_colon(
        lead,
        scheme,
        left,
        host,
        right,
        path,
        trail,
        "127.0.0.1"@,
        50051,
    );
    assert(number::decimal(50051) =~= seq!['5', '0', '0', '5', '1']) by {
        number::law_decimal_is_positional(5005, 1);
        number::law_decimal_is_positional(500, 5);
        number::law_decimal_is_positional(50, 0);
        number::law_decimal_is_positional(5, 0);
    }
    let values = config_values(config);
    let text = config_text(dirs, values);
    let head = server_section(values.http, values.grpc) + "\n"@;
    assert(text.subrange(0, head.len() as int) =~= head);
}

/// The five directories of an engine are told with slashes as the data
/// directory, `/rag-engine/` and a name: `models`, `rag`, `context`,
/// `embedding-cache` and `training`.
pub proof fn law_engine_directories_by_name(root: Seq<char>)
    ensures
        slashed_engine_dirs(root).models == yaml::slashed(root) + "/rag-engine/models"@,
        slashed_engine_dirs(root).rag == yaml::slashed(root) + "/rag-engine/rag"@,
        slashed_engine_dirs(root).context == yaml::slashed(root) + "/rag-engine/context"@,
        slashed_engine_dirs(root).embedding_cache == yaml::slashed(root)
            + "/rag-engine/embedding-cache"@,
        slashed_engine_dirs(root).training == yaml::slashed(root) + "/rag-engine/training"@,
{
    lemma_dir_name("models"@);
    lemma_dir_name("rag"@);
    lemma_dir_name("context"@);
    lemma_dir_name("embedding-cache"@);
    lemma_dir_name("training"@);
    assert(path::slash_path(dir_names("models"@)) =~= "/rag-engine/models"@) by {
        reveal_strlit("rag-engine");
        reveal_strlit("models");
        reveal_strlit("/rag-engine/models");
    }
    assert(path::slash_path(dir_names("rag"@)) =~= "/rag-engine/rag"@) by {
        reveal_strlit("rag-engine");
        reveal_strlit("rag");
        reveal_strlit("/rag-engine/rag");
    }
    assert(path::slash_path(dir_names("context"@)) =~= "/rag-engine/context"@) by {
        reveal_strlit("rag-engine");
        reveal_strlit("context");
        reveal_strlit("/rag-engine/context");
    }
    assert(path::slash_path(dir_names("embedding-cache"@)) =~= "/rag-engine/embedding-cache"@) by {
        reveal_strlit("rag-engine");
        reveal_strlit("embedding-cache");
        reveal_strlit("/rag-engine/embedding-cache");
    }
    assert(path::slash_path(dir_names("training"@)) =~= "/rag-engine/training"@) by {
        reveal_strlit("rag-engine");
        reveal_strlit("training");
        reveal_strlit("/rag-engine/training");
    }
}

proof fn lemma_dir_name(name: Seq<char>)
    ensures
        path::slash_path(dir_names(name)) == seq!['/'] + ENGINE_DATA_DIR_NAME@ + seq!['/'] + name,
{
    let names = dir_names(name);
    reveal_with_fuel(path::slash_path, 3);
    assert(names.drop_last().drop_last() =~= seq![]);
    assert(names.drop_last().last() == ENGINE_DATA_DIR_NAME@);
    assert(path::slash_path(names) =~= seq!['/'] + ENGINE_DATA_DIR_NAME@ + seq!['/'] + name);
}

/// The file names the five directories that the platform gives when their names
/// are joined to the engine's directory, each under its own name.
pub proof fn law_config_names_joined_directories(
    engine_dir: PathBuf,
    config: AppConfig,
    text: Seq<char>,
) -> (found: (&'static Path, EngineDirs))
    requires
        is_config_in(engine_dir, config, text),
    ensures
        path::is_borrow(engine_dir, found.0),
        path::is_join(found.0, "models"@, found.1.models),
        path::is_join(found.0, "rag"@, found.1.rag),
        path::is_join(found.0, "context"@, found.1.context),
        path::is_join(found.0, "embedding-cache"@, found.1.embedding_cache),
        path::is_join(found.0, "training"@, found.1.training),
        text == config_text(
            (EngineDirTexts {
                models: path::path_buf_text(found.1.models),
                rag: path::path_buf_text(found.1.rag),
                context: path::path_buf_text(found.1.context),
                embedding_cache: path::path_buf_text(found.1.embedding_cache),
                training: path::path_buf_text(found.1.training),
            }),
            config_values(config),
        ),
{
    choose|at: &Path, dirs: EngineDirs|
        {
            &&& path::is_borrow(engine_dir, at)
            &&& #[trigger] are_engine_dirs(at, dirs)
            &&& text == config_text(dirs@, config_values(config))
        }
}

/// The library renders this file, with the values of the settings that it was
/// given and in the directories that it was given.
pub proof fn law_files_are_rendered_like_this(dirs: EngineDirs, config: AppConfig, file: String)
    requires
        call_ensures(render_config_for_dirs, (&dirs, &config), file),
    ensures
        file@ == config_text(
            (EngineDirTexts {
                models: path::path_buf_text(dirs.models),
                rag: path::path_buf_text(dirs.rag),
                context: path::path_buf_text(dirs.context),
                embedding_cache: path::path_buf_text(dirs.embedding_cache),
                training: path::path_buf_text(dirs.training),
            }),
            config_values(config),
        ),
{
}

/// Below a plain data directory the library renders the same file on every
/// platform, with the directories below `/rag-engine`, told with slashes.
pub proof fn law_files_stand_below_the_data_directory(
    app_data_dir: &Path,
    config: AppConfig,
    file: String,
)
    requires
        call_ensures(render_engine_config, (app_data_dir, &config), file),
        path::is_plain_dir(path::path_text(app_data_dir)),
    ensures
        ({
            let base = yaml::slashed(path::path_text(app_data_dir));
            file@ == config_text(
                (EngineDirTexts {
                    models: base + "/rag-engine/models"@,
                    rag: base + "/rag-engine/rag"@,
                    context: base + "/rag-engine/context"@,
                    embedding_cache: base + "/rag-engine/embedding-cache"@,
                    training: base + "/rag-engine/training"@,
                }),
                config_values(config),
            )
        }),
{
    law_engine_directories_by_name(path::path_text(app_data_dir));
}

} // verus!
