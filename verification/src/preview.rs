//! What the application shows of the engine's reports.

use crate::metadata::{first_metadata_value, metadata_bool};
#[allow(unused_imports)]
use crate::metadata;
use crate::text::trim_text;
#[allow(unused_imports)]
use crate::text;
use crate::wire::{ModelInfo, RagStatus, RuntimeStatus, SearchResult};
use vstd::prelude::*;

verus! {

/// A piece of local context.
#[derive(Clone, Debug, PartialEq, Eq)]
pub struct ContextSourcePreview {
    pub title: String,
    pub uri: String,
    pub snippet: String,
}

/// A model.
#[derive(Clone, Debug, PartialEq, Eq)]
pub struct EngineModelPreview {
    pub id: String,
    pub name: String,
    pub loaded: bool,
    pub vision: bool,
    pub thinking: bool,
}

/// The state of the engine's runtime.
#[derive(Clone, Debug, PartialEq, Eq)]
pub struct EngineRuntimeStatus {
    pub reachable: bool,
    pub healthy: bool,
    pub version: String,
    pub loaded_models: Vec<EngineModelPreview>,
}

/// The state of the engine's document index.
#[derive(Clone, Debug, PartialEq, Eq)]
pub struct EngineRagStatus {
    pub document_count: i64,
    pub chunk_count: i64,
    pub embedding_model: String,
    pub embedding_provider: String,
    pub requires_reindex: bool,
    pub reindex_reasons: Vec<String>,
}

/// The texts of a piece of local context.
pub struct SourceView {
    pub title: Seq<char>,
    pub uri: Seq<char>,
    pub snippet: Seq<char>,
}

impl View for ContextSourcePreview {
    type V = SourceView;

    open spec fn view(&self) -> SourceView {
        SourceView { title: self.title@, uri: self.uri@, snippet: self.snippet@ }
    }
}

/// What is known of a model.
pub struct ModelView {
    pub id: Seq<char>,
    pub name: Seq<char>,
    pub loaded: bool,
    pub vision: bool,
    pub thinking: bool,
}

impl View for EngineModelPreview {
    type V = ModelView;

    open spec fn view(&self) -> ModelView {
        ModelView {
            id: self.id@,
            name: self.name@,
            loaded: self.loaded,
            vision: self.vision,
            thinking: self.thinking,
        }
    }
}

/// What is known of the engine's runtime.
pub struct RuntimeView {
    pub reachable: bool,
    pub healthy: bool,
    pub version: Seq<char>,
    pub loaded_models: Seq<ModelView>,
}

impl View for EngineRuntimeStatus {
    type V = RuntimeView;

    open spec fn view(&self) -> RuntimeView {
        RuntimeView {
            reachable: self.reachable,
            healthy: self.healthy,
            version: self.version@,
            loaded_models: self.loaded_models@.map_values(|m: EngineModelPreview| m@),
        }
    }
}

/// What is shown of a model: under its id where its name is blank, and with
/// the abilities that its metadata claims.
pub open spec fn model_preview(model: ModelInfo) -> ModelView {
    ModelView {
        id: model.id@,
        name: if text::trim(model.name@).len() == 0 {
            model.id@
        } else {
            model.name@
        },
        loaded: model.loaded,
        vision: metadata::has_flag(model.metadata.deep_view(), "vision"@),
        thinking: metadata::has_flag(model.metadata.deep_view(), "thinking"@),
    }
}

/// What is shown of models, in their order.
pub open spec fn model_previews(models: Seq<ModelInfo>) -> Seq<ModelView> {
    models.map_values(|m: ModelInfo| model_preview(m))
}

/// What is shown of the engine's runtime.
pub open spec fn runtime_preview(status: RuntimeStatus, reachable: bool) -> RuntimeView {
    RuntimeView {
        reachable,
        healthy: status.healthy,
        version: status.version@,
        loaded_models: model_previews(status.loaded_models@),
    }
}

/// The metadata keys that may hold a document's title.
pub open spec fn title_keys() -> Seq<Seq<char>> {
    seq!["title"@, "name"@, "path"@]
}

/// The metadata keys that may hold a document's address.
pub open spec fn uri_keys() -> Seq<Seq<char>> {
    seq!["uri"@, "url"@, "source"@, "path"@]
}

/// A value, or a fallback where there is none.
pub open spec fn value_or(value: Option<Seq<char>>, fallback: Seq<char>) -> Seq<char> {
    match value {
        Some(text) => text,
        None => fallback,
    }
}

/// What is shown of a hit: title and address from its metadata, or else its
/// document id, and the text that was hit.
pub open spec fn source_preview(result: SearchResult) -> SourceView {
    let properties = result.metadata.deep_view();
    SourceView {
        title: value_or(metadata::first_value(properties, title_keys()), result.document_id@),
        uri: value_or(metadata::first_value(properties, uri_keys()), result.document_id@),
        snippet: result.chunk_text@,
    }
}

/// What is shown of hits, in their order.
pub open spec fn source_previews(results: Seq<SearchResult>) -> Seq<SourceView> {
    results.map_values(|r: SearchResult| source_preview(r))
}

/// What is shown of a model.
pub fn map_model_info(model: &ModelInfo) -> (res: EngineModelPreview)
    ensures
        res@ == model_preview(*model),
{
    let blank = trim_text(model.name.as_str()).as_str().is_empty();
    EngineModelPreview {
        id: model.id.clone(),
        name: if blank {
            model.id.clone()
        } else {
            model.name.clone()
        },
        loaded: model.loaded,
        vision: metadata_bool(&model.metadata, "vision"),
        thinking: metadata_bool(&model.metadata, "thinking"),
    }
}

/// What is shown of models, in their order.
pub fn map_models(models: &[ModelInfo]) -> (res: Vec<EngineModelPreview>)
    ensures
        res@.map_values(|m: EngineModelPreview| m@) == model_previews(models@),
{
    let mut res: Vec<EngineModelPreview> = Vec::new();
    let mut i: usize = 0;
    while i < models.len()
        invariant
            i <= models@.len(),
            res@.len() == i,
            forall|j: int| 0 <= j < i ==> (#[trigger] res@[j])@ == model_preview(models@[j]),
        decreases models@.len() - i,
    {
        res.push(map_model_info(&models[i]));
        i = i + 1;
    }
    assert(res@.map_values(|m: EngineModelPreview| m@) =~= model_previews(models@));
    res
}

/// What is shown of the engine's runtime.
pub fn map_runtime_status(status: RuntimeStatus, reachable: bool) -> (res: EngineRuntimeStatus)
    ensures
        res@ == runtime_preview(status, reachable),
{
    let loaded_models = map_models(status.loaded_models.as_slice());
    EngineRuntimeStatus {
        reachable,
        healthy: status.healthy,
        version: status.version,
        loaded_models,
    }
}

/// What is shown of an engine that is switched off.
pub fn disabled_runtime_status() -> (res: EngineRuntimeStatus)
    ensures
        !res.reachable,
        !res.healthy,
        res.version@ == Seq::<char>::empty(),
        res.loaded_models@ == Seq::<EngineModelPreview>::empty(),
{
    EngineRuntimeStatus {
        reachable: false,
        healthy: false,
        version: String::new(),
        loaded_models: Vec::new(),
    }
}

/// What is shown of a hit.
pub fn map_rag_result(result: SearchResult) -> (res: ContextSourcePreview)
    ensures
        res@ == source_preview(result),
{
    let title_names: Vec<&str> = vec!["title", "name", "path"];
    let uri_names: Vec<&str> = vec!["uri", "url", "source", "path"];
    proof {
        assert(title_names@.map_values(|s: &str| s@) =~= title_keys());
        assert(uri_names@.map_values(|s: &str| s@) =~= uri_keys());
    }
    let title = match first_metadata_value(&result.metadata, title_names.as_slice()) {
        Some(value) => value,
        None => result.document_id.clone(),
    };
    let uri = match first_metadata_value(&result.metadata, uri_names.as_slice()) {
        Some(value) => value,
        None => result.document_id.clone(),
    };
    ContextSourcePreview { title, uri, snippet: result.chunk_text }
}

/// What is shown of hits, in their order.
pub fn map_rag_results(results: Vec<SearchResult>) -> (res: Vec<ContextSourcePreview>)
    ensures
        res@.map_values(|s: ContextSourcePreview| s@) == source_previews(results@),
{
    let ghost all = results@;
    let mut res: Vec<ContextSourcePreview> = Vec::new();
    for result in it: results
        invariant
            it.seq() == all,
            res@.len() == it.index(),
            forall|j: int| 0 <= j < res@.len() ==> (#[trigger] res@[j])@ == source_preview(all[j]),
    {
        res.push(map_rag_result(result));
    }
    assert(res@.map_values(|s: ContextSourcePreview| s@) =~= source_previews(all));
    res
}

/// What is shown of the engine's document index: all that it reports.
pub fn map_rag_status(status: RagStatus) -> (res: EngineRagStatus)
    ensures
        res.document_count == status.document_count,
        res.chunk_count == status.chunk_count,
        res.embedding_model == status.embedding_model,
        res.embedding_provider == status.embedding_provider,
        res.requires_reindex == status.requires_reindex,
        res.reindex_reasons == status.reindex_reasons,
{
    EngineRagStatus {
        document_count: status.document_count,
        chunk_count: status.chunk_count,
        embedding_model: status.embedding_model,
        embedding_provider: status.embedding_provider,
        requires_reindex: status.requires_reindex,
        reindex_reasons: status.reindex_reasons,
    }
}

/// A model is text only until its metadata says otherwise.
pub proof fn law_model_is_text_only_by_default(model: ModelInfo)
    requires
        !model.metadata.deep_view().contains_key("vision"@),
        !model.metadata.deep_view().contains_key("thinking"@),
    ensures
        !model_preview(model).vision,
        !model_preview(model).thinking,
{
}

/// A model is never shown under a blank name, unless its id is blank too.
pub proof fn law_model_name_is_not_blank(model: ModelInfo)
    requires
        text::trim(model.id@).len() > 0,
    ensures
        text::trim(model_preview(model).name).len() > 0,
{
}

/// A hit without metadata is shown under its document id.
pub proof fn law_bare_hit_shows_document_id(result: SearchResult)
    requires
        result.metadata.deep_view() == Map::<Seq<char>, Seq<char>>::empty(),
    ensures
        source_preview(result).title == result.document_id@,
        source_preview(result).uri == result.document_id@,
{
    let none = result.metadata.deep_view();
    metadata::law_first_value_is_first(none, title_keys());
    metadata::law_first_value_is_first(none, uri_keys());
}

/// A title or address in the metadata is preferred to the document id: the
/// first of the keys with more than white space wins.
pub proof fn law_metadata_comes_first(result: SearchResult)
    ensures
        ({
            let properties = result.metadata.deep_view();
            &&& properties.contains_key("title"@) && text::trim(properties["title"@]).len() > 0
                ==> source_preview(result).title == text::trim(properties["title"@])
            &&& properties.contains_key("uri"@) && text::trim(properties["uri"@]).len() > 0
                ==> source_preview(result).uri == text::trim(properties["uri"@])
        }),
{
    assert(title_keys().first() == "title"@);
    assert(uri_keys().first() == "uri"@);
}

/// Trimming leaves something of a text exactly where it holds more than white
/// space.
proof fn lemma_is_told(s: Seq<char>)
    ensures
        text::trim(s).len() > 0 <==> exists|i: int|
            0 <= i < s.len() && !text::is_white_space(#[trigger] s[i]),
{
    text::law_blank_text_is_trimmed_away(s, text::CharClass::White);
}

/// The title of a hit is the first of the properties `title`, `name` and `path`
/// that holds more than white space, and the document id where none of them
/// does, whatever else the metadata holds. The address is the first such of
/// `uri`, `url`, `source` and `path`, and else the document id too. The text is
/// the text that was hit, unchanged.
pub proof fn law_hit_is_shown_under_its_first_property(result: SearchResult)
    ensures
        ({
            let properties = result.metadata.deep_view();
            let told = |key: Seq<char>|
                properties.contains_key(key) && exists|i: int|
                    0 <= i < properties[key].len() && !text::is_white_space(
                        #[trigger] properties[key][i],
                    );
            let shown = source_preview(result);
            &&& shown.title == if told("title"@) {
                text::trim(properties["title"@])
            } else if told("name"@) {
                text::trim(properties["name"@])
            } else if told("path"@) {
                text::trim(properties["path"@])
            } else {
                result.document_id@
            }
            &&& shown.uri == if told("uri"@) {
                text::trim(properties["uri"@])
            } else if told("url"@) {
                text::trim(properties["url"@])
            } else if told("source"@) {
                text::trim(properties["source"@])
            } else if told("path"@) {
                text::trim(properties["path"@])
            } else {
                result.document_id@
            }
            &&& shown.snippet == result.chunk_text@
        }),
{
    let properties = result.metadata.deep_view();
    lemma_is_told(properties["title"@]);
    lemma_is_told(properties["name"@]);
    lemma_is_told(properties["path"@]);
    lemma_is_told(properties["uri"@]);
    lemma_is_told(properties["url"@]);
    lemma_is_told(properties["source"@]);
    reveal_with_fuel(metadata::first_value, 5);
    let t = title_keys();
    assert(t.drop_first() =~= seq!["name"@, "path"@]);
    assert(t.drop_first().drop_first() =~= seq!["path"@]);
    assert(t.drop_first().drop_first().drop_first() =~= seq![]);
    let u = uri_keys();
    assert(u.drop_first() =~= seq!["url"@, "source"@, "path"@]);
    assert(u.drop_first().drop_first() =~= seq!["source"@, "path"@]);
    assert(u.drop_first().drop_first().drop_first() =~= seq!["path"@]);
    assert(u.drop_first().drop_first().drop_first().drop_first() =~= seq![]);
}

/// Other properties than those that may name or address a hit do not matter.
pub proof fn law_other_properties_do_not_matter(a: SearchResult, b: SearchResult)
    requires
        a.document_id@ == b.document_id@,
        a.chunk_text@ == b.chunk_text@,
        forall|key: Seq<char>|
            key == "title"@ || key == "name"@ || key == "path"@ || key == "uri"@ || key == "url"@
                || key == "source"@ ==> {
                &&& #[trigger] a.metadata.deep_view().contains_key(key)
                    == b.metadata.deep_view().contains_key(key)
                &&& a.metadata.deep_view()[key] == b.metadata.deep_view()[key]
            },
    ensures
        source_preview(a) == source_preview(b),
{
    law_hit_is_shown_under_its_first_property(a);
    law_hit_is_shown_under_its_first_property(b);
    let x = a.metadata.deep_view();
    let y = b.metadata.deep_view();
    assert(x.contains_key("title"@) == y.contains_key("title"@));
    assert(x.contains_key("name"@) == y.contains_key("name"@));
    assert(x.contains_key("path"@) == y.contains_key("path"@));
    assert(x.contains_key("uri"@) == y.contains_key("uri"@));
    assert(x.contains_key("url"@) == y.contains_key("url"@));
    assert(x.contains_key("source"@) == y.contains_key("source"@));
}

/// A model keeps its id and whether it is loaded. It is shown under its name as
/// it is, with the white space around it, unless the name is blank, and then
/// under its id; each ability is the flag of its own name in the metadata.
pub proof fn law_model_is_shown_as_reported(model: ModelInfo)
    ensures
        ({
            let shown = model_preview(model);
            &&& shown.id == model.id@
            &&& shown.loaded == model.loaded
            &&& (exists|i: int|
                0 <= i < model.name@.len() && !text::is_white_space(#[trigger] model.name@[i]))
                ==> shown.name == model.name@
            &&& (forall|i: int|
                0 <= i < model.name@.len() ==> text::is_white_space(#[trigger] model.name@[i]))
                ==> shown.name == model.id@
            &&& shown.vision == metadata::has_flag(model.metadata.deep_view(), "vision"@)
            &&& shown.thinking == metadata::has_flag(model.metadata.deep_view(), "thinking"@)
        }),
{
    lemma_is_told(model.name@);
}

/// The status of the runtime is shown as it is reported, with every loaded
/// model, in order, and whether the engine was reached is as it was given.
pub proof fn law_status_is_shown_as_reported(status: RuntimeStatus, reachable: bool)
    ensures
        ({
            let shown = runtime_preview(status, reachable);
            &&& shown.reachable == reachable
            &&& shown.healthy == status.healthy
            &&& shown.version == status.version@
            &&& shown.loaded_models.len() == status.loaded_models@.len()
            &&& forall|i: int|
                0 <= i < status.loaded_models@.len() ==> #[trigger] shown.loaded_models[i]
                    == model_preview(status.loaded_models@[i])
        }),
{
}

/// Lists keep their length and order: each model and each hit is shown in its
/// own place, by itself.
pub proof fn law_lists_are_shown_item_by_item(models: Seq<ModelInfo>, results: Seq<SearchResult>)
    ensures
        model_previews(models).len() == models.len(),
        forall|i: int|
            0 <= i < models.len() ==> #[trigger] model_previews(models)[i] == model_preview(
                models[i],
            ),
        source_previews(results).len() == results.len(),
        forall|i: int|
            0 <= i < results.len() ==> #[trigger] source_previews(results)[i] == source_preview(
                results[i],
            ),
{
}

/// What the library shows of a hit is its title, address and text in their own
/// fields, and of the index every figure in its own field.
pub proof fn law_reports_are_shown_field_by_field(
    result: SearchResult,
    status: RagStatus,
    model: ModelInfo,
    source: ContextSourcePreview,
    index: EngineRagStatus,
    shown: EngineModelPreview,
)
    requires
        call_ensures(map_rag_result, (result,), source),
        call_ensures(map_rag_status, (status,), index),
        call_ensures(map_model_info, (&model,), shown),
    ensures
        source.title@ == source_preview(result).title,
        source.uri@ == source_preview(result).uri,
        source.snippet@ == result.chunk_text@,
        index.document_count == status.document_count,
        index.chunk_count == status.chunk_count,
        index.embedding_model == status.embedding_model,
        index.embedding_provider == status.embedding_provider,
        index.requires_reindex == status.requires_reindex,
        index.reindex_reasons == status.reindex_reasons,
        shown.id@ == model.id@,
        shown.name@ == model_preview(model).name,
        shown.loaded == model.loaded,
        shown.vision == metadata::has_flag(model.metadata.deep_view(), "vision"@),
        shown.thinking == metadata::has_flag(model.metadata.deep_view(), "thinking"@),
{
}

/// What the library shows of an engine's status has the given reachability, the
/// reported health and version, and one model for each loaded one; of an engine
/// that is switched off it shows nothing.
pub proof fn law_runtime_is_shown_field_by_field(
    status: RuntimeStatus,
    reachable: bool,
    shown: EngineRuntimeStatus,
    off: EngineRuntimeStatus,
)
    requires
        call_ensures(map_runtime_status, (status, reachable), shown),
        call_ensures(disabled_runtime_status, (), off),
    ensures
        shown.reachable == reachable,
        shown.healthy == status.healthy,
        shown.version@ == status.version@,
        shown.loaded_models@.len() == status.loaded_models@.len(),
        forall|i: int|
            0 <= i < shown.loaded_models@.len() ==> (#[trigger] shown.loaded_models@[i])@
                == model_preview(status.loaded_models@[i]),
        !off.reachable && !off.healthy && off.version@.len() == 0 && off.loaded_models@.len() == 0,
{
    let views = shown.loaded_models@.map_values(|m: EngineModelPreview| m@);
    assert(views == model_previews(status.loaded_models@));
    assert(views.len() == status.loaded_models@.len());
    assert forall|i: int| 0 <= i < shown.loaded_models@.len() implies (
    #[trigger] shown.loaded_models@[i])@ == model_preview(status.loaded_models@[i]) by {
        assert(views[i] == shown.loaded_models@[i]@);
        assert(views[i] == model_previews(status.loaded_models@)[i]);
    }
}

} // verus!
