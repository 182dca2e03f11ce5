//! What the embedding stage keeps of each function and type: the records
//! that carry an embedding text, with their metadata and a measure of how
//! involved their signature is, and the vector size each model produces.
//!
//! The vectors themselves are floating-point and are computed by the
//! application.
use vstd::prelude::*;

use crate::config::Config;

verus! {

/// Settings of the embedding stage.
#[derive(Debug, Clone)]
pub struct EmbeddingGenerator {
    pub model: String,
    pub enabled: bool,
    pub include_in_embedding: Vec<String>,
}

impl EmbeddingGenerator {
    pub fn new(config: &Config) -> (g: Self)
        ensures
            g.model@ == config.embeddings.model@,
            g.enabled == config.embeddings.enabled,
            g.include_in_embedding@ == config.embeddings.include_in_embedding@,
    {
        EmbeddingGenerator {
            model: config.embeddings.model.clone(),
            enabled: config.embeddings.enabled,
            include_in_embedding: config.embeddings.include_in_embedding.clone(),
        }
    }
}

/// The vector size of a known model, or `None`.
pub open spec fn model_dimension(model: Seq<char>) -> Option<nat> {
    if model == "text-embedding-3-small"@ {
        Some(1536)
    } else if model == "local"@ {
        Some(384)
    } else {
        None
    }
}

/// The vector size the generator's model produces; an unknown model is an
/// error that names it.
pub fn embedding_dimension(model: &str) -> (r: Result<usize, String>)
    ensures
        match r {
            Ok(d) => model_dimension(model@) == Some(d as nat),
            Err(m) => model_dimension(model@) is None && m@ == "Unsupported embedding model: "@
                + model@,
        },
{
    if crate::text::str_eq(model, "text-embedding-3-small") {
        Ok(1536)
    } else if crate::text::str_eq(model, "local") {
        Ok(384)
    } else {
        let m = String::from_str("Unsupported embedding model: ");
        Err(m.concat(model))
    }
}

/// A function as the embedding stage reads it.
#[derive(Debug, Clone)]
pub struct EmbeddingFunction {
    pub id: String,
    pub qualified_name: String,
    pub crate_name: String,
    pub module: String,
    pub file_path: String,
    pub visibility: String,
    pub doc_comment: Option<String>,
    pub parameters: Vec<String>,
    pub return_type: Option<String>,
    pub is_generic: bool,
    pub is_async: bool,
    pub is_unsafe: bool,
    pub embedding_text: Option<String>,
}

/// A type as the embedding stage reads it.
#[derive(Debug, Clone)]
pub struct EmbeddingType {
    pub id: String,
    pub qualified_name: String,
    pub crate_name: String,
    pub module: String,
    pub file_path: String,
    pub visibility: String,
    pub doc_comment: Option<String>,
    pub fields: Vec<String>,
    pub variants: Vec<String>,
    pub methods: Vec<String>,
    pub is_generic: bool,
    pub embedding_text: Option<String>,
}

#[derive(Debug, Clone)]
pub struct EmbeddingMetadata {
    pub crate_name: String,
    pub module: String,
    pub file_path: String,
    pub visibility: String,
    pub doc_available: bool,
    pub signature_complexity: u32,
}

#[derive(Debug, Clone)]
pub struct FunctionEmbedding {
    pub function_id: String,
    pub qualified_name: String,
    pub embedding_text: String,
    pub metadata: EmbeddingMetadata,
}

#[derive(Debug, Clone)]
pub struct TypeEmbedding {
    pub type_id: String,
    pub qualified_name: String,
    pub embedding_text: String,
    pub metadata: EmbeddingMetadata,
}

#[derive(Debug, Clone, Copy, PartialEq, Eq, Structural)]
pub enum SearchResultType {
    Function,
    Type,
}

/// How involved a signature is: one per parameter, two for generics, one
/// each for `async`, `unsafe` and a return type.
pub open spec fn signature_complexity(f: EmbeddingFunction) -> int {
    f.parameters@.len() + (if f.is_generic { 2int } else { 0 }) + (if f.is_async { 1int } else { 0 })
        + (if f.is_unsafe { 1int } else { 0 }) + (if f.return_type is Some { 1int } else { 0 })
}

/// How involved a type is: one per field, variant and method, two for
/// generics.
pub open spec fn type_complexity(t: EmbeddingType) -> int {
    t.fields@.len() + t.variants@.len() + t.methods@.len() + (if t.is_generic { 2int } else { 0 })
}

/// The counts fit the 32-bit measure.
pub open spec fn signature_measurable(f: EmbeddingFunction) -> bool {
    f.parameters@.len() + 5 <= u32::MAX
}

pub open spec fn type_measurable(t: EmbeddingType) -> bool {
    t.fields@.len() + t.variants@.len() + t.methods@.len() + 2 <= u32::MAX
}

pub fn calculate_signature_complexity(function: &EmbeddingFunction) -> (c: u32)
    requires
        signature_measurable(*function),
    ensures
        c == signature_complexity(*function),
{
    let mut complexity: u32 = function.parameters.len() as u32;
    if function.is_generic {
        complexity = complexity + 2;
    }
    if function.is_async {
        complexity = complexity + 1;
    }
    if function.is_unsafe {
        complexity = complexity + 1;
    }
    if function.return_type.is_some() {
        complexity = complexity + 1;
    }
    complexity
}

pub fn calculate_type_complexity(rust_type: &EmbeddingType) -> (c: u32)
    requires
        type_measurable(*rust_type),
    ensures
        c == type_complexity(*rust_type),
{
    let mut complexity: u32 = rust_type.fields.len() as u32;
    complexity = complexity + rust_type.variants.len() as u32;
    complexity = complexity + rust_type.methods.len() as u32;
    if rust_type.is_generic {
        complexity = complexity + 2;
    }
    complexity
}

/// What an embedding record says, as plain values.
pub ghost struct EmbeddingModel {
    pub id: Seq<char>,
    pub qualified_name: Seq<char>,
    pub embedding_text: Seq<char>,
    pub crate_name: Seq<char>,
    pub module: Seq<char>,
    pub file_path: Seq<char>,
    pub visibility: Seq<char>,
    pub doc_available: bool,
    pub signature_complexity: int,
}

impl View for FunctionEmbedding {
    type V = EmbeddingModel;

    open spec fn view(&self) -> EmbeddingModel {
        EmbeddingModel {
            id: self.function_id@,
            qualified_name: self.qualified_name@,
            embedding_text: self.embedding_text@,
            crate_name: self.metadata.crate_name@,
            module: self.metadata.module@,
            file_path: self.metadata.file_path@,
            visibility: self.metadata.visibility@,
            doc_available: self.metadata.doc_available,
            signature_complexity: self.metadata.signature_complexity as int,
        }
    }
}

impl View for TypeEmbedding {
    type V = EmbeddingModel;

    open spec fn view(&self) -> EmbeddingModel {
        EmbeddingModel {
            id: self.type_id@,
            qualified_name: self.qualified_name@,
            embedding_text: self.embedding_text@,
            crate_name: self.metadata.crate_name@,
            module: self.metadata.module@,
            file_path: self.metadata.file_path@,
            visibility: self.metadata.visibility@,
            doc_available: self.metadata.doc_available,
            signature_complexity: self.metadata.signature_complexity as int,
        }
    }
}

/// The embedding record of a function that has an embedding text.
pub open spec fn function_embedding_of(f: EmbeddingFunction, text: Seq<char>) -> EmbeddingModel {
    EmbeddingModel {
        id: f.id@,
        qualified_name: f.qualified_name@,
        embedding_text: text,
        crate_name: f.crate_name@,
        module: f.module@,
        file_path: f.file_path@,
        visibility: f.visibility@,
        doc_available: f.doc_comment is Some,
        signature_complexity: signature_complexity(f),
    }
}

pub open spec fn type_embedding_of(t: EmbeddingType, text: Seq<char>) -> EmbeddingModel {
    EmbeddingModel {
        id: t.id@,
        qualified_name: t.qualified_name@,
        embedding_text: text,
        crate_name: t.crate_name@,
        module: t.module@,
        file_path: t.file_path@,
        visibility: t.visibility@,
        doc_available: t.doc_comment is Some,
        signature_complexity: type_complexity(t),
    }
}

/// The records of the functions that carry an embedding text, in order.
pub open spec fn function_embeddings(fs: Seq<EmbeddingFunction>) -> Seq<EmbeddingModel>
    decreases fs.len(),
{
    if fs.len() == 0 {
        Seq::empty()
    } else {
        let rest = function_embeddings(fs.drop_last());
        match fs.last().embedding_text {
            Some(t) => rest.push(function_embedding_of(fs.last(), t@)),
            None => rest,
        }
    }
}

pub open spec fn type_embeddings(ts: Seq<EmbeddingType>) -> Seq<EmbeddingModel>
    decreases ts.len(),
{
    if ts.len() == 0 {
        Seq::empty()
    } else {
        let rest = type_embeddings(ts.drop_last());
        match ts.last().embedding_text {
            Some(t) => rest.push(type_embedding_of(ts.last(), t@)),
            None => rest,
        }
    }
}

pub open spec fn fn_embedding_views(v: Seq<FunctionEmbedding>) -> Seq<EmbeddingModel> {
    v.map_values(|e: FunctionEmbedding| e@)
}

pub open spec fn type_embedding_views(v: Seq<TypeEmbedding>) -> Seq<EmbeddingModel> {
    v.map_values(|e: TypeEmbedding| e@)
}

/// The embedding records of the functions that carry an embedding text.
pub fn extract_function_embeddings(functions: &Vec<EmbeddingFunction>) -> (r: Vec<
    FunctionEmbedding,
>)
    requires
        forall|i: int| 0 <= i < functions@.len() ==> signature_measurable(#[trigger] functions@[i]),
    ensures
        fn_embedding_views(r@) == function_embeddings(functions@),
{
    let mut r: Vec<FunctionEmbedding> = Vec::new();
    for i in 0..functions.len()
        invariant
            forall|k: int|
                0 <= k < functions@.len() ==> signature_measurable(#[trigger] functions@[k]),
            fn_embedding_views(r@) == function_embeddings(functions@.take(i as int)),
    {
        let f = &functions[i];
        proof {
            assert(functions@.take(i + 1).drop_last() =~= functions@.take(i as int));
        }
        let ghost before = fn_embedding_views(r@);
        if let Some(text) = &f.embedding_text {
            let e = FunctionEmbedding {
                function_id: f.id.clone(),
                qualified_name: f.qualified_name.clone(),
                embedding_text: text.clone(),
                metadata: EmbeddingMetadata {
                    crate_name: f.crate_name.clone(),
                    module: f.module.clone(),
                    file_path: f.file_path.clone(),
                    visibility: f.visibility.clone(),
                    doc_available: f.doc_comment.is_some(),
                    signature_complexity: calculate_signature_complexity(f),
                },
            };
            r.push(e);
            assert(fn_embedding_views(r@) =~= before.push(function_embedding_of(*f, text@)));
        }
    }
    assert(functions@.take(functions@.len() as int) =~= functions@);
    r
}

/// The embedding records of the types that carry an embedding text.
pub fn extract_type_embeddings(types: &Vec<EmbeddingType>) -> (r: Vec<TypeEmbedding>)
    requires
        forall|i: int| 0 <= i < types@.len() ==> type_measurable(#[trigger] types@[i]),
    ensures
        type_embedding_views(r@) == type_embeddings(types@),
{
    let mut r: Vec<TypeEmbedding> = Vec::new();
    for i in 0..types.len()
        invariant
            forall|k: int| 0 <= k < types@.len() ==> type_measurable(#[trigger] types@[k]),
            type_embedding_views(r@) == type_embeddings(types@.take(i as int)),
    {
        let t = &types[i];
        proof {
            assert(types@.take(i + 1).drop_last() =~= types@.take(i as int));
        }
        let ghost before = type_embedding_views(r@);
        if let Some(text) = &t.embedding_text {
            let e = TypeEmbedding {
                type_id: t.id.clone(),
                qualified_name: t.qualified_name.clone(),
                embedding_text: text.clone(),
                metadata: EmbeddingMetadata {
                    crate_name: t.crate_name.clone(),
                    module: t.module.clone(),
                    file_path: t.file_path.clone(),
                    visibility: t.visibility.clone(),
                    doc_available: t.doc_comment.is_some(),
                    signature_complexity: calculate_type_complexity(t),
                },
            };
            r.push(e);
            assert(type_embedding_views(r@) =~= before.push(type_embedding_of(*t, text@)));
        }
    }
    assert(types@.take(types@.len() as int) =~= types@);
    r
}

/// The kind of a search hit: a function when its identifier holds `fn:`.
pub open spec fn result_type_of(id: Seq<char>) -> SearchResultType {
    if crate::text::contains_seq(id, "fn:"@) {
        SearchResultType::Function
    } else {
        SearchResultType::Type
    }
}

/// The name and kind under which a search hit is reported: its module path,
/// `::` and its identifier; a function when the identifier holds `fn:`.
pub fn search_result_identity(id: &str, metadata: &EmbeddingMetadata) -> (r: (String, SearchResultType))
    ensures
        r.0@ == metadata.module@ + "::"@ + id@,
        r.1 == result_type_of(id@),
{
    let name = metadata.module.clone().concat("::").concat(id);
    let kind = if crate::text::str_contains(id, "fn:") {
        SearchResultType::Function
    } else {
        SearchResultType::Type
    };
    (name, kind)
}

} // verus!
