use crate::text::text_eq;
use vstd::prelude::*;

verus! {

/// The embedding model used when a command names none.
pub const DEFAULT_MODEL: &'static str = "nomic-embed-text-v1.5";

/// The names of the embedding models the tool knows, in listing order.
pub open spec fn valid_model_names() -> Seq<Seq<char>> {
    seq![
        "BAAI/bge-small-en-v1.5"@,
        "nomic-embed-text-v1.5"@,
        "jina-embeddings-v2-base-code"@,
        "sentence-transformers/all-MiniLM-L6-v2"@,
        "BAAI/bge-base-en-v1.5"@,
        "BAAI/bge-large-en-v1.5"@,
    ]
}

/// Whether `model` is one of the known model names.
pub fn is_valid_model(model: &str) -> (ok: bool)
    ensures
        ok == valid_model_names().contains(model@),
{
    let ok = text_eq(model, "BAAI/bge-small-en-v1.5") || text_eq(model, "nomic-embed-text-v1.5")
        || text_eq(model, "jina-embeddings-v2-base-code") || text_eq(
        model,
        "sentence-transformers/all-MiniLM-L6-v2",
    ) || text_eq(model, "BAAI/bge-base-en-v1.5") || text_eq(model, "BAAI/bge-large-en-v1.5");
    proof {
        let names = valid_model_names();
        assert(names.len() == 6);
        assert(names[0] == "BAAI/bge-small-en-v1.5"@);
        assert(names[1] == "nomic-embed-text-v1.5"@);
        assert(names[2] == "jina-embeddings-v2-base-code"@);
        assert(names[3] == "sentence-transformers/all-MiniLM-L6-v2"@);
        assert(names[4] == "BAAI/bge-base-en-v1.5"@);
        assert(names[5] == "BAAI/bge-large-en-v1.5"@);
    }
    ok
}

/// The known model names as owned strings, in listing order.
pub fn get_valid_models() -> (names: Vec<String>)
    ensures
        names.deep_view() == valid_model_names(),
{
    let mut names: Vec<String> = Vec::new();
    names.push("BAAI/bge-small-en-v1.5".to_string());
    names.push("nomic-embed-text-v1.5".to_string());
    names.push("jina-embeddings-v2-base-code".to_string());
    names.push("sentence-transformers/all-MiniLM-L6-v2".to_string());
    names.push("BAAI/bge-base-en-v1.5".to_string());
    names.push("BAAI/bge-large-en-v1.5".to_string());
    assert(names.deep_view() =~= valid_model_names());
    names
}

} // verus!
