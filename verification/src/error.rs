use vstd::prelude::*;

verus! {

/// What went wrong, with enough detail to tell the user what to do next.
#[derive(Debug)]
pub enum CkError {
    IndexingFailed { path: String, reason: String, suggestion: Option<String> },
    ModelDownloadFailed { model: String, reason: String, offline_fallback: Option<String> },
    ModelNotFound { model: String, available_models: Vec<String> },
    InvalidConfiguration { setting: String, value: String, expected: String },
    FileAccessError { path: String, operation: String, reason: String },
    NetworkError { operation: String, retry_possible: bool, fallback: Option<String> },
    /// No embedding can be computed. A file is then indexed by its structure
    /// alone; the run goes on.
    EmbeddingUnavailable { reason: String },
}

/// The hint attached to every failed model download.
pub const OFFLINE_HINT: &'static str = "Use --offline or pre-download to ~/.cache/ck/models/";

/// One bulleted line per model name.
pub open spec fn bullet_lines(models: Seq<Seq<char>>) -> Seq<char>
    decreases models.len(),
{
    if models.len() == 0 {
        Seq::<char>::empty()
    } else {
        bullet_lines(models.drop_last()) + "  • "@ + models.last() + "\n"@
    }
}

/// `tail`, introduced by `label`, when there is one.
pub open spec fn optional_line(label: Seq<char>, tail: Option<String>) -> Seq<char> {
    match tail {
        Some(t) => label + t@,
        None => Seq::<char>::empty(),
    }
}

fn push_optional(out: &mut String, label: &str, tail: &Option<String>)
    ensures
        final(out)@ == old(out)@ + optional_line(label@, *tail),
{
    match tail {
        Some(t) => {
            out.append(label);
            out.append(t.as_str());
            assert(out@ =~= old(out)@ + (label@ + t@));
        },
        None => {
            assert(out@ =~= old(out)@ + Seq::<char>::empty());
        },
    }
}

impl CkError {
    /// The text shown to the user for this error.
    pub open spec fn message_text(self) -> Seq<char> {
        match self {
            CkError::IndexingFailed { path, reason, suggestion } => {
                "❌ Indexing failed for "@ + path@ + ": "@ + reason@ + optional_line(
                    "\n💡 Suggestion: "@,
                    suggestion,
                )
            },
            CkError::ModelDownloadFailed { model, reason, offline_fallback } => {
                "❌ Failed to download model '"@ + model@ + "': "@ + reason@ + optional_line(
                    "\n💡 Offline fallback: "@,
                    offline_fallback,
                )
            },
            CkError::ModelNotFound { model, available_models } => {
                "❌ Model '"@ + model@ + "' not found"@ + (if available_models@.len() == 0 {
                    Seq::<char>::empty()
                } else {
                    "\n📋 Available models:\n"@ + bullet_lines(available_models.deep_view())
                })
            },
            CkError::InvalidConfiguration { setting, value, expected } => {
                "❌ Invalid configuration: "@ + setting@ + " = '"@ + value@ + "'\n📋 Expected: "@
                    + expected@
            },
            CkError::FileAccessError { path, operation, reason } => {
                "❌ Cannot "@ + operation@ + " file "@ + path@ + ": "@ + reason@
            },
            CkError::NetworkError { operation, retry_possible, fallback } => {
                "❌ Network error during "@ + operation@ + (if retry_possible {
                    "\n🔄 Retry with: ck --retry-downloads"@
                } else {
                    Seq::<char>::empty()
                }) + optional_line("\n💡 Fallback: "@, fallback)
            },
            CkError::EmbeddingUnavailable { reason } => "❌ Embedding unavailable: "@ + reason@,
        }
    }

    /// Renders the error for the user.
    pub fn message(&self) -> (text: String)
        ensures
            text@ == self.message_text(),
    {
        match self {
            CkError::IndexingFailed { path, reason, suggestion } => {
                let mut out = "❌ Indexing failed for ".to_owned();
                out.append(path.as_str());
                out.append(": ");
                out.append(reason.as_str());
                push_optional(&mut out, "\n💡 Suggestion: ", suggestion);
                out
            },
            CkError::ModelDownloadFailed { model, reason, offline_fallback } => {
                let mut out = "❌ Failed to download model '".to_owned();
                out.append(model.as_str());
                out.append("': ");
                out.append(reason.as_str());
                push_optional(&mut out, "\n💡 Offline fallback: ", offline_fallback);
                out
            },
            CkError::ModelNotFound { model, available_models } => {
                let mut out = "❌ Model '".to_owned();
                out.append(model.as_str());
                out.append("' not found");
                if available_models.len() > 0 {
                    let ghost head = out@;
                    out.append("\n📋 Available models:\n");
                    let ghost names = available_models.deep_view();
                    let mut i: usize = 0;
                    assert(names.take(0) =~= Seq::<Seq<char>>::empty());
                    while i < available_models.len()
                        invariant
                            0 <= i <= available_models.len(),
                            names == available_models.deep_view(),
                            out@ == head + "\n📋 Available models:\n"@ + bullet_lines(
                                names.take(i as int),
                            ),
                        decreases available_models.len() - i,
                    {
                        let ghost before = out@;
                        out.append("  • ");
                        out.append(available_models[i].as_str());
                        out.append("\n");
                        proof {
                            let next = names.take(i + 1);
                            assert(next.drop_last() =~= names.take(i as int));
                            assert(next.last() == available_models[i as int]@);
                            assert(out@ =~= head + "\n📋 Available models:\n"@ + bullet_lines(
                                next,
                            ));
                        }
                        i = i + 1;
                    }
                    assert(names.take(i as int) =~= names);
                    assert(out@ =~= head + ("\n📋 Available models:\n"@ + bullet_lines(names)));
                } else {
                    assert(out@ =~= out@ + Seq::<char>::empty());
                }
                out
            },
            CkError::InvalidConfiguration { setting, value, expected } => {
                let mut out = "❌ Invalid configuration: ".to_owned();
                out.append(setting.as_str());
                out.append(" = '");
                out.append(value.as_str());
                out.append("'\n📋 Expected: ");
                out.append(expected.as_str());
                out
            },
            CkError::FileAccessError { path, operation, reason } => {
                let mut out = "❌ Cannot ".to_owned();
                out.append(operation.as_str());
                out.append(" file ");
                out.append(path.as_str());
                out.append(": ");
                out.append(reason.as_str());
                out
            },
            CkError::NetworkError { operation, retry_possible, fallback } => {
                let mut out = "❌ Network error during ".to_owned();
                out.append(operation.as_str());
                if *retry_possible {
                    out.append("\n🔄 Retry with: ck --retry-downloads");
                } else {
                    assert(out@ =~= out@ + Seq::<char>::empty());
                }
                push_optional(&mut out, "\n💡 Fallback: ", fallback);
                out
            },
            CkError::EmbeddingUnavailable { reason } => {
                let mut out = "❌ Embedding unavailable: ".to_owned();
                out.append(reason.as_str());
                out
            },
        }
    }
}

/// Turns a failure into a `CkError` that says where and why it happened.
/// A success passes through unchanged.
pub trait ErrorContext<T> {
    /// A failure becomes a file access error on `path` during `operation`.
    fn context_path(self, path: &String, operation: &str) -> core::result::Result<T, CkError>;

    /// A failure becomes a failed download of `model`.
    fn context_model(self, model: &str) -> core::result::Result<T, CkError>;

    /// Attaches `suggestion` to an indexing failure.
    fn with_suggestion(self, suggestion: String) -> core::result::Result<T, CkError>;
}

impl CkError {
    /// This is a file access error with these texts.
    pub open spec fn is_file_access(
        self,
        path: Seq<char>,
        operation: Seq<char>,
        reason: Seq<char>,
    ) -> bool {
        self matches CkError::FileAccessError { path: p, operation: o, reason: r } && p@ == path
            && o@ == operation && r@ == reason
    }

    /// This is a failed download of `model` for `reason`, with the offline hint.
    pub open spec fn is_download_failure(self, model: Seq<char>, reason: Seq<char>) -> bool {
        self matches CkError::ModelDownloadFailed { model: m, reason: r, offline_fallback: Some(h) }
            && m@ == model && r@ == reason && h@ == OFFLINE_HINT@
    }

    /// This is an indexing failure with these texts.
    pub open spec fn is_indexing_failure(
        self,
        path: Seq<char>,
        reason: Seq<char>,
        suggestion: Seq<char>,
    ) -> bool {
        self matches CkError::IndexingFailed { path: p, reason: r, suggestion: Some(s) } && p@
            == path && r@ == reason && s@ == suggestion
    }

    /// The error with `suggestion` attached, where it is an indexing failure.
    pub open spec fn suggesting(self, suggestion: String) -> CkError {
        match self {
            CkError::IndexingFailed { path, reason, suggestion: _ } => CkError::IndexingFailed {
                path,
                reason,
                suggestion: Some(suggestion),
            },
            other => other,
        }
    }
}

/// A failure known only by its text.
impl<T> ErrorContext<T> for core::result::Result<T, String> {
    fn context_path(self, path: &String, operation: &str) -> (r: core::result::Result<T, CkError>)
        ensures
            self matches Ok(v) ==> r == Ok::<T, CkError>(v),
            self matches Err(e) ==> r matches Err(c) && c.is_file_access(
                path@,
                operation@,
                e@,
            ),
    {
        match self {
            Ok(v) => Ok(v),
            Err(e) => Err(
                CkError::FileAccessError {
                    path: path.clone(),
                    operation: operation.to_owned(),
                    reason: e,
                },
            ),
        }
    }

    fn context_model(self, model: &str) -> (r: core::result::Result<T, CkError>)
        ensures
            self matches Ok(v) ==> r == Ok::<T, CkError>(v),
            self matches Err(e) ==> r matches Err(c) && c.is_download_failure(model@, e@),
    {
        match self {
            Ok(v) => Ok(v),
            Err(e) => Err(
                CkError::ModelDownloadFailed {
                    model: model.to_owned(),
                    reason: e,
                    offline_fallback: Some(OFFLINE_HINT.to_owned()),
                },
            ),
        }
    }

    fn with_suggestion(self, suggestion: String) -> (r: core::result::Result<T, CkError>)
        ensures
            self matches Ok(v) ==> r == Ok::<T, CkError>(v),
            self matches Err(e) ==> r matches Err(c) && c.is_indexing_failure(
                "."@,
                e@,
                suggestion@,
            ),
    {
        match self {
            Ok(v) => Ok(v),
            Err(e) => Err(
                CkError::IndexingFailed {
                    path: ".".to_owned(),
                    reason: e,
                    suggestion: Some(suggestion),
                },
            ),
        }
    }
}

/// A failure that already is a `CkError`: its message is the reason.
impl<T> ErrorContext<T> for core::result::Result<T, CkError> {
    fn context_path(self, path: &String, operation: &str) -> (r: core::result::Result<T, CkError>)
        ensures
            self matches Ok(v) ==> r == Ok::<T, CkError>(v),
            self matches Err(e) ==> r matches Err(c) && c.is_file_access(
                path@,
                operation@,
                e.message_text(),
            ),
    {
        match self {
            Ok(v) => Ok(v),
            Err(e) => Err(
                CkError::FileAccessError {
                    path: path.clone(),
                    operation: operation.to_owned(),
                    reason: e.message(),
                },
            ),
        }
    }

    fn context_model(self, model: &str) -> (r: core::result::Result<T, CkError>)
        ensures
            self matches Ok(v) ==> r == Ok::<T, CkError>(v),
            self matches Err(e) ==> r matches Err(c) && c.is_download_failure(
                model@,
                e.message_text(),
            ),
    {
        match self {
            Ok(v) => Ok(v),
            Err(e) => Err(
                CkError::ModelDownloadFailed {
                    model: model.to_owned(),
                    reason: e.message(),
                    offline_fallback: Some(OFFLINE_HINT.to_owned()),
                },
            ),
        }
    }

    fn with_suggestion(self, suggestion: String) -> (r: core::result::Result<T, CkError>)
        ensures
            self matches Ok(v) ==> r == Ok::<T, CkError>(v),
            self matches Err(e) ==> r == Err::<T, CkError>(e.suggesting(suggestion)),
    {
        match self {
            Ok(v) => Ok(v),
            Err(CkError::IndexingFailed { path, reason, suggestion: _ }) => Err(
                CkError::IndexingFailed { path, reason, suggestion: Some(suggestion) },
            ),
            Err(other) => Err(other),
        }
    }
}

} // verus!
