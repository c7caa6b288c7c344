use crate::commands::{Command, CommandContext, PathKind};
use crate::models::{get_valid_models, is_valid_model, valid_model_names, DEFAULT_MODEL};
use crate::retry::{delay_secs, RetryPolicy, RetryStep};
use crate::text::{
    copy_strings, decimal, decimal_text, join, joined, last_component, short_name,
};
use vstd::prelude::*;

verus! {

/// Builds or refreshes the index under a path.
pub struct IndexCommand {
    pub path: String,
    pub model: Option<String>,
    pub exclude_patterns: Vec<String>,
    pub force_rebuild: bool,
    pub context: CommandContext,
    /// How often the model download is tried; 0 means the cache only.
    pub max_retries: u32,
}

/// How often a model download is tried unless the caller says otherwise.
pub const DEFAULT_RETRIES: u32 = 3;

/// What the command does next to have its model at hand.
#[derive(Debug)]
pub enum DownloadStep {
    /// Use the model from the cache, and fail if it is not there.
    CacheOnly,
    /// Wait `delay_secs`, say `notice` if there is one, then try to download.
    Attempt { number: u32, delay_secs: u64, notice: Option<String> },
    /// Every attempt failed.
    GiveUp,
}

/// What an update of the index is asked to do.
#[derive(Debug)]
pub struct UpdateRequest {
    pub root: String,
    pub force_rebuild: bool,
    pub excludes: Vec<String>,
    pub model: String,
    /// Whether the files that ignore rules name are left out.
    pub respect_ignore: bool,
}

/// Where the embedding of one file stands.
#[derive(Debug)]
pub struct EmbeddingProgress {
    pub file_name: String,
    /// The index of the chunk at work, counted from 0.
    pub chunk_index: usize,
    pub total_chunks: usize,
}

/// What the chunk-level progress display is set to.
#[derive(Debug)]
pub struct ProgressUpdate {
    /// The new length of the display, when it differs from the current one:
    /// the display then starts over.
    pub restart_with_length: Option<u64>,
    pub position: u64,
    pub message: String,
}

/// The notice that announces retry `number` of `max`.
pub open spec fn retry_notice_text(number: nat, max: nat) -> Seq<char> {
    "🔄 Retry attempt "@ + decimal_text(number) + "/"@ + decimal_text(max)
        + " for model download"@
}

/// The text that tells of a model missing from the cache.
pub open spec fn cache_miss_text(model: Seq<char>) -> Seq<char> {
    "❌ Model '"@ + model + "' not found in cache.\n💡 Download the model first: ck --download-model "@
        + model
}

/// The text that tells of a download that failed `attempts` times.
pub open spec fn download_failure_text(
    model: Seq<char>,
    attempts: nat,
    last_error: Option<Seq<char>>,
) -> Seq<char> {
    "❌ Failed to download model '"@ + model + "' after "@ + decimal_text(attempts)
        + " attempts: "@ + (match last_error {
        Some(e) => e,
        None => "Unknown error"@,
    })
        + "\n💡 Pre-download the model manually or use --offline mode with cached models"@
}

/// The message shown while chunk `chunk_index` of `total` is embedded.
pub open spec fn chunk_message_text(file_name: Seq<char>, chunk_index: nat, total: nat) -> Seq<
    char,
> {
    file_name + " (chunk "@ + decimal_text(chunk_index + 1) + "/"@ + decimal_text(total) + ")"@
}

impl IndexCommand {
    pub fn new(path: String) -> (command: Self)
        ensures
            command.path == path,
            command.model is None,
            command.exclude_patterns@.len() == 0,
            !command.force_rebuild,
            command.context.is_initial(),
            command.max_retries == DEFAULT_RETRIES,
    {
        IndexCommand {
            path,
            model: None,
            exclude_patterns: Vec::new(),
            force_rebuild: false,
            context: CommandContext::default(),
            max_retries: DEFAULT_RETRIES,
        }
    }

    /// The model the index is built with.
    pub fn model_name(&self) -> (name: String)
        ensures
            name@ == match self.model {
                Some(m) => m@,
                None => DEFAULT_MODEL@,
            },
    {
        match &self.model {
            Some(m) => m.clone(),
            None => DEFAULT_MODEL.to_owned(),
        }
    }

    /// What stops the indexing of a target of this kind, if anything.
    pub open spec fn target_problem(self, kind: PathKind) -> Option<Seq<char>> {
        match kind {
            PathKind::File | PathKind::Directory => None,
            PathKind::Missing => Some("❌ Path does not exist: "@ + self.path@),
            PathKind::Other => Some("❌ Path is neither a file nor directory: "@ + self.path@),
        }
    }

    /// Only a file or a directory can be indexed.
    pub fn check_target(&self, kind: PathKind) -> (checked: Result<(), String>)
        ensures
            self.target_problem(kind) is None <==> checked is Ok,
            checked matches Err(text) ==> self.target_problem(kind) == Some(text@),
    {
        match kind {
            PathKind::File | PathKind::Directory => Ok(()),
            PathKind::Missing => {
                let mut text = "❌ Path does not exist: ".to_owned();
                text.append(self.path.as_str());
                Err(text)
            },
            PathKind::Other => {
                let mut text = "❌ Path is neither a file nor directory: ".to_owned();
                text.append(self.path.as_str());
                Err(text)
            },
        }
    }

    /// The policy the model download is retried under: `max_retries`
    /// attempts, the wait doubling from one second.
    pub fn retry_policy(&self) -> (policy: RetryPolicy)
        ensures
            policy == (RetryPolicy { max_attempts: self.max_retries, base_delay_secs: 1 }),
    {
        RetryPolicy { max_attempts: self.max_retries, base_delay_secs: 1 }
    }

    /// The step that follows `made` failed download attempts. With no retries
    /// allowed the cache decides alone. A retry is announced unless the command
    /// runs quietly.
    pub fn download_step(&self, made: u32) -> (step: DownloadStep)
        ensures
            self.max_retries == 0 ==> step is CacheOnly,
            self.max_retries > 0 && made >= self.max_retries ==> step is GiveUp,
            self.max_retries > 0 && made < self.max_retries ==> {
                &&& step matches DownloadStep::Attempt { number, delay_secs: d, notice }
                &&& number == made + 1
                &&& d == delay_secs(1, made as nat + 1)
                &&& notice is Some <==> made >= 1 && !self.context.quiet
                &&& notice matches Some(text) ==> text@ == retry_notice_text(
                    made as nat + 1,
                    self.max_retries as nat,
                )
            },
    {
        if self.max_retries == 0 {
            return DownloadStep::CacheOnly;
        }
        match self.retry_policy().after_failures(made) {
            RetryStep::Exhausted { attempts: _ } => DownloadStep::GiveUp,
            RetryStep::Attempt { number, delay_secs } => {
                let notice = if number > 1 && !self.context.quiet {
                    let mut text = "🔄 Retry attempt ".to_owned();
                    text.append(decimal(number as u128).as_str());
                    text.append("/");
                    text.append(decimal(self.max_retries as u128).as_str());
                    text.append(" for model download");
                    Some(text)
                } else {
                    None
                };
                DownloadStep::Attempt { number, delay_secs, notice }
            },
        }
    }

    /// The error text for a model that the cache does not hold.
    pub fn cache_miss_message(model: &str) -> (text: String)
        ensures
            text@ == cache_miss_text(model@),
    {
        let mut text = "❌ Model '".to_owned();
        text.append(model);
        text.append("' not found in cache.\n💡 Download the model first: ck --download-model ");
        text.append(model);
        text
    }

    /// The error text once every download attempt has failed.
    pub fn download_failure_message(&self, model: &str, last_error: Option<&str>) -> (text: String)
        ensures
            text@ == download_failure_text(
                model@,
                self.max_retries as nat,
                match last_error {
                    Some(e) => Some(e@),
                    None => None,
                },
            ),
    {
        let mut text = "❌ Failed to download model '".to_owned();
        text.append(model);
        text.append("' after ");
        text.append(decimal(self.max_retries as u128).as_str());
        text.append(" attempts: ");
        match last_error {
            Some(e) => text.append(e),
            None => text.append("Unknown error"),
        }
        text.append("\n💡 Pre-download the model manually or use --offline mode with cached models");
        text
    }

    /// The message shown while a file is processed: its name without the
    /// directories.
    pub fn file_message(file_name: &str) -> (text: String)
        ensures
            text@ == "Processing "@ + last_component(file_name@),
    {
        let mut text = "Processing ".to_owned();
        text.append(short_name(file_name).as_str());
        text
    }

    /// What the chunk-level display is set to when `progress` comes in while
    /// the display has length `current_length`.
    pub fn chunk_update(current_length: Option<u64>, progress: &EmbeddingProgress) -> (update:
        ProgressUpdate)
        ensures
            update.position == progress.chunk_index,
            update.message@ == chunk_message_text(
                progress.file_name@,
                progress.chunk_index as nat,
                progress.total_chunks as nat,
            ),
            update.restart_with_length == if (match current_length {
                Some(n) => n,
                None => 0,
            }) != progress.total_chunks {
                Some(progress.total_chunks as u64)
            } else {
                None
            },
    {
        let total = progress.total_chunks as u64;
        let current: u64 = match current_length {
            Some(n) => n,
            None => 0,
        };
        let mut message = progress.file_name.clone();
        message.append(" (chunk ");
        message.append(decimal(progress.chunk_index as u128 + 1).as_str());
        message.append("/");
        message.append(decimal(progress.total_chunks as u128).as_str());
        message.append(")");
        ProgressUpdate {
            restart_with_length: if current != total {
                Some(total)
            } else {
                None
            },
            position: progress.chunk_index as u64,
            message,
        }
    }

    /// The update that the command asks for: of its path, with its excludes
    /// and its model, the default model where it names none, and with the
    /// ignore rules respected.
    pub fn update_request(&self) -> (request: UpdateRequest)
        ensures
            request.root@ == self.path@,
            request.force_rebuild == self.force_rebuild,
            request.excludes.deep_view() == self.exclude_patterns.deep_view(),
            request.model@ == match self.model {
                Some(m) => m@,
                None => DEFAULT_MODEL@,
            },
            request.respect_ignore,
    {
        UpdateRequest {
            root: self.path.clone(),
            force_rebuild: self.force_rebuild,
            excludes: copy_strings(&self.exclude_patterns),
            model: self.model_name(),
            respect_ignore: true,
        }
    }

    /// The error text of an update that failed with `error`.
    pub fn update_failure_message(error: &str) -> (text: String)
        ensures
            text@ == "Indexing failed: "@ + error@,
    {
        let mut text = "Indexing failed: ".to_owned();
        text.append(error);
        text
    }

    /// The closing line of a run that indexed `files_indexed` files.
    pub fn done_message(files_indexed: usize) -> (text: String)
        ensures
            text@ == "✅ Indexed "@ + decimal_text(files_indexed as nat) + " files"@,
    {
        let mut text = "✅ Indexed ".to_owned();
        text.append(decimal(files_indexed as u128).as_str());
        text.append(" files");
        text
    }
}

impl Command for IndexCommand {
    open spec fn name_text(&self) -> Seq<char> {
        "index"@
    }

    /// A model that is named must be a known one.
    open spec fn problem(&self) -> Option<Seq<char>> {
        match self.model {
            Some(m) if !valid_model_names().contains(m@) => Some(
                "❌ Model '"@ + m@ + "' not found\n📋 Available models: "@ + joined(
                    valid_model_names(),
                    ", "@,
                ),
            ),
            _ => None,
        }
    }

    fn name(&self) -> (name: &'static str) {
        "index"
    }

    fn validate(&self) -> (checked: Result<(), String>) {
        match &self.model {
            Some(m) => {
                if !is_valid_model(m.as_str()) {
                    let mut text = "❌ Model '".to_owned();
                    text.append(m.as_str());
                    text.append("' not found\n📋 Available models: ");
                    text.append(join(&get_valid_models(), ", ").as_str());
                    Err(text)
                } else {
                    Ok(())
                }
            },
            None => Ok(()),
        }
    }
}

} // verus!
