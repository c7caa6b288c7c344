use crate::retry::{delay_secs, RetryPolicy, RetryStep};
use crate::text::{decimal, decimal_text, text_eq};
use vstd::prelude::*;

verus! {

/// How a model is fetched and where it is kept.
#[derive(Clone, Debug)]
pub struct ModelDownloadConfig {
    pub max_retries: u32,
    pub timeout_secs: u64,
    pub cache_dir: String,
    pub offline_mode: bool,
    pub verbose: bool,
}

/// How often a download is tried unless the configuration says otherwise.
pub const DEFAULT_MAX_RETRIES: u32 = 3;

/// How many seconds a download may take unless the configuration says
/// otherwise.
pub const DEFAULT_TIMEOUT_SECS: u64 = 300;

/// The system the program runs on.
#[derive(Clone, Copy, Debug, PartialEq, Eq, Structural)]
pub enum Platform {
    Linux,
    MacOs,
    Windows,
    Other,
}

/// The directories a model may be known by.
#[derive(Clone, Copy, Debug, PartialEq, Eq, Structural)]
pub enum EmbeddingModel {
    BgeSmallEnV15,
    NomicEmbedTextV15,
    JinaEmbeddingsV2BaseCode,
}

/// What the cache holds of a model.
#[derive(Clone, Copy, Debug, PartialEq, Eq, Structural)]
pub enum CacheVerdict {
    /// The model is in the cache.
    Cached,
    /// The model is not in the cache and may be downloaded.
    Missing,
    /// The model is not in the cache and nothing may be downloaded.
    Unavailable,
}

/// What the cache directory shows of one of its entries.
#[derive(Debug)]
pub struct CacheEntry {
    /// The entry's name, where it is text.
    pub name: Option<String>,
    pub is_dir: bool,
    pub has_model_file: bool,
    pub has_optimized_file: bool,
}

/// How one attempt to download a model ended.
#[derive(Debug)]
pub enum AttemptOutcome {
    Ready,
    InitFailed { reason: String },
    Panicked { reason: String },
    TimedOut,
}

/// The parts of the default cache directory, outermost first. On Linux the
/// cache home is used, else the home directory; on macOS the home directory;
/// on Windows the local application data; anywhere else, and where the
/// variable is not set, a directory below the working directory.
pub open spec fn cache_dir_parts(
    platform: Platform,
    xdg_cache_home: Option<Seq<char>>,
    home: Option<Seq<char>>,
    local_app_data: Option<Seq<char>>,
) -> Seq<Seq<char>> {
    match (platform, xdg_cache_home, home, local_app_data) {
        (Platform::Linux, Some(x), _, _) => seq![x, "ck"@, "models"@],
        (Platform::Linux, None, Some(h), _) => seq![h, ".cache"@, "ck"@, "models"@],
        (Platform::MacOs, _, Some(h), _) => seq![h, ".cache"@, "ck"@, "models"@],
        (Platform::Windows, _, _, Some(l)) => seq![l, "ck"@, "cache"@, "models"@],
        _ => seq![".ck_models"@, "models"@],
    }
}

/// What an optional text holds.
pub open spec fn text_view(value: Option<&str>) -> Option<Seq<char>> {
    match value {
        Some(v) => Some(v@),
        None => None,
    }
}

fn below(base: &str, first: &str, second: &str, third: &str) -> (parts: Vec<String>)
    ensures
        parts.deep_view() == seq![base@, first@, second@, third@],
{
    let mut parts: Vec<String> = Vec::new();
    parts.push(base.to_owned());
    parts.push(first.to_owned());
    parts.push(second.to_owned());
    parts.push(third.to_owned());
    proof {
        assert(parts.deep_view() =~= seq![base@, first@, second@, third@]);
    }
    parts
}

impl ModelDownloadConfig {
    /// The configuration in use unless the caller changes it: three tries,
    /// five minutes each, downloads allowed, no chatter.
    pub fn with_cache_dir(cache_dir: String) -> (config: Self)
        ensures
            config.max_retries == DEFAULT_MAX_RETRIES,
            config.timeout_secs == DEFAULT_TIMEOUT_SECS,
            config.cache_dir == cache_dir,
            !config.offline_mode,
            !config.verbose,
    {
        ModelDownloadConfig {
            max_retries: DEFAULT_MAX_RETRIES,
            timeout_secs: DEFAULT_TIMEOUT_SECS,
            cache_dir,
            offline_mode: false,
            verbose: false,
        }
    }

    /// The parts of the default cache directory, given the system and what
    /// its environment holds.
    pub fn default_cache_dir(
        platform: Platform,
        xdg_cache_home: Option<&str>,
        home: Option<&str>,
        local_app_data: Option<&str>,
    ) -> (parts: Vec<String>)
        ensures
            parts.deep_view() == cache_dir_parts(
                platform,
                text_view(xdg_cache_home),
                text_view(home),
                text_view(local_app_data),
            ),
    {
        match (platform, xdg_cache_home, home, local_app_data) {
            (Platform::Linux, Some(x), _, _) => {
                let mut parts: Vec<String> = Vec::new();
                parts.push(x.to_owned());
                parts.push("ck".to_owned());
                parts.push("models".to_owned());
                proof {
                    assert(parts.deep_view() =~= seq![x@, "ck"@, "models"@]);
                }
                parts
            },
            (Platform::Linux, None, Some(h), _) => below(h, ".cache", "ck", "models"),
            (Platform::MacOs, _, Some(h), _) => below(h, ".cache", "ck", "models"),
            (Platform::Windows, _, _, Some(l)) => below(l, "ck", "cache", "models"),
            _ => {
                let mut parts: Vec<String> = Vec::new();
                parts.push(".ck_models".to_owned());
                parts.push("models".to_owned());
                proof {
                    assert(parts.deep_view() =~= seq![".ck_models"@, "models"@]);
                }
                parts
            },
        }
    }
}

/// The text that tells of a model that is wanted offline and not cached.
pub open spec fn offline_miss_text(model: Seq<char>, cache_dir: Seq<char>) -> Seq<char> {
    "Model '"@ + model + "' not found in cache at "@ + cache_dir
        + ". Cannot download in offline mode. Please download the model first using: ck --download-model "@
        + model
}

/// The notice of the wait before a retry.
pub open spec fn waiting_text(delay: nat, attempt: nat, max: nat) -> Seq<char> {
    "⏳ Waiting "@ + decimal_text(delay) + "s before retry "@ + decimal_text(attempt) + "/"@
        + decimal_text(max) + "..."@
}

/// The notice of an attempt that begins.
pub open spec fn downloading_text(model: Seq<char>, attempt: nat, max: nat) -> Seq<char> {
    "📥 Downloading model '"@ + model + "' (attempt "@ + decimal_text(attempt) + "/"@
        + decimal_text(max) + ")..."@
}

/// What is said of an attempt that did not end well; nothing of one that did.
pub open spec fn outcome_text(outcome: AttemptOutcome, timeout_secs: u64) -> Option<Seq<char>> {
    match outcome {
        AttemptOutcome::Ready => None,
        AttemptOutcome::InitFailed { reason } => Some("Failed to initialize model: "@ + reason@),
        AttemptOutcome::Panicked { reason } => Some("Task panicked: "@ + reason@),
        AttemptOutcome::TimedOut => Some(
            "Download timeout after "@ + decimal_text(timeout_secs as nat) + "s"@,
        ),
    }
}

/// The model that a name stands for.
pub open spec fn model_named(name: Seq<char>) -> Option<EmbeddingModel> {
    if name == "BAAI/bge-small-en-v1.5"@ {
        Some(EmbeddingModel::BgeSmallEnV15)
    } else if name == "nomic-embed-text-v1.5"@ {
        Some(EmbeddingModel::NomicEmbedTextV15)
    } else if name == "jina-embeddings-v2-base-code"@ {
        Some(EmbeddingModel::JinaEmbeddingsV2BaseCode)
    } else {
        None
    }
}

/// Whether an entry of the cache directory is a usable model: a directory
/// with one of the two model files and a name that is text.
pub open spec fn is_cached_model(entry: CacheEntry) -> bool {
    entry.is_dir && (entry.has_model_file || entry.has_optimized_file) && entry.name is Some
}

/// The names of the entries that are usable models, in their order.
pub open spec fn cached_names(entries: Seq<CacheEntry>) -> Seq<Seq<char>>
    decreases entries.len(),
{
    if entries.len() == 0 {
        Seq::<Seq<char>>::empty()
    } else if is_cached_model(entries.last()) {
        cached_names(entries.drop_last()).push(entries.last().name->0@)
    } else {
        cached_names(entries.drop_last())
    }
}

/// Fetches embedding models and answers for the cache.
pub struct ModelDownloader {
    pub config: ModelDownloadConfig,
}

/// What a download does next.
#[derive(Debug)]
pub enum DownloadMove {
    /// The cache holds the model, at the path of these parts. Nothing is
    /// fetched.
    UseCache { parts: Vec<String> },
    /// The download fails with this text.
    Fail { message: String },
    /// Wait `delay_secs`, then make attempt `number`, counted from 1.
    Attempt { number: u32, delay_secs: u64 },
    /// Stop: `attempts` attempts were made and all failed.
    GiveUp { attempts: u32 },
}

impl DownloadMove {
    /// This is the move of `downloader` for `model`, given what the cache
    /// holds and that `made` attempts have failed.
    pub open spec fn follows(
        self,
        downloader: ModelDownloader,
        model: Seq<char>,
        cache: CacheVerdict,
        made: nat,
    ) -> bool {
        match cache {
            CacheVerdict::Cached => self matches DownloadMove::UseCache { parts }
                && parts.deep_view() == seq![downloader.config.cache_dir@, model],
            CacheVerdict::Unavailable => self matches DownloadMove::Fail { message } && message@
                == offline_miss_text(model, downloader.config.cache_dir@),
            CacheVerdict::Missing => if made < downloader.config.max_retries {
                self == (DownloadMove::Attempt {
                    number: (made + 1) as u32,
                    delay_secs: delay_secs(1, made + 1) as u64,
                })
            } else {
                self == (DownloadMove::GiveUp { attempts: downloader.config.max_retries })
            },
        }
    }
}

impl ModelDownloader {
    pub fn new(config: ModelDownloadConfig) -> (downloader: Self)
        ensures
            downloader.config == config,
    {
        ModelDownloader { config }
    }

    /// A downloader with the configuration in use by default, keeping its
    /// models in `cache_dir`.
    pub fn with_defaults(cache_dir: String) -> (downloader: Self)
        ensures
            downloader.config.max_retries == DEFAULT_MAX_RETRIES,
            downloader.config.timeout_secs == DEFAULT_TIMEOUT_SECS,
            downloader.config.cache_dir == cache_dir,
            !downloader.config.offline_mode,
            !downloader.config.verbose,
    {
        Self::new(ModelDownloadConfig::with_cache_dir(cache_dir))
    }

    /// What the cache holds of a model, from what its directory shows: the
    /// model is cached where the directory exists and holds one of the two
    /// model files.
    pub fn check_model_cached(
        &self,
        dir_exists: bool,
        has_model_file: bool,
        has_optimized_file: bool,
    ) -> (verdict: CacheVerdict)
        ensures
            verdict == if dir_exists && (has_model_file || has_optimized_file) {
                CacheVerdict::Cached
            } else if self.config.offline_mode {
                CacheVerdict::Unavailable
            } else {
                CacheVerdict::Missing
            },
    {
        if dir_exists && (has_model_file || has_optimized_file) {
            CacheVerdict::Cached
        } else if self.config.offline_mode {
            CacheVerdict::Unavailable
        } else {
            CacheVerdict::Missing
        }
    }

    /// The error text for a model that is wanted offline and is not cached.
    pub fn offline_miss_message(&self, model: &str) -> (text: String)
        ensures
            text@ == offline_miss_text(model@, self.config.cache_dir@),
    {
        let mut text = "Model '".to_owned();
        text.append(model);
        text.append("' not found in cache at ");
        text.append(self.config.cache_dir.as_str());
        text.append(
            ". Cannot download in offline mode. Please download the model first using: ck --download-model ",
        );
        text.append(model);
        text
    }

    /// The policy a download is retried under: `max_retries` attempts, the
    /// wait doubling from one second.
    pub fn retry_policy(&self) -> (policy: RetryPolicy)
        ensures
            policy == (RetryPolicy { max_attempts: self.config.max_retries, base_delay_secs: 1 }),
    {
        RetryPolicy { max_attempts: self.config.max_retries, base_delay_secs: 1 }
    }

    /// What a download of `model` does next, given what the cache holds and
    /// how many attempts have failed. A cached model ends the download at
    /// once: no attempt is made and nothing is waited for. A model that is
    /// wanted offline and is not cached fails the download. Otherwise the
    /// retry policy decides.
    pub fn download_with_retry(&self, model: &str, cache: CacheVerdict, made: u32) -> (step:
        DownloadMove)
        ensures
            step.follows(*self, model@, cache, made as nat),
    {
        match cache {
            CacheVerdict::Cached => {
                let mut parts: Vec<String> = Vec::new();
                parts.push(self.config.cache_dir.clone());
                parts.push(model.to_owned());
                proof {
                    assert(parts.deep_view() =~= seq![self.config.cache_dir@, model@]);
                }
                DownloadMove::UseCache { parts }
            },
            CacheVerdict::Unavailable => DownloadMove::Fail {
                message: self.offline_miss_message(model),
            },
            CacheVerdict::Missing => match self.retry_policy().after_failures(made) {
                RetryStep::Attempt { number, delay_secs } => DownloadMove::Attempt {
                    number,
                    delay_secs,
                },
                RetryStep::Exhausted { attempts } => DownloadMove::GiveUp { attempts },
            },
        }
    }

    /// The notice of the wait before attempt `attempt`.
    pub fn waiting_message(&self, delay: u64, attempt: u32) -> (text: String)
        ensures
            text@ == waiting_text(delay as nat, attempt as nat, self.config.max_retries as nat),
    {
        let mut text = "⏳ Waiting ".to_owned();
        text.append(decimal(delay as u128).as_str());
        text.append("s before retry ");
        text.append(decimal(attempt as u128).as_str());
        text.append("/");
        text.append(decimal(self.config.max_retries as u128).as_str());
        text.append("...");
        text
    }

    /// The notice of attempt `attempt` as it begins.
    pub fn downloading_message(&self, model: &str, attempt: u32) -> (text: String)
        ensures
            text@ == downloading_text(model@, attempt as nat, self.config.max_retries as nat),
    {
        let mut text = "📥 Downloading model '".to_owned();
        text.append(model);
        text.append("' (attempt ");
        text.append(decimal(attempt as u128).as_str());
        text.append("/");
        text.append(decimal(self.config.max_retries as u128).as_str());
        text.append(")...");
        text
    }

    /// The notice of a download that succeeded.
    pub fn downloaded_message(model: &str) -> (text: String)
        ensures
            text@ == "✅ Model '"@ + model@ + "' downloaded successfully"@,
    {
        let mut text = "✅ Model '".to_owned();
        text.append(model);
        text.append("' downloaded successfully");
        text
    }

    /// The notice of attempt `attempt` as it fails.
    pub fn attempt_failed_message(attempt: u32) -> (text: String)
        ensures
            text@ == "⚠️  Download attempt "@ + decimal_text(attempt as nat) + " failed"@,
    {
        let mut text = "⚠️  Download attempt ".to_owned();
        text.append(decimal(attempt as u128).as_str());
        text.append(" failed");
        text
    }

    /// The error of a download that was given up: that of the last attempt,
    /// or, where none was made, that none succeeded.
    pub fn exhausted_message(&self, last_error: Option<String>) -> (text: String)
        ensures
            text@ == match last_error {
                Some(e) => e@,
                None => "Failed to download model after "@ + decimal_text(
                    self.config.max_retries as nat,
                ) + " attempts"@,
            },
    {
        match last_error {
            Some(e) => e,
            None => {
                let mut text = "Failed to download model after ".to_owned();
                text.append(decimal(self.config.max_retries as u128).as_str());
                text.append(" attempts");
                text
            },
        }
    }

    /// What one attempt came to: where the model lies, or what went wrong.
    pub fn try_download(&self, model: &str, outcome: AttemptOutcome) -> (ended: Result<
        Vec<String>,
        String,
    >)
        ensures
            match outcome_text(outcome, self.config.timeout_secs) {
                None => ended matches Ok(parts) && parts.deep_view() == seq![
                    self.config.cache_dir@,
                    model@,
                ],
                Some(text) => ended matches Err(e) && e@ == text,
            },
    {
        match outcome {
            AttemptOutcome::Ready => {
                let mut parts: Vec<String> = Vec::new();
                parts.push(self.config.cache_dir.clone());
                parts.push(model.to_owned());
                proof {
                    assert(parts.deep_view() =~= seq![self.config.cache_dir@, model@]);
                }
                Ok(parts)
            },
            AttemptOutcome::InitFailed { reason } => {
                let mut text = "Failed to initialize model: ".to_owned();
                text.append(reason.as_str());
                Err(text)
            },
            AttemptOutcome::Panicked { reason } => {
                let mut text = "Task panicked: ".to_owned();
                text.append(reason.as_str());
                Err(text)
            },
            AttemptOutcome::TimedOut => {
                let mut text = "Download timeout after ".to_owned();
                text.append(decimal(self.config.timeout_secs as u128).as_str());
                text.append("s");
                Err(text)
            },
        }
    }

    /// The model that `name` stands for.
    pub fn parse_model_name(name: &str) -> (parsed: Result<EmbeddingModel, String>)
        ensures
            match model_named(name@) {
                Some(m) => parsed == Ok::<EmbeddingModel, String>(m),
                None => parsed matches Err(text) && text@ == "Unknown model: "@ + name@,
            },
    {
        if text_eq(name, "BAAI/bge-small-en-v1.5") {
            Ok(EmbeddingModel::BgeSmallEnV15)
        } else if text_eq(name, "nomic-embed-text-v1.5") {
            Ok(EmbeddingModel::NomicEmbedTextV15)
        } else if text_eq(name, "jina-embeddings-v2-base-code") {
            Ok(EmbeddingModel::JinaEmbeddingsV2BaseCode)
        } else {
            let mut text = "Unknown model: ".to_owned();
            text.append(name);
            Err(text)
        }
    }

    /// The names of the models that the cache holds, from the entries of its
    /// directory.
    pub fn list_cached_models(entries: &Vec<CacheEntry>) -> (names: Vec<String>)
        ensures
            names.deep_view() == cached_names(entries@),
    {
        let mut names: Vec<String> = Vec::new();
        let mut i: usize = 0;
        proof {
            assert(entries@.take(0) =~= Seq::<CacheEntry>::empty());
            assert(names.deep_view() =~= Seq::<Seq<char>>::empty());
        }
        while i < entries.len()
            invariant
                i <= entries@.len(),
                names.deep_view() == cached_names(entries@.take(i as int)),
            decreases entries@.len() - i,
        {
            let e = &entries[i];
            let ghost before = names.deep_view();
            proof {
                let next = entries@.take(i + 1);
                assert(next.drop_last() =~= entries@.take(i as int));
                assert(next.last() == entries@[i as int]);
            }
            if e.is_dir && (e.has_model_file || e.has_optimized_file) {
                match &e.name {
                    Some(name) => {
                        names.push(name.clone());
                        proof {
                            assert(names.deep_view() =~= before.push(name@));
                        }
                    },
                    None => {},
                }
            }
            i = i + 1;
        }
        proof {
            assert(entries@.take(i as int) =~= entries@);
        }
        names
    }

    /// What is wrong with working offline, given the models that the cache
    /// holds: only an empty cache is.
    pub fn validate_offline_setup(&self, cached: &Vec<String>) -> (checked: Result<(), String>)
        ensures
            cached@.len() > 0 <==> checked is Ok,
            checked matches Err(text) ==> text@ == "No models found in cache at "@
                + self.config.cache_dir@
                + ". Please download at least one model first:\n  ck --download-model BAAI/bge-small-en-v1.5\n  ck --download-model nomic-embed-text-v1.5"@,
    {
        if cached.len() > 0 {
            Ok(())
        } else {
            let mut text = "No models found in cache at ".to_owned();
            text.append(self.config.cache_dir.as_str());
            text.append(
                ". Please download at least one model first:\n  ck --download-model BAAI/bge-small-en-v1.5\n  ck --download-model nomic-embed-text-v1.5",
            );
            Err(text)
        }
    }
}

} // verus!
