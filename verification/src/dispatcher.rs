use crate::commands::clean::CleanCommand;
use crate::commands::index::IndexCommand;
use crate::commands::inspect::InspectCommand;
use crate::commands::search::{SearchCommand, SearchOptions};
use crate::commands::status::StatusCommand;
use crate::commands::CommandContext;
use crate::engine::modes::SearchMode;
use crate::text::copy_strings;
use vstd::prelude::*;

verus! {

/// The command line, parsed.
#[derive(Debug)]
pub struct Cli {
    pub pattern: Option<String>,
    pub files: Vec<String>,
    pub index: bool,
    pub reindex: bool,
    pub status: bool,
    pub status_verbose: bool,
    pub clean: bool,
    pub clean_orphans: bool,
    pub add: Option<String>,
    pub inspect: bool,
    pub download_model: Option<String>,
    pub offline: bool,
    pub retry_downloads: bool,
    pub line_numbers: bool,
    pub no_filenames: bool,
    pub with_filenames: bool,
    pub context: Option<usize>,
    pub after_context: Option<usize>,
    pub before_context: Option<usize>,
    pub recursive: bool,
    pub ignore_case: bool,
    pub fixed_strings: bool,
    pub word_regexp: bool,
    pub files_with_matches: bool,
    pub files_without_matches: bool,
    pub regex: bool,
    pub lex: bool,
    pub sem: bool,
    pub hybrid: bool,
    pub json: bool,
    pub jsonl: bool,
    pub topk: Option<usize>,
    pub limit: Option<usize>,
    /// The lowest score a result may have, in millionths.
    pub threshold: Option<i64>,
    pub scores: bool,
    pub full_section: bool,
    pub no_snippet: bool,
    pub exclude: Vec<String>,
    pub no_default_excludes: bool,
    pub no_ignore: bool,
    pub model: Option<String>,
    pub rerank: bool,
    pub rerank_model: Option<String>,
    pub verbose: bool,
    pub quiet: bool,
    pub no_progress: bool,
}

/// The command that a command line asks for.
#[derive(Clone, Copy, Debug, PartialEq, Eq, Structural)]
pub enum Route {
    DownloadModel,
    Index,
    Status,
    Clean,
    AddFile,
    Inspect,
    Search,
    /// The command line asks for nothing.
    NoCommand,
}

/// What is said of a command line that asks for nothing.
pub const NO_COMMAND: &'static str = "No command specified. Use --help for usage information.";

/// What is said of an inspection without a file.
pub const INSPECT_NEEDS_FILE: &'static str = "--inspect requires a file path";

impl Cli {
    /// The command that the command line asks for. Where it asks for several,
    /// the first of these wins: a model download, indexing, status, cleaning,
    /// adding a file, inspection, a search.
    pub open spec fn route(self) -> Route {
        if self.download_model is Some {
            Route::DownloadModel
        } else if self.index || self.reindex {
            Route::Index
        } else if self.status || self.status_verbose {
            Route::Status
        } else if self.clean || self.clean_orphans {
            Route::Clean
        } else if self.add is Some {
            Route::AddFile
        } else if self.inspect {
            Route::Inspect
        } else if self.pattern is Some {
            Route::Search
        } else {
            Route::NoCommand
        }
    }

    /// The mode of a search: semantic before lexical before hybrid, and
    /// regex where none of them is asked for.
    pub open spec fn mode(self) -> SearchMode {
        if self.sem {
            SearchMode::Semantic
        } else if self.lex {
            SearchMode::Lexical
        } else if self.hybrid {
            SearchMode::Hybrid
        } else {
            SearchMode::Regex
        }
    }

    /// The first path of the command line, or `.` where it names none.
    pub open spec fn first_path(self) -> Seq<char> {
        if self.files@.len() > 0 {
            self.files@[0]@
        } else {
            "."@
        }
    }

    /// The paths of a search: those of the command line, or `.` alone.
    pub open spec fn search_paths(self) -> Seq<Seq<char>> {
        if self.files@.len() > 0 {
            self.files.deep_view()
        } else {
            seq!["."@]
        }
    }
}

impl CommandContext {
    /// The context that the command line sets, in `working_dir`.
    pub open spec fn reflects(self, cli: Cli, working_dir: Seq<char>) -> bool {
        &&& self.verbose == cli.verbose
        &&& self.quiet == cli.quiet
        &&& self.no_progress == cli.no_progress
        &&& self.working_dir@ == working_dir
    }
}

impl SearchOptions {
    /// The options are those of the command line.
    pub open spec fn reflects(self, cli: Cli) -> bool {
        &&& self.line_numbers == cli.line_numbers
        &&& self.no_filename == cli.no_filenames
        &&& self.with_filename == cli.with_filenames
        &&& self.context == cli.context
        &&& self.before_context == cli.before_context
        &&& self.after_context == cli.after_context
        &&& self.recursive == cli.recursive
        &&& self.ignore_case == cli.ignore_case
        &&& self.fixed_strings == cli.fixed_strings
        &&& self.word_regexp == cli.word_regexp
        &&& self.files_with_matches == cli.files_with_matches
        &&& self.files_without_matches == cli.files_without_matches
        &&& self.json == cli.json
        &&& self.jsonl == cli.jsonl
        &&& self.topk == if cli.topk is Some {
            cli.topk
        } else {
            cli.limit
        }
        &&& self.threshold == cli.threshold
        &&& self.show_scores == cli.scores
        &&& self.full_section == cli.full_section
        &&& self.no_snippet == cli.no_snippet
        &&& self.exclude.deep_view() == cli.exclude.deep_view()
        &&& self.no_default_excludes == cli.no_default_excludes
        &&& self.no_ignore == cli.no_ignore
        &&& self.rerank == cli.rerank
        &&& self.rerank_model.deep_view() == cli.rerank_model.deep_view()
    }
}

/// Turns a command line into the command it asks for.
pub struct CommandDispatcher {
    pub cli: Cli,
}

fn copy_text(text: &Option<String>) -> (copy: Option<String>)
    ensures
        copy.deep_view() == text.deep_view(),
{
    match text {
        Some(t) => Some(t.clone()),
        None => None,
    }
}

impl CommandDispatcher {
    pub fn new(cli: Cli) -> (dispatcher: Self)
        ensures
            dispatcher.cli == cli,
    {
        CommandDispatcher { cli }
    }

    /// The command that the command line asks for.
    pub fn dispatch(&self) -> (route: Route)
        ensures
            route == self.cli.route(),
    {
        if self.cli.download_model.is_some() {
            Route::DownloadModel
        } else if self.cli.index || self.cli.reindex {
            Route::Index
        } else if self.cli.status || self.cli.status_verbose {
            Route::Status
        } else if self.cli.clean || self.cli.clean_orphans {
            Route::Clean
        } else if self.cli.add.is_some() {
            Route::AddFile
        } else if self.cli.inspect {
            Route::Inspect
        } else if self.cli.pattern.is_some() {
            Route::Search
        } else {
            Route::NoCommand
        }
    }

    /// The context that every command of this command line runs under.
    pub fn context(&self, working_dir: String) -> (context: CommandContext)
        ensures
            context.reflects(self.cli, working_dir@),
    {
        CommandContext {
            verbose: self.cli.verbose,
            quiet: self.cli.quiet,
            no_progress: self.cli.no_progress,
            working_dir,
        }
    }

    fn first_path(&self) -> (path: String)
        ensures
            path@ == self.cli.first_path(),
    {
        if self.cli.files.len() > 0 {
            self.cli.files[0].clone()
        } else {
            ".".to_owned()
        }
    }

    /// The indexing that the command line asks for. Offline, the model is
    /// taken from the cache alone.
    pub fn index_command(&self, context: CommandContext) -> (command: IndexCommand)
        ensures
            command.path@ == self.cli.first_path(),
            command.context == context,
            command.model.deep_view() == self.cli.model.deep_view(),
            command.exclude_patterns.deep_view() == self.cli.exclude.deep_view(),
            command.force_rebuild == self.cli.reindex,
            command.max_retries == if self.cli.offline {
                0
            } else {
                crate::commands::index::DEFAULT_RETRIES
            },
    {
        let mut command = IndexCommand::new(self.first_path());
        command.context = context;
        command.model = copy_text(&self.cli.model);
        command.exclude_patterns = copy_strings(&self.cli.exclude);
        command.force_rebuild = self.cli.reindex;
        if self.cli.offline {
            command.max_retries = 0;
        }
        command
    }

    /// The mode of the search that the command line asks for.
    pub fn search_mode(&self) -> (mode: SearchMode)
        ensures
            mode == self.cli.mode(),
    {
        if self.cli.sem {
            SearchMode::Semantic
        } else if self.cli.lex {
            SearchMode::Lexical
        } else if self.cli.hybrid {
            SearchMode::Hybrid
        } else {
            SearchMode::Regex
        }
    }

    /// The search for `pattern` that the command line asks for.
    pub fn search_command(&self, pattern: &str, context: CommandContext) -> (command: SearchCommand)
        ensures
            command.pattern@ == pattern@,
            command.paths.deep_view() == self.cli.search_paths(),
            command.mode == self.cli.mode(),
            command.options.reflects(self.cli),
            command.context == context,
    {
        let mut paths = copy_strings(&self.cli.files);
        if paths.len() == 0 {
            paths.push(".".to_owned());
            proof {
                assert(paths.deep_view() =~= seq!["."@]);
            }
        }
        let options = SearchOptions {
            line_numbers: self.cli.line_numbers,
            no_filename: self.cli.no_filenames,
            with_filename: self.cli.with_filenames,
            context: self.cli.context,
            before_context: self.cli.before_context,
            after_context: self.cli.after_context,
            recursive: self.cli.recursive,
            ignore_case: self.cli.ignore_case,
            fixed_strings: self.cli.fixed_strings,
            word_regexp: self.cli.word_regexp,
            files_with_matches: self.cli.files_with_matches,
            files_without_matches: self.cli.files_without_matches,
            json: self.cli.json,
            jsonl: self.cli.jsonl,
            topk: if self.cli.topk.is_some() {
                self.cli.topk
            } else {
                self.cli.limit
            },
            threshold: self.cli.threshold,
            show_scores: self.cli.scores,
            full_section: self.cli.full_section,
            no_snippet: self.cli.no_snippet,
            exclude: copy_strings(&self.cli.exclude),
            no_default_excludes: self.cli.no_default_excludes,
            no_ignore: self.cli.no_ignore,
            rerank: self.cli.rerank,
            rerank_model: copy_text(&self.cli.rerank_model),
        };
        let mut command = SearchCommand::new(pattern.to_owned(), paths);
        command.mode = self.search_mode();
        command.options = options;
        command.context = context;
        command
    }

    /// The status report that the command line asks for.
    pub fn status_command(&self, context: CommandContext) -> (command: StatusCommand)
        ensures
            command.path@ == self.cli.first_path(),
            command.verbose == self.cli.status_verbose,
            command.context == context,
    {
        let mut command = StatusCommand::new(self.first_path());
        command.verbose = self.cli.status_verbose;
        command.context = context;
        command
    }

    /// The cleaning that the command line asks for.
    pub fn clean_command(&self, context: CommandContext) -> (command: CleanCommand)
        ensures
            command.path@ == self.cli.first_path(),
            command.orphans_only == self.cli.clean_orphans,
            command.context == context,
    {
        let mut command = CleanCommand::new(self.first_path());
        if self.cli.clean_orphans {
            command = command.orphans_only();
        }
        command.context = context;
        command
    }

    /// The inspection that the command line asks for; it needs a file.
    pub fn inspect_command(&self, context: CommandContext) -> (built: Result<InspectCommand, String>)
        ensures
            self.cli.files@.len() == 0 ==> (built matches Err(text) && text@ == INSPECT_NEEDS_FILE@),
            self.cli.files@.len() > 0 ==> (built matches Ok(command) && command.file_path@
                == self.cli.files@[0]@ && command.model.deep_view() == self.cli.model.deep_view()
                && command.context == context),
    {
        if self.cli.files.len() == 0 {
            return Err(INSPECT_NEEDS_FILE.to_owned());
        }
        let mut command = InspectCommand::new(self.cli.files[0].clone());
        match &self.cli.model {
            Some(model) => {
                command = command.with_model(model.clone());
            },
            None => {},
        }
        command.context = context;
        Ok(command)
    }

    /// The indexing of the single file `file`.
    pub fn add_file_command(&self, file: &String, context: CommandContext) -> (command:
        IndexCommand)
        ensures
            command.path@ == file@,
            command.context == context,
            command.model.deep_view() == self.cli.model.deep_view(),
            command.exclude_patterns@.len() == 0,
            !command.force_rebuild,
            command.max_retries == crate::commands::index::DEFAULT_RETRIES,
    {
        let mut command = IndexCommand::new(file.clone());
        command.context = context;
        command.model = copy_text(&self.cli.model);
        command
    }
}

} // verus!
