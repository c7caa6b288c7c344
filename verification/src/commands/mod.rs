use vstd::prelude::*;

pub mod clean;
pub mod index;
pub mod inspect;
pub mod search;


pub mod status;

verus! {

/// The settings every command runs under.
#[derive(Debug)]
pub struct CommandContext {
    pub verbose: bool,
    pub quiet: bool,
    pub no_progress: bool,
    pub working_dir: String,
}

impl CommandContext {
    /// The context a command starts with: every flag off, working in `.`.
    pub open spec fn is_initial(self) -> bool {
        &&& !self.verbose
        &&& !self.quiet
        &&& !self.no_progress
        &&& self.working_dir@ == "."@
    }
}

impl Default for CommandContext {
    fn default() -> (context: Self)
        ensures
            context.is_initial(),
    {
        CommandContext {
            verbose: false,
            quiet: false,
            no_progress: false,
            working_dir: ".".to_owned(),
        }
    }
}

/// What a path names on disk, as the caller found it.
#[derive(Clone, Copy, Debug, PartialEq, Eq, Structural)]
pub enum PathKind {
    Missing,
    File,
    Directory,
    Other,
}

/// What every command offers before it runs: its name and a check of its own
/// settings.
pub trait Command {
    /// The name the command goes by.
    spec fn name_text(&self) -> Seq<char>;

    /// What is wrong with the command's settings, if anything.
    spec fn problem(&self) -> Option<Seq<char>>;

    fn name(&self) -> (name: &'static str)
        ensures
            name@ == self.name_text(),
    ;

    /// `Ok` when the settings are sound, else the text of the problem.
    fn validate(&self) -> (checked: Result<(), String>)
        ensures
            self.problem() is None <==> checked is Ok,
            checked matches Err(text) ==> self.problem() == Some(text@),
    ;
}

} // verus!
