use crate::commands::{Command, CommandContext};
use crate::text::{confirms, means_yes};
use vstd::prelude::*;

verus! {

/// Removes the index under a path: all of it, or only the entries whose source
/// file is gone.
pub struct CleanCommand {
    pub path: String,
    pub orphans_only: bool,
    pub context: CommandContext,
}

/// What a clean command does next.
#[derive(Clone, Copy, Debug, PartialEq, Eq, Structural)]
pub enum CleanStep {
    /// Remove the entries whose source file no longer exists.
    SweepOrphans,
    /// Ask the user to confirm the removal of the whole index.
    AskConfirmation,
    /// Remove the whole index.
    WipeIndex,
    /// Leave everything as it is.
    Cancelled,
}

/// What a sweep of orphaned entries has to report.
#[derive(Clone, Copy, Debug, PartialEq, Eq, Structural)]
pub enum SweepReport {
    Removed { count: usize },
    NothingFound,
}

impl CleanCommand {
    pub fn new(path: String) -> (command: Self)
        ensures
            command.path == path,
            !command.orphans_only,
            command.context.is_initial(),
    {
        CleanCommand { path, orphans_only: false, context: CommandContext::default() }
    }

    pub fn orphans_only(self) -> (command: Self)
        ensures
            command.orphans_only,
            command.path == self.path,
            command.context == self.context,
    {
        let mut command = self;
        command.orphans_only = true;
        command
    }

    /// The first step: a sweep starts at once, a full wipe starts by asking.
    /// Nothing lets a full wipe start without the question, a quiet run
    /// included.
    pub open spec fn opening(self) -> CleanStep {
        if self.orphans_only {
            CleanStep::SweepOrphans
        } else {
            CleanStep::AskConfirmation
        }
    }

    /// The step that follows the confirmation: the index is wiped on a yes
    /// and on nothing else. `None` stands for a question that got no answer.
    pub open spec fn answered(answer: Option<Seq<char>>) -> CleanStep {
        match answer {
            Some(text) if means_yes(text) => CleanStep::WipeIndex,
            _ => CleanStep::Cancelled,
        }
    }

    pub fn first_step(&self) -> (step: CleanStep)
        ensures
            step == self.opening(),
    {
        if self.orphans_only {
            CleanStep::SweepOrphans
        } else {
            CleanStep::AskConfirmation
        }
    }

    /// The step that follows the user's answer to the confirmation. Where no
    /// answer could be had, `answer` is `None` and the index stays.
    pub fn after_answer(&self, answer: Option<&str>) -> (step: CleanStep)
        ensures
            step == Self::answered(
                match answer {
                    Some(text) => Some(text@),
                    None => None,
                },
            ),
    {
        match answer {
            Some(text) => {
                if confirms(text) {
                    CleanStep::WipeIndex
                } else {
                    CleanStep::Cancelled
                }
            },
            None => CleanStep::Cancelled,
        }
    }

    /// What to report after a sweep that removed `removed` entries.
    pub fn sweep_report(removed: usize) -> (report: SweepReport)
        ensures
            report == if removed > 0 {
                SweepReport::Removed { count: removed }
            } else {
                SweepReport::NothingFound
            },
    {
        if removed > 0 {
            SweepReport::Removed { count: removed }
        } else {
            SweepReport::NothingFound
        }
    }
}

impl Command for CleanCommand {
    open spec fn name_text(&self) -> Seq<char> {
        if self.orphans_only {
            "clean-orphans"@
        } else {
            "clean"@
        }
    }

    open spec fn problem(&self) -> Option<Seq<char>> {
        None
    }

    fn name(&self) -> (name: &'static str) {
        if self.orphans_only {
            "clean-orphans"
        } else {
            "clean"
        }
    }

    fn validate(&self) -> (checked: Result<(), String>) {
        Ok(())
    }
}

/// Without a yes the index stays: no command starts with the wipe, and the
/// wipe follows the confirmation only where the answer is a yes.
pub proof fn lemma_wipe_needs_a_yes(command: CleanCommand, answer: Option<Seq<char>>)
    ensures
        command.opening() != CleanStep::WipeIndex,
        CleanCommand::answered(answer) == CleanStep::WipeIndex <==> (answer matches Some(text)
            && means_yes(text)),
        CleanCommand::answered(answer) == CleanStep::WipeIndex || CleanCommand::answered(answer)
            == CleanStep::Cancelled,
{
}

} // verus!
