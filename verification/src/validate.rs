//! Validation of projects against the organisation's guidelines.

pub mod context;
pub mod project;

pub use context::{Context, OpenSourceWebsiteData, OpenSourceWebsiteDataProject};
pub use project::Project;

use crate::error::Report;
use crate::slack::{Block, BlockView};
use crate::text::{join, joined};
use project::{error_chains, errors_text, validated, ProjectView};
use vstd::prelude::*;

verus! {

/// What a run over all projects comes to.
#[derive(Debug)]
pub struct Summary {
    /// The message for the chat, where there is something to tell and
    /// someone to tell it to.
    pub notification: Option<Vec<Block>>,
    /// Whether every project conforms.
    pub result: Result<(), Report>,
}

/// The line that says how a project did: a cross, the name and the errors,
/// or a check mark, the name and the maintainers.
pub open spec fn status_text(project: ProjectView) -> Seq<char> {
    match errors_text(project, true) {
        Some(errors) => "❌ "@ + project.name + "\n"@ + errors + "\n"@,
        None => "✔️ "@ + project.name + " ("@ + joined(project.maintainers->Ok_0, ", "@) + ")\n"@,
    }
}

/// The text of the block that tells of a project's errors; none for a
/// project without errors.
pub open spec fn project_block(project: ProjectView) -> Option<Seq<char>> {
    match errors_text(project, false) {
        Some(errors) => Some(
            ":red_circle: *<https://github.com/EmbarkStudios/"@ + project.name + "|"@
                + project.name + ">*\n```"@ + errors + "```"@,
        ),
        None => None,
    }
}

/// The blocks of the first `n` of `projects`, in order.
pub open spec fn project_blocks(projects: Seq<Project>, n: int) -> Seq<BlockView>
    decreases n,
{
    if n <= 0 || n > projects.len() {
        Seq::empty()
    } else {
        match project_block(projects[n - 1]@) {
            Some(text) => project_blocks(projects, n - 1).push(BlockView::Text(text)),
            None => project_blocks(projects, n - 1),
        }
    }
}

/// The text that opens the message.
pub open spec fn notification_head() -> Seq<char> {
    "The following Embark open source projects have been found to have maintainership issues."@
}

/// The text that closes the message.
pub open spec fn notification_foot() -> Seq<char> {
    "This message was generated by the <https://github.com/EmbarkStudios/opensource/tree/main/tools/embark-oss|embark-oss tool> on GitHub Actions."@
}

/// The message: the opening text, the blocks of the projects between two
/// dividers, and the closing text.
pub open spec fn notification_blocks(projects: Seq<Project>) -> Seq<BlockView> {
    seq![BlockView::Text(notification_head()), BlockView::Divider] + project_blocks(
        projects,
        projects.len() as int,
    ) + seq![BlockView::Divider, BlockView::Text(notification_foot())]
}

/// Whether every one of `projects` passed every check.
pub open spec fn all_conform(projects: Seq<Project>) -> bool {
    forall|i: int| 0 <= i < projects.len() ==> error_chains((#[trigger] projects[i])@).len() == 0
}

/// The views of blocks.
pub open spec fn blocks_view(blocks: Vec<Block>) -> Seq<BlockView> {
    Seq::new(blocks.len() as nat, |i: int| blocks[i]@)
}

/// Says how a project did, in the words that are shown to the user.
pub fn print_status(project: &Project) -> (line: String)
    ensures
        line@ == status_text(project@),
{
    match project.errors_to_string(true) {
        Some(errors) => {
            let mut line = String::from_str("❌ ");
            line.append(project.name.as_str());
            line.append("\n");
            line.append(errors.as_str());
            line.append("\n");
            line
        },
        None => {
            match &project.maintainers {
                Ok(maintainers) => {
                    let mut line = String::from_str("✔️ ");
                    line.append(project.name.as_str());
                    line.append(" (");
                    line.append(join(maintainers, ", ").as_str());
                    line.append(")\n");
                    line
                },
                Err(_) => {
                    // A project without errors has its maintainers.
                    assert(false);
                    String::new()
                },
            }
        },
    }
}

/// The block that tells the chat of a project's errors.
pub fn slack_project_block(project: &Project) -> (block: Option<Block>)
    ensures
        match block {
            Some(block) => project_block(project@) == Some(block@->Text_0) && block is Text,
            None => project_block(project@) is None,
        },
{
    let errors = match project.errors_to_string(false) {
        Some(errors) => errors,
        None => {
            return None;
        },
    };
    let mut text = String::from_str(":red_circle: *<https://github.com/EmbarkStudios/");
    text.append(project.name.as_str());
    text.append("|");
    text.append(project.name.as_str());
    text.append(">*\n```");
    text.append(errors.as_str());
    text.append("```");
    Some(Block::Text(text))
}

/// The message that tells the chat of the projects with errors.
pub fn slack_notification_blocks(projects: &Vec<Project>) -> (blocks: Vec<Block>)
    ensures
        blocks_view(blocks) == notification_blocks(projects@),
{
    let head =
        "The following Embark open source projects have been found to have maintainership issues.";
    let foot =
        "This message was generated by the <https://github.com/EmbarkStudios/opensource/tree/main/tools/embark-oss|embark-oss tool> on GitHub Actions.";
    let mut blocks: Vec<Block> = Vec::new();
    blocks.push(Block::Text(String::from_str(head)));
    blocks.push(Block::Divider);
    let ghost opening = seq![BlockView::Text(notification_head()), BlockView::Divider];
    assert(blocks_view(blocks) =~= opening + project_blocks(projects@, 0));
    let mut i: usize = 0;
    while i < projects.len()
        invariant
            i <= projects.len(),
            blocks_view(blocks) == opening + project_blocks(projects@, i as int),
        decreases projects.len() - i,
    {
        match slack_project_block(&projects[i]) {
            Some(block) => {
                let ghost before = blocks_view(blocks);
                blocks.push(block);
                assert(blocks_view(blocks) =~= before.push(block@));
                assert(blocks_view(blocks) =~= opening + project_blocks(projects@, i + 1));
            },
            None => {},
        }
        i += 1;
    }
    let ghost middle = blocks_view(blocks);
    blocks.push(Block::Divider);
    blocks.push(Block::Text(String::from_str(foot)));
    assert(blocks_view(blocks) =~= middle + seq![
        BlockView::Divider,
        BlockView::Text(notification_foot()),
    ]);
    blocks
}

/// Validates one project by its name and says what to show and how the run
/// ends: with an error where the project does not conform.
pub fn one(
    project_name: String,
    codeowners: Result<String, Report>,
    context: &Context,
    allowed: &Vec<String>,
) -> (outcome: (String, Result<(), Report>))
    ensures
        ({
            let project = validated(
                project_name@,
                crate::error::text_view(codeowners),
                *context,
                allowed.deep_view(),
            );
            &&& outcome.0@ == status_text(project)
            &&& match outcome.1 {
                Ok(_) => errors_text(project, true) is None,
                Err(e) => errors_text(project, true) is Some && e@
                    == seq!["The project does not conform to our guidelines"@],
            }
        }),
{
    let project = Project::new(project_name).validate(codeowners, context, allowed);
    let line = print_status(&project);
    if project.has_errors() {
        (line, Err(Report::new("The project does not conform to our guidelines")))
    } else {
        (line, Ok(()))
    }
}

/// Sums up a run over all projects, each of them validated. Where none has
/// errors the run succeeds and there is nothing to tell. Else it fails, and
/// with `notify` there is a message for the chat.
pub fn all(projects: &Vec<Project>, notify: bool) -> (summary: Summary)
    ensures
        all_conform(projects@) ==> summary.result is Ok && summary.notification is None,
        !all_conform(projects@) ==> {
            &&& summary.result is Err
            &&& summary.result->Err_0@ == seq!["Not all projects conform to our guidelines"@]
            &&& match summary.notification {
                Some(blocks) => notify && blocks_view(blocks) == notification_blocks(projects@),
                None => !notify,
            }
        },
{
    let mut conform = true;
    let mut i: usize = 0;
    while i < projects.len()
        invariant
            i <= projects.len(),
            conform == all_conform(projects@.subrange(0, i as int)),
        decreases projects.len() - i,
    {
        let ghost seen = projects@.subrange(0, i as int);
        let ghost next = projects@.subrange(0, i + 1);
        let failed = projects[i].has_errors();
        proof {
            assert(next[i as int] == projects@[i as int]);
            assert forall|k: int| 0 <= k < seen.len() implies seen[k] == next[k] by {}
            if all_conform(next) {
                assert forall|k: int| 0 <= k < seen.len() implies error_chains(
                    (#[trigger] seen[k])@,
                ).len() == 0 by {
                    assert(seen[k] == next[k]);
                }
            }
            if all_conform(seen) && !failed {
                assert forall|k: int| 0 <= k < next.len() implies error_chains(
                    (#[trigger] next[k])@,
                ).len() == 0 by {
                    if k < seen.len() {
                        assert(seen[k] == next[k]);
                    }
                }
            }
        }
        if failed {
            conform = false;
        }
        i += 1;
    }
    assert(projects@.subrange(0, i as int) =~= projects@);
    if conform {
        return Summary { notification: None, result: Ok(()) };
    }
    let notification = if notify {
        Some(slack_notification_blocks(projects))
    } else {
        None
    };
    Summary {
        notification,
        result: Err(Report::new("Not all projects conform to our guidelines")),
    }
}

} // verus!
