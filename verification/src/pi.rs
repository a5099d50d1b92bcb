//! How the model is called.
use vstd::prelude::*;

use crate::config::{Config, AI_MODEL, AI_PROVIDER, AI_THINKING, AI_TRANSLATION_MODEL};
use crate::text::views;

verus! {

/// What the model is asked to do.
#[derive(Debug, Clone, Copy, PartialEq, Eq, Structural)]
pub enum PiTask {
    /// To find the sentences among cues.
    Segment,
    /// To translate sentences.
    Translate,
    /// To write title, tags and the like.
    PublishMetadata,
}

impl PiTask {
    /// The name of the task.
    pub open spec fn text(self) -> Seq<char> {
        match self {
            PiTask::Segment => "segment"@,
            PiTask::Translate => "translate"@,
            PiTask::PublishMetadata => "publish_metadata"@,
        }
    }

    /// The name of the task.
    pub fn as_str(self) -> (r: &'static str)
        ensures
            r@ == self.text(),
    {
        match self {
            PiTask::Segment => "segment",
            PiTask::Translate => "translate",
            PiTask::PublishMetadata => "publish_metadata",
        }
    }
}

/// The model for a task: translation has its own.
pub open spec fn model_of(config: Config, task: PiTask) -> Seq<char> {
    match task {
        PiTask::Translate => config.ai.translation_model@,
        _ => config.ai.model@,
    }
}

/// The model for a task.
pub fn pi_model(config: &Config, task: PiTask) -> (r: &str)
    ensures
        r@ == model_of(*config, task),
{
    match task {
        PiTask::Translate => config.ai.translation_model.as_str(),
        _ => config.ai.model.as_str(),
    }
}

/// The arguments that Pi is called with: it keeps no session, has no tools, and loads nothing but
/// the one extension.
pub open spec fn pi_args_of(config: Config, task: PiTask, payload: Seq<char>) -> Seq<Seq<char>> {
    seq![
        "--mode"@,
        "json"@,
        "--print"@,
        "--no-session"@,
        "--no-tools"@,
        "--no-skills"@,
        "--no-context-files"@,
        "--no-prompt-templates"@,
        "--no-extensions"@,
        "--extension"@,
        config.ai.extension@,
        "--provider"@,
        config.ai.provider@,
        "--model"@,
        model_of(config, task),
        "--thinking"@,
        config.ai.thinking@,
        "--no-approve"@,
        payload,
    ]
}

/// The arguments that Pi is called with.
pub fn pi_args(config: &Config, task: PiTask, payload: &str) -> (r: Vec<String>)
    ensures
        views(r@) == pi_args_of(*config, task, payload@),
{
    let mut args: Vec<String> = Vec::new();
    args.push("--mode".to_owned());
    args.push("json".to_owned());
    args.push("--print".to_owned());
    args.push("--no-session".to_owned());
    args.push("--no-tools".to_owned());
    args.push("--no-skills".to_owned());
    args.push("--no-context-files".to_owned());
    args.push("--no-prompt-templates".to_owned());
    args.push("--no-extensions".to_owned());
    args.push("--extension".to_owned());
    args.push(config.ai.extension.clone());
    args.push("--provider".to_owned());
    args.push(config.ai.provider.clone());
    args.push("--model".to_owned());
    args.push(pi_model(config, task).to_owned());
    args.push("--thinking".to_owned());
    args.push(config.ai.thinking.clone());
    args.push("--no-approve".to_owned());
    args.push(payload.to_owned());
    proof {
        assert(views(args@) =~= pi_args_of(*config, task, payload@));
    }
    args
}

/// Under a configuration that is accepted every call goes to the same provider without thinking,
/// translation to its model and all else to the other, and no call has a session or tools.
pub proof fn calls_do_not_drift(config: Config, task: PiTask, payload: Seq<char>)
    requires
        config.ai_fault() is None,
    ensures
        ({
            let args = pi_args_of(config, task, payload);
            &&& args[3] == "--no-session"@ && args[4] == "--no-tools"@
            &&& args[11] == "--provider"@ && args[12] == AI_PROVIDER@
            &&& args[13] == "--model"@ && args[14] == if task is Translate {
                AI_TRANSLATION_MODEL@
            } else {
                AI_MODEL@
            }
            &&& args[15] == "--thinking"@ && args[16] == AI_THINKING@
            &&& args.last() == payload
        }),
{
}

/// A translation goes to the model for translations and every other task to the plain one; the
/// payload comes last, and the sandbox of the call does not depend on the task.
pub proof fn tasks_choose_their_model(config: Config, payload: Seq<char>, other: Seq<char>)
    ensures
        pi_args_of(config, PiTask::Translate, payload)[14] == config.ai.translation_model@,
        pi_args_of(config, PiTask::Segment, payload)[14] == config.ai.model@,
        pi_args_of(config, PiTask::PublishMetadata, payload)[14] == config.ai.model@,
        pi_args_of(config, PiTask::Segment, payload).len() == 19,
        pi_args_of(config, PiTask::Segment, payload)[18] == payload,
        pi_args_of(config, PiTask::Segment, payload)[9] == "--extension"@,
        pi_args_of(config, PiTask::Segment, payload)[10] == config.ai.extension@,
        pi_args_of(config, PiTask::Segment, payload)[0] == "--mode"@,
        pi_args_of(config, PiTask::Segment, payload)[1] == "json"@,
        forall|i: int|
            0 <= i < 18 && i != 14 ==> #[trigger] pi_args_of(config, PiTask::Translate, payload)[i]
                == pi_args_of(config, PiTask::PublishMetadata, other)[i],
{
}

} // verus!
