//! Validation of submitted command lines and the submission entry point.

use vstd::prelude::*;
use vstd::string::*;
use crate::models::CommandTaskStart;
use crate::store::{drop_terminal, excess_over, is_fresh_record, task_id_text, CommandTaskStore};
use crate::text::same_text;

verus! {

/// The subcommands that may be launched.
pub open spec fn is_allowed_command(c: Seq<char>) -> bool {
    c == "ingest"@ || c == "filter"@ || c == "train"@ || c == "export-training"@ || c == "versions"@
}

pub open spec fn missing_command_text() -> Seq<char> {
    "Forge args must include a command"@
}

pub open spec fn unsupported_command_text(c: Seq<char>) -> Seq<char> {
    "Unsupported command '"@ + c + "' for Studio execution"@
}

/// Accepts an argument list whose first element is an allowed subcommand.
pub fn validate_args(args: &[String]) -> (r: Result<(), String>)
    ensures
        args@.len() == 0 ==> r is Err && r->Err_0@ == missing_command_text(),
        args@.len() > 0 ==> (r is Ok <==> is_allowed_command(args@[0]@)),
        args@.len() > 0 && !is_allowed_command(args@[0]@) ==> r is Err && r->Err_0@
            == unsupported_command_text(args@[0]@),
{
    if args.len() == 0 {
        return Err(String::from_str("Forge args must include a command"));
    }
    let command = args[0].as_str();
    if same_text(command, "ingest") || same_text(command, "filter") || same_text(command, "train")
        || same_text(command, "export-training") || same_text(command, "versions") {
        Ok(())
    } else {
        Err(String::from_str("Unsupported command '").concat(command).concat("' for Studio execution"))
    }
}

/// Validates `args` and, when they are accepted, registers a new running
/// task for them; a rejected submission changes nothing.
pub fn start_forge_command(store: &mut CommandTaskStore, args: Vec<String>, now_millis: u64) -> (r: Result<
    CommandTaskStart,
    String,
>)
    requires
        old(store).wf(),
        old(store).next_task_id < u64::MAX,
    ensures
        final(store).wf(),
        r is Ok <==> (args@.len() > 0 && is_allowed_command(args@[0]@)),
        r is Err ==> *final(store) == *old(store),
        r is Err && args@.len() == 0 ==> r->Err_0@ == missing_command_text(),
        r is Err && args@.len() > 0 ==> r->Err_0@ == unsupported_command_text(args@[0]@),
        r is Ok ==> {
            &&& r->Ok_0.task_id@ == task_id_text(old(store).next_task_id)
            &&& r->Ok_0.estimated_total_seconds == old(store).duration_estimates.estimate_of(args@[0]@)
            &&& final(store).next_task_id == old(store).next_task_id + 1
            &&& final(store).duration_estimates == old(store).duration_estimates
            &&& final(store).tasks.len() > 0
            &&& is_fresh_record(
                final(store).tasks@.last(),
                old(store).next_task_id,
                args@,
                now_millis,
                r->Ok_0.estimated_total_seconds,
            )
            &&& final(store).tasks@ == drop_terminal(
                old(store).tasks@.push(final(store).tasks@.last()),
                excess_over(old(store).tasks@.len() + 1),
            )
        },
{
    match validate_args(args.as_slice()) {
        Ok(()) => Ok(store.start_task(args, now_millis)),
        Err(e) => Err(e),
    }
}

} // verus!
