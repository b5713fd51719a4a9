//! Arguments for interactive and streaming invocations.

use vstd::prelude::*;

use crate::text::basic::{opt_str, texts};

verus! {

/// The arguments that select a model.
pub open spec fn model_args(model: Option<Seq<char>>) -> Seq<Seq<char>> {
    match model {
        Some(m) => seq!["--model"@, m],
        None => Seq::empty(),
    }
}

/// Adds an argument.
fn push_arg(args: &mut Vec<String>, a: &str)
    ensures
        texts(final(args)@) == texts(old(args)@).push(a@),
{
    let ghost before = args@;
    args.push(a.to_owned());
    assert(texts(args@) =~= texts(before).push(a@));
}

/// The arguments for launching the agent in interactive mode. The initial
/// message is positional, so that the agent responds at once when the session
/// opens.
pub fn build_interactive_command(
    system_prompt: &str,
    initial_message: &str,
    model: Option<&str>,
) -> (r: Vec<String>)
    ensures
        texts(r@) == seq!["--system-prompt"@, system_prompt@] + model_args(opt_str(model)) + seq![
            initial_message@,
        ],
{
    let mut args: Vec<String> = Vec::new();
    push_arg(&mut args, "--system-prompt");
    push_arg(&mut args, system_prompt);
    match model {
        Some(m) => {
            push_arg(&mut args, "--model");
            push_arg(&mut args, m);
        },
        None => {},
    }
    push_arg(&mut args, initial_message);
    assert(texts(args@) =~= seq!["--system-prompt"@, system_prompt@] + model_args(opt_str(model))
        + seq![initial_message@]);
    args
}

/// The arguments for launching the agent in non-interactive streaming mode.
pub fn build_streaming_command(
    system_prompt: &str,
    initial_message: &str,
    model: Option<&str>,
) -> (r: Vec<String>)
    ensures
        texts(r@) == seq![
            "--print"@,
            "--verbose"@,
            "--output-format"@,
            "stream-json"@,
            "--dangerously-skip-permissions"@,
            "--system-prompt"@,
            system_prompt@,
        ] + model_args(opt_str(model)) + seq![initial_message@],
{
    let mut args: Vec<String> = Vec::new();
    push_arg(&mut args, "--print");
    push_arg(&mut args, "--verbose");
    push_arg(&mut args, "--output-format");
    push_arg(&mut args, "stream-json");
    push_arg(&mut args, "--dangerously-skip-permissions");
    push_arg(&mut args, "--system-prompt");
    push_arg(&mut args, system_prompt);
    match model {
        Some(m) => {
            push_arg(&mut args, "--model");
            push_arg(&mut args, m);
        },
        None => {},
    }
    push_arg(&mut args, initial_message);
    assert(texts(args@) =~= seq![
        "--print"@,
        "--verbose"@,
        "--output-format"@,
        "stream-json"@,
        "--dangerously-skip-permissions"@,
        "--system-prompt"@,
        system_prompt@,
    ] + model_args(opt_str(model)) + seq![initial_message@]);
    args
}

} // verus!
