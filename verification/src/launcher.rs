//! The server launcher's rules: the command line handed to
//! `llama-crab-server` and the exit code the launcher ends with.

use vstd::prelude::*;
use crate::text::same_text;

verus! {

/// The arguments forwarded to the server: everything after the third
/// positional argument, with a leading `--` separator dropped.
pub open spec fn forwarded_args(extra: Seq<Seq<char>>) -> Seq<Seq<char>> {
    if extra.len() > 0 && extra[0] == "--"@ {
        extra.drop_first()
    } else {
        extra
    }
}

/// The server's command line: `--model <model> --mmproj <mmproj>`, then the
/// forwarded arguments.
pub open spec fn server_command_line(
    model: Seq<char>,
    mmproj: Seq<char>,
    extra: Seq<Seq<char>>,
) -> Seq<Seq<char>> {
    seq!["--model"@, model, "--mmproj"@, mmproj] + forwarded_args(extra)
}

/// The texts of a list of strings.
pub open spec fn texts(strings: Seq<String>) -> Seq<Seq<char>> {
    strings.map_values(|s: String| s@)
}

/// Builds the arguments for `llama-crab-server`.
pub fn server_args(model: &str, mmproj: &str, extra: &Vec<String>) -> (args: Vec<String>)
    ensures
        texts(args@) == server_command_line(model@, mmproj@, texts(extra@)),
{
    let mut args: Vec<String> = Vec::new();
    args.push("--model".to_owned());
    args.push(model.to_owned());
    args.push("--mmproj".to_owned());
    args.push(mmproj.to_owned());
    let skip: usize = if extra.len() > 0 && same_text(extra[0].as_str(), "--") {
        1
    } else {
        0
    };
    let ghost head = texts(args@);
    let ghost rest = forwarded_args(texts(extra@));
    assert(head =~= seq!["--model"@, model@, "--mmproj"@, mmproj@]);
    assert(rest =~= texts(extra@).skip(skip as int));
    let mut i: usize = skip;
    while i < extra.len()
        invariant
            skip <= i <= extra@.len(),
            rest == texts(extra@).skip(skip as int),
            texts(args@) == head + rest.take(i - skip),
        decreases extra@.len() - i,
    {
        let ghost before = texts(args@);
        args.push(extra[i].clone());
        assert(texts(args@) =~= before.push(extra@[i as int]@));
        assert(rest.take(i + 1 - skip) =~= rest.take(i - skip).push(extra@[i as int]@));
        assert(texts(args@) =~= head + rest.take(i + 1 - skip));
        i = i + 1;
    }
    assert(rest.take(extra@.len() - skip) =~= rest);
    args
}

/// How a launch ended.
#[derive(Clone, Copy, Debug, PartialEq, Eq, Structural)]
pub enum LaunchOutcome {
    /// The model or the projector could not be fetched.
    FetchFailed,
    /// No `llama-crab-server` binary was found.
    ServerMissing,
    /// The server could not be started for another reason.
    SpawnFailed,
    /// The server ran and exited, with this code where it had one.
    Exited(Option<i32>),
}

/// The launcher's exit code: 1 for a failed fetch or spawn, 127 for a
/// missing server, and otherwise the server's own code (1 where it had
/// none) reduced to its low byte.
pub open spec fn launch_exit_code(outcome: LaunchOutcome) -> u8 {
    match outcome {
        LaunchOutcome::FetchFailed => 1,
        LaunchOutcome::ServerMissing => 127,
        LaunchOutcome::SpawnFailed => 1,
        LaunchOutcome::Exited(Some(code)) => code as u8,
        LaunchOutcome::Exited(None) => 1,
    }
}

/// The exit code the launcher ends with.
pub fn exit_code(outcome: LaunchOutcome) -> (code: u8)
    ensures
        code == launch_exit_code(outcome),
{
    match outcome {
        LaunchOutcome::FetchFailed => 1,
        LaunchOutcome::ServerMissing => 127,
        LaunchOutcome::SpawnFailed => 1,
        LaunchOutcome::Exited(Some(code)) => #[verifier::truncate] (code as u8),
        LaunchOutcome::Exited(None) => 1,
    }
}

/// The launcher ends with 1 when a file could not be fetched or the server
/// could not be spawned, with 127 when no server binary was found, with 1
/// when the server left no code, and with the server's own code when it
/// fits in a byte.
pub proof fn lemma_exit_codes(code: i32)
    ensures
        launch_exit_code(LaunchOutcome::FetchFailed) == 1,
        launch_exit_code(LaunchOutcome::SpawnFailed) == 1,
        launch_exit_code(LaunchOutcome::ServerMissing) == 127,
        launch_exit_code(LaunchOutcome::Exited(None)) == 1,
        0 <= code < 256 ==> launch_exit_code(LaunchOutcome::Exited(Some(code))) == code,
{
    if 0 <= code < 256 {
        assert((code as u8) == code) by (bit_vector)
            requires
                0 <= code < 256,
        ;
    }
}

/// The server gets `--model <model> --mmproj <mmproj>` first; after them
/// come the extra arguments unchanged, except that one leading `--` is
/// dropped.
pub proof fn lemma_server_command_line(model: Seq<char>, mmproj: Seq<char>, extra: Seq<Seq<char>>)
    ensures
        server_command_line(model, mmproj, extra).take(4) == seq!["--model"@, model, "--mmproj"@, mmproj],
        (extra.len() == 0 || extra[0] != "--"@) ==> server_command_line(model, mmproj, extra).skip(4)
            == extra,
        (extra.len() > 0 && extra[0] == "--"@) ==> server_command_line(model, mmproj, extra).skip(4)
            == extra.skip(1),
{
    let line = server_command_line(model, mmproj, extra);
    assert(line.take(4) =~= seq!["--model"@, model, "--mmproj"@, mmproj]);
    assert(line.skip(4) =~= forwarded_args(extra));
    if extra.len() > 0 && extra[0] == "--"@ {
        assert(forwarded_args(extra) =~= extra.skip(1));
    }
}

} // verus!
