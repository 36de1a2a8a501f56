//! Prompt templating and the operator's interactive commands.
//!
//! A turn's raw input text is wrapped in a mode-specific template before it
//! is handed to the tokenizer: chat-markup framing tokens, or
//! instruction/response framing.  The interactive line is first screened for
//! the session commands the two front ends understand.

use vstd::prelude::*;

verus! {

/// The prompting format: instruction/response framing, or chat markup.
#[derive(Clone, Copy, Debug, PartialEq, Eq, Structural)]
pub enum ChatMode {
    Instruct,
    ChatML,
}

/// The framing a system prompt gets in each mode.
pub open spec fn spec_system_prompt(mode: ChatMode, sysprompt: Seq<char>) -> Seq<char> {
    match mode {
        ChatMode::ChatML => "<|im_start|>system\n"@ + sysprompt + "<|im_end|>"@,
        ChatMode::Instruct => sysprompt,
    }
}

/// Wraps a system prompt in its mode's framing.
pub fn wrap_system_prompt(mode: ChatMode, sysprompt: &str) -> (r: String)
    ensures
        r@ == spec_system_prompt(mode, sysprompt@),
{
    match mode {
        ChatMode::ChatML => {
            let mut s = String::from_str("<|im_start|>system\n");
            s.append(sysprompt);
            s.append("<|im_end|>");
            proof {
                assert(s@ =~= "<|im_start|>system\n"@ + sysprompt@ + "<|im_end|>"@);
            }
            s
        },
        ChatMode::Instruct => String::from_str(sysprompt),
    }
}

/// The framing one user turn gets in each mode.
pub open spec fn spec_turn_body(mode: ChatMode, line: Seq<char>) -> Seq<char> {
    match mode {
        ChatMode::ChatML => "<|im_start|>user\n"@ + line
            + "<|im_end|><|im_start|>assistant\n"@,
        ChatMode::Instruct => "### Instruction:\n"@ + line + "\n### Response:\n"@,
    }
}

/// The full prompt one turn evaluates: the system prompt on the first turn,
/// the framed user line, and, on request, a leading scrap of assent for the
/// response.
pub open spec fn spec_turn_prompt(
    mode: ChatMode,
    system: Option<Seq<char>>,
    line: Seq<char>,
    sudo: bool,
) -> Seq<char> {
    (match system {
        Some(s) => s,
        None => Seq::empty(),
    }) + spec_turn_body(mode, line) + (if sudo {
        "Sure, I can help you with that. "@
    } else {
        Seq::empty()
    })
}

/// Builds the prompt a turn evaluates.  `system` is the (already framed)
/// system prompt, present on a conversation's first turn only.
pub fn wrap_turn_prompt(mode: ChatMode, system: Option<&String>, line: &str, sudo: bool) -> (r:
    String)
    ensures
        r@ == spec_turn_prompt(
            mode,
            (match system {
                Some(s) => Some(s@),
                None => None,
            }),
            line@,
            sudo,
        ),
{
    let mut s = match system {
        Some(sys) => (*sys).clone(),
        None => String::new(),
    };
    match mode {
        ChatMode::ChatML => {
            s.append("<|im_start|>user\n");
            s.append(line);
            s.append("<|im_end|><|im_start|>assistant\n");
        },
        ChatMode::Instruct => {
            s.append("### Instruction:\n");
            s.append(line);
            s.append("\n### Response:\n");
        },
    }
    if sudo {
        s.append("Sure, I can help you with that. ");
    }
    proof {
        assert(s@ =~= spec_turn_prompt(
            mode,
            (match system {
                Some(sys) => Some(sys@),
                None => None,
            }),
            line@,
            sudo,
        ));
    }
    s
}

/// Whether `line` is exactly the conversation-reset command.
pub fn is_reset_command(line: &Vec<char>) -> (r: bool)
    ensures
        r == (line@ == "/reset"@),
{
    proof {
        reveal_strlit("/reset");
    }
    let hit = line.len() == 6 && line[0] == '/' && line[1] == 'r' && line[2]
        == 'e' && line[3] == 's' && line[4] == 'e' && line[5] == 't';
    proof {
        if hit {
            assert(line@ =~= "/reset"@);
        }
    }
    hit
}

/// Whether `line` is exactly the transcript-replay command.
pub fn is_dump_command(line: &Vec<char>) -> (r: bool)
    ensures
        r == (line@ == "/dump"@),
{
    proof {
        reveal_strlit("/dump");
    }
    let hit = line.len() == 5 && line[0] == '/' && line[1] == 'd' && line[2]
        == 'u' && line[3] == 'm' && line[4] == 'p';
    proof {
        if hit {
            assert(line@ =~= "/dump"@);
        }
    }
    hit
}

/// Strips the assent-seeding command prefix: for a line of the shape
/// `/sudo <rest>`, the rest; otherwise nothing.
pub fn strip_sudo_command(line: &Vec<char>) -> (r: Option<Vec<char>>)
    ensures
        (line@.len() >= 6 && line@.take(6) == "/sudo "@) ==> (r matches Some(rest) && rest@
            == line@.skip(6)),
        !(line@.len() >= 6 && line@.take(6) == "/sudo "@) ==> r is None,
{
    proof {
        reveal_strlit("/sudo ");
    }
    let hit = line.len() >= 6 && line[0] == '/' && line[1] == 's' && line[2]
        == 'u' && line[3] == 'd' && line[4] == 'o' && line[5] == ' ';
    proof {
        if hit {
            assert(line@.take(6) =~= "/sudo "@);
        } else {
            if line@.len() >= 6 && line@.take(6) == "/sudo "@ {
                assert(line@[0] == line@.take(6)[0]);
                assert(line@[1] == line@.take(6)[1]);
                assert(line@[2] == line@.take(6)[2]);
                assert(line@[3] == line@.take(6)[3]);
                assert(line@[4] == line@.take(6)[4]);
                assert(line@[5] == line@.take(6)[5]);
                assert(false);
            }
        }
    }
    if !hit {
        return None;
    }
    let mut rest: Vec<char> = Vec::new();
    let mut i: usize = 6;
    while i < line.len()
        invariant
            6 <= i <= line@.len(),
            rest@ == line@.subrange(6, i as int),
        decreases line@.len() - i,
    {
        rest.push(line[i]);
        proof {
            assert(rest@ =~= line@.subrange(6, i + 1));
        }
        i = i + 1;
    }
    proof {
        assert(rest@ =~= line@.skip(6));
    }
    Some(rest)
}

/// The story-writer front end's interactive commands.
#[derive(Clone, Copy, Debug, PartialEq, Eq, Structural)]
pub enum WriterCommand {
    /// Generate more tokens (the default).
    More,
    /// Persist the story to its file.
    Write,
    /// Reload the source text and resynchronize.
    Reread,
    /// Reject the last generated block.
    Reject,
    /// Show the story's tokens and their decode.
    Dump,
    /// Leave.
    Quit,
    /// Anything else: prompt again.
    Other,
}

/// The command a writer menu line selects: the empty line or a single
/// letter, case-insensitively.
pub fn parse_writer_command(line: &Vec<char>) -> (c: WriterCommand)
    ensures
        line@.len() == 0 ==> c is More,
        line@.len() > 1 ==> c is Other,
        line@.len() == 1 ==> {
            let ch = line@[0];
            &&& (ch == 'm' || ch == 'M') ==> c is More
            &&& (ch == 'w' || ch == 'W') ==> c is Write
            &&& (ch == 'r' || ch == 'R') ==> c is Reread
            &&& (ch == 'j' || ch == 'J') ==> c is Reject
            &&& (ch == 'd' || ch == 'D') ==> c is Dump
            &&& (ch == 'q' || ch == 'Q') ==> c is Quit
            &&& !(ch == 'm' || ch == 'M' || ch == 'w' || ch == 'W' || ch == 'r' || ch == 'R'
                || ch == 'j' || ch == 'J' || ch == 'd' || ch == 'D' || ch == 'q' || ch == 'Q')
                ==> c is Other
        },
{
    if line.len() == 0 {
        return WriterCommand::More;
    }
    if line.len() > 1 {
        return WriterCommand::Other;
    }
    let ch = line[0];
    if ch == 'm' || ch == 'M' {
        WriterCommand::More
    } else if ch == 'w' || ch == 'W' {
        WriterCommand::Write
    } else if ch == 'r' || ch == 'R' {
        WriterCommand::Reread
    } else if ch == 'j' || ch == 'J' {
        WriterCommand::Reject
    } else if ch == 'd' || ch == 'D' {
        WriterCommand::Dump
    } else if ch == 'q' || ch == 'Q' {
        WriterCommand::Quit
    } else {
        WriterCommand::Other
    }
}

} // verus!
