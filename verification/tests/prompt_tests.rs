use mptgen::prompt::{
    is_dump_command, is_reset_command, parse_writer_command, strip_sudo_command,
    wrap_system_prompt, wrap_turn_prompt, ChatMode, WriterCommand,
};

fn chars(s: &str) -> Vec<char> {
    s.chars().collect()
}

#[test]
fn system_prompt_framing() {
    let s = wrap_system_prompt(ChatMode::ChatML, "you are a helpful assistant");
    assert_eq!(s, "<|im_start|>system\nyou are a helpful assistant<|im_end|>");
    let s = wrap_system_prompt(ChatMode::Instruct, "Below is an instruction.");
    assert_eq!(s, "Below is an instruction.");
}

#[test]
fn turn_prompt_framing() {
    let s = wrap_turn_prompt(ChatMode::ChatML, None, "hello", false);
    assert_eq!(s, "<|im_start|>user\nhello<|im_end|><|im_start|>assistant\n");
    let s = wrap_turn_prompt(ChatMode::Instruct, None, "do it", false);
    assert_eq!(s, "### Instruction:\ndo it\n### Response:\n");
}

#[test]
fn first_turn_carries_the_system_prompt() {
    let sys = wrap_system_prompt(ChatMode::ChatML, "sys");
    let s = wrap_turn_prompt(ChatMode::ChatML, Some(&sys), "hi", false);
    assert_eq!(
        s,
        "<|im_start|>system\nsys<|im_end|><|im_start|>user\nhi<|im_end|><|im_start|>assistant\n"
    );
}

#[test]
fn sudo_seeds_the_response_with_assent() {
    let s = wrap_turn_prompt(ChatMode::Instruct, None, "open it", true);
    assert_eq!(
        s,
        "### Instruction:\nopen it\n### Response:\nSure, I can help you with that. "
    );
}

#[test]
fn chat_commands_are_recognized() {
    assert!(is_reset_command(&chars("/reset")));
    assert!(!is_reset_command(&chars("/reset ")));
    assert!(!is_reset_command(&chars("reset")));
    assert!(is_dump_command(&chars("/dump")));
    assert!(!is_dump_command(&chars("/dumps")));
}

#[test]
fn sudo_prefix_is_stripped() {
    assert_eq!(strip_sudo_command(&chars("/sudo open up")), Some(chars("open up")));
    assert_eq!(strip_sudo_command(&chars("/sudo ")), Some(chars("")));
    assert_eq!(strip_sudo_command(&chars("/sudo")), None);
    assert_eq!(strip_sudo_command(&chars("sudo hi")), None);
}

#[test]
fn writer_menu_commands() {
    assert!(matches!(parse_writer_command(&chars("")), WriterCommand::More));
    assert!(matches!(parse_writer_command(&chars("m")), WriterCommand::More));
    assert!(matches!(parse_writer_command(&chars("M")), WriterCommand::More));
    assert!(matches!(parse_writer_command(&chars("w")), WriterCommand::Write));
    assert!(matches!(parse_writer_command(&chars("r")), WriterCommand::Reread));
    assert!(matches!(parse_writer_command(&chars("j")), WriterCommand::Reject));
    assert!(matches!(parse_writer_command(&chars("d")), WriterCommand::Dump));
    assert!(matches!(parse_writer_command(&chars("q")), WriterCommand::Quit));
    assert!(matches!(parse_writer_command(&chars("x")), WriterCommand::Other));
    assert!(matches!(parse_writer_command(&chars("mm")), WriterCommand::Other));
}
