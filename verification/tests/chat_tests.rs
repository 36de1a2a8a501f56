use mptgen::chat::{Chat, TokenOutcome};
use mptgen::minmpt::{MinMPT, MinMPTError, ModelInfo};
use mptgen::sampling::greedy;

fn session(n_ctx: usize, n_vocab: usize) -> MinMPT {
    MinMPT::load_model(ModelInfo { n_ctx, n_vocab }, None).unwrap()
}

fn chars(s: &str) -> Vec<char> {
    s.chars().collect()
}

#[test]
fn one_turn_with_greedy_sampler_and_fixed_engine() {
    // A 3-token vocabulary and an engine that always prefers token 2,
    // except immediately after token 2 was committed, when it prefers the
    // end-of-sequence token 0.  One turn must produce exactly [2, 0], emit
    // text for token 2 only, and leave one fewer token in context than were
    // evaluated.
    let mut chat = Chat::new(session(16, 3), None, None);
    let mut evaluated = 0usize;

    let prompt = vec![1u32];
    chat.begin_turn(prompt.clone(), None).unwrap();
    evaluated += prompt.len();
    let mut produced: Vec<u32> = Vec::new();
    let mut emitted = String::new();

    // The engine's answer to the prompt: prefer token 2.
    let scores: Vec<i64> = vec![0, 0, 10];
    let tok = greedy(&scores) as u32;
    produced.push(tok);
    assert_eq!(tok, 2);
    match chat.accept_token(tok).unwrap() {
        TokenOutcome::Emit => {
            evaluated += 1;
            // The tokenizer decodes [2] to "two".
            let out = chat.emit_window(&chars("two"));
            emitted.extend(out);
        }
        other => panic!("turn ended early: {:?}", other),
    }

    // The engine's answer right after token 2: prefer token 0.
    let scores: Vec<i64> = vec![10, 0, 0];
    let tok = greedy(&scores) as u32;
    produced.push(tok);
    assert_eq!(tok, 0);
    assert_eq!(chat.accept_token(tok).unwrap(), TokenOutcome::FinishedEos);

    assert_eq!(produced, vec![2, 0]);
    assert_eq!(emitted, "two");
    // The trailing 0 is rewound out: counting it as evaluated, the context
    // holds one token fewer.
    assert_eq!(chat.n_past(), (evaluated + 1) - 1);
    assert_eq!(chat.transcript_len(), 2);
    assert_eq!(chat.turn(0).tokens, vec![1]);
    assert!(chat.turn(0).is_input);
    assert_eq!(chat.turn(1).tokens, vec![2]);
    assert!(!chat.turn(1).is_input);
}

#[test]
fn stop_marker_stays_committed_but_unemitted() {
    let mut chat = Chat::new(session(16, 10), None, Some(7));
    chat.begin_turn(vec![1, 2], None).unwrap();
    assert_eq!(chat.accept_token(5).unwrap(), TokenOutcome::Emit);
    assert_eq!(chat.accept_token(7).unwrap(), TokenOutcome::FinishedStop);
    // Prompt (2) + generated 5 + stop marker 7 all stand in context.
    assert_eq!(chat.n_past(), 4);
    assert_eq!(chat.turn(1).tokens, vec![5, 7]);
}

#[test]
fn begin_turn_rejects_what_does_not_fit() {
    let mut chat = Chat::new(session(3, 10), None, None);
    assert!(matches!(
        chat.begin_turn(vec![1, 2, 3, 4], None),
        Err(MinMPTError::ContextLimit)
    ));
    assert_eq!(chat.n_past(), 0);
    assert_eq!(chat.transcript_len(), 0);
    chat.begin_turn(vec![1, 2, 3], None).unwrap();
    assert_eq!(chat.n_past(), 3);
}

#[test]
fn mid_turn_context_limit_records_what_was_evaluated() {
    let mut chat = Chat::new(session(3, 10), None, None);
    chat.begin_turn(vec![1, 2], None).unwrap();
    assert_eq!(chat.accept_token(5).unwrap(), TokenOutcome::Emit);
    assert!(matches!(chat.accept_token(6), Err(MinMPTError::ContextLimit)));
    // The turn aborted: its record holds exactly the committed token.
    assert_eq!(chat.n_past(), 3);
    assert_eq!(chat.transcript_len(), 2);
    assert_eq!(chat.turn(1).tokens, vec![5]);
}

#[test]
fn interruption_keeps_committed_tokens() {
    let mut chat = Chat::new(session(16, 10), None, None);
    chat.begin_turn(vec![1], None).unwrap();
    chat.accept_token(4).unwrap();
    chat.accept_token(5).unwrap();
    chat.interrupt_turn();
    assert_eq!(chat.n_past(), 3);
    assert_eq!(chat.turn(1).tokens, vec![4, 5]);
}

#[test]
fn reject_last_generation_restores_n_past() {
    let mut chat = Chat::new(session(16, 10), None, None);
    chat.begin_turn(vec![1, 2], None).unwrap();
    let before_generation = chat.n_past();
    chat.accept_token(4).unwrap();
    chat.accept_token(5).unwrap();
    chat.accept_token(0).unwrap();
    assert_eq!(chat.n_past(), before_generation + 2);
    assert_eq!(chat.reject_last_generation(), Some(2));
    assert_eq!(chat.n_past(), before_generation);
    assert_eq!(chat.transcript_len(), 1);
    // With an input turn last, reject does nothing.
    assert_eq!(chat.reject_last_generation(), None);
    assert_eq!(chat.n_past(), before_generation);
}

#[test]
fn reset_clears_conversation() {
    let mut chat = Chat::new(session(16, 10), None, None);
    chat.begin_turn(vec![1, 2], None).unwrap();
    chat.accept_token(4).unwrap();
    chat.accept_token(0).unwrap();
    chat.reset();
    assert_eq!(chat.n_past(), 0);
    assert_eq!(chat.transcript_len(), 0);
}

#[test]
fn guided_turns_drive_both_sessions_in_lockstep() {
    let primary = session(16, 10);
    let negative = primary.fork();
    let mut chat = Chat::new(primary, Some(negative), None);
    // Different system prompts tokenize to different lengths.
    chat.begin_turn(vec![1, 2, 3], Some(vec![4, 5])).unwrap();
    assert_eq!(chat.n_past(), 3);
    chat.accept_token(6).unwrap();
    chat.accept_token(0).unwrap();
    assert_eq!(chat.n_past(), 4);
    assert_eq!(chat.turn(1).tokens, vec![6]);
}

#[test]
fn each_turn_emits_from_a_fresh_window() {
    let mut chat = Chat::new(session(16, 10), None, None);
    chat.begin_turn(vec![1], None).unwrap();
    chat.accept_token(4).unwrap();
    assert_eq!(chat.emit_window(&chars("hi")), chars("hi"));
    chat.accept_token(0).unwrap();
    chat.begin_turn(vec![2], None).unwrap();
    chat.accept_token(5).unwrap();
    // The new turn's decode starts over; nothing of it was emitted yet.
    assert_eq!(chat.emit_window(&chars("yo")), chars("yo"));
}

#[test]
fn emit_window_strips_trailing_replacement_characters() {
    let mut chat = Chat::new(session(16, 10), None, None);
    chat.begin_turn(vec![1], None).unwrap();
    // The first token decodes to half a multi-byte sequence.
    let out = chat.emit_window(&chars("a\u{FFFD}"));
    assert_eq!(out, chars("a"));
    // The next token completes it.
    let out = chat.emit_window(&chars("ab\u{FFFD}\u{FFFD}"));
    assert_eq!(out, chars("b"));
    let out = chat.emit_window(&chars("abc"));
    assert_eq!(out, chars("c"));
    // Decoded text shorter than what was emitted emits nothing.
    let out = chat.emit_window(&chars("a"));
    assert_eq!(out, chars(""));
}
