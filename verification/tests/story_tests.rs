use mptgen::minmpt::{MinMPT, MinMPTError, ModelInfo};
use mptgen::story::{common_prefix_len, Story, StoryStep};

fn session(n_ctx: usize) -> MinMPT {
    MinMPT::load_model(ModelInfo { n_ctx, n_vocab: 100 }, None).unwrap()
}

#[test]
fn common_prefix_of_token_sequences() {
    assert_eq!(common_prefix_len(&vec![5, 6, 9], &vec![5, 6, 7, 8]), 2);
    assert_eq!(common_prefix_len(&vec![5, 6, 7], &vec![5, 6, 7]), 3);
    assert_eq!(common_prefix_len(&vec![1], &vec![2]), 0);
    assert_eq!(common_prefix_len(&vec![], &vec![1, 2]), 0);
    assert_eq!(common_prefix_len(&vec![1, 2, 3], &vec![1]), 1);
}

#[test]
fn catch_up_evaluates_pending_tokens_in_batches() {
    let mut story = Story::new(session(64), vec![1, 2, 3, 4, 5], 4);
    assert_eq!(story.n_past(), 0);
    story.catch_up(2).unwrap();
    assert_eq!(story.n_past(), 5);
    // Nothing pending: a second catch-up is a no-op.
    story.catch_up(2).unwrap();
    assert_eq!(story.n_past(), 5);
}

#[test]
fn catch_up_stops_at_the_context_limit() {
    let mut story = Story::new(session(3), vec![1, 2, 3, 4, 5], 0);
    assert!(matches!(story.catch_up(2), Err(MinMPTError::ContextLimit)));
    // Whole batches that had room were committed.
    assert_eq!(story.n_past(), 2);
}

#[test]
fn generation_round_commits_as_it_goes() {
    let mut story = Story::new(session(64), vec![1, 2], 4);
    story.catch_up(32).unwrap();
    story.begin_run();
    assert_eq!(story.gen_token(10).unwrap(), StoryStep::Emit);
    assert_eq!(story.n_past(), 3);
    assert_eq!(story.gen_token(11).unwrap(), StoryStep::Emit);
    assert_eq!(story.n_past(), 4);
    // The budget is the opening length plus the requested amount: 2 + 4.
    assert_eq!(story.gen_token(12).unwrap(), StoryStep::Emit);
    assert_eq!(story.gen_token(13).unwrap(), StoryStep::FinishedBudget);
    // The budget token joined the story but awaits the next catch-up.
    assert_eq!(story.len(), 6);
    assert_eq!(story.n_past(), 5);
    story.catch_up(32).unwrap();
    assert_eq!(story.n_past(), 6);
}

#[test]
fn the_finished_round_still_shows_its_tokens() {
    let mut story = Story::new(session(64), vec![1, 2], 2);
    story.catch_up(32).unwrap();
    story.begin_run();
    story.gen_token(10).unwrap();
    assert_eq!(story.gen_token(11).unwrap(), StoryStep::FinishedBudget);
    // The budget-final token belongs to the round: its text can still be
    // emitted after the round ended.
    assert_eq!(story.run_tokens(), vec![10, 11]);
    let decoded: Vec<char> = "ab".chars().collect();
    assert_eq!(story.emit_window(&decoded), decoded);
}

#[test]
fn end_of_sequence_ends_the_round_uncommitted() {
    let mut story = Story::new(session(64), vec![1, 2], 8);
    story.catch_up(32).unwrap();
    story.begin_run();
    story.gen_token(10).unwrap();
    assert_eq!(story.gen_token(0).unwrap(), StoryStep::FinishedEos);
    assert_eq!(story.len(), 3);
    assert_eq!(story.n_past(), 3);
}

#[test]
fn resync_rewinds_to_before_the_common_prefix() {
    // Committed history [5, 6, 7, 8]; the re-read source decodes to
    // [5, 6, 9].  The common prefix is [5, 6]; one more token is rewound so
    // its following score vector can be re-derived: the session rewinds by
    // 4 - 1 = 3 and replays the divergent suffix.
    let mut story = Story::new(session(64), vec![5, 6, 7, 8], 4);
    story.catch_up(32).unwrap();
    assert_eq!(story.n_past(), 4);
    let rewound = story.resync(vec![5, 6, 9]);
    assert_eq!(rewound, 3);
    assert_eq!(story.n_past(), 1);
    assert_eq!(story.story_tokens(), &vec![5, 6, 9]);
    story.catch_up(32).unwrap();
    assert_eq!(story.n_past(), 3);
}

#[test]
fn resync_with_no_common_prefix_rewinds_everything() {
    let mut story = Story::new(session(64), vec![1, 2], 4);
    story.catch_up(32).unwrap();
    let rewound = story.resync(vec![3, 4]);
    assert_eq!(rewound, 2);
    assert_eq!(story.n_past(), 0);
}

#[test]
fn reject_last_removes_the_generated_block() {
    let mut story = Story::new(session(64), vec![1, 2], 8);
    story.catch_up(32).unwrap();
    let before = story.n_past();
    story.begin_run();
    story.gen_token(10).unwrap();
    story.gen_token(11).unwrap();
    story.gen_token(0).unwrap();
    assert_eq!(story.n_past(), before + 2);
    let g = story.reject_last();
    assert_eq!(g, 2);
    assert_eq!(story.n_past(), before);
    assert_eq!(story.story_tokens(), &vec![1, 2]);
    // A second reject has nothing left to drop.
    assert_eq!(story.reject_last(), 0);
    assert_eq!(story.n_past(), before);
}

#[test]
fn interruption_keeps_the_round_committed() {
    let mut story = Story::new(session(64), vec![1], 8);
    story.catch_up(32).unwrap();
    story.begin_run();
    story.gen_token(10).unwrap();
    story.gen_token(11).unwrap();
    story.interrupt_run();
    assert_eq!(story.n_past(), 3);
    assert_eq!(story.story_tokens(), &vec![1, 10, 11]);
    // The interrupted block counts as the last generation for reject.
    assert_eq!(story.reject_last(), 2);
    assert_eq!(story.n_past(), 1);
}

#[test]
fn more_extends_the_budget() {
    let mut story = Story::new(session(64), vec![1, 2], 1);
    story.catch_up(32).unwrap();
    story.begin_run();
    assert_eq!(story.gen_token(10).unwrap(), StoryStep::FinishedBudget);
    story.more(2);
    story.catch_up(32).unwrap();
    story.begin_run();
    assert_eq!(story.gen_token(11).unwrap(), StoryStep::Emit);
    assert_eq!(story.gen_token(12).unwrap(), StoryStep::FinishedBudget);
}
