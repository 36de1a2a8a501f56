use mptgen::minmpt::{MinMPT, MinMPTError, MinMPTOptions, ModelInfo};

fn fresh(n_ctx: usize, n_vocab: usize) -> MinMPT {
    MinMPT::load_model(ModelInfo { n_ctx, n_vocab }, None).unwrap()
}

#[test]
fn from_code_maps_each_status() {
    assert!(matches!(MinMPTError::from_code(1), MinMPTError::Failure));
    assert!(matches!(MinMPTError::from_code(2), MinMPTError::InvalidInput));
    assert!(matches!(MinMPTError::from_code(3), MinMPTError::ContextLimit));
    assert!(matches!(MinMPTError::from_code(0), MinMPTError::Unknown));
    assert!(matches!(MinMPTError::from_code(99), MinMPTError::Unknown));
    assert!(matches!(MinMPTError::from_code(-1), MinMPTError::Unknown));
}

#[test]
fn error_messages() {
    assert_eq!(MinMPTError::ContextLimit.message(), "Exceeded model context size");
    assert_eq!(MinMPTError::InvalidInput.message(), "Invalid input");
    assert_eq!(MinMPTError::Failure.message(), "Internal failure");
    assert_eq!(MinMPTError::Unknown.message(), "Unknown error");
}

#[test]
fn options_builders_chain() {
    let o = MinMPTOptions::default();
    assert!(o.n_ctx_override.is_none());
    assert!(o.n_threads.is_none());
    let o = o.override_n_ctx(2048).n_threads(8);
    assert_eq!(o.n_ctx_override, Some(2048));
    assert_eq!(o.n_threads, Some(8));
}

#[test]
fn load_model_applies_overrides() {
    let info = ModelInfo { n_ctx: 512, n_vocab: 100 };
    let m = MinMPT::load_model(info, None).unwrap();
    assert_eq!(m.n_ctx(), 512);
    assert_eq!(m.n_vocab(), 100);
    assert_eq!(m.n_past(), 0);

    let opts = MinMPTOptions::default().override_n_ctx(128);
    let m = MinMPT::load_model(info, Some(opts)).unwrap();
    assert_eq!(m.n_ctx(), 128);

    // An override of 0 is the engine's convention for "no override".
    let opts = MinMPTOptions::default().override_n_ctx(0);
    let m = MinMPT::load_model(info, Some(opts)).unwrap();
    assert_eq!(m.n_ctx(), 512);
}

#[test]
fn eval_advances_and_checks_input() {
    let mut m = fresh(8, 10);
    assert!(m.eval(&vec![1, 2, 3]).is_ok());
    assert_eq!(m.n_past(), 3);
    assert!(matches!(m.eval(&vec![]), Err(MinMPTError::InvalidInput)));
    assert_eq!(m.n_past(), 3);
    assert!(matches!(m.eval(&vec![4, 5, 6, 7, 8, 9]), Err(MinMPTError::ContextLimit)));
    assert_eq!(m.n_past(), 3);
    assert!(m.eval(&vec![4, 5, 6, 7, 8]).is_ok());
    assert_eq!(m.n_past(), 8);
}

#[test]
fn rewind_inverts_eval_sequences() {
    let mut m = fresh(64, 10);
    m.eval(&vec![1, 2]).unwrap();
    let before = m.n_past();
    m.eval(&vec![3, 4, 5]).unwrap();
    m.eval(&vec![6]).unwrap();
    m.rewind(4).unwrap();
    assert_eq!(m.n_past(), before);
}

#[test]
fn rewind_zero_is_noop() {
    let mut m = fresh(64, 10);
    m.eval(&vec![1, 2, 3]).unwrap();
    m.rewind(0).unwrap();
    assert_eq!(m.n_past(), 3);
}

#[test]
fn rewind_past_zero_is_rejected() {
    let mut m = fresh(64, 10);
    m.eval(&vec![1, 2, 3]).unwrap();
    assert!(matches!(m.rewind(4), Err(MinMPTError::InvalidInput)));
    assert_eq!(m.n_past(), 3);
    m.rewind(3).unwrap();
    assert_eq!(m.n_past(), 0);
}

#[test]
fn rewound_room_can_be_reevaluated() {
    let mut m = fresh(4, 10);
    m.eval(&vec![1, 2, 3, 4]).unwrap();
    assert!(matches!(m.eval(&vec![5]), Err(MinMPTError::ContextLimit)));
    m.rewind(2).unwrap();
    assert!(m.eval(&vec![5, 6]).is_ok());
    assert_eq!(m.n_past(), 4);
}

#[test]
fn reset_clears_context() {
    let mut m = fresh(64, 10);
    m.eval(&vec![1, 2, 3]).unwrap();
    m.reset_ctx();
    assert_eq!(m.n_past(), 0);
    assert_eq!(m.n_ctx(), 64);
}

#[test]
fn fork_is_independent_of_parent() {
    let mut parent = fresh(64, 10);
    parent.eval(&vec![1, 2]).unwrap();
    let mut child = parent.fork();
    assert_eq!(child.n_past(), 2);

    parent.eval(&vec![3, 4, 5]).unwrap();
    child.eval(&vec![7]).unwrap();
    assert_eq!(parent.n_past(), 5);
    assert_eq!(child.n_past(), 3);

    child.rewind(3).unwrap();
    assert_eq!(parent.n_past(), 5);
    assert_eq!(child.n_past(), 0);

    child.eval(&vec![8, 9]).unwrap();
    parent.reset_ctx();
    assert_eq!(child.n_past(), 2);
    assert_eq!(parent.n_past(), 0);

    parent.eval(&vec![1]).unwrap();
    child.reset_ctx();
    assert_eq!(parent.n_past(), 1);
}

#[test]
fn set_n_threads_keeps_context() {
    let mut m = fresh(64, 10);
    m.eval(&vec![1]).unwrap();
    m.set_n_threads(4);
    assert_eq!(m.n_past(), 1);
}
