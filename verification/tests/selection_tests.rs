use ai_translate::selection::{
    copy_step, selection_source, CopyAction, CopyEvent, CopyState, SelectionError, COPY_ATTEMPTS,
    READS_PER_ATTEMPT,
};
use ai_translate::shortcut::{shortcut_dispatch, ShortcutAction};

const SENTINEL: &str = "__AI_TRANSLATE_COPY_SENTINEL_7__";

/// Runs the copy sequence, answering reads from `reads` in order (empty text
/// once they run out), and returns the actions it asked for.
fn run(previous: &str, reads: &[&str]) -> Vec<CopyAction> {
    let mut state = CopyState::new(SENTINEL.to_string(), previous.to_string());
    let mut event = CopyEvent::Started;
    let mut next_read = 0;
    let mut actions = Vec::new();
    for _ in 0..1000 {
        let (next, action) = copy_step(&state, event);
        state = next;
        event = match &action {
            CopyAction::ReadClipboard => {
                let text = reads.get(next_read).copied().unwrap_or("");
                next_read += 1;
                CopyEvent::Read(text.to_string())
            }
            _ => CopyEvent::Waited,
        };
        let done = matches!(action, CopyAction::Finish(_));
        actions.push(action);
        if done {
            return actions;
        }
    }
    panic!("the copy sequence did not finish");
}

fn reads_made(actions: &[CopyAction]) -> usize {
    actions.iter().filter(|a| **a == CopyAction::ReadClipboard).count()
}

#[test]
fn copy_sequence_starts_by_releasing_keys_and_copying() {
    let actions = run("old", &["picked"]);
    assert_eq!(
        actions,
        vec![
            CopyAction::ReleaseKeys,
            CopyAction::Sleep(120),
            CopyAction::WriteSentinel,
            CopyAction::Sleep(35),
            CopyAction::SimulateCopy,
            CopyAction::Sleep(45),
            CopyAction::ReadClipboard,
            CopyAction::Finish("picked".to_string()),
        ]
    );
}

#[test]
fn copy_sequence_skips_blank_and_sentinel_reads() {
    let actions = run("old", &["", "  \n", SENTINEL, "  the text  "]);
    assert_eq!(reads_made(&actions), 4);
    assert_eq!(actions.last(), Some(&CopyAction::Finish("  the text  ".to_string())));
    assert!(!actions.iter().any(|a| matches!(a, CopyAction::Restore(_))));
}

#[test]
fn copy_sequence_retries_with_longer_waits() {
    let mut reads = vec![SENTINEL; 20];
    reads.push("second attempt");
    let actions = run("old", &reads);
    assert_eq!(reads_made(&actions), 21);
    let waits: Vec<u64> = actions
        .iter()
        .filter_map(|a| match a {
            CopyAction::Sleep(ms) if *ms != 45 => Some(*ms),
            _ => None,
        })
        .collect();
    assert_eq!(waits, vec![120, 35, 120, 75]);
    assert_eq!(actions.last(), Some(&CopyAction::Finish("second attempt".to_string())));
}

#[test]
fn copy_sequence_gives_up_after_three_attempts_and_restores() {
    let actions = run("previous clipboard", &[]);
    assert_eq!(reads_made(&actions), (COPY_ATTEMPTS * READS_PER_ATTEMPT) as usize);
    let n = actions.len();
    assert_eq!(actions[n - 2], CopyAction::Restore("previous clipboard".to_string()));
    assert_eq!(actions[n - 1], CopyAction::Finish(String::new()));
    let copies = actions.iter().filter(|a| **a == CopyAction::SimulateCopy).count();
    assert_eq!(copies, 3);
}

#[test]
fn copy_sequence_takes_a_fresh_read_at_the_last_chance() {
    let mut reads = vec![""; 59];
    reads.push("late");
    let actions = run("old", &reads);
    assert_eq!(reads_made(&actions), 60);
    assert_eq!(actions.last(), Some(&CopyAction::Finish("late".to_string())));
}

#[test]
fn finished_copy_sequence_keeps_its_result() {
    let mut state = CopyState::new(SENTINEL.to_string(), "old".to_string());
    let mut event = CopyEvent::Started;
    loop {
        let (next, action) = copy_step(&state, event);
        state = next;
        if action == CopyAction::ReadClipboard {
            event = CopyEvent::Read("x".to_string());
        } else if let CopyAction::Finish(text) = action {
            assert_eq!(text, "x");
            break;
        } else {
            event = CopyEvent::Waited;
        }
    }
    let (_, again) = copy_step(&state, CopyEvent::Waited);
    assert_eq!(again, CopyAction::Finish("x".to_string()));
}

#[test]
fn selection_source_trims_and_refuses_blank_text() {
    assert_eq!(selection_source("  hello world \n").unwrap(), "hello world");
    assert_eq!(selection_source("").unwrap_err(), SelectionError::EmptySelection);
    assert_eq!(selection_source(" \t\n ").unwrap_err(), SelectionError::EmptySelection);
}

#[test]
fn selection_error_messages() {
    assert_eq!(SelectionError::Debounced.message(), "debounced");
    assert_eq!(SelectionError::EmptySelection.message(), "selected text is empty");
}

#[test]
fn shortcut_dispatch_follows_press_then_selection_then_main() {
    assert_eq!(shortcut_dispatch(false, true, true), None);
    assert_eq!(shortcut_dispatch(true, true, true), Some(ShortcutAction::TranslateSelection));
    assert_eq!(shortcut_dispatch(true, false, true), Some(ShortcutAction::ShowMainWindow));
    assert_eq!(shortcut_dispatch(true, false, false), None);
}
