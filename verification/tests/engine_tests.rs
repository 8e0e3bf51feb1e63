use std::rc::Rc;

use emoji_searcher::{EmojiDb, EmojiSearcher};
use memebox::cube::draw;
use memebox::engine::{
    EngineError, EngineState, KeyResponse, MemeboxEngine, RenderPlan, TableAction, CONTROL_MASK,
    KEY_BACKSPACE, KEY_DOWN, KEY_ESCAPE, KEY_RETURN, KEY_TAB, KEY_UP, RELEASE_MASK, SHIFT_MASK,
};

fn engine() -> MemeboxEngine {
    MemeboxEngine::new(EmojiDb::new())
}

/// What the emoji search of the database finds for `query`: the emoji and
/// their labels, the first eight.
fn expected_hits(query: &str) -> Vec<(String, String)> {
    let searcher = EmojiSearcher::new(Rc::new(EmojiDb::new()));
    searcher
        .search(query.to_string())
        .take(8)
        .map(|r| (r.emoji.clone(), format!("{}: {}", r.emoji, r.matched_tag)))
        .collect()
}

/// Types one character (no modifiers).
fn type_char(engine: &mut MemeboxEngine, c: char) -> Result<TableAction, EngineError> {
    engine.update_engine_state(c as u32, 0, c, 0)
}

fn activate(engine: &mut MemeboxEngine) -> Result<TableAction, EngineError> {
    engine.update_engine_state('E' as u32, SHIFT_MASK | CONTROL_MASK, 'E', 0)
}

fn preedit(engine: &MemeboxEngine) -> Option<String> {
    match engine.engine_state() {
        EngineState::Processing(state) => Some(state.preedit_string().to_string()),
        _ => None,
    }
}

fn candidates(engine: &MemeboxEngine) -> Vec<String> {
    match engine.engine_state() {
        EngineState::Processing(state) => state.candidates().clone(),
        _ => panic!("not processing"),
    }
}

fn selected(engine: &MemeboxEngine) -> Option<String> {
    match engine.engine_state() {
        EngineState::Selected(text) => Some(text.clone()),
        _ => None,
    }
}

fn is_ignored(engine: &MemeboxEngine) -> bool {
    matches!(engine.engine_state(), EngineState::Ignored)
}

#[test]
fn new_engine_ignores_keys() {
    let mut engine = engine();
    assert!(is_ignored(&engine));
    assert!(matches!(engine.render(), RenderPlan::Hide));
    assert_eq!(type_char(&mut engine, 'a'), Ok(TableAction::Keep));
    assert!(is_ignored(&engine));
}

#[test]
fn control_shift_e_activates() {
    let mut engine = engine();
    assert_eq!(activate(&mut engine), Ok(TableAction::Create));
    assert_eq!(preedit(&engine), Some(String::new()));
    assert!(candidates(&engine).is_empty());
    match engine.render() {
        RenderPlan::Show { preedit, table_visible } => {
            assert_eq!(preedit, "");
            assert!(!table_visible);
        }
        _ => panic!("expected the text being typed to be shown"),
    }
}

#[test]
fn e_without_both_modifiers_does_not_activate() {
    let mut engine = engine();
    let r = engine.update_engine_state('E' as u32, SHIFT_MASK, 'E', 0);
    assert_eq!(r, Ok(TableAction::Keep));
    assert!(is_ignored(&engine));
    let r = engine.update_engine_state('e' as u32, SHIFT_MASK | CONTROL_MASK, 'e', 0);
    assert_eq!(r, Ok(TableAction::Keep));
    assert!(is_ignored(&engine));
}

#[test]
fn typing_offers_emoji_randomized_text_and_cube() {
    let mut engine = engine();
    activate(&mut engine).unwrap();
    assert_eq!(type_char(&mut engine, 's'), Ok(TableAction::Refill));
    assert_eq!(type_char(&mut engine, 'm'), Ok(TableAction::Refill));
    assert_eq!(preedit(&engine), Some("sm".to_string()));
    let hits = expected_hits("sm");
    assert!(!hits.is_empty());
    let c = candidates(&engine);
    assert_eq!(c.len(), hits.len() + 2);
    for (i, (_, label)) in hits.iter().enumerate() {
        assert_eq!(&c[i], label);
    }
    // Two characters: no case is swapped.
    assert_eq!(c[hits.len()], "sm");
    assert_eq!(c[hits.len() + 1], "🔲");
    match engine.render() {
        RenderPlan::Show { preedit, table_visible } => {
            assert_eq!(preedit, "sm");
            assert!(table_visible);
        }
        _ => panic!("expected the text being typed to be shown"),
    }
}

#[test]
fn candidates_follow_the_text_typed() {
    let mut engine = engine();
    activate(&mut engine).unwrap();
    type_char(&mut engine, 'c').unwrap();
    type_char(&mut engine, 'a').unwrap();
    type_char(&mut engine, 't').unwrap();
    engine.update_engine_state(KEY_BACKSPACE, 0, '\u{8}', 0).unwrap();
    assert_eq!(preedit(&engine), Some("ca".to_string()));
    let hits = expected_hits("ca");
    let c = candidates(&engine);
    assert_eq!(c.len(), hits.len() + 2);
    for (i, (_, label)) in hits.iter().enumerate() {
        assert_eq!(&c[i], label);
    }
}

#[test]
fn matching_tags_contain_the_text_typed() {
    let mut engine = engine();
    activate(&mut engine).unwrap();
    for ch in "heart".chars() {
        type_char(&mut engine, ch).unwrap();
    }
    let c = candidates(&engine);
    assert!(c.len() > 2);
    for label in &c[..c.len() - 2] {
        let tag = label.split(": ").nth(1).unwrap();
        assert!(tag.contains("heart"), "{}", label);
    }
}

#[test]
fn at_most_eight_emoji_are_offered() {
    let mut engine = engine();
    activate(&mut engine).unwrap();
    type_char(&mut engine, 'a').unwrap();
    let c = candidates(&engine);
    assert_eq!(c.len(), 10);
    assert_eq!(c[9], "🔲");
}

#[test]
fn return_commits_emoji_alone() {
    let mut engine = engine();
    activate(&mut engine).unwrap();
    type_char(&mut engine, 's').unwrap();
    let hits = expected_hits("s");
    let r = engine.process_key_event(KEY_RETURN, 0, 0, '\r', 1);
    assert_eq!(r, Ok(KeyResponse { handled: true, table: TableAction::Keep }));
    assert_eq!(selected(&engine), Some(hits[1].0.clone()));
    match engine.render() {
        RenderPlan::Commit(text) => assert_eq!(text, hits[1].0),
        _ => panic!("expected a commit"),
    }
    // The next event forgets the committed text.
    let r = engine.process_key_event('a' as u32, 0, 0, 'a', 0);
    assert_eq!(r, Ok(KeyResponse { handled: false, table: TableAction::Keep }));
    assert!(is_ignored(&engine));
}

#[test]
fn tab_commits_randomized_text() {
    let mut engine = engine();
    activate(&mut engine).unwrap();
    type_char(&mut engine, 'o').unwrap();
    type_char(&mut engine, 'k').unwrap();
    let index = candidates(&engine).len() as u32 - 2;
    engine.update_engine_state(KEY_TAB, 0, '\t', index).unwrap();
    assert_eq!(selected(&engine), Some("ok".to_string()));
}

#[test]
fn cube_candidate_commits_picture() {
    let mut engine = engine();
    activate(&mut engine).unwrap();
    for c in "meme".chars() {
        type_char(&mut engine, c).unwrap();
    }
    let last = candidates(&engine).len() as u32 - 1;
    engine.update_engine_state(KEY_RETURN, 0, '\r', last).unwrap();
    assert_eq!(selected(&engine), Some(draw("meme")));
}

#[test]
fn return_on_empty_table_fails() {
    let mut engine = engine();
    activate(&mut engine).unwrap();
    let r = engine.update_engine_state(KEY_RETURN, 0, '\r', 0);
    assert_eq!(r, Err(EngineError::NoCandidate));
    assert_eq!(preedit(&engine), Some(String::new()));
}

#[test]
fn return_beyond_table_fails() {
    let mut engine = engine();
    activate(&mut engine).unwrap();
    type_char(&mut engine, 'a').unwrap();
    let beyond = candidates(&engine).len() as u32;
    let r = engine.update_engine_state(KEY_RETURN, 0, '\r', beyond);
    assert_eq!(r, Err(EngineError::NoCandidate));
    assert_eq!(preedit(&engine), Some("a".to_string()));
}

#[test]
fn typing_what_cannot_be_drawn_fails() {
    let mut engine = engine();
    activate(&mut engine).unwrap();
    type_char(&mut engine, 'a').unwrap();
    assert_eq!(type_char(&mut engine, 'ß'), Err(EngineError::CannotDraw));
    assert_eq!(preedit(&engine), Some("a".to_string()));
}

#[test]
fn escape_cancels() {
    let mut engine = engine();
    activate(&mut engine).unwrap();
    type_char(&mut engine, 'a').unwrap();
    let r = engine.process_key_event(KEY_ESCAPE, 0, 0, '\u{1b}', 0);
    assert_eq!(r, Ok(KeyResponse { handled: false, table: TableAction::Keep }));
    assert!(is_ignored(&engine));
}

#[test]
fn arrows_move_the_table_cursor() {
    let mut engine = engine();
    activate(&mut engine).unwrap();
    type_char(&mut engine, 'a').unwrap();
    assert_eq!(engine.update_engine_state(KEY_UP, 0, '\0', 0), Ok(TableAction::CursorUp));
    assert_eq!(
        engine.update_engine_state(KEY_DOWN, 0, '\0', 0),
        Ok(TableAction::CursorDown)
    );
    assert_eq!(preedit(&engine), Some("a".to_string()));
    assert_eq!(engine.cursor_up(), TableAction::CursorUp);
    assert_eq!(engine.cursor_down(), TableAction::CursorDown);
}

#[test]
fn cursor_events_do_nothing_when_ignoring() {
    let engine = engine();
    assert_eq!(engine.cursor_up(), TableAction::Keep);
    assert_eq!(engine.cursor_down(), TableAction::Keep);
}

#[test]
fn released_keys_change_nothing() {
    let mut engine = engine();
    activate(&mut engine).unwrap();
    type_char(&mut engine, 'a').unwrap();
    let before = candidates(&engine);
    let r = engine.update_engine_state('b' as u32, RELEASE_MASK, 'b', 0);
    assert_eq!(r, Ok(TableAction::Keep));
    assert_eq!(preedit(&engine), Some("a".to_string()));
    assert_eq!(candidates(&engine), before);
    let r = engine.update_engine_state(KEY_ESCAPE, RELEASE_MASK, '\u{1b}', 0);
    assert_eq!(r, Ok(TableAction::Keep));
    assert_eq!(preedit(&engine), Some("a".to_string()));
}

#[test]
fn keys_with_control_leave_text_alone() {
    let mut engine = engine();
    activate(&mut engine).unwrap();
    type_char(&mut engine, 'a').unwrap();
    let r = engine.update_engine_state('c' as u32, CONTROL_MASK, 'c', 0);
    assert_eq!(r, Ok(TableAction::Keep));
    let r = engine.update_engine_state(0xffe1, 0, '\0', 0);
    assert_eq!(r, Ok(TableAction::Keep));
    assert_eq!(preedit(&engine), Some("a".to_string()));
}

#[test]
fn backspace_on_empty_text_keeps_it_empty() {
    let mut engine = engine();
    activate(&mut engine).unwrap();
    let r = engine.update_engine_state(KEY_BACKSPACE, 0, '\u{8}', 0);
    assert_eq!(r, Ok(TableAction::Refill));
    assert_eq!(preedit(&engine), Some(String::new()));
    let mut expected: Vec<String> = expected_hits("").into_iter().map(|(_, label)| label).collect();
    expected.push(String::new());
    expected.push("🔲".to_string());
    assert_eq!(candidates(&engine), expected);
}

#[test]
fn clicking_a_candidate_writes_its_text() {
    let mut engine = engine();
    activate(&mut engine).unwrap();
    type_char(&mut engine, 's').unwrap();
    let hits = expected_hits("s");
    assert_eq!(engine.candidate_clicked(0, 1, 0), Ok(()));
    assert_eq!(selected(&engine), Some(hits[0].0.clone()));
}

#[test]
fn clicking_the_cube_writes_the_picture() {
    let mut engine = engine();
    activate(&mut engine).unwrap();
    for c in "meme".chars() {
        type_char(&mut engine, c).unwrap();
    }
    let last = candidates(&engine).len() as u32 - 1;
    assert_eq!(engine.candidate_clicked(last, 1, 0), Ok(()));
    assert_eq!(selected(&engine), Some(draw("meme")));
}

#[test]
fn clicking_the_randomized_text_writes_it() {
    let mut engine = engine();
    activate(&mut engine).unwrap();
    type_char(&mut engine, 'o').unwrap();
    type_char(&mut engine, 'k').unwrap();
    let index = candidates(&engine).len() as u32 - 2;
    assert_eq!(engine.candidate_clicked(index, 1, 0), Ok(()));
    assert_eq!(selected(&engine), Some("ok".to_string()));
}

#[test]
fn clicking_beyond_the_table_fails() {
    let mut engine = engine();
    activate(&mut engine).unwrap();
    assert_eq!(engine.candidate_clicked(0, 1, 0), Err(EngineError::NoCandidate));
    assert_eq!(preedit(&engine), Some(String::new()));
}

#[test]
fn clicking_while_ignoring_does_nothing() {
    let mut engine = engine();
    assert_eq!(engine.candidate_clicked(3, 1, 0), Ok(()));
    assert!(is_ignored(&engine));
}

#[test]
fn focus_changes_and_reset_cancel() {
    let mut engine = engine();
    activate(&mut engine).unwrap();
    engine.focus_in();
    assert!(is_ignored(&engine));
    activate(&mut engine).unwrap();
    engine.focus_out();
    assert!(is_ignored(&engine));
    activate(&mut engine).unwrap();
    engine.reset();
    assert!(is_ignored(&engine));
}

#[test]
fn processing_keys_are_handled() {
    let mut engine = engine();
    let r = engine.process_key_event('E' as u32, 0, SHIFT_MASK | CONTROL_MASK, 'E', 0);
    assert_eq!(r, Ok(KeyResponse { handled: true, table: TableAction::Create }));
    let r = engine.process_key_event('x' as u32, 0, 0, 'x', 0);
    assert_eq!(r, Ok(KeyResponse { handled: true, table: TableAction::Refill }));
}

#[test]
fn selecting_via_select() {
    let mut engine = engine();
    activate(&mut engine).unwrap();
    type_char(&mut engine, 's').unwrap();
    let hits = expected_hits("s");
    let k = hits.len() as u32;
    match engine.engine_state() {
        EngineState::Processing(state) => {
            assert_eq!(state.select(0), Some(hits[0].0.clone()));
            assert_eq!(state.select(k), Some("s".to_string()));
            assert_eq!(state.select(k + 1), Some(draw("s")));
            assert_eq!(state.select(k + 2), None);
        }
        _ => panic!("not processing"),
    }
}
