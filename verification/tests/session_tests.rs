//! Tokens, lock brokering, and change notifications.

use ime_core::document::DocumentBuffer;
use ime_core::handler::TextInputHandler;
use ime_core::session::ChangeKind;
use ime_core::session::SessionCoordinator;
use ime_core::simulate::KbKey;
use ime_core::simulate::KeyEvent;
use ime_core::simulate::Modifiers;
use ime_core::simulate::WinHandler;
use ime_core::simulate::commit_unclaimed_key;
use ime_core::simulate::simulate_text_input;
use ime_core::token::TextInputToken;
use ime_core::token::TokenCounter;

#[test]
fn token_raw_round_trip() {
    let t = TextInputToken::from_raw(42);
    assert_eq!(t.into_raw(), 42);
    assert_eq!(TextInputToken::invalid().into_raw(), 0);
    assert_eq!(TextInputToken::from_raw(0), TextInputToken::invalid());
}

#[test]
fn tokens_are_fresh_and_increasing() {
    let mut counter = TokenCounter::new();
    let a = TextInputToken::next(&mut counter);
    let b = TextInputToken::next(&mut counter);
    let c = TextInputToken::next(&mut counter);
    assert_eq!(a.into_raw(), 1);
    assert_eq!(b.into_raw(), 2);
    assert_eq!(c.into_raw(), 3);
    assert_ne!(a, b);
    assert_ne!(a, TextInputToken::invalid());
}

#[test]
fn registered_tokens_are_distinct() {
    let mut session = SessionCoordinator::new();
    let a = session.register();
    let b = session.register();
    assert_ne!(a, b);
    assert_ne!(a.into_raw(), 0);
    assert_ne!(b.into_raw(), 0);
}

#[test]
fn mutable_lock_excludes_second_mutable_lock() {
    // the single-writer rule: a mutable acquisition while a mutable lock is
    // outstanding returns absent at once — it never blocks
    let mut session = SessionCoordinator::new();
    let token = session.register();
    let guard = session.acquire(token, true).unwrap();
    assert!(session.acquire(token, true).is_none());
    // read-only locks are refused too while a writer holds the field
    assert!(session.acquire(token, false).is_none());
    session.release(guard);
    // once released, acquisition works again
    let guard = session.acquire(token, true).unwrap();
    session.release(guard);
}

#[test]
fn read_locks_are_concurrent_but_exclude_writers() {
    let mut session = SessionCoordinator::new();
    let token = session.register();
    let r1 = session.acquire(token, false).unwrap();
    let r2 = session.acquire(token, false).unwrap();
    assert!(session.acquire(token, true).is_none());
    session.release(r1);
    assert!(session.acquire(token, true).is_none());
    session.release(r2);
    let w = session.acquire(token, true).unwrap();
    session.release(w);
}

#[test]
fn locks_are_per_token() {
    let mut session = SessionCoordinator::new();
    let a = session.register();
    let b = session.register();
    let ga = session.acquire(a, true).unwrap();
    // a writer on one field does not lock the other
    let gb = session.acquire(b, true).unwrap();
    session.release(ga);
    session.release(gb);
}

#[test]
fn unknown_and_unregistered_tokens_get_no_lock() {
    let mut session = SessionCoordinator::new();
    let token = session.register();
    assert!(session.acquire(TextInputToken::invalid(), true).is_none());
    assert!(session.acquire(TextInputToken::from_raw(77), false).is_none());
    assert!(session.unregister(token));
    assert!(session.acquire(token, true).is_none());
    // unregistering twice: the second time there is nothing to remove
    assert!(!session.unregister(token));
}

#[test]
fn unregistered_tokens_are_never_reused() {
    let mut session = SessionCoordinator::new();
    let a = session.register();
    session.unregister(a);
    let b = session.register();
    assert_ne!(a, b);
    assert!(b.into_raw() > a.into_raw());
}

#[test]
fn active_field_is_remembered() {
    let mut session = SessionCoordinator::new();
    assert_eq!(session.active_field(), TextInputToken::invalid());
    let token = session.register();
    session.set_active_field(token);
    assert_eq!(session.active_field(), token);
}

#[test]
fn notifications_queue_for_live_fields_only() {
    let mut session = SessionCoordinator::new();
    let token = session.register();
    assert!(session.notify_change(token, ChangeKind::SelectionChanged));
    assert!(session.notify_change(token, ChangeKind::TextChanged));
    assert!(!session.notify_change(TextInputToken::from_raw(99), ChangeKind::TextChanged));
    let pending = session.take_pending();
    assert_eq!(pending.len(), 2);
    assert_eq!(pending[0].token, token);
    assert_eq!(pending[0].kind, ChangeKind::SelectionChanged);
    assert_eq!(pending[1].kind, ChangeKind::TextChanged);
    assert_eq!(session.take_pending().len(), 0);
}

/// A window that claims nothing.
struct PassiveWindow;

impl WinHandler for PassiveWindow {
    fn key_down(&mut self, _event: &KeyEvent) -> bool {
        false
    }
}

/// A window that claims every key.
struct GreedyWindow;

impl WinHandler for GreedyWindow {
    fn key_down(&mut self, _event: &KeyEvent) -> bool {
        true
    }
}

fn char_event(c: &str) -> KeyEvent {
    KeyEvent { key: KbKey::Character(c.to_string()), mods: Modifiers::none() }
}

#[test]
fn simulate_types_over_the_selection() {
    let mut session = SessionCoordinator::new();
    let token = session.register();
    let mut d = DocumentBuffer::new();
    d.replace_range(0..0, "abc");
    d.set_selected_range(1..2);
    let mut window = PassiveWindow;
    let consumed = simulate_text_input(
        &mut window,
        Some(token),
        char_event("x"),
        &mut session,
        &mut d,
    );
    assert!(consumed);
    assert_eq!(d.slice(0..3), b"axc".to_vec());
}

#[test]
fn simulate_lets_the_window_claim_the_key() {
    let mut session = SessionCoordinator::new();
    let token = session.register();
    let mut d = DocumentBuffer::new();
    d.replace_range(0..0, "abc");
    d.set_selected_range(1..2);
    let mut window = GreedyWindow;
    let consumed = simulate_text_input(
        &mut window,
        Some(token),
        char_event("x"),
        &mut session,
        &mut d,
    );
    assert!(consumed);
    assert_eq!(d.slice(0..3), b"abc".to_vec());
}

#[test]
fn simulate_ignores_modified_and_special_keys() {
    let mut session = SessionCoordinator::new();
    let token = session.register();
    let mut d = DocumentBuffer::new();
    d.replace_range(0..0, "abc");
    d.set_selected_range(1..2);
    let mut window = PassiveWindow;
    let mut event = char_event("x");
    event.mods.ctrl = true;
    assert!(!simulate_text_input(&mut window, Some(token), event, &mut session, &mut d));
    let event = KeyEvent { key: KbKey::Backspace, mods: Modifiers::none() };
    assert!(!simulate_text_input(&mut window, Some(token), event, &mut session, &mut d));
    assert!(!simulate_text_input(&mut window, None, char_event("x"), &mut session, &mut d));
    assert_eq!(d.slice(0..3), b"abc".to_vec());
}

#[test]
fn commit_consumes_exactly_the_qualifying_keys() {
    let mut session = SessionCoordinator::new();
    let token = session.register();
    let mut d = DocumentBuffer::new();
    d.replace_range(0..0, "abc");
    d.set_selected_range(1..2);
    // a claimed event is consumed with the document untouched
    assert!(commit_unclaimed_key(true, Some(token), char_event("x"), &mut session, &mut d));
    assert_eq!(d.slice(0..3), b"abc".to_vec());
    // an unclaimed qualifying event types the character
    assert!(commit_unclaimed_key(false, Some(token), char_event("x"), &mut session, &mut d));
    assert_eq!(d.slice(0..3), b"axc".to_vec());
    // unclaimed and not qualifying: reported unconsumed, nothing changes
    assert!(!commit_unclaimed_key(false, None, char_event("y"), &mut session, &mut d));
    let held = session.acquire(token, true).unwrap();
    assert!(!commit_unclaimed_key(false, Some(token), char_event("y"), &mut session, &mut d));
    session.release(held);
    assert_eq!(d.slice(0..3), b"axc".to_vec());
}

#[test]
fn simulate_respects_an_outstanding_writer() {
    let mut session = SessionCoordinator::new();
    let token = session.register();
    let mut d = DocumentBuffer::new();
    d.replace_range(0..0, "abc");
    d.set_selected_range(1..2);
    let guard = session.acquire(token, true).unwrap();
    let mut window = PassiveWindow;
    let consumed = simulate_text_input(
        &mut window,
        Some(token),
        char_event("x"),
        &mut session,
        &mut d,
    );
    assert!(!consumed);
    assert_eq!(d.slice(0..3), b"abc".to_vec());
    session.release(guard);
}
