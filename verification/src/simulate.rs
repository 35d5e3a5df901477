//! Turning plain key presses into text input when nothing else claims them.
//!
//! A window first offers each key event to its own handler; only an
//! unclaimed, unmodified character key becomes text, typed over the current
//! selection of the focused field — under a mutable edit lock, like any
//! other write.

use vstd::prelude::*;
use vstd::utf8::encode_utf8;

use crate::handler::DocModel;
use crate::handler::MAX_DOC_LEN;
use crate::handler::TextInputHandler;
use crate::handler::doc_wf;
use crate::handler::spliced;
use crate::session::SessionCoordinator;
use crate::token::TextInputToken;

verus! {

/// Modifier keys held during a key event.
#[derive(Clone, Copy, PartialEq, Eq, Structural, Debug)]
pub struct Modifiers {
    pub ctrl: bool,
    pub alt: bool,
    pub meta: bool,
    pub shift: bool,
}

impl Modifiers {
    pub fn none() -> (m: Modifiers)
        ensures
            m == (Modifiers { ctrl: false, alt: false, meta: false, shift: false }),
    {
        Modifiers { ctrl: false, alt: false, meta: false, shift: false }
    }

    pub fn ctrl(&self) -> (r: bool)
        ensures
            r == self.ctrl,
    {
        self.ctrl
    }

    pub fn alt(&self) -> (r: bool)
        ensures
            r == self.alt,
    {
        self.alt
    }

    pub fn meta(&self) -> (r: bool)
        ensures
            r == self.meta,
    {
        self.meta
    }

    pub fn shift(&self) -> (r: bool)
        ensures
            r == self.shift,
    {
        self.shift
    }
}

/// The key of a key event: a character-producing key carries the text it
/// produces; everything else is a named or unidentified key.
#[derive(Clone, PartialEq, Eq, Debug)]
pub enum KbKey {
    Character(String),
    Enter,
    Tab,
    Backspace,
    Escape,
    Unidentified,
}

/// A key event as the window sees it.
#[derive(Clone, PartialEq, Eq, Debug)]
pub struct KeyEvent {
    pub key: KbKey,
    pub mods: Modifiers,
}

/// The window's own key handling: the chance to claim a key event before it
/// becomes text input.
pub trait WinHandler {
    /// Handle a key press; returning true claims the event, and no text is
    /// inserted for it.
    fn key_down(&mut self, event: &KeyEvent) -> bool;
}

/// The condition under which an unclaimed key event becomes text input: the
/// modifiers are clear, the key is a character key, a token names a field,
/// and a mutable edit lock for that field is grantable.
pub open spec fn text_input_applies(
    s: SessionCoordinator,
    token: Option<TextInputToken>,
    event: KeyEvent,
) -> bool {
    &&& !event.mods.ctrl && !event.mods.meta && !event.mods.alt
    &&& event.key matches KbKey::Character(_)
    &&& (token matches Some(t) && s.spec_can_acquire(t.spec_raw(), true))
}

/// The document model after typing the event's character over the current
/// selection: the character's code units replace the selected span, and the
/// stored selection and composition are left for the caller to recompute, as
/// after any raw `replace_range`.
pub open spec fn typed_model(m: DocModel, event: KeyEvent) -> DocModel {
    match event.key {
        KbKey::Character(c) => DocModel {
            text: spliced(m.text, m.sel_start, m.sel_end, encode_utf8(c@)),
            ..m
        },
        _ => m,
    }
}

/// The decision half of text-input simulation, given the window handler's
/// answer to the key event. A claimed event (`claimed` true) is consumed
/// with the field untouched. An unclaimed event is consumed exactly when
/// [`text_input_applies`] holds — and exactly then the character's code
/// units replace the current selection, under a mutable edit lock that is
/// released before returning; on every other input nothing changes and the
/// event is reported unconsumed.
pub fn commit_unclaimed_key<H: TextInputHandler>(
    claimed: bool,
    token: Option<TextInputToken>,
    event: KeyEvent,
    session: &mut SessionCoordinator,
    field: &mut H,
) -> (consumed: bool)
    requires
        doc_wf(old(field).model()),
        (match event.key {
            KbKey::Character(c) => old(field).model().text.len() + encode_utf8(c@).len()
                <= MAX_DOC_LEN,
            _ => true,
        }),
    ensures
        crate::adapter::session_preserved(*old(session), *final(session)),
        consumed == (claimed || text_input_applies(*old(session), token, event)),
        (claimed || !text_input_applies(*old(session), token, event)) ==> *final(field) == *old(
            field,
        ),
        (!claimed && text_input_applies(*old(session), token, event)) ==> final(field).model()
            == typed_model(old(field).model(), event),
{
    if claimed {
        return true;
    }
    if event.mods.ctrl() || event.mods.meta() || event.mods.alt() {
        return false;
    }
    let c = match event.key {
        KbKey::Character(c) => c,
        _ => {
            return false;
        },
    };
    let token = match token {
        Some(v) => v,
        None => {
            return false;
        },
    };
    let guard = match session.acquire(token, true) {
        Some(g) => g,
        None => {
            return false;
        },
    };
    let selection = field.selected_range();
    field.replace_range(selection, c.as_str());
    session.release(guard);
    true
}

/// Simulate OS text input from a plain key event: offer the event to the
/// window's handler first; if unclaimed, and it is an unmodified character
/// key and `token` names a field, acquire a mutable edit lock and type the
/// character over the current selection. Everything after the window's own
/// key handling is fixed, for each answer it can give, by
/// [`commit_unclaimed_key`]'s contract; this function's own contract states
/// what holds whichever answer came back.
pub fn simulate_text_input<W: WinHandler, H: TextInputHandler>(
    handler: &mut W,
    token: Option<TextInputToken>,
    event: KeyEvent,
    session: &mut SessionCoordinator,
    field: &mut H,
) -> (consumed: bool)
    requires
        doc_wf(old(field).model()),
        (match event.key {
            KbKey::Character(c) => old(field).model().text.len() + encode_utf8(c@).len()
                <= MAX_DOC_LEN,
            _ => true,
        }),
    ensures
        crate::adapter::session_preserved(*old(session), *final(session)),
        // a key that qualifies as text input is always consumed: by the
        // window's handler or by being typed
        text_input_applies(*old(session), token, event) ==> consumed,
        // anything else changes nothing, whether or not the window's handler
        // claimed it; in particular an unconsumed event left no trace
        !text_input_applies(*old(session), token, event) ==> *final(field) == *old(field),
        !consumed ==> *final(field) == *old(field),
        // a consumed event either went to the window's handler (field
        // untouched) or typed the character over the selection
        consumed ==> *final(field) == *old(field) || (text_input_applies(
            *old(session),
            token,
            event,
        ) && final(field).model() == typed_model(old(field).model(), event)),
{
    let claimed = handler.key_down(&event);
    commit_unclaimed_key(claimed, token, event, session, field)
}

} // verus!
