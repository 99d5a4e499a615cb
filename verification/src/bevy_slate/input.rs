//! Text inputs of the Bevy runtime: which input has the keyboard focus, and
//! how key presses edit the focused input's text.
use vstd::prelude::*;

use bevy::ecs::entity::Entity;
use vstd::string::StrSliceExecFns;
use vstd::string::StringExecFns;
use vstd::utf8::encode_utf8;

verus! {

/// Errors of the input plugin.
#[derive(Debug)]
pub enum InputError {
    Unknown,
}

/// The plugin that registers the text input systems.
#[derive(Default)]
pub struct InputPlugin;

/// Marks an entity as a text input field.
pub struct TextInput;

/// The text entity that has the keyboard focus, if any.
#[derive(Default)]
pub struct FocusedInput(pub Option<Entity>);

/// The interaction state of a UI node.
#[derive(Copy, Clone, Debug, PartialEq, Eq, Structural)]
pub enum Interaction {
    Pressed,
    Hovered,
    /// Nothing is happening to the node (`Interaction::None` in Bevy).
    Idle,
}

/// A changed interaction of a text input: its new state, and the first
/// child (the text entity) of the input's button, if the input is a button
/// that has children.
#[derive(Copy, Clone, Debug)]
pub struct FocusChange {
    pub interaction: Interaction,
    pub text_entity: Option<Entity>,
}

/// The focus after a sequence of interaction changes: each pressed input
/// with a text entity takes the focus; nothing else changes it.
pub open spec fn focus_after(focus: Option<Entity>, changes: Seq<FocusChange>) -> Option<Entity>
    decreases changes.len(),
{
    if changes.len() == 0 {
        focus
    } else {
        let prev = focus_after(focus, changes.drop_last());
        let last = changes.last();
        if last.interaction == Interaction::Pressed && last.text_entity is Some {
            last.text_entity
        } else {
            prev
        }
    }
}

/// Moves the focus to the text of each text input that was pressed, in
/// order; hovering or releasing an input leaves the focus as it is.
pub fn text_input_focus_system(focused_input: &mut FocusedInput, changes: &Vec<FocusChange>)
    ensures
        final(focused_input).0 == focus_after(old(focused_input).0, changes@),
{
    let ghost start = focused_input.0;
    let mut i: usize = 0;
    while i < changes.len()
        invariant
            i <= changes@.len(),
            focused_input.0 == focus_after(start, changes@.take(i as int)),
        decreases changes@.len() - i,
    {
        let change = changes[i];
        assert(changes@.take(i + 1).drop_last() =~= changes@.take(i as int));
        match change.interaction {
            Interaction::Pressed => {
                if let Some(text_entity) = change.text_entity {
                    focused_input.0 = Some(text_entity);
                }
            },
            Interaction::Hovered => {},
            Interaction::Idle => {},
        }
        i = i + 1;
    }
    assert(changes@.take(changes@.len() as int) =~= changes@);
}

/// Drops the focus when the left mouse button was just pressed and no text
/// input is being pressed.
pub fn text_input_defocus_system(
    left_just_pressed: bool,
    focused_input: &mut FocusedInput,
    interactions: &Vec<Interaction>,
)
    ensures
        final(focused_input).0 == if left_just_pressed && !interactions@.contains(
            Interaction::Pressed,
        ) {
            None
        } else {
            old(focused_input).0
        },
{
    if left_just_pressed {
        let mut any_pressed = false;
        let mut i: usize = 0;
        while i < interactions.len()
            invariant
                i <= interactions@.len(),
                any_pressed == interactions@.take(i as int).contains(Interaction::Pressed),
            decreases interactions@.len() - i,
        {
            proof {
                assert(interactions@.take(i + 1) =~= interactions@.take(i as int).push(
                    interactions@[i as int],
                ));
                assert(interactions@.take(i as int).push(interactions@[i as int]).last()
                    == interactions@[i as int]);
            }
            if interactions[i] == Interaction::Pressed {
                any_pressed = true;
            }
            i = i + 1;
        }
        assert(interactions@.take(interactions@.len() as int) =~= interactions@);
        if !any_pressed {
            focused_input.0 = None;
        }
    }
}

//---
/// The logical key of a keyboard event, as far as text inputs read it.
#[derive(Clone, Debug)]
pub enum TextKey {
    /// A key that produces characters.
    Character(String),
    Space,
    Backspace,
    /// Any other key.
    Other,
}

/// A keyboard event sent to the focused text input.
#[derive(Clone, Debug)]
pub struct TextKeyEvent {
    pub key: TextKey,
    pub pressed: bool,
}

/// The most bytes (exclusive) that a text input holds after typing.
pub const MAX_TEXT_BYTES: usize = 120;

/// The length in bytes of the UTF-8 encoding of `s`.
pub open spec fn byte_len(s: Seq<char>) -> nat {
    encode_utf8(s).len()
}

/// The UTF-8 encoding of a concatenation is the concatenation of the
/// encodings.
pub proof fn lemma_encode_utf8_concat(a: Seq<char>, b: Seq<char>)
    ensures
        encode_utf8(a + b) == encode_utf8(a) + encode_utf8(b),
    decreases a.len(),
{
    if a.len() == 0 {
        assert(a + b =~= b);
        assert(encode_utf8(a) + encode_utf8(b) =~= encode_utf8(b));
    } else {
        assert((a + b)[0] == a[0]);
        assert((a + b).drop_first() =~= a.drop_first() + b);
        lemma_encode_utf8_concat(a.drop_first(), b);
        assert(encode_utf8(a + b) =~= encode_utf8(a) + encode_utf8(b));
    }
}

/// Removing the last character does not lengthen the encoding.
pub proof fn lemma_byte_len_drop_last(s: Seq<char>)
    requires
        s.len() > 0,
    ensures
        byte_len(s.drop_last()) <= byte_len(s),
{
    assert(s =~= s.drop_last() + seq![s.last()]);
    lemma_encode_utf8_concat(s.drop_last(), seq![s.last()]);
}

/// A string's encoding, in bytes, fits in a `usize`.
pub open spec fn fits_usize(s: Seq<char>) -> bool {
    byte_len(s) <= usize::MAX
}

/// The text and every character key of the events fit in memory.
pub open spec fn events_fit(events: Seq<TextKeyEvent>) -> bool {
    forall|i: int|
        0 <= i < events.len() ==> match #[trigger] events[i].key {
            TextKey::Character(s) => fits_usize(s@),
            _ => true,
        }
}

/// The text after one keyboard event: a pressed character key appends its
/// characters and a pressed space appends `' '`, as long as the result
/// stays under the byte limit; a pressed backspace removes the last
/// character of a non-empty text; everything else leaves the text.
pub open spec fn text_after_key(text: Seq<char>, event_key: TextKeyView, pressed: bool) -> Seq<char> {
    let len = byte_len(text);
    match event_key {
        TextKeyView::Character(chars) => {
            if pressed && len + byte_len(chars) < MAX_TEXT_BYTES {
                text + chars
            } else {
                text
            }
        },
        TextKeyView::Space => {
            if pressed && len + 1 < MAX_TEXT_BYTES {
                text.push(' ')
            } else {
                text
            }
        },
        TextKeyView::Backspace => {
            if pressed && len > 0 {
                text.drop_last()
            } else {
                text
            }
        },
        TextKeyView::Other => text,
    }
}

/// The abstract logical key of a keyboard event.
pub enum TextKeyView {
    Character(Seq<char>),
    Space,
    Backspace,
    Other,
}

/// The abstract logical key of a keyboard event.
pub open spec fn key_view(key: TextKey) -> TextKeyView {
    match key {
        TextKey::Character(s) => TextKeyView::Character(s@),
        TextKey::Space => TextKeyView::Space,
        TextKey::Backspace => TextKeyView::Backspace,
        TextKey::Other => TextKeyView::Other,
    }
}

/// The text after a sequence of keyboard events.
pub open spec fn text_after(text: Seq<char>, events: Seq<TextKeyEvent>) -> Seq<char>
    decreases events.len(),
{
    if events.len() == 0 {
        text
    } else {
        let prev = text_after(text, events.drop_last());
        text_after_key(prev, key_view(events.last().key), events.last().pressed)
    }
}

/// `String::pop`: removes the last character of a string and returns it,
/// or returns `None` and leaves the string when it is empty.
#[verifier::external_body]
fn string_pop(s: &mut String) -> (c: Option<char>)
    ensures
        old(s)@.len() == 0 ==> c is None && final(s)@ == old(s)@,
        old(s)@.len() > 0 ==> c == Some(old(s)@.last()) && final(s)@ == old(s)@.drop_last(),
{
    s.pop()
}

/// Applies the keyboard events, in order, to the text of the focused text
/// input.
pub fn text_input_capture_system(value: &mut String, events: &Vec<TextKeyEvent>)
    requires
        fits_usize(old(value)@),
        events_fit(events@),
    ensures
        final(value)@ == text_after(old(value)@, events@),
{
    let ghost start = value@;
    let mut i: usize = 0;
    while i < events.len()
        invariant
            i <= events@.len(),
            value@ == text_after(start, events@.take(i as int)),
            fits_usize(value@),
            events_fit(events@),
        decreases events@.len() - i,
    {
        assert(events@.take(i + 1).drop_last() =~= events@.take(i as int));
        assert(events@.take(i + 1).last() == events@[i as int]);
        let event = &events[i];
        let ghost old_value = value@;
        let len: usize = value.as_str().len();
        assert(len == byte_len(value@));
        match &event.key {
            TextKey::Character(character) => {
                assert(fits_usize(character@));
                let added: usize = character.as_str().len();
                if event.pressed && len < MAX_TEXT_BYTES && added < MAX_TEXT_BYTES - len {
                    value.append(character.as_str());
                    proof {
                        lemma_encode_utf8_concat(old_value, character@);
                    }
                }
            },
            TextKey::Space => {
                if event.pressed && len < MAX_TEXT_BYTES - 1 {
                    proof {
                        reveal_strlit(" ");
                    }
                    value.append(" ");
                    assert(" "@ =~= seq![' ']);
                    proof {
                        lemma_encode_utf8_concat(old_value, seq![' ']);
                        assert(encode_utf8(seq![' ']).len() == 1) by {
                            reveal_with_fuel(encode_utf8, 2);
                        }
                    }
                }
            },
            TextKey::Backspace => {
                if event.pressed && len > 0 {
                    proof {
                        if value@.len() == 0 {
                            assert(encode_utf8(value@) =~= Seq::<u8>::empty());
                        }
                    }
                    string_pop(value);
                    proof {
                        lemma_byte_len_drop_last(old_value);
                    }
                }
            },
            TextKey::Other => {},
        }
        i = i + 1;
    }
    assert(events@.take(events@.len() as int) =~= events@);
}


/// A text input that holds fewer than `MAX_TEXT_BYTES` bytes never grows to
/// that limit, whatever keys are pressed.
pub proof fn lemma_text_stays_under_limit(text: Seq<char>, events: Seq<TextKeyEvent>)
    requires
        byte_len(text) < MAX_TEXT_BYTES,
    ensures
        byte_len(text_after(text, events)) < MAX_TEXT_BYTES,
    decreases events.len(),
{
    if events.len() > 0 {
        let prev = text_after(text, events.drop_last());
        lemma_text_stays_under_limit(text, events.drop_last());
        match key_view(events.last().key) {
            TextKeyView::Character(chars) => {
                lemma_encode_utf8_concat(prev, chars);
            },
            TextKeyView::Space => {
                lemma_encode_utf8_concat(prev, seq![' ']);
                assert(prev.push(' ') =~= prev + seq![' ']);
                assert(encode_utf8(seq![' ']).len() == 1) by {
                    reveal_with_fuel(encode_utf8, 2);
                }
            },
            TextKeyView::Backspace => {
                if prev.len() > 0 {
                    lemma_byte_len_drop_last(prev);
                }
            },
            TextKeyView::Other => {},
        }
    }
}

/// Keys that are released, not pressed, never change the text.
pub proof fn lemma_released_keys_leave_text(text: Seq<char>, events: Seq<TextKeyEvent>)
    requires
        forall|i: int| 0 <= i < events.len() ==> !(#[trigger] events[i]).pressed,
    ensures
        text_after(text, events) == text,
    decreases events.len(),
{
    if events.len() > 0 {
        assert(!events[events.len() - 1].pressed);
        lemma_released_keys_leave_text(text, events.drop_last());
    }
}

} // verus!
