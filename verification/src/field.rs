//! Single-line input fields, as prompts have them.

use vstd::prelude::*;
use crate::key::{KeyCode, KeyModifiers};

verus! {

/// The contents of an input field, its cursor, and whether a key changed the
/// contents.
#[verifier::ext_equal]
pub struct FieldEdit {
    pub buf: Seq<char>,
    pub cur: int,
    pub changed: bool,
}

/// What a key does to an input field.
pub open spec fn field_edit(
    buf: Seq<char>,
    cur: int,
    code: KeyCode,
    modifiers: KeyModifiers,
) -> FieldEdit {
    let same = FieldEdit { buf, cur, changed: false };
    match code {
        KeyCode::Backspace => if cur > 0 {
            FieldEdit { buf: buf.remove(cur - 1), cur: cur - 1, changed: true }
        } else {
            same
        },
        KeyCode::Delete => if cur < buf.len() {
            FieldEdit { buf: buf.remove(cur), cur, changed: true }
        } else {
            same
        },
        KeyCode::Left => FieldEdit { cur: if cur > 0 { cur - 1 } else { 0 }, ..same },
        KeyCode::Right => FieldEdit { cur: if cur < buf.len() { cur + 1 } else { cur }, ..same },
        KeyCode::Home => FieldEdit { cur: 0, ..same },
        KeyCode::End => FieldEdit { cur: buf.len() as int, ..same },
        KeyCode::Char(c) => if modifiers.typing() {
            FieldEdit { buf: buf.insert(cur, c), cur: cur + 1, changed: true }
        } else {
            same
        },
        _ => same,
    }
}

/// Hands a key to an input field; tells whether the contents changed.
pub fn edit_field(
    buf: &mut Vec<char>,
    cur: &mut usize,
    code: KeyCode,
    modifiers: KeyModifiers,
) -> (changed: bool)
    requires
        *old(cur) <= old(buf)@.len(),
    ensures
        *final(cur) <= final(buf)@.len(),
        (FieldEdit { buf: final(buf)@, cur: *final(cur) as int, changed }) == field_edit(
            old(buf)@,
            *old(cur) as int,
            code,
            modifiers,
        ),
{
    match code {
        KeyCode::Backspace => {
            if *cur > 0 {
                *cur = *cur - 1;
                buf.remove(*cur);
                return true;
            }
        },
        KeyCode::Delete => {
            if *cur < buf.len() {
                buf.remove(*cur);
                return true;
            }
        },
        KeyCode::Left => {
            *cur = cur.saturating_sub(1);
        },
        KeyCode::Right => {
            if *cur < buf.len() {
                *cur = *cur + 1;
            }
        },
        KeyCode::Home => {
            *cur = 0;
        },
        KeyCode::End => {
            *cur = buf.len();
        },
        KeyCode::Char(c) => {
            if modifiers.is_typing() {
                buf.insert(*cur, c);
                let room = buf.len();
                assert(*cur < room);
                *cur = *cur + 1;
                return true;
            }
        },
        _ => {},
    }
    false
}

} // verus!
