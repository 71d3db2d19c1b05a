//! What a configured gesture does: which gestures a detected gesture
//! fires, and the key presses that a key chord such as `"Ctrl+Shift+T"`
//! stands for.

use vstd::prelude::*;
use crate::config::Gesture;
use crate::text::{chars_of, chars_equal, str_contains, seq_contains};

verus! {

/// A key that a key chord can name.
#[derive(Clone, Copy, Debug, PartialEq, Eq, Structural)]
pub enum Key {
    ControlLeft,
    ShiftLeft,
    Alt,
    MetaLeft,
    Return,
    Space,
    Backspace,
    Delete,
    Tab,
    Escape,
    UpArrow,
    DownArrow,
    LeftArrow,
    RightArrow,
    F1,
    F2,
    F3,
    F4,
    F5,
    F6,
    F7,
    F8,
    F9,
    F10,
    F11,
    F12,
    KeyA,
    KeyB,
    KeyC,
    KeyD,
    KeyE,
    KeyF,
    KeyG,
    KeyH,
    KeyI,
    KeyJ,
    KeyK,
    KeyL,
    KeyM,
    KeyN,
    KeyO,
    KeyP,
    KeyQ,
    KeyR,
    KeyS,
    KeyT,
    KeyU,
    KeyV,
    KeyW,
    KeyX,
    KeyY,
    KeyZ,
    Num0,
    Num1,
    Num2,
    Num3,
    Num4,
    Num5,
    Num6,
    Num7,
    Num8,
    Num9,
}

/// One step of simulated typing.
#[derive(Clone, Copy, Debug, PartialEq, Eq, Structural)]
pub enum KeyStep {
    Press(Key),
    Release(Key),
    /// Wait this many milliseconds.
    Sleep(u64),
}

/// The key a single character names: a letter `a`-`z` or a digit.
pub open spec fn char_key(c: char) -> Option<Key> {
    if c == 'a' {
        Some(Key::KeyA)
    } else if c == 'b' {
        Some(Key::KeyB)
    } else if c == 'c' {
        Some(Key::KeyC)
    } else if c == 'd' {
        Some(Key::KeyD)
    } else if c == 'e' {
        Some(Key::KeyE)
    } else if c == 'f' {
        Some(Key::KeyF)
    } else if c == 'g' {
        Some(Key::KeyG)
    } else if c == 'h' {
        Some(Key::KeyH)
    } else if c == 'i' {
        Some(Key::KeyI)
    } else if c == 'j' {
        Some(Key::KeyJ)
    } else if c == 'k' {
        Some(Key::KeyK)
    } else if c == 'l' {
        Some(Key::KeyL)
    } else if c == 'm' {
        Some(Key::KeyM)
    } else if c == 'n' {
        Some(Key::KeyN)
    } else if c == 'o' {
        Some(Key::KeyO)
    } else if c == 'p' {
        Some(Key::KeyP)
    } else if c == 'q' {
        Some(Key::KeyQ)
    } else if c == 'r' {
        Some(Key::KeyR)
    } else if c == 's' {
        Some(Key::KeyS)
    } else if c == 't' {
        Some(Key::KeyT)
    } else if c == 'u' {
        Some(Key::KeyU)
    } else if c == 'v' {
        Some(Key::KeyV)
    } else if c == 'w' {
        Some(Key::KeyW)
    } else if c == 'x' {
        Some(Key::KeyX)
    } else if c == 'y' {
        Some(Key::KeyY)
    } else if c == 'z' {
        Some(Key::KeyZ)
    } else if c == '0' {
        Some(Key::Num0)
    } else if c == '1' {
        Some(Key::Num1)
    } else if c == '2' {
        Some(Key::Num2)
    } else if c == '3' {
        Some(Key::Num3)
    } else if c == '4' {
        Some(Key::Num4)
    } else if c == '5' {
        Some(Key::Num5)
    } else if c == '6' {
        Some(Key::Num6)
    } else if c == '7' {
        Some(Key::Num7)
    } else if c == '8' {
        Some(Key::Num8)
    } else if c == '9' {
        Some(Key::Num9)
    } else {
        None
    }
}

/// The key a (lower-case, trimmed) key name stands for, if any.
pub open spec fn key_named(s: Seq<char>) -> Option<Key> {
    if s == "ctrl"@ || s == "control"@ {
        Some(Key::ControlLeft)
    } else if s == "shift"@ {
        Some(Key::ShiftLeft)
    } else if s == "alt"@ {
        Some(Key::Alt)
    } else if s == "meta"@ || s == "super"@ || s == "win"@ || s == "cmd"@ {
        Some(Key::MetaLeft)
    } else if s == "enter"@ || s == "return"@ {
        Some(Key::Return)
    } else if s == "space"@ {
        Some(Key::Space)
    } else if s == "backspace"@ {
        Some(Key::Backspace)
    } else if s == "delete"@ || s == "del"@ {
        Some(Key::Delete)
    } else if s == "tab"@ {
        Some(Key::Tab)
    } else if s == "esc"@ || s == "escape"@ {
        Some(Key::Escape)
    } else if s == "up"@ {
        Some(Key::UpArrow)
    } else if s == "down"@ {
        Some(Key::DownArrow)
    } else if s == "left"@ {
        Some(Key::LeftArrow)
    } else if s == "right"@ {
        Some(Key::RightArrow)
    } else if s == "f1"@ {
        Some(Key::F1)
    } else if s == "f2"@ {
        Some(Key::F2)
    } else if s == "f3"@ {
        Some(Key::F3)
    } else if s == "f4"@ {
        Some(Key::F4)
    } else if s == "f5"@ {
        Some(Key::F5)
    } else if s == "f6"@ {
        Some(Key::F6)
    } else if s == "f7"@ {
        Some(Key::F7)
    } else if s == "f8"@ {
        Some(Key::F8)
    } else if s == "f9"@ {
        Some(Key::F9)
    } else if s == "f10"@ {
        Some(Key::F10)
    } else if s == "f11"@ {
        Some(Key::F11)
    } else if s == "f12"@ {
        Some(Key::F12)
    } else if s.len() == 1 {
        char_key(s[0])
    } else {
        None
    }
}

proof fn lemma_key_name_0()
    ensures
        key_named("ctrl"@) == Some(Key::ControlLeft),
{
    reveal_strlit("ctrl");
}

proof fn lemma_key_name_1()
    ensures
        key_named("control"@) == Some(Key::ControlLeft),
{
    reveal_strlit("control");
    reveal_strlit("ctrl");
    assert("control"@.len() != "ctrl"@.len());
}

proof fn lemma_key_name_2()
    ensures
        key_named("shift"@) == Some(Key::ShiftLeft),
{
    reveal_strlit("shift");
    reveal_strlit("ctrl");
    assert("shift"@.len() != "ctrl"@.len());
    reveal_strlit("control");
    assert("shift"@.len() != "control"@.len());
}

proof fn lemma_key_name_3()
    ensures
        key_named("alt"@) == Some(Key::Alt),
{
    reveal_strlit("alt");
    reveal_strlit("ctrl");
    assert("alt"@.len() != "ctrl"@.len());
    reveal_strlit("control");
    assert("alt"@.len() != "control"@.len());
    reveal_strlit("shift");
    assert("alt"@.len() != "shift"@.len());
}

proof fn lemma_key_name_4()
    ensures
        key_named("meta"@) == Some(Key::MetaLeft),
{
    reveal_strlit("meta");
    reveal_strlit("ctrl");
    assert("meta"@[0] != "ctrl"@[0]);
    reveal_strlit("control");
    assert("meta"@.len() != "control"@.len());
    reveal_strlit("shift");
    assert("meta"@.len() != "shift"@.len());
    reveal_strlit("alt");
    assert("meta"@.len() != "alt"@.len());
}

proof fn lemma_key_name_5()
    ensures
        key_named("super"@) == Some(Key::MetaLeft),
{
    reveal_strlit("super");
    reveal_strlit("ctrl");
    assert("super"@.len() != "ctrl"@.len());
    reveal_strlit("control");
    assert("super"@.len() != "control"@.len());
    reveal_strlit("shift");
    assert("super"@[1] != "shift"@[1]);
    reveal_strlit("alt");
    assert("super"@.len() != "alt"@.len());
    reveal_strlit("meta");
    assert("super"@.len() != "meta"@.len());
}

proof fn lemma_key_name_6()
    ensures
        key_named("win"@) == Some(Key::MetaLeft),
{
    reveal_strlit("win");
    reveal_strlit("ctrl");
    assert("win"@.len() != "ctrl"@.len());
    reveal_strlit("control");
    assert("win"@.len() != "control"@.len());
    reveal_strlit("shift");
    assert("win"@.len() != "shift"@.len());
    reveal_strlit("alt");
    assert("win"@[0] != "alt"@[0]);
    reveal_strlit("meta");
    assert("win"@.len() != "meta"@.len());
    reveal_strlit("super");
    assert("win"@.len() != "super"@.len());
}

proof fn lemma_key_name_7()
    ensures
        key_named("cmd"@) == Some(Key::MetaLeft),
{
    reveal_strlit("cmd");
    reveal_strlit("ctrl");
    assert("cmd"@.len() != "ctrl"@.len());
    reveal_strlit("control");
    assert("cmd"@.len() != "control"@.len());
    reveal_strlit("shift");
    assert("cmd"@.len() != "shift"@.len());
    reveal_strlit("alt");
    assert("cmd"@[0] != "alt"@[0]);
    reveal_strlit("meta");
    assert("cmd"@.len() != "meta"@.len());
    reveal_strlit("super");
    assert("cmd"@.len() != "super"@.len());
    reveal_strlit("win");
    assert("cmd"@[0] != "win"@[0]);
}

proof fn lemma_key_name_8()
    ensures
        key_named("enter"@) == Some(Key::Return),
{
    reveal_strlit("enter");
    reveal_strlit("ctrl");
    assert("enter"@.len() != "ctrl"@.len());
    reveal_strlit("control");
    assert("enter"@.len() != "control"@.len());
    reveal_strlit("shift");
    assert("enter"@[0] != "shift"@[0]);
    reveal_strlit("alt");
    assert("enter"@.len() != "alt"@.len());
    reveal_strlit("meta");
    assert("enter"@.len() != "meta"@.len());
    reveal_strlit("super");
    assert("enter"@[0] != "super"@[0]);
    reveal_strlit("win");
    assert("enter"@.len() != "win"@.len());
    reveal_strlit("cmd");
    assert("enter"@.len() != "cmd"@.len());
}

proof fn lemma_key_name_9()
    ensures
        key_named("return"@) == Some(Key::Return),
{
    reveal_strlit("return");
    reveal_strlit("ctrl");
    assert("return"@.len() != "ctrl"@.len());
    reveal_strlit("control");
    assert("return"@.len() != "control"@.len());
    reveal_strlit("shift");
    assert("return"@.len() != "shift"@.len());
    reveal_strlit("alt");
    assert("return"@.len() != "alt"@.len());
    reveal_strlit("meta");
    assert("return"@.len() != "meta"@.len());
    reveal_strlit("super");
    assert("return"@.len() != "super"@.len());
    reveal_strlit("win");
    assert("return"@.len() != "win"@.len());
    reveal_strlit("cmd");
    assert("return"@.len() != "cmd"@.len());
    reveal_strlit("enter");
    assert("return"@.len() != "enter"@.len());
}

proof fn lemma_key_name_10()
    ensures
        key_named("space"@) == Some(Key::Space),
{
    reveal_strlit("space");
    reveal_strlit("ctrl");
    assert("space"@.len() != "ctrl"@.len());
    reveal_strlit("control");
    assert("space"@.len() != "control"@.len());
    reveal_strlit("shift");
    assert("space"@[1] != "shift"@[1]);
    reveal_strlit("alt");
    assert("space"@.len() != "alt"@.len());
    reveal_strlit("meta");
    assert("space"@.len() != "meta"@.len());
    reveal_strlit("super");
    assert("space"@[1] != "super"@[1]);
    reveal_strlit("win");
    assert("space"@.len() != "win"@.len());
    reveal_strlit("cmd");
    assert("space"@.len() != "cmd"@.len());
    reveal_strlit("enter");
    assert("space"@[0] != "enter"@[0]);
    reveal_strlit("return");
    assert("space"@.len() != "return"@.len());
}

proof fn lemma_key_name_11()
    ensures
        key_named("backspace"@) == Some(Key::Backspace),
{
    reveal_strlit("backspace");
    reveal_strlit("ctrl");
    assert("backspace"@.len() != "ctrl"@.len());
    reveal_strlit("control");
    assert("backspace"@.len() != "control"@.len());
    reveal_strlit("shift");
    assert("backspace"@.len() != "shift"@.len());
    reveal_strlit("alt");
    assert("backspace"@.len() != "alt"@.len());
    reveal_strlit("meta");
    assert("backspace"@.len() != "meta"@.len());
    reveal_strlit("super");
    assert("backspace"@.len() != "super"@.len());
    reveal_strlit("win");
    assert("backspace"@.len() != "win"@.len());
    reveal_strlit("cmd");
    assert("backspace"@.len() != "cmd"@.len());
    reveal_strlit("enter");
    assert("backspace"@.len() != "enter"@.len());
    reveal_strlit("return");
    assert("backspace"@.len() != "return"@.len());
    reveal_strlit("space");
    assert("backspace"@.len() != "space"@.len());
}

proof fn lemma_key_name_12()
    ensures
        key_named("delete"@) == Some(Key::Delete),
{
    reveal_strlit("delete");
    reveal_strlit("ctrl");
    assert("delete"@.len() != "ctrl"@.len());
    reveal_strlit("control");
    assert("delete"@.len() != "control"@.len());
    reveal_strlit("shift");
    assert("delete"@.len() != "shift"@.len());
    reveal_strlit("alt");
    assert("delete"@.len() != "alt"@.len());
    reveal_strlit("meta");
    assert("delete"@.len() != "meta"@.len());
    reveal_strlit("super");
    assert("delete"@.len() != "super"@.len());
    reveal_strlit("win");
    assert("delete"@.len() != "win"@.len());
    reveal_strlit("cmd");
    assert("delete"@.len() != "cmd"@.len());
    reveal_strlit("enter");
    assert("delete"@.len() != "enter"@.len());
    reveal_strlit("return");
    assert("delete"@[0] != "return"@[0]);
    reveal_strlit("space");
    assert("delete"@.len() != "space"@.len());
    reveal_strlit("backspace");
    assert("delete"@.len() != "backspace"@.len());
}

proof fn lemma_key_name_13()
    ensures
        key_named("del"@) == Some(Key::Delete),
{
    reveal_strlit("del");
    reveal_strlit("ctrl");
    assert("del"@.len() != "ctrl"@.len());
    reveal_strlit("control");
    assert("del"@.len() != "control"@.len());
    reveal_strlit("shift");
    assert("del"@.len() != "shift"@.len());
    reveal_strlit("alt");
    assert("del"@[0] != "alt"@[0]);
    reveal_strlit("meta");
    assert("del"@.len() != "meta"@.len());
    reveal_strlit("super");
    assert("del"@.len() != "super"@.len());
    reveal_strlit("win");
    assert("del"@[0] != "win"@[0]);
    reveal_strlit("cmd");
    assert("del"@[0] != "cmd"@[0]);
    reveal_strlit("enter");
    assert("del"@.len() != "enter"@.len());
    reveal_strlit("return");
    assert("del"@.len() != "return"@.len());
    reveal_strlit("space");
    assert("del"@.len() != "space"@.len());
    reveal_strlit("backspace");
    assert("del"@.len() != "backspace"@.len());
    reveal_strlit("delete");
    assert("del"@.len() != "delete"@.len());
}

proof fn lemma_key_name_14()
    ensures
        key_named("tab"@) == Some(Key::Tab),
{
    reveal_strlit("tab");
    reveal_strlit("ctrl");
    assert("tab"@.len() != "ctrl"@.len());
    reveal_strlit("control");
    assert("tab"@.len() != "control"@.len());
    reveal_strlit("shift");
    assert("tab"@.len() != "shift"@.len());
    reveal_strlit("alt");
    assert("tab"@[0] != "alt"@[0]);
    reveal_strlit("meta");
    assert("tab"@.len() != "meta"@.len());
    reveal_strlit("super");
    assert("tab"@.len() != "super"@.len());
    reveal_strlit("win");
    assert("tab"@[0] != "win"@[0]);
    reveal_strlit("cmd");
    assert("tab"@[0] != "cmd"@[0]);
    reveal_strlit("enter");
    assert("tab"@.len() != "enter"@.len());
    reveal_strlit("return");
    assert("tab"@.len() != "return"@.len());
    reveal_strlit("space");
    assert("tab"@.len() != "space"@.len());
    reveal_strlit("backspace");
    assert("tab"@.len() != "backspace"@.len());
    reveal_strlit("delete");
    assert("tab"@.len() != "delete"@.len());
    reveal_strlit("del");
    assert("tab"@[0] != "del"@[0]);
}

proof fn lemma_key_name_15()
    ensures
        key_named("esc"@) == Some(Key::Escape),
{
    reveal_strlit("esc");
    reveal_strlit("ctrl");
    assert("esc"@.len() != "ctrl"@.len());
    reveal_strlit("control");
    assert("esc"@.len() != "control"@.len());
    reveal_strlit("shift");
    assert("esc"@.len() != "shift"@.len());
    reveal_strlit("alt");
    assert("esc"@[0] != "alt"@[0]);
    reveal_strlit("meta");
    assert("esc"@.len() != "meta"@.len());
    reveal_strlit("super");
    assert("esc"@.len() != "super"@.len());
    reveal_strlit("win");
    assert("esc"@[0] != "win"@[0]);
    reveal_strlit("cmd");
    assert("esc"@[0] != "cmd"@[0]);
    reveal_strlit("enter");
    assert("esc"@.len() != "enter"@.len());
    reveal_strlit("return");
    assert("esc"@.len() != "return"@.len());
    reveal_strlit("space");
    assert("esc"@.len() != "space"@.len());
    reveal_strlit("backspace");
    assert("esc"@.len() != "backspace"@.len());
    reveal_strlit("delete");
    assert("esc"@.len() != "delete"@.len());
    reveal_strlit("del");
    assert("esc"@[0] != "del"@[0]);
    reveal_strlit("tab");
    assert("esc"@[0] != "tab"@[0]);
}

proof fn lemma_key_name_16()
    ensures
        key_named("escape"@) == Some(Key::Escape),
{
    reveal_strlit("escape");
    reveal_strlit("ctrl");
    assert("escape"@.len() != "ctrl"@.len());
    reveal_strlit("control");
    assert("escape"@.len() != "control"@.len());
    reveal_strlit("shift");
    assert("escape"@.len() != "shift"@.len());
    reveal_strlit("alt");
    assert("escape"@.len() != "alt"@.len());
    reveal_strlit("meta");
    assert("escape"@.len() != "meta"@.len());
    reveal_strlit("super");
    assert("escape"@.len() != "super"@.len());
    reveal_strlit("win");
    assert("escape"@.len() != "win"@.len());
    reveal_strlit("cmd");
    assert("escape"@.len() != "cmd"@.len());
    reveal_strlit("enter");
    assert("escape"@.len() != "enter"@.len());
    reveal_strlit("return");
    assert("escape"@[0] != "return"@[0]);
    reveal_strlit("space");
    assert("escape"@.len() != "space"@.len());
    reveal_strlit("backspace");
    assert("escape"@.len() != "backspace"@.len());
    reveal_strlit("delete");
    assert("escape"@[0] != "delete"@[0]);
    reveal_strlit("del");
    assert("escape"@.len() != "del"@.len());
    reveal_strlit("tab");
    assert("escape"@.len() != "tab"@.len());
    reveal_strlit("esc");
    assert("escape"@.len() != "esc"@.len());
}

proof fn lemma_key_name_17()
    ensures
        key_named("up"@) == Some(Key::UpArrow),
{
    reveal_strlit("up");
    reveal_strlit("ctrl");
    assert("up"@.len() != "ctrl"@.len());
    reveal_strlit("control");
    assert("up"@.len() != "control"@.len());
    reveal_strlit("shift");
    assert("up"@.len() != "shift"@.len());
    reveal_strlit("alt");
    assert("up"@.len() != "alt"@.len());
    reveal_strlit("meta");
    assert("up"@.len() != "meta"@.len());
    reveal_strlit("super");
    assert("up"@.len() != "super"@.len());
    reveal_strlit("win");
    assert("up"@.len() != "win"@.len());
    reveal_strlit("cmd");
    assert("up"@.len() != "cmd"@.len());
    reveal_strlit("enter");
    assert("up"@.len() != "enter"@.len());
    reveal_strlit("return");
    assert("up"@.len() != "return"@.len());
    reveal_strlit("space");
    assert("up"@.len() != "space"@.len());
    reveal_strlit("backspace");
    assert("up"@.len() != "backspace"@.len());
    reveal_strlit("delete");
    assert("up"@.len() != "delete"@.len());
    reveal_strlit("del");
    assert("up"@.len() != "del"@.len());
    reveal_strlit("tab");
    assert("up"@.len() != "tab"@.len());
    reveal_strlit("esc");
    assert("up"@.len() != "esc"@.len());
    reveal_strlit("escape");
    assert("up"@.len() != "escape"@.len());
}

proof fn lemma_key_name_18()
    ensures
        key_named("down"@) == Some(Key::DownArrow),
{
    reveal_strlit("down");
    reveal_strlit("ctrl");
    assert("down"@[0] != "ctrl"@[0]);
    reveal_strlit("control");
    assert("down"@.len() != "control"@.len());
    reveal_strlit("shift");
    assert("down"@.len() != "shift"@.len());
    reveal_strlit("alt");
    assert("down"@.len() != "alt"@.len());
    reveal_strlit("meta");
    assert("down"@[0] != "meta"@[0]);
    reveal_strlit("super");
    assert("down"@.len() != "super"@.len());
    reveal_strlit("win");
    assert("down"@.len() != "win"@.len());
    reveal_strlit("cmd");
    assert("down"@.len() != "cmd"@.len());
    reveal_strlit("enter");
    assert("down"@.len() != "enter"@.len());
    reveal_strlit("return");
    assert("down"@.len() != "return"@.len());
    reveal_strlit("space");
    assert("down"@.len() != "space"@.len());
    reveal_strlit("backspace");
    assert("down"@.len() != "backspace"@.len());
    reveal_strlit("delete");
    assert("down"@.len() != "delete"@.len());
    reveal_strlit("del");
    assert("down"@.len() != "del"@.len());
    reveal_strlit("tab");
    assert("down"@.len() != "tab"@.len());
    reveal_strlit("esc");
    assert("down"@.len() != "esc"@.len());
    reveal_strlit("escape");
    assert("down"@.len() != "escape"@.len());
    reveal_strlit("up");
    assert("down"@.len() != "up"@.len());
}

proof fn lemma_key_name_19()
    ensures
        key_named("left"@) == Some(Key::LeftArrow),
{
    reveal_strlit("left");
    reveal_strlit("ctrl");
    assert("left"@[0] != "ctrl"@[0]);
    reveal_strlit("control");
    assert("left"@.len() != "control"@.len());
    reveal_strlit("shift");
    assert("left"@.len() != "shift"@.len());
    reveal_strlit("alt");
    assert("left"@.len() != "alt"@.len());
    reveal_strlit("meta");
    assert("left"@[0] != "meta"@[0]);
    reveal_strlit("super");
    assert("left"@.len() != "super"@.len());
    reveal_strlit("win");
    assert("left"@.len() != "win"@.len());
    reveal_strlit("cmd");
    assert("left"@.len() != "cmd"@.len());
    reveal_strlit("enter");
    assert("left"@.len() != "enter"@.len());
    reveal_strlit("return");
    assert("left"@.len() != "return"@.len());
    reveal_strlit("space");
    assert("left"@.len() != "space"@.len());
    reveal_strlit("backspace");
    assert("left"@.len() != "backspace"@.len());
    reveal_strlit("delete");
    assert("left"@.len() != "delete"@.len());
    reveal_strlit("del");
    assert("left"@.len() != "del"@.len());
    reveal_strlit("tab");
    assert("left"@.len() != "tab"@.len());
    reveal_strlit("esc");
    assert("left"@.len() != "esc"@.len());
    reveal_strlit("escape");
    assert("left"@.len() != "escape"@.len());
    reveal_strlit("up");
    assert("left"@.len() != "up"@.len());
    reveal_strlit("down");
    assert("left"@[0] != "down"@[0]);
}

proof fn lemma_key_name_20()
    ensures
        key_named("right"@) == Some(Key::RightArrow),
{
    reveal_strlit("right");
    reveal_strlit("ctrl");
    assert("right"@.len() != "ctrl"@.len());
    reveal_strlit("control");
    assert("right"@.len() != "control"@.len());
    reveal_strlit("shift");
    assert("right"@[0] != "shift"@[0]);
    reveal_strlit("alt");
    assert("right"@.len() != "alt"@.len());
    reveal_strlit("meta");
    assert("right"@.len() != "meta"@.len());
    reveal_strlit("super");
    assert("right"@[0] != "super"@[0]);
    reveal_strlit("win");
    assert("right"@.len() != "win"@.len());
    reveal_strlit("cmd");
    assert("right"@.len() != "cmd"@.len());
    reveal_strlit("enter");
    assert("right"@[0] != "enter"@[0]);
    reveal_strlit("return");
    assert("right"@.len() != "return"@.len());
    reveal_strlit("space");
    assert("right"@[0] != "space"@[0]);
    reveal_strlit("backspace");
    assert("right"@.len() != "backspace"@.len());
    reveal_strlit("delete");
    assert("right"@.len() != "delete"@.len());
    reveal_strlit("del");
    assert("right"@.len() != "del"@.len());
    reveal_strlit("tab");
    assert("right"@.len() != "tab"@.len());
    reveal_strlit("esc");
    assert("right"@.len() != "esc"@.len());
    reveal_strlit("escape");
    assert("right"@.len() != "escape"@.len());
    reveal_strlit("up");
    assert("right"@.len() != "up"@.len());
    reveal_strlit("down");
    assert("right"@.len() != "down"@.len());
    reveal_strlit("left");
    assert("right"@.len() != "left"@.len());
}

proof fn lemma_key_name_21()
    ensures
        key_named("f1"@) == Some(Key::F1),
{
    reveal_strlit("f1");
    reveal_strlit("ctrl");
    assert("f1"@.len() != "ctrl"@.len());
    reveal_strlit("control");
    assert("f1"@.len() != "control"@.len());
    reveal_strlit("shift");
    assert("f1"@.len() != "shift"@.len());
    reveal_strlit("alt");
    assert("f1"@.len() != "alt"@.len());
    reveal_strlit("meta");
    assert("f1"@.len() != "meta"@.len());
    reveal_strlit("super");
    assert("f1"@.len() != "super"@.len());
    reveal_strlit("win");
    assert("f1"@.len() != "win"@.len());
    reveal_strlit("cmd");
    assert("f1"@.len() != "cmd"@.len());
    reveal_strlit("enter");
    assert("f1"@.len() != "enter"@.len());
    reveal_strlit("return");
    assert("f1"@.len() != "return"@.len());
    reveal_strlit("space");
    assert("f1"@.len() != "space"@.len());
    reveal_strlit("backspace");
    assert("f1"@.len() != "backspace"@.len());
    reveal_strlit("delete");
    assert("f1"@.len() != "delete"@.len());
    reveal_strlit("del");
    assert("f1"@.len() != "del"@.len());
    reveal_strlit("tab");
    assert("f1"@.len() != "tab"@.len());
    reveal_strlit("esc");
    assert("f1"@.len() != "esc"@.len());
    reveal_strlit("escape");
    assert("f1"@.len() != "escape"@.len());
    reveal_strlit("up");
    assert("f1"@[0] != "up"@[0]);
    reveal_strlit("down");
    assert("f1"@.len() != "down"@.len());
    reveal_strlit("left");
    assert("f1"@.len() != "left"@.len());
    reveal_strlit("right");
    assert("f1"@.len() != "right"@.len());
}

proof fn lemma_key_name_22()
    ensures
        key_named("f2"@) == Some(Key::F2),
{
    reveal_strlit("f2");
    reveal_strlit("ctrl");
    assert("f2"@.len() != "ctrl"@.len());
    reveal_strlit("control");
    assert("f2"@.len() != "control"@.len());
    reveal_strlit("shift");
    assert("f2"@.len() != "shift"@.len());
    reveal_strlit("alt");
    assert("f2"@.len() != "alt"@.len());
    reveal_strlit("meta");
    assert("f2"@.len() != "meta"@.len());
    reveal_strlit("super");
    assert("f2"@.len() != "super"@.len());
    reveal_strlit("win");
    assert("f2"@.len() != "win"@.len());
    reveal_strlit("cmd");
    assert("f2"@.len() != "cmd"@.len());
    reveal_strlit("enter");
    assert("f2"@.len() != "enter"@.len());
    reveal_strlit("return");
    assert("f2"@.len() != "return"@.len());
    reveal_strlit("space");
    assert("f2"@.len() != "space"@.len());
    reveal_strlit("backspace");
    assert("f2"@.len() != "backspace"@.len());
    reveal_strlit("delete");
    assert("f2"@.len() != "delete"@.len());
    reveal_strlit("del");
    assert("f2"@.len() != "del"@.len());
    reveal_strlit("tab");
    assert("f2"@.len() != "tab"@.len());
    reveal_strlit("esc");
    assert("f2"@.len() != "esc"@.len());
    reveal_strlit("escape");
    assert("f2"@.len() != "escape"@.len());
    reveal_strlit("up");
    assert("f2"@[0] != "up"@[0]);
    reveal_strlit("down");
    assert("f2"@.len() != "down"@.len());
    reveal_strlit("left");
    assert("f2"@.len() != "left"@.len());
    reveal_strlit("right");
    assert("f2"@.len() != "right"@.len());
    reveal_strlit("f1");
    assert("f2"@[1] != "f1"@[1]);
}

proof fn lemma_key_name_23()
    ensures
        key_named("f3"@) == Some(Key::F3),
{
    reveal_strlit("f3");
    reveal_strlit("ctrl");
    assert("f3"@.len() != "ctrl"@.len());
    reveal_strlit("control");
    assert("f3"@.len() != "control"@.len());
    reveal_strlit("shift");
    assert("f3"@.len() != "shift"@.len());
    reveal_strlit("alt");
    assert("f3"@.len() != "alt"@.len());
    reveal_strlit("meta");
    assert("f3"@.len() != "meta"@.len());
    reveal_strlit("super");
    assert("f3"@.len() != "super"@.len());
    reveal_strlit("win");
    assert("f3"@.len() != "win"@.len());
    reveal_strlit("cmd");
    assert("f3"@.len() != "cmd"@.len());
    reveal_strlit("enter");
    assert("f3"@.len() != "enter"@.len());
    reveal_strlit("return");
    assert("f3"@.len() != "return"@.len());
    reveal_strlit("space");
    assert("f3"@.len() != "space"@.len());
    reveal_strlit("backspace");
    assert("f3"@.len() != "backspace"@.len());
    reveal_strlit("delete");
    assert("f3"@.len() != "delete"@.len());
    reveal_strlit("del");
    assert("f3"@.len() != "del"@.len());
    reveal_strlit("tab");
    assert("f3"@.len() != "tab"@.len());
    reveal_strlit("esc");
    assert("f3"@.len() != "esc"@.len());
    reveal_strlit("escape");
    assert("f3"@.len() != "escape"@.len());
    reveal_strlit("up");
    assert("f3"@[0] != "up"@[0]);
    reveal_strlit("down");
    assert("f3"@.len() != "down"@.len());
    reveal_strlit("left");
    assert("f3"@.len() != "left"@.len());
    reveal_strlit("right");
    assert("f3"@.len() != "right"@.len());
    reveal_strlit("f1");
    assert("f3"@[1] != "f1"@[1]);
    reveal_strlit("f2");
    assert("f3"@[1] != "f2"@[1]);
}

proof fn lemma_key_name_24()
    ensures
        key_named("f4"@) == Some(Key::F4),
{
    reveal_strlit("f4");
    reveal_strlit("ctrl");
    assert("f4"@.len() != "ctrl"@.len());
    reveal_strlit("control");
    assert("f4"@.len() != "control"@.len());
    reveal_strlit("shift");
    assert("f4"@.len() != "shift"@.len());
    reveal_strlit("alt");
    assert("f4"@.len() != "alt"@.len());
    reveal_strlit("meta");
    assert("f4"@.len() != "meta"@.len());
    reveal_strlit("super");
    assert("f4"@.len() != "super"@.len());
    reveal_strlit("win");
    assert("f4"@.len() != "win"@.len());
    reveal_strlit("cmd");
    assert("f4"@.len() != "cmd"@.len());
    reveal_strlit("enter");
    assert("f4"@.len() != "enter"@.len());
    reveal_strlit("return");
    assert("f4"@.len() != "return"@.len());
    reveal_strlit("space");
    assert("f4"@.len() != "space"@.len());
    reveal_strlit("backspace");
    assert("f4"@.len() != "backspace"@.len());
    reveal_strlit("delete");
    assert("f4"@.len() != "delete"@.len());
    reveal_strlit("del");
    assert("f4"@.len() != "del"@.len());
    reveal_strlit("tab");
    assert("f4"@.len() != "tab"@.len());
    reveal_strlit("esc");
    assert("f4"@.len() != "esc"@.len());
    reveal_strlit("escape");
    assert("f4"@.len() != "escape"@.len());
    reveal_strlit("up");
    assert("f4"@[0] != "up"@[0]);
    reveal_strlit("down");
    assert("f4"@.len() != "down"@.len());
    reveal_strlit("left");
    assert("f4"@.len() != "left"@.len());
    reveal_strlit("right");
    assert("f4"@.len() != "right"@.len());
    reveal_strlit("f1");
    assert("f4"@[1] != "f1"@[1]);
    reveal_strlit("f2");
    assert("f4"@[1] != "f2"@[1]);
    reveal_strlit("f3");
    assert("f4"@[1] != "f3"@[1]);
}

proof fn lemma_key_name_25()
    ensures
        key_named("f5"@) == Some(Key::F5),
{
    reveal_strlit("f5");
    reveal_strlit("ctrl");
    assert("f5"@.len() != "ctrl"@.len());
    reveal_strlit("control");
    assert("f5"@.len() != "control"@.len());
    reveal_strlit("shift");
    assert("f5"@.len() != "shift"@.len());
    reveal_strlit("alt");
    assert("f5"@.len() != "alt"@.len());
    reveal_strlit("meta");
    assert("f5"@.len() != "meta"@.len());
    reveal_strlit("super");
    assert("f5"@.len() != "super"@.len());
    reveal_strlit("win");
    assert("f5"@.len() != "win"@.len());
    reveal_strlit("cmd");
    assert("f5"@.len() != "cmd"@.len());
    reveal_strlit("enter");
    assert("f5"@.len() != "enter"@.len());
    reveal_strlit("return");
    assert("f5"@.len() != "return"@.len());
    reveal_strlit("space");
    assert("f5"@.len() != "space"@.len());
    reveal_strlit("backspace");
    assert("f5"@.len() != "backspace"@.len());
    reveal_strlit("delete");
    assert("f5"@.len() != "delete"@.len());
    reveal_strlit("del");
    assert("f5"@.len() != "del"@.len());
    reveal_strlit("tab");
    assert("f5"@.len() != "tab"@.len());
    reveal_strlit("esc");
    assert("f5"@.len() != "esc"@.len());
    reveal_strlit("escape");
    assert("f5"@.len() != "escape"@.len());
    reveal_strlit("up");
    assert("f5"@[0] != "up"@[0]);
    reveal_strlit("down");
    assert("f5"@.len() != "down"@.len());
    reveal_strlit("left");
    assert("f5"@.len() != "left"@.len());
    reveal_strlit("right");
    assert("f5"@.len() != "right"@.len());
    reveal_strlit("f1");
    assert("f5"@[1] != "f1"@[1]);
    reveal_strlit("f2");
    assert("f5"@[1] != "f2"@[1]);
    reveal_strlit("f3");
    assert("f5"@[1] != "f3"@[1]);
    reveal_strlit("f4");
    assert("f5"@[1] != "f4"@[1]);
}

proof fn lemma_key_name_26()
    ensures
        key_named("f6"@) == Some(Key::F6),
{
    reveal_strlit("f6");
    reveal_strlit("ctrl");
    assert("f6"@.len() != "ctrl"@.len());
    reveal_strlit("control");
    assert("f6"@.len() != "control"@.len());
    reveal_strlit("shift");
    assert("f6"@.len() != "shift"@.len());
    reveal_strlit("alt");
    assert("f6"@.len() != "alt"@.len());
    reveal_strlit("meta");
    assert("f6"@.len() != "meta"@.len());
    reveal_strlit("super");
    assert("f6"@.len() != "super"@.len());
    reveal_strlit("win");
    assert("f6"@.len() != "win"@.len());
    reveal_strlit("cmd");
    assert("f6"@.len() != "cmd"@.len());
    reveal_strlit("enter");
    assert("f6"@.len() != "enter"@.len());
    reveal_strlit("return");
    assert("f6"@.len() != "return"@.len());
    reveal_strlit("space");
    assert("f6"@.len() != "space"@.len());
    reveal_strlit("backspace");
    assert("f6"@.len() != "backspace"@.len());
    reveal_strlit("delete");
    assert("f6"@.len() != "delete"@.len());
    reveal_strlit("del");
    assert("f6"@.len() != "del"@.len());
    reveal_strlit("tab");
    assert("f6"@.len() != "tab"@.len());
    reveal_strlit("esc");
    assert("f6"@.len() != "esc"@.len());
    reveal_strlit("escape");
    assert("f6"@.len() != "escape"@.len());
    reveal_strlit("up");
    assert("f6"@[0] != "up"@[0]);
    reveal_strlit("down");
    assert("f6"@.len() != "down"@.len());
    reveal_strlit("left");
    assert("f6"@.len() != "left"@.len());
    reveal_strlit("right");
    assert("f6"@.len() != "right"@.len());
    reveal_strlit("f1");
    assert("f6"@[1] != "f1"@[1]);
    reveal_strlit("f2");
    assert("f6"@[1] != "f2"@[1]);
    reveal_strlit("f3");
    assert("f6"@[1] != "f3"@[1]);
    reveal_strlit("f4");
    assert("f6"@[1] != "f4"@[1]);
    reveal_strlit("f5");
    assert("f6"@[1] != "f5"@[1]);
}

proof fn lemma_key_name_27()
    ensures
        key_named("f7"@) == Some(Key::F7),
{
    reveal_strlit("f7");
    reveal_strlit("ctrl");
    assert("f7"@.len() != "ctrl"@.len());
    reveal_strlit("control");
    assert("f7"@.len() != "control"@.len());
    reveal_strlit("shift");
    assert("f7"@.len() != "shift"@.len());
    reveal_strlit("alt");
    assert("f7"@.len() != "alt"@.len());
    reveal_strlit("meta");
    assert("f7"@.len() != "meta"@.len());
    reveal_strlit("super");
    assert("f7"@.len() != "super"@.len());
    reveal_strlit("win");
    assert("f7"@.len() != "win"@.len());
    reveal_strlit("cmd");
    assert("f7"@.len() != "cmd"@.len());
    reveal_strlit("enter");
    assert("f7"@.len() != "enter"@.len());
    reveal_strlit("return");
    assert("f7"@.len() != "return"@.len());
    reveal_strlit("space");
    assert("f7"@.len() != "space"@.len());
    reveal_strlit("backspace");
    assert("f7"@.len() != "backspace"@.len());
    reveal_strlit("delete");
    assert("f7"@.len() != "delete"@.len());
    reveal_strlit("del");
    assert("f7"@.len() != "del"@.len());
    reveal_strlit("tab");
    assert("f7"@.len() != "tab"@.len());
    reveal_strlit("esc");
    assert("f7"@.len() != "esc"@.len());
    reveal_strlit("escape");
    assert("f7"@.len() != "escape"@.len());
    reveal_strlit("up");
    assert("f7"@[0] != "up"@[0]);
    reveal_strlit("down");
    assert("f7"@.len() != "down"@.len());
    reveal_strlit("left");
    assert("f7"@.len() != "left"@.len());
    reveal_strlit("right");
    assert("f7"@.len() != "right"@.len());
    reveal_strlit("f1");
    assert("f7"@[1] != "f1"@[1]);
    reveal_strlit("f2");
    assert("f7"@[1] != "f2"@[1]);
    reveal_strlit("f3");
    assert("f7"@[1] != "f3"@[1]);
    reveal_strlit("f4");
    assert("f7"@[1] != "f4"@[1]);
    reveal_strlit("f5");
    assert("f7"@[1] != "f5"@[1]);
    reveal_strlit("f6");
    assert("f7"@[1] != "f6"@[1]);
}

proof fn lemma_key_name_28()
    ensures
        key_named("f8"@) == Some(Key::F8),
{
    reveal_strlit("f8");
    reveal_strlit("ctrl");
    assert("f8"@.len() != "ctrl"@.len());
    reveal_strlit("control");
    assert("f8"@.len() != "control"@.len());
    reveal_strlit("shift");
    assert("f8"@.len() != "shift"@.len());
    reveal_strlit("alt");
    assert("f8"@.len() != "alt"@.len());
    reveal_strlit("meta");
    assert("f8"@.len() != "meta"@.len());
    reveal_strlit("super");
    assert("f8"@.len() != "super"@.len());
    reveal_strlit("win");
    assert("f8"@.len() != "win"@.len());
    reveal_strlit("cmd");
    assert("f8"@.len() != "cmd"@.len());
    reveal_strlit("enter");
    assert("f8"@.len() != "enter"@.len());
    reveal_strlit("return");
    assert("f8"@.len() != "return"@.len());
    reveal_strlit("space");
    assert("f8"@.len() != "space"@.len());
    reveal_strlit("backspace");
    assert("f8"@.len() != "backspace"@.len());
    reveal_strlit("delete");
    assert("f8"@.len() != "delete"@.len());
    reveal_strlit("del");
    assert("f8"@.len() != "del"@.len());
    reveal_strlit("tab");
    assert("f8"@.len() != "tab"@.len());
    reveal_strlit("esc");
    assert("f8"@.len() != "esc"@.len());
    reveal_strlit("escape");
    assert("f8"@.len() != "escape"@.len());
    reveal_strlit("up");
    assert("f8"@[0] != "up"@[0]);
    reveal_strlit("down");
    assert("f8"@.len() != "down"@.len());
    reveal_strlit("left");
    assert("f8"@.len() != "left"@.len());
    reveal_strlit("right");
    assert("f8"@.len() != "right"@.len());
    reveal_strlit("f1");
    assert("f8"@[1] != "f1"@[1]);
    reveal_strlit("f2");
    assert("f8"@[1] != "f2"@[1]);
    reveal_strlit("f3");
    assert("f8"@[1] != "f3"@[1]);
    reveal_strlit("f4");
    assert("f8"@[1] != "f4"@[1]);
    reveal_strlit("f5");
    assert("f8"@[1] != "f5"@[1]);
    reveal_strlit("f6");
    assert("f8"@[1] != "f6"@[1]);
    reveal_strlit("f7");
    assert("f8"@[1] != "f7"@[1]);
}

proof fn lemma_key_name_29()
    ensures
        key_named("f9"@) == Some(Key::F9),
{
    reveal_strlit("f9");
    reveal_strlit("ctrl");
    assert("f9"@.len() != "ctrl"@.len());
    reveal_strlit("control");
    assert("f9"@.len() != "control"@.len());
    reveal_strlit("shift");
    assert("f9"@.len() != "shift"@.len());
    reveal_strlit("alt");
    assert("f9"@.len() != "alt"@.len());
    reveal_strlit("meta");
    assert("f9"@.len() != "meta"@.len());
    reveal_strlit("super");
    assert("f9"@.len() != "super"@.len());
    reveal_strlit("win");
    assert("f9"@.len() != "win"@.len());
    reveal_strlit("cmd");
    assert("f9"@.len() != "cmd"@.len());
    reveal_strlit("enter");
    assert("f9"@.len() != "enter"@.len());
    reveal_strlit("return");
    assert("f9"@.len() != "return"@.len());
    reveal_strlit("space");
    assert("f9"@.len() != "space"@.len());
    reveal_strlit("backspace");
    assert("f9"@.len() != "backspace"@.len());
    reveal_strlit("delete");
    assert("f9"@.len() != "delete"@.len());
    reveal_strlit("del");
    assert("f9"@.len() != "del"@.len());
    reveal_strlit("tab");
    assert("f9"@.len() != "tab"@.len());
    reveal_strlit("esc");
    assert("f9"@.len() != "esc"@.len());
    reveal_strlit("escape");
    assert("f9"@.len() != "escape"@.len());
    reveal_strlit("up");
    assert("f9"@[0] != "up"@[0]);
    reveal_strlit("down");
    assert("f9"@.len() != "down"@.len());
    reveal_strlit("left");
    assert("f9"@.len() != "left"@.len());
    reveal_strlit("right");
    assert("f9"@.len() != "right"@.len());
    reveal_strlit("f1");
    assert("f9"@[1] != "f1"@[1]);
    reveal_strlit("f2");
    assert("f9"@[1] != "f2"@[1]);
    reveal_strlit("f3");
    assert("f9"@[1] != "f3"@[1]);
    reveal_strlit("f4");
    assert("f9"@[1] != "f4"@[1]);
    reveal_strlit("f5");
    assert("f9"@[1] != "f5"@[1]);
    reveal_strlit("f6");
    assert("f9"@[1] != "f6"@[1]);
    reveal_strlit("f7");
    assert("f9"@[1] != "f7"@[1]);
    reveal_strlit("f8");
    assert("f9"@[1] != "f8"@[1]);
}

proof fn lemma_key_name_30()
    ensures
        key_named("f10"@) == Some(Key::F10),
{
    reveal_strlit("f10");
    reveal_strlit("ctrl");
    assert("f10"@.len() != "ctrl"@.len());
    reveal_strlit("control");
    assert("f10"@.len() != "control"@.len());
    reveal_strlit("shift");
    assert("f10"@.len() != "shift"@.len());
    reveal_strlit("alt");
    assert("f10"@[0] != "alt"@[0]);
    reveal_strlit("meta");
    assert("f10"@.len() != "meta"@.len());
    reveal_strlit("super");
    assert("f10"@.len() != "super"@.len());
    reveal_strlit("win");
    assert("f10"@[0] != "win"@[0]);
    reveal_strlit("cmd");
    assert("f10"@[0] != "cmd"@[0]);
    reveal_strlit("enter");
    assert("f10"@.len() != "enter"@.len());
    reveal_strlit("return");
    assert("f10"@.len() != "return"@.len());
    reveal_strlit("space");
    assert("f10"@.len() != "space"@.len());
    reveal_strlit("backspace");
    assert("f10"@.len() != "backspace"@.len());
    reveal_strlit("delete");
    assert("f10"@.len() != "delete"@.len());
    reveal_strlit("del");
    assert("f10"@[0] != "del"@[0]);
    reveal_strlit("tab");
    assert("f10"@[0] != "tab"@[0]);
    reveal_strlit("esc");
    assert("f10"@[0] != "esc"@[0]);
    reveal_strlit("escape");
    assert("f10"@.len() != "escape"@.len());
    reveal_strlit("up");
    assert("f10"@.len() != "up"@.len());
    reveal_strlit("down");
    assert("f10"@.len() != "down"@.len());
    reveal_strlit("left");
    assert("f10"@.len() != "left"@.len());
    reveal_strlit("right");
    assert("f10"@.len() != "right"@.len());
    reveal_strlit("f1");
    assert("f10"@.len() != "f1"@.len());
    reveal_strlit("f2");
    assert("f10"@.len() != "f2"@.len());
    reveal_strlit("f3");
    assert("f10"@.len() != "f3"@.len());
    reveal_strlit("f4");
    assert("f10"@.len() != "f4"@.len());
    reveal_strlit("f5");
    assert("f10"@.len() != "f5"@.len());
    reveal_strlit("f6");
    assert("f10"@.len() != "f6"@.len());
    reveal_strlit("f7");
    assert("f10"@.len() != "f7"@.len());
    reveal_strlit("f8");
    assert("f10"@.len() != "f8"@.len());
    reveal_strlit("f9");
    assert("f10"@.len() != "f9"@.len());
}

proof fn lemma_key_name_31()
    ensures
        key_named("f11"@) == Some(Key::F11),
{
    reveal_strlit("f11");
    reveal_strlit("ctrl");
    assert("f11"@.len() != "ctrl"@.len());
    reveal_strlit("control");
    assert("f11"@.len() != "control"@.len());
    reveal_strlit("shift");
    assert("f11"@.len() != "shift"@.len());
    reveal_strlit("alt");
    assert("f11"@[0] != "alt"@[0]);
    reveal_strlit("meta");
    assert("f11"@.len() != "meta"@.len());
    reveal_strlit("super");
    assert("f11"@.len() != "super"@.len());
    reveal_strlit("win");
    assert("f11"@[0] != "win"@[0]);
    reveal_strlit("cmd");
    assert("f11"@[0] != "cmd"@[0]);
    reveal_strlit("enter");
    assert("f11"@.len() != "enter"@.len());
    reveal_strlit("return");
    assert("f11"@.len() != "return"@.len());
    reveal_strlit("space");
    assert("f11"@.len() != "space"@.len());
    reveal_strlit("backspace");
    assert("f11"@.len() != "backspace"@.len());
    reveal_strlit("delete");
    assert("f11"@.len() != "delete"@.len());
    reveal_strlit("del");
    assert("f11"@[0] != "del"@[0]);
    reveal_strlit("tab");
    assert("f11"@[0] != "tab"@[0]);
    reveal_strlit("esc");
    assert("f11"@[0] != "esc"@[0]);
    reveal_strlit("escape");
    assert("f11"@.len() != "escape"@.len());
    reveal_strlit("up");
    assert("f11"@.len() != "up"@.len());
    reveal_strlit("down");
    assert("f11"@.len() != "down"@.len());
    reveal_strlit("left");
    assert("f11"@.len() != "left"@.len());
    reveal_strlit("right");
    assert("f11"@.len() != "right"@.len());
    reveal_strlit("f1");
    assert("f11"@.len() != "f1"@.len());
    reveal_strlit("f2");
    assert("f11"@.len() != "f2"@.len());
    reveal_strlit("f3");
    assert("f11"@.len() != "f3"@.len());
    reveal_strlit("f4");
    assert("f11"@.len() != "f4"@.len());
    reveal_strlit("f5");
    assert("f11"@.len() != "f5"@.len());
    reveal_strlit("f6");
    assert("f11"@.len() != "f6"@.len());
    reveal_strlit("f7");
    assert("f11"@.len() != "f7"@.len());
    reveal_strlit("f8");
    assert("f11"@.len() != "f8"@.len());
    reveal_strlit("f9");
    assert("f11"@.len() != "f9"@.len());
    reveal_strlit("f10");
    assert("f11"@[2] != "f10"@[2]);
}

proof fn lemma_key_name_32()
    ensures
        key_named("f12"@) == Some(Key::F12),
{
    reveal_strlit("f12");
    reveal_strlit("ctrl");
    assert("f12"@.len() != "ctrl"@.len());
    reveal_strlit("control");
    assert("f12"@.len() != "control"@.len());
    reveal_strlit("shift");
    assert("f12"@.len() != "shift"@.len());
    reveal_strlit("alt");
    assert("f12"@[0] != "alt"@[0]);
    reveal_strlit("meta");
    assert("f12"@.len() != "meta"@.len());
    reveal_strlit("super");
    assert("f12"@.len() != "super"@.len());
    reveal_strlit("win");
    assert("f12"@[0] != "win"@[0]);
    reveal_strlit("cmd");
    assert("f12"@[0] != "cmd"@[0]);
    reveal_strlit("enter");
    assert("f12"@.len() != "enter"@.len());
    reveal_strlit("return");
    assert("f12"@.len() != "return"@.len());
    reveal_strlit("space");
    assert("f12"@.len() != "space"@.len());
    reveal_strlit("backspace");
    assert("f12"@.len() != "backspace"@.len());
    reveal_strlit("delete");
    assert("f12"@.len() != "delete"@.len());
    reveal_strlit("del");
    assert("f12"@[0] != "del"@[0]);
    reveal_strlit("tab");
    assert("f12"@[0] != "tab"@[0]);
    reveal_strlit("esc");
    assert("f12"@[0] != "esc"@[0]);
    reveal_strlit("escape");
    assert("f12"@.len() != "escape"@.len());
    reveal_strlit("up");
    assert("f12"@.len() != "up"@.len());
    reveal_strlit("down");
    assert("f12"@.len() != "down"@.len());
    reveal_strlit("left");
    assert("f12"@.len() != "left"@.len());
    reveal_strlit("right");
    assert("f12"@.len() != "right"@.len());
    reveal_strlit("f1");
    assert("f12"@.len() != "f1"@.len());
    reveal_strlit("f2");
    assert("f12"@.len() != "f2"@.len());
    reveal_strlit("f3");
    assert("f12"@.len() != "f3"@.len());
    reveal_strlit("f4");
    assert("f12"@.len() != "f4"@.len());
    reveal_strlit("f5");
    assert("f12"@.len() != "f5"@.len());
    reveal_strlit("f6");
    assert("f12"@.len() != "f6"@.len());
    reveal_strlit("f7");
    assert("f12"@.len() != "f7"@.len());
    reveal_strlit("f8");
    assert("f12"@.len() != "f8"@.len());
    reveal_strlit("f9");
    assert("f12"@.len() != "f9"@.len());
    reveal_strlit("f10");
    assert("f12"@[2] != "f10"@[2]);
    reveal_strlit("f11");
    assert("f12"@[2] != "f11"@[2]);
}

/// Law: the key name table. Each key name names its own key:
/// `"ctrl"`/`"control"` the control key, `"shift"` shift, `"alt"` alt,
/// `"meta"`/`"super"`/`"win"`/`"cmd"` the meta key, `"enter"`/`"return"`
/// return, `"space"`, `"backspace"`, `"delete"`/`"del"`, `"tab"`,
/// `"esc"`/`"escape"`, the arrows `"up"`, `"down"`, `"left"`, `"right"`,
/// and `"f1"` to `"f12"` the function keys.
pub proof fn lemma_key_name_table()
    ensures
        key_named("ctrl"@) == Some(Key::ControlLeft),
        key_named("control"@) == Some(Key::ControlLeft),
        key_named("shift"@) == Some(Key::ShiftLeft),
        key_named("alt"@) == Some(Key::Alt),
        key_named("meta"@) == Some(Key::MetaLeft),
        key_named("super"@) == Some(Key::MetaLeft),
        key_named("win"@) == Some(Key::MetaLeft),
        key_named("cmd"@) == Some(Key::MetaLeft),
        key_named("enter"@) == Some(Key::Return),
        key_named("return"@) == Some(Key::Return),
        key_named("space"@) == Some(Key::Space),
        key_named("backspace"@) == Some(Key::Backspace),
        key_named("delete"@) == Some(Key::Delete),
        key_named("del"@) == Some(Key::Delete),
        key_named("tab"@) == Some(Key::Tab),
        key_named("esc"@) == Some(Key::Escape),
        key_named("escape"@) == Some(Key::Escape),
        key_named("up"@) == Some(Key::UpArrow),
        key_named("down"@) == Some(Key::DownArrow),
        key_named("left"@) == Some(Key::LeftArrow),
        key_named("right"@) == Some(Key::RightArrow),
        key_named("f1"@) == Some(Key::F1),
        key_named("f2"@) == Some(Key::F2),
        key_named("f3"@) == Some(Key::F3),
        key_named("f4"@) == Some(Key::F4),
        key_named("f5"@) == Some(Key::F5),
        key_named("f6"@) == Some(Key::F6),
        key_named("f7"@) == Some(Key::F7),
        key_named("f8"@) == Some(Key::F8),
        key_named("f9"@) == Some(Key::F9),
        key_named("f10"@) == Some(Key::F10),
        key_named("f11"@) == Some(Key::F11),
        key_named("f12"@) == Some(Key::F12),
{
    lemma_key_name_0();
    lemma_key_name_1();
    lemma_key_name_2();
    lemma_key_name_3();
    lemma_key_name_4();
    lemma_key_name_5();
    lemma_key_name_6();
    lemma_key_name_7();
    lemma_key_name_8();
    lemma_key_name_9();
    lemma_key_name_10();
    lemma_key_name_11();
    lemma_key_name_12();
    lemma_key_name_13();
    lemma_key_name_14();
    lemma_key_name_15();
    lemma_key_name_16();
    lemma_key_name_17();
    lemma_key_name_18();
    lemma_key_name_19();
    lemma_key_name_20();
    lemma_key_name_21();
    lemma_key_name_22();
    lemma_key_name_23();
    lemma_key_name_24();
    lemma_key_name_25();
    lemma_key_name_26();
    lemma_key_name_27();
    lemma_key_name_28();
    lemma_key_name_29();
    lemma_key_name_30();
    lemma_key_name_31();
    lemma_key_name_32();
}

/// Law: a single character names a key exactly when it is a lower-case
/// letter or a digit, and then names that letter's or digit's key; any
/// other single character names none.
pub proof fn lemma_single_character_keys(c: char)
    ensures
        c == 'a' ==> key_named(seq![c]) == Some(Key::KeyA),
        c == 'b' ==> key_named(seq![c]) == Some(Key::KeyB),
        c == 'c' ==> key_named(seq![c]) == Some(Key::KeyC),
        c == 'd' ==> key_named(seq![c]) == Some(Key::KeyD),
        c == 'e' ==> key_named(seq![c]) == Some(Key::KeyE),
        c == 'f' ==> key_named(seq![c]) == Some(Key::KeyF),
        c == 'g' ==> key_named(seq![c]) == Some(Key::KeyG),
        c == 'h' ==> key_named(seq![c]) == Some(Key::KeyH),
        c == 'i' ==> key_named(seq![c]) == Some(Key::KeyI),
        c == 'j' ==> key_named(seq![c]) == Some(Key::KeyJ),
        c == 'k' ==> key_named(seq![c]) == Some(Key::KeyK),
        c == 'l' ==> key_named(seq![c]) == Some(Key::KeyL),
        c == 'm' ==> key_named(seq![c]) == Some(Key::KeyM),
        c == 'n' ==> key_named(seq![c]) == Some(Key::KeyN),
        c == 'o' ==> key_named(seq![c]) == Some(Key::KeyO),
        c == 'p' ==> key_named(seq![c]) == Some(Key::KeyP),
        c == 'q' ==> key_named(seq![c]) == Some(Key::KeyQ),
        c == 'r' ==> key_named(seq![c]) == Some(Key::KeyR),
        c == 's' ==> key_named(seq![c]) == Some(Key::KeyS),
        c == 't' ==> key_named(seq![c]) == Some(Key::KeyT),
        c == 'u' ==> key_named(seq![c]) == Some(Key::KeyU),
        c == 'v' ==> key_named(seq![c]) == Some(Key::KeyV),
        c == 'w' ==> key_named(seq![c]) == Some(Key::KeyW),
        c == 'x' ==> key_named(seq![c]) == Some(Key::KeyX),
        c == 'y' ==> key_named(seq![c]) == Some(Key::KeyY),
        c == 'z' ==> key_named(seq![c]) == Some(Key::KeyZ),
        c == '0' ==> key_named(seq![c]) == Some(Key::Num0),
        c == '1' ==> key_named(seq![c]) == Some(Key::Num1),
        c == '2' ==> key_named(seq![c]) == Some(Key::Num2),
        c == '3' ==> key_named(seq![c]) == Some(Key::Num3),
        c == '4' ==> key_named(seq![c]) == Some(Key::Num4),
        c == '5' ==> key_named(seq![c]) == Some(Key::Num5),
        c == '6' ==> key_named(seq![c]) == Some(Key::Num6),
        c == '7' ==> key_named(seq![c]) == Some(Key::Num7),
        c == '8' ==> key_named(seq![c]) == Some(Key::Num8),
        c == '9' ==> key_named(seq![c]) == Some(Key::Num9),
        c != 'a' && c != 'b' && c != 'c' && c != 'd' && c != 'e' && c != 'f' && c != 'g' && c != 'h' && c != 'i' && c != 'j' && c != 'k' && c != 'l' && c != 'm' && c != 'n' && c != 'o' && c != 'p' && c != 'q' && c != 'r' && c != 's' && c != 't' && c != 'u' && c != 'v' && c != 'w' && c != 'x' && c != 'y' && c != 'z' && c != '0' && c != '1' && c != '2' && c != '3' && c != '4' && c != '5' && c != '6' && c != '7' && c != '8' && c != '9' ==> key_named(seq![c]) is None,
{
    let s = seq![c];
    reveal_strlit("ctrl");
    assert(s.len() != "ctrl"@.len());
    reveal_strlit("control");
    assert(s.len() != "control"@.len());
    reveal_strlit("shift");
    assert(s.len() != "shift"@.len());
    reveal_strlit("alt");
    assert(s.len() != "alt"@.len());
    reveal_strlit("meta");
    assert(s.len() != "meta"@.len());
    reveal_strlit("super");
    assert(s.len() != "super"@.len());
    reveal_strlit("win");
    assert(s.len() != "win"@.len());
    reveal_strlit("cmd");
    assert(s.len() != "cmd"@.len());
    reveal_strlit("enter");
    assert(s.len() != "enter"@.len());
    reveal_strlit("return");
    assert(s.len() != "return"@.len());
    reveal_strlit("space");
    assert(s.len() != "space"@.len());
    reveal_strlit("backspace");
    assert(s.len() != "backspace"@.len());
    reveal_strlit("delete");
    assert(s.len() != "delete"@.len());
    reveal_strlit("del");
    assert(s.len() != "del"@.len());
    reveal_strlit("tab");
    assert(s.len() != "tab"@.len());
    reveal_strlit("esc");
    assert(s.len() != "esc"@.len());
    reveal_strlit("escape");
    assert(s.len() != "escape"@.len());
    reveal_strlit("up");
    assert(s.len() != "up"@.len());
    reveal_strlit("down");
    assert(s.len() != "down"@.len());
    reveal_strlit("left");
    assert(s.len() != "left"@.len());
    reveal_strlit("right");
    assert(s.len() != "right"@.len());
    reveal_strlit("f1");
    assert(s.len() != "f1"@.len());
    reveal_strlit("f2");
    assert(s.len() != "f2"@.len());
    reveal_strlit("f3");
    assert(s.len() != "f3"@.len());
    reveal_strlit("f4");
    assert(s.len() != "f4"@.len());
    reveal_strlit("f5");
    assert(s.len() != "f5"@.len());
    reveal_strlit("f6");
    assert(s.len() != "f6"@.len());
    reveal_strlit("f7");
    assert(s.len() != "f7"@.len());
    reveal_strlit("f8");
    assert(s.len() != "f8"@.len());
    reveal_strlit("f9");
    assert(s.len() != "f9"@.len());
    reveal_strlit("f10");
    assert(s.len() != "f10"@.len());
    reveal_strlit("f11");
    assert(s.len() != "f11"@.len());
    reveal_strlit("f12");
    assert(s.len() != "f12"@.len());
    assert(s[0] == c);
}

fn is_name(v: &Vec<char>, name: &str) -> (res: bool)
    ensures
        res == (v@ == name@),
{
    let n = chars_of(name);
    chars_equal(v, &n)
}

fn key_of_char(c: char) -> (k: Option<Key>)
    ensures
        k == char_key(c),
{
    match c {
        'a' => Some(Key::KeyA),
        'b' => Some(Key::KeyB),
        'c' => Some(Key::KeyC),
        'd' => Some(Key::KeyD),
        'e' => Some(Key::KeyE),
        'f' => Some(Key::KeyF),
        'g' => Some(Key::KeyG),
        'h' => Some(Key::KeyH),
        'i' => Some(Key::KeyI),
        'j' => Some(Key::KeyJ),
        'k' => Some(Key::KeyK),
        'l' => Some(Key::KeyL),
        'm' => Some(Key::KeyM),
        'n' => Some(Key::KeyN),
        'o' => Some(Key::KeyO),
        'p' => Some(Key::KeyP),
        'q' => Some(Key::KeyQ),
        'r' => Some(Key::KeyR),
        's' => Some(Key::KeyS),
        't' => Some(Key::KeyT),
        'u' => Some(Key::KeyU),
        'v' => Some(Key::KeyV),
        'w' => Some(Key::KeyW),
        'x' => Some(Key::KeyX),
        'y' => Some(Key::KeyY),
        'z' => Some(Key::KeyZ),
        '0' => Some(Key::Num0),
        '1' => Some(Key::Num1),
        '2' => Some(Key::Num2),
        '3' => Some(Key::Num3),
        '4' => Some(Key::Num4),
        '5' => Some(Key::Num5),
        '6' => Some(Key::Num6),
        '7' => Some(Key::Num7),
        '8' => Some(Key::Num8),
        '9' => Some(Key::Num9),
        _ => None,
    }
}

/// The key a key name stands for, the name already trimmed and in lower
/// case: modifier and editing keys by name (`"ctrl"`, `"control"`,
/// `"shift"`, `"alt"`, `"meta"`, `"super"`, `"win"`, `"cmd"`, `"enter"`,
/// `"return"`, `"space"`, `"backspace"`, `"delete"`, `"del"`, `"tab"`,
/// `"esc"`, `"escape"`), the arrows (`"up"`, `"down"`, `"left"`,
/// `"right"`), `"f1"` to `"f12"`, and a single letter or digit; `None` for
/// any other name.
pub fn key_from_name(name: &str) -> (k: Option<Key>)
    ensures
        k == key_named(name@),
{
    let v = chars_of(name);
    if is_name(&v, "ctrl") || is_name(&v, "control") {
        return Some(Key::ControlLeft);
    }
    if is_name(&v, "shift") {
        return Some(Key::ShiftLeft);
    }
    if is_name(&v, "alt") {
        return Some(Key::Alt);
    }
    if is_name(&v, "meta") || is_name(&v, "super") || is_name(&v, "win") || is_name(&v, "cmd") {
        return Some(Key::MetaLeft);
    }
    if is_name(&v, "enter") || is_name(&v, "return") {
        return Some(Key::Return);
    }
    if is_name(&v, "space") {
        return Some(Key::Space);
    }
    if is_name(&v, "backspace") {
        return Some(Key::Backspace);
    }
    if is_name(&v, "delete") || is_name(&v, "del") {
        return Some(Key::Delete);
    }
    if is_name(&v, "tab") {
        return Some(Key::Tab);
    }
    if is_name(&v, "esc") || is_name(&v, "escape") {
        return Some(Key::Escape);
    }
    if is_name(&v, "up") {
        return Some(Key::UpArrow);
    }
    if is_name(&v, "down") {
        return Some(Key::DownArrow);
    }
    if is_name(&v, "left") {
        return Some(Key::LeftArrow);
    }
    if is_name(&v, "right") {
        return Some(Key::RightArrow);
    }
    if is_name(&v, "f1") {
        return Some(Key::F1);
    }
    if is_name(&v, "f2") {
        return Some(Key::F2);
    }
    if is_name(&v, "f3") {
        return Some(Key::F3);
    }
    if is_name(&v, "f4") {
        return Some(Key::F4);
    }
    if is_name(&v, "f5") {
        return Some(Key::F5);
    }
    if is_name(&v, "f6") {
        return Some(Key::F6);
    }
    if is_name(&v, "f7") {
        return Some(Key::F7);
    }
    if is_name(&v, "f8") {
        return Some(Key::F8);
    }
    if is_name(&v, "f9") {
        return Some(Key::F9);
    }
    if is_name(&v, "f10") {
        return Some(Key::F10);
    }
    if is_name(&v, "f11") {
        return Some(Key::F11);
    }
    if is_name(&v, "f12") {
        return Some(Key::F12);
    }
    if v.len() == 1 {
        key_of_char(v[0])
    } else {
        None
    }
}

/// The characters that `char::is_whitespace` accepts: those with the
/// Unicode `White_Space` property.
pub open spec fn is_white_space(c: char) -> bool {
    let u = c as u32;
    (0x9 <= u <= 0xd) || u == 0x20 || u == 0x85 || u == 0xa0 || u == 0x1680 || (0x2000 <= u
        <= 0x200a) || u == 0x2028 || u == 0x2029 || u == 0x202f || u == 0x205f || u == 0x3000
}

/// `s` without its leading white space.
pub open spec fn strip_leading(s: Seq<char>) -> Seq<char>
    decreases s.len(),
{
    if s.len() > 0 && is_white_space(s[0]) {
        strip_leading(s.drop_first())
    } else {
        s
    }
}

/// `s` without its trailing white space.
pub open spec fn strip_trailing(s: Seq<char>) -> Seq<char>
    decreases s.len(),
{
    if s.len() > 0 && is_white_space(s.last()) {
        strip_trailing(s.drop_last())
    } else {
        s
    }
}

/// `s` without leading and trailing white space.
pub open spec fn trimmed_of(s: Seq<char>) -> Seq<char> {
    strip_trailing(strip_leading(s))
}

fn is_white_space_char(c: char) -> (b: bool)
    ensures
        b == is_white_space(c),
{
    let u = c as u32;
    (0x9 <= u && u <= 0xd) || u == 0x20 || u == 0x85 || u == 0xa0 || u == 0x1680 || (0x2000 <= u
        && u <= 0x200a) || u == 0x2028 || u == 0x2029 || u == 0x202f || u == 0x205f || u == 0x3000
}

/// The string without leading and trailing white space, as `str::trim`
/// gives it.
pub fn trim_str(s: &str) -> (res: &str)
    ensures
        res@ == trimmed_of(s@),
{
    let v = chars_of(s);
    let mut start: usize = 0;
    assert(s@.skip(0) =~= s@);
    while start < v.len() && is_white_space_char(v[start])
        invariant
            v@ == s@,
            start <= v.len(),
            strip_leading(s@) == strip_leading(s@.skip(start as int)),
        decreases v.len() - start,
    {
        assert(s@.skip(start as int).drop_first() =~= s@.skip(start + 1));
        start = start + 1;
    }
    assert(strip_leading(s@) == s@.subrange(start as int, v.len() as int)) by {
        assert(s@.skip(start as int) =~= s@.subrange(start as int, v.len() as int));
    }
    let mut end: usize = v.len();
    while end > start && is_white_space_char(v[end - 1])
        invariant
            v@ == s@,
            start <= end <= v.len(),
            trimmed_of(s@) == strip_trailing(s@.subrange(start as int, end as int)),
        decreases end,
    {
        assert(s@.subrange(start as int, end as int).drop_last() =~= s@.subrange(
            start as int,
            end - 1,
        ));
        end = end - 1;
    }
    s.substring_char(start, end)
}

/// What `str::to_lowercase` makes of a string (Unicode case mapping).
pub uninterp spec fn lowercase_of(s: Seq<char>) -> Seq<char>;

/// Every character is ASCII.
pub open spec fn is_ascii_seq(s: Seq<char>) -> bool {
    forall|k: int| 0 <= k < s.len() ==> (s[k] as u32) < 128
}

/// The ASCII lower case of a character: `A`-`Z` become `a`-`z`, every
/// other character stays.
pub open spec fn ascii_lower(c: char) -> char {
    if 65 <= (c as u32) && (c as u32) <= 90 {
        ((c as u32) + 32) as char
    } else {
        c
    }
}

/// `str::to_lowercase`: the string in lower case. On an ASCII string this
/// maps `A`-`Z` to `a`-`z` and keeps every other character; beyond ASCII
/// the result is a function of the string alone, and nothing more is
/// stated of it.
#[verifier::external_body]
fn lowercase(s: &str) -> (res: String)
    ensures
        res@ == lowercase_of(s@),
        is_ascii_seq(s@) ==> res@ == s@.map_values(|c: char| ascii_lower(c)),
{
    s.to_lowercase()
}

/// The lower case of a string: the ASCII mapping on ASCII strings, Unicode
/// case mapping otherwise.
pub open spec fn lower_of(s: Seq<char>) -> Seq<char> {
    if is_ascii_seq(s) {
        s.map_values(|c: char| ascii_lower(c))
    } else {
        lowercase_of(s)
    }
}

/// The pieces of `s` between `'+'` signs, as `str::split('+')` yields them
/// (an empty string gives one empty piece).
pub open spec fn split_on_plus(s: Seq<char>) -> Seq<Seq<char>>
    decreases s.len(),
{
    if s.len() == 0 {
        seq![Seq::<char>::empty()]
    } else {
        let p = split_on_plus(s.drop_last());
        if s.last() == '+' {
            p.push(Seq::<char>::empty())
        } else {
            p.update(p.len() - 1, p.last().push(s.last()))
        }
    }
}

proof fn lemma_split_nonempty(s: Seq<char>)
    ensures
        split_on_plus(s).len() >= 1,
    decreases s.len(),
{
    if s.len() > 0 {
        lemma_split_nonempty(s.drop_last());
    }
}

/// Law: splitting at `'+'` cuts the string into pieces that hold no `'+'`
/// and that, joined again with `'+'`, give back the whole string (so the
/// pieces are exactly the text between the plus signs, in order).
pub proof fn lemma_split_on_plus_rejoins(s: Seq<char>)
    ensures
        forall|k: int, j: int|
            0 <= k < split_on_plus(s).len() && 0 <= j < split_on_plus(s)[k].len()
                ==> #[trigger] split_on_plus(s)[k][j] != '+',
        crate::text::seq_join(split_on_plus(s), seq!['+']) == s,
    decreases s.len(),
{
    lemma_split_nonempty(s);
    if s.len() == 0 {
        assert(split_on_plus(s) =~= seq![Seq::<char>::empty()]);
        assert(crate::text::seq_join(split_on_plus(s), seq!['+']) =~= s);
    } else {
        let pre = s.drop_last();
        let c = s.last();
        lemma_split_on_plus_rejoins(pre);
        lemma_split_nonempty(pre);
        let p = split_on_plus(pre);
        let sep = seq!['+'];
        let q = split_on_plus(s);
        if c == '+' {
            assert(q == p.push(Seq::<char>::empty()));
            assert(q.drop_last() =~= p);
            assert(crate::text::seq_join(q, sep) =~= pre + sep + Seq::<char>::empty());
            assert(s =~= pre + sep);
        } else {
            let x = p.last();
            assert(q == p.update(p.len() - 1, x.push(c)));
            if p.len() == 1 {
                assert(crate::text::seq_join(q, sep) == q[0]);
                assert(crate::text::seq_join(p, sep) == p[0]);
            } else {
                assert(q.drop_last() =~= p.drop_last());
                assert(crate::text::seq_join(q, sep) == crate::text::seq_join(p.drop_last(), sep)
                    + sep + x.push(c));
            }
            assert(crate::text::seq_join(q, sep) =~= pre.push(c));
            assert(s =~= pre.push(c));
            assert forall|k: int, j: int|
                0 <= k < q.len() && 0 <= j < q[k].len() implies #[trigger] q[k][j] != '+' by {
                if k < p.len() - 1 {
                    assert(q[k] == p[k]);
                } else if j < x.len() {
                    assert(q[k][j] == x[j]);
                }
            }
        }
    }
}

proof fn lemma_strip_leading_shape(s: Seq<char>)
    ensures
        exists|a: int|
            0 <= a <= s.len() && strip_leading(s) == s.subrange(a, s.len() as int) && (forall|k: int|
                0 <= k < a ==> is_white_space(#[trigger] s[k])) && (a < s.len() ==> !is_white_space(
                s[a],
            )),
    decreases s.len(),
{
    if s.len() > 0 && is_white_space(s[0]) {
        lemma_strip_leading_shape(s.drop_first());
        let t = s.drop_first();
        let a = choose|a: int|
            0 <= a <= t.len() && strip_leading(t) == t.subrange(a, t.len() as int) && (forall|k: int|
                0 <= k < a ==> is_white_space(#[trigger] t[k])) && (a < t.len() ==> !is_white_space(
                t[a],
            ));
        assert(t.subrange(a, t.len() as int) =~= s.subrange(a + 1, s.len() as int));
        assert forall|k: int| 0 <= k < a + 1 implies is_white_space(#[trigger] s[k]) by {
            if k > 0 {
                assert(s[k] == t[k - 1]);
            }
        }
        assert(a + 1 < s.len() ==> s[a + 1] == t[a]);
    } else {
        assert(s.subrange(0, s.len() as int) =~= s);
    }
}

proof fn lemma_strip_trailing_shape(s: Seq<char>)
    ensures
        exists|b: int|
            0 <= b <= s.len() && strip_trailing(s) == s.subrange(0, b) && (forall|k: int|
                b <= k < s.len() ==> is_white_space(#[trigger] s[k])) && (b > 0 ==> !is_white_space(
                s[b - 1],
            )),
    decreases s.len(),
{
    if s.len() > 0 && is_white_space(s.last()) {
        lemma_strip_trailing_shape(s.drop_last());
        let t = s.drop_last();
        let b = choose|b: int|
            0 <= b <= t.len() && strip_trailing(t) == t.subrange(0, b) && (forall|k: int|
                b <= k < t.len() ==> is_white_space(#[trigger] t[k])) && (b > 0 ==> !is_white_space(
                t[b - 1],
            ));
        assert(t.subrange(0, b) =~= s.subrange(0, b));
        assert forall|k: int| b <= k < s.len() implies is_white_space(#[trigger] s[k]) by {
            if k < t.len() {
                assert(s[k] == t[k]);
            }
        }
    } else {
        assert(s.subrange(0, s.len() as int) =~= s);
    }
}

/// Law: trimming keeps one contiguous stretch of the string: everything
/// before it and after it is white space, and it neither starts nor ends
/// with white space (an all-blank string trims to nothing).
pub proof fn lemma_trim_keeps_the_inner_stretch(s: Seq<char>)
    ensures
        exists|a: int, b: int|
            0 <= a <= b <= s.len() && trimmed_of(s) == s.subrange(a, b) && (forall|k: int|
                0 <= k < a ==> is_white_space(#[trigger] s[k])) && (forall|k: int|
                b <= k < s.len() ==> is_white_space(#[trigger] s[k])) && (a < b ==> !is_white_space(
                s[a],
            ) && !is_white_space(s[b - 1])),
{
    lemma_strip_leading_shape(s);
    let a = choose|a: int|
        0 <= a <= s.len() && strip_leading(s) == s.subrange(a, s.len() as int) && (forall|k: int|
            0 <= k < a ==> is_white_space(#[trigger] s[k])) && (a < s.len() ==> !is_white_space(
            s[a],
        ));
    let t = s.subrange(a, s.len() as int);
    lemma_strip_trailing_shape(t);
    let b = choose|b: int|
        0 <= b <= t.len() && strip_trailing(t) == t.subrange(0, b) && (forall|k: int|
            b <= k < t.len() ==> is_white_space(#[trigger] t[k])) && (b > 0 ==> !is_white_space(
            t[b - 1],
        ));
    assert(t.subrange(0, b) =~= s.subrange(a, a + b));
    assert forall|k: int| a + b <= k < s.len() implies is_white_space(#[trigger] s[k]) by {
        assert(s[k] == t[k - a]);
    }
    if b > 0 {
        assert(s[a] == t[0]);
        assert(s[a + b - 1] == t[b - 1]);
    }
    assert(0 <= a <= a + b <= s.len() && trimmed_of(s) == s.subrange(a, a + b));
}

/// The key a piece of a key chord names: the piece trimmed, put in lower
/// case and looked up.
pub open spec fn piece_key(piece: Seq<char>) -> Option<Key> {
    key_named(lower_of(trimmed_of(piece)))
}

/// The keys that the pieces name, in order, skipping pieces that name none.
pub open spec fn keys_in(pieces: Seq<Seq<char>>) -> Seq<Key>
    decreases pieces.len(),
{
    if pieces.len() == 0 {
        Seq::empty()
    } else {
        let k = keys_in(pieces.drop_last());
        match piece_key(pieces.last()) {
            Some(key) => k.push(key),
            None => k,
        }
    }
}

fn push_piece_key(keys: &mut Vec<Key>, piece: &str)
    ensures
        final(keys)@ == match piece_key(piece@) {
            Some(k) => old(keys)@.push(k),
            None => old(keys)@,
        },
{
    let trimmed = trim_str(piece);
    let lower = lowercase(trimmed);
    match key_from_name(lower.as_str()) {
        Some(k) => keys.push(k),
        None => {},
    }
}

/// The keys of a key chord such as `"Ctrl+Shift+T"`: the chord is split at
/// `'+'`, each piece trimmed and put in lower case, and the pieces that
/// name a key (see `key_from_name`) give the keys, in order.
pub fn parse_keys(chord: &str) -> (keys: Vec<Key>)
    ensures
        keys@ == keys_in(split_on_plus(chord@)),
{
    let v = chars_of(chord);
    let mut keys: Vec<Key> = Vec::new();
    let ghost mut done: Seq<Seq<char>> = Seq::empty();
    let mut start: usize = 0;
    let mut i: usize = 0;
    assert(chord@.take(0) =~= Seq::<char>::empty());
    assert(chord@.subrange(0, 0) =~= Seq::<char>::empty());
    while i < v.len()
        invariant
            v@ == chord@,
            start <= i <= v.len(),
            split_on_plus(chord@.take(i as int)) == done.push(chord@.subrange(start as int, i as int)),
            keys@ == keys_in(done),
        decreases v.len() - i,
    {
        let ghost prev = chord@.take(i as int);
        assert(chord@.take(i + 1).drop_last() =~= prev);
        assert(chord@.take(i + 1).last() == chord@[i as int]);
        if v[i] == '+' {
            let piece = chord.substring_char(start, i);
            push_piece_key(&mut keys, piece);
            proof {
                let part = chord@.subrange(start as int, i as int);
                assert(done.push(part).drop_last() =~= done);
                done = done.push(part);
                assert(chord@.subrange(i + 1, i + 1) =~= Seq::<char>::empty());
            }
            start = i + 1;
        } else {
            proof {
                let part = chord@.subrange(start as int, i as int);
                assert(chord@.subrange(start as int, i + 1) =~= part.push(chord@[i as int]));
                assert(done.push(part).update(done.len() as int, part.push(chord@[i as int]))
                    =~= done.push(part.push(chord@[i as int])));
            }
        }
        i = i + 1;
    }
    let piece = chord.substring_char(start, v.len());
    push_piece_key(&mut keys, piece);
    proof {
        let part = chord@.subrange(start as int, v.len() as int);
        assert(chord@.take(v.len() as int) =~= chord@);
        assert(done.push(part).drop_last() =~= done);
    }
    keys
}

/// How many times a chord is typed: the configured count, at least once.
pub open spec fn rounds_of(count: Option<u32>) -> nat {
    match count {
        Some(n) => if n >= 1 {
            n as nat
        } else {
            1
        },
        None => 1,
    }
}

/// The pause between two typings of a chord, zero when none is configured.
pub open spec fn pause_of(interval: Option<u64>) -> u64 {
    match interval {
        Some(ms) => ms,
        None => 0,
    }
}

/// Law: a chord is typed as many times as configured, but at least once
/// (a missing or zero count types it once), and the pause between typings
/// is the configured one, none when it is missing.
pub proof fn lemma_rounds_and_pause(count: Option<u32>, interval: Option<u64>)
    ensures
        rounds_of(count) >= 1,
        count is None ==> rounds_of(count) == 1,
        count matches Some(n) ==> (n >= 1 ==> rounds_of(count) == n) && (n == 0 ==> rounds_of(
            count,
        ) == 1),
        interval is None ==> pause_of(interval) == 0,
        interval matches Some(ms) ==> pause_of(interval) == ms,
{
}

/// One typing of a chord: every key pressed in order, then released in
/// reverse order.
pub open spec fn chord_round(keys: Seq<Key>) -> Seq<KeyStep> {
    keys.map_values(|k: Key| KeyStep::Press(k)) + keys.reverse().map_values(
        |k: Key| KeyStep::Release(k),
    )
}

/// `rounds` typings of a chord, with a pause of `pause` milliseconds
/// between two typings when the pause is not zero.
pub open spec fn chord_plan(keys: Seq<Key>, rounds: nat, pause: u64) -> Seq<KeyStep>
    decreases rounds,
{
    if rounds <= 1 {
        chord_round(keys)
    } else {
        chord_plan(keys, (rounds - 1) as nat, pause) + (if pause > 0 {
            seq![KeyStep::Sleep(pause)]
        } else {
            Seq::empty()
        }) + chord_round(keys)
    }
}

fn push_round(steps: &mut Vec<KeyStep>, keys: &Vec<Key>)
    ensures
        final(steps)@ == old(steps)@ + chord_round(keys@),
{
    let ghost base = steps@;
    let mut i: usize = 0;
    while i < keys.len()
        invariant
            i <= keys.len(),
            steps@ == base + keys@.take(i as int).map_values(|k: Key| KeyStep::Press(k)),
        decreases keys.len() - i,
    {
        steps.push(KeyStep::Press(keys[i]));
        assert(keys@.take(i + 1) =~= keys@.take(i as int).push(keys@[i as int]));
        assert(keys@.take(i + 1).map_values(|k: Key| KeyStep::Press(k)) =~= keys@.take(
            i as int,
        ).map_values(|k: Key| KeyStep::Press(k)).push(KeyStep::Press(keys@[i as int])));
        i = i + 1;
    }
    assert(keys@.take(keys.len() as int) =~= keys@);
    let ghost mid = steps@;
    let mut j: usize = keys.len();
    while j > 0
        invariant
            j <= keys.len(),
            steps@ == mid + keys@.subrange(j as int, keys.len() as int).reverse().map_values(
                |k: Key| KeyStep::Release(k),
            ),
        decreases j,
    {
        j = j - 1;
        steps.push(KeyStep::Release(keys[j]));
        assert(keys@.subrange(j as int, keys.len() as int).reverse() =~= keys@.subrange(
            j + 1,
            keys.len() as int,
        ).reverse().push(keys@[j as int]));
        assert(keys@.subrange(j as int, keys.len() as int).reverse().map_values(
            |k: Key| KeyStep::Release(k),
        ) =~= keys@.subrange(j + 1, keys.len() as int).reverse().map_values(
            |k: Key| KeyStep::Release(k),
        ).push(KeyStep::Release(keys@[j as int])));
    }
    assert(keys@.subrange(0, keys.len() as int) =~= keys@);
    assert(steps@ =~= old(steps)@ + chord_round(keys@));
}

/// The key steps that type a chord: `repeat_count` typings (once when the
/// count is missing or zero), each pressing the keys in order and releasing
/// them in reverse, with a pause of `repeat_interval` milliseconds between
/// two typings when that is set and not zero.
pub fn key_sequence(keys: &Vec<Key>, repeat_count: Option<u32>, repeat_interval: Option<u64>) -> (steps: Vec<KeyStep>)
    ensures
        steps@ == chord_plan(keys@, rounds_of(repeat_count), pause_of(repeat_interval)),
{
    let rounds: u32 = match repeat_count {
        Some(n) => if n >= 1 {
            n
        } else {
            1
        },
        None => 1,
    };
    let pause: u64 = match repeat_interval {
        Some(ms) => ms,
        None => 0,
    };
    let mut steps: Vec<KeyStep> = Vec::new();
    push_round(&mut steps, keys);
    assert(steps@ =~= chord_plan(keys@, 1, pause));
    let mut i: u32 = 1;
    while i < rounds
        invariant
            1 <= i <= rounds,
            rounds == rounds_of(repeat_count),
            pause == pause_of(repeat_interval),
            steps@ == chord_plan(keys@, i as nat, pause),
        decreases rounds - i,
    {
        let ghost before = steps@;
        if pause > 0 {
            steps.push(KeyStep::Sleep(pause));
        }
        push_round(&mut steps, keys);
        assert(steps@ =~= chord_plan(keys@, (i + 1) as nat, pause));
        i = i + 1;
    }
    steps
}

/// Whether gesture `g` fires for the detected gesture text `detected` while
/// the foreground application's path is `app` (when it is known): `g` is
/// enabled, its trigger is exactly the text, and if it is limited to an
/// executable, the path is known and contains it.
pub open spec fn gesture_fires(g: Gesture, detected: Seq<char>, app: Option<Seq<char>>) -> bool {
    &&& g.enabled
    &&& g.trigger@ == detected
    &&& match g.target_bin {
        None => true,
        Some(t) => match app {
            Some(a) => seq_contains(a, t@),
            None => false,
        },
    }
}

/// The indices, in increasing order, of the gestures that fire.
pub open spec fn fired(gestures: Seq<Gesture>, detected: Seq<char>, app: Option<Seq<char>>) -> Seq<usize>
    decreases gestures.len(),
{
    if gestures.len() == 0 {
        Seq::empty()
    } else {
        let p = fired(gestures.drop_last(), detected, app);
        if gesture_fires(gestures.last(), detected, app) {
            p.push((gestures.len() - 1) as usize)
        } else {
            p
        }
    }
}

/// The view of an optional application path.
pub open spec fn app_view(app: Option<&str>) -> Option<Seq<char>> {
    match app {
        Some(a) => Some(a@),
        None => None,
    }
}

/// The gestures (by index, in configuration order) that the detected
/// gesture text fires, given the foreground application's path when known.
pub fn matching_gestures(gestures: &Vec<Gesture>, detected: &str, current_app: Option<&str>) -> (idx: Vec<usize>)
    ensures
        idx@ == fired(gestures@, detected@, app_view(current_app)),
{
    let mut idx: Vec<usize> = Vec::new();
    let mut i: usize = 0;
    while i < gestures.len()
        invariant
            i <= gestures.len(),
            idx@ == fired(gestures@.take(i as int), detected@, app_view(current_app)),
        decreases gestures.len() - i,
    {
        assert(gestures@.take(i + 1).drop_last() =~= gestures@.take(i as int));
        assert(gestures@.take(i + 1).last() == gestures@[i as int]);
        let g = &gestures[i];
        let mut fires = g.enabled && str_equals_string(&g.trigger, detected);
        if fires {
            match &g.target_bin {
                None => {},
                Some(t) => match current_app {
                    Some(a) => {
                        fires = str_contains(a, t.as_str());
                    },
                    None => {
                        fires = false;
                    },
                },
            }
        }
        if fires {
            idx.push(i);
        }
        i = i + 1;
    }
    assert(gestures@.take(gestures.len() as int) =~= gestures@);
    idx
}

fn str_equals_string(a: &String, b: &str) -> (res: bool)
    ensures
        res == (a@ == b@),
{
    crate::text::str_equals(a.as_str(), b)
}

/// Law: the gestures a detected gesture fires are exactly the enabled
/// gestures whose trigger is its text and whose executable limit (if any)
/// the foreground application meets, each listed once, in configuration
/// order.
pub proof fn lemma_fired_are_exactly_the_firing_gestures(
    gestures: Seq<Gesture>,
    detected: Seq<char>,
    app: Option<Seq<char>>,
)
    requires
        gestures.len() <= usize::MAX,
    ensures
        forall|k: int|
            0 <= k < fired(gestures, detected, app).len() ==> {
                let i = #[trigger] fired(gestures, detected, app)[k];
                &&& i < gestures.len()
                &&& gesture_fires(gestures[i as int], detected, app)
            },
        forall|k1: int, k2: int|
            0 <= k1 < k2 < fired(gestures, detected, app).len() ==> #[trigger] fired(
                gestures,
                detected,
                app,
            )[k1] < #[trigger] fired(gestures, detected, app)[k2],
        forall|i: int|
            0 <= i < gestures.len() && #[trigger] gesture_fires(gestures[i], detected, app)
                ==> fired(gestures, detected, app).contains(i as usize),
    decreases gestures.len(),
{
    if gestures.len() > 0 {
        let prefix = gestures.drop_last();
        lemma_fired_are_exactly_the_firing_gestures(prefix, detected, app);
        let p = fired(prefix, detected, app);
        let f = fired(gestures, detected, app);
        assert forall|k: int| 0 <= k < p.len() implies p[k] < prefix.len() && gestures[p[k] as int]
            == prefix[p[k] as int] && f[k] == p[k] by {}
        assert forall|k1: int, k2: int| 0 <= k1 < k2 < f.len() implies #[trigger] f[k1] < #[trigger] f[k2] by {
            if k2 == p.len() {
                assert(p[k1] < prefix.len());
            } else {
                assert(p[k1] < p[k2]);
            }
        }
        assert forall|i: int|
            0 <= i < gestures.len() && #[trigger] gesture_fires(gestures[i], detected, app)
                implies f.contains(i as usize) by {
            if i < prefix.len() {
                assert(prefix[i] == gestures[i]);
                assert(gesture_fires(prefix[i], detected, app));
                let k = choose|k: int| 0 <= k < p.len() && p[k] == i as usize;
                assert(f[k] == i as usize);
            } else {
                assert(f[p.len() as int] == i as usize);
            }
        }
    }
}

/// Whether the foreground application meets a gesture's executable limit:
/// no limit, or a known application path that contains the limit.
pub open spec fn target_met(target: Option<String>, app: Option<Seq<char>>) -> bool {
    match target {
        None => true,
        Some(t) => app is Some && seq_contains(app->0, t@),
    }
}

/// Law: a gesture fires exactly when it is enabled, its trigger is the
/// detected text itself (equal, not merely contained in it), and the
/// foreground application meets its executable limit. Every index handed
/// out names such a gesture, and every such gesture is handed out.
pub proof fn lemma_fired_gestures_have_exactly_the_detected_trigger(
    gestures: Seq<Gesture>,
    detected: Seq<char>,
    app: Option<Seq<char>>,
)
    requires
        gestures.len() <= usize::MAX,
    ensures
        forall|k: int|
            0 <= k < fired(gestures, detected, app).len() ==> {
                let i = #[trigger] fired(gestures, detected, app)[k] as int;
                &&& 0 <= i < gestures.len()
                &&& gestures[i].enabled
                &&& gestures[i].trigger@ == detected
                &&& target_met(gestures[i].target_bin, app)
            },
        forall|i: int|
            0 <= i < gestures.len() && #[trigger] gestures[i].enabled && gestures[i].trigger@
                == detected && target_met(gestures[i].target_bin, app) ==> fired(
                gestures,
                detected,
                app,
            ).contains(i as usize),
{
    lemma_fired_are_exactly_the_firing_gestures(gestures, detected, app);
    assert forall|i: int|
        0 <= i < gestures.len() && #[trigger] gestures[i].enabled && gestures[i].trigger@
            == detected && target_met(gestures[i].target_bin, app) implies fired(
        gestures,
        detected,
        app,
    ).contains(i as usize) by {
        assert(gesture_fires(gestures[i], detected, app));
    }
}

/// Law: the layout of the key steps of a chord. With `n` keys and a pause
/// step between rounds (`s` is 1 when the pause is not zero, else 0), every
/// round takes `w = 2n + s` steps: at offset `q < n` within its round stands
/// the press of key `q` (the keys go down in chord order), at offset
/// `n <= q < 2n` the release of key `2n - 1 - q` (they come up in reverse
/// order), and at offset `2n` the pause; the last round has no pause.
pub proof fn lemma_chord_plan_layout(keys: Seq<Key>, rounds: nat, pause: u64)
    requires
        rounds >= 1,
    ensures
        ({
            let n = keys.len() as int;
            let sp: int = if pause > 0 { 1 } else { 0 };
            let w = 2 * n + sp;
            let plan = chord_plan(keys, rounds, pause);
            &&& plan.len() == rounds * w - sp
            &&& forall|p: int|
                0 <= p < plan.len() ==> {
                    let q = p % w;
                    &&& q < n ==> #[trigger] plan[p] == KeyStep::Press(keys[q])
                    &&& n <= q < 2 * n ==> plan[p] == KeyStep::Release(keys[2 * n - 1 - q])
                    &&& q == 2 * n ==> plan[p] == KeyStep::Sleep(pause)
                }
        }),
    decreases rounds,
{
    let n = keys.len() as int;
    let sp: int = if pause > 0 { 1 } else { 0 };
    let w = 2 * n + sp;
    let plan = chord_plan(keys, rounds, pause);
    let round = chord_round(keys);
    assert(round.len() == 2 * n);
    assert forall|u: int| 0 <= u < 2 * n implies round[u] == if u < n {
        KeyStep::Press(keys[u])
    } else {
        KeyStep::Release(keys[2 * n - 1 - u])
    } by {
        if u >= n {
            assert(keys.reverse()[u - n] == keys[n - 1 - (u - n)]);
        }
    }
    if rounds == 1 {
        assert(rounds * w - sp == 2 * n) by (nonlinear_arith)
            requires
                rounds == 1,
                w == 2 * n + sp,
        ;
        assert forall|p: int| 0 <= p < plan.len() implies {
            let q = p % w;
            &&& q < n ==> #[trigger] plan[p] == KeyStep::Press(keys[q])
            &&& n <= q < 2 * n ==> plan[p] == KeyStep::Release(keys[2 * n - 1 - q])
            &&& q == 2 * n ==> plan[p] == KeyStep::Sleep(pause)
        } by {
            vstd::arithmetic::div_mod::lemma_small_mod(p as nat, w as nat);
        }
    } else {
        let r1 = (rounds - 1) as nat;
        lemma_chord_plan_layout(keys, r1, pause);
        let prev = chord_plan(keys, r1, pause);
        let mid: Seq<KeyStep> = if pause > 0 { seq![KeyStep::Sleep(pause)] } else { Seq::empty() };
        assert(plan == prev + mid + round);
        assert(prev.len() == r1 * w - sp);
        assert(rounds * w - sp == r1 * w - sp + sp + 2 * n) by (nonlinear_arith)
            requires
                rounds == r1 + 1,
                w == 2 * n + sp,
        ;
        assert forall|p: int| 0 <= p < plan.len() implies {
            let q = p % w;
            &&& q < n ==> #[trigger] plan[p] == KeyStep::Press(keys[q])
            &&& n <= q < 2 * n ==> plan[p] == KeyStep::Release(keys[2 * n - 1 - q])
            &&& q == 2 * n ==> plan[p] == KeyStep::Sleep(pause)
        } by {
            if p < prev.len() {
                assert(plan[p] == prev[p]);
            } else {
                let base = r1 * w;
                assert(prev.len() == base - sp);
                if sp == 1 && p == prev.len() {
                    assert(plan[p] == KeyStep::Sleep(pause));
                    assert(p == (r1 - 1) * w + 2 * n) by (nonlinear_arith)
                        requires
                            p == base - sp,
                            base == r1 * w,
                            w == 2 * n + sp,
                            sp == 1,
                    ;
                    vstd::arithmetic::div_mod::lemma_mod_multiples_vanish(
                        (r1 - 1) as int,
                        2 * n,
                        w,
                    );
                    vstd::arithmetic::div_mod::lemma_small_mod((2 * n) as nat, w as nat);
                    assert(p == w * (r1 - 1) + 2 * n) by (nonlinear_arith)
                        requires
                            p == (r1 - 1) * w + 2 * n,
                    ;
                } else {
                    let u = p - base;
                    assert(0 <= u < 2 * n);
                    assert(plan[p] == round[u]);
                    vstd::arithmetic::div_mod::lemma_mod_multiples_vanish(r1 as int, u, w);
                    vstd::arithmetic::div_mod::lemma_small_mod(u as nat, w as nat);
                    assert(p == w * r1 + u) by (nonlinear_arith)
                        requires
                            p == base + u,
                            base == r1 * w,
                    ;
                }
            }
        }
    }
}

/// Law: typing a chord `rounds` times takes two steps per key and round,
/// plus one pause between two rounds when the pause is not zero.
pub proof fn lemma_chord_plan_length(keys: Seq<Key>, rounds: nat, pause: u64)
    requires
        rounds >= 1,
    ensures
        chord_plan(keys, rounds, pause).len() == 2 * keys.len() * rounds + if pause > 0 {
            (rounds - 1) as nat
        } else {
            0
        },
    decreases rounds,
{
    assert(chord_round(keys).len() == 2 * keys.len());
    if rounds == 1 {
        assert(2 * keys.len() * rounds == 2 * keys.len()) by (nonlinear_arith)
            requires
                rounds == 1,
        ;
    }
    if rounds > 1 {
        lemma_chord_plan_length(keys, (rounds - 1) as nat, pause);
        assert(2 * keys.len() * rounds == 2 * keys.len() * (rounds - 1) + 2 * keys.len())
            by (nonlinear_arith);
    }
}

proof fn lemma_ascii_lower_char(c: char)
    ensures
        is_white_space(ascii_lower(c)) == is_white_space(c),
        ascii_lower(ascii_lower(c)) == ascii_lower(c),
        (c as u32) < 128 ==> (ascii_lower(c) as u32) < 128,
{
}

proof fn lemma_strip_commutes_with_lower(s: Seq<char>)
    ensures
        strip_leading(s.map_values(|c: char| ascii_lower(c))) == strip_leading(s).map_values(
            |c: char| ascii_lower(c),
        ),
        strip_trailing(s.map_values(|c: char| ascii_lower(c))) == strip_trailing(s).map_values(
            |c: char| ascii_lower(c),
        ),
        is_ascii_seq(s) ==> is_ascii_seq(strip_leading(s)) && is_ascii_seq(strip_trailing(s)),
    decreases s.len(),
{
    let m = s.map_values(|c: char| ascii_lower(c));
    if s.len() > 0 {
        lemma_ascii_lower_char(s[0]);
        lemma_ascii_lower_char(s.last());
        assert(m[0] == ascii_lower(s[0]));
        assert(m.last() == ascii_lower(s.last()));
        assert(m.drop_first() =~= s.drop_first().map_values(|c: char| ascii_lower(c)));
        assert(m.drop_last() =~= s.drop_last().map_values(|c: char| ascii_lower(c)));
        lemma_strip_commutes_with_lower(s.drop_first());
        lemma_strip_commutes_with_lower(s.drop_last());
        if is_ascii_seq(s) {
            assert(is_ascii_seq(s.drop_first()) && is_ascii_seq(s.drop_last())) by {
                assert forall|k: int| 0 <= k < s.drop_first().len() implies (s.drop_first()[k] as u32) < 128 by {
                    assert(s.drop_first()[k] == s[k + 1]);
                }
                assert forall|k: int| 0 <= k < s.drop_last().len() implies (s.drop_last()[k] as u32) < 128 by {
                    assert(s.drop_last()[k] == s[k]);
                }
            }
        }
    }
}

/// Law: key chords are read without regard to ASCII case: a piece of a
/// chord written in ASCII names the same key as its lower-case form (so
/// `"Ctrl"`, `"CTRL"` and `"ctrl"` all name the control key).
pub proof fn lemma_piece_key_ignores_ascii_case(piece: Seq<char>)
    requires
        is_ascii_seq(piece),
    ensures
        piece_key(piece.map_values(|c: char| ascii_lower(c))) == piece_key(piece),
{
    let low = piece.map_values(|c: char| ascii_lower(c));
    lemma_strip_commutes_with_lower(piece);
    let l = strip_leading(piece);
    lemma_strip_commutes_with_lower(l);
    let t = trimmed_of(piece);
    assert(trimmed_of(low) == t.map_values(|c: char| ascii_lower(c)));
    let tl = t.map_values(|c: char| ascii_lower(c));
    assert(is_ascii_seq(t));
    assert forall|k: int| 0 <= k < tl.len() implies (tl[k] as u32) < 128 by {
        lemma_ascii_lower_char(t[k]);
    }
    assert(tl.map_values(|c: char| ascii_lower(c)) =~= tl) by {
        assert forall|k: int| 0 <= k < tl.len() implies tl.map_values(|c: char| ascii_lower(c))[k]
            == tl[k] by {
            lemma_ascii_lower_char(t[k]);
        }
    }
}

} // verus!
