//! What a key press does while a word or a password is edited, or a word shown.

use vstd::prelude::*;
use crate::cli::{pop_char, push_char};

verus! {

/// A key that the terminal reports.
#[derive(Clone, Copy, Debug, PartialEq, Eq, Structural)]
pub enum Key {
    Char(char),
    Backspace,
    Enter,
    Left,
    Up,
    Right,
    Down,
    Esc,
    Other,
}

/// An event that the terminal reports.
#[derive(Clone, Copy, Debug, PartialEq, Eq, Structural)]
pub enum InputEvent {
    Key(Key),
    Resize,
    Other,
}

/// How the editing of a word ends.
#[derive(Clone, Copy, Debug, PartialEq, Eq, Structural)]
pub enum EditWord {
    Prev,
    Next,
    Submit,
    Reload,
    Exit,
}

/// How the editing of a password ends.
#[derive(Clone, Copy, Debug, PartialEq, Eq, Structural)]
pub enum EditPwd {
    Submit,
    Reload,
    Exit,
}

/// How the showing of a word ends.
#[derive(Clone, Copy, Debug, PartialEq, Eq, Structural)]
pub enum ViewWord {
    Prev,
    Next,
    Done,
    Reload,
    Exit,
}

/// What a key press does to the text being edited.
#[derive(Debug, PartialEq, Eq, Structural)]
pub enum EditStep<T> {
    /// A character was added: show one more mask.
    Typed,
    /// The last character was removed: take its mask away.
    Erased,
    /// The editing is over.
    Finished(T),
    /// Nothing happens.
    Ignored,
}

/// The text after a key press while a word is edited, and what the press does.
pub open spec fn word_key_effect(buf: Seq<char>, event: InputEvent) -> (Seq<char>, EditStep<
    EditWord,
>) {
    match event {
        InputEvent::Key(Key::Char(c)) => if c == ' ' {
            (buf, EditStep::Finished(EditWord::Next))
        } else {
            (buf.push(c), EditStep::Typed)
        },
        InputEvent::Key(Key::Backspace) => if buf.len() == 0 {
            (buf, EditStep::Finished(EditWord::Prev))
        } else {
            (buf.drop_last(), EditStep::Erased)
        },
        InputEvent::Key(Key::Enter) => (buf, EditStep::Finished(EditWord::Submit)),
        InputEvent::Key(Key::Left) | InputEvent::Key(Key::Up) => (
            buf,
            EditStep::Finished(EditWord::Prev),
        ),
        InputEvent::Key(Key::Right) | InputEvent::Key(Key::Down) => (
            buf,
            EditStep::Finished(EditWord::Next),
        ),
        InputEvent::Key(Key::Esc) => (buf, EditStep::Finished(EditWord::Exit)),
        InputEvent::Resize => (buf, EditStep::Finished(EditWord::Reload)),
        _ => (buf, EditStep::Ignored),
    }
}

/// The text after a key press while a password is edited, and what the press does.
pub open spec fn password_key_effect(buf: Seq<char>, event: InputEvent) -> (Seq<char>, EditStep<
    EditPwd,
>) {
    match event {
        InputEvent::Key(Key::Char(c)) => (buf.push(c), EditStep::Typed),
        InputEvent::Key(Key::Backspace) => if buf.len() == 0 {
            (buf, EditStep::Ignored)
        } else {
            (buf.drop_last(), EditStep::Erased)
        },
        InputEvent::Key(Key::Enter) => (buf, EditStep::Finished(EditPwd::Submit)),
        InputEvent::Key(Key::Esc) => (buf, EditStep::Finished(EditPwd::Exit)),
        InputEvent::Resize => (buf, EditStep::Finished(EditPwd::Reload)),
        _ => (buf, EditStep::Ignored),
    }
}

/// What a key press does while a word is shown.
pub open spec fn view_key_effect(event: InputEvent) -> Option<ViewWord> {
    match event {
        InputEvent::Key(Key::Enter) => Some(ViewWord::Done),
        InputEvent::Key(Key::Left) | InputEvent::Key(Key::Up) => Some(ViewWord::Prev),
        InputEvent::Key(Key::Right) | InputEvent::Key(Key::Down) => Some(ViewWord::Next),
        InputEvent::Key(Key::Esc) => Some(ViewWord::Exit),
        InputEvent::Resize => Some(ViewWord::Reload),
        _ => None,
    }
}

/// The text and the steps of an editing of a word that starts from `buf` and
/// receives `events`, up to and including the step that ends it.
pub open spec fn word_run(buf: Seq<char>, events: Seq<InputEvent>) -> (Seq<char>, Seq<
    EditStep<EditWord>,
>)
    decreases events.len(),
{
    if events.len() == 0 {
        (buf, Seq::empty())
    } else {
        let (next, step) = word_key_effect(buf, events[0]);
        if step is Finished {
            (next, seq![step])
        } else {
            let (last, steps) = word_run(next, events.drop_first());
            (last, seq![step] + steps)
        }
    }
}

/// The text and the steps of an editing of a password that starts from `buf`
/// and receives `events`, up to and including the step that ends it.
pub open spec fn password_run(buf: Seq<char>, events: Seq<InputEvent>) -> (Seq<char>, Seq<
    EditStep<EditPwd>,
>)
    decreases events.len(),
{
    if events.len() == 0 {
        (buf, Seq::empty())
    } else {
        let (next, step) = password_key_effect(buf, events[0]);
        if step is Finished {
            (next, seq![step])
        } else {
            let (last, steps) = password_run(next, events.drop_first());
            (last, seq![step] + steps)
        }
    }
}

/// `a` and `b` are the same event, or both type a character other than a space.
pub open spec fn word_events_alike(a: InputEvent, b: InputEvent) -> bool {
    ||| a == b
    ||| (a matches InputEvent::Key(Key::Char(c)) && c != ' ') && (b matches InputEvent::Key(
        Key::Char(d),
    ) && d != ' ')
}

/// `a` and `b` are the same event, or both type a character.
pub open spec fn password_events_alike(a: InputEvent, b: InputEvent) -> bool {
    ||| a == b
    ||| (a is Key && a->Key_0 is Char) && (b is Key && b->Key_0 is Char)
}

/// What is typed into a word never shows: two editings that start from texts
/// of the same length and receive events that differ at most in which
/// character other than a space is typed take the same steps (the same masks
/// shown and taken away, and the same end) and leave texts of the same length.
pub proof fn lemma_word_run_hides_typing(
    b1: Seq<char>,
    b2: Seq<char>,
    e1: Seq<InputEvent>,
    e2: Seq<InputEvent>,
)
    requires
        b1.len() == b2.len(),
        e1.len() == e2.len(),
        forall|i: int| 0 <= i < e1.len() ==> word_events_alike(#[trigger] e1[i], e2[i]),
    ensures
        word_run(b1, e1).1 == word_run(b2, e2).1,
        word_run(b1, e1).0.len() == word_run(b2, e2).0.len(),
    decreases e1.len(),
{
    if e1.len() > 0 {
        assert(word_events_alike(e1[0], e2[0]));
        let (n1, s1) = word_key_effect(b1, e1[0]);
        let (n2, s2) = word_key_effect(b2, e2[0]);
        assert(s1 == s2 && n1.len() == n2.len());
        if !(s1 is Finished) {
            assert forall|i: int| 0 <= i < e1.drop_first().len() implies word_events_alike(
                #[trigger] e1.drop_first()[i],
                e2.drop_first()[i],
            ) by {
                assert(word_events_alike(e1[i + 1], e2[i + 1]));
            }
            lemma_word_run_hides_typing(n1, n2, e1.drop_first(), e2.drop_first());
        }
    }
}

/// What is typed into a password never shows: two editings that start from
/// texts of the same length and receive events that differ at most in which
/// characters are typed take the same steps (one mask for each character, and
/// the same end) and leave texts of the same length.
pub proof fn lemma_password_run_hides_typing(
    b1: Seq<char>,
    b2: Seq<char>,
    e1: Seq<InputEvent>,
    e2: Seq<InputEvent>,
)
    requires
        b1.len() == b2.len(),
        e1.len() == e2.len(),
        forall|i: int| 0 <= i < e1.len() ==> password_events_alike(#[trigger] e1[i], e2[i]),
    ensures
        password_run(b1, e1).1 == password_run(b2, e2).1,
        password_run(b1, e1).0.len() == password_run(b2, e2).0.len(),
    decreases e1.len(),
{
    if e1.len() > 0 {
        assert(password_events_alike(e1[0], e2[0]));
        let (n1, s1) = password_key_effect(b1, e1[0]);
        let (n2, s2) = password_key_effect(b2, e2[0]);
        assert(s1 == s2 && n1.len() == n2.len());
        if !(s1 is Finished) {
            assert forall|i: int| 0 <= i < e1.drop_first().len() implies password_events_alike(
                #[trigger] e1.drop_first()[i],
                e2.drop_first()[i],
            ) by {
                assert(password_events_alike(e1[i + 1], e2[i + 1]));
            }
            lemma_password_run_hides_typing(n1, n2, e1.drop_first(), e2.drop_first());
        }
    }
}

/// Backspace takes back what was typed: a character typed into a password
/// and then erased leaves the password as it was, and each key press changes
/// the password only at its end.
pub proof fn lemma_password_backspace_undoes_typing(buf: Seq<char>, c: char)
    ensures
        password_key_effect(buf, InputEvent::Key(Key::Char(c))) == (buf.push(c), EditStep::<
            EditPwd,
        >::Typed),
        password_key_effect(buf.push(c), InputEvent::Key(Key::Backspace)) == (buf, EditStep::<
            EditPwd,
        >::Erased),
        forall|e: InputEvent|
            #![trigger password_key_effect(buf, e)]
            {
                let next = password_key_effect(buf, e).0;
                ||| next == buf
                ||| next.len() == buf.len() + 1 && next.subrange(0, buf.len() as int) == buf
                ||| buf.len() > 0 && next == buf.subrange(0, buf.len() - 1)
            },
{
    assert(buf.push(c).drop_last() =~= buf);
    assert forall|e: InputEvent| #![trigger password_key_effect(buf, e)]
        {
            let next = password_key_effect(buf, e).0;
            ||| next == buf
            ||| next.len() == buf.len() + 1 && next.subrange(0, buf.len() as int) == buf
            ||| buf.len() > 0 && next == buf.subrange(0, buf.len() - 1)
        } by {
        if let InputEvent::Key(Key::Char(d)) = e {
            assert(buf.push(d).subrange(0, buf.len() as int) =~= buf);
        }
    }
}

/// Backspace takes back what was typed into a word: a character other than a
/// space typed and then erased leaves the word as it was, and each key press
/// changes the word only at its end.
pub proof fn lemma_word_backspace_undoes_typing(buf: Seq<char>, c: char)
    requires
        c != ' ',
    ensures
        word_key_effect(buf, InputEvent::Key(Key::Char(c))) == (buf.push(c), EditStep::<
            EditWord,
        >::Typed),
        word_key_effect(buf.push(c), InputEvent::Key(Key::Backspace)) == (buf, EditStep::<
            EditWord,
        >::Erased),
        forall|e: InputEvent|
            #![trigger word_key_effect(buf, e)]
            {
                let next = word_key_effect(buf, e).0;
                ||| next == buf
                ||| next.len() == buf.len() + 1 && next.subrange(0, buf.len() as int) == buf
                ||| buf.len() > 0 && next == buf.subrange(0, buf.len() - 1)
            },
{
    assert(buf.push(c).drop_last() =~= buf);
    assert forall|e: InputEvent| #![trigger word_key_effect(buf, e)]
        {
            let next = word_key_effect(buf, e).0;
            ||| next == buf
            ||| next.len() == buf.len() + 1 && next.subrange(0, buf.len() as int) == buf
            ||| buf.len() > 0 && next == buf.subrange(0, buf.len() - 1)
        } by {
        if let InputEvent::Key(Key::Char(d)) = e {
            assert(buf.push(d).subrange(0, buf.len() as int) =~= buf);
        }
    }
}

/// Applies a key press to the word being edited: a space moves on to the next
/// word, any other character is added, backspace removes the last character
/// or, with none left, moves back to the previous word.
pub fn edit_word_key(buf: &mut String, event: InputEvent) -> (r: EditStep<EditWord>)
    ensures
        (final(buf)@, r) == word_key_effect(old(buf)@, event),
        event matches InputEvent::Key(Key::Char(c)) ==> (c != ' ' ==> final(buf)@ == old(
            buf,
        )@.push(c) && r == EditStep::<EditWord>::Typed),
        event == InputEvent::Key(Key::Char(' ')) ==> final(buf)@ == old(buf)@ && r
            == EditStep::Finished(EditWord::Next),
        event == InputEvent::Key(Key::Backspace) && old(buf)@.len() > 0 ==> final(buf)@ == old(
            buf,
        )@.subrange(0, old(buf)@.len() - 1) && r == EditStep::<EditWord>::Erased,
        event == InputEvent::Key(Key::Backspace) && old(buf)@.len() == 0 ==> final(buf)@ == old(
            buf,
        )@ && r == EditStep::Finished(EditWord::Prev),
        !(event is Key && (event->Key_0 is Char || event->Key_0 is Backspace)) ==> final(buf)@
            == old(buf)@,
{
    match event {
        InputEvent::Key(Key::Char(c)) => {
            if c == ' ' {
                EditStep::Finished(EditWord::Next)
            } else {
                push_char(buf, c);
                EditStep::Typed
            }
        },
        InputEvent::Key(Key::Backspace) => {
            match pop_char(buf) {
                Some(_) => EditStep::Erased,
                None => EditStep::Finished(EditWord::Prev),
            }
        },
        InputEvent::Key(Key::Enter) => EditStep::Finished(EditWord::Submit),
        InputEvent::Key(Key::Left) | InputEvent::Key(Key::Up) => EditStep::Finished(
            EditWord::Prev,
        ),
        InputEvent::Key(Key::Right) | InputEvent::Key(Key::Down) => EditStep::Finished(
            EditWord::Next,
        ),
        InputEvent::Key(Key::Esc) => EditStep::Finished(EditWord::Exit),
        InputEvent::Resize => EditStep::Finished(EditWord::Reload),
        _ => EditStep::Ignored,
    }
}

/// Applies a key press to the password being edited: every character is
/// added, backspace removes the last character when there is one.
pub fn edit_pwd_key(buf: &mut String, event: InputEvent) -> (r: EditStep<EditPwd>)
    ensures
        (final(buf)@, r) == password_key_effect(old(buf)@, event),
        event matches InputEvent::Key(Key::Char(c)) ==> final(buf)@ == old(buf)@.push(c) && r
            == EditStep::<EditPwd>::Typed,
        event == InputEvent::Key(Key::Backspace) && old(buf)@.len() > 0 ==> final(buf)@ == old(
            buf,
        )@.subrange(0, old(buf)@.len() - 1) && r == EditStep::<EditPwd>::Erased,
        event == InputEvent::Key(Key::Backspace) && old(buf)@.len() == 0 ==> final(buf)@ == old(
            buf,
        )@ && r == EditStep::<EditPwd>::Ignored,
        !(event is Key && (event->Key_0 is Char || event->Key_0 is Backspace)) ==> final(buf)@
            == old(buf)@,
{
    match event {
        InputEvent::Key(Key::Char(c)) => {
            push_char(buf, c);
            EditStep::Typed
        },
        InputEvent::Key(Key::Backspace) => {
            match pop_char(buf) {
                Some(_) => EditStep::Erased,
                None => EditStep::Ignored,
            }
        },
        InputEvent::Key(Key::Enter) => EditStep::Finished(EditPwd::Submit),
        InputEvent::Key(Key::Esc) => EditStep::Finished(EditPwd::Exit),
        InputEvent::Resize => EditStep::Finished(EditPwd::Reload),
        _ => EditStep::Ignored,
    }
}

/// What a key press does while a word is shown.
pub fn view_word_key(event: InputEvent) -> (r: Option<ViewWord>)
    ensures
        r == view_key_effect(event),
{
    match event {
        InputEvent::Key(Key::Enter) => Some(ViewWord::Done),
        InputEvent::Key(Key::Left) | InputEvent::Key(Key::Up) => Some(ViewWord::Prev),
        InputEvent::Key(Key::Right) | InputEvent::Key(Key::Down) => Some(ViewWord::Next),
        InputEvent::Key(Key::Esc) => Some(ViewWord::Exit),
        InputEvent::Resize => Some(ViewWord::Reload),
        _ => None,
    }
}

} // verus!
