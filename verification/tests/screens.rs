use mnemolock::cli::decrypt::{decrypt, DecryptEvent, DecryptSession};
use mnemolock::cli::encrypt::{encrypt, EncryptEvent, EncryptSession};
use mnemolock::cli::input::{
    edit_pwd_key, edit_word_key, view_word_key, EditPwd, EditStep, EditWord, InputEvent, Key,
    ViewWord,
};
use mnemolock::cli::{
    classify_entered, print_prompt, word_label, FrameKind, InputFrame, LabelStyle,
    MnemonicType, Notice, Request, Screen,
};
use mnemolock::mnemonic::Mnemonic;
use mnemolock::EncryptedMnemonic24;

const ZERO_12: &str = "abandon abandon abandon abandon abandon abandon abandon abandon abandon abandon abandon about";

fn entered(words: &[&str], slots: usize) -> Vec<String> {
    let mut v: Vec<String> = words.iter().map(|w| w.to_string()).collect();
    v.resize(slots, String::new());
    v
}

#[test]
fn word_counts_of_mnemonic_types() {
    assert_eq!(MnemonicType::Mnemonic12.word_count(), 12);
    assert_eq!(MnemonicType::Mnemonic24.word_count(), 24);
    assert_eq!(MnemonicType::Mnemonic12.encrypted_word_count(), 24);
    assert_eq!(MnemonicType::Mnemonic24.encrypted_word_count(), 36);
}

#[test]
fn classify_entered_words() {
    let twelve: Vec<&str> = vec!["w"; 12];
    let all: Vec<&str> = vec!["w"; 24];
    assert_eq!(classify_entered(&entered(&all, 24), 12, 24), Some(MnemonicType::Mnemonic24));
    assert_eq!(classify_entered(&entered(&twelve, 24), 12, 24), Some(MnemonicType::Mnemonic12));
    assert_eq!(classify_entered(&entered(&twelve[..11], 24), 12, 24), None);
    let mut gap = entered(&twelve, 24);
    gap[20] = "x".to_string();
    assert_eq!(classify_entered(&gap, 12, 24), None);
    let mut late = entered(&all, 24);
    late[15] = String::new();
    assert_eq!(classify_entered(&late, 12, 24), None);
}

#[test]
fn word_key_effects() {
    let mut buf = String::from("ab");
    assert_eq!(edit_word_key(&mut buf, InputEvent::Key(Key::Char('c'))), EditStep::Typed);
    assert_eq!(buf, "abc");
    assert_eq!(edit_word_key(&mut buf, InputEvent::Key(Key::Char(' '))), EditStep::Finished(EditWord::Next));
    assert_eq!(edit_word_key(&mut buf, InputEvent::Key(Key::Backspace)), EditStep::Erased);
    assert_eq!(buf, "ab");
    let mut empty = String::new();
    assert_eq!(edit_word_key(&mut empty, InputEvent::Key(Key::Backspace)), EditStep::Finished(EditWord::Prev));
    assert_eq!(edit_word_key(&mut empty, InputEvent::Key(Key::Enter)), EditStep::Finished(EditWord::Submit));
    assert_eq!(edit_word_key(&mut empty, InputEvent::Key(Key::Up)), EditStep::Finished(EditWord::Prev));
    assert_eq!(edit_word_key(&mut empty, InputEvent::Key(Key::Down)), EditStep::Finished(EditWord::Next));
    assert_eq!(edit_word_key(&mut empty, InputEvent::Key(Key::Esc)), EditStep::Finished(EditWord::Exit));
    assert_eq!(edit_word_key(&mut empty, InputEvent::Resize), EditStep::Finished(EditWord::Reload));
    assert_eq!(edit_word_key(&mut empty, InputEvent::Other), EditStep::Ignored);
}

#[test]
fn password_key_effects() {
    let mut buf = String::new();
    assert_eq!(edit_pwd_key(&mut buf, InputEvent::Key(Key::Char(' '))), EditStep::Typed);
    assert_eq!(buf, " ");
    assert_eq!(edit_pwd_key(&mut buf, InputEvent::Key(Key::Backspace)), EditStep::Erased);
    assert_eq!(edit_pwd_key(&mut buf, InputEvent::Key(Key::Backspace)), EditStep::Ignored);
    assert_eq!(edit_pwd_key(&mut buf, InputEvent::Key(Key::Left)), EditStep::Ignored);
    assert_eq!(edit_pwd_key(&mut buf, InputEvent::Key(Key::Enter)), EditStep::Finished(EditPwd::Submit));
    assert_eq!(edit_pwd_key(&mut buf, InputEvent::Key(Key::Esc)), EditStep::Finished(EditPwd::Exit));
    assert_eq!(edit_pwd_key(&mut buf, InputEvent::Resize), EditStep::Finished(EditPwd::Reload));
}

#[test]
fn view_key_effects() {
    assert_eq!(view_word_key(InputEvent::Key(Key::Enter)), Some(ViewWord::Done));
    assert_eq!(view_word_key(InputEvent::Key(Key::Left)), Some(ViewWord::Prev));
    assert_eq!(view_word_key(InputEvent::Key(Key::Right)), Some(ViewWord::Next));
    assert_eq!(view_word_key(InputEvent::Key(Key::Esc)), Some(ViewWord::Exit));
    assert_eq!(view_word_key(InputEvent::Resize), Some(ViewWord::Reload));
    assert_eq!(view_word_key(InputEvent::Key(Key::Char('x'))), None);
}

#[test]
fn labels_and_lines() {
    assert_eq!(word_label(1, LabelStyle::Hex), "Word 0x01");
    assert_eq!(word_label(26, LabelStyle::Hex), "Word 0x1a");
    assert_eq!(word_label(300, LabelStyle::Hex), "Word 0x12c");
    assert_eq!(word_label(24, LabelStyle::Decimal), "Word 24");
    assert_eq!(word_label(0, LabelStyle::Decimal), "Word 0");
    assert_eq!(print_prompt("Enter Password"), "    Enter Password: ");
    assert_eq!(InputFrame::print_bottom("keys"), "    keys");
    assert_eq!(Notice::WrongPassword.text(), "Wrong password.");
    assert_eq!(Notice::IncompleteWords.text(), "Please fill in all the words.");
}

#[test]
fn frame_joins_its_entries() {
    let frame = InputFrame::from_entries("Title".to_string(), &vec!["a".to_string(), "b c".to_string()]);
    assert_eq!(frame.reload(), "a b c");
    assert_eq!(frame.init().1, "a b c");
    assert!(frame.init().0.ends_with(" Title"));
    let styled = InputFrame::new("T".to_string(), &[("Enter", "Submit"), ("Esc", "Exit")]);
    assert!(styled.reload().contains(" Submit "));
    assert!(styled.reload().contains(" Esc "));
}

#[test]
fn encrypt_session_runs_through() {
    let mut s = EncryptSession::new(LabelStyle::Decimal);
    let step = encrypt(&mut s, EncryptEvent::Start);
    assert_eq!(step.screen, vec![Screen::Init(FrameKind::Words)]);
    assert_eq!(step.request, Request::EditWord(1));
    let step = encrypt(&mut s, EncryptEvent::Word("abandon".to_string(), EditWord::Submit));
    assert_eq!(step.screen, vec![Screen::Error(Notice::IncompleteWords)]);
    let words: Vec<&str> = ZERO_12.split(' ').collect();
    for (i, w) in words.iter().enumerate() {
        let how = if i + 1 == words.len() { EditWord::Submit } else { EditWord::Next };
        let step = encrypt(&mut s, EncryptEvent::Word(w.to_string(), how));
        if i + 1 < words.len() {
            assert_eq!(step.request, Request::EditWord(i + 2));
        } else {
            assert_eq!(step.screen, vec![Screen::Clear, Screen::Init(FrameKind::Password)]);
            assert_eq!(step.request, Request::EditPassword(false));
        }
    }
    let step = encrypt(&mut s, EncryptEvent::Password("pw".to_string(), EditPwd::Submit));
    assert_eq!(step.screen, vec![Screen::Keymap(FrameKind::Password)]);
    assert_eq!(step.request, Request::EditPassword(true));
    let step = encrypt(&mut s, EncryptEvent::Password("px".to_string(), EditPwd::Submit));
    assert_eq!(step.screen, vec![Screen::Keymap(FrameKind::Password), Screen::Error(Notice::PasswordMismatch)]);
    assert_eq!(step.request, Request::EditPassword(false));
    assert_eq!(s.password_text(), "");
    encrypt(&mut s, EncryptEvent::Password("pw".to_string(), EditPwd::Submit));
    let step = encrypt(&mut s, EncryptEvent::Password("pw".to_string(), EditPwd::Submit));
    assert_eq!(step.screen, vec![Screen::Keymap(FrameKind::Password), Screen::Clear, Screen::Init(FrameKind::Result)]);
    assert_eq!(step.request, Request::ViewWord(1));
    let shown: Vec<&str> = (1..=24).map(|n| s.shown_word(n)).collect();
    let phrase = shown.join(" ");
    let read = EncryptedMnemonic24::from_words(&phrase).unwrap();
    assert_eq!(read.words().to_vec(), shown);
    let step = encrypt(&mut s, EncryptEvent::View(ViewWord::Prev));
    assert_eq!(step.request, Request::ViewWord(1));
    let step = encrypt(&mut s, EncryptEvent::View(ViewWord::Next));
    assert_eq!(step.request, Request::ViewWord(2));
    let step = encrypt(&mut s, EncryptEvent::View(ViewWord::Done));
    assert_eq!(step.screen, vec![Screen::Clear]);
    assert_eq!(step.request, Request::Finished);
}

#[test]
fn decrypt_session_recovers_the_mnemonic() {
    let m = Mnemonic::parse_normalized(ZERO_12).unwrap();
    let enc = EncryptedMnemonic24::new(&m, b"secret").unwrap();
    let words = enc.words();
    let mut s = DecryptSession::new();
    let step = decrypt(&mut s, DecryptEvent::Start);
    assert_eq!(step.screen, vec![Screen::Init(FrameKind::Words)]);
    for (i, w) in words.iter().enumerate() {
        let how = if i + 1 == words.len() { EditWord::Submit } else { EditWord::Next };
        let step = decrypt(&mut s, DecryptEvent::Word(w.to_string(), how));
        if i + 1 == words.len() {
            assert_eq!(step.screen, vec![Screen::Clear, Screen::Init(FrameKind::Password)]);
            assert_eq!(step.request, Request::EditPassword(false));
        }
    }
    let step = decrypt(&mut s, DecryptEvent::Password("secret".to_string(), EditPwd::Submit));
    assert_eq!(step.screen, vec![Screen::Keymap(FrameKind::Password), Screen::Init(FrameKind::Result)]);
    assert_eq!(step.request, Request::ViewWord(1));
    let shown: Vec<&str> = (1..=12).map(|n| s.shown_word(n)).collect();
    assert_eq!(shown.join(" "), ZERO_12);
    let step = decrypt(&mut s, DecryptEvent::View(ViewWord::Exit));
    assert_eq!(step.screen, vec![Screen::Exit]);
    assert_eq!(step.request, Request::Finished);
}

#[test]
fn decrypt_session_reports_wrong_words_and_passwords() {
    let mut s = DecryptSession::new();
    let step = decrypt(&mut s, DecryptEvent::Word("zoo".to_string(), EditWord::Submit));
    assert_eq!(step.screen, vec![Screen::Error(Notice::IncompleteWords)]);
    let step = decrypt(&mut s, DecryptEvent::View(ViewWord::Next));
    assert!(step.screen.is_empty());
    assert_eq!(step.request, Request::EditWord(1));
    let zeros: Vec<&str> = ZERO_12.split(' ').collect();
    let mut bad: Vec<&str> = zeros.clone();
    bad.extend(zeros.iter());
    for (i, w) in bad.iter().enumerate() {
        let how = if i + 1 == bad.len() { EditWord::Submit } else { EditWord::Next };
        let step = decrypt(&mut s, DecryptEvent::Word(w.to_string(), how));
        if i + 1 == bad.len() {
            assert_eq!(step.screen, vec![Screen::Error(Notice::InvalidMnemonic)]);
            assert_eq!(step.request, Request::EditWord(24));
        }
    }
    assert_eq!(s.word(24), "about");
}

#[test]
fn styled_lines_keep_their_text() {
    let line = InputFrame::reload_with_error("Wrong password.");
    assert!(line.contains(" Wrong password. "));
    let frame = InputFrame::new("Title".to_string(), &[("Arrows", "Navigate"), ("Esc", "Exit")]);
    let keys = frame.reload();
    let arrows = keys.find(" Arrows ").unwrap();
    let navigate = keys.find(" Navigate ").unwrap();
    let esc = keys.find(" Esc ").unwrap();
    let exit = keys.find(" Exit ").unwrap();
    assert!(arrows < navigate && navigate < esc && esc < exit);
    let (title, _) = frame.init();
    assert!(title.contains(" * "));
    assert!(title.ends_with(" Title"));
}

fn word_steps(start: &str, events: &[InputEvent]) -> (usize, Vec<EditStep<EditWord>>) {
    let mut buf = String::from(start);
    let mut steps = Vec::new();
    for e in events {
        let step = edit_word_key(&mut buf, *e);
        let done = matches!(step, EditStep::Finished(_));
        steps.push(step);
        if done {
            break;
        }
    }
    (buf.chars().count(), steps)
}

fn password_steps(start: &str, events: &[InputEvent]) -> (usize, Vec<EditStep<EditPwd>>) {
    let mut buf = String::from(start);
    let mut steps = Vec::new();
    for e in events {
        let step = edit_pwd_key(&mut buf, *e);
        let done = matches!(step, EditStep::Finished(_));
        steps.push(step);
        if done {
            break;
        }
    }
    (buf.chars().count(), steps)
}

#[test]
fn typed_words_take_the_same_steps_whatever_the_letters() {
    let ch = |c: char| InputEvent::Key(Key::Char(c));
    let back = InputEvent::Key(Key::Backspace);
    let one = [ch('a'), ch('b'), back, back, back, ch('z'), InputEvent::Key(Key::Enter)];
    let two = [ch('é'), ch('7'), back, back, back, ch('q'), InputEvent::Key(Key::Enter)];
    let (len1, steps1) = word_steps("xy", &one);
    let (len2, steps2) = word_steps("uv", &two);
    assert_eq!(steps1, steps2);
    assert_eq!(len1, len2);
    assert_eq!(steps1.last(), Some(&EditStep::Finished(EditWord::Submit)));
    let (_, spaced) = word_steps("xy", &[ch('a'), ch(' '), ch('b')]);
    assert_eq!(spaced, vec![EditStep::Typed, EditStep::Finished(EditWord::Next)]);
}

#[test]
fn typed_passwords_take_the_same_steps_whatever_the_characters() {
    let ch = |c: char| InputEvent::Key(Key::Char(c));
    let back = InputEvent::Key(Key::Backspace);
    let one = [ch('s'), ch(' '), back, ch('!'), back, back, back, ch('x'), InputEvent::Key(Key::Enter)];
    let two = [ch('1'), ch('ß'), back, ch(' '), back, back, back, ch('y'), InputEvent::Key(Key::Enter)];
    let (len1, steps1) = password_steps("", &one);
    let (len2, steps2) = password_steps("", &two);
    assert_eq!(steps1, steps2);
    assert_eq!(len1, len2);
    assert_eq!(len1, 1);
    assert_eq!(steps1.last(), Some(&EditStep::Finished(EditPwd::Submit)));
}
