//! The pieces of the interactive screens that compute: frames, labels and the
//! check of what was entered.

pub mod decrypt;
pub mod encrypt;
pub mod input;

use vstd::prelude::*;
use vstd::string::*;
use vstd::utf8::encode_utf8;
use crossterm::Command;
use crossterm::style::{Color, PrintStyledContent, Stylize};
use crate::{words24_entropy, words36_entropy};
use crate::crypto::{key_derivable, opened_entropy};
use crate::text::{all_words, join_with_spaces, join_words, texts};

verus! {

/// The two sizes of mnemonic that can be entered.
#[derive(Clone, Copy, Debug, PartialEq, Eq, Structural)]
pub enum MnemonicType {
    Mnemonic12,
    Mnemonic24,
}

/// The number of words of a mnemonic of type `t`.
pub open spec fn word_count_of(t: MnemonicType) -> nat {
    match t {
        MnemonicType::Mnemonic12 => 12,
        MnemonicType::Mnemonic24 => 24,
    }
}

/// The number of words that encrypting a mnemonic of type `t` gives.
pub open spec fn encrypted_word_count_of(t: MnemonicType) -> nat {
    match t {
        MnemonicType::Mnemonic12 => 24,
        MnemonicType::Mnemonic24 => 36,
    }
}

impl MnemonicType {
    pub fn word_count(&self) -> (r: usize)
        ensures
            r == word_count_of(*self),
    {
        match self {
            MnemonicType::Mnemonic12 => 12,
            MnemonicType::Mnemonic24 => 24,
        }
    }

    pub fn encrypted_word_count(&self) -> (r: usize)
        ensures
            r == encrypted_word_count_of(*self),
    {
        match self {
            MnemonicType::Mnemonic12 => 24,
            MnemonicType::Mnemonic24 => 36,
        }
    }
}

/// What the words entered so far make, given the `short` and `long` word
/// counts: all `long` words filled in make the long kind; the first `short`
/// filled in and all the rest empty make the short kind; anything else is
/// incomplete.
pub open spec fn entered_type(ws: Seq<Seq<char>>, short: int, long: int) -> Option<MnemonicType> {
    if forall|i: int| 0 <= i < long ==> (#[trigger] ws[i]).len() > 0 {
        Some(MnemonicType::Mnemonic24)
    } else if (forall|i: int| 0 <= i < short ==> (#[trigger] ws[i]).len() > 0) && (forall|i: int|
        short <= i < long ==> (#[trigger] ws[i]).len() == 0) {
        Some(MnemonicType::Mnemonic12)
    } else {
        None
    }
}

/// The texts of a sequence of strings.
pub open spec fn strings(ws: Seq<String>) -> Seq<Seq<char>> {
    ws.map_values(|w: String| w@)
}

/// Decides what the words entered make: the long kind when none of the
/// first `long` is empty; the short kind when the first empty one is at
/// `short` and all after it are empty too; nothing otherwise.
pub fn classify_entered(words: &Vec<String>, short: usize, long: usize) -> (r: Option<
    MnemonicType,
>)
    requires
        short < long <= words@.len(),
    ensures
        r == entered_type(strings(words@), short as int, long as int),
{
    let ghost ws = strings(words@);
    let mut i: usize = 0;
    while i < long
        invariant
            short < long <= words@.len(),
            ws == strings(words@),
            i <= long,
            forall|j: int| 0 <= j < i ==> (#[trigger] ws[j]).len() > 0,
        decreases long - i,
    {
        if words[i].as_str().is_empty() {
            assert(ws[i as int].len() == 0);
            if i < short {
                return None;
            } else if i == short {
                let mut k: usize = short + 1;
                while k < long
                    invariant
                        short < long <= words@.len(),
                        ws == strings(words@),
                        short + 1 <= k <= long,
                        ws[short as int].len() == 0,
                        forall|j: int| short <= j < k ==> (#[trigger] ws[j]).len() == 0,
                    decreases long - k,
                {
                    if !words[k].as_str().is_empty() {
                        assert(ws[k as int].len() > 0);
                        return None;
                    }
                    k = k + 1;
                }
                return Some(MnemonicType::Mnemonic12);
            } else {
                assert(ws[short as int].len() > 0);
                return None;
            }
        }
        i = i + 1;
    }
    Some(MnemonicType::Mnemonic24)
}

/// Appends `c` to `s`, as `String::push` does.
#[verifier::external_body]
pub fn push_char(s: &mut String, c: char)
    ensures
        final(s)@ == old(s)@.push(c),
{
    s.push(c)
}

/// Removes the last character of `s` and returns it, as `String::pop` does.
#[verifier::external_body]
pub fn pop_char(s: &mut String) -> (r: Option<char>)
    ensures
        old(s)@.len() == 0 ==> r is None && final(s)@ == old(s)@,
        old(s)@.len() > 0 ==> r == Some(old(s)@.last()) && final(s)@ == old(s)@.drop_last(),
{
    s.pop()
}

/// The digits from `0` to `f`.
pub const HEX_DIGITS: [char; 16] = [
    '0', '1', '2', '3', '4', '5', '6', '7', '8', '9', 'a', 'b', 'c', 'd', 'e', 'f',
];

/// The digits of `n` in base `base`, most significant first, without leading zeros.
pub open spec fn digits(n: nat, base: nat) -> Seq<char>
    recommends
        2 <= base <= 16,
    decreases n,
    when base >= 2
{
    if n < base {
        seq![HEX_DIGITS@[n as int]]
    } else {
        proof {
            assert(n / base < n) by (nonlinear_arith)
                requires
                    n >= base,
                    base >= 2,
            ;
        }
        digits(n / base, base).push(HEX_DIGITS@[(n % base) as int])
    }
}

/// How a word's number is written in a prompt.
#[derive(Clone, Copy, Debug, PartialEq, Eq, Structural)]
pub enum LabelStyle {
    /// In decimal, as `format!("{}", n)` writes it.
    Decimal,
    /// In hexadecimal with a `0x` prefix and at least two digits, as
    /// `format!("{:#04x}", n)` writes it.
    Hex,
}

/// How `n` is written in style `style`.
pub open spec fn number_text(n: nat, style: LabelStyle) -> Seq<char> {
    match style {
        LabelStyle::Decimal => digits(n, 10),
        LabelStyle::Hex => {
            let d = digits(n, 16);
            seq!['0', 'x'] + if d.len() < 2 {
                seq!['0'] + d
            } else {
                d
            }
        },
    }
}

/// The digits of `n` in base `base`.
pub fn digits_string(n: usize, base: usize) -> (r: String)
    requires
        2 <= base <= 16,
    ensures
        r@ == digits(n as nat, base as nat),
    decreases n,
{
    let digit = HEX_DIGITS[n % base];
    if n < base {
        assert(n % base == n) by (nonlinear_arith)
            requires
                n < base,
        ;
        let mut r = String::new();
        push_char(&mut r, digit);
        assert(r@ =~= digits(n as nat, base as nat));
        r
    } else {
        assert(n / base < n) by (nonlinear_arith)
            requires
                n >= base,
                base >= 2,
        ;
        let mut r = digits_string(n / base, base);
        push_char(&mut r, digit);
        r
    }
}

/// The label of word number `n` in a prompt: `Word ` and the number.
pub open spec fn word_label_text(n: nat, style: LabelStyle) -> Seq<char> {
    seq!['W', 'o', 'r', 'd', ' '] + number_text(n, style)
}

/// The label of word number `n` in a prompt.
pub fn word_label(n: usize, style: LabelStyle) -> (r: String)
    ensures
        r@ == word_label_text(n as nat, style),
{
    let mut r = String::from_str("Word ");
    proof {
        reveal_strlit("Word ");
    }
    match style {
        LabelStyle::Decimal => {
            let d = digits_string(n, 10);
            r.append(d.as_str());
        },
        LabelStyle::Hex => {
            push_char(&mut r, '0');
            push_char(&mut r, 'x');
            let d = digits_string(n, 16);
            if d.as_str().unicode_len() < 2 {
                push_char(&mut r, '0');
            }
            r.append(d.as_str());
            assert(r@ =~= word_label_text(n as nat, style));
        },
    }
    r
}

/// The indentation before a prompt or a line at the bottom of a frame.
pub open spec fn indent() -> Seq<char> {
    seq![' ', ' ', ' ', ' ']
}

/// The text that the prompt before an input prints: the indented text and a colon.
pub fn print_prompt(text: &str) -> (r: String)
    ensures
        r@ == indent() + text@ + seq![':', ' '],
{
    let mut r = String::from_str("    ");
    proof {
        reveal_strlit("    ");
        reveal_strlit(": ");
    }
    r.append(text);
    r.append(": ");
    r
}


/// A colour of the terminal's palette.
#[derive(Clone, Copy, Debug, PartialEq, Eq, Structural)]
pub enum Tint {
    White,
    Black,
    Grey,
    DarkGrey,
    Red,
}

/// How a piece of text is styled on the terminal.
#[derive(Clone, Copy, Debug, PartialEq, Eq, Structural)]
pub enum TextStyle {
    /// In the first colour on the second.
    Colours(Tint, Tint),
    /// In reverse video.
    Reverse,
}

/// The style of a key in the key bindings: white on dark grey.
pub open spec fn key_style() -> TextStyle {
    TextStyle::Colours(Tint::White, Tint::DarkGrey)
}

/// The style of what a key does in the key bindings: black on grey.
pub open spec fn action_style() -> TextStyle {
    TextStyle::Colours(Tint::Black, Tint::Grey)
}

/// The style of a message that reports an error: white on red.
pub open spec fn error_style() -> TextStyle {
    TextStyle::Colours(Tint::White, Tint::Red)
}

/// The ANSI "select graphic rendition" sequence with parameters `params`.
pub open spec fn sgr(params: Seq<char>) -> Seq<char> {
    seq!['\x1b', '['] + params + seq!['m']
}

/// The palette index by which crossterm writes the colour `t`.
pub open spec fn tint_code(t: Tint) -> Seq<char> {
    match t {
        Tint::White => seq!['5', ';', '1', '5'],
        Tint::Black => seq!['5', ';', '0'],
        Tint::Grey => seq!['5', ';', '7'],
        Tint::DarkGrey => seq!['5', ';', '8'],
        Tint::Red => seq!['5', ';', '9'],
    }
}

/// What crossterm writes before styled text: the background, then the
/// foreground colour, each without parameters where colours are turned off
/// (`NO_COLOR`); or the reverse-video attribute, which `NO_COLOR` leaves.
pub open spec fn style_open(style: TextStyle, colours: bool) -> Seq<char> {
    match style {
        TextStyle::Colours(fg, bg) => if colours {
            sgr(seq!['4', '8', ';'] + tint_code(bg)) + sgr(seq!['3', '8', ';'] + tint_code(fg))
        } else {
            sgr(seq![]) + sgr(seq![])
        },
        TextStyle::Reverse => sgr(seq!['7']),
    }
}

/// What crossterm writes after styled text: the background, then the
/// foreground colour reset, each without parameters where colours are turned
/// off; or the reset of all attributes.
pub open spec fn style_close(style: TextStyle, colours: bool) -> Seq<char> {
    match style {
        TextStyle::Colours(_, _) => if colours {
            sgr(seq!['4', '9']) + sgr(seq!['3', '9'])
        } else {
            sgr(seq![]) + sgr(seq![])
        },
        TextStyle::Reverse => sgr(seq!['0']),
    }
}

/// `s` shows `text` in `style`: between the style's sequences, with colours
/// on or off, or bare where the console takes no ANSI sequences and crossterm
/// sets the style through WinAPI instead.
pub open spec fn shows_styled(s: Seq<char>, text: Seq<char>, style: TextStyle) -> bool {
    ||| s == style_open(style, true) + text + style_close(style, true)
    ||| s == style_open(style, false) + text + style_close(style, false)
    ||| s == text
}

/// Writes `text` in `style` as crossterm's `Command::write_ansi` of
/// `PrintStyledContent` does (style.rs): the background colour, then the
/// foreground colour (or the attributes), the text, then their resets, each
/// as a `CSI ... m` sequence (`SetBackgroundColor`, `SetForegroundColor`,
/// `SetAttribute` and `ResetColor` in style.rs, `Colored` in colored.rs,
/// `sgr` in attribute.rs). The colour parameters are left out where
/// `NO_COLOR` turns colours off. On a Windows console without ANSI support
/// each sequence is a WinAPI call instead, which writes nothing; where such a
/// call fails the result is `None`.
#[verifier::external_body]
fn styled(text: &str, style: TextStyle) -> (r: Option<String>)
    ensures
        r matches Some(s) ==> shows_styled(s@, text@, style),
{
    let colour = [Color::White, Color::Black, Color::Grey, Color::DarkGrey, Color::Red];
    let content = match style {
        TextStyle::Colours(fg, bg) => text.with(colour[fg as usize]).on(colour[bg as usize]),
        TextStyle::Reverse => text.reverse(),
    };
    let mut out = String::new();
    match PrintStyledContent(content).write_ansi(&mut out) {
        Ok(()) => Some(out),
        Err(_) => None,
    }
}

/// `text` in `style`, or `text` as it is where crossterm could not write it.
fn styled_or_plain(text: &str, style: TextStyle) -> (r: String)
    ensures
        shows_styled(r@, text@, style),
{
    match styled(text, style) {
        Some(s) => s,
        None => String::from_str(text),
    }
}

/// `text` with a space on each side.
pub open spec fn padded_text(text: Seq<char>) -> Seq<char> {
    seq![' '] + text + seq![' ']
}

/// `e` shows the key `key`, padded, in the key style, and then what it does,
/// `func`, padded, in the action style.
pub open spec fn is_keymap_entry(e: Seq<char>, key: Seq<char>, func: Seq<char>) -> bool {
    exists|k: Seq<char>, f: Seq<char>|
        {
            &&& e == k + f
            &&& shows_styled(k, padded_text(key), key_style())
            &&& shows_styled(f, padded_text(func), action_style())
        }
}

/// The entry of the key bindings that shows `key` and then `func`.
fn keymap_entry(key: &str, func: &str) -> (r: String)
    ensures
        is_keymap_entry(r@, key@, func@),
{
    let k = padded(key);
    let f = padded(func);
    let mut entry = styled_or_plain(k.as_str(), TextStyle::Colours(Tint::White, Tint::DarkGrey));
    let tail = styled_or_plain(f.as_str(), TextStyle::Colours(Tint::Black, Tint::Grey));
    let ghost (kv, fv) = (entry@, tail@);
    entry.append(tail.as_str());
    assert(entry@ == kv + fv);
    entry
}

/// `text` with a space on each side.
pub fn padded(text: &str) -> (r: String)
    ensures
        r@ == padded_text(text@),
{
    let mut r = String::from_str(" ");
    proof {
        reveal_strlit(" ");
    }
    r.append(text);
    r.append(" ");
    r
}

/// A titled frame with a line of key bindings at its bottom.
pub struct InputFrame {
    title: String,
    keymap: String,
}

impl InputFrame {
    /// The title of the frame.
    pub closed spec fn title_text(&self) -> Seq<char> {
        self.title@
    }

    /// The line of key bindings.
    pub closed spec fn keymap_text(&self) -> Seq<char> {
        self.keymap@
    }

    /// A frame whose key bindings are `entries` separated by single spaces.
    pub fn from_entries(title: String, entries: &Vec<String>) -> (r: Self)
        ensures
            r.title_text() == title@,
            r.keymap_text() == join_with_spaces(strings(entries@)),
    {
        let mut keymap = String::new();
        let mut i: usize = 0;
        proof {
            reveal_strlit(" ");
        }
        assert(strings(entries@).subrange(0, 0) =~= seq![]);
        while i < entries.len()
            invariant
                i <= entries@.len(),
                keymap@ == join_with_spaces(strings(entries@).subrange(0, i as int)),
                " "@ == seq![' '],
            decreases entries@.len() - i,
        {
            let ghost part = strings(entries@).subrange(0, i as int);
            let ghost next = strings(entries@).subrange(0, i + 1);
            assert(next.drop_last() =~= part);
            assert(next.last() == entries@[i as int]@);
            if i > 0 {
                keymap.append(" ");
            } else {
                assert(part =~= seq![]);
            }
            keymap.append(entries[i].as_str());
            i = i + 1;
        }
        assert(strings(entries@).subrange(0, i as int) =~= strings(entries@));
        InputFrame { title, keymap }
    }

    /// A frame titled `title` whose bottom line shows each key of `keymap`
    /// followed by what it does.
    pub fn new(title: String, keymap: &[(&str, &str)]) -> (r: Self)
        ensures
            r.title_text() == title@,
            exists|entries: Seq<Seq<char>>|
                {
                    &&& entries.len() == keymap@.len()
                    &&& r.keymap_text() == join_with_spaces(entries)
                    &&& forall|i: int|
                        0 <= i < entries.len() ==> is_keymap_entry(
                            #[trigger] entries[i],
                            keymap@[i].0@,
                            keymap@[i].1@,
                        )
                },
    {
        let mut entries: Vec<String> = Vec::new();
        let mut i: usize = 0;
        while i < keymap.len()
            invariant
                i <= keymap@.len(),
                entries@.len() == i,
                forall|j: int|
                    0 <= j < i ==> is_keymap_entry(
                        #[trigger] entries@[j]@,
                        keymap@[j].0@,
                        keymap@[j].1@,
                    ),
            decreases keymap@.len() - i,
        {
            let (key, func) = keymap[i];
            let entry = keymap_entry(key, func);
            entries.push(entry);
            i = i + 1;
        }
        let r = Self::from_entries(title, &entries);
        assert(strings(entries@).len() == keymap@.len());
        assert forall|j: int| 0 <= j < strings(entries@).len() implies is_keymap_entry(
            #[trigger] strings(entries@)[j],
            keymap@[j].0@,
            keymap@[j].1@,
        ) by {
            assert(strings(entries@)[j] == entries@[j]@);
        }
        r
    }

    /// What showing the frame first prints: the line of its title, with the
    /// marker ` * ` in reverse video before the title, and the text of its
    /// bottom line, the key bindings.
    pub fn init(&self) -> (r: (String, String))
        ensures
            exists|marker: Seq<char>|
                {
                    &&& shows_styled(marker, seq![' ', '*', ' '], TextStyle::Reverse)
                    &&& r.0@ == marker + seq![' '] + self.title_text()
                },
            r.1@ == self.keymap_text(),
    {
        proof {
            reveal_strlit(" ");
            reveal_strlit(" * ");
        }
        let star = " * ";
        assert(star@ =~= seq![' ', '*', ' ']);
        let mut title = styled_or_plain(star, TextStyle::Reverse);
        let ghost marker = title@;
        title.append(" ");
        title.append(self.title.as_str());
        assert(title@ == marker + seq![' '] + self.title_text());
        assert(shows_styled(marker, seq![' ', '*', ' '], TextStyle::Reverse));
        (title, self.reload())
    }

    /// The text that the bottom line of a frame prints: the indented text.
    pub fn print_bottom(text: &str) -> (r: String)
        ensures
            r@ == indent() + text@,
    {
        let mut r = String::from_str("    ");
        proof {
            reveal_strlit("    ");
        }
        r.append(text);
        r
    }

    /// What the bottom of the frame shows again: the key bindings.
    pub fn reload(&self) -> (r: String)
        ensures
            r@ == self.keymap_text(),
    {
        self.keymap.clone()
    }

    /// What the bottom of the frame shows in place of the key bindings to
    /// report `text`: the text, padded, in white on red.
    pub fn reload_with_error(text: &str) -> (r: String)
        ensures
            shows_styled(r@, padded_text(text@), error_style()),
    {
        let p = padded(text);
        styled_or_plain(p.as_str(), TextStyle::Colours(Tint::White, Tint::Red))
    }
}

/// A message shown at the bottom of a frame.
#[derive(Clone, Copy, Debug, PartialEq, Eq, Structural)]
pub enum Notice {
    InvalidMnemonic,
    IncompleteWords,
    WrongPassword,
    RejectedPassword,
    PasswordMismatch,
}

/// The text of the message `n`.
pub open spec fn notice_text(n: Notice) -> Seq<char> {
    match n {
        Notice::InvalidMnemonic => "Invalid mnemonic."@,
        Notice::IncompleteWords => "Please fill in all the words."@,
        Notice::WrongPassword => "Wrong password."@,
        Notice::RejectedPassword => "Please choose another password."@,
        Notice::PasswordMismatch => "Password does not match."@,
    }
}

impl Notice {
    /// The text of the message.
    pub fn text(&self) -> (r: &'static str)
        ensures
            r@ == notice_text(*self),
    {
        match self {
            Notice::InvalidMnemonic => "Invalid mnemonic.",
            Notice::IncompleteWords => "Please fill in all the words.",
            Notice::WrongPassword => "Wrong password.",
            Notice::RejectedPassword => "Please choose another password.",
            Notice::PasswordMismatch => "Password does not match.",
        }
    }
}

/// The frames that a session shows, one after the other.
#[derive(Clone, Copy, Debug, PartialEq, Eq, Structural)]
pub enum FrameKind {
    /// Where the words are entered.
    Words,
    /// Where the password is entered.
    Password,
    /// Where the resulting words are shown.
    Result,
}

/// What the terminal is to show after a step of a session.
#[derive(Clone, Copy, Debug, PartialEq, Eq, Structural)]
pub enum Screen {
    /// Print the title of the frame and its key bindings at the bottom.
    Init(FrameKind),
    /// Show the key bindings of the frame at the bottom again.
    Keymap(FrameKind),
    /// Show a message at the bottom.
    Error(Notice),
    /// Clear the frame.
    Clear,
    /// Clear the frame and end the program.
    Exit,
}

/// What a session asks for next.
#[derive(Clone, Copy, Debug, PartialEq, Eq, Structural)]
pub enum Request {
    /// Edit the word with this number (counted from 1).
    EditWord(usize),
    /// Edit the password; `true` when it is asked for the second time.
    EditPassword(bool),
    /// Show the resulting word with this number (counted from 1).
    ViewWord(usize),
    /// Nothing more: the session is over.
    Finished,
}

/// The first `n` strings of `words` joined with single spaces.
pub fn join_entered(words: &Vec<String>, n: usize) -> (r: String)
    requires
        n <= words@.len(),
    ensures
        r@ == join_with_spaces(strings(words@).subrange(0, n as int)),
{
    let mut refs: Vec<&str> = Vec::new();
    let mut i: usize = 0;
    while i < n
        invariant
            i <= n <= words@.len(),
            refs@.len() == i,
            forall|j: int| 0 <= j < i ==> (#[trigger] refs@[j])@ == words@[j]@,
        decreases n - i,
    {
        refs.push(words[i].as_str());
        i = i + 1;
    }
    assert(texts(refs@).subrange(0, n as int) =~= strings(words@).subrange(0, n as int));
    join_words(refs.as_slice(), 0, n)
}

/// What a step of a session has the terminal do: show `screen` in order,
/// then ask for `request`.
pub struct Step {
    pub screen: Vec<Screen>,
    pub request: Request,
}

/// The bytes of a password typed as `text`.
pub open spec fn password_bytes(text: Seq<char>) -> Seq<u8> {
    encode_utf8(text)
}

/// Entering the words `v` into a decryption and then the password typed as
/// `pwd` reads an encrypted mnemonic of the size that `t` encrypts to, 16
/// bytes longer than the entropy `e`, whose decryption is `e`.
pub open spec fn recovers(v: Seq<Seq<char>>, t: MnemonicType, pwd: Seq<char>, e: Seq<u8>) -> bool {
    let bytes = password_bytes(pwd);
    &&& all_words(v)
    &&& v.len() == encrypted_word_count_of(t)
    &&& key_derivable(bytes)
    &&& match t {
        MnemonicType::Mnemonic12 => words24_entropy(join_with_spaces(v)) matches Some(c)
            && c.len() == e.len() + 16 && opened_entropy(c, bytes) == Some(e),
        MnemonicType::Mnemonic24 => words36_entropy(join_with_spaces(v)) matches Some(c)
            && c.len() == e.len() + 16 && opened_entropy(c, bytes) == Some(e),
    }
}

} // verus!
