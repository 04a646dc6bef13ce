//! The decisions of the screens that encrypt a mnemonic: the words are
//! entered, then a password twice, then the encrypted words are shown.

use vstd::prelude::*;
use vstd::string::*;
use crate::{EncryptedMnemonic24, EncryptedMnemonic36};
use crate::cli::{
    classify_entered, digits, digits_string, entered_type, join_entered, password_bytes, strings,
    recovers, word_count_of, word_label, word_label_text, FrameKind, InputFrame, LabelStyle,
    MnemonicType, Notice, Request, Screen, Step,
};
use crate::cli::input::{EditPwd, EditWord, ViewWord};
use crate::crypto::{key_derivable, sealed_entropy};
use crate::mnemonic::{bip39_entropy_words, bip39_phrase_entropy, Mnemonic};
use crate::text::{join_with_spaces, texts};
use crate::util::{decremented, incremented, BoundedIndex};

verus! {

/// How many words can be entered: those of a 24-word mnemonic.
pub const WORD_SLOTS: usize = 24;

/// Where an encryption session stands.
#[derive(Clone, Copy, Debug, PartialEq, Eq, Structural)]
pub enum EncryptStage {
    /// The words of the mnemonic are being entered.
    Words,
    /// The password is being entered.
    Password,
    /// The password is being entered a second time.
    Repeat,
    /// The encrypted words are being shown.
    Result,
    /// The session is over.
    Done,
}

/// What the terminal reports back to an encryption session.
pub enum EncryptEvent {
    /// The session begins.
    Start,
    /// The word asked for was edited into the text given, and the editing ended so.
    Word(String, EditWord),
    /// The password asked for was edited into the text given, and the editing ended so.
    Password(String, EditPwd),
    /// The showing of a word ended so.
    View(ViewWord),
}

/// The entropy of the mnemonic that the words entered make, with its size,
/// or `None` where they make none.
pub open spec fn entered_mnemonic(ws: Seq<Seq<char>>) -> Option<(Seq<u8>, MnemonicType)> {
    match entered_type(ws, 12, 24) {
        None => None,
        Some(t) => match bip39_phrase_entropy(
            join_with_spaces(ws.subrange(0, word_count_of(t) as int)),
        ) {
            Some(e) => Some((e, t)),
            None => None,
        },
    }
}

/// The message shown when the words entered make no mnemonic.
pub open spec fn entry_notice(ws: Seq<Seq<char>>) -> Notice {
    if entered_type(ws, 12, 24) is None {
        Notice::IncompleteWords
    } else {
        Notice::InvalidMnemonic
    }
}

/// Reads the words entered as a mnemonic: the first 12 when only they are
/// filled in, all 24 when all are.
pub fn submit_words(words: &Vec<String>) -> (r: Result<(Mnemonic, MnemonicType), Notice>)
    requires
        words@.len() == WORD_SLOTS,
    ensures
        match entered_mnemonic(strings(words@)) {
            Some((e, t)) => r matches Ok((m, u)) && m@ == e && u == t,
            None => r == Err::<(Mnemonic, MnemonicType), Notice>(entry_notice(strings(words@))),
        },
{
    match classify_entered(words, 12, 24) {
        None => Err(Notice::IncompleteWords),
        Some(t) => {
            let phrase = join_entered(words, t.word_count());
            match Mnemonic::parse_normalized(phrase.as_str()) {
                Ok(m) => Ok((m, t)),
                Err(_) => Err(Notice::InvalidMnemonic),
            }
        },
    }
}

/// The words that encrypting the entropy `e` of a mnemonic of type `t` with
/// the password typed as `pwd` gives, or `None` where it fails.
pub open spec fn encryption_words(e: Seq<u8>, t: MnemonicType, pwd: Seq<char>) -> Option<
    Seq<Seq<char>>,
> {
    let bytes = password_bytes(pwd);
    let c = sealed_entropy(e, bytes);
    match t {
        MnemonicType::Mnemonic12 => if key_derivable(bytes) && e.len() + 16 == 32 {
            Some(bip39_entropy_words(c))
        } else {
            None
        },
        MnemonicType::Mnemonic24 => if key_derivable(bytes) && e.len() + 16 == 48 {
            Some(bip39_entropy_words(c.subrange(0, 32)) + bip39_entropy_words(c.subrange(32, 48)))
        } else {
            None
        },
    }
}

/// Encrypts `m`, a mnemonic of type `t`, with the password typed as `pwd`,
/// and gives the encrypted words.
pub fn encrypt_with_password(m: &Mnemonic, t: MnemonicType, pwd: &String) -> (r: Result<
    Vec<&'static str>,
    Notice,
>)
    ensures
        match encryption_words(m@, t, pwd@) {
            Some(w) => r matches Ok(v) && texts(v@) == w,
            None => r == Err::<Vec<&'static str>, Notice>(Notice::RejectedPassword),
        },
        r matches Ok(v) ==> v@.len() >= 1,
        r matches Ok(v) ==> recovers(texts(v@), t, pwd@, m@),
{
    match t {
        MnemonicType::Mnemonic12 => match EncryptedMnemonic24::new(m, pwd.as_str().as_bytes()) {
            Ok(x) => {
                proof {
                    x.lemma_ciphertext_size();
                }
                let w = x.words();
                let mut v: Vec<&'static str> = Vec::new();
                let mut i: usize = 0;
                while i < 24
                    invariant
                        i <= 24,
                        v@ == w@.subrange(0, i as int),
                    decreases 24 - i,
                {
                    v.push(w[i]);
                    i = i + 1;
                    assert(v@ =~= w@.subrange(0, i as int));
                }
                assert(w@.subrange(0, 24) =~= w@);
                assert(texts(v@) =~= texts(w@));
                Ok(v)
            },
            Err(_) => Err(Notice::RejectedPassword),
        },
        MnemonicType::Mnemonic24 => match EncryptedMnemonic36::new(m, pwd.as_str().as_bytes()) {
            Ok(x) => {
                proof {
                    x.lemma_ciphertext_size();
                }
                let w = x.words();
                let mut v: Vec<&'static str> = Vec::new();
                let mut i: usize = 0;
                while i < 36
                    invariant
                        i <= 36,
                        v@ == w@.subrange(0, i as int),
                    decreases 36 - i,
                {
                    v.push(w[i]);
                    i = i + 1;
                    assert(v@ =~= w@.subrange(0, i as int));
                }
                assert(w@.subrange(0, 36) =~= w@);
                assert(texts(v@) =~= texts(w@));
                Ok(v)
            },
            Err(_) => Err(Notice::RejectedPassword),
        },
    }
}

/// The title of the frame that shows the `n` encrypted words.
pub open spec fn result_title(n: nat) -> Seq<char> {
    "Encryption successful. View your encrypted mnemonic ("@ + digits(n, 10)
        + " words) below."@
}

/// The screens of an encryption session, as the terminal asks for them.
pub struct EncryptSession {
    stage: EncryptStage,
    style: LabelStyle,
    words: Vec<String>,
    word_no: BoundedIndex,
    mnemonic: Option<(Mnemonic, MnemonicType)>,
    pwd: String,
    repeat: String,
    encrypted: Vec<&'static str>,
    shown_no: BoundedIndex,
    words_frame: InputFrame,
    password_frame: InputFrame,
    result_frame: InputFrame,
}

impl EncryptSession {
    /// Where the session stands.
    pub closed spec fn stage(&self) -> EncryptStage {
        self.stage
    }

    /// How the numbers of words are written in prompts.
    pub closed spec fn style(&self) -> LabelStyle {
        self.style
    }

    /// The words entered so far, one per slot.
    pub closed spec fn entered(&self) -> Seq<Seq<char>> {
        strings(self.words@)
    }

    /// The number of the word being entered, counted from 1.
    pub closed spec fn word_number(&self) -> int {
        self.word_no.current()
    }

    /// The entropy and the size of the mnemonic read from the words, once there is one.
    pub closed spec fn held(&self) -> Option<(Seq<u8>, MnemonicType)> {
        match self.mnemonic {
            Some((m, t)) => Some((m@, t)),
            None => None,
        }
    }

    /// The password entered first.
    pub closed spec fn password(&self) -> Seq<char> {
        self.pwd@
    }

    /// The password entered the second time.
    pub closed spec fn repeated(&self) -> Seq<char> {
        self.repeat@
    }

    /// The encrypted words, once there are some.
    pub closed spec fn encrypted_words(&self) -> Seq<Seq<char>> {
        texts(self.encrypted@)
    }

    /// The number of the encrypted word being shown, counted from 1.
    pub closed spec fn shown_number(&self) -> int {
        self.shown_no.current()
    }

    /// The title of the frame of kind `kind`.
    pub closed spec fn frame_title(&self, kind: FrameKind) -> Seq<char> {
        match kind {
            FrameKind::Words => self.words_frame.title_text(),
            FrameKind::Password => self.password_frame.title_text(),
            FrameKind::Result => self.result_frame.title_text(),
        }
    }

    /// The session's parts agree with one another.
    pub closed spec fn wf(&self) -> bool {
        &&& self.words@.len() == WORD_SLOTS
        &&& self.word_no.lower() == 1
        &&& self.word_no.upper() == WORD_SLOTS
        &&& self.word_no.in_bounds()
        &&& (self.stage == EncryptStage::Password || self.stage == EncryptStage::Repeat)
            ==> self.mnemonic is Some
        &&& (self.stage == EncryptStage::Repeat || self.stage == EncryptStage::Result) ==> {
            &&& self.encrypted@.len() >= 1
            &&& self.shown_no.lower() == 1
            &&& self.shown_no.upper() == self.encrypted@.len()
            &&& self.shown_no.in_bounds()
            &&& self.mnemonic matches Some((m, t)) && recovers(
                texts(self.encrypted@),
                t,
                self.pwd@,
                m@,
            )
        }
        &&& self.in_range()
    }

    /// The numbers asked for stay within the words there are, the encrypted
    /// words are 24 or 36, and the frames carry their titles.
    pub open spec fn in_range(&self) -> bool {
        &&& 1 <= self.word_number() <= WORD_SLOTS
        &&& (self.stage() == EncryptStage::Repeat || self.stage() == EncryptStage::Result) ==> {
            &&& 1 <= self.shown_number() <= self.encrypted_words().len()
            &&& self.encrypted_words().len() == 24 || self.encrypted_words().len() == 36
        }
        &&& self.stage() == EncryptStage::Result ==> self.frame_title(FrameKind::Result)
            == result_title(self.encrypted_words().len())
        &&& self.frame_title(FrameKind::Words) == "Enter your mnemonic."@
        &&& self.frame_title(FrameKind::Password)
            == "Choose a password to protect your mnemonic."@
    }

    /// What the session asks for while it stands where it does.
    pub open spec fn request_of(&self) -> Request {
        match self.stage() {
            EncryptStage::Words => Request::EditWord(self.word_number() as usize),
            EncryptStage::Password => Request::EditPassword(false),
            EncryptStage::Repeat => Request::EditPassword(true),
            EncryptStage::Result => Request::ViewWord(self.shown_number() as usize),
            EncryptStage::Done => Request::Finished,
        }
    }

    /// `self` and `other` hold the same entries and stand at the same place.
    pub open spec fn same_as(&self, other: &Self) -> bool {
        &&& self.stage() == other.stage()
        &&& self.style() == other.style()
        &&& self.entered() == other.entered()
        &&& self.word_number() == other.word_number()
        &&& self.held() == other.held()
        &&& self.password() == other.password()
        &&& self.repeated() == other.repeated()
        &&& self.encrypted_words() == other.encrypted_words()
        &&& self.shown_number() == other.shown_number()
    }

    /// A session that waits to begin with the entry of the first word, and
    /// writes the numbers of words in style `style`.
    pub fn new(style: LabelStyle) -> (r: Self)
        ensures
            r.wf(),
            r.in_range(),
            r.stage() == EncryptStage::Words,
            r.style() == style,
            r.entered() == Seq::new(WORD_SLOTS as nat, |i: int| Seq::<char>::empty()),
            r.word_number() == 1,
            r.held() is None,
            r.password() == Seq::<char>::empty(),
            r.frame_title(FrameKind::Words) == "Enter your mnemonic."@,
            r.frame_title(FrameKind::Password) == "Choose a password to protect your mnemonic."@,
    {
        let mut words: Vec<String> = Vec::new();
        let mut i: usize = 0;
        while i < WORD_SLOTS
            invariant
                i <= WORD_SLOTS,
                words@.len() == i,
                forall|j: int| 0 <= j < i ==> (#[trigger] words@[j])@ == Seq::<char>::empty(),
            decreases WORD_SLOTS - i,
        {
            words.push(String::new());
            i = i + 1;
        }
        assert(strings(words@) =~= Seq::new(WORD_SLOTS as nat, |i: int| Seq::<char>::empty()));
        let words_frame = InputFrame::new(
            String::from_str("Enter your mnemonic."),
            &[("Arrows", "Navigate"), ("Space", "Next"), ("Enter", "Submit"), ("Esc", "Exit")],
        );
        let password_frame = InputFrame::new(
            String::from_str("Choose a password to protect your mnemonic."),
            &[("Enter", "Submit"), ("Esc", "Exit")],
        );
        let result_frame = InputFrame::from_entries(String::new(), &Vec::new());
        EncryptSession {
            stage: EncryptStage::Words,
            style,
            words,
            word_no: BoundedIndex::new(1, 1, WORD_SLOTS),
            mnemonic: None,
            pwd: String::new(),
            repeat: String::new(),
            encrypted: Vec::new(),
            shown_no: BoundedIndex::new(1, 1, 1),
            words_frame,
            password_frame,
            result_frame,
        }
    }

    /// The frame of kind `kind`, for the terminal to draw.
    pub fn frame(&self, kind: FrameKind) -> (r: &InputFrame)
        ensures
            r.title_text() == self.frame_title(kind),
    {
        match kind {
            FrameKind::Words => &self.words_frame,
            FrameKind::Password => &self.password_frame,
            FrameKind::Result => &self.result_frame,
        }
    }

    /// The label of word number `n` in a prompt.
    pub fn label(&self, n: usize) -> (r: String)
        ensures
            r@ == word_label_text(n as nat, self.style()),
    {
        word_label(n, self.style)
    }

    /// The entered word with number `n`, counted from 1.
    pub fn word(&self, n: usize) -> (r: &str)
        requires
            self.wf(),
            1 <= n <= WORD_SLOTS,
        ensures
            r@ == self.entered()[n - 1],
    {
        self.words[n - 1].as_str()
    }

    /// The password being entered: the second one while it is repeated.
    pub fn password_text(&self) -> (r: &str)
        ensures
            r@ == if self.stage() == EncryptStage::Repeat {
                self.repeated()
            } else {
                self.password()
            },
    {
        if self.stage == EncryptStage::Repeat {
            self.repeat.as_str()
        } else {
            self.pwd.as_str()
        }
    }

    /// How many words there are to show.
    pub fn shown_count(&self) -> (r: usize)
        ensures
            r == self.encrypted_words().len(),
    {
        self.encrypted.len()
    }

    /// The encrypted word with number `n`, counted from 1.
    pub fn shown_word(&self, n: usize) -> (r: &'static str)
        requires
            1 <= n <= self.encrypted_words().len(),
        ensures
            r@ == self.encrypted_words()[n - 1],
    {
        self.encrypted[n - 1]
    }
}

/// Whether `event` is one that a session standing at `stage` takes.
pub open spec fn event_fits(stage: EncryptStage, event: EncryptEvent) -> bool {
    match event {
        EncryptEvent::Start => stage == EncryptStage::Words,
        EncryptEvent::Word(_, _) => stage == EncryptStage::Words,
        EncryptEvent::Password(_, _) => stage == EncryptStage::Password || stage
            == EncryptStage::Repeat,
        EncryptEvent::View(_) => stage == EncryptStage::Result,
    }
}

/// The step taken when the word being entered was edited into `buf` and the
/// editing ended with `how`.
pub open spec fn word_step(
    before: EncryptSession,
    after: EncryptSession,
    buf: Seq<char>,
    how: EditWord,
    screen: Seq<Screen>,
) -> bool {
    let n = before.word_number();
    let ws = before.entered().update(n - 1, buf);
    &&& after.entered() == ws
    &&& match how {
        EditWord::Prev => {
            &&& after.stage() == EncryptStage::Words
            &&& after.word_number() == decremented(n, 1)
            &&& screen == seq![Screen::Keymap(FrameKind::Words)]
        },
        EditWord::Next => {
            &&& after.stage() == EncryptStage::Words
            &&& after.word_number() == incremented(n, WORD_SLOTS as int)
            &&& screen == seq![Screen::Keymap(FrameKind::Words)]
        },
        EditWord::Reload => {
            &&& after.stage() == EncryptStage::Words
            &&& after.word_number() == n
            &&& screen == seq![Screen::Keymap(FrameKind::Words)]
        },
        EditWord::Exit => {
            &&& after.stage() == EncryptStage::Done
            &&& screen == seq![Screen::Exit]
        },
        EditWord::Submit => {
            &&& after.word_number() == n
            &&& match entered_mnemonic(ws) {
                Some(held) => {
                    &&& after.stage() == EncryptStage::Password
                    &&& after.held() == Some(held)
                    &&& after.password() == Seq::<char>::empty()
                    &&& screen == seq![Screen::Clear, Screen::Init(FrameKind::Password)]
                },
                None => {
                    &&& after.stage() == EncryptStage::Words
                    &&& after.held() == before.held()
                    &&& screen == seq![Screen::Error(entry_notice(ws))]
                },
            }
        },
    }
}

/// The step taken when the first password was edited into `buf` and the
/// editing ended with `how`.
pub open spec fn password_step(
    before: EncryptSession,
    after: EncryptSession,
    buf: Seq<char>,
    how: EditPwd,
    screen: Seq<Screen>,
) -> bool {
    &&& after.entered() == before.entered()
    &&& after.held() == before.held()
    &&& after.password() == buf
    &&& match how {
        EditPwd::Reload => {
            &&& after.stage() == EncryptStage::Password
            &&& screen == seq![Screen::Keymap(FrameKind::Password)]
        },
        EditPwd::Exit => {
            &&& after.stage() == EncryptStage::Done
            &&& screen == seq![Screen::Exit]
        },
        EditPwd::Submit => {
            let (e, t) = before.held()->Some_0;
            match encryption_words(e, t, buf) {
                Some(w) => {
                    &&& after.stage() == EncryptStage::Repeat
                    &&& after.encrypted_words() == w
                    &&& after.repeated() == Seq::<char>::empty()
                    &&& screen == seq![Screen::Keymap(FrameKind::Password)]
                },
                None => {
                    &&& after.stage() == EncryptStage::Password
                    &&& screen == seq![Screen::Error(Notice::RejectedPassword)]
                },
            }
        },
    }
}

/// The step taken when the repeated password was edited into `buf` and the
/// editing ended with `how`.
pub open spec fn repeat_step(
    before: EncryptSession,
    after: EncryptSession,
    buf: Seq<char>,
    how: EditPwd,
    screen: Seq<Screen>,
) -> bool {
    &&& after.entered() == before.entered()
    &&& after.held() == before.held()
    &&& after.encrypted_words() == before.encrypted_words()
    &&& match how {
        EditPwd::Reload => {
            &&& after.stage() == EncryptStage::Repeat
            &&& after.repeated() == buf
            &&& after.password() == before.password()
            &&& screen == seq![Screen::Keymap(FrameKind::Password)]
        },
        EditPwd::Exit => {
            &&& after.stage() == EncryptStage::Done
            &&& screen == seq![Screen::Exit]
        },
        EditPwd::Submit => if buf == before.password() {
            &&& after.stage() == EncryptStage::Result
            &&& after.shown_number() == 1
            &&& after.frame_title(FrameKind::Result) == result_title(
                after.encrypted_words().len(),
            )
            &&& screen == seq![
                Screen::Keymap(FrameKind::Password),
                Screen::Clear,
                Screen::Init(FrameKind::Result),
            ]
        } else {
            &&& after.stage() == EncryptStage::Password
            &&& after.password() == Seq::<char>::empty()
            &&& screen == seq![
                Screen::Keymap(FrameKind::Password),
                Screen::Error(Notice::PasswordMismatch),
            ]
        },
    }
}

/// The step taken when the showing of an encrypted word ended with `how`.
pub open spec fn view_step(
    before: EncryptSession,
    after: EncryptSession,
    how: ViewWord,
    screen: Seq<Screen>,
) -> bool {
    let n = before.shown_number();
    let count = before.encrypted_words().len() as int;
    &&& after.encrypted_words() == before.encrypted_words()
    &&& match how {
        ViewWord::Prev => {
            &&& after.stage() == EncryptStage::Result
            &&& after.shown_number() == decremented(n, 1)
            &&& screen == seq![Screen::Keymap(FrameKind::Result)]
        },
        ViewWord::Next => {
            &&& after.stage() == EncryptStage::Result
            &&& after.shown_number() == incremented(n, count)
            &&& screen == seq![Screen::Keymap(FrameKind::Result)]
        },
        ViewWord::Reload => {
            &&& after.stage() == EncryptStage::Result
            &&& after.shown_number() == n
            &&& screen == seq![Screen::Keymap(FrameKind::Result)]
        },
        ViewWord::Done => {
            &&& after.stage() == EncryptStage::Done
            &&& screen == seq![Screen::Clear]
        },
        ViewWord::Exit => {
            &&& after.stage() == EncryptStage::Done
            &&& screen == seq![Screen::Exit]
        },
    }
}

/// Records the word edited into `buf` and decides what follows.
fn take_word(session: &mut EncryptSession, buf: String, how: EditWord) -> (screen: Vec<Screen>)
    requires
        old(session).wf(),
        old(session).stage() == EncryptStage::Words,
    ensures
        final(session).wf(),
        final(session).style() == old(session).style(),
        word_step(*old(session), *final(session), buf@, how, screen@),
{
    let mut screen: Vec<Screen> = Vec::new();
    let i = session.word_no.value() - 1;
    let ghost typed = buf@;
    let ghost before = session.entered();
    session.words[i] = buf;
    assert(session.entered() =~= before.update(i as int, typed));
    match how {
        EditWord::Prev => {
            session.word_no.decrement();
            screen.push(Screen::Keymap(FrameKind::Words));
            assert(screen@ =~= seq![Screen::Keymap(FrameKind::Words)]);
        },
        EditWord::Next => {
            session.word_no.increment();
            screen.push(Screen::Keymap(FrameKind::Words));
            assert(screen@ =~= seq![Screen::Keymap(FrameKind::Words)]);
        },
        EditWord::Reload => {
            screen.push(Screen::Keymap(FrameKind::Words));
            assert(screen@ =~= seq![Screen::Keymap(FrameKind::Words)]);
        },
        EditWord::Exit => {
            session.stage = EncryptStage::Done;
            screen.push(Screen::Exit);
            assert(screen@ =~= seq![Screen::Exit]);
        },
        EditWord::Submit => {
            match submit_words(&session.words) {
                Ok(held) => {
                    session.mnemonic = Some(held);
                    session.pwd = String::new();
                    session.stage = EncryptStage::Password;
                    screen.push(Screen::Clear);
                    screen.push(Screen::Init(FrameKind::Password));
                    assert(screen@ =~= seq![
                        Screen::Clear,
                        Screen::Init(FrameKind::Password),
                    ]);
                },
                Err(notice) => {
                    screen.push(Screen::Error(notice));
                    assert(screen@ =~= seq![Screen::Error(notice)]);
                },
            }
        },
    }
    screen
}

/// Records the first password edited into `buf` and decides what follows.
fn take_password(session: &mut EncryptSession, buf: String, how: EditPwd) -> (screen: Vec<Screen>)
    requires
        old(session).wf(),
        old(session).stage() == EncryptStage::Password,
    ensures
        final(session).wf(),
        final(session).style() == old(session).style(),
        password_step(*old(session), *final(session), buf@, how, screen@),
{
    let mut screen: Vec<Screen> = Vec::new();
    session.pwd = buf;
    match how {
        EditPwd::Reload => {
            screen.push(Screen::Keymap(FrameKind::Password));
            assert(screen@ =~= seq![Screen::Keymap(FrameKind::Password)]);
        },
        EditPwd::Exit => {
            session.stage = EncryptStage::Done;
            screen.push(Screen::Exit);
            assert(screen@ =~= seq![Screen::Exit]);
        },
        EditPwd::Submit => {
            let sealed = match &session.mnemonic {
                Some((m, t)) => encrypt_with_password(m, *t, &session.pwd),
                None => Err(Notice::RejectedPassword),
            };
            match sealed {
                Ok(w) => {
                    let count = w.len();
                    session.encrypted = w;
                    session.shown_no = BoundedIndex::new(1, 1, count);
                    session.repeat = String::new();
                    session.stage = EncryptStage::Repeat;
                    screen.push(Screen::Keymap(FrameKind::Password));
                    assert(screen@ =~= seq![Screen::Keymap(FrameKind::Password)]);
                },
                Err(notice) => {
                    screen.push(Screen::Error(notice));
                    assert(screen@ =~= seq![Screen::Error(notice)]);
                },
            }
        },
    }
    screen
}

/// Records the repeated password edited into `buf` and decides what follows.
fn take_repeat(session: &mut EncryptSession, buf: String, how: EditPwd) -> (screen: Vec<Screen>)
    requires
        old(session).wf(),
        old(session).stage() == EncryptStage::Repeat,
    ensures
        final(session).wf(),
        final(session).style() == old(session).style(),
        repeat_step(*old(session), *final(session), buf@, how, screen@),
{
    let mut screen: Vec<Screen> = Vec::new();
    session.repeat = buf;
    match how {
        EditPwd::Reload => {
            screen.push(Screen::Keymap(FrameKind::Password));
            assert(screen@ =~= seq![Screen::Keymap(FrameKind::Password)]);
        },
        EditPwd::Exit => {
            session.stage = EncryptStage::Done;
            screen.push(Screen::Exit);
            assert(screen@ =~= seq![Screen::Exit]);
        },
        EditPwd::Submit => {
            screen.push(Screen::Keymap(FrameKind::Password));
            if session.pwd == session.repeat {
                let count = session.encrypted.len();
                let mut title = String::from_str(
                    "Encryption successful. View your encrypted mnemonic (",
                );
                let digits_text = digits_string(count, 10);
                title.append(digits_text.as_str());
                title.append(" words) below.");
                session.result_frame = InputFrame::new(
                    title,
                    &[("Arrows", "Navigate"), ("Enter", "Done"), ("Esc", "Exit")],
                );
                session.shown_no = BoundedIndex::new(1, 1, count);
                session.stage = EncryptStage::Result;
                screen.push(Screen::Clear);
                screen.push(Screen::Init(FrameKind::Result));
                assert(screen@ =~= seq![
                    Screen::Keymap(FrameKind::Password),
                    Screen::Clear,
                    Screen::Init(FrameKind::Result),
                ]);
            } else {
                session.pwd = String::new();
                session.stage = EncryptStage::Password;
                screen.push(Screen::Error(Notice::PasswordMismatch));
                assert(screen@ =~= seq![
                    Screen::Keymap(FrameKind::Password),
                    Screen::Error(Notice::PasswordMismatch),
                ]);
            }
        },
    }
    screen
}

/// Decides what follows the showing of an encrypted word.
fn take_view(session: &mut EncryptSession, how: ViewWord) -> (screen: Vec<Screen>)
    requires
        old(session).wf(),
        old(session).stage() == EncryptStage::Result,
    ensures
        final(session).wf(),
        final(session).style() == old(session).style(),
        view_step(*old(session), *final(session), how, screen@),
{
    let mut screen: Vec<Screen> = Vec::new();
    match how {
        ViewWord::Prev => {
            session.shown_no.decrement();
            screen.push(Screen::Keymap(FrameKind::Result));
            assert(screen@ =~= seq![Screen::Keymap(FrameKind::Result)]);
        },
        ViewWord::Next => {
            session.shown_no.increment();
            screen.push(Screen::Keymap(FrameKind::Result));
            assert(screen@ =~= seq![Screen::Keymap(FrameKind::Result)]);
        },
        ViewWord::Reload => {
            screen.push(Screen::Keymap(FrameKind::Result));
            assert(screen@ =~= seq![Screen::Keymap(FrameKind::Result)]);
        },
        ViewWord::Done => {
            session.stage = EncryptStage::Done;
            screen.push(Screen::Clear);
            assert(screen@ =~= seq![Screen::Clear]);
        },
        ViewWord::Exit => {
            session.stage = EncryptStage::Done;
            screen.push(Screen::Exit);
            assert(screen@ =~= seq![Screen::Exit]);
        },
    }
    screen
}

/// The encrypted words that a session shows, entered into a decryption with
/// the password that was chosen, give back the entropy of the mnemonic that
/// was entered.
pub proof fn lemma_shown_words_recover(s: EncryptSession)
    requires
        s.wf(),
        s.stage() == EncryptStage::Result,
    ensures
        s.held() matches Some((e, t)) && recovers(s.encrypted_words(), t, s.password(), e),
{
}

/// Takes one step of an encryption session: records what the terminal
/// reports, decides what follows, and says what to show and ask for next.
pub fn encrypt(session: &mut EncryptSession, event: EncryptEvent) -> (r: Step)
    requires
        old(session).wf(),
    ensures
        final(session).wf(),
        final(session).in_range(),
        final(session).style() == old(session).style(),
        r.request == final(session).request_of(),
        final(session).stage() == EncryptStage::Result ==> (final(session).held() matches Some(
            (e, t),
        ) && recovers(final(session).encrypted_words(), t, final(session).password(), e)),
        !event_fits(old(session).stage(), event) ==> final(session).same_as(old(session))
            && r.screen@ == Seq::<Screen>::empty(),
        event_fits(old(session).stage(), event) ==> (event matches EncryptEvent::Word(buf, how)
            ==> final(session).entered() == old(session).entered().update(
            old(session).word_number() - 1,
            buf@,
        ) && final(session).entered()[old(session).word_number() - 1] == buf@ && (how is Prev
            ==> final(session).word_number() == if old(session).word_number() > 1 {
            old(session).word_number() - 1
        } else {
            1
        }) && (how is Next ==> final(session).word_number() == if old(session).word_number()
            < 24 {
            old(session).word_number() + 1
        } else {
            24
        })),
        event_fits(old(session).stage(), event) ==> match event {
            EncryptEvent::Start => final(session).same_as(old(session)) && r.screen@ == seq![
                Screen::Init(FrameKind::Words),
            ],
            EncryptEvent::Word(buf, how) => word_step(
                *old(session),
                *final(session),
                buf@,
                how,
                r.screen@,
            ),
            EncryptEvent::Password(buf, how) => if old(session).stage()
                == EncryptStage::Password {
                password_step(*old(session), *final(session), buf@, how, r.screen@)
            } else {
                repeat_step(*old(session), *final(session), buf@, how, r.screen@)
            },
            EncryptEvent::View(how) => view_step(*old(session), *final(session), how, r.screen@),
        },
{
    let screen = match event {
        EncryptEvent::Start => {
            let mut screen: Vec<Screen> = Vec::new();
            if session.stage == EncryptStage::Words {
                screen.push(Screen::Init(FrameKind::Words));
                assert(screen@ =~= seq![Screen::Init(FrameKind::Words)]);
            }
            screen
        },
        EncryptEvent::Word(buf, how) => if session.stage == EncryptStage::Words {
            take_word(session, buf, how)
        } else {
            Vec::new()
        },
        EncryptEvent::Password(buf, how) => if session.stage == EncryptStage::Password {
            take_password(session, buf, how)
        } else if session.stage == EncryptStage::Repeat {
            take_repeat(session, buf, how)
        } else {
            Vec::new()
        },
        EncryptEvent::View(how) => if session.stage == EncryptStage::Result {
            take_view(session, how)
        } else {
            Vec::new()
        },
    };
    let request = match session.stage {
        EncryptStage::Words => Request::EditWord(session.word_no.value()),
        EncryptStage::Password => Request::EditPassword(false),
        EncryptStage::Repeat => Request::EditPassword(true),
        EncryptStage::Result => Request::ViewWord(session.shown_no.value()),
        EncryptStage::Done => Request::Finished,
    };
    Step { screen, request }
}

/// Whatever ends the editing of a word (moving back, moving on, submitting,
/// reloading or leaving), the text edited is kept in the slot of the word
/// being edited and the other slots are left as they were; moving back goes
/// to the word before, and moving on to the word after, within the 24 slots.
pub proof fn lemma_word_step_keeps_the_word(
    before: EncryptSession,
    after: EncryptSession,
    buf: Seq<char>,
    how: EditWord,
    screen: Seq<Screen>,
)
    requires
        1 <= before.word_number() <= 24,
        before.entered().len() == 24,
        word_step(before, after, buf, how, screen),
    ensures
        after.entered().len() == 24,
        after.entered()[before.word_number() - 1] == buf,
        forall|i: int|
            0 <= i < 24 && i != before.word_number() - 1 ==> #[trigger] after.entered()[i]
                == before.entered()[i],
        how is Prev ==> after.word_number() == if before.word_number() > 1 {
            before.word_number() - 1
        } else {
            1
        },
        how is Next ==> after.word_number() == if before.word_number() < 24 {
            before.word_number() + 1
        } else {
            24
        },
{
}

} // verus!
