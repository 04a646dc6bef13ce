//! The decisions of the screens that decrypt an encrypted mnemonic: the words
//! are entered, then the password, then the original words are shown.

use vstd::prelude::*;
use vstd::string::*;
use crate::{
    words24_entropy, words36_entropy, AnyEncryptedMnemonic, EncryptedMnemonic24, EncryptedMnemonic36,
};
use crate::cli::{
    classify_entered, digits, digits_string, entered_type, join_entered, strings, FrameKind,
    password_bytes, recovers, word_count_of, InputFrame, MnemonicType, Notice, Request, Screen,
    Step,
};
use crate::cli::encrypt::{lemma_shown_words_recover, EncryptSession, EncryptStage};
use crate::cli::input::{EditPwd, EditWord, ViewWord};
use crate::crypto::{key_derivable, opened_entropy};
use crate::mnemonic::bip39_entropy_words;
use crate::text::{is_word, join_with_spaces, texts};
use crate::util::{decremented, incremented, BoundedIndex};

verus! {

/// How many words can be entered: those of an encrypted 24-word mnemonic.
pub const ENTRY_SLOTS: usize = 36;

/// Where a decryption session stands.
#[derive(Clone, Copy, Debug, PartialEq, Eq, Structural)]
pub enum DecryptStage {
    /// The encrypted words are being entered.
    Words,
    /// The password is being entered.
    Password,
    /// The decrypted words are being shown.
    Result,
    /// The session is over.
    Done,
}

/// What the terminal reports back to a decryption session.
pub enum DecryptEvent {
    /// The session begins.
    Start,
    /// The word asked for was edited into the text given, and the editing ended so.
    Word(String, EditWord),
    /// The password was edited into the text given, and the editing ended so.
    Password(String, EditPwd),
    /// The showing of a word ended so.
    View(ViewWord),
}

/// The encrypted mnemonic that the words entered make, or the message that
/// says why they make none.
pub open spec fn entered_mnemonic_outcome(
    ws: Seq<Seq<char>>,
    held: Result<AnyEncryptedMnemonic, Notice>,
) -> bool {
    let first = join_with_spaces(ws.subrange(0, 24));
    let all = join_with_spaces(ws.subrange(0, 36));
    match entered_type(ws, 24, 36) {
        None => held == Err::<AnyEncryptedMnemonic, Notice>(Notice::IncompleteWords),
        Some(MnemonicType::Mnemonic12) => match words24_entropy(first) {
            Some(c) => held matches Ok(m) && m is Words24 && m.ciphertext() == c,
            None => held == Err::<AnyEncryptedMnemonic, Notice>(Notice::InvalidMnemonic),
        },
        Some(MnemonicType::Mnemonic24) => match words36_entropy(all) {
            Some(c) => held matches Ok(m) && m is Words36 && m.ciphertext() == c,
            None => held == Err::<AnyEncryptedMnemonic, Notice>(Notice::InvalidMnemonic),
        },
    }
}

/// Reads the words entered as an encrypted mnemonic: the first 24 when only
/// they are filled in, all 36 when all are.
pub fn submit_encrypted_words(words: &Vec<String>) -> (r: Result<AnyEncryptedMnemonic, Notice>)
    requires
        words@.len() == ENTRY_SLOTS,
    ensures
        entered_mnemonic_outcome(strings(words@), r),
{
    match classify_entered(words, 24, 36) {
        None => Err(Notice::IncompleteWords),
        Some(MnemonicType::Mnemonic12) => {
            let phrase = join_entered(words, 24);
            match EncryptedMnemonic24::from_words(phrase.as_str()) {
                Ok(m) => Ok(m.into_enum()),
                Err(_) => Err(Notice::InvalidMnemonic),
            }
        },
        Some(MnemonicType::Mnemonic24) => {
            let phrase = join_entered(words, 36);
            match EncryptedMnemonic36::from_words(phrase.as_str()) {
                Ok(m) => Ok(m.into_enum()),
                Err(_) => Err(Notice::InvalidMnemonic),
            }
        },
    }
}

/// The words that decrypting `held` with the password typed as `pwd` gives,
/// or the message that says it failed.
pub open spec fn decrypted_words_outcome(
    held: AnyEncryptedMnemonic,
    pwd: Seq<char>,
    r: Result<Seq<Seq<char>>, Notice>,
) -> bool {
    let bytes = password_bytes(pwd);
    if key_derivable(bytes) && opened_entropy(held.ciphertext(), bytes) is Some {
        r == Ok::<Seq<Seq<char>>, Notice>(
            bip39_entropy_words(opened_entropy(held.ciphertext(), bytes)->Some_0),
        )
    } else {
        r == Err::<Seq<Seq<char>>, Notice>(Notice::WrongPassword)
    }
}

/// Decrypts `held` with the password typed as `pwd` and gives the words of
/// the original mnemonic.
pub fn open_with_password(held: &AnyEncryptedMnemonic, pwd: &String) -> (r: Result<
    Vec<&'static str>,
    Notice,
>)
    ensures
        decrypted_words_outcome(
            *held,
            pwd@,
            match r {
                Ok(w) => Ok(texts(w@)),
                Err(n) => Err(n),
            },
        ),
        r matches Ok(w) ==> w@.len() * 4 == (held.ciphertext().len() - 16) * 3,
        r matches Ok(w) ==> w@.len() == 12 || w@.len() == 24,
{
    proof {
        held.lemma_ciphertext_len();
    }
    match held.decrypt(pwd.as_str().as_bytes()) {
        Ok(m) => {
            let w = m.words();
            Ok(w)
        },
        Err(_) => Err(Notice::WrongPassword),
    }
}

/// The title of the frame that shows the `n` decrypted words.
pub open spec fn result_title(n: nat) -> Seq<char> {
    "Decryption successful. View your original mnemonic ("@ + digits(n, 10)
        + " words) below."@
}

/// The screens of a decryption session, as the terminal asks for them.
pub struct DecryptSession {
    stage: DecryptStage,
    words: Vec<String>,
    word_no: BoundedIndex,
    encrypted: Option<AnyEncryptedMnemonic>,
    pwd: String,
    plain: Vec<&'static str>,
    shown_no: BoundedIndex,
    words_frame: InputFrame,
    password_frame: InputFrame,
    result_frame: InputFrame,
}

impl DecryptSession {
    /// Where the session stands.
    pub closed spec fn stage(&self) -> DecryptStage {
        self.stage
    }

    /// The words entered so far, one per slot.
    pub closed spec fn entered(&self) -> Seq<Seq<char>> {
        strings(self.words@)
    }

    /// The number of the word being entered, counted from 1.
    pub closed spec fn word_number(&self) -> int {
        self.word_no.current()
    }

    /// The password entered so far.
    pub closed spec fn password(&self) -> Seq<char> {
        self.pwd@
    }

    /// The encrypted mnemonic read from the words, once there is one.
    pub closed spec fn held(&self) -> Option<AnyEncryptedMnemonic> {
        self.encrypted
    }

    /// The decrypted words, once there are some.
    pub closed spec fn plain_words(&self) -> Seq<Seq<char>> {
        texts(self.plain@)
    }

    /// The number of the decrypted word being shown, counted from 1.
    pub closed spec fn shown_number(&self) -> int {
        self.shown_no.current()
    }

    /// The title of the frame of kind `kind`.
    pub closed spec fn frame_title(&self, kind: FrameKind) -> Seq<char> {
        match kind {
            FrameKind::Words => self.words_frame.title_text(),
            FrameKind::Password => self.password_frame.title_text(),
            FrameKind::Result => self.result_frame.title_text(),
        }
    }

    /// The session's parts agree with one another.
    pub closed spec fn wf(&self) -> bool {
        &&& self.words@.len() == ENTRY_SLOTS
        &&& self.word_no.lower() == 1
        &&& self.word_no.upper() == ENTRY_SLOTS
        &&& self.word_no.in_bounds()
        &&& self.stage == DecryptStage::Password ==> self.encrypted is Some
        &&& self.stage == DecryptStage::Result ==> {
            &&& self.shown_no.lower() == 1
            &&& self.shown_no.upper() == self.plain@.len()
            &&& self.shown_no.in_bounds()
        }
        &&& self.in_range()
    }

    /// The numbers asked for stay within the words there are, the decrypted
    /// words are 12 or 24, and the frames carry their titles.
    pub open spec fn in_range(&self) -> bool {
        &&& 1 <= self.word_number() <= ENTRY_SLOTS
        &&& self.stage() == DecryptStage::Result ==> {
            &&& 1 <= self.shown_number() <= self.plain_words().len()
            &&& self.plain_words().len() == 12 || self.plain_words().len() == 24
            &&& self.frame_title(FrameKind::Result) == result_title(self.plain_words().len())
        }
        &&& self.frame_title(FrameKind::Words) == "Enter your encrypted mnemonic."@
        &&& self.frame_title(FrameKind::Password)
            == "Enter the password used to encrypt your mnemonic."@
    }

    /// What the session asks for while it stands where it does.
    pub open spec fn request_of(&self) -> Request {
        match self.stage() {
            DecryptStage::Words => Request::EditWord(self.word_number() as usize),
            DecryptStage::Password => Request::EditPassword(false),
            DecryptStage::Result => Request::ViewWord(self.shown_number() as usize),
            DecryptStage::Done => Request::Finished,
        }
    }

    /// `self` and `other` hold the same entries and stand at the same place.
    pub open spec fn same_as(&self, other: &Self) -> bool {
        &&& self.stage() == other.stage()
        &&& self.entered() == other.entered()
        &&& self.word_number() == other.word_number()
        &&& self.password() == other.password()
        &&& self.held() == other.held()
        &&& self.plain_words() == other.plain_words()
        &&& self.shown_number() == other.shown_number()
    }

    /// A session that waits to begin with the entry of the first word.
    pub fn new() -> (r: Self)
        ensures
            r.wf(),
            r.in_range(),
            r.stage() == DecryptStage::Words,
            r.entered() == Seq::new(ENTRY_SLOTS as nat, |i: int| Seq::<char>::empty()),
            r.word_number() == 1,
            r.password() == Seq::<char>::empty(),
            r.held() is None,
            r.frame_title(FrameKind::Words) == "Enter your encrypted mnemonic."@,
            r.frame_title(FrameKind::Password)
                == "Enter the password used to encrypt your mnemonic."@,
    {
        let mut words: Vec<String> = Vec::new();
        let mut i: usize = 0;
        while i < ENTRY_SLOTS
            invariant
                i <= ENTRY_SLOTS,
                words@.len() == i,
                forall|j: int| 0 <= j < i ==> (#[trigger] words@[j])@ == Seq::<char>::empty(),
            decreases ENTRY_SLOTS - i,
        {
            words.push(String::new());
            i = i + 1;
        }
        assert(strings(words@) =~= Seq::new(ENTRY_SLOTS as nat, |i: int| Seq::<char>::empty()));
        let words_frame = InputFrame::new(
            String::from_str("Enter your encrypted mnemonic."),
            &[("Arrows", "Navigate"), ("Space", "Next"), ("Enter", "Submit"), ("Esc", "Exit")],
        );
        let password_frame = InputFrame::new(
            String::from_str("Enter the password used to encrypt your mnemonic."),
            &[("Enter", "Submit"), ("Esc", "Exit")],
        );
        let result_frame = InputFrame::from_entries(String::new(), &Vec::new());
        DecryptSession {
            stage: DecryptStage::Words,
            words,
            word_no: BoundedIndex::new(1, 1, ENTRY_SLOTS),
            encrypted: None,
            pwd: String::new(),
            plain: Vec::new(),
            shown_no: BoundedIndex::new(1, 1, 1),
            words_frame,
            password_frame,
            result_frame,
        }
    }

    /// The frame of kind `kind`, for the terminal to draw.
    pub fn frame(&self, kind: FrameKind) -> (r: &InputFrame)
        ensures
            r.title_text() == self.frame_title(kind),
    {
        match kind {
            FrameKind::Words => &self.words_frame,
            FrameKind::Password => &self.password_frame,
            FrameKind::Result => &self.result_frame,
        }
    }

    /// The entered word with number `n`, counted from 1.
    pub fn word(&self, n: usize) -> (r: &str)
        requires
            self.wf(),
            1 <= n <= ENTRY_SLOTS,
        ensures
            r@ == self.entered()[n - 1],
    {
        self.words[n - 1].as_str()
    }

    /// The password entered so far.
    pub fn password_text(&self) -> (r: &str)
        ensures
            r@ == self.password(),
    {
        self.pwd.as_str()
    }

    /// How many words there are to show.
    pub fn shown_count(&self) -> (r: usize)
        ensures
            r == self.plain_words().len(),
    {
        self.plain.len()
    }

    /// The decrypted word with number `n`, counted from 1.
    pub fn shown_word(&self, n: usize) -> (r: &'static str)
        requires
            1 <= n <= self.plain_words().len(),
        ensures
            r@ == self.plain_words()[n - 1],
    {
        self.plain[n - 1]
    }
}

/// Whether `event` is one that a session standing at `stage` takes.
pub open spec fn event_fits(stage: DecryptStage, event: DecryptEvent) -> bool {
    match event {
        DecryptEvent::Start => stage == DecryptStage::Words,
        DecryptEvent::Word(_, _) => stage == DecryptStage::Words,
        DecryptEvent::Password(_, _) => stage == DecryptStage::Password,
        DecryptEvent::View(_) => stage == DecryptStage::Result,
    }
}

/// The step taken when the word being entered was edited into `buf` and the
/// editing ended with `how`.
pub open spec fn word_step(
    before: DecryptSession,
    after: DecryptSession,
    buf: Seq<char>,
    how: EditWord,
    screen: Seq<Screen>,
) -> bool {
    let n = before.word_number();
    let ws = before.entered().update(n - 1, buf);
    &&& after.entered() == ws
    &&& after.password() == before.password()
    &&& match how {
        EditWord::Prev => {
            &&& after.stage() == DecryptStage::Words
            &&& after.word_number() == decremented(n, 1)
            &&& screen == seq![Screen::Keymap(FrameKind::Words)]
        },
        EditWord::Next => {
            &&& after.stage() == DecryptStage::Words
            &&& after.word_number() == incremented(n, ENTRY_SLOTS as int)
            &&& screen == seq![Screen::Keymap(FrameKind::Words)]
        },
        EditWord::Reload => {
            &&& after.stage() == DecryptStage::Words
            &&& after.word_number() == n
            &&& screen == seq![Screen::Keymap(FrameKind::Words)]
        },
        EditWord::Exit => {
            &&& after.stage() == DecryptStage::Done
            &&& screen == seq![Screen::Exit]
        },
        EditWord::Submit => {
            &&& after.word_number() == n
            &&& exists|held: Result<AnyEncryptedMnemonic, Notice>|
                {
                    &&& #[trigger] entered_mnemonic_outcome(ws, held)
                    &&& match held {
                        Ok(m) => {
                            &&& after.stage() == DecryptStage::Password
                            &&& after.held() == Some(m)
                            &&& screen == seq![Screen::Clear, Screen::Init(FrameKind::Password)]
                        },
                        Err(notice) => {
                            &&& after.stage() == DecryptStage::Words
                            &&& after.held() == before.held()
                            &&& screen == seq![Screen::Error(notice)]
                        },
                    }
                }
        },
    }
}

/// The step taken when the password was edited into `buf` and the editing
/// ended with `how`.
pub open spec fn password_step(
    before: DecryptSession,
    after: DecryptSession,
    buf: Seq<char>,
    how: EditPwd,
    screen: Seq<Screen>,
) -> bool {
    &&& after.entered() == before.entered()
    &&& after.held() == before.held()
    &&& after.password() == buf
    &&& match how {
        EditPwd::Reload => {
            &&& after.stage() == DecryptStage::Password
            &&& screen == seq![Screen::Keymap(FrameKind::Password)]
        },
        EditPwd::Exit => {
            &&& after.stage() == DecryptStage::Done
            &&& screen == seq![Screen::Exit]
        },
        EditPwd::Submit => {
            let opened = if after.stage() == DecryptStage::Result {
                Ok::<Seq<Seq<char>>, Notice>(after.plain_words())
            } else {
                Err::<Seq<Seq<char>>, Notice>(Notice::WrongPassword)
            };
            &&& decrypted_words_outcome(before.held()->Some_0, buf, opened)
            &&& after.stage() == DecryptStage::Result ==> {
                &&& after.shown_number() == 1
                &&& after.plain_words().len() * 4 == (before.held()->Some_0.ciphertext().len()
                    - 16) * 3
                &&& after.frame_title(FrameKind::Result) == result_title(
                    after.plain_words().len(),
                )
                &&& screen == seq![
                    Screen::Keymap(FrameKind::Password),
                    Screen::Init(FrameKind::Result),
                ]
            }
            &&& after.stage() != DecryptStage::Result ==> {
                &&& after.stage() == DecryptStage::Password
                &&& screen == seq![Screen::Error(Notice::WrongPassword)]
            }
        },
    }
}

/// The step taken when the showing of a decrypted word ended with `how`.
pub open spec fn view_step(
    before: DecryptSession,
    after: DecryptSession,
    how: ViewWord,
    screen: Seq<Screen>,
) -> bool {
    let n = before.shown_number();
    let count = before.plain_words().len() as int;
    &&& after.plain_words() == before.plain_words()
    &&& match how {
        ViewWord::Prev => {
            &&& after.stage() == DecryptStage::Result
            &&& after.shown_number() == decremented(n, 1)
            &&& screen == seq![Screen::Keymap(FrameKind::Result)]
        },
        ViewWord::Next => {
            &&& after.stage() == DecryptStage::Result
            &&& after.shown_number() == incremented(n, count)
            &&& screen == seq![Screen::Keymap(FrameKind::Result)]
        },
        ViewWord::Reload => {
            &&& after.stage() == DecryptStage::Result
            &&& after.shown_number() == n
            &&& screen == seq![Screen::Keymap(FrameKind::Result)]
        },
        ViewWord::Done => {
            &&& after.stage() == DecryptStage::Done
            &&& screen == seq![Screen::Clear]
        },
        ViewWord::Exit => {
            &&& after.stage() == DecryptStage::Done
            &&& screen == seq![Screen::Exit]
        },
    }
}

/// Records the word edited into `buf` and decides what follows.
fn take_word(session: &mut DecryptSession, buf: String, how: EditWord) -> (screen: Vec<Screen>)
    requires
        old(session).wf(),
        old(session).stage() == DecryptStage::Words,
    ensures
        final(session).wf(),
        word_step(*old(session), *final(session), buf@, how, screen@),
{
    let mut screen: Vec<Screen> = Vec::new();
    let i = session.word_no.value() - 1;
    let ghost typed = buf@;
    let ghost before = session.entered();
    session.words[i] = buf;
    assert(session.entered() =~= before.update(i as int, typed));
    match how {
        EditWord::Prev => {
            session.word_no.decrement();
            screen.push(Screen::Keymap(FrameKind::Words));
            assert(screen@ =~= seq![Screen::Keymap(FrameKind::Words)]);
        },
        EditWord::Next => {
            session.word_no.increment();
            screen.push(Screen::Keymap(FrameKind::Words));
            assert(screen@ =~= seq![Screen::Keymap(FrameKind::Words)]);
        },
        EditWord::Reload => {
            screen.push(Screen::Keymap(FrameKind::Words));
            assert(screen@ =~= seq![Screen::Keymap(FrameKind::Words)]);
        },
        EditWord::Exit => {
            session.stage = DecryptStage::Done;
            screen.push(Screen::Exit);
            assert(screen@ =~= seq![Screen::Exit]);
        },
        EditWord::Submit => {
            let held = submit_encrypted_words(&session.words);
            let ghost outcome = held;
            match held {
                Ok(m) => {
                    session.encrypted = Some(m);
                    session.stage = DecryptStage::Password;
                    screen.push(Screen::Clear);
                    screen.push(Screen::Init(FrameKind::Password));
                    assert(screen@ =~= seq![
                        Screen::Clear,
                        Screen::Init(FrameKind::Password),
                    ]);
                },
                Err(notice) => {
                    screen.push(Screen::Error(notice));
                    assert(screen@ =~= seq![Screen::Error(notice)]);
                },
            }
            assert(entered_mnemonic_outcome(session.entered(), outcome));
        },
    }
    screen
}

/// Records the password edited into `buf` and decides what follows.
fn take_password(session: &mut DecryptSession, buf: String, how: EditPwd) -> (screen: Vec<Screen>)
    requires
        old(session).wf(),
        old(session).stage() == DecryptStage::Password,
    ensures
        final(session).wf(),
        password_step(*old(session), *final(session), buf@, how, screen@),
{
    let mut screen: Vec<Screen> = Vec::new();
    session.pwd = buf;
    match how {
        EditPwd::Reload => {
            screen.push(Screen::Keymap(FrameKind::Password));
            assert(screen@ =~= seq![Screen::Keymap(FrameKind::Password)]);
        },
        EditPwd::Exit => {
            session.stage = DecryptStage::Done;
            screen.push(Screen::Exit);
            assert(screen@ =~= seq![Screen::Exit]);
        },
        EditPwd::Submit => {
            let opened = match &session.encrypted {
                Some(m) => open_with_password(m, &session.pwd),
                None => Err(Notice::WrongPassword),
            };
            match opened {
                Ok(w) => {
                    let count = w.len();
                    let mut title = String::from_str(
                        "Decryption successful. View your original mnemonic (",
                    );
                    let digits_text = digits_string(count, 10);
                    title.append(digits_text.as_str());
                    title.append(" words) below.");
                    session.result_frame = InputFrame::new(
                        title,
                        &[("Arrows", "Navigate"), ("Enter", "Done"), ("Esc", "Exit")],
                    );
                    session.plain = w;
                    session.shown_no = BoundedIndex::new(1, 1, count);
                    session.stage = DecryptStage::Result;
                    screen.push(Screen::Keymap(FrameKind::Password));
                    screen.push(Screen::Init(FrameKind::Result));
                    assert(screen@ =~= seq![
                        Screen::Keymap(FrameKind::Password),
                        Screen::Init(FrameKind::Result),
                    ]);
                },
                Err(notice) => {
                    screen.push(Screen::Error(notice));
                    assert(screen@ =~= seq![Screen::Error(notice)]);
                },
            }
        },
    }
    screen
}

/// Decides what follows the showing of a decrypted word.
fn take_view(session: &mut DecryptSession, how: ViewWord) -> (screen: Vec<Screen>)
    requires
        old(session).wf(),
        old(session).stage() == DecryptStage::Result,
    ensures
        final(session).wf(),
        view_step(*old(session), *final(session), how, screen@),
{
    let mut screen: Vec<Screen> = Vec::new();
    match how {
        ViewWord::Prev => {
            session.shown_no.decrement();
            screen.push(Screen::Keymap(FrameKind::Result));
            assert(screen@ =~= seq![Screen::Keymap(FrameKind::Result)]);
        },
        ViewWord::Next => {
            session.shown_no.increment();
            screen.push(Screen::Keymap(FrameKind::Result));
            assert(screen@ =~= seq![Screen::Keymap(FrameKind::Result)]);
        },
        ViewWord::Reload => {
            screen.push(Screen::Keymap(FrameKind::Result));
            assert(screen@ =~= seq![Screen::Keymap(FrameKind::Result)]);
        },
        ViewWord::Done => {
            session.stage = DecryptStage::Done;
            screen.push(Screen::Clear);
            assert(screen@ =~= seq![Screen::Clear]);
        },
        ViewWord::Exit => {
            session.stage = DecryptStage::Done;
            screen.push(Screen::Exit);
            assert(screen@ =~= seq![Screen::Exit]);
        },
    }
    screen
}

/// Takes one step of a decryption session: records what the terminal
/// reports, decides what follows, and says what to show and ask for next.
pub fn decrypt(session: &mut DecryptSession, event: DecryptEvent) -> (r: Step)
    requires
        old(session).wf(),
    ensures
        final(session).wf(),
        final(session).in_range(),
        r.request == final(session).request_of(),
        !event_fits(old(session).stage(), event) ==> final(session).same_as(old(session))
            && r.screen@ == Seq::<Screen>::empty(),
        event_fits(old(session).stage(), event) ==> (event matches DecryptEvent::Word(buf, how)
            ==> final(session).entered() == old(session).entered().update(
            old(session).word_number() - 1,
            buf@,
        ) && final(session).entered()[old(session).word_number() - 1] == buf@ && (how is Prev
            ==> final(session).word_number() == if old(session).word_number() > 1 {
            old(session).word_number() - 1
        } else {
            1
        }) && (how is Next ==> final(session).word_number() == if old(session).word_number()
            < 36 {
            old(session).word_number() + 1
        } else {
            36
        })),
        event_fits(old(session).stage(), event) ==> match event {
            DecryptEvent::Start => final(session).same_as(old(session)) && r.screen@ == seq![
                Screen::Init(FrameKind::Words),
            ],
            DecryptEvent::Word(buf, how) => word_step(
                *old(session),
                *final(session),
                buf@,
                how,
                r.screen@,
            ),
            DecryptEvent::Password(buf, how) => password_step(
                *old(session),
                *final(session),
                buf@,
                how,
                r.screen@,
            ),
            DecryptEvent::View(how) => view_step(*old(session), *final(session), how, r.screen@),
        },
{
    let screen = match event {
        DecryptEvent::Start => {
            let mut screen: Vec<Screen> = Vec::new();
            if session.stage == DecryptStage::Words {
                screen.push(Screen::Init(FrameKind::Words));
                assert(screen@ =~= seq![Screen::Init(FrameKind::Words)]);
            }
            screen
        },
        DecryptEvent::Word(buf, how) => if session.stage == DecryptStage::Words {
            take_word(session, buf, how)
        } else {
            Vec::new()
        },
        DecryptEvent::Password(buf, how) => if session.stage == DecryptStage::Password {
            take_password(session, buf, how)
        } else {
            Vec::new()
        },
        DecryptEvent::View(how) => if session.stage == DecryptStage::Result {
            take_view(session, how)
        } else {
            Vec::new()
        },
    };
    let request = match session.stage {
        DecryptStage::Words => Request::EditWord(session.word_no.value()),
        DecryptStage::Password => Request::EditPassword(false),
        DecryptStage::Result => Request::ViewWord(session.shown_no.value()),
        DecryptStage::Done => Request::Finished,
    };
    Step { screen, request }
}

/// The slots of a decryption filled with the words `v` and empty after them.
pub open spec fn filled_slots(v: Seq<Seq<char>>) -> Seq<Seq<char>> {
    v + Seq::new((ENTRY_SLOTS - v.len()) as nat, |i: int| Seq::<char>::empty())
}

/// Entering the words that an encryption showed, and then the password that it
/// was made with, reads an encrypted mnemonic and decrypts it to the words of
/// the original entropy.
pub proof fn lemma_encrypted_words_decrypt(
    v: Seq<Seq<char>>,
    t: MnemonicType,
    pwd: Seq<char>,
    e: Seq<u8>,
    held: Result<AnyEncryptedMnemonic, Notice>,
)
    requires
        recovers(v, t, pwd, e),
        entered_mnemonic_outcome(filled_slots(v), held),
    ensures
        held matches Ok(m) && m.ciphertext().len() == e.len() + 16 && decrypted_words_outcome(
            m,
            pwd,
            Ok::<Seq<Seq<char>>, Notice>(bip39_entropy_words(e)),
        ),
{
    let ws = filled_slots(v);
    let n = v.len() as int;
    assert forall|i: int| 0 <= i < n implies (#[trigger] ws[i]).len() > 0 by {
        assert(ws[i] == v[i]);
        assert(is_word(v[i]));
    }
    assert(ws.subrange(0, n) =~= v);
    match t {
        MnemonicType::Mnemonic12 => {
            assert(ws[24].len() == 0);
            assert forall|i: int| 24 <= i < 36 implies (#[trigger] ws[i]).len() == 0 by {}
            assert(entered_type(ws, 24, 36) == Some(MnemonicType::Mnemonic12));
        },
        MnemonicType::Mnemonic24 => {
            assert(entered_type(ws, 24, 36) == Some(MnemonicType::Mnemonic24));
        },
    }
}

/// A decryption gives back what an encryption showed: where the words that
/// an encryption session shows are what the slots hold once a word is
/// submitted, and the password that the encryption chose is submitted next,
/// the encrypted mnemonic is read, decrypted, and the words of the mnemonic
/// that was encrypted are shown from the first, under a title that counts them.
pub proof fn lemma_decryption_shows_encrypted_mnemonic(
    enc: EncryptSession,
    s0: DecryptSession,
    s1: DecryptSession,
    s2: DecryptSession,
    buf: Seq<char>,
    screen1: Seq<Screen>,
    screen2: Seq<Screen>,
)
    requires
        enc.wf(),
        enc.stage() == EncryptStage::Result,
        s0.wf(),
        s0.entered().update(s0.word_number() - 1, buf) == filled_slots(enc.encrypted_words()),
        word_step(s0, s1, buf, EditWord::Submit, screen1),
        password_step(s1, s2, enc.password(), EditPwd::Submit, screen2),
    ensures
        s1.stage() == DecryptStage::Password,
        screen1 == seq![Screen::Clear, Screen::Init(FrameKind::Password)],
        s2.stage() == DecryptStage::Result,
        enc.held() matches Some((e, t)) && s2.plain_words() == bip39_entropy_words(e)
            && s2.plain_words().len() == word_count_of(t),
        s2.shown_number() == 1,
        s2.frame_title(FrameKind::Result) == result_title(s2.plain_words().len()),
        screen2 == seq![Screen::Keymap(FrameKind::Password), Screen::Init(FrameKind::Result)],
{
    lemma_shown_words_recover(enc);
    let (e, t) = enc.held()->Some_0;
    let v = enc.encrypted_words();
    let ws = s0.entered().update(s0.word_number() - 1, buf);
    let held = choose|held: Result<AnyEncryptedMnemonic, Notice>|
        {
            &&& #[trigger] entered_mnemonic_outcome(ws, held)
            &&& match held {
                Ok(m) => {
                    &&& s1.stage() == DecryptStage::Password
                    &&& s1.held() == Some(m)
                    &&& screen1 == seq![Screen::Clear, Screen::Init(FrameKind::Password)]
                },
                Err(notice) => {
                    &&& s1.stage() == DecryptStage::Words
                    &&& s1.held() == s0.held()
                    &&& screen1 == seq![Screen::Error(notice)]
                },
            }
        };
    lemma_encrypted_words_decrypt(v, t, enc.password(), e, held);
    let m = held->Ok_0;
    m.lemma_ciphertext_len();
    assert(s1.held() == Some(m));
    assert(s2.stage() == DecryptStage::Result);
}

/// Whatever ends the editing of a word (moving back, moving on, submitting,
/// reloading or leaving), the text edited is kept in the slot of the word
/// being edited and the other slots are left as they were; moving back goes
/// to the word before, and moving on to the word after, within the 36 slots.
pub proof fn lemma_word_step_keeps_the_word(
    before: DecryptSession,
    after: DecryptSession,
    buf: Seq<char>,
    how: EditWord,
    screen: Seq<Screen>,
)
    requires
        1 <= before.word_number() <= 36,
        before.entered().len() == 36,
        word_step(before, after, buf, how, screen),
    ensures
        after.entered().len() == 36,
        after.entered()[before.word_number() - 1] == buf,
        forall|i: int|
            0 <= i < 36 && i != before.word_number() - 1 ==> #[trigger] after.entered()[i]
                == before.entered()[i],
        how is Prev ==> after.word_number() == if before.word_number() > 1 {
            before.word_number() - 1
        } else {
            1
        },
        how is Next ==> after.word_number() == if before.word_number() < 36 {
            before.word_number() + 1
        } else {
            36
        },
{
}

} // verus!
