//! Entering the key for the remote catalog: which key counts, how a key is
//! shown without giving it away, and what the entry dialog answers.

use vstd::prelude::*;
use vstd::string::StringExecFns;
use vstd::utf8::decode_utf8;
use vstd::utf8::encode_utf8;
use vstd::utf8::is_char_boundary;
use crate::text::char_is_whitespace;
use crate::text::chars_of;
use crate::text::is_blank;
use crate::text::is_whitespace;
use crate::text::string_of;
use crate::text::text_view;

verus! {

/// What showing the entry dialog came to.
#[derive(Debug)]
pub enum SetupDialogResult {
    /// The dialog is still being shown.
    Showing,
    /// The user saved a new key.
    Saved(String),
    /// The user cancelled the dialog.
    Cancelled,
}

impl Clone for SetupDialogResult {
    fn clone(&self) -> (copy: Self)
        ensures
            copy == *self,
    {
        match self {
            SetupDialogResult::Showing => SetupDialogResult::Showing,
            SetupDialogResult::Saved(key) => SetupDialogResult::Saved(key.clone()),
            SetupDialogResult::Cancelled => SetupDialogResult::Cancelled,
        }
    }
}

/// `text` without the white space at its end.
pub open spec fn trim_end(text: Seq<char>) -> Seq<char>
    decreases text.len(),
{
    if text.len() > 0 && char_is_whitespace(text.last()) {
        trim_end(text.drop_last())
    } else {
        text
    }
}

/// `text` without the white space at its start and at its end.
pub open spec fn trim(text: Seq<char>) -> Seq<char>
    decreases text.len(),
{
    if text.len() > 0 && char_is_whitespace(text.first()) {
        trim(text.drop_first())
    } else {
        trim_end(text)
    }
}

/// A text is blank exactly when trimming leaves nothing of it.
pub proof fn lemma_blank_trims_to_nothing(text: Seq<char>)
    ensures
        is_blank(text) <==> trim(text).len() == 0,
    decreases text.len(),
{
    if text.len() > 0 && char_is_whitespace(text.first()) {
        lemma_blank_trims_to_nothing(text.drop_first());
        let rest = text.drop_first();
        if is_blank(rest) {
            assert forall|i: int| 0 <= i < text.len() implies char_is_whitespace(
                #[trigger] text[i],
            ) by {
                if i > 0 {
                    assert(text[i] == rest[i - 1]);
                }
            }
        }
        if is_blank(text) {
            assert forall|i: int| 0 <= i < rest.len() implies char_is_whitespace(
                #[trigger] rest[i],
            ) by {
                assert(rest[i] == text[i + 1]);
            }
        }
    } else if text.len() > 0 {
        lemma_trim_end_keeps_start(text);
        assert(!char_is_whitespace(text[0]));
    }
}

/// Trimming the end of a text that begins with something other than white
/// space leaves that beginning.
proof fn lemma_trim_end_keeps_start(text: Seq<char>)
    requires
        text.len() > 0,
        !char_is_whitespace(text.first()),
    ensures
        trim_end(text).len() > 0,
    decreases text.len(),
{
    if char_is_whitespace(text.last()) {
        assert(text.len() > 1);
        assert(text.drop_last().first() == text.first());
        lemma_trim_end_keeps_start(text.drop_last());
    }
}

/// Removes the white space at the start and at the end of `text`.
pub fn trimmed(text: &str) -> (out: String)
    ensures
        out@ == trim(text@),
{
    let chars = chars_of(text);
    let mut start: usize = 0;
    assert(chars@.subrange(0, chars@.len() as int) =~= chars@);
    while start < chars.len() && is_whitespace(chars[start])
        invariant
            start <= chars.len(),
            trim(chars@) == trim(chars@.subrange(start as int, chars@.len() as int)),
        decreases chars.len() - start,
    {
        proof {
            let rest = chars@.subrange(start as int, chars@.len() as int);
            assert(rest.first() == chars@[start as int]);
            assert(rest.drop_first() =~= chars@.subrange(start + 1, chars@.len() as int));
        }
        start += 1;
    }
    let mut end: usize = chars.len();
    proof {
        let rest = chars@.subrange(start as int, chars@.len() as int);
        if rest.len() > 0 {
            assert(rest.first() == chars@[start as int]);
        }
    }
    while end > start && is_whitespace(chars[end - 1])
        invariant
            start <= end <= chars.len(),
            trim(chars@) == trim_end(chars@.subrange(start as int, end as int)),
        decreases end - start,
    {
        proof {
            let part = chars@.subrange(start as int, end as int);
            assert(part.last() == chars@[end - 1]);
            assert(part.drop_last() =~= chars@.subrange(start as int, end - 1));
        }
        end -= 1;
    }
    proof {
        let part = chars@.subrange(start as int, end as int);
        if part.len() > 0 {
            assert(part.last() == chars@[end - 1]);
        }
    }
    let mut kept: Vec<char> = Vec::new();
    let mut i: usize = start;
    while i < end
        invariant
            start <= i <= end <= chars.len(),
            kept@ == chars@.subrange(start as int, i as int),
        decreases end - i,
    {
        kept.push(chars[i]);
        i += 1;
    }
    string_of(&kept)
}

/// The key that counts: the one given, unless none is given or the one given
/// is blank.
pub open spec fn usable(key: Option<String>) -> Option<String> {
    match key {
        Some(k) => if is_blank(k@) {
            None
        } else {
            Some(k)
        },
        None => None,
    }
}

/// Passes a key on unless it is blank.
pub fn usable_key(key: Option<String>) -> (out: Option<String>)
    ensures
        out == usable(key),
{
    match key {
        Some(k) => {
            if crate::text::blank(k.as_str()) {
                None
            } else {
                Some(k)
            }
        },
        None => None,
    }
}

/// A run of `n` asterisks.
pub open spec fn stars(n: nat) -> Seq<char> {
    Seq::new(n, |i: int| '*')
}

/// How many asterisks stand for the hidden part of a key of more than eight
/// bytes: one for each byte but the last four, and at most twenty.
pub open spec fn hidden_stars(bytes: nat) -> nat {
    if bytes - 4 <= 20 {
        (bytes - 4) as nat
    } else {
        20
    }
}

/// A key as it is shown. A key of at most eight bytes is shown as one
/// asterisk for each byte. Of a longer key the last four bytes are shown,
/// behind asterisks and three dots.
pub open spec fn masked(key: Seq<char>) -> Seq<char> {
    let bytes = encode_utf8(key);
    if bytes.len() <= 8 {
        stars(bytes.len())
    } else {
        stars(hidden_stars(bytes.len())) + "..."@ + decode_utf8(
            bytes.subrange(bytes.len() - 4, bytes.len() as int),
        )
    }
}

/// The last four bytes of a key of more than eight bytes can be cut off:
/// they begin with the first byte of a character.
pub open spec fn can_be_masked(key: Seq<char>) -> bool {
    let bytes = encode_utf8(key);
    bytes.len() <= 8 || is_char_boundary(bytes, bytes.len() - 4)
}

/// Tests whether a key can be masked.
pub fn maskable(api_key: &str) -> (b: bool)
    ensures
        b == can_be_masked(api_key@),
{
    let n = api_key.as_bytes().len();
    n <= 8 || api_key.is_char_boundary(n - 4)
}

/// Writes a run of `n` asterisks.
pub fn star_string(n: usize) -> (out: String)
    ensures
        out@ == stars(n as nat),
{
    let mut out = String::new();
    let mut i: usize = 0;
    while i < n
        invariant
            i <= n,
            out@ =~= stars(i as nat),
        decreases n - i,
    {
        out.push('*');
        i += 1;
    }
    out
}

/// Returns a key in the form in which it is shown.
pub fn mask_api_key(api_key: &str) -> (shown: String)
    requires
        can_be_masked(api_key@),
    ensures
        shown@ == masked(api_key@),
{
    broadcast use vstd::utf8::encode_utf8_decode_utf8;

    let n = api_key.as_bytes().len();
    if n <= 8 {
        star_string(n)
    } else {
        let hidden = n - 4;
        let count = if hidden <= 20 {
            hidden
        } else {
            20
        };
        let (_, tail) = api_key.split_at(n - 4);
        assert(tail@ == decode_utf8(encode_utf8(tail@)));
        star_string(count).concat("...").concat(tail)
    }
}

/// The state of the dialog in which the key is entered.
pub struct SetupDialog {
    /// What the user has typed.
    pub api_key_input: String,
    show_dialog: bool,
    save_in_progress: bool,
    editing_mode: bool,
    current_api_key: Option<String>,
}

/// The state of the dialog, as mathematical values.
pub struct SetupDialogView {
    pub api_key_input: Seq<char>,
    pub show_dialog: bool,
    pub save_in_progress: bool,
    pub editing_mode: bool,
    pub current_api_key: Option<Seq<char>>,
}

/// What the user did in the dialog since it was last shown.
#[derive(Debug, Clone, Copy, PartialEq, Eq, Structural)]
pub enum DialogInput {
    /// Nothing that ends the dialog.
    Nothing,
    /// The button that saves the key was pressed.
    Save,
    /// The button that cancels was pressed.
    Cancel,
}

/// What the dialog answers, as mathematical values.
pub enum DialogAnswer {
    Showing,
    Saved(Seq<char>),
    Cancelled,
}

/// The answer that a result stands for.
pub open spec fn answer_of(result: SetupDialogResult) -> DialogAnswer {
    match result {
        SetupDialogResult::Showing => DialogAnswer::Showing,
        SetupDialogResult::Saved(key) => DialogAnswer::Saved(key@),
        SetupDialogResult::Cancelled => DialogAnswer::Cancelled,
    }
}

impl SetupDialogView {
    /// The input saves a key: the dialog is shown, no save is under way,
    /// the save button was pressed and what was typed is not blank.
    pub open spec fn saves(self, input: DialogInput) -> bool {
        self.show_dialog && !self.save_in_progress && input == DialogInput::Save && !is_blank(
            self.api_key_input,
        )
    }

    /// The input cancels the dialog: the dialog is shown for a change of the
    /// key, no save is under way, and the cancel button was pressed.
    pub open spec fn cancels(self, input: DialogInput) -> bool {
        self.show_dialog && !self.save_in_progress && self.editing_mode && input
            == DialogInput::Cancel
    }

    /// The state after the input.
    pub open spec fn after(self, input: DialogInput) -> SetupDialogView {
        if self.saves(input) {
            SetupDialogView { show_dialog: false, save_in_progress: true, ..self }
        } else if self.cancels(input) {
            SetupDialogView { show_dialog: false, ..self }
        } else {
            self
        }
    }

    /// What the dialog answers to the input. A dialog that is no longer
    /// shown answers "cancelled" if it was to change a key, and "showing"
    /// if it was to enter the first one.
    pub open spec fn answer(self, input: DialogInput) -> DialogAnswer {
        if !self.show_dialog {
            if self.editing_mode {
                DialogAnswer::Cancelled
            } else {
                DialogAnswer::Showing
            }
        } else if self.saves(input) {
            DialogAnswer::Saved(trim(self.api_key_input))
        } else if self.cancels(input) {
            DialogAnswer::Cancelled
        } else {
            DialogAnswer::Showing
        }
    }
}

impl View for SetupDialog {
    type V = SetupDialogView;

    closed spec fn view(&self) -> SetupDialogView {
        SetupDialogView {
            api_key_input: self.api_key_input@,
            show_dialog: self.show_dialog,
            save_in_progress: self.save_in_progress,
            editing_mode: self.editing_mode,
            current_api_key: text_view(self.current_api_key),
        }
    }
}

impl SetupDialog {
    /// The dialog for entering the first key.
    pub fn new() -> (dialog: Self)
        ensures
            dialog@ == (SetupDialogView {
                api_key_input: Seq::empty(),
                show_dialog: true,
                save_in_progress: false,
                editing_mode: false,
                current_api_key: None,
            }),
    {
        SetupDialog {
            api_key_input: String::new(),
            show_dialog: true,
            save_in_progress: false,
            editing_mode: false,
            current_api_key: None,
        }
    }

    /// The dialog for changing the key that is in use.
    pub fn new_editing(current_api_key: String) -> (dialog: Self)
        ensures
            dialog@ == (SetupDialogView {
                api_key_input: Seq::empty(),
                show_dialog: true,
                save_in_progress: false,
                editing_mode: true,
                current_api_key: Some(current_api_key@),
            }),
    {
        SetupDialog {
            api_key_input: String::new(),
            show_dialog: true,
            save_in_progress: false,
            editing_mode: true,
            current_api_key: Some(current_api_key),
        }
    }

    /// Whether the dialog is to be drawn.
    pub fn is_shown(&self) -> (b: bool)
        ensures
            b == self@.show_dialog,
    {
        self.show_dialog
    }

    /// Whether the dialog is for changing a key.
    pub fn is_editing(&self) -> (b: bool)
        ensures
            b == self@.editing_mode,
    {
        self.editing_mode
    }

    /// Whether a key is being saved.
    pub fn is_saving(&self) -> (b: bool)
        ensures
            b == self@.save_in_progress,
    {
        self.save_in_progress
    }

    /// The key that is in use, where the dialog is for changing it.
    pub fn current_api_key(&self) -> (key: &Option<String>)
        ensures
            self@.current_api_key == text_view(*key),
    {
        &self.current_api_key
    }

    /// Takes what the user did and says what the dialog came to. A key that
    /// is saved is what was typed, without the white space around it; the
    /// caller writes it to the store.
    pub fn show(&mut self, input: DialogInput) -> (result: SetupDialogResult)
        ensures
            final(self)@ == old(self)@.after(input),
            answer_of(result) == old(self)@.answer(input),
    {
        if !self.show_dialog {
            return if self.editing_mode {
                SetupDialogResult::Cancelled
            } else {
                SetupDialogResult::Showing
            };
        }
        if self.save_in_progress {
            return SetupDialogResult::Showing;
        }
        match input {
            DialogInput::Save => {
                if crate::text::blank(self.api_key_input.as_str()) {
                    SetupDialogResult::Showing
                } else {
                    let api_key = trimmed(self.api_key_input.as_str());
                    self.save_in_progress = true;
                    self.show_dialog = false;
                    SetupDialogResult::Saved(api_key)
                }
            },
            DialogInput::Cancel => {
                if self.editing_mode {
                    self.show_dialog = false;
                    SetupDialogResult::Cancelled
                } else {
                    SetupDialogResult::Showing
                }
            },
            DialogInput::Nothing => SetupDialogResult::Showing,
        }
    }
}

} // verus!
