//! The character-selection logic behind the passphrase keyboard.
//!
//! The surrounding widget machinery (choice pages, buttons, event
//! plumbing) lives outside the core; this module keeps the state that
//! decides which characters are offered and what the entered passphrase
//! is. The entered text lives in a fixed-capacity buffer so that no
//! allocation happens while a passphrase is being edited.

use vstd::prelude::*;

use crate::error::RenderError;

verus! {

/// The most characters a passphrase may have.
pub const MAX_LENGTH: usize = 50;

/// Outcome of a finished passphrase entry.
#[derive(Clone, Copy, PartialEq, Eq, Structural, Debug)]
pub enum PassphraseEntryMsg {
    Confirmed,
    Cancelled,
}

/// The choices currently offered on the screen.
#[derive(Clone, Copy, PartialEq, Eq, Structural, Debug)]
pub enum ChoiceCategory {
    Menu,
    LowercaseLetter,
    UppercaseLetter,
    Digit,
    SpecialSymbol,
}

/// A fixed-capacity text buffer for the passphrase being entered.
#[verifier::external_body]
pub struct PassBuf {
    text: heapless::String<MAX_LENGTH>,
}

/// The characters the buffer holds, in order.
pub uninterp spec fn pass_chars(b: PassBuf) -> Seq<char>;

/// Relies on heapless::String::new: a fresh buffer holds nothing.
#[verifier::external_body]
pub fn pass_buf_new() -> (b: PassBuf)
    ensures
        pass_chars(b) == Seq::<char>::empty(),
{
    PassBuf { text: heapless::String::new() }
}

/// Relies on heapless::String::push: appends the character when the
/// byte capacity allows it, else reports a capacity error and leaves
/// the text alone. Every character this module stores is ASCII, one
/// byte each, so the byte capacity is the character capacity.
#[verifier::external_body]
pub fn pass_buf_push(b: &mut PassBuf, c: char) -> (r: bool)
    requires
        (c as u32) < 128,
    ensures
        r <==> pass_chars(*old(b)).len() < MAX_LENGTH,
        r ==> pass_chars(*final(b)) == pass_chars(*old(b)).push(c),
        !r ==> pass_chars(*final(b)) == pass_chars(*old(b)),
{
    b.text.push(c).is_ok()
}

/// Relies on heapless::String::pop: removes and returns the last
/// character, or nothing from an empty buffer.
#[verifier::external_body]
pub fn pass_buf_pop(b: &mut PassBuf) -> (r: Option<char>)
    ensures
        pass_chars(*old(b)).len() == 0 ==> r is None && pass_chars(*final(b)) == pass_chars(
            *old(b),
        ),
        pass_chars(*old(b)).len() > 0 ==> r == Some(pass_chars(*old(b)).last()) && pass_chars(
            *final(b),
        ) == pass_chars(*old(b)).drop_last(),
{
    b.text.pop()
}

/// Relies on heapless::String::as_str: a copy of the stored text.
#[verifier::external_body]
pub fn pass_buf_text(b: &PassBuf) -> (r: String)
    ensures
        r@ == pass_chars(*b),
{
    let mut s = String::new();
    s.push_str(b.text.as_str());
    s
}

/// The special symbols offered by the keyboard, by index.
pub open spec fn special_char(i: int) -> char {
    if i == 0 {
        '_'
    } else if i == 1 {
        '<'
    } else if i == 2 {
        '>'
    } else if i == 3 {
        '.'
    } else if i == 4 {
        ':'
    } else if i == 5 {
        '@'
    } else if i == 6 {
        '/'
    } else if i == 7 {
        '|'
    } else if i == 8 {
        '\\'
    } else if i == 9 {
        '!'
    } else if i == 10 {
        '('
    } else if i == 11 {
        ')'
    } else if i == 12 {
        '+'
    } else if i == 13 {
        '%'
    } else if i == 14 {
        '&'
    } else if i == 15 {
        '-'
    } else if i == 16 {
        '['
    } else if i == 17 {
        ']'
    } else if i == 18 {
        '?'
    } else if i == 19 {
        '{'
    } else if i == 20 {
        '}'
    } else if i == 21 {
        ','
    } else if i == 22 {
        '\''
    } else if i == 23 {
        '`'
    } else if i == 24 {
        ';'
    } else if i == 25 {
        '"'
    } else if i == 26 {
        '~'
    } else if i == 27 {
        '$'
    } else if i == 28 {
        '^'
    } else {
        '='
    }
}

fn special_char_at(i: usize) -> (c: char)
    requires
        i < 30,
    ensures
        c == special_char(i as int),
{
    match i {
        0 => '_',
        1 => '<',
        2 => '>',
        3 => '.',
        4 => ':',
        5 => '@',
        6 => '/',
        7 => '|',
        8 => '\\',
        9 => '!',
        10 => '(',
        11 => ')',
        12 => '+',
        13 => '%',
        14 => '&',
        15 => '-',
        16 => '[',
        17 => ']',
        18 => '?',
        19 => '{',
        20 => '}',
        21 => ',',
        22 => '\'',
        23 => '`',
        24 => ';',
        25 => '"',
        26 => '~',
        27 => '$',
        28 => '^',
        _ => '=',
    }
}

/// How many characters a category offers.
pub open spec fn category_len(cat: ChoiceCategory) -> int {
    match cat {
        ChoiceCategory::Menu => 0,
        ChoiceCategory::LowercaseLetter => 26,
        ChoiceCategory::UppercaseLetter => 26,
        ChoiceCategory::Digit => 10,
        ChoiceCategory::SpecialSymbol => 30,
    }
}

/// The character a category offers at an index.
pub open spec fn category_char(cat: ChoiceCategory, i: int) -> char {
    match cat {
        ChoiceCategory::Menu => ' ',
        ChoiceCategory::LowercaseLetter => ((97 + i) as u8) as char,
        ChoiceCategory::UppercaseLetter => ((65 + i) as u8) as char,
        ChoiceCategory::Digit => ((48 + i) as u8) as char,
        ChoiceCategory::SpecialSymbol => special_char(i),
    }
}

/// State of a passphrase being entered.
pub struct PassphraseEntry {
    pub textbox: PassBuf,
    /// The entered length, tracked alongside the buffer.
    pub length: usize,
    pub show_plain_passphrase: bool,
    pub current_category: ChoiceCategory,
    /// Menu position to return to after a category page.
    pub menu_position: u8,
}

impl PassphraseEntry {
    pub open spec fn wf(self) -> bool {
        self.length == pass_chars(self.textbox).len() && self.length <= MAX_LENGTH
    }

    pub fn new() -> (p: PassphraseEntry)
        ensures
            p.wf(),
            pass_chars(p.textbox).len() == 0,
            !p.show_plain_passphrase,
            p.current_category == ChoiceCategory::Menu,
            p.menu_position == 0,
    {
        PassphraseEntry {
            textbox: pass_buf_new(),
            length: 0,
            show_plain_passphrase: false,
            current_category: ChoiceCategory::Menu,
            menu_position: 0,
        }
    }

    /// What the header should show right now: the plain passphrase when
    /// revealing was requested, else one dot per entered character.
    pub fn update_situation(&self) -> (r: String)
        requires
            self.wf(),
        ensures
            self.show_plain_passphrase ==> r@ == pass_chars(self.textbox),
            !self.show_plain_passphrase ==> r@ == Seq::new(
                pass_chars(self.textbox).len(),
                |i: int| '*',
            ),
    {
        if self.show_plain_passphrase {
            self.reveal_current_passphrase()
        } else {
            let n = self.show_passphrase_length();
            let mut s = String::new();
            let mut i: usize = 0;
            proof {
                reveal_strlit("*");
            }
            while i < n
                invariant
                    i <= n,
                    s@ == Seq::new(i as nat, |k: int| '*'),
                    "*"@ == seq!['*'],
                decreases n - i,
            {
                s.append("*");
                proof {
                    assert(s@ =~= Seq::new((i + 1) as nat, |k: int| '*'));
                }
                i += 1;
            }
            proof {
                assert(s@ =~= Seq::new(pass_chars(self.textbox).len(), |i: int| '*'));
            }
            s
        }
    }

    /// How many dots the length display shows.
    pub fn show_passphrase_length(&self) -> (n: usize)
        requires
            self.wf(),
        ensures
            n == pass_chars(self.textbox).len(),
    {
        self.length
    }

    /// The passphrase in the clear, for the explicit reveal action.
    pub fn reveal_current_passphrase(&self) -> (r: String)
        ensures
            r@ == pass_chars(self.textbox),
    {
        pass_buf_text(&self.textbox)
    }

    /// Appends one chosen character, unless the passphrase is full.
    pub fn append_char(&mut self, ch: char) -> (r: Result<(), RenderError>)
        requires
            old(self).wf(),
            (ch as u32) < 128,
        ensures
            final(self).wf(),
            final(self).show_plain_passphrase == old(self).show_plain_passphrase,
            final(self).current_category == old(self).current_category,
            final(self).menu_position == old(self).menu_position,
            r matches Ok(_) <==> pass_chars(old(self).textbox).len() < MAX_LENGTH,
            r matches Ok(_) ==> pass_chars(final(self).textbox) == pass_chars(
                old(self).textbox,
            ).push(ch),
            r matches Err(e) ==> e == RenderError::Config && pass_chars(final(self).textbox)
                == pass_chars(old(self).textbox),
    {
        if pass_buf_push(&mut self.textbox, ch) {
            self.length = self.length + 1;
            Ok(())
        } else {
            Err(RenderError::Config)
        }
    }

    /// Deletes the last entered character, if any.
    pub fn delete_last_digit(&mut self)
        requires
            old(self).wf(),
        ensures
            final(self).wf(),
            final(self).show_plain_passphrase == old(self).show_plain_passphrase,
            final(self).current_category == old(self).current_category,
            final(self).menu_position == old(self).menu_position,
            pass_chars(old(self).textbox).len() == 0 ==> pass_chars(final(self).textbox)
                == pass_chars(old(self).textbox),
            pass_chars(old(self).textbox).len() > 0 ==> pass_chars(final(self).textbox)
                == pass_chars(old(self).textbox).drop_last(),
    {
        match pass_buf_pop(&mut self.textbox) {
            Some(_) => {
                self.length = self.length - 1;
            },
            None => {},
        }
    }

    /// Which category a menu position selects.
    pub fn get_category_from_menu(&self, page_counter: u8) -> (cat: ChoiceCategory)
        requires
            page_counter < 4,
        ensures
            page_counter == 0 ==> cat == ChoiceCategory::LowercaseLetter,
            page_counter == 1 ==> cat == ChoiceCategory::UppercaseLetter,
            page_counter == 2 ==> cat == ChoiceCategory::Digit,
            page_counter == 3 ==> cat == ChoiceCategory::SpecialSymbol,
    {
        match page_counter {
            0 => ChoiceCategory::LowercaseLetter,
            1 => ChoiceCategory::UppercaseLetter,
            2 => ChoiceCategory::Digit,
            _ => ChoiceCategory::SpecialSymbol,
        }
    }

    /// The character the current category offers at an index.
    pub fn get_char(&self, index: usize) -> (c: char)
        requires
            !(self.current_category matches ChoiceCategory::Menu),
            index < category_len(self.current_category),
        ensures
            c == category_char(self.current_category, index as int),
    {
        match self.current_category {
            ChoiceCategory::LowercaseLetter => (97 + index as u8) as char,
            ChoiceCategory::UppercaseLetter => (65 + index as u8) as char,
            ChoiceCategory::Digit => (48 + index as u8) as char,
            ChoiceCategory::SpecialSymbol => special_char_at(index),
            ChoiceCategory::Menu => ' ',
        }
    }

    /// Returns to the menu, at the position the menu was left at.
    pub fn show_menu_page(&mut self)
        ensures
            final(self).current_category == ChoiceCategory::Menu,
            final(self).menu_position == old(self).menu_position,
            final(self).textbox == old(self).textbox,
            final(self).length == old(self).length,
            final(self).show_plain_passphrase == old(self).show_plain_passphrase,
    {
        self.current_category = ChoiceCategory::Menu;
    }

    /// Whether this index is the return-to-menu choice: the one past
    /// the last character of the current category.
    pub fn is_menu_choice(&self, page_counter: u8) -> (r: bool)
        requires
            !(self.current_category matches ChoiceCategory::Menu),
        ensures
            r == (page_counter == category_len(self.current_category)),
    {
        let current_length: u8 = match self.current_category {
            ChoiceCategory::LowercaseLetter => 26,
            ChoiceCategory::UppercaseLetter => 26,
            ChoiceCategory::Digit => 10,
            ChoiceCategory::SpecialSymbol => 30,
            ChoiceCategory::Menu => 0,
        };
        page_counter == current_length
    }

    /// The passphrase entered so far.
    pub fn passphrase(&self) -> (r: String)
        ensures
            r@ == pass_chars(self.textbox),
    {
        pass_buf_text(&self.textbox)
    }

    /// Whether no further character fits.
    pub fn is_full(&self) -> (r: bool)
        requires
            self.wf(),
        ensures
            r == (pass_chars(self.textbox).len() == MAX_LENGTH),
    {
        self.length == MAX_LENGTH
    }
}

} // verus!
