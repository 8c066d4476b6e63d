//! The text of a program, character by character: the lexical rules of the
//! grammar.
use vstd::prelude::*;
use vstd::string::*;
use crate::syntax::{
    blank_len, decimal_value, digit_value, digits_len, has_char, has_literal, integer_at, is_blank,
    is_digit, is_name_char, is_name_start, name_at, name_len, newline_in, piece, quoted_len,
    spaced, string_at,
};
use crate::value::Value;

verus! {

/// The characters of a text.
pub fn chars_of(text: &str) -> (r: Vec<char>)
    ensures
        r@ == text@,
{
    let mut out: Vec<char> = Vec::new();
    for c in it: text.chars()
        invariant
            it.seq() == text@,
            out@ == it.seq().take(it.index()),
    {
        out.push(c);
        assert(out@ =~= it.seq().take(it.index() + 1));
    }
    assert(out@ =~= text@);
    out
}

fn is_digit_char(c: char) -> (r: bool)
    ensures
        r == is_digit(c),
{
    '0' <= c && c <= '9'
}

fn is_name_start_char(c: char) -> (r: bool)
    ensures
        r == is_name_start(c),
{
    ('a' <= c && c <= 'z') || ('A' <= c && c <= 'Z') || c == '_'
}

fn is_name_char_char(c: char) -> (r: bool)
    ensures
        r == is_name_char(c),
{
    is_name_start_char(c) || is_digit_char(c)
}

fn is_blank_char(c: char) -> (r: bool)
    ensures
        r == is_blank(c),
{
    c == ' ' || c == '\t' || c == '\r' || c == '\n'
}

/// A text to parse, with its characters laid out for access by position.
pub struct Source<'a> {
    text: &'a str,
    chars: Vec<char>,
}

impl<'a> View for Source<'a> {
    type V = Seq<char>;

    closed spec fn view(&self) -> Seq<char> {
        self.text@
    }
}

impl<'a> Source<'a> {
    /// Whether the characters laid out are those of the text.
    pub closed spec fn laid_out(&self) -> bool {
        self.chars@ == self.text@
    }

    /// Whether the source is well formed: the characters are laid out, and
    /// their number fits a machine word.
    pub open spec fn wf(&self) -> bool {
        self.laid_out() && self@.len() <= usize::MAX
    }

    /// The source for a text.
    pub fn new(text: &'a str) -> (r: Self)
        ensures
            r.wf(),
            r@ == text@,
    {
        let chars = chars_of(text);
        assert(chars@.len() == chars.len());
        Source { text, chars }
    }

    /// The number of characters of the text.
    pub fn len(&self) -> (r: usize)
        requires
            self.wf(),
        ensures
            r == self@.len(),
    {
        self.chars.len()
    }

    /// A copy of the `n` characters from a position on.
    pub fn text(&self, at: usize, n: usize) -> (r: String)
        requires
            self.wf(),
            at + n <= self@.len(),
        ensures
            r@ == piece(self@, at as nat, n as nat),
    {
        self.text.substring_char(at, at + n).to_owned()
    }

    /// Whether the character `c` stands at a position.
    pub fn has_char(&self, at: usize, c: char) -> (r: bool)
        requires
            self.wf(),
        ensures
            r == has_char(self@, at as nat, c),
    {
        at < self.chars.len() && self.chars[at] == c
    }

    /// The length of `lit` where its characters stand at a position.
    pub fn has_literal(&self, at: usize, lit: &str) -> (r: Option<usize>)
        requires
            self.wf(),
            at <= self@.len(),
        ensures
            match r {
                Some(n) => has_literal(self@, at as nat, lit@) && n == lit@.len() && at + n
                    <= self@.len(),
                None => !has_literal(self@, at as nat, lit@),
            },
    {
        let n = lit.unicode_len();
        if n > self.chars.len() - at {
            return None;
        }
        let mut i: usize = 0;
        while i < n
            invariant
                i <= n,
                n == lit@.len(),
                at + n <= self.chars.len(),
                self.wf(),
                forall|j: int| 0 <= j < i ==> self@[at + j] == lit@[j],
            decreases n - i,
        {
            if self.chars[at + i] != lit.get_char(i) {
                assert(piece(self@, at as nat, n as nat)[i as int] != lit@[i as int]);
                return None;
            }
            i += 1;
        }
        assert(piece(self@, at as nat, n as nat) =~= lit@);
        Some(n)
    }

    /// The number of characters that `lit` takes with a space before and
    /// behind it, where they stand at a position.
    pub fn spaced(&self, at: usize, lit: &str) -> (r: Option<usize>)
        requires
            self.wf(),
            at <= self@.len(),
        ensures
            match r {
                Some(n) => spaced(self@, at as nat, lit@) && n == 2 + lit@.len() && at + n
                    <= self@.len(),
                None => !spaced(self@, at as nat, lit@),
            },
    {
        if !self.has_char(at, ' ') {
            return None;
        }
        match self.has_literal(at + 1, lit) {
            None => None,
            Some(n) => if self.has_char(at + 1 + n, ' ') {
                Some(n + 2)
            } else {
                None
            },
        }
    }

    /// The number of characters of a name that stand at a position.
    pub fn name_len(&self, at: usize) -> (r: usize)
        requires
            self.wf(),
            at <= self@.len(),
        ensures
            r == name_len(self@, at as nat),
            at + r <= self@.len(),
    {
        let mut n: usize = 0;
        while at + n < self.chars.len() && is_name_char_char(self.chars[at + n])
            invariant
                self.wf(),
                at + n <= self.chars.len(),
                name_len(self@, at as nat) == n + name_len(self@, (at + n) as nat),
            decreases self.chars.len() - n,
        {
            n += 1;
        }
        n
    }

    /// The number of blank characters that stand at a position, and whether
    /// a line feed is among them.
    pub fn blank_len(&self, at: usize) -> (r: (usize, bool))
        requires
            self.wf(),
            at <= self@.len(),
        ensures
            r.0 == blank_len(self@, at as nat),
            r.1 == newline_in(self@, at as nat, r.0 as nat),
            at + r.0 <= self@.len(),
    {
        let mut n: usize = 0;
        let mut seen = false;
        while at + n < self.chars.len() && is_blank_char(self.chars[at + n])
            invariant
                self.wf(),
                at + n <= self.chars.len(),
                blank_len(self@, at as nat) == n + blank_len(self@, (at + n) as nat),
                seen == newline_in(self@, at as nat, n as nat),
            decreases self.chars.len() - n,
        {
            if self.chars[at + n] == '\n' {
                seen = true;
            }
            n += 1;
        }
        (n, seen)
    }

    /// The number of characters from a position up to the next double
    /// quote, or to the end of the text.
    pub fn quoted_len(&self, at: usize) -> (r: usize)
        requires
            self.wf(),
            at <= self@.len(),
        ensures
            r == quoted_len(self@, at as nat),
            at + r <= self@.len(),
    {
        let mut n: usize = 0;
        while at + n < self.chars.len() && self.chars[at + n] != '"'
            invariant
                self.wf(),
                at + n <= self.chars.len(),
                quoted_len(self@, at as nat) == n + quoted_len(self@, (at + n) as nat),
            decreases self.chars.len() - n,
        {
            n += 1;
        }
        n
    }

    /// The length of the name that stands at a position.
    pub fn name_at(&self, at: usize) -> (r: Option<usize>)
        requires
            self.wf(),
            at <= self@.len(),
        ensures
            match r {
                Some(n) => name_at(self@, at as nat) == Some((piece(self@, at as nat, n as nat), n as nat))
                    && at + n <= self@.len() && n > 0,
                None => name_at(self@, at as nat) is None,
            },
    {
        if at < self.chars.len() && is_name_start_char(self.chars[at]) {
            Some(1 + self.name_len(at + 1))
        } else {
            None
        }
    }

    /// The integer literal that stands at a position.
    pub fn integer_at(&self, at: usize) -> (r: Option<(i32, usize)>)
        requires
            self.wf(),
            at <= self@.len(),
        ensures
            match r {
                Some((v, n)) => integer_at(self@, at as nat) == Some((v, n as nat)) && at + n
                    <= self@.len() && n > 0,
                None => integer_at(self@, at as nat) is None,
            },
    {
        let mut n: usize = 0;
        let mut value: u64 = 0;
        let mut fits = true;
        assert(piece(self@, at as nat, 0) =~= Seq::<char>::empty());
        while at + n < self.chars.len() && is_digit_char(self.chars[at + n])
            invariant
                self.wf(),
                at + n <= self.chars.len(),
                digits_len(self@, at as nat) == n + digits_len(self@, (at + n) as nat),
                fits ==> value == decimal_value(piece(self@, at as nat, n as nat)),
                fits ==> value <= i32::MAX,
                !fits ==> decimal_value(piece(self@, at as nat, n as nat)) > i32::MAX,
            decreases self.chars.len() - n,
        {
            let c = self.chars[at + n];
            let d: u64 = (c as u32 - '0' as u32) as u64;
            proof {
                let next = piece(self@, at as nat, (n + 1) as nat);
                assert(next.drop_last() =~= piece(self@, at as nat, n as nat));
                assert(next.last() == c);
                assert(d == digit_value(c));
            }
            if fits {
                value = value * 10 + d;
                if value > i32::MAX as u64 {
                    fits = false;
                }
            }
            n += 1;
        }
        if n > 0 && fits {
            Some((value as i32, n))
        } else {
            None
        }
    }

    /// The string literal that stands at a position.
    pub fn string_at(&self, at: usize) -> (r: Option<(Value, usize)>)
        requires
            self.wf(),
            at <= self@.len(),
        ensures
            match r {
                Some((v, n)) => string_at(self@, at as nat) == Some((v@, n as nat)) && at + n
                    <= self@.len() && n > 0,
                None => string_at(self@, at as nat) is None,
            },
    {
        if !self.has_char(at, '"') {
            return None;
        }
        let n = self.quoted_len(at + 1);
        if self.has_char(at + 1 + n, '"') {
            Some((Value::Str(self.text(at + 1, n)), n + 2))
        } else {
            None
        }
    }
}

} // verus!
