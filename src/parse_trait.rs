//! Cursors over characters, and the small lookahead vocabulary the parsers share.

use vstd::prelude::*;
use crate::text::chars_of;

verus! {

/// A source of characters that can be looked into before it is consumed.
pub trait Parse {
    /// The characters not consumed yet, in order.
    spec fn rest(&self) -> Seq<char>;

    /// The character `n` places ahead, if there is one.
    fn peek_nth(&self, n: usize) -> (r: Option<char>)
        ensures
            n < self.rest().len() ==> r == Some(self.rest()[n as int]),
            n >= self.rest().len() ==> r is None,
    ;

    /// Consumes one character.
    fn advance(&mut self)
        requires
            old(self).rest().len() > 0,
        ensures
            final(self).rest() == old(self).rest().drop_first(),
    ;

    /// Whether the next character is `token`; consumes nothing.
    fn follows(&self, token: char) -> (r: bool)
        ensures
            r == (self.rest().len() > 0 && self.rest()[0] == token),
    {
        match self.peek_nth(0) {
            Some(c) => c == token,
            None => false,
        }
    }

    /// Consumes the next character if it is `token`.
    fn parse_token(&mut self, token: char) -> (r: bool)
        ensures
            r == (old(self).rest().len() > 0 && old(self).rest()[0] == token),
            r ==> final(self).rest() == old(self).rest().drop_first(),
            !r ==> final(self).rest() == old(self).rest(),
    {
        if self.follows(token) {
            self.advance();
            true
        } else {
            false
        }
    }

    /// Consumes the characters of `tokens` if the input continues with all of them;
    /// otherwise consumes nothing.
    fn parse_str(&mut self, tokens: &str) -> (r: bool)
        ensures
            r == starts_with(old(self).rest(), tokens@),
            r ==> final(self).rest() == old(self).rest().skip(tokens@.len() as int),
            !r ==> final(self).rest() == old(self).rest(),
    {
        let t = chars_of(tokens);
        let mut k: usize = 0;
        while k < t.len()
            invariant
                t@ == tokens@,
                k <= t.len(),
                k <= self.rest().len(),
                self.rest().take(k as int) == t@.take(k as int),
            decreases t.len() - k,
        {
            match self.peek_nth(k) {
                Some(c) => {
                    if c != t[k] {
                        return false;
                    }
                },
                None => {
                    return false;
                },
            }
            assert(self.rest().take(k + 1) == self.rest().take(k as int).push(self.rest()[k as int]));
            assert(t@.take(k + 1) == t@.take(k as int).push(t@[k as int]));
            k = k + 1;
        }
        assert(t@.take(k as int) == t@);
        let ghost start = self.rest();
        let mut j: usize = 0;
        while j < t.len()
            invariant
                t@ == tokens@,
                start.len() >= t.len(),
                j <= t.len(),
                self.rest() == start.skip(j as int),
            decreases t.len() - j,
        {
            self.advance();
            assert(start.skip(j as int).drop_first() == start.skip(j + 1));
            j = j + 1;
        }
        true
    }
}

/// Whether `s` begins with `prefix`.
pub open spec fn starts_with(s: Seq<char>, prefix: Seq<char>) -> bool {
    prefix.len() <= s.len() && s.take(prefix.len() as int) == prefix
}

/// A cursor over the characters of a text.
pub struct CharCursor {
    chars: Vec<char>,
    pos: usize,
}

impl CharCursor {
    #[verifier::type_invariant]
    spec fn in_bounds(self) -> bool {
        self.pos <= self.chars.len()
    }

    /// The whole text the cursor runs over.
    pub closed spec fn text(&self) -> Seq<char> {
        self.chars@
    }

    /// How many characters have been consumed.
    pub closed spec fn pos(&self) -> nat {
        self.pos as nat
    }

    pub fn new(s: &str) -> (r: Self)
        ensures
            r.text() == s@,
            r.pos() == 0,
    {
        CharCursor { chars: chars_of(s), pos: 0 }
    }

    /// How many characters have been consumed.
    pub fn position(&self) -> (r: usize)
        ensures
            r == self.pos(),
            r <= self.text().len(),
    {
        proof { use_type_invariant(self); }
        self.pos
    }

    /// The next character, if any; consumes nothing.
    pub fn peek(&self) -> (r: Option<char>)
        ensures
            self.pos() <= self.text().len(),
            self.pos() < self.text().len() ==> r == Some(self.text()[self.pos() as int]),
            self.pos() == self.text().len() ==> r is None,
    {
        proof { use_type_invariant(self); }
        if self.pos < self.chars.len() {
            Some(self.chars[self.pos])
        } else {
            None
        }
    }

    /// Consumes and returns the next character, if any.
    pub fn next_char(&mut self) -> (r: Option<char>)
        ensures
            final(self).text() == old(self).text(),
            old(self).pos() <= old(self).text().len(),
            final(self).pos() <= final(self).text().len(),
            old(self).pos() < old(self).text().len() ==> r == Some(old(self).text()[old(self).pos() as int])
                && final(self).pos() == old(self).pos() + 1,
            old(self).pos() == old(self).text().len() ==> r is None && final(self).pos() == old(self).pos(),
    {
        proof { use_type_invariant(&*self); }
        if self.pos < self.chars.len() {
            let c = self.chars[self.pos];
            self.pos = self.pos + 1;
            Some(c)
        } else {
            None
        }
    }
}

impl Parse for CharCursor {
    closed spec fn rest(&self) -> Seq<char> {
        self.chars@.skip(self.pos as int)
    }

    fn peek_nth(&self, n: usize) -> (r: Option<char>) {
        proof { use_type_invariant(self); }
        if n < self.chars.len() - self.pos {
            Some(self.chars[self.pos + n])
        } else {
            None
        }
    }

    fn advance(&mut self) {
        proof { use_type_invariant(&*self); }
        self.pos = self.pos + 1;
        assert(self.chars@.skip(self.pos as int) == old(self).chars@.skip(old(self).pos as int).drop_first());
    }
}

impl CharCursor {
    /// Consumes and returns every character left.
    pub fn take_rest(&mut self) -> (r: String)
        ensures
            r@ == old(self).rest(),
            final(self).rest() == Seq::<char>::empty(),
            final(self).text() == old(self).text(),
    {
        proof { use_type_invariant(&*self); }
        let r = crate::text::string_of(&self.chars, self.pos, self.chars.len());
        self.pos = self.chars.len();
        r
    }

    /// The characters not consumed yet are those after `pos()`.
    pub proof fn lemma_rest(&self)
        ensures
            self.rest() == self.text().skip(self.pos() as int),
    {
    }
}

/// A cursor over the characters of a text that also reports each character's index.
pub struct IndexedCharCursor {
    chars: Vec<char>,
    pos: usize,
}

impl IndexedCharCursor {
    #[verifier::type_invariant]
    spec fn in_bounds(self) -> bool {
        self.pos <= self.chars.len()
    }

    /// The whole text the cursor runs over.
    pub closed spec fn text(&self) -> Seq<char> {
        self.chars@
    }

    /// How many characters have been consumed.
    pub closed spec fn pos(&self) -> nat {
        self.pos as nat
    }

    pub fn new(s: &str) -> (r: Self)
        ensures
            r.text() == s@,
            r.pos() == 0,
    {
        IndexedCharCursor { chars: chars_of(s), pos: 0 }
    }

    /// Consumes the next character and returns it with its index, if there is one.
    pub fn next_indexed(&mut self) -> (r: Option<(usize, char)>)
        ensures
            final(self).text() == old(self).text(),
            final(self).pos() <= final(self).text().len(),
            old(self).pos() < old(self).text().len() ==> r == Some(
                (old(self).pos() as usize, old(self).text()[old(self).pos() as int]),
            ) && final(self).pos() == old(self).pos() + 1,
            old(self).pos() >= old(self).text().len() ==> r is None && final(self).pos() == old(self).pos(),
    {
        proof { use_type_invariant(&*self); }
        if self.pos < self.chars.len() {
            let i = self.pos;
            self.pos = self.pos + 1;
            Some((i, self.chars[i]))
        } else {
            None
        }
    }
}

impl Parse for IndexedCharCursor {
    closed spec fn rest(&self) -> Seq<char> {
        self.chars@.skip(self.pos as int)
    }

    fn peek_nth(&self, n: usize) -> (r: Option<char>) {
        proof { use_type_invariant(self); }
        if n < self.chars.len() - self.pos {
            Some(self.chars[self.pos + n])
        } else {
            None
        }
    }

    fn advance(&mut self) {
        proof { use_type_invariant(&*self); }
        self.pos = self.pos + 1;
        assert(self.chars@.skip(self.pos as int) == old(self).chars@.skip(old(self).pos as int).drop_first());
    }
}

} // verus!
