use vstd::prelude::*;
use crate::text::{char_is_whitespace, chars_of, is_white, skip_ws, string_from_chars, token_end};

verus! {

/// A whitespace tokenizer over a text, with one step of push back.
pub struct Arguments {
    chars: Vec<char>,
    pos: usize,
    prev: usize,
}

impl Arguments {
    /// The whole text being tokenized.
    pub closed spec fn text(&self) -> Seq<char> {
        self.chars@
    }

    /// Where the next token is looked for.
    pub closed spec fn pos(&self) -> int {
        self.pos as int
    }

    /// Where the cursor goes back to on `back`.
    pub closed spec fn prev(&self) -> int {
        self.prev as int
    }

    pub closed spec fn wf(&self) -> bool {
        self.prev <= self.pos <= self.chars@.len()
    }

    /// What has not been consumed yet.
    pub open spec fn rest(&self) -> Seq<char> {
        self.text().subrange(self.pos(), self.text().len() as int)
    }

    pub fn new(content: String) -> (r: Arguments)
        ensures
            r.wf(),
            r.text() == content@,
            r.pos() == 0,
            r.prev() == 0,
    {
        Arguments { chars: chars_of(content.as_str()), pos: 0, prev: 0 }
    }

    pub fn from_chars(chars: Vec<char>) -> (r: Arguments)
        ensures
            r.wf(),
            r.text() == chars@,
            r.pos() == 0,
            r.prev() == 0,
    {
        Arguments { chars, pos: 0, prev: 0 }
    }

    /// The next whitespace-delimited token, as characters.
    pub fn next_chars(&mut self) -> (r: Option<Vec<char>>)
        requires
            old(self).wf(),
        ensures
            final(self).wf(),
            final(self).text() == old(self).text(),
            ({
                let s = old(self).text();
                let a = skip_ws(s, old(self).pos());
                let e = token_end(s, a);
                if a >= s.len() {
                    r is None && final(self).pos() == old(self).pos() && final(self).prev() == old(self).prev()
                } else {
                    &&& r is Some
                    &&& r->0@ == s.subrange(a, e)
                    &&& old(self).pos() <= a < e <= s.len()
                    &&& final(self).pos() == e
                    &&& final(self).prev() == old(self).pos()
                }
            }),
    {
        let ghost s = self.chars@;
        let n = self.chars.len();
        let mut a: usize = self.pos;
        while a < n && char_is_whitespace(self.chars[a])
            invariant
                s == self.chars@,
                n == s.len(),
                self.pos <= a <= n,
                skip_ws(s, self.pos as int) == skip_ws(s, a as int),
            decreases n - a,
        {
            a = a + 1;
        }
        if a >= n {
            return None;
        }
        let mut e: usize = a;
        let mut tok: Vec<char> = Vec::new();
        while e < n && !char_is_whitespace(self.chars[e])
            invariant
                s == self.chars@,
                n == s.len(),
                a <= e <= n,
                a < n,
                !is_white(s[a as int]),
                token_end(s, a as int) == token_end(s, e as int),
                tok@ == s.subrange(a as int, e as int),
            decreases n - e,
        {
            tok.push(self.chars[e]);
            e = e + 1;
        }
        self.prev = self.pos;
        self.pos = e;
        Some(tok)
    }

    /// The next whitespace-delimited token.
    pub fn next(&mut self) -> (r: Option<String>)
        requires
            old(self).wf(),
        ensures
            final(self).wf(),
            final(self).text() == old(self).text(),
            ({
                let s = old(self).text();
                let a = skip_ws(s, old(self).pos());
                let e = token_end(s, a);
                if a >= s.len() {
                    r is None && final(self).pos() == old(self).pos() && final(self).prev() == old(self).prev()
                } else {
                    &&& r is Some
                    &&& r->0@ == s.subrange(a, e)
                    &&& final(self).pos() == e
                    &&& final(self).prev() == old(self).pos()
                }
            }),
    {
        match self.next_chars() {
            Some(t) => Some(string_from_chars(t.as_slice())),
            None => None,
        }
    }

    /// Un-consumes the token that `next` last produced.
    pub fn back(&mut self)
        requires
            old(self).wf(),
        ensures
            final(self).wf(),
            final(self).text() == old(self).text(),
            final(self).pos() == old(self).prev(),
            final(self).prev() == old(self).prev(),
    {
        self.pos = self.prev;
    }

    /// What has not been consumed yet.
    pub fn rest_string(&self) -> (r: String)
        requires
            self.wf(),
        ensures
            r@ == self.rest(),
    {
        string_from_chars(vstd::slice::slice_subrange(self.chars.as_slice(), self.pos, self.chars.len()))
    }
}

} // verus!
