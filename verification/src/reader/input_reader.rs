//! The character source: a forward-only cursor over the characters of an
//! input held in memory.

use vstd::prelude::*;
use crate::error::{Error, ErrorType, end_of_input};

verus! {

/// `String::push` of the standard library, taken on trust: the string
/// afterwards is the string before with `ch` appended at its end.
pub assume_specification[ String::push ](s: &mut String, ch: char)
    ensures
        final(s)@ == old(s)@.push(ch),
;

/// Whitespace: what may stand between two tokens.
pub open spec fn is_whitespace(c: char) -> bool {
    c == ' ' || c == '\t' || c == '\n' || c == '\r'
}

/// The characters that end a line.
pub open spec fn is_line_break(c: char) -> bool {
    c == '\n' || c == '\r'
}

/// The characters that end a node: whitespace, and every character with
/// which the next token may begin.
pub open spec fn is_node_delimiter(c: char) -> bool {
    is_whitespace(c) || c == '.' || c == '<' || c == '"' || c == '_'
}

/// The first character of `s`, if there is one.
pub open spec fn first_char(s: Seq<char>) -> Option<char> {
    if s.len() > 0 {
        Some(s[0])
    } else {
        None
    }
}

/// `s` without its first character; the empty sequence stays empty.
pub open spec fn drop_char(s: Seq<char>) -> Seq<char> {
    if s.len() > 0 {
        s.skip(1)
    } else {
        s
    }
}

/// The index of the first character of `s` of which `p` holds, or the length
/// of `s` if there is none.
pub open spec fn first_match(s: Seq<char>, p: spec_fn(char) -> bool) -> nat
    decreases s.len(),
{
    if s.len() == 0 || p(s[0]) {
        0
    } else {
        1 + first_match(s.skip(1), p)
    }
}

/// `s` without its leading whitespace.
pub open spec fn skip_whitespace(s: Seq<char>) -> Seq<char> {
    s.skip(first_match(s, |c: char| !is_whitespace(c)) as int)
}

/// The characters that the bytes of an input stand for: one character per
/// byte, with the byte's value as its code point.
pub open spec fn chars_of_bytes(bytes: Seq<u8>) -> Seq<char> {
    Seq::new(bytes.len(), |i: int| bytes[i] as char)
}

/// Tells whether `p` holds of no character of `s`.
pub open spec fn free_of(s: Seq<char>, p: spec_fn(char) -> bool) -> bool {
    forall|i: int| 0 <= i < s.len() ==> !p(#[trigger] s[i])
}

/// Tells whether `s` holds nothing but whitespace.
pub open spec fn is_blank(s: Seq<char>) -> bool {
    forall|i: int| 0 <= i < s.len() ==> is_whitespace(#[trigger] s[i])
}

/// What `first_match` finds: `p` holds of no character before that index,
/// and the index is the end of `s` or holds a character of which `p` holds.
pub proof fn lemma_first_match_found(s: Seq<char>, p: spec_fn(char) -> bool)
    ensures
        first_match(s, p) <= s.len(),
        free_of(s.take(first_match(s, p) as int), p),
        first_match(s, p) < s.len() ==> p(s[first_match(s, p) as int]),
    decreases s.len(),
{
    if s.len() > 0 && !p(s[0]) {
        let t = s.skip(1);
        lemma_first_match_found(t, p);
        let n = first_match(s, p) as int;
        assert forall|i: int| 0 <= i < n implies !p(#[trigger] s.take(n)[i]) by {
            if i > 0 {
                assert(s.take(n)[i] == t.take(n - 1)[i - 1]);
            }
        }
    }
}

/// An index before which `p` never holds, and which is the end of `s` or
/// holds a character of which `p` holds, is the one that `first_match` finds.
pub proof fn lemma_first_match_at(s: Seq<char>, p: spec_fn(char) -> bool, n: int)
    requires
        0 <= n <= s.len(),
        forall|j: int| 0 <= j < n ==> !p(#[trigger] s[j]),
        n < s.len() ==> p(s[n]),
    ensures
        first_match(s, p) == n,
    decreases n,
{
    if n > 0 {
        let t = s.skip(1);
        assert forall|j: int| 0 <= j < n - 1 implies !p(#[trigger] t[j]) by {
            assert(t[j] == s[j + 1]);
        }
        lemma_first_match_at(t, p, n - 1);
    }
}

/// Where `p` holds of no character of `s`, `first_match` finds the end of
/// `s`: all of `s` stands before it and nothing after it.
pub proof fn lemma_first_match_none(s: Seq<char>, p: spec_fn(char) -> bool)
    requires
        free_of(s, p),
    ensures
        first_match(s, p) == s.len(),
        s.take(s.len() as int) == s,
        s.skip(s.len() as int) == Seq::<char>::empty(),
{
    lemma_first_match_at(s, p, s.len() as int);
    assert(s.take(s.len() as int) =~= s);
    assert(s.skip(s.len() as int) =~= Seq::<char>::empty());
}

/// Where `p` holds of no character of `a`, and `b` is empty or begins with a
/// character of which `p` holds, `first_match` splits `a + b` into `a` and
/// `b`.
pub proof fn lemma_first_match_split(a: Seq<char>, b: Seq<char>, p: spec_fn(char) -> bool)
    requires
        free_of(a, p),
        b.len() > 0 ==> p(b[0]),
    ensures
        first_match(a + b, p) == a.len(),
        (a + b).take(a.len() as int) == a,
        (a + b).skip(a.len() as int) == b,
{
    let s = a + b;
    assert forall|j: int| 0 <= j < a.len() implies !p(#[trigger] s[j]) by {
        assert(s[j] == a[j]);
    }
    if b.len() > 0 {
        assert(s[a.len() as int] == b[0]);
    }
    lemma_first_match_at(s, p, a.len() as int);
    assert(s.take(a.len() as int) =~= a);
    assert(s.skip(a.len() as int) =~= b);
}

/// Whitespace before `s` is skipped with the whitespace that `s` begins
/// with.
pub proof fn lemma_skip_whitespace_prefix(blank: Seq<char>, s: Seq<char>)
    requires
        is_blank(blank),
    ensures
        skip_whitespace(blank + s) == skip_whitespace(s),
{
    let p = |c: char| !is_whitespace(c);
    let n = first_match(s, p) as int;
    let all = blank + s;
    lemma_first_match_found(s, p);
    assert forall|j: int| 0 <= j < blank.len() + n implies !p(#[trigger] all[j]) by {
        if j < blank.len() {
            assert(all[j] == blank[j]);
        } else {
            assert(all[j] == s.take(n)[j - blank.len()]);
        }
    }
    if n < s.len() {
        assert(all[blank.len() + n] == s[n]);
    }
    lemma_first_match_at(all, p, blank.len() + n);
    assert(all.skip(blank.len() + n) =~= s.skip(n));
}

/// Input that does not begin with whitespace is left as it is.
pub proof fn lemma_skip_whitespace_none(s: Seq<char>)
    requires
        s.len() > 0 ==> !is_whitespace(s[0]),
    ensures
        skip_whitespace(s) == s,
{
    assert(s.skip(0) =~= s);
}

/// Of input that holds nothing but whitespace, nothing is left.
pub proof fn lemma_skip_whitespace_blank(s: Seq<char>)
    requires
        is_blank(s),
    ensures
        skip_whitespace(s) == Seq::<char>::empty(),
{
    lemma_first_match_none(s, |c: char| !is_whitespace(c));
}

/// Helper predicates on characters.
pub struct InputReaderHelper {}

impl InputReaderHelper {
    /// Tells whether `c` is whitespace.
    pub fn whitespace(c: char) -> (b: bool)
        ensures
            b == is_whitespace(c),
    {
        c == ' ' || c == '\t' || c == '\n' || c == '\r'
    }

    /// Tells whether `c` ends a line.
    pub fn line_break(c: char) -> (b: bool)
        ensures
            b == is_line_break(c),
    {
        c == '\n' || c == '\r'
    }

    /// Tells whether `c` ends a node.
    pub fn node_delimiter(c: char) -> (b: bool)
        ensures
            b == is_node_delimiter(c),
    {
        InputReaderHelper::whitespace(c) || c == '.' || c == '<' || c == '"' || c == '_'
    }
}

/// A run of characters read from the input.
#[derive(Debug)]
pub struct InputChars {
    chars: Vec<char>,
}

impl View for InputChars {
    type V = Seq<char>;

    closed spec fn view(&self) -> Seq<char> {
        self.chars@
    }
}

impl InputChars {
    /// Wraps the given characters.
    pub fn new(chars: Vec<char>) -> (input_chars: InputChars)
        ensures
            input_chars@ == chars@,
    {
        InputChars { chars }
    }

    /// The characters as a string.
    pub fn to_string(&self) -> (s: String)
        ensures
            s@ == self@,
    {
        let mut s = String::new();
        let mut i: usize = 0;
        while i < self.chars.len()
            invariant
                i <= self.chars.len(),
                s@ == self.chars@.take(i as int),
            decreases self.chars.len() - i,
        {
            s.push(self.chars[i]);
            i += 1;
            assert(s@ =~= self.chars@.take(i as int));
        }
        assert(self.chars@.take(i as int) =~= self.chars@);
        s
    }
}

/// A forward-only cursor over the characters of an input.
pub struct InputReader {
    chars: Vec<char>,
    position: usize,
}

impl View for InputReader {
    type V = Seq<char>;

    /// The characters that have not been consumed yet.
    closed spec fn view(&self) -> Seq<char> {
        self.chars@.skip(self.position as int)
    }
}

impl InputReader {
    #[verifier::type_invariant]
    spec fn in_bounds(&self) -> bool {
        self.position <= self.chars.len()
    }

    /// A reader at the start of `input`, each byte of which is read as one
    /// character.
    pub fn new(input: &[u8]) -> (reader: InputReader)
        ensures
            reader@ == chars_of_bytes(input@),
    {
        let mut chars: Vec<char> = Vec::new();
        let mut i: usize = 0;
        while i < input.len()
            invariant
                i <= input.len(),
                chars@ == chars_of_bytes(input@.take(i as int)),
            decreases input.len() - i,
        {
            chars.push(input[i] as char);
            i += 1;
            assert(chars@ =~= chars_of_bytes(input@.take(i as int)));
        }
        assert(input@.take(i as int) =~= input@);
        assert(chars@.skip(0) =~= chars@);
        InputReader { chars, position: 0 }
    }

    /// The next character, which stays in the input.
    pub fn peek_next_char(&self) -> (c: Option<char>)
        ensures
            c == first_char(self@),
    {
        proof {
            use_type_invariant(self);
        }
        if self.position < self.chars.len() {
            Some(self.chars[self.position])
        } else {
            None
        }
    }

    /// Consumes the next character and returns it; at the end of the input
    /// nothing changes.
    pub fn get_next_char(&mut self) -> (c: Option<char>)
        ensures
            c == first_char(old(self)@),
            final(self)@ == drop_char(old(self)@),
    {
        proof {
            use_type_invariant(&*self);
        }
        if self.position < self.chars.len() {
            let c = self.chars[self.position];
            self.position += 1;
            assert(self@ =~= old(self)@.skip(1));
            Some(c)
        } else {
            None
        }
    }

    /// Consumes the whitespace at the head of the input and returns the
    /// character after it, which stays in the input.
    pub fn peek_next_char_discard_leading_spaces(&mut self) -> (c: Option<char>)
        ensures
            final(self)@ == skip_whitespace(old(self)@),
            c == first_char(final(self)@),
    {
        proof {
            use_type_invariant(&*self);
        }
        let ghost start = self.position as int;
        while self.position < self.chars.len() && InputReaderHelper::whitespace(
            self.chars[self.position],
        )
            invariant
                start == old(self).position,
                start <= self.position <= self.chars.len(),
                self.chars == old(self).chars,
                forall|j: int| start <= j < self.position ==> is_whitespace(#[trigger] self.chars@[j]),
            decreases self.chars.len() - self.position,
        {
            self.position += 1;
        }
        proof {
            let s = old(self)@;
            let n = self.position - start;
            assert forall|j: int| 0 <= j < n implies is_whitespace(#[trigger] s[j]) by {
                assert(s[j] == self.chars@[start + j]);
            }
            lemma_first_match_at(s, |c: char| !is_whitespace(c), n);
            assert(self@ =~= s.skip(n));
        }
        self.peek_next_char()
    }

    /// Consumes characters up to, and not including, the first one of which
    /// `delimiter` holds, and returns them. Where the input ends before such
    /// a character, all of it is consumed and the error reports the end of
    /// the input, with the characters that were read.
    pub fn get_until<F: Fn(char) -> bool>(&mut self, delimiter: F) -> (r: Result<
        InputChars,
        Error,
    >)
        requires
            forall|c: char| delimiter.requires((c,)),
        ensures
            match r {
                Ok(chars) => {
                    &&& chars@.len() < old(self)@.len()
                    &&& chars@ == old(self)@.take(chars@.len() as int)
                    &&& final(self)@ == old(self)@.skip(chars@.len() as int)
                    &&& delimiter.ensures((old(self)@[chars@.len() as int],), true)
                    &&& forall|j: int|
                        0 <= j < chars@.len() ==> delimiter.ensures(
                            (#[trigger] old(self)@[j],),
                            false,
                        )
                },
                Err(e) => {
                    &&& e@ == end_of_input(old(self)@)
                    &&& final(self)@ == Seq::<char>::empty()
                    &&& forall|j: int|
                        0 <= j < old(self)@.len() ==> delimiter.ensures(
                            (#[trigger] old(self)@[j],),
                            false,
                        )
                },
            },
    {
        proof {
            use_type_invariant(&*self);
        }
        let ghost start = self.position as int;
        let mut read: Vec<char> = Vec::new();
        while self.position < self.chars.len()
            invariant
                start == old(self).position,
                start <= self.position <= self.chars.len(),
                self.chars == old(self).chars,
                forall|c: char| delimiter.requires((c,)),
                read@ == self.chars@.subrange(start, self.position as int),
                forall|j: int|
                    start <= j < self.position ==> delimiter.ensures(
                        (#[trigger] self.chars@[j],),
                        false,
                    ),
            decreases self.chars.len() - self.position,
        {
            let c = self.chars[self.position];
            if delimiter(c) {
                proof {
                    let s = old(self)@;
                    let n = self.position - start;
                    assert(read@ =~= s.take(n));
                    assert(self@ =~= s.skip(n));
                    assert(s[n] == c);
                    assert forall|j: int| 0 <= j < n implies delimiter.ensures(
                        (#[trigger] s[j],),
                        false,
                    ) by {
                        assert(s[j] == self.chars@[start + j]);
                    }
                }
                return Ok(InputChars::new(read));
            }
            read.push(c);
            self.position += 1;
            assert(read@ =~= self.chars@.subrange(start, self.position as int));
        }
        proof {
            let s = old(self)@;
            assert(read@ =~= s);
            assert(self@ =~= Seq::<char>::empty());
            assert forall|j: int| 0 <= j < s.len() implies delimiter.ensures(
                (#[trigger] s[j],),
                false,
            ) by {
                assert(s[j] == self.chars@[start + j]);
            }
        }
        Err(
            Error::new(
                ErrorType::EndOfInput(InputChars::new(read)),
                String::from_str("Unexpected end of input."),
            ),
        )
    }
}

} // verus!
