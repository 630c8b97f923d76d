//! Wildcard byte signatures and the compiler from their textual form.
//!
//! A pattern is written as words separated by ASCII whitespace. Each word is
//! either two hexadecimal digits (either case), naming one byte value, or the
//! wildcard marker `??`, which stands for any byte. A compiled signature is
//! the sequence of tokens that the words name, in order, and is never empty.

use vstd::prelude::*;
use vstd::string::StringSliceAdditionalSpecFns;

verus! {

/// One position of a signature.
#[derive(Clone, Copy, Debug, PartialEq, Eq, Structural)]
pub enum Token {
    /// Matches exactly this byte value.
    Byte(u8),
    /// Matches any byte value.
    Wildcard,
}

/// The only way compiling a pattern fails: some word is neither a hex pair
/// nor the wildcard marker, or the text holds no word at all.
#[derive(Clone, Copy, Debug, PartialEq, Eq, Structural)]
pub struct MalformedPattern;

impl Token {
    /// Whether a byte satisfies this token.
    pub open spec fn accepts(self, b: u8) -> bool {
        match self {
            Token::Byte(v) => v == b,
            Token::Wildcard => true,
        }
    }

    /// Tests one byte against this token.
    pub fn matches(&self, b: u8) -> (r: bool)
        ensures
            r == self.accepts(b),
    {
        match *self {
            Token::Byte(v) => v == b,
            Token::Wildcard => true,
        }
    }
}

/// The bytes that separate words: space, tab, line feed, vertical tab, form
/// feed and carriage return.
pub open spec fn is_separator(b: u8) -> bool {
    b == 0x20 || (0x09 <= b && b <= 0x0d)
}

/// The value of a hexadecimal digit, in either case.
pub open spec fn hex_value(b: u8) -> Option<u8> {
    if 0x30 <= b && b <= 0x39 {
        Some((b - 0x30) as u8)
    } else if 0x61 <= b && b <= 0x66 {
        Some((b - 0x61 + 10) as u8)
    } else if 0x41 <= b && b <= 0x46 {
        Some((b - 0x41 + 10) as u8)
    } else {
        None
    }
}

/// The token that one word names, if it names one.
pub open spec fn decode_word(w: Seq<u8>) -> Option<Token> {
    if w.len() != 2 {
        None
    } else if w[0] == 0x3f && w[1] == 0x3f {
        Some(Token::Wildcard)
    } else {
        match (hex_value(w[0]), hex_value(w[1])) {
            (Some(hi), Some(lo)) => Some(Token::Byte((16 * hi + lo) as u8)),
            _ => None,
        }
    }
}

/// The first index at or after `i` that holds a separator, or the end of `s`.
pub open spec fn word_end(s: Seq<u8>, i: int) -> int
    decreases s.len() - i,
{
    if 0 <= i && i < s.len() && !is_separator(s[i]) {
        word_end(s, i + 1)
    } else {
        i
    }
}

/// A word that starts inside `s` ends after its start and inside `s`.
pub proof fn lemma_word_end_bounds(s: Seq<u8>, i: int)
    requires
        0 <= i <= s.len(),
    ensures
        i <= word_end(s, i) <= s.len(),
        i < s.len() && !is_separator(s[i]) ==> i < word_end(s, i),
        forall|k: int| i <= k < word_end(s, i) ==> !is_separator(#[trigger] s[k]),
        word_end(s, i) < s.len() ==> is_separator(s[word_end(s, i)]),
    decreases s.len() - i,
{
    if i < s.len() && !is_separator(s[i]) {
        lemma_word_end_bounds(s, i + 1);
    }
}

/// The words of `s` that start at or after index `i`: the maximal runs of
/// bytes that are not separators, in the order in which they occur.
pub open spec fn words_from(s: Seq<u8>, i: int) -> Seq<Seq<u8>>
    decreases s.len() - i,
{
    if i < 0 || i >= s.len() {
        Seq::empty()
    } else if is_separator(s[i]) {
        words_from(s, i + 1)
    } else {
        proof {
            lemma_word_end_bounds(s, i);
        }
        seq![s.subrange(i, word_end(s, i))] + words_from(s, word_end(s, i))
    }
}

/// All the words of a pattern text.
pub open spec fn words(s: Seq<u8>) -> Seq<Seq<u8>> {
    words_from(s, 0)
}

/// Whether every one of the words names a token.
pub open spec fn all_decodable(ws: Seq<Seq<u8>>) -> bool {
    forall|k: int| 0 <= k < ws.len() ==> (#[trigger] decode_word(ws[k])) is Some
}

/// What a pattern text compiles to: the token of each of its words, in order,
/// provided that there is at least one word and that each names a token.
pub open spec fn parse_pattern(text: Seq<u8>) -> Result<Seq<Token>, MalformedPattern> {
    let ws = words(text);
    if ws.len() > 0 && all_decodable(ws) {
        Ok(Seq::new(ws.len(), |k: int| decode_word(ws[k]).unwrap()))
    } else {
        Err(MalformedPattern)
    }
}

/// Whether `w` is a non-empty run of bytes that are not separators.
pub open spec fn is_run(w: Seq<u8>) -> bool {
    &&& w.len() > 0
    &&& forall|j: int| 0 <= j < w.len() ==> !is_separator(#[trigger] w[j])
}

/// Every word is a non-empty run of bytes that are not separators.
pub proof fn lemma_words_are_runs(s: Seq<u8>, i: int)
    requires
        0 <= i <= s.len(),
    ensures
        forall|k: int| 0 <= k < words_from(s, i).len() ==> is_run(#[trigger] words_from(s, i)[k]),
    decreases s.len() - i,
{
    if i < s.len() {
        if is_separator(s[i]) {
            lemma_words_are_runs(s, i + 1);
            assert(words_from(s, i) == words_from(s, i + 1));
        } else {
            lemma_word_end_bounds(s, i);
            let e = word_end(s, i);
            lemma_words_are_runs(s, e);
            assert(words_from(s, i) == seq![s.subrange(i, e)] + words_from(s, e));
            let first = s.subrange(i, e);
            let rest = words_from(s, e);
            assert forall|j: int| 0 <= j < first.len() implies !is_separator(
                #[trigger] first[j],
            ) by {
                assert(first[j] == s[i + j]);
            }
            assert(is_run(first));
            assert forall|k: int| 0 <= k < words_from(s, i).len() implies is_run(
                #[trigger] words_from(s, i)[k],
            ) by {
                if k > 0 {
                    assert(words_from(s, i)[k] == rest[k - 1]);
                } else {
                    assert(words_from(s, i)[k] == first);
                }
            }
        }
    }
}

/// A non-empty run of bytes that are not separators is one word.
pub proof fn lemma_words_of_one_run(w: Seq<u8>)
    requires
        is_run(w),
    ensures
        words(w) == seq![w],
{
    lemma_run_ends_at_len(w, 0);
    assert(w.subrange(0, w.len() as int) == w);
    assert(words_from(w, w.len() as int) == Seq::<Seq<u8>>::empty());
}

/// Inside a run of bytes that are not separators, a word ends where the run
/// ends.
proof fn lemma_run_ends_at_len(w: Seq<u8>, i: int)
    requires
        0 <= i <= w.len(),
        is_run(w),
    ensures
        word_end(w, i) == w.len(),
    decreases w.len() - i,
{
    if i < w.len() {
        lemma_run_ends_at_len(w, i + 1);
    }
}

/// The words of a text that is cut at a separator are the words before the
/// cut followed by the words after it.
pub proof fn lemma_words_split(a: Seq<u8>, c: u8, b: Seq<u8>)
    requires
        is_separator(c),
    ensures
        words(a + seq![c] + b) == words(a) + words(b),
{
    lemma_words_from_before_cut(a, c, b, 0);
}

/// Before a separator, a word ends where it ends in the text up to there.
proof fn lemma_word_end_before_cut(a: Seq<u8>, c: u8, b: Seq<u8>, i: int)
    requires
        is_separator(c),
        0 <= i <= a.len(),
    ensures
        word_end(a + seq![c] + b, i) == word_end(a, i),
    decreases a.len() - i,
{
    let s = a + seq![c] + b;
    if i < a.len() {
        assert(s[i] == a[i]);
        if !is_separator(a[i]) {
            lemma_word_end_before_cut(a, c, b, i + 1);
        }
    } else {
        assert(s[i] == c);
    }
}

/// Behind a prefix, words end where they end in the rest, moved by the length
/// of the prefix.
proof fn lemma_word_end_behind_prefix(pre: Seq<u8>, b: Seq<u8>, j: int)
    requires
        0 <= j <= b.len(),
    ensures
        word_end(pre + b, pre.len() + j) == pre.len() + word_end(b, j),
    decreases b.len() - j,
{
    if j < b.len() {
        assert((pre + b)[pre.len() + j] == b[j]);
        if !is_separator(b[j]) {
            lemma_word_end_behind_prefix(pre, b, j + 1);
        }
    }
}

/// Behind a prefix, the words are those of the rest.
proof fn lemma_words_behind_prefix(pre: Seq<u8>, b: Seq<u8>, j: int)
    requires
        0 <= j <= b.len(),
    ensures
        words_from(pre + b, pre.len() + j) == words_from(b, j),
    decreases b.len() - j,
{
    let s = pre + b;
    if j < b.len() {
        assert(s[pre.len() + j] == b[j]);
        if is_separator(b[j]) {
            lemma_words_behind_prefix(pre, b, j + 1);
        } else {
            lemma_word_end_bounds(b, j);
            lemma_word_end_behind_prefix(pre, b, j);
            let e = word_end(b, j);
            lemma_words_behind_prefix(pre, b, e);
            assert(s.subrange(pre.len() + j, pre.len() + e) == b.subrange(j, e));
        }
    }
}

/// Before a separator, the words are those of the text up to there, followed
/// by the words behind the separator.
proof fn lemma_words_from_before_cut(a: Seq<u8>, c: u8, b: Seq<u8>, i: int)
    requires
        is_separator(c),
        0 <= i <= a.len(),
    ensures
        words_from(a + seq![c] + b, i) == words_from(a, i) + words(b),
    decreases a.len() - i,
{
    let s = a + seq![c] + b;
    if i < a.len() {
        assert(s[i] == a[i]);
        if is_separator(a[i]) {
            lemma_words_from_before_cut(a, c, b, i + 1);
        } else {
            lemma_word_end_bounds(a, i);
            lemma_word_end_before_cut(a, c, b, i);
            let e = word_end(a, i);
            lemma_words_from_before_cut(a, c, b, e);
            assert(s.subrange(i, e) == a.subrange(i, e));
            assert(words_from(s, i) == seq![a.subrange(i, e)] + (words_from(a, e) + words(b)));
        }
    } else {
        assert(s[i] == c);
        lemma_words_behind_prefix(a + seq![c], b, 0);
        assert(words_from(a, i) + words(b) == words(b));
    }
}

/// Two patterns that compile, written one after the other with a separator
/// between them, compile to the tokens of the first followed by the tokens of
/// the second.
pub proof fn lemma_parse_concatenation(a: Seq<u8>, c: u8, b: Seq<u8>)
    requires
        is_separator(c),
        parse_pattern(a) is Ok,
        parse_pattern(b) is Ok,
    ensures
        parse_pattern(a + seq![c] + b) == Ok::<Seq<Token>, MalformedPattern>(
            parse_pattern(a)->Ok_0 + parse_pattern(b)->Ok_0,
        ),
{
    lemma_words_split(a, c, b);
    let wa = words(a);
    let wb = words(b);
    let ws = words(a + seq![c] + b);
    assert forall|k: int| 0 <= k < ws.len() implies (#[trigger] decode_word(ws[k])) is Some by {
        if k < wa.len() {
            assert(ws[k] == wa[k]);
        } else {
            assert(ws[k] == wb[k - wa.len()]);
        }
    }
    assert(Seq::new(ws.len(), |k: int| decode_word(ws[k]).unwrap()) == Seq::new(
        wa.len(),
        |k: int| decode_word(wa[k]).unwrap(),
    ) + Seq::new(wb.len(), |k: int| decode_word(wb[k]).unwrap()));
}

/// A compiled signature: a non-empty sequence of tokens.
#[derive(Debug)]
pub struct Signature {
    tokens: Vec<Token>,
}

impl View for Signature {
    type V = Seq<Token>;

    closed spec fn view(&self) -> Seq<Token> {
        self.tokens@
    }
}

impl Signature {
    #[verifier::type_invariant]
    spec fn non_empty(&self) -> bool {
        self.tokens@.len() > 0
    }

    /// The number of tokens, which is at least one.
    pub fn len(&self) -> (n: usize)
        ensures
            n == self@.len(),
            n > 0,
    {
        proof {
            use_type_invariant(self);
        }
        self.tokens.len()
    }

    /// The token at position `i`, if there is one.
    pub fn get(&self, i: usize) -> (t: Option<Token>)
        ensures
            t == if i < self@.len() {
                Some(self@[i as int])
            } else {
                None
            },
    {
        if i < self.tokens.len() {
            Some(self.tokens[i])
        } else {
            None
        }
    }

    /// The token at position `i` of the signature.
    pub(crate) fn at(&self, i: usize) -> (t: Token)
        requires
            i < self@.len(),
        ensures
            t == self@[i as int],
    {
        self.tokens[i]
    }

    /// Compiles a pattern text.
    ///
    /// Succeeds exactly when the text holds at least one word and every word
    /// is a hex pair or `??`; the signature then holds one token per word.
    pub fn compile(text: &str) -> (r: Result<Signature, MalformedPattern>)
        ensures
            r is Ok <==> parse_pattern(text.spec_bytes()) is Ok,
            r matches Ok(sig) ==> parse_pattern(text.spec_bytes()) == Ok::<
                Seq<Token>,
                MalformedPattern,
            >(sig@),
    {
        Signature::compile_bytes(text.as_bytes())
    }

    /// Compiles a pattern given as the bytes of its text.
    pub fn compile_bytes(bytes: &[u8]) -> (r: Result<Signature, MalformedPattern>)
        ensures
            r is Ok <==> parse_pattern(bytes@) is Ok,
            r matches Ok(sig) ==> parse_pattern(bytes@) == Ok::<Seq<Token>, MalformedPattern>(sig@),
    {
        let n: usize = bytes.len();
        let mut tokens: Vec<Token> = Vec::new();
        let mut i: usize = 0;
        let ghost mut done: Seq<Seq<u8>> = Seq::empty();
        while i < n
            invariant
                n == bytes@.len(),
                i <= n,
                words(bytes@) == done + words_from(bytes@, i as int),
                done.len() == tokens@.len(),
                forall|k: int|
                    0 <= k < done.len() ==> (#[trigger] decode_word(done[k])) == Some(tokens@[k]),
            decreases n - i,
        {
            if is_separator_byte(bytes[i]) {
                i += 1;
            } else {
                let start: usize = i;
                let mut end: usize = i + 1;
                while end < n && !is_separator_byte(bytes[end])
                    invariant
                        n == bytes@.len(),
                        start < end <= n,
                        word_end(bytes@, start as int) == word_end(bytes@, end as int),
                    decreases n - end,
                {
                    end += 1;
                }
                let ghost word = bytes@.subrange(start as int, end as int);
                proof {
                    assert(word_end(bytes@, end as int) == end);
                    assert(words_from(bytes@, start as int) == seq![word] + words_from(
                        bytes@,
                        end as int,
                    ));
                    assert(words(bytes@) == done.push(word) + words_from(bytes@, end as int));
                }
                match decode_span(bytes, start, end) {
                    Some(t) => {
                        tokens.push(t);
                        proof {
                            done = done.push(word);
                        }
                        i = end;
                    },
                    None => {
                        proof {
                            let ws = words(bytes@);
                            assert(ws[done.len() as int] == word);
                            assert(!all_decodable(ws));
                        }
                        return Err(MalformedPattern);
                    },
                }
            }
        }
        proof {
            assert(words(bytes@) == done);
        }
        if tokens.len() == 0 {
            Err(MalformedPattern)
        } else {
            proof {
                let ws = words(bytes@);
                assert(all_decodable(ws));
                assert(tokens@ == Seq::new(ws.len(), |k: int| decode_word(ws[k]).unwrap()));
            }
            Ok(Signature { tokens })
        }
    }
}

/// Tests whether a byte separates words.
fn is_separator_byte(b: u8) -> (r: bool)
    ensures
        r == is_separator(b),
{
    b == 0x20 || (0x09 <= b && b <= 0x0d)
}

/// Reads one hexadecimal digit.
fn hex_digit(b: u8) -> (r: Option<u8>)
    ensures
        r == hex_value(b),
        r matches Some(v) ==> v < 16,
{
    if 0x30 <= b && b <= 0x39 {
        Some(b - 0x30)
    } else if 0x61 <= b && b <= 0x66 {
        Some(b - 0x61 + 10)
    } else if 0x41 <= b && b <= 0x46 {
        Some(b - 0x41 + 10)
    } else {
        None
    }
}

/// Decodes the word that occupies `bytes[start..end]`.
fn decode_span(bytes: &[u8], start: usize, end: usize) -> (r: Option<Token>)
    requires
        start <= end <= bytes@.len(),
    ensures
        r == decode_word(bytes@.subrange(start as int, end as int)),
{
    let ghost w = bytes@.subrange(start as int, end as int);
    if end - start != 2 {
        return None;
    }
    let a: u8 = bytes[start];
    let b: u8 = bytes[start + 1];
    assert(w[0] == a && w[1] == b);
    if a == 0x3f && b == 0x3f {
        return Some(Token::Wildcard);
    }
    match hex_digit(a) {
        Some(hi) => match hex_digit(b) {
            Some(lo) => Some(Token::Byte(16 * hi + lo)),
            None => None,
        },
        None => None,
    }
}

} // verus!
