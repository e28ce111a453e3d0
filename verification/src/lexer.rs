//! The lexer: turns a raw byte stream into typed tokens with source
//! positions.
//!
//! Bytes are read one at a time; any byte whose Latin-1 character is
//! whitespace ends the token being gathered.  A gathered token is classified
//! by its first byte: an alphabetic byte starts a mnemonic (matched exactly
//! against the instruction table), a numeric or ASCII-punctuation byte
//! starts a numeric literal, anything else is unknown.  Line and column
//! counters advance per byte, one-based; a line feed starts the next line.

use vstd::prelude::*;

verus! {

/// Defines token types.
#[derive(Debug, Clone, Copy, PartialEq, Eq, Structural)]
pub enum TokenType {
    Pfw,
    Pbw,
    Inc,
    Dec,
    Num,
    Lop,
    Pol,
    Rdi,
    Rda,
    Wrt,
    Wrti8,
    Wrti16,
    Wrti32,
    Wrti64,
    Wrtu8,
    Wrtu16,
    Wrtu32,
    Wrtu64,
    Wrtf32,
    Wrtf64,
    SetStr,
    Seti8,
    Seti16,
    Seti32,
    Seti64,
    Setu8,
    Setu16,
    Setu32,
    Setu64,
    Setf32,
    Setf64,
    Wra,
    Clr,
    Unknown,
}

/// Model of a token: its raw bytes, its one-based position, and its kind.
pub ghost struct TokenView {
    pub value: Seq<u8>,
    pub line: nat,
    pub column: nat,
    pub kind: TokenType,
}

/// Defines a token.
pub struct Token {
    /// Token value: the raw bytes of the word, exactly as they stood in the
    /// source.
    pub value: Vec<u8>,
    /// Line number of the token.
    pub line: u32,
    /// Column number of the token's first byte.
    pub column: u32,
    /// Token type.
    pub _type: TokenType,
}

impl View for Token {
    type V = TokenView;

    open spec fn view(&self) -> TokenView {
        TokenView {
            value: self.value@,
            line: self.line as nat,
            column: self.column as nat,
            kind: self._type,
        }
    }
}

impl Token {
    pub fn new(value: Vec<u8>, line: u32, column: u32, _type: TokenType) -> (r: Self)
        ensures
            r@ == (TokenView {
                value: value@,
                line: line as nat,
                column: column as nat,
                kind: _type,
            }),
    {
        Self { value, line, column, _type }
    }
}

// ---------------------------------------------------------------------------
// Byte classes
// ---------------------------------------------------------------------------
// Each byte is read as the character it names in the first 256 code points,
// and classified as std classifies that character.

/// Bytes whose character is whitespace: the ASCII whitespace characters,
/// next line, and no-break space.
pub open spec fn is_whitespace_byte(b: u8) -> bool {
    b == 9 || b == 10 || b == 11 || b == 12 || b == 13 || b == 32 || b == 0x85 || b == 0xa0
}

/// Bytes whose character is alphabetic: the ASCII letters and the alphabetic
/// part of the Latin-1 supplement.
pub open spec fn is_alphabetic_byte(b: u8) -> bool {
    (65 <= b && b <= 90) || (97 <= b && b <= 122) || b == 0xaa || b == 0xb5 || b == 0xba || (0xc0
        <= b && b <= 0xd6) || (0xd8 <= b && b <= 0xf6) || 0xf8 <= b
}

/// Bytes whose character is numeric: the ASCII digits and the superscript
/// and fraction characters of the Latin-1 supplement.
pub open spec fn is_numeric_byte(b: u8) -> bool {
    (48 <= b && b <= 57) || b == 0xb2 || b == 0xb3 || b == 0xb9 || (0xbc <= b && b <= 0xbe)
}

/// Bytes that are ASCII punctuation.
pub open spec fn is_punctuation_byte(b: u8) -> bool {
    (33 <= b && b <= 47) || (58 <= b && b <= 64) || (91 <= b && b <= 96) || (123 <= b && b
        <= 126)
}

fn byte_is_whitespace(b: u8) -> (r: bool)
    ensures
        r == is_whitespace_byte(b),
{
    b == 9 || b == 10 || b == 11 || b == 12 || b == 13 || b == 32 || b == 0x85 || b == 0xa0
}

fn byte_is_alphabetic(b: u8) -> (r: bool)
    ensures
        r == is_alphabetic_byte(b),
{
    (65 <= b && b <= 90) || (97 <= b && b <= 122) || b == 0xaa || b == 0xb5 || b == 0xba || (0xc0
        <= b && b <= 0xd6) || (0xd8 <= b && b <= 0xf6) || 0xf8 <= b
}

fn byte_is_numeric(b: u8) -> (r: bool)
    ensures
        r == is_numeric_byte(b),
{
    (48 <= b && b <= 57) || b == 0xb2 || b == 0xb3 || b == 0xb9 || (0xbc <= b && b <= 0xbe)
}

fn byte_is_punctuation(b: u8) -> (r: bool)
    ensures
        r == is_punctuation_byte(b),
{
    (33 <= b && b <= 47) || (58 <= b && b <= 64) || (91 <= b && b <= 96) || (123 <= b && b
        <= 126)
}

// ---------------------------------------------------------------------------
// The mnemonic table
// ---------------------------------------------------------------------------

pub open spec fn is_word3(s: Seq<u8>, c0: char, c1: char, c2: char) -> bool {
    s.len() == 3 && s[0] == c0 as u8 && s[1] == c1 as u8 && s[2] == c2 as u8
}

pub open spec fn is_word5(s: Seq<u8>, c0: char, c1: char, c2: char, c3: char, c4: char) -> bool {
    s.len() == 5 && s[0] == c0 as u8 && s[1] == c1 as u8 && s[2] == c2 as u8 && s[3] == c3 as u8
        && s[4] == c4 as u8
}

pub open spec fn is_word6(
    s: Seq<u8>,
    c0: char,
    c1: char,
    c2: char,
    c3: char,
    c4: char,
    c5: char,
) -> bool {
    s.len() == 6 && s[0] == c0 as u8 && s[1] == c1 as u8 && s[2] == c2 as u8 && s[3] == c3 as u8
        && s[4] == c4 as u8 && s[5] == c5 as u8
}

/// The kind a gathered word is classified as: a mnemonic of the instruction
/// table, a numeric literal, or unknown.
pub open spec fn spec_classify(s: Seq<u8>) -> TokenType
    recommends
        s.len() > 0,
{
    if s.len() > 0 && is_alphabetic_byte(s[0]) {
        if is_word3(s, 'p', 'f', 'w') {
            TokenType::Pfw
        } else if is_word3(s, 'p', 'b', 'w') {
            TokenType::Pbw
        } else if is_word3(s, 'i', 'n', 'c') {
            TokenType::Inc
        } else if is_word3(s, 'd', 'e', 'c') {
            TokenType::Dec
        } else if is_word3(s, 'l', 'o', 'p') {
            TokenType::Lop
        } else if is_word3(s, 'p', 'o', 'l') {
            TokenType::Pol
        } else if is_word3(s, 'w', 'r', 't') {
            TokenType::Wrt
        } else if is_word5(s, 'w', 'r', 't', 'i', '8') {
            TokenType::Wrti8
        } else if is_word6(s, 'w', 'r', 't', 'i', '1', '6') {
            TokenType::Wrti16
        } else if is_word6(s, 'w', 'r', 't', 'i', '3', '2') {
            TokenType::Wrti32
        } else if is_word6(s, 'w', 'r', 't', 'i', '6', '4') {
            TokenType::Wrti64
        } else if is_word5(s, 'w', 'r', 't', 'u', '8') {
            TokenType::Wrtu8
        } else if is_word6(s, 'w', 'r', 't', 'u', '1', '6') {
            TokenType::Wrtu16
        } else if is_word6(s, 'w', 'r', 't', 'u', '3', '2') {
            TokenType::Wrtu32
        } else if is_word6(s, 'w', 'r', 't', 'u', '6', '4') {
            TokenType::Wrtu64
        } else if is_word6(s, 'w', 'r', 't', 'f', '3', '2') {
            TokenType::Wrtf32
        } else if is_word6(s, 'w', 'r', 't', 'f', '6', '4') {
            TokenType::Wrtf64
        } else if is_word3(s, 'r', 'd', 'i') {
            TokenType::Rdi
        } else if is_word3(s, 'r', 'd', 'a') {
            TokenType::Rda
        } else if is_word3(s, 's', 'e', 't') {
            TokenType::SetStr
        } else if is_word5(s, 's', 'e', 't', 'i', '8') {
            TokenType::Seti8
        } else if is_word6(s, 's', 'e', 't', 'i', '1', '6') {
            TokenType::Seti16
        } else if is_word6(s, 's', 'e', 't', 'i', '3', '2') {
            TokenType::Seti32
        } else if is_word6(s, 's', 'e', 't', 'i', '6', '4') {
            TokenType::Seti64
        } else if is_word5(s, 's', 'e', 't', 'u', '8') {
            TokenType::Setu8
        } else if is_word6(s, 's', 'e', 't', 'u', '1', '6') {
            TokenType::Setu16
        } else if is_word6(s, 's', 'e', 't', 'u', '3', '2') {
            TokenType::Setu32
        } else if is_word6(s, 's', 'e', 't', 'u', '6', '4') {
            TokenType::Setu64
        } else if is_word6(s, 's', 'e', 't', 'f', '3', '2') {
            TokenType::Setf32
        } else if is_word6(s, 's', 'e', 't', 'f', '6', '4') {
            TokenType::Setf64
        } else if is_word3(s, 'w', 'r', 'a') {
            TokenType::Wra
        } else if is_word3(s, 'c', 'l', 'r') {
            TokenType::Clr
        } else {
            TokenType::Unknown
        }
    } else if s.len() > 0 && (is_numeric_byte(s[0]) || is_punctuation_byte(s[0])) {
        TokenType::Num
    } else {
        TokenType::Unknown
    }
}

fn word3(s: &Vec<u8>, c0: char, c1: char, c2: char) -> (r: bool)
    ensures
        r == is_word3(s@, c0, c1, c2),
{
    s.len() == 3 && s[0] == c0 as u8 && s[1] == c1 as u8 && s[2] == c2 as u8
}

fn word5(s: &Vec<u8>, c0: char, c1: char, c2: char, c3: char, c4: char) -> (r: bool)
    ensures
        r == is_word5(s@, c0, c1, c2, c3, c4),
{
    s.len() == 5 && s[0] == c0 as u8 && s[1] == c1 as u8 && s[2] == c2 as u8 && s[3] == c3 as u8
        && s[4] == c4 as u8
}

fn word6(s: &Vec<u8>, c0: char, c1: char, c2: char, c3: char, c4: char, c5: char) -> (r: bool)
    ensures
        r == is_word6(s@, c0, c1, c2, c3, c4, c5),
{
    s.len() == 6 && s[0] == c0 as u8 && s[1] == c1 as u8 && s[2] == c2 as u8 && s[3] == c3 as u8
        && s[4] == c4 as u8 && s[5] == c5 as u8
}

fn classify(s: &Vec<u8>) -> (t: TokenType)
    requires
        s@.len() > 0,
    ensures
        t == spec_classify(s@),
{
    let b = s[0];
    if byte_is_alphabetic(b) {
        if word3(s, 'p', 'f', 'w') {
            TokenType::Pfw
        } else if word3(s, 'p', 'b', 'w') {
            TokenType::Pbw
        } else if word3(s, 'i', 'n', 'c') {
            TokenType::Inc
        } else if word3(s, 'd', 'e', 'c') {
            TokenType::Dec
        } else if word3(s, 'l', 'o', 'p') {
            TokenType::Lop
        } else if word3(s, 'p', 'o', 'l') {
            TokenType::Pol
        } else if word3(s, 'w', 'r', 't') {
            TokenType::Wrt
        } else if word5(s, 'w', 'r', 't', 'i', '8') {
            TokenType::Wrti8
        } else if word6(s, 'w', 'r', 't', 'i', '1', '6') {
            TokenType::Wrti16
        } else if word6(s, 'w', 'r', 't', 'i', '3', '2') {
            TokenType::Wrti32
        } else if word6(s, 'w', 'r', 't', 'i', '6', '4') {
            TokenType::Wrti64
        } else if word5(s, 'w', 'r', 't', 'u', '8') {
            TokenType::Wrtu8
        } else if word6(s, 'w', 'r', 't', 'u', '1', '6') {
            TokenType::Wrtu16
        } else if word6(s, 'w', 'r', 't', 'u', '3', '2') {
            TokenType::Wrtu32
        } else if word6(s, 'w', 'r', 't', 'u', '6', '4') {
            TokenType::Wrtu64
        } else if word6(s, 'w', 'r', 't', 'f', '3', '2') {
            TokenType::Wrtf32
        } else if word6(s, 'w', 'r', 't', 'f', '6', '4') {
            TokenType::Wrtf64
        } else if word3(s, 'r', 'd', 'i') {
            TokenType::Rdi
        } else if word3(s, 'r', 'd', 'a') {
            TokenType::Rda
        } else if word3(s, 's', 'e', 't') {
            TokenType::SetStr
        } else if word5(s, 's', 'e', 't', 'i', '8') {
            TokenType::Seti8
        } else if word6(s, 's', 'e', 't', 'i', '1', '6') {
            TokenType::Seti16
        } else if word6(s, 's', 'e', 't', 'i', '3', '2') {
            TokenType::Seti32
        } else if word6(s, 's', 'e', 't', 'i', '6', '4') {
            TokenType::Seti64
        } else if word5(s, 's', 'e', 't', 'u', '8') {
            TokenType::Setu8
        } else if word6(s, 's', 'e', 't', 'u', '1', '6') {
            TokenType::Setu16
        } else if word6(s, 's', 'e', 't', 'u', '3', '2') {
            TokenType::Setu32
        } else if word6(s, 's', 'e', 't', 'u', '6', '4') {
            TokenType::Setu64
        } else if word6(s, 's', 'e', 't', 'f', '3', '2') {
            TokenType::Setf32
        } else if word6(s, 's', 'e', 't', 'f', '6', '4') {
            TokenType::Setf64
        } else if word3(s, 'w', 'r', 'a') {
            TokenType::Wra
        } else if word3(s, 'c', 'l', 'r') {
            TokenType::Clr
        } else {
            TokenType::Unknown
        }
    } else if byte_is_numeric(b) || byte_is_punctuation(b) {
        TokenType::Num
    } else {
        TokenType::Unknown
    }
}

// ---------------------------------------------------------------------------
// The lexer
// ---------------------------------------------------------------------------

/// Model of the lexer's running state.
pub ghost struct LexState {
    pub line: nat,
    pub column: nat,
    pub buf: Seq<u8>,
}

impl LexState {
    /// The positions are one-based and the column has advanced once for
    /// every gathered byte.
    pub open spec fn wf(self) -> bool {
        self.line >= 1 && self.column >= 1 + self.buf.len()
    }
}

/// The token the gathered buffer flushes to, if it is not empty.
pub open spec fn spec_flush(st: LexState) -> Option<TokenView> {
    if st.buf.len() == 0 {
        None
    } else {
        Some(
            TokenView {
                value: st.buf,
                line: st.line,
                column: (st.column - st.buf.len()) as nat,
                kind: spec_classify(st.buf),
            },
        )
    }
}

/// The flushed token as a sequence: empty, or a single token.
pub open spec fn flush_seq(st: LexState) -> Seq<TokenView> {
    match spec_flush(st) {
        Some(t) => seq![t],
        None => Seq::empty(),
    }
}

/// The state after the buffer was flushed.
pub open spec fn after_flush(st: LexState) -> LexState {
    LexState { buf: Seq::empty(), ..st }
}

/// The state after a whitespace byte: the buffer is flushed, and the
/// position advances (a line feed starts the next line).
pub open spec fn ws_advance(st: LexState, b: u8) -> LexState {
    let st2 = after_flush(st);
    if b == 10 {
        LexState { line: st2.line + 1, column: 1, ..st2 }
    } else {
        LexState { column: st2.column + 1, ..st2 }
    }
}

/// The state after a non-whitespace byte: it joins the buffer and the
/// column advances.
pub open spec fn buf_advance(st: LexState, b: u8) -> LexState {
    LexState { column: st.column + 1, buf: st.buf.push(b), ..st }
}

/// The scan over a byte stream: the tokens flushed along the way, and the
/// state left when the stream ends.
pub open spec fn spec_scan(src: Seq<u8>, st: LexState) -> (Seq<TokenView>, LexState)
    decreases src.len(),
{
    if src.len() == 0 {
        (Seq::empty(), st)
    } else if is_whitespace_byte(src[0]) {
        let r = spec_scan(src.skip(1), ws_advance(st, src[0]));
        (flush_seq(st) + r.0, r.1)
    } else {
        spec_scan(src.skip(1), buf_advance(st, src[0]))
    }
}

/// The whole tokenization: the scan, then one final flush of whatever the
/// stream's end left gathered.
pub open spec fn spec_tokenize(src: Seq<u8>, st: LexState) -> (Seq<TokenView>, LexState) {
    let r = spec_scan(src, st);
    (r.0 + flush_seq(r.1), after_flush(r.1))
}

/// One byte of the stream moves the whole tokenization one step.
proof fn lemma_tokenize_step(src: Seq<u8>, st: LexState)
    requires
        src.len() > 0,
    ensures
        is_whitespace_byte(src[0]) ==> spec_tokenize(src, st).0 == flush_seq(st) + spec_tokenize(
            src.skip(1),
            ws_advance(st, src[0]),
        ).0 && spec_tokenize(src, st).1 == spec_tokenize(src.skip(1), ws_advance(st, src[0])).1,
        !is_whitespace_byte(src[0]) ==> spec_tokenize(src, st) == spec_tokenize(
            src.skip(1),
            buf_advance(st, src[0]),
        ),
{
    if is_whitespace_byte(src[0]) {
        let r = spec_scan(src.skip(1), ws_advance(st, src[0]));
        assert((flush_seq(st) + r.0) + flush_seq(r.1) =~= flush_seq(st) + (r.0 + flush_seq(r.1)));
    }
}

/// The views of a sequence of tokens.
pub open spec fn views_of(s: Seq<Token>) -> Seq<TokenView> {
    s.map_values(|t: Token| t@)
}

/// Defines data the lexer keeps track of.
pub struct Lexer {
    /// Current line number.
    current_line: u32,
    /// Current column number.
    current_column: u32,
    /// Token buffer for storing the bytes of the token being gathered.
    token_buffer: Vec<u8>,
}

impl View for Lexer {
    type V = LexState;

    closed spec fn view(&self) -> LexState {
        LexState {
            line: self.current_line as nat,
            column: self.current_column as nat,
            buf: self.token_buffer@,
        }
    }
}

impl Lexer {
    /// Constructor creates a new lexer with initialized values.
    pub fn new() -> (r: Lexer)
        ensures
            r@ == (LexState { line: 1, column: 1, buf: Seq::empty() }),
    {
        Lexer { current_column: 1, current_line: 1, token_buffer: Vec::new() }
    }

    /// Creates a token from the current buffer.
    fn token_from_buffer(&self) -> (r: Option<Token>)
        requires
            self@.wf(),
        ensures
            match r {
                Some(t) => spec_flush(self@) == Some(t@),
                None => spec_flush(self@) is None,
            },
    {
        if self.token_buffer.len() == 0 {
            return None;
        }
        let _type = classify(&self.token_buffer);
        Some(self.token_from_internal(_type))
    }

    /// Builds a token of the given type from the current buffer and
    /// position.
    fn token_from_internal(&self, _type: TokenType) -> (r: Token)
        requires
            self@.wf(),
            self@.buf.len() > 0,
        ensures
            r@ == (TokenView {
                value: self@.buf,
                line: self@.line,
                column: (self@.column - self@.buf.len()) as nat,
                kind: _type,
            }),
    {
        Token::new(
            self.token_buffer.clone(),
            self.current_line,
            self.current_column - (self.token_buffer.len() as u32),
            _type,
        )
    }

    /// Tokenizes the given byte stream and returns the tokens found, in
    /// order.
    ///
    /// * `source` - The bytes of the code to tokenize.
    pub fn tokenize(&mut self, source: &[u8]) -> (r: Vec<Token>)
        requires
            old(self)@.wf(),
            old(self)@.line + source@.len() <= u32::MAX,
            old(self)@.column + source@.len() <= u32::MAX,
        ensures
            final(self)@.wf(),
            views_of(r@) == spec_tokenize(source@, old(self)@).0,
            final(self)@ == spec_tokenize(source@, old(self)@).1,
    {
        let mut tokens: Vec<Token> = Vec::new();
        let n = source.len();
        let mut i: usize = 0;
        proof {
            assert(source@.skip(0) =~= source@);
            assert(views_of(tokens@) =~= Seq::<TokenView>::empty());
        }
        while i < n
            invariant
                0 <= i <= n,
                n == source@.len(),
                self@.wf(),
                self@.line + (n - i) <= u32::MAX,
                self@.column + (n - i) <= u32::MAX,
                ({
                    let a = spec_tokenize(source@, old(self)@);
                    let b = spec_tokenize(source@.skip(i as int), self@);
                    a.0 == views_of(tokens@) + b.0 && a.1 == b.1
                }),
            decreases n - i,
        {
            let b = source[i];
            let ghost rest = source@.skip(i as int);
            proof {
                assert(rest[0] == source@[i as int]);
                assert(rest.skip(1) =~= source@.skip(i + 1));
                lemma_tokenize_step(rest, self@);
            }
            let ghost st_top = self@;
            let ghost toks_top = tokens@;
            if byte_is_whitespace(b) {
                match self.token_from_buffer() {
                    Some(token) => {
                        tokens.push(token);
                        self.token_buffer = Vec::new();
                        proof {
                            assert(views_of(tokens@) =~= views_of(toks_top) + flush_seq(st_top));
                        }
                    },
                    None => {
                        proof {
                            assert(st_top.buf =~= Seq::<u8>::empty());
                            assert(views_of(tokens@) =~= views_of(toks_top) + flush_seq(st_top));
                        }
                    },
                }
                if b == 10 {
                    self.current_column = 1;
                    self.current_line = self.current_line + 1;
                } else {
                    self.current_column = self.current_column + 1;
                }
                proof {
                    assert(self@ == ws_advance(st_top, b));
                    let after = spec_tokenize(source@.skip(i + 1), self@);
                    assert(spec_tokenize(source@, old(self)@).0 == views_of(toks_top) + (flush_seq(
                        st_top,
                    ) + after.0));
                    assert(views_of(toks_top) + (flush_seq(st_top) + after.0) =~= (views_of(
                        toks_top,
                    ) + flush_seq(st_top)) + after.0);
                }
            } else {
                self.token_buffer.push(b);
                self.current_column = self.current_column + 1;
                proof {
                    assert(self@ == buf_advance(st_top, b));
                }
            }
            i += 1;
        }
        proof {
            assert(source@.skip(n as int) =~= Seq::<u8>::empty());
        }
        let ghost st_end = self@;
        let ghost toks_end = tokens@;
        match self.token_from_buffer() {
            Some(token) => {
                tokens.push(token);
                self.token_buffer = Vec::new();
                proof {
                    assert(views_of(tokens@) =~= views_of(toks_end) + flush_seq(st_end));
                    assert(views_of(tokens@) == spec_tokenize(source@, old(self)@).0);
                    assert(self@ == after_flush(st_end));
                }
            },
            None => {
                proof {
                    assert(st_end.buf =~= Seq::<u8>::empty());
                    assert(views_of(tokens@) =~= views_of(toks_end) + flush_seq(st_end));
                    assert(views_of(tokens@) == spec_tokenize(source@, old(self)@).0);
                    assert(self@ == after_flush(st_end));
                }
            },
        }
        tokens
    }
}

// ---------------------------------------------------------------------------
// Laws
// ---------------------------------------------------------------------------

/// A stream of bytes none of which is whitespace only gathers: no token is
/// flushed, and the whole stream joins the buffer.
proof fn lemma_scan_gathers_word(src: Seq<u8>, st: LexState)
    requires
        forall|i: int| 0 <= i < src.len() ==> !is_whitespace_byte(#[trigger] src[i]),
    ensures
        spec_scan(src, st) == (
            Seq::<TokenView>::empty(),
            LexState { column: st.column + src.len(), buf: st.buf + src, ..st },
        ),
    decreases src.len(),
{
    if src.len() == 0 {
        assert(st.buf + src =~= st.buf);
        assert((LexState { column: st.column + src.len(), buf: st.buf + src, ..st }) == st);
    } else {
        lemma_scan_gathers_word(src.skip(1), buf_advance(st, src[0]));
        assert(st.buf.push(src[0]) + src.skip(1) =~= st.buf + src);
    }
}

/// Law: a single word of alphabetic bytes that matches no mnemonic
/// tokenizes, from a fresh position, to exactly one token, an unknown one
/// carrying the word itself.
pub proof fn lemma_unknown_word_single_token(src: Seq<u8>, st: LexState)
    requires
        src.len() > 0,
        forall|i: int| 0 <= i < src.len() ==> is_alphabetic_byte(#[trigger] src[i]),
        spec_classify(src) == TokenType::Unknown,
        st.buf.len() == 0,
    ensures
        spec_tokenize(src, st).0 =~= seq![
            TokenView {
                value: src,
                line: st.line,
                column: st.column,
                kind: TokenType::Unknown,
            },
        ],
{
    assert(forall|i: int| 0 <= i < src.len() ==> !is_whitespace_byte(#[trigger] src[i]));
    lemma_scan_gathers_word(src, st);
    let fin = spec_scan(src, st).1;
    assert(fin.buf =~= src);
    assert(Seq::<TokenView>::empty() + flush_seq(fin) =~= flush_seq(fin));
}

} // verus!
