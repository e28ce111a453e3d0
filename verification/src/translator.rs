//! The TRNG-to-Brainfuck translator.
//!
//! Only the front half is finished: the source is tokenized and each token
//! is checked against the set that Brainfuck can express; a token outside
//! that set is refused.  The tokens that pass are mapped to a fixed
//! placeholder, so the output records how many tokens translated, not yet
//! what they translated to.

use vstd::prelude::*;
use vstd::string::*;

use crate::lexer::{views_of, LexState, Lexer, TokenType, TokenView};
use crate::text::{bytes_text, text_of_bytes};

verus! {

/// Type alias for a simple result with a `TranslatorError`.
pub type TranslatorResult<T> = Result<T, TranslatorError>;

/// Defines error types for translation errors.
#[derive(Debug, Clone, Copy, PartialEq, Eq, Structural)]
pub enum TranslatorErrorType {
    /// The source holds a token Brainfuck cannot express.
    NotSupported,
    /// An underlying stream failed.
    Io,
}

/// An error reported by the translator.
#[derive(Debug)]
pub struct TranslatorError {
    pub _type: TranslatorErrorType,
    pub description: String,
}

impl TranslatorError {
    pub fn new(_type: TranslatorErrorType, description: String) -> (r: TranslatorError)
        ensures
            r._type == _type,
            r.description@ == description@,
    {
        Self { _type, description }
    }
}

/// Defines types of tokens used in Brainfuck.
#[derive(Debug, Clone, Copy, PartialEq, Eq, Structural)]
pub enum BrainfuckTokenType {
    /// Increment the pointer.
    GreaterThan,
    /// Decrement the pointer.
    LessThan,
    /// Increment the current cell value.
    Plus,
    /// Decrement the current cell value.
    Minus,
    /// Write the current cell value as an ASCII character.
    Dot,
    /// Read the next input character into the current cell.
    Comma,
    /// Start a loop.
    SqBrOpen,
    /// End a loop if the current cell value is 0.
    SqBrClosed,
}

/// Model of a Brainfuck token.
pub ghost struct BrainfuckTokenView {
    pub kind: BrainfuckTokenType,
    pub value: Seq<char>,
    pub line: nat,
    pub column: nat,
}

/// Defines a token for Brainfuck.
#[derive(Debug)]
pub struct BrainfuckToken {
    _type: BrainfuckTokenType,
    value: String,
    line: u32,
    column: u32,
}

impl View for BrainfuckToken {
    type V = BrainfuckTokenView;

    closed spec fn view(&self) -> BrainfuckTokenView {
        BrainfuckTokenView {
            kind: self._type,
            value: self.value@,
            line: self.line as nat,
            column: self.column as nat,
        }
    }
}

impl BrainfuckToken {
    pub fn new(_type: BrainfuckTokenType, value: String, line: u32, column: u32) -> (r: Self)
        ensures
            r@ == (BrainfuckTokenView {
                kind: _type,
                value: value@,
                line: line as nat,
                column: column as nat,
            }),
    {
        Self { _type, value, line, column }
    }
}

/// The token kinds that translation supports.
pub open spec fn is_supported_kind(k: TokenType) -> bool {
    ||| k == TokenType::Dec
    ||| k == TokenType::Num
    ||| k == TokenType::Inc
    ||| k == TokenType::Pfw
    ||| k == TokenType::Pbw
    ||| k == TokenType::Wrt
    ||| k == TokenType::Rdi
    ||| k == TokenType::Lop
    ||| k == TokenType::Pol
}

/// The message refusing a token that translation does not support.
pub open spec fn msg_not_supported(v: Seq<u8>) -> Seq<char> {
    "The token '"@ + text_of_bytes(v) + "' is not supported in translation."@
}

/// The placeholder every supported token maps to while the back half of the
/// translator is unwritten.
pub open spec fn placeholder_token() -> BrainfuckTokenView {
    BrainfuckTokenView {
        kind: BrainfuckTokenType::Comma,
        value: "asdasd"@,
        line: 2,
        column: 2,
    }
}

fn not_supported_msg(v: &Vec<u8>) -> (r: String)
    ensures
        r@ == msg_not_supported(v@),
{
    let mut s = String::from_str("The token '");
    s.append(bytes_text(v).as_str());
    s.append("' is not supported in translation.");
    s
}

/// Turns TRNG token streams into Brainfuck tokens.
pub struct Translator;

impl Translator {
    /// Checks if the given `TokenType` is supported in translation.
    fn is_supported_token(token_type: &TokenType) -> (r: bool)
        ensures
            r == is_supported_kind(*token_type),
    {
        matches!(
            token_type,
            TokenType::Dec
                | TokenType::Num
                | TokenType::Inc
                | TokenType::Pfw
                | TokenType::Pbw
                | TokenType::Wrt
                | TokenType::Rdi
                | TokenType::Lop
                | TokenType::Pol
        )
    }

    /// Translates TRNG source to Brainfuck tokens: every token must be of a
    /// kind Brainfuck can express, and the first that is not is refused
    /// with its text; what passes maps, for now, to a fixed placeholder per
    /// token.
    pub fn translate(trng_code: &str) -> (r: TranslatorResult<Vec<BrainfuckToken>>)
        requires
            trng_code.spec_bytes().len() < u32::MAX,
        ensures
            ({
                let toks = crate::interpreter::spec_program(trng_code.spec_bytes());
                match r {
                    Ok(out) => {
                        &&& forall|j: int|
                            0 <= j < toks.len() ==> is_supported_kind(#[trigger] toks[j].kind)
                        &&& out@.len() == toks.len()
                        &&& forall|j: int| 0 <= j < out@.len() ==> #[trigger] out@[j]@
                            == placeholder_token()
                    },
                    Err(e) => exists|j: int|
                        {
                            &&& 0 <= j < toks.len()
                            &&& !is_supported_kind(#[trigger] toks[j].kind)
                            &&& forall|k: int| 0 <= k < j ==> is_supported_kind(
                                #[trigger] toks[k].kind,
                            )
                            &&& e._type == TranslatorErrorType::NotSupported
                            &&& e.description@ == msg_not_supported(toks[j].value)
                        },
                }
            }),
    {
        let mut lexer = Lexer::new();
        let tokens = lexer.tokenize(trng_code.as_bytes());
        let ghost toks = views_of(tokens@);
        let mut out: Vec<BrainfuckToken> = Vec::new();
        let n = tokens.len();
        let mut i: usize = 0;
        while i < n
            invariant
                0 <= i <= n,
                n == tokens@.len(),
                toks == views_of(tokens@),
                toks == crate::interpreter::spec_program(trng_code.spec_bytes()),
                out@.len() == i,
                forall|k: int| 0 <= k < i ==> is_supported_kind(#[trigger] toks[k].kind),
                forall|j: int| 0 <= j < out@.len() ==> #[trigger] out@[j]@ == placeholder_token(),
            decreases n - i,
        {
            let token = &tokens[i];
            if !Translator::is_supported_token(&token._type) {
                proof {
                    assert(toks[i as int] == tokens@[i as int]@);
                    assert(!is_supported_kind(toks[i as int].kind));
                }
                return Err(
                    TranslatorError::new(
                        TranslatorErrorType::NotSupported,
                        not_supported_msg(&token.value),
                    ),
                );
            }
            out.push(
                BrainfuckToken::new(BrainfuckTokenType::Comma, String::from_str("asdasd"), 2, 2),
            );
            proof {
                assert(toks[i as int] == tokens@[i as int]@);
            }
            i += 1;
        }
        Ok(out)
    }
}

} // verus!
