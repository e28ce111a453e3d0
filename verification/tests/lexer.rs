use trng::lexer::{Lexer, TokenType};

#[test]
fn tokenize_pfw_with_operand_test() {
    let mut lexer = Lexer::new();

    let tokens = lexer.tokenize(b"pfw 5");

    assert_eq!(tokens.len(), 2);
    assert!(matches!(tokens[0]._type, TokenType::Pfw));
    assert_eq!(tokens[0].value.as_slice(), b"pfw");
    assert_eq!(tokens[0].line, 1);
    assert_eq!(tokens[0].column, 1);
    assert!(matches!(tokens[1]._type, TokenType::Num));
    assert_eq!(tokens[1].value.as_slice(), b"5");
    assert_eq!(tokens[1].line, 1);
    assert_eq!(tokens[1].column, 5);
}

#[test]
fn tokenize_unknown_word_yields_single_unknown_token_test() {
    let mut lexer = Lexer::new();

    let tokens = lexer.tokenize(b"blorp");

    assert_eq!(tokens.len(), 1);
    assert!(matches!(tokens[0]._type, TokenType::Unknown));
    assert_eq!(tokens[0].value.as_slice(), b"blorp");
}

#[test]
fn tokenize_tracks_lines_and_columns_test() {
    let mut lexer = Lexer::new();

    let tokens = lexer.tokenize(b"set Hi\n  wra");

    assert_eq!(tokens.len(), 3);
    assert_eq!(tokens[0].line, 1);
    assert_eq!(tokens[0].column, 1);
    assert_eq!(tokens[1].line, 1);
    assert_eq!(tokens[1].column, 5);
    assert_eq!(tokens[2].line, 2);
    assert_eq!(tokens[2].column, 3);
    assert!(matches!(tokens[2]._type, TokenType::Wra));
}

#[test]
fn tokenize_empty_source_yields_no_tokens_test() {
    let mut lexer = Lexer::new();

    let tokens = lexer.tokenize(b"");

    assert_eq!(tokens.len(), 0);
}

#[test]
fn tokenize_whitespace_only_yields_no_tokens_test() {
    let mut lexer = Lexer::new();

    let tokens = lexer.tokenize(b"  \t \n  ");

    assert_eq!(tokens.len(), 0);
}

#[test]
fn tokenize_classifies_every_mnemonic_test() {
    let mut lexer = Lexer::new();

    let code = b"pfw pbw inc dec lop pol wrt wrti8 wrti16 wrti32 wrti64 \
                 wrtu8 wrtu16 wrtu32 wrtu64 wrtf32 wrtf64 rdi rda set \
                 seti8 seti16 seti32 seti64 setu8 setu16 setu32 setu64 \
                 setf32 setf64 wra clr";
    let tokens = lexer.tokenize(code);

    assert_eq!(tokens.len(), 32);
    assert!(matches!(tokens[0]._type, TokenType::Pfw));
    assert!(matches!(tokens[1]._type, TokenType::Pbw));
    assert!(matches!(tokens[2]._type, TokenType::Inc));
    assert!(matches!(tokens[3]._type, TokenType::Dec));
    assert!(matches!(tokens[4]._type, TokenType::Lop));
    assert!(matches!(tokens[5]._type, TokenType::Pol));
    assert!(matches!(tokens[6]._type, TokenType::Wrt));
    assert!(matches!(tokens[7]._type, TokenType::Wrti8));
    assert!(matches!(tokens[8]._type, TokenType::Wrti16));
    assert!(matches!(tokens[9]._type, TokenType::Wrti32));
    assert!(matches!(tokens[10]._type, TokenType::Wrti64));
    assert!(matches!(tokens[11]._type, TokenType::Wrtu8));
    assert!(matches!(tokens[12]._type, TokenType::Wrtu16));
    assert!(matches!(tokens[13]._type, TokenType::Wrtu32));
    assert!(matches!(tokens[14]._type, TokenType::Wrtu64));
    assert!(matches!(tokens[15]._type, TokenType::Wrtf32));
    assert!(matches!(tokens[16]._type, TokenType::Wrtf64));
    assert!(matches!(tokens[17]._type, TokenType::Rdi));
    assert!(matches!(tokens[18]._type, TokenType::Rda));
    assert!(matches!(tokens[19]._type, TokenType::SetStr));
    assert!(matches!(tokens[20]._type, TokenType::Seti8));
    assert!(matches!(tokens[21]._type, TokenType::Seti16));
    assert!(matches!(tokens[22]._type, TokenType::Seti32));
    assert!(matches!(tokens[23]._type, TokenType::Seti64));
    assert!(matches!(tokens[24]._type, TokenType::Setu8));
    assert!(matches!(tokens[25]._type, TokenType::Setu16));
    assert!(matches!(tokens[26]._type, TokenType::Setu32));
    assert!(matches!(tokens[27]._type, TokenType::Setu64));
    assert!(matches!(tokens[28]._type, TokenType::Setf32));
    assert!(matches!(tokens[29]._type, TokenType::Setf64));
    assert!(matches!(tokens[30]._type, TokenType::Wra));
    assert!(matches!(tokens[31]._type, TokenType::Clr));
}

#[test]
fn tokenize_signed_literal_is_numeric_test() {
    let mut lexer = Lexer::new();

    let tokens = lexer.tokenize(b"-12 +3 4.5");

    assert_eq!(tokens.len(), 3);
    assert!(matches!(tokens[0]._type, TokenType::Num));
    assert!(matches!(tokens[1]._type, TokenType::Num));
    assert!(matches!(tokens[2]._type, TokenType::Num));
}
