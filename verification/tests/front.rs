use naga::front::glsl_error::{ErrorKind, ParseError, Token, TokenMetadata};

fn meta() -> TokenMetadata {
    TokenMetadata { line: 3, chars: 5..9 }
}

#[test]
fn metadata_reads_like_its_debug_form() {
    assert_eq!(meta().debug_text(), format!("{:?}", meta()));
    assert_eq!(meta().debug_text(), "TokenMetadata { line: 3, chars: 5..9 }");
}

#[test]
fn error_kind_messages() {
    assert_eq!(ErrorKind::EndOfFile.message(), "Unexpected end of file");
    assert_eq!(ErrorKind::InvalidInput.message(), "InvalidInput");
    assert_eq!(
        ErrorKind::InvalidProfile(meta(), "core2".to_string()).message(),
        "Invalid profile core2 at TokenMetadata { line: 3, chars: 5..9 }"
    );
    assert_eq!(
        ErrorKind::InvalidToken(Token { debug_text: "Semicolon".to_string() }).message(),
        "Invalid Token Semicolon"
    );
    assert_eq!(
        ErrorKind::InvalidVersion(meta(), -450).message(),
        "Invalid version -450 at TokenMetadata { line: 3, chars: 5..9 }"
    );
    assert_eq!(ErrorKind::ParserFail.message(), "Parser failed");
    assert_eq!(ErrorKind::ParserStackOverflow.message(), "Parser stack overflow");
    assert_eq!(ErrorKind::NotImplemented("arrays").message(), "Not implemented: arrays");
    assert_eq!(
        ErrorKind::UnknownVariable(meta(), "v".to_string()).message(),
        "Unknown variable v at TokenMetadata { line: 3, chars: 5..9 }"
    );
    assert_eq!(
        ErrorKind::UnknownField(meta(), "f".to_string()).message(),
        "Unknown field f at TokenMetadata { line: 3, chars: 5..9 }"
    );
    assert_eq!(
        ErrorKind::VariableAlreadyDeclared("v".to_string()).message(),
        "Variable v already declared in current scope"
    );
    assert_eq!(ErrorKind::ExpectedConstant.message(), "Expected constant");
    assert_eq!(
        ErrorKind::SemanticError("no".to_string()).message(),
        "Semantic error: no"
    );
    assert_eq!(
        ErrorKind::PreprocessorError("#if".to_string()).message(),
        "Preprocessor error: #if"
    );
    assert_eq!(
        ErrorKind::WrongNumberArgs("mix".to_string(), 3, 2).message(),
        "mix requires 3 args, got 2"
    );
    let io = std::io::Error::new(std::io::ErrorKind::Other, "gone");
    assert_eq!(ErrorKind::IoError(io).message(), "IO Error gone");
}

#[test]
fn parse_errors_come_from_kinds_and_io_errors() {
    let e: ParseError = ErrorKind::ParserFail.into();
    assert!(matches!(e.kind, ErrorKind::ParserFail));
    let e: ParseError = std::io::Error::new(std::io::ErrorKind::Other, "x").into();
    assert!(matches!(e.kind, ErrorKind::IoError(_)));
}
