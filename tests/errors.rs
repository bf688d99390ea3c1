use tinyphp::ast::Location;
use tinyphp::error::{lexical_error, syntax_error, type_error, CompilerError};

fn at() -> Location {
    Location { file: "main.php".to_string(), line: 12, column: 7 }
}

#[test]
fn location_text() {
    assert_eq!(at().to_string(), "main.php:12:7");
}

#[test]
fn front_end_errors_keep_their_payload() {
    match lexical_error(&at(), "bad char".to_string()) {
        CompilerError::LexicalError(l, m) => {
            assert_eq!(l, at());
            assert_eq!(m, "bad char");
        },
        other => panic!("unexpected error: {:?}", other),
    }
    assert_eq!(syntax_error(&at(), "expected ;".to_string()).to_string(), "Syntax error at main.php:12:7: expected ;");
    assert_eq!(type_error(&at(), "not a number".to_string()).to_string(), "Type error at main.php:12:7: not a number");
    assert_eq!(lexical_error(&at(), "bad char".to_string()).to_string(), "Lexical error at main.php:12:7: bad char");
}
