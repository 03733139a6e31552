use otter_sql::codegen::CodegenError;
use otter_sql::expr::ExprError;
use otter_sql::identifier::IdentifierError;
use otter_sql::refusal::refusal_message;
use otter_sql::value::ValueError;

#[test]
fn refusal_messages() {
    assert_eq!(refusal_message("Bad", "x"), "Bad (Got: 'x')");
    let v = ValueError { reason: "Not a number", value: "'a'".to_owned() };
    assert_eq!(v.message(), "Not a number (Got: ''a'')");
    assert_eq!(ExprError::Value(v.clone()).message(), v.message());
    let i = IdentifierError { reason: "Too many parts", name: "a.b.c".to_owned() };
    assert_eq!(i.message(), "Too many parts (Got: 'a.b.c')");
}

#[test]
fn codegen_error_messages() {
    assert_eq!(
        CodegenError::UnsupportedStatement("DROP TABLE t".to_owned()).message(),
        "Unsupported statement: DROP TABLE t"
    );
    assert_eq!(
        CodegenError::UnsupportedStatementForm("Joins are not supported yet", "SELECT 1".to_owned())
            .message(),
        "Unsupported: Joins are not supported yet (Got: 'SELECT 1')"
    );
    assert_eq!(
        CodegenError::InvalidIdentifier(IdentifierError { reason: "R", name: "n".to_owned() })
            .message(),
        "R (Got: 'n')"
    );
    assert_eq!(
        CodegenError::Expr(ExprError::Expr { reason: "R", expr: "e".to_owned() }).message(),
        "R (Got: 'e')"
    );
}
