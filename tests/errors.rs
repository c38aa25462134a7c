use numkernel::errors::{
    argument_error, conversion_error, format_error, io_error, not_found_error, null_error,
    operation_error, operator_error, permission_error, range_error, unexpected_error, Error,
};

#[test]
fn messages_of_each_error() {
    assert_eq!(
        argument_error("level", "x").message(),
        "argument 'level' held an invalid value of 'x'"
    );
    assert_eq!(null_error("arg0").message(), "'arg0' is null");
    assert_eq!(
        format_error("1.2.3", "two dots").message(),
        "the value '1.2.3' held an invalid format because of 'two dots'"
    );
    assert_eq!(
        range_error("n", "9", Some(("0", "5"))).message(),
        "the value '9' in variable 'n' is out of range (0 to 5)"
    );
    assert_eq!(
        range_error("n", "9", None).message(),
        "the value '9' in variable 'n' is out of range"
    );
    assert_eq!(not_found_error("x").message(), "the value 'x' was not found");
    assert_eq!(permission_error().message(), "invalid permissions");
    assert_eq!(
        operator_error("/", "a", Some("b")).message(),
        "operator '/' cannot be applied to 'a' and 'b'"
    );
    assert_eq!(operator_error("-", "a", None).message(), "operator '-' cannot be applied to 'a'");
    assert_eq!(unexpected_error("boom").message(), "unexpected error: 'boom'");
    assert_eq!(
        operation_error("open", "already open").message(),
        "operation 'open' is not permitted because of 'already open'"
    );
    assert_eq!(conversion_error("bad").message(), "converson failed because of 'bad'");
    assert_eq!(io_error("disk full").message(), "disk full");
}

#[test]
fn factories_build_their_case() {
    assert_eq!(null_error("a"), Error::NullError("a".to_string()));
    assert_eq!(
        operator_error("+", "x", None),
        Error::OperatorError("+".to_string(), "x".to_string(), None)
    );
    assert_eq!(
        range_error("v", "1", Some(("0", "2"))),
        Error::RangeError("v".to_string(), "1".to_string(), Some("0".to_string()), Some("2".to_string()))
    );
}
