use emicon::mosint::{mosint_command, mosint_failure, MosintFailure};
use emicon::text::contains_text;

#[test]
fn syntax_error_on_either_stream() {
    assert_eq!(
        mosint_failure("error: Email syntax is not valid\n", ""),
        MosintFailure::InvalidSyntax
    );
    assert_eq!(
        mosint_failure("", "Email syntax is not valid"),
        MosintFailure::InvalidSyntax
    );
    assert_eq!(mosint_failure("boom", "crash"), MosintFailure::ExecutionFailed);
    assert_eq!(
        mosint_failure("email syntax is not valid", ""),
        MosintFailure::ExecutionFailed
    );
}

#[test]
fn command_line() {
    assert_eq!(
        mosint_command("/usr/bin/mosint", "/home/u/.mosint.conf", "/tmp/emicon/a@b.c-1.json", "a@b.c"),
        "/usr/bin/mosint -c /home/u/.mosint.conf -o /tmp/emicon/a@b.c-1.json a@b.c"
    );
}

#[test]
fn substring_search() {
    assert!(contains_text("hello world", "lo w"));
    assert!(contains_text("hello", ""));
    assert!(contains_text("hello", "hello"));
    assert!(!contains_text("hello", "hello!"));
    assert!(!contains_text("", "a"));
    assert!(contains_text("aab", "ab"));
}
