use minishell::lexer::{LexError, Lexer};
use minishell::parser::{ParseError, Parser, SyntaxError};
use minishell::redirection::{OutputTarget, RedirectionManager};
use minishell::token::{FileDescriptor, RedirectMode, Token};

fn args_of(line: &str) -> Vec<String> {
    Parser::parse(line).unwrap().args
}

#[test]
fn quoted_arguments_split_like_a_shell() {
    let c = Parser::parse("echo 'a b' \"c d\"").unwrap();
    assert_eq!(c.name, "echo");
    assert_eq!(c.args, vec!["a b".to_string(), "c d".to_string()]);
    assert!(c.redirections.is_empty());
}

#[test]
fn plain_words_and_repeated_spaces() {
    let c = Parser::parse("  ls   -l  /tmp ").unwrap();
    assert_eq!(c.name, "ls");
    assert_eq!(c.args, vec!["-l".to_string(), "/tmp".to_string()]);
}

#[test]
fn adjacent_pieces_concatenate() {
    assert_eq!(args_of("echo a\"b\"'c'd"), vec!["abcd".to_string()]);
}

#[test]
fn unterminated_double_quote_is_a_lex_error() {
    assert!(matches!(
        Parser::parse("echo \"abc"),
        Err(SyntaxError::Lex(LexError::UnclosedDoubleQuote))
    ));
}

#[test]
fn unterminated_single_quote_is_a_lex_error() {
    assert!(matches!(Lexer::lex("echo 'abc"), Err(LexError::UnclosedSingleQuote)));
}

#[test]
fn trailing_backslash_is_a_lex_error() {
    assert!(matches!(Lexer::lex("echo abc\\"), Err(LexError::TrailingBackslash)));
    assert!(matches!(Lexer::lex("echo \"abc\\"), Err(LexError::TrailingBackslash)));
}

#[test]
fn numeric_descriptor_other_than_one_or_two_is_rejected() {
    assert!(matches!(Lexer::lex("echo hi 3> f"), Err(LexError::BadDescriptor)));
    assert!(matches!(Lexer::lex("echo hi 12> f"), Err(LexError::BadDescriptor)));
}

#[test]
fn escapes_outside_and_inside_double_quotes() {
    assert_eq!(args_of("echo a\\ b"), vec!["a b".to_string()]);
    assert_eq!(args_of("echo \"x\\\"y\\\\z\""), vec!["x\"y\\z".to_string()]);
    assert_eq!(args_of("echo \"a\\nb\""), vec!["a\\nb".to_string()]);
    assert_eq!(args_of("echo 'a\\nb'"), vec!["a\\nb".to_string()]);
}

#[test]
fn newline_is_dropped_outside_quotes_only() {
    assert_eq!(args_of("echo ab\ncd"), vec!["abcd".to_string()]);
    assert_eq!(args_of("echo 'ab\ncd'"), vec!["ab\ncd".to_string()]);
}

#[test]
fn lexer_emits_whitespace_and_redirect_tokens() {
    let t = Lexer::lex("a b>>c").unwrap();
    assert_eq!(t.len(), 5);
    assert!(matches!(&t[0], Token::Word(w) if w == "a"));
    assert!(matches!(&t[1], Token::Whitespace));
    assert!(matches!(&t[2], Token::Word(w) if w == "b"));
    assert!(matches!(
        &t[3],
        Token::Redirect { mode: RedirectMode::Append, fd: FileDescriptor::Stdout }
    ));
    assert!(matches!(&t[4], Token::Word(w) if w == "c"));
}

#[test]
fn lexer_quoted_token_keeps_its_quote() {
    let t = Lexer::lex("'x y'").unwrap();
    assert_eq!(t.len(), 1);
    assert!(matches!(&t[0], Token::QuotedString(s, '\'') if s == "x y"));
    let t = Lexer::lex("\"\"").unwrap();
    assert!(matches!(&t[0], Token::QuotedString(s, '"') if s.is_empty()));
}

#[test]
fn empty_line_lexes_to_nothing() {
    assert!(Lexer::lex("").unwrap().is_empty());
}

#[test]
fn blank_line_has_no_command() {
    assert!(matches!(Parser::parse(""), Err(SyntaxError::Parse(ParseError::MissingCommand))));
    assert!(matches!(Parser::parse("   "), Err(SyntaxError::Parse(ParseError::MissingCommand))));
}

#[test]
fn leading_operator_is_rejected() {
    assert!(matches!(
        Parser::parse("> out.txt"),
        Err(SyntaxError::Parse(ParseError::UnexpectedLeadingOperator))
    ));
}

#[test]
fn redirect_without_target_is_rejected() {
    assert!(matches!(
        Parser::parse("echo hi >"),
        Err(SyntaxError::Parse(ParseError::MissingRedirectTarget))
    ));
    assert!(matches!(
        Parser::parse("echo hi > 2> e"),
        Err(SyntaxError::Parse(ParseError::MissingRedirectTarget))
    ));
}

#[test]
fn overwrite_then_append_redirections() {
    let c = Parser::parse("echo hi > /tmp/x/y.txt").unwrap();
    assert_eq!(c.args, vec!["hi".to_string()]);
    assert_eq!(c.redirections.len(), 1);
    let r = &c.redirections[0];
    assert!(r.is_stdout() && r.is_overwrite() && !r.is_append());
    assert_eq!(r.target, "/tmp/x/y.txt");

    let c = Parser::parse("echo hi >> /tmp/x/y.txt").unwrap();
    let r = &c.redirections[0];
    assert!(r.is_stdout() && r.is_append() && !r.is_overwrite());
    assert_eq!(r.target, "/tmp/x/y.txt");
}

#[test]
fn stderr_redirection_leaves_stdout_alone() {
    let c = Parser::parse("echo hi 2> /tmp/err.txt").unwrap();
    assert_eq!(c.args, vec!["hi".to_string()]);
    assert!(c.stdout_redirect().is_none());
    let e = c.stderr_redirect().unwrap();
    assert!(e.is_stderr() && e.is_overwrite());
    assert_eq!(e.target, "/tmp/err.txt");
    let m = RedirectionManager::for_command(&c);
    assert!(matches!(m.stdout(), OutputTarget::Standard));
    assert!(matches!(m.stderr(), OutputTarget::File { path, mode: RedirectMode::Overwrite } if path == "/tmp/err.txt"));
}

#[test]
fn named_descriptors_and_attached_operators() {
    let c = Parser::parse("cmd a 1>o stderr>>e").unwrap();
    assert_eq!(c.args, vec!["a".to_string()]);
    assert_eq!(c.redirections.len(), 2);
    assert_eq!(c.redirections[0].fd, FileDescriptor::Stdout);
    assert_eq!(c.redirections[0].target, "o");
    assert_eq!(c.redirections[1].fd, FileDescriptor::Stderr);
    assert_eq!(c.redirections[1].mode, RedirectMode::Append);
    assert_eq!(c.redirections[1].target, "e");
}

#[test]
fn word_before_operator_stays_an_argument() {
    let c = Parser::parse("echo hello3>out").unwrap();
    assert_eq!(c.args, vec!["hello3".to_string()]);
    assert_eq!(c.redirections[0].target, "out");
    assert_eq!(c.redirections[0].fd, FileDescriptor::Stdout);
}

#[test]
fn first_redirection_for_a_descriptor_wins() {
    let c = Parser::parse("echo hi > a > b 2> c 2> d").unwrap();
    assert_eq!(c.redirections.len(), 4);
    assert_eq!(c.stdout_redirect().unwrap().target, "a");
    assert_eq!(c.stderr_redirect().unwrap().target, "c");
    let m = RedirectionManager::for_command(&c);
    assert!(matches!(m.stdout(), OutputTarget::File { path, .. } if path == "a"));
    assert!(matches!(m.stderr(), OutputTarget::File { path, .. } if path == "c"));
}

#[test]
fn no_redirection_means_standard_streams() {
    let m = RedirectionManager::new();
    assert!(matches!(m.stdout(), OutputTarget::Standard));
    assert!(matches!(m.stderr(), OutputTarget::Standard));
    let c = Parser::parse("echo hi").unwrap();
    let m = RedirectionManager::with_redirections(c.stdout_redirect(), c.stderr_redirect());
    assert!(matches!(m.stdout(), OutputTarget::Standard));
    assert!(matches!(m.stderr(), OutputTarget::Standard));
}

#[test]
fn quoted_command_name_and_target() {
    let c = Parser::parse("'my cmd' x > 'out file'").unwrap();
    assert_eq!(c.name, "my cmd");
    assert_eq!(c.args, vec!["x".to_string()]);
    assert_eq!(c.redirections[0].target, "out file");
}

#[test]
fn descriptor_names() {
    assert_eq!(FileDescriptor::from_str("1"), Ok(FileDescriptor::Stdout));
    assert_eq!(FileDescriptor::from_str(""), Ok(FileDescriptor::Stdout));
    assert_eq!(FileDescriptor::from_str("stdout"), Ok(FileDescriptor::Stdout));
    assert_eq!(FileDescriptor::from_str("2"), Ok(FileDescriptor::Stderr));
    assert_eq!(FileDescriptor::from_str("stderr"), Ok(FileDescriptor::Stderr));
    assert_eq!(FileDescriptor::from_str("3"), Err("3".to_string()));
}

#[test]
fn error_messages() {
    assert_eq!(SyntaxError::Lex(LexError::UnclosedDoubleQuote).message(), "Unclosed double quote");
    assert_eq!(
        SyntaxError::Parse(ParseError::MissingRedirectTarget).message(),
        "Expected filename after redirect operator"
    );
}
