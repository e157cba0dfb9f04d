//! The parser: turns the tokens of a line into a command name, its arguments
//! and its output redirections.

use vstd::prelude::*;

use crate::lexer::{lex_error_text, lex_line, LexError, Lexer};
use crate::text::{chars_of, string_of};
use crate::token::{
    tokens_view, FileDescriptor, RedirectMode, Redirection, RedirectionView, Token, TokenView,
};

verus! {

/// A command line, parsed.
#[derive(Debug)]
pub struct ParsedCommand {
    pub name: String,
    /// The arguments, without the command name.
    pub args: Vec<String>,
    /// The redirections, in the order in which they appear on the line.
    pub redirections: Vec<Redirection>,
}

/// A parsed command as a mathematical value.
pub struct CommandView {
    pub name: Seq<char>,
    pub args: Seq<Seq<char>>,
    pub redirections: Seq<RedirectionView>,
}

pub open spec fn strings_view(s: Seq<String>) -> Seq<Seq<char>> {
    s.map_values(|a: String| a@)
}

pub open spec fn redirections_view(s: Seq<Redirection>) -> Seq<RedirectionView> {
    s.map_values(|r: Redirection| r@)
}

impl View for ParsedCommand {
    type V = CommandView;

    open spec fn view(&self) -> CommandView {
        CommandView {
            name: self.name@,
            args: strings_view(self.args@),
            redirections: redirections_view(self.redirections@),
        }
    }
}

/// Whether `k` is the position of the first redirection for `fd`.
pub open spec fn is_first_for(redirs: Seq<RedirectionView>, fd: FileDescriptor, k: int) -> bool {
    &&& 0 <= k < redirs.len()
    &&& redirs[k].fd == fd
    &&& forall|j: int| 0 <= j < k ==> (#[trigger] redirs[j]).fd != fd
}

/// Whether `r` is the redirection that wins for `fd`: the first one for it,
/// or none when the line has none for it.
pub open spec fn first_redirect(
    redirs: Seq<Redirection>,
    fd: FileDescriptor,
    r: Option<&Redirection>,
) -> bool {
    match r {
        Some(x) => exists|k: int| is_first_for(redirections_view(redirs), fd, k) && *x == redirs[k],
        None => forall|k: int| 0 <= k < redirs.len() ==> (#[trigger] redirs[k]).fd != fd,
    }
}

impl ParsedCommand {
    fn find_redirect(&self, fd: FileDescriptor) -> (r: Option<&Redirection>)
        ensures
            first_redirect(self.redirections@, fd, r),
    {
        let mut i: usize = 0;
        while i < self.redirections.len()
            invariant
                i <= self.redirections@.len(),
                forall|j: int| 0 <= j < i ==> (#[trigger] self.redirections@[j]).fd != fd,
            decreases self.redirections@.len() - i,
        {
            if self.redirections[i].fd == fd {
                let ghost rv = redirections_view(self.redirections@);
                assert(is_first_for(rv, fd, i as int));
                return Some(&self.redirections[i]);
            }
            i = i + 1;
        }
        None
    }

    /// The redirection of the standard output: the first one on the line.
    pub fn stdout_redirect(&self) -> (r: Option<&Redirection>)
        ensures
            first_redirect(self.redirections@, FileDescriptor::Stdout, r),
    {
        self.find_redirect(FileDescriptor::Stdout)
    }

    /// The redirection of the standard error: the first one on the line.
    pub fn stderr_redirect(&self) -> (r: Option<&Redirection>)
        ensures
            first_redirect(self.redirections@, FileDescriptor::Stderr, r),
    {
        self.find_redirect(FileDescriptor::Stderr)
    }
}

/// Why a token sequence is not a command.
#[derive(Debug, Clone, Copy, PartialEq, Eq, Structural)]
pub enum ParseError {
    /// The line holds nothing but whitespace.
    MissingCommand,
    /// The line starts with a redirection operator.
    UnexpectedLeadingOperator,
    /// A redirection operator is not followed by a file name.
    MissingRedirectTarget,
}

/// Why a line is not a command.
#[derive(Debug, Clone, Copy, PartialEq, Eq, Structural)]
pub enum SyntaxError {
    Lex(LexError),
    Parse(ParseError),
}

/// The sentence that describes a parse error.
pub open spec fn parse_error_text(e: ParseError) -> Seq<char> {
    match e {
        ParseError::MissingCommand => "No command provided"@,
        ParseError::UnexpectedLeadingOperator => "First token must be a word or quoted string"@,
        ParseError::MissingRedirectTarget => "Expected filename after redirect operator"@,
    }
}

impl ParseError {
    /// A sentence describing the error.
    pub fn message(&self) -> (r: &'static str)
        ensures
            r@ == parse_error_text(*self),
    {
        match self {
            ParseError::MissingCommand => "No command provided",
            ParseError::UnexpectedLeadingOperator => "First token must be a word or quoted string",
            ParseError::MissingRedirectTarget => "Expected filename after redirect operator",
        }
    }
}

impl SyntaxError {
    /// A sentence describing the error.
    pub fn message(&self) -> (r: &'static str)
        ensures
            r@ == match *self {
                SyntaxError::Lex(e) => lex_error_text(e),
                SyntaxError::Parse(e) => parse_error_text(e),
            },
    {
        match self {
            SyntaxError::Lex(e) => e.message(),
            SyntaxError::Parse(e) => e.message(),
        }
    }
}

/// Where the parser stands between two tokens.
#[derive(Debug, Clone, Copy, PartialEq, Eq, Structural)]
pub enum ParseStage {
    /// Before the command name.
    Name,
    /// Among the arguments.
    Args,
    /// After a redirection operator, before its file name.
    Target(FileDescriptor, RedirectMode),
}

/// The text of a word or quoted string.
pub open spec fn token_text(t: TokenView) -> Option<Seq<char>> {
    match t {
        TokenView::Word(w) => Some(w),
        TokenView::QuotedString(s, _) => Some(s),
        _ => None,
    }
}

/// The arguments, with the pending one appended if it is not empty.
pub open spec fn flush_arg(args: Seq<Seq<char>>, pending: Seq<char>) -> Seq<Seq<char>> {
    if pending.len() == 0 {
        args
    } else {
        args.push(pending)
    }
}

/// The parser run on the tokens `t` from position `i`.
pub open spec fn parse_from(
    t: Seq<TokenView>,
    i: int,
    stage: ParseStage,
    name: Seq<char>,
    args: Seq<Seq<char>>,
    pending: Seq<char>,
    redirs: Seq<RedirectionView>,
) -> Result<CommandView, ParseError>
    decreases t.len() - i,
{
    if i < 0 || i >= t.len() {
        match stage {
            ParseStage::Name => Err(ParseError::MissingCommand),
            ParseStage::Args => Ok(
                CommandView { name, args: flush_arg(args, pending), redirections: redirs },
            ),
            ParseStage::Target(_, _) => Err(ParseError::MissingRedirectTarget),
        }
    } else {
        let tok = t[i];
        match stage {
            ParseStage::Name => match token_text(tok) {
                Some(w) => parse_from(t, i + 1, ParseStage::Args, w, args, pending, redirs),
                None => if tok is Whitespace {
                    parse_from(t, i + 1, stage, name, args, pending, redirs)
                } else {
                    Err(ParseError::UnexpectedLeadingOperator)
                },
            },
            ParseStage::Args => match tok {
                TokenView::Whitespace => parse_from(
                    t,
                    i + 1,
                    stage,
                    name,
                    flush_arg(args, pending),
                    Seq::empty(),
                    redirs,
                ),
                TokenView::Redirect { mode, fd } => parse_from(
                    t,
                    i + 1,
                    ParseStage::Target(fd, mode),
                    name,
                    flush_arg(args, pending),
                    Seq::empty(),
                    redirs,
                ),
                TokenView::Word(w) => parse_from(t, i + 1, stage, name, args, pending + w, redirs),
                TokenView::QuotedString(w, _) => parse_from(
                    t,
                    i + 1,
                    stage,
                    name,
                    args,
                    pending + w,
                    redirs,
                ),
            },
            ParseStage::Target(fd, mode) => match token_text(tok) {
                Some(w) => parse_from(
                    t,
                    i + 1,
                    ParseStage::Args,
                    name,
                    args,
                    pending,
                    redirs.push(RedirectionView { fd, target: w, mode }),
                ),
                None => if tok is Whitespace {
                    parse_from(t, i + 1, stage, name, args, pending, redirs)
                } else {
                    Err(ParseError::MissingRedirectTarget)
                },
            },
        }
    }
}

/// The command that a token sequence denotes.
pub open spec fn parse_tokens_view(t: Seq<TokenView>) -> Result<CommandView, ParseError> {
    parse_from(t, 0, ParseStage::Name, Seq::empty(), Seq::empty(), Seq::empty(), Seq::empty())
}

/// The command that a line denotes.
pub open spec fn parse_line(input: Seq<char>) -> Result<CommandView, SyntaxError> {
    match lex_line(input) {
        Err(e) => Err(SyntaxError::Lex(e)),
        Ok(t) => match parse_tokens_view(t) {
            Ok(c) => Ok(c),
            Err(e) => Err(SyntaxError::Parse(e)),
        },
    }
}

/// Whether an executable parser result is the mathematical one.
pub open spec fn parsed_as<E>(r: Result<ParsedCommand, E>, m: Result<CommandView, E>) -> bool {
    match r {
        Ok(c) => m == Ok::<CommandView, E>(c@),
        Err(e) => m == Err::<CommandView, E>(e),
    }
}

proof fn lemma_strings_view_push(s: Seq<String>, a: String)
    ensures
        strings_view(s.push(a)) == strings_view(s).push(a@),
{
    assert(strings_view(s.push(a)) =~= strings_view(s).push(a@));
}

proof fn lemma_redirections_view_push(s: Seq<Redirection>, r: Redirection)
    ensures
        redirections_view(s.push(r)) == redirections_view(s).push(r@),
{
    assert(redirections_view(s.push(r)) =~= redirections_view(s).push(r@));
}

/// Moves the pending argument, if any, to the arguments.
fn flush_pending(args: &mut Vec<String>, pending: &mut Vec<char>)
    ensures
        strings_view(final(args)@) == flush_arg(strings_view(old(args)@), old(pending)@),
        final(pending)@ == Seq::<char>::empty(),
{
    if pending.len() > 0 {
        let a = string_of(pending.as_slice());
        proof {
            lemma_strings_view_push(args@, a);
        }
        args.push(a);
        *pending = Vec::new();
    }
}

fn text_of(t: &Token) -> (r: Option<&String>)
    ensures
        match r {
            Some(s) => token_text(t@) == Some(s@),
            None => token_text(t@) is None,
        },
{
    match t {
        Token::Word(w) => Some(w),
        Token::QuotedString(s, _) => Some(s),
        _ => None,
    }
}

pub struct Parser;

impl Parser {
    /// Lexes and parses one command line.
    pub fn parse(input: &str) -> (r: Result<ParsedCommand, SyntaxError>)
        ensures
            parsed_as(r, parse_line(input@)),
    {
        match Lexer::lex(input) {
            Err(e) => Err(SyntaxError::Lex(e)),
            Ok(tokens) => match Self::parse_tokens(tokens) {
                Ok(c) => Ok(c),
                Err(e) => Err(SyntaxError::Parse(e)),
            },
        }
    }

    fn parse_tokens(tokens: Vec<Token>) -> (r: Result<ParsedCommand, ParseError>)
        ensures
            parsed_as(r, parse_tokens_view(tokens_view(tokens@))),
    {
        let ghost tv = tokens_view(tokens@);
        let n = tokens.len();
        let mut stage = ParseStage::Name;
        let mut name = String::new();
        let mut args: Vec<String> = Vec::new();
        let mut pending: Vec<char> = Vec::new();
        let mut redirections: Vec<Redirection> = Vec::new();
        let mut i: usize = 0;
        assert(strings_view(args@) =~= Seq::<Seq<char>>::empty());
        assert(redirections_view(redirections@) =~= Seq::<RedirectionView>::empty());
        while i < n
            invariant
                n == tokens@.len(),
                tv == tokens_view(tokens@),
                i <= n,
                stage is Name ==> name@ == Seq::<char>::empty(),
                parse_from(
                    tv,
                    i as int,
                    stage,
                    name@,
                    strings_view(args@),
                    pending@,
                    redirections_view(redirections@),
                ) == parse_tokens_view(tv),
            decreases n - i,
        {
            let t = &tokens[i];
            assert(tv[i as int] == t@);
            let text = text_of(t);
            match stage {
                ParseStage::Name => {
                    match text {
                        Some(w) => {
                            name = w.clone();
                            stage = ParseStage::Args;
                        },
                        None => {
                            if let Token::Redirect { .. } = t {
                                return Err(ParseError::UnexpectedLeadingOperator);
                            }
                        },
                    }
                },
                ParseStage::Args => {
                    match text {
                        Some(w) => {
                            let mut more = chars_of(w.as_str());
                            pending.append(&mut more);
                        },
                        None => {
                            flush_pending(&mut args, &mut pending);
                            if let Token::Redirect { mode, fd } = t {
                                stage = ParseStage::Target(*fd, *mode);
                            }
                        },
                    }
                },
                ParseStage::Target(fd, mode) => {
                    match text {
                        Some(w) => {
                            let r = Redirection::new(fd, w.clone(), mode);
                            proof {
                                lemma_redirections_view_push(redirections@, r);
                            }
                            redirections.push(r);
                            stage = ParseStage::Args;
                        },
                        None => {
                            if let Token::Redirect { .. } = t {
                                return Err(ParseError::MissingRedirectTarget);
                            }
                        },
                    }
                },
            }
            i = i + 1;
        }
        match stage {
            ParseStage::Name => Err(ParseError::MissingCommand),
            ParseStage::Target(_, _) => Err(ParseError::MissingRedirectTarget),
            ParseStage::Args => {
                flush_pending(&mut args, &mut pending);
                Ok(ParsedCommand { name, args, redirections })
            },
        }
    }
}

} // verus!
