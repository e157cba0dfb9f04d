//! The lexer: a character-at-a-time state machine that turns a command line
//! into tokens, honouring escapes, single and double quotes, and redirection
//! operators.

use vstd::prelude::*;

use crate::text::{chars_of, string_of};
use crate::token::{
    descriptor_named, descriptor_of, lemma_tokens_view_push, tokens_view, FileDescriptor, RedirectMode,
    Token, TokenView,
};

verus! {

/// Where the lexer stands between two characters.
#[derive(Debug, Clone, Copy, PartialEq, Eq, Structural)]
pub enum LexerState {
    Default,
    Escaped,
    SingleQuoted,
    DoubleQuoted,
    EscapedInDoubleQuote,
}

/// Why a line could not be split into tokens.
#[derive(Debug, Clone, Copy, PartialEq, Eq, Structural)]
pub enum LexError {
    UnclosedSingleQuote,
    UnclosedDoubleQuote,
    /// A backslash ends the line, outside quotes or inside double quotes.
    TrailingBackslash,
    /// Digits other than `1` or `2` stand right before `>`.
    BadDescriptor,
}

/// The sentence that describes a lexical error.
pub open spec fn lex_error_text(e: LexError) -> Seq<char> {
    match e {
        LexError::UnclosedSingleQuote => "Unclosed single quote"@,
        LexError::UnclosedDoubleQuote => "Unclosed double quote"@,
        LexError::TrailingBackslash => "Trailing backslash"@,
        LexError::BadDescriptor => "Bad file descriptor"@,
    }
}

impl LexError {
    /// A sentence describing the error.
    pub fn message(&self) -> (r: &'static str)
        ensures
            r@ == lex_error_text(*self),
    {
        match self {
            LexError::UnclosedSingleQuote => "Unclosed single quote",
            LexError::UnclosedDoubleQuote => "Unclosed double quote",
            LexError::TrailingBackslash => "Trailing backslash",
            LexError::BadDescriptor => "Bad file descriptor",
        }
    }
}

pub open spec fn is_digit(c: char) -> bool {
    '0' <= c <= '9'
}

pub open spec fn all_digits(s: Seq<char>) -> bool {
    forall|i: int| 0 <= i < s.len() ==> is_digit(#[trigger] s[i])
}

/// The tokens, with the pending word appended as a `Word` if it is not empty.
pub open spec fn flush_word(toks: Seq<TokenView>, word: Seq<char>) -> Seq<TokenView> {
    if word.len() == 0 {
        toks
    } else {
        toks.push(TokenView::Word(word))
    }
}

/// What the lexer returns when the input ends in `state`.
pub open spec fn lex_finish(state: LexerState, toks: Seq<TokenView>, word: Seq<char>) -> Result<
    Seq<TokenView>,
    LexError,
> {
    match state {
        LexerState::Default => Ok(flush_word(toks, word)),
        LexerState::Escaped => Err(LexError::TrailingBackslash),
        LexerState::SingleQuoted => Err(LexError::UnclosedSingleQuote),
        LexerState::DoubleQuoted => Err(LexError::UnclosedDoubleQuote),
        LexerState::EscapedInDoubleQuote => Err(LexError::TrailingBackslash),
    }
}

/// The lexer run on `input` from position `i`, in `state`, having emitted
/// `toks` and accumulated `word` so far.
pub open spec fn lex_from(
    input: Seq<char>,
    i: int,
    state: LexerState,
    toks: Seq<TokenView>,
    word: Seq<char>,
) -> Result<Seq<TokenView>, LexError>
    decreases input.len() - i,
{
    if i < 0 || i >= input.len() {
        lex_finish(state, toks, word)
    } else {
        let c = input[i];
        match state {
            LexerState::Escaped => lex_from(input, i + 1, LexerState::Default, toks, word.push(c)),
            LexerState::EscapedInDoubleQuote => if c == '"' || c == '\\' {
                lex_from(input, i + 1, LexerState::DoubleQuoted, toks, word.push(c))
            } else {
                lex_from(input, i + 1, LexerState::DoubleQuoted, toks, word.push('\\').push(c))
            },
            LexerState::SingleQuoted => if c == '\'' {
                lex_from(
                    input,
                    i + 1,
                    LexerState::Default,
                    toks.push(TokenView::QuotedString(word, '\'')),
                    Seq::empty(),
                )
            } else {
                lex_from(input, i + 1, LexerState::SingleQuoted, toks, word.push(c))
            },
            LexerState::DoubleQuoted => if c == '"' {
                lex_from(
                    input,
                    i + 1,
                    LexerState::Default,
                    toks.push(TokenView::QuotedString(word, '"')),
                    Seq::empty(),
                )
            } else if c == '\\' {
                lex_from(input, i + 1, LexerState::EscapedInDoubleQuote, toks, word)
            } else {
                lex_from(input, i + 1, LexerState::DoubleQuoted, toks, word.push(c))
            },
            LexerState::Default => if c == ' ' {
                lex_from(
                    input,
                    i + 1,
                    LexerState::Default,
                    flush_word(toks, word).push(TokenView::Whitespace),
                    Seq::empty(),
                )
            } else if c == '\\' {
                lex_from(input, i + 1, LexerState::Escaped, toks, word)
            } else if c == '\'' {
                lex_from(input, i + 1, LexerState::SingleQuoted, toks, word)
            } else if c == '"' {
                lex_from(input, i + 1, LexerState::DoubleQuoted, toks, word)
            } else if c == '\n' {
                lex_from(input, i + 1, LexerState::Default, toks, word)
            } else if c == '>' {
                let append = i + 1 < input.len() && input[i + 1] == '>';
                let mode = if append {
                    RedirectMode::Append
                } else {
                    RedirectMode::Overwrite
                };
                let next = if append {
                    i + 2
                } else {
                    i + 1
                };
                match descriptor_named(word) {
                    Some(fd) => lex_from(
                        input,
                        next,
                        LexerState::Default,
                        toks.push(TokenView::Redirect { mode, fd }),
                        Seq::empty(),
                    ),
                    None => if all_digits(word) {
                        Err(LexError::BadDescriptor)
                    } else {
                        lex_from(
                            input,
                            next,
                            LexerState::Default,
                            flush_word(toks, word).push(
                                TokenView::Redirect { mode, fd: FileDescriptor::Stdout },
                            ),
                            Seq::empty(),
                        )
                    },
                }
            } else {
                lex_from(input, i + 1, LexerState::Default, toks, word.push(c))
            },
        }
    }
}

/// The tokens of a whole line, or the error that stops the lexer.
pub open spec fn lex_line(input: Seq<char>) -> Result<Seq<TokenView>, LexError> {
    lex_from(input, 0, LexerState::Default, Seq::empty(), Seq::empty())
}

/// Whether an executable lexer result is the mathematical one.
pub open spec fn lexed_as(r: Result<Vec<Token>, LexError>, m: Result<Seq<TokenView>, LexError>) -> bool {
    match r {
        Ok(v) => m == Ok::<Seq<TokenView>, LexError>(tokens_view(v@)),
        Err(e) => m == Err::<Seq<TokenView>, LexError>(e),
    }
}

fn all_digits_exec(cs: &Vec<char>) -> (r: bool)
    ensures
        r == all_digits(cs@),
{
    let mut i: usize = 0;
    while i < cs.len()
        invariant
            i <= cs@.len(),
            forall|k: int| 0 <= k < i ==> is_digit(#[trigger] cs@[k]),
        decreases cs@.len() - i,
    {
        if !('0' <= cs[i] && cs[i] <= '9') {
            return false;
        }
        i = i + 1;
    }
    true
}

pub struct Lexer;

impl Lexer {
    /// Splits `input` into tokens.
    pub fn lex(input: &str) -> (r: Result<Vec<Token>, LexError>)
        ensures
            lexed_as(r, lex_line(input@)),
    {
        let chars = chars_of(input);
        let n = chars.len();
        let mut tokens: Vec<Token> = Vec::new();
        let mut state = LexerState::Default;
        let mut curr: Vec<char> = Vec::new();
        let mut i: usize = 0;
        assert(tokens_view(tokens@) =~= Seq::<TokenView>::empty());
        while i < n
            invariant
                n == chars@.len(),
                chars@ == input@,
                i <= n,
                lex_from(chars@, i as int, state, tokens_view(tokens@), curr@) == lex_line(input@),
            decreases n - i,
        {
            let ch = chars[i];
            proof {
                lemma_tokens_view_push(tokens@, Token::Whitespace);
            }
            match state {
                LexerState::Escaped => {
                    curr.push(ch);
                    state = LexerState::Default;
                    i = i + 1;
                },
                LexerState::EscapedInDoubleQuote => {
                    if ch == '"' || ch == '\\' {
                        curr.push(ch);
                    } else {
                        curr.push('\\');
                        curr.push(ch);
                    }
                    state = LexerState::DoubleQuoted;
                    i = i + 1;
                },
                LexerState::SingleQuoted => {
                    if ch == '\'' {
                        let t = Token::QuotedString(string_of(curr.as_slice()), '\'');
                        proof {
                            lemma_tokens_view_push(tokens@, t);
                        }
                        tokens.push(t);
                        curr = Vec::new();
                        state = LexerState::Default;
                    } else {
                        curr.push(ch);
                    }
                    i = i + 1;
                },
                LexerState::DoubleQuoted => {
                    if ch == '"' {
                        let t = Token::QuotedString(string_of(curr.as_slice()), '"');
                        proof {
                            lemma_tokens_view_push(tokens@, t);
                        }
                        tokens.push(t);
                        curr = Vec::new();
                        state = LexerState::Default;
                    } else if ch == '\\' {
                        state = LexerState::EscapedInDoubleQuote;
                    } else {
                        curr.push(ch);
                    }
                    i = i + 1;
                },
                LexerState::Default => {
                    if ch == ' ' {
                        Self::push_word_if_not_empty(&mut tokens, &mut curr);
                        proof {
                            lemma_tokens_view_push(tokens@, Token::Whitespace);
                        }
                        tokens.push(Token::Whitespace);
                    } else if ch == '\\' {
                        state = LexerState::Escaped;
                    } else if ch == '\'' {
                        state = LexerState::SingleQuoted;
                    } else if ch == '"' {
                        state = LexerState::DoubleQuoted;
                    } else if ch == '>' {
                        let fd = match descriptor_of(&curr) {
                            Some(fd) => {
                                curr = Vec::new();
                                fd
                            },
                            None => {
                                if all_digits_exec(&curr) {
                                    return Err(LexError::BadDescriptor);
                                }
                                Self::push_word_if_not_empty(&mut tokens, &mut curr);
                                FileDescriptor::Stdout
                            },
                        };
                        let mode = if i + 1 < n && chars[i + 1] == '>' {
                            i = i + 1;
                            RedirectMode::Append
                        } else {
                            RedirectMode::Overwrite
                        };
                        let t = Token::Redirect { mode, fd };
                        proof {
                            lemma_tokens_view_push(tokens@, t);
                        }
                        tokens.push(t);
                    } else if ch != '\n' {
                        curr.push(ch);
                    }
                    i = i + 1;
                },
            }
        }
        match state {
            LexerState::SingleQuoted => Err(LexError::UnclosedSingleQuote),
            LexerState::DoubleQuoted => Err(LexError::UnclosedDoubleQuote),
            LexerState::EscapedInDoubleQuote => Err(LexError::TrailingBackslash),
            LexerState::Escaped => Err(LexError::TrailingBackslash),
            LexerState::Default => {
                Self::push_word_if_not_empty(&mut tokens, &mut curr);
                Ok(tokens)
            },
        }
    }

    /// Emits the pending word, if any, and empties it.
    fn push_word_if_not_empty(tokens: &mut Vec<Token>, curr: &mut Vec<char>)
        ensures
            tokens_view(final(tokens)@) == flush_word(tokens_view(old(tokens)@), old(curr)@),
            final(curr)@ == Seq::<char>::empty(),
    {
        if curr.len() > 0 {
            let t = Token::Word(string_of(curr.as_slice()));
            proof {
                lemma_tokens_view_push(tokens@, t);
            }
            tokens.push(t);
            *curr = Vec::new();
        }
    }
}

} // verus!
