//! Tokens produced by the lexer, and the redirection vocabulary they carry.

use vstd::prelude::*;

use crate::text::chars_of;

verus! {

/// Which output stream a redirection applies to.
#[derive(Debug, Clone, Copy, PartialEq, Eq, Structural)]
pub enum FileDescriptor {
    Stdout,
    Stderr,
}

/// `>` truncates the target, `>>` appends to it.
#[derive(Debug, Clone, Copy, PartialEq, Eq, Structural)]
pub enum RedirectMode {
    Overwrite,
    Append,
}

/// The descriptor that a word standing right before `>` names, if any:
/// nothing, `1` or `stdout` name the standard output, `2` or `stderr` the
/// standard error.
pub open spec fn descriptor_named(s: Seq<char>) -> Option<FileDescriptor> {
    if s == Seq::<char>::empty() || s == seq!['1'] || s == seq!['s', 't', 'd', 'o', 'u', 't'] {
        Some(FileDescriptor::Stdout)
    } else if s == seq!['2'] || s == seq!['s', 't', 'd', 'e', 'r', 'r'] {
        Some(FileDescriptor::Stderr)
    } else {
        None
    }
}

/// Executable form of `descriptor_named` on a character vector.
pub fn descriptor_of(cs: &Vec<char>) -> (r: Option<FileDescriptor>)
    ensures
        r == descriptor_named(cs@),
{
    let n = cs.len();
    if n == 0 {
        assert(cs@ =~= Seq::<char>::empty());
        Some(FileDescriptor::Stdout)
    } else if n == 1 && cs[0] == '1' {
        assert(cs@ =~= seq!['1']);
        Some(FileDescriptor::Stdout)
    } else if n == 1 && cs[0] == '2' {
        assert(cs@ =~= seq!['2']);
        Some(FileDescriptor::Stderr)
    } else if n == 6 && cs[0] == 's' && cs[1] == 't' && cs[2] == 'd' {
        if cs[3] == 'o' && cs[4] == 'u' && cs[5] == 't' {
            assert(cs@ =~= seq!['s', 't', 'd', 'o', 'u', 't']);
            Some(FileDescriptor::Stdout)
        } else if cs[3] == 'e' && cs[4] == 'r' && cs[5] == 'r' {
            assert(cs@ =~= seq!['s', 't', 'd', 'e', 'r', 'r']);
            Some(FileDescriptor::Stderr)
        } else {
            None
        }
    } else {
        None
    }
}

impl FileDescriptor {
    /// Reads a descriptor name; the text itself comes back as the error when
    /// it names none.
    pub fn from_str(s: &str) -> (r: Result<FileDescriptor, String>)
        ensures
            descriptor_named(s@) matches Some(fd) ==> r == Ok::<FileDescriptor, String>(fd),
            descriptor_named(s@) is None ==> (r matches Err(e) && e@ == s@),
    {
        let cs = chars_of(s);
        match descriptor_of(&cs) {
            Some(fd) => Ok(fd),
            None => Err(s.to_owned()),
        }
    }
}

/// One output redirection of a command.
#[derive(Debug, Clone)]
pub struct Redirection {
    pub fd: FileDescriptor,
    pub target: String,
    pub mode: RedirectMode,
}

/// A redirection as a mathematical value.
pub struct RedirectionView {
    pub fd: FileDescriptor,
    pub target: Seq<char>,
    pub mode: RedirectMode,
}

impl View for Redirection {
    type V = RedirectionView;

    open spec fn view(&self) -> RedirectionView {
        RedirectionView { fd: self.fd, target: self.target@, mode: self.mode }
    }
}

impl Redirection {
    pub fn new(fd: FileDescriptor, target: String, mode: RedirectMode) -> (r: Redirection)
        ensures
            r.fd == fd,
            r.target == target,
            r.mode == mode,
    {
        Redirection { fd, target, mode }
    }

    pub fn is_stdout(&self) -> (r: bool)
        ensures
            r == (self.fd == FileDescriptor::Stdout),
    {
        self.fd == FileDescriptor::Stdout
    }

    pub fn is_stderr(&self) -> (r: bool)
        ensures
            r == (self.fd == FileDescriptor::Stderr),
    {
        self.fd == FileDescriptor::Stderr
    }

    pub fn is_append(&self) -> (r: bool)
        ensures
            r == (self.mode == RedirectMode::Append),
    {
        matches!(self.mode, RedirectMode::Append)
    }

    pub fn is_overwrite(&self) -> (r: bool)
        ensures
            r == (self.mode == RedirectMode::Overwrite),
    {
        matches!(self.mode, RedirectMode::Overwrite)
    }
}

/// A lexical token of a command line.
#[derive(Debug)]
pub enum Token {
    /// Unquoted text, with escapes already resolved.
    Word(String),
    /// A run of one space; kept so that adjacency can be told from separation.
    Whitespace,
    /// The content of a quoted section, with the quote character that opened it.
    QuotedString(String, char),
    /// A redirection operator with its mode and descriptor.
    Redirect { mode: RedirectMode, fd: FileDescriptor },
}

/// A token as a mathematical value.
pub enum TokenView {
    Word(Seq<char>),
    Whitespace,
    QuotedString(Seq<char>, char),
    Redirect { mode: RedirectMode, fd: FileDescriptor },
}

impl View for Token {
    type V = TokenView;

    open spec fn view(&self) -> TokenView {
        match self {
            Token::Word(w) => TokenView::Word(w@),
            Token::Whitespace => TokenView::Whitespace,
            Token::QuotedString(s, q) => TokenView::QuotedString(s@, *q),
            Token::Redirect { mode, fd } => TokenView::Redirect { mode: *mode, fd: *fd },
        }
    }
}

/// The views of a sequence of tokens.
pub open spec fn tokens_view(ts: Seq<Token>) -> Seq<TokenView> {
    ts.map_values(|t: Token| t@)
}

pub proof fn lemma_tokens_view_push(ts: Seq<Token>, t: Token)
    ensures
        tokens_view(ts.push(t)) == tokens_view(ts).push(t@),
{
    assert(tokens_view(ts.push(t)) =~= tokens_view(ts).push(t@));
}

} // verus!
