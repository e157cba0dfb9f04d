//! What parsing gives on a line with no special characters: the words of the
//! line, split at spaces.

use vstd::prelude::*;

use crate::lexer::{lex_from, lex_line, LexError, LexerState};
use crate::parser::{
    flush_arg, parse_from, parse_line, parse_tokens_view, CommandView, ParseError, ParseStage,
    SyntaxError,
};
use crate::token::TokenView;

verus! {

/// A character with no special meaning to the lexer but as a separator.
pub open spec fn plain_char(c: char) -> bool {
    c != '\'' && c != '"' && c != '\\' && c != '>' && c != '\n'
}

/// Whether a line holds no quote, backslash, `>` or newline.
pub open spec fn is_plain(s: Seq<char>) -> bool {
    forall|i: int| 0 <= i < s.len() ==> plain_char(#[trigger] s[i])
}

/// The words of `s` from position `i` on, split at spaces, after `acc` and
/// with `cur` as the word under way.
pub open spec fn split_spaces_from(s: Seq<char>, i: int, cur: Seq<char>, acc: Seq<Seq<char>>) -> Seq<
    Seq<char>,
>
    decreases s.len() - i,
{
    if i < 0 || i >= s.len() {
        flush_arg(acc, cur)
    } else if s[i] == ' ' {
        split_spaces_from(s, i + 1, Seq::empty(), flush_arg(acc, cur))
    } else {
        split_spaces_from(s, i + 1, cur.push(s[i]), acc)
    }
}

/// The nonempty runs of characters of `s` between spaces.
pub open spec fn split_spaces(s: Seq<char>) -> Seq<Seq<char>> {
    split_spaces_from(s, 0, Seq::empty(), Seq::empty())
}

/// The command that a list of words makes: the first names it, the others
/// are its arguments.
pub open spec fn command_of_words(ws: Seq<Seq<char>>) -> Result<CommandView, ParseError> {
    if ws.len() == 0 {
        Err(ParseError::MissingCommand)
    } else {
        Ok(CommandView { name: ws[0], args: ws.drop_first(), redirections: Seq::empty() })
    }
}

spec fn words_so_far(stage: ParseStage, name: Seq<char>, args: Seq<Seq<char>>) -> Seq<Seq<char>> {
    if stage is Name {
        Seq::empty()
    } else {
        seq![name] + args
    }
}

/// After the tokens `toks`, the parser stands in the given state, whatever
/// tokens follow.
spec fn continues(
    toks: Seq<TokenView>,
    stage: ParseStage,
    name: Seq<char>,
    args: Seq<Seq<char>>,
) -> bool {
    forall|t2: Seq<TokenView>|
        #[trigger] parse_tokens_view(toks + t2) == parse_from(
            toks + t2,
            toks.len() as int,
            stage,
            name,
            args,
            Seq::empty(),
            Seq::empty(),
        )
}

proof fn lemma_words_step(name: Seq<char>, args: Seq<Seq<char>>, w: Seq<char>)
    ensures
        flush_arg(seq![name] + args, w) == seq![name] + flush_arg(args, w),
        (seq![name] + args)[0] == name,
        (seq![name] + args).drop_first() == args,
{
    assert((seq![name] + args).push(w) =~= seq![name] + args.push(w));
    assert((seq![name] + args).drop_first() =~= args);
}

proof fn lemma_plain_run(
    s: Seq<char>,
    i: int,
    toks: Seq<TokenView>,
    word: Seq<char>,
    stage: ParseStage,
    name: Seq<char>,
    args: Seq<Seq<char>>,
)
    requires
        is_plain(s),
        0 <= i <= s.len(),
        stage is Name || stage is Args,
        stage is Name ==> args == Seq::<Seq<char>>::empty(),
        continues(toks, stage, name, args),
    ensures
        lex_from(s, i, LexerState::Default, toks, word) is Ok,
        parse_tokens_view(lex_from(s, i, LexerState::Default, toks, word)->Ok_0)
            == command_of_words(split_spaces_from(s, i, word, words_so_far(stage, name, args))),
    decreases s.len() - i,
{
    lemma_words_step(name, args, word);
    let n = toks.len() as int;
    let acc = words_so_far(stage, name, args);
    if i == s.len() {
        if word.len() == 0 {
            assert(toks + Seq::<TokenView>::empty() =~= toks);
            assert(parse_tokens_view(toks + Seq::<TokenView>::empty()) == parse_from(
                toks,
                n,
                stage,
                name,
                args,
                Seq::empty(),
                Seq::empty(),
            ));
            assert(lex_from(s, i, LexerState::Default, toks, word) == Ok::<Seq<TokenView>, LexError>(toks));
            assert(split_spaces_from(s, i, word, acc) == acc);
            assert(parse_tokens_view(toks) == command_of_words(acc));
        } else {
            let t = toks.push(TokenView::Word(word));
            assert(toks + seq![TokenView::Word(word)] =~= t);
            assert(parse_tokens_view(toks + seq![TokenView::Word(word)]) == parse_from(
                t,
                n,
                stage,
                name,
                args,
                Seq::empty(),
                Seq::empty(),
            ));
            assert(t[n] == TokenView::Word(word));
            assert(Seq::<char>::empty() + word =~= word);
            if stage is Name {
                assert(parse_from(t, n, stage, name, args, Seq::empty(), Seq::empty())
                    == parse_from(t, n + 1, ParseStage::Args, word, args, Seq::empty(), Seq::empty()));
            } else {
                assert(parse_from(t, n, stage, name, args, Seq::empty(), Seq::empty())
                    == parse_from(t, n + 1, ParseStage::Args, name, args, word, Seq::empty()));
            }
            assert(lex_from(s, i, LexerState::Default, toks, word) == Ok::<Seq<TokenView>, LexError>(t));
            assert(split_spaces_from(s, i, word, acc) == acc.push(word));
            if stage is Name {
                assert(acc.push(word).drop_first() =~= Seq::<Seq<char>>::empty());
                assert(parse_from(t, n + 1, ParseStage::Args, word, args, Seq::empty(), Seq::empty())
                    == command_of_words(acc.push(word)));
            } else {
                lemma_words_step(name, args.push(word), word);
                assert(parse_from(t, n + 1, ParseStage::Args, name, args, word, Seq::empty())
                    == command_of_words(acc.push(word)));
            }
            assert(parse_tokens_view(t) == command_of_words(acc.push(word)));
        }
    } else if s[i] == ' ' {
        if word.len() == 0 {
            let t1 = toks.push(TokenView::Whitespace);
            assert forall|t2: Seq<TokenView>|
                #[trigger] parse_tokens_view(t1 + t2) == parse_from(
                    t1 + t2,
                    t1.len() as int,
                    stage,
                    name,
                    args,
                    Seq::empty(),
                    Seq::empty(),
                ) by {
                let t3 = seq![TokenView::Whitespace] + t2;
                assert(t1 + t2 =~= toks + t3);
                assert(parse_tokens_view(toks + t3) == parse_from(
                    toks + t3,
                    n,
                    stage,
                    name,
                    args,
                    Seq::empty(),
                    Seq::empty(),
                ));
                assert((toks + t3)[n] == TokenView::Whitespace);
            }
            lemma_plain_run(s, i + 1, t1, Seq::empty(), stage, name, args);
        } else {
            let t1 = toks.push(TokenView::Word(word)).push(TokenView::Whitespace);
            let name1 = if stage is Name {
                word
            } else {
                name
            };
            let args1 = if stage is Name {
                args
            } else {
                args.push(word)
            };
            assert forall|t2: Seq<TokenView>|
                #[trigger] parse_tokens_view(t1 + t2) == parse_from(
                    t1 + t2,
                    t1.len() as int,
                    ParseStage::Args,
                    name1,
                    args1,
                    Seq::empty(),
                    Seq::empty(),
                ) by {
                let t3 = seq![TokenView::Word(word), TokenView::Whitespace] + t2;
                assert(t1 + t2 =~= toks + t3);
                assert(parse_tokens_view(toks + t3) == parse_from(
                    toks + t3,
                    n,
                    stage,
                    name,
                    args,
                    Seq::empty(),
                    Seq::empty(),
                ));
                let u = toks + t3;
                assert(u[n] == TokenView::Word(word));
                assert(u[n + 1] == TokenView::Whitespace);
                assert(Seq::<char>::empty() + word =~= word);
                assert(t1.len() == n + 2);
                if stage is Name {
                    assert(parse_from(u, n, stage, name, args, Seq::empty(), Seq::empty())
                        == parse_from(u, n + 1, ParseStage::Args, word, args, Seq::empty(), Seq::empty()));
                    assert(parse_from(u, n + 1, ParseStage::Args, word, args, Seq::empty(), Seq::empty())
                        == parse_from(u, n + 2, ParseStage::Args, word, args, Seq::empty(), Seq::empty()));
                } else {
                    assert(parse_from(u, n, stage, name, args, Seq::empty(), Seq::empty())
                        == parse_from(u, n + 1, ParseStage::Args, name, args, word, Seq::empty()));
                    assert(parse_from(u, n + 1, ParseStage::Args, name, args, word, Seq::empty())
                        == parse_from(u, n + 2, ParseStage::Args, name, args.push(word), Seq::empty(), Seq::empty()));
                }
            }
            assert(words_so_far(ParseStage::Args, name1, args1) == flush_arg(
                words_so_far(stage, name, args),
                word,
            )) by {
                if stage is Name {
                    assert(seq![word] + args =~= Seq::<Seq<char>>::empty().push(word));
                }
            }
            lemma_plain_run(s, i + 1, t1, Seq::empty(), ParseStage::Args, name1, args1);
        }
    } else {
        assert(plain_char(s[i]));
        lemma_plain_run(s, i + 1, toks, word.push(s[i]), stage, name, args);
    }
}

/// On a line without quotes, backslashes, `>` or newlines, the command name
/// is the first of the line's space-separated words and the arguments are
/// the others, with no redirection; a line of spaces has no command.
pub proof fn lemma_plain_line_splits_on_spaces(s: Seq<char>)
    requires
        is_plain(s),
    ensures
        parse_line(s) == match command_of_words(split_spaces(s)) {
            Ok(c) => Ok::<CommandView, SyntaxError>(c),
            Err(e) => Err(SyntaxError::Parse(e)),
        },
{
    let e = Seq::<TokenView>::empty();
    assert forall|t2: Seq<TokenView>|
        #[trigger] parse_tokens_view(e + t2) == parse_from(
            e + t2,
            e.len() as int,
            ParseStage::Name,
            Seq::empty(),
            Seq::empty(),
            Seq::empty(),
            Seq::empty(),
        ) by {
        assert(e + t2 =~= t2);
    }
    lemma_plain_run(
        s,
        0,
        e,
        Seq::empty(),
        ParseStage::Name,
        Seq::empty(),
        Seq::empty(),
    );
    assert(lex_line(s) == lex_from(s, 0, LexerState::Default, e, Seq::empty()));
}

} // verus!
