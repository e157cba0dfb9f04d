//! The builtin commands and the registry that maps their names to them.

use vstd::prelude::*;

use crate::completion::{names_with_prefix, with_prefix};
use crate::parser::strings_view;
use crate::text::{chars_equal, chars_of, concat, string_of};

verus! {

/// A command implemented inside the interpreter.
pub trait CommandHandler {
    /// The name under which the command is invoked.
    spec fn spec_name(&self) -> Seq<char>;

    /// A one-line description of the command and its arguments.
    spec fn spec_help(&self) -> Seq<char>;

    fn name(&self) -> (r: &'static str)
        ensures
            r@ == self.spec_name(),
    ;

    fn help(&self) -> (r: &'static str)
        ensures
            r@ == self.spec_help(),
    ;
}

/// Changes the working directory.
pub struct CdHandler;

/// Prints its arguments.
pub struct EchoHandler;

/// Ends the interpreter.
pub struct ExitHandler;

/// Describes the builtins.
pub struct HelpHandler;

/// Prints the working directory.
pub struct PwdHandler;

/// Tells how a name would be run.
pub struct TypeHandler;

impl CommandHandler for CdHandler {
    open spec fn spec_name(&self) -> Seq<char> {
        "cd"@
    }

    open spec fn spec_help(&self) -> Seq<char> {
        "cd [directory] - Change the current directory"@
    }

    fn name(&self) -> (r: &'static str) {
        "cd"
    }

    fn help(&self) -> (r: &'static str) {
        "cd [directory] - Change the current directory"
    }
}

impl CommandHandler for EchoHandler {
    open spec fn spec_name(&self) -> Seq<char> {
        "echo"@
    }

    open spec fn spec_help(&self) -> Seq<char> {
        "echo [text] - Print text to stdout"@
    }

    fn name(&self) -> (r: &'static str) {
        "echo"
    }

    fn help(&self) -> (r: &'static str) {
        "echo [text] - Print text to stdout"
    }
}

impl CommandHandler for ExitHandler {
    open spec fn spec_name(&self) -> Seq<char> {
        "exit"@
    }

    open spec fn spec_help(&self) -> Seq<char> {
        "exit [code] - Exit the shell with optional exit code"@
    }

    fn name(&self) -> (r: &'static str) {
        "exit"
    }

    fn help(&self) -> (r: &'static str) {
        "exit [code] - Exit the shell with optional exit code"
    }
}

impl CommandHandler for HelpHandler {
    open spec fn spec_name(&self) -> Seq<char> {
        "help"@
    }

    open spec fn spec_help(&self) -> Seq<char> {
        "help [command] - Show help for all commands or a specific command"@
    }

    fn name(&self) -> (r: &'static str) {
        "help"
    }

    fn help(&self) -> (r: &'static str) {
        "help [command] - Show help for all commands or a specific command"
    }
}

impl CommandHandler for PwdHandler {
    open spec fn spec_name(&self) -> Seq<char> {
        "pwd"@
    }

    open spec fn spec_help(&self) -> Seq<char> {
        "pwd - Print the current working directory"@
    }

    fn name(&self) -> (r: &'static str) {
        "pwd"
    }

    fn help(&self) -> (r: &'static str) {
        "pwd - Print the current working directory"
    }
}

impl CommandHandler for TypeHandler {
    open spec fn spec_name(&self) -> Seq<char> {
        "type"@
    }

    open spec fn spec_help(&self) -> Seq<char> {
        "type [command] - Show the type of a command"@
    }

    fn name(&self) -> (r: &'static str) {
        "type"
    }

    fn help(&self) -> (r: &'static str) {
        "type [command] - Show the type of a command"
    }
}

/// One of the builtin commands.
#[derive(Debug, Clone, Copy, PartialEq, Eq, Structural)]
pub enum Builtin {
    Cd,
    Echo,
    Exit,
    Help,
    Pwd,
    Type,
}

impl CommandHandler for Builtin {
    open spec fn spec_name(&self) -> Seq<char> {
        match self {
            Builtin::Cd => CdHandler.spec_name(),
            Builtin::Echo => EchoHandler.spec_name(),
            Builtin::Exit => ExitHandler.spec_name(),
            Builtin::Help => HelpHandler.spec_name(),
            Builtin::Pwd => PwdHandler.spec_name(),
            Builtin::Type => TypeHandler.spec_name(),
        }
    }

    open spec fn spec_help(&self) -> Seq<char> {
        match self {
            Builtin::Cd => CdHandler.spec_help(),
            Builtin::Echo => EchoHandler.spec_help(),
            Builtin::Exit => ExitHandler.spec_help(),
            Builtin::Help => HelpHandler.spec_help(),
            Builtin::Pwd => PwdHandler.spec_help(),
            Builtin::Type => TypeHandler.spec_help(),
        }
    }

    fn name(&self) -> (r: &'static str) {
        match self {
            Builtin::Cd => CdHandler.name(),
            Builtin::Echo => EchoHandler.name(),
            Builtin::Exit => ExitHandler.name(),
            Builtin::Help => HelpHandler.name(),
            Builtin::Pwd => PwdHandler.name(),
            Builtin::Type => TypeHandler.name(),
        }
    }

    fn help(&self) -> (r: &'static str) {
        match self {
            Builtin::Cd => CdHandler.help(),
            Builtin::Echo => EchoHandler.help(),
            Builtin::Exit => ExitHandler.help(),
            Builtin::Help => HelpHandler.help(),
            Builtin::Pwd => PwdHandler.help(),
            Builtin::Type => TypeHandler.help(),
        }
    }
}

/// Whether no two builtins of `hs` share a name.
pub open spec fn names_unique(hs: Seq<Builtin>) -> bool {
    forall|i: int, j: int|
        0 <= i < j < hs.len() ==> (#[trigger] hs[i]).spec_name() != (#[trigger] hs[j]).spec_name()
}

/// The names of `hs`, in order.
pub open spec fn names_of(hs: Seq<Builtin>) -> Seq<Seq<char>> {
    hs.map_values(|h: Builtin| h.spec_name())
}

/// The builtins, each under its own name.
pub struct CommandRegistry {
    handlers: Vec<Builtin>,
}

impl View for CommandRegistry {
    type V = Seq<Builtin>;

    closed spec fn view(&self) -> Seq<Builtin> {
        self.handlers@
    }
}

impl CommandRegistry {
    /// The registry's invariant: one builtin per name.
    pub open spec fn wf(&self) -> bool {
        names_unique(self@)
    }

    /// The registry of all builtins: exit, echo, pwd, cd, type and help.
    pub fn new() -> (r: CommandRegistry)
        ensures
            r.wf(),
            r@ == seq![
                Builtin::Exit,
                Builtin::Echo,
                Builtin::Pwd,
                Builtin::Cd,
                Builtin::Type,
                Builtin::Help,
            ],
    {
        proof {
            reveal_strlit("exit");
            reveal_strlit("echo");
            reveal_strlit("pwd");
            reveal_strlit("cd");
            reveal_strlit("type");
            reveal_strlit("help");
            assert("exit"@[1] != "echo"@[1]);
            assert("exit"@[0] != "pwd"@[0] && "exit"@[0] != "cd"@[0] && "exit"@[0] != "type"@[0]
                && "exit"@[0] != "help"@[0]);
            assert("pwd"@[0] != "cd"@[0] && "pwd"@[0] != "type"@[0] && "pwd"@[0] != "help"@[0]);
            assert("cd"@[0] != "type"@[0] && "cd"@[0] != "help"@[0] && "type"@[0] != "help"@[0]);
        }
        let mut registry = CommandRegistry::empty();
        registry.register(Builtin::Exit);
        registry.register(Builtin::Echo);
        assert(registry@ =~= seq![Builtin::Exit, Builtin::Echo]);
        registry.register(Builtin::Pwd);
        assert(registry@ =~= seq![Builtin::Exit, Builtin::Echo, Builtin::Pwd]);
        registry.register(Builtin::Cd);
        assert(registry@ =~= seq![Builtin::Exit, Builtin::Echo, Builtin::Pwd, Builtin::Cd]);
        registry.register(Builtin::Type);
        assert(registry@ =~= seq![
            Builtin::Exit,
            Builtin::Echo,
            Builtin::Pwd,
            Builtin::Cd,
            Builtin::Type,
        ]);
        registry.register(Builtin::Help);
        assert(registry@ =~= seq![
            Builtin::Exit,
            Builtin::Echo,
            Builtin::Pwd,
            Builtin::Cd,
            Builtin::Type,
            Builtin::Help,
        ]);
        registry
    }

    /// A registry without builtins.
    pub fn empty() -> (r: CommandRegistry)
        ensures
            r.wf(),
            r@ == Seq::<Builtin>::empty(),
    {
        CommandRegistry { handlers: Vec::new() }
    }

    /// Adds `handler` under its name, in place of the builtin that had it.
    pub fn register(&mut self, handler: Builtin)
        requires
            old(self).wf(),
        ensures
            final(self).wf(),
            (exists|i: int|
                0 <= i < old(self)@.len() && (#[trigger] old(self)@[i]).spec_name()
                    == handler.spec_name()) ==> exists|i: int|
                0 <= i < old(self)@.len() && (#[trigger] old(self)@[i]).spec_name()
                    == handler.spec_name() && final(self)@ == old(self)@.update(i, handler),
            (forall|i: int|
                0 <= i < old(self)@.len() ==> (#[trigger] old(self)@[i]).spec_name()
                    != handler.spec_name()) ==> final(self)@ == old(self)@.push(handler),
    {
        let name = chars_of(handler.name());
        let mut i: usize = 0;
        while i < self.handlers.len()
            invariant
                name@ == handler.spec_name(),
                self.handlers@ == old(self).handlers@,
                names_unique(self.handlers@),
                i <= self.handlers@.len(),
                forall|k: int|
                    0 <= k < i ==> (#[trigger] self.handlers@[k]).spec_name() != handler.spec_name(),
            decreases self.handlers@.len() - i,
        {
            let other = chars_of(self.handlers[i].name());
            if chars_equal(&other, &name) {
                let ghost before = self.handlers@;
                self.handlers.set(i, handler);
                assert(forall|k: int|
                    0 <= k < before.len() ==> (#[trigger] self.handlers@[k]).spec_name()
                        == before[k].spec_name());
                return;
            }
            i = i + 1;
        }
        let ghost before = self.handlers@;
        self.handlers.push(handler);
        assert(forall|k: int| 0 <= k < before.len() ==> #[trigger] self.handlers@[k] == before[k]);
    }

    /// The builtin registered under `name`.
    pub fn get(&self, name: &str) -> (r: Option<Builtin>)
        requires
            self.wf(),
        ensures
            r matches Some(h) ==> self@.contains(h) && h.spec_name() == name@,
            r is None ==> forall|i: int|
                0 <= i < self@.len() ==> (#[trigger] self@[i]).spec_name() != name@,
    {
        let wanted = chars_of(name);
        let mut i: usize = 0;
        while i < self.handlers.len()
            invariant
                wanted@ == name@,
                i <= self.handlers@.len(),
                forall|k: int| 0 <= k < i ==> (#[trigger] self.handlers@[k]).spec_name() != name@,
            decreases self.handlers@.len() - i,
        {
            let h = self.handlers[i];
            let other = chars_of(h.name());
            if chars_equal(&other, &wanted) {
                assert(self@[i as int] == h);
                return Some(h);
            }
            i = i + 1;
        }
        None
    }

    /// The names of the builtins, in the order of registration.
    pub fn list_commands(&self) -> (r: Vec<String>)
        ensures
            strings_view(r@) == names_of(self@),
    {
        let mut r: Vec<String> = Vec::new();
        let mut i: usize = 0;
        while i < self.handlers.len()
            invariant
                i <= self.handlers@.len(),
                strings_view(r@) == names_of(self.handlers@.take(i as int)),
            decreases self.handlers@.len() - i,
        {
            let s = self.handlers[i].name().to_owned();
            proof {
                assert(strings_view(r@.push(s)) =~= strings_view(r@).push(s@));
                assert(names_of(self.handlers@.take(i + 1)) =~= names_of(
                    self.handlers@.take(i as int),
                ).push(self.handlers@[i as int].spec_name()));
            }
            r.push(s);
            i = i + 1;
        }
        assert(self.handlers@.take(i as int) =~= self.handlers@);
        r
    }

    /// The names of the builtins that start with `prefix`, in the order of
    /// registration.
    pub fn find_command_starting_with(&self, prefix: &str) -> (r: Vec<String>)
        ensures
            strings_view(r@) == with_prefix(names_of(self@), prefix@),
    {
        names_with_prefix(&self.list_commands(), prefix)
    }
}

/// What a builtin writes: `out` on its standard output, `err` on its
/// standard error.
pub struct Reply {
    pub out: String,
    pub err: String,
}

impl Reply {
    fn out(text: String) -> (r: Reply)
        ensures
            r.out@ == text@,
            r.err@ == Seq::<char>::empty(),
    {
        Reply { out: text, err: String::new() }
    }

    fn err(text: String) -> (r: Reply)
        ensures
            r.out@ == Seq::<char>::empty(),
            r.err@ == text@,
    {
        Reply { out: String::new(), err: text }
    }
}

/// The texts of `s` separated by single spaces.
pub open spec fn join_spaced(s: Seq<Seq<char>>) -> Seq<char>
    decreases s.len(),
{
    if s.len() == 0 {
        Seq::empty()
    } else if s.len() == 1 {
        s[0]
    } else {
        join_spaced(s.drop_last()) + seq![' '] + s.last()
    }
}

impl EchoHandler {
    /// What `echo` prints: its arguments separated by spaces, then a newline.
    pub fn output(args: &Vec<String>) -> (r: Reply)
        ensures
            r.out@ == join_spaced(strings_view(args@)).push('\n'),
            r.err@ == Seq::<char>::empty(),
    {
        let ghost sv = strings_view(args@);
        let mut text: Vec<char> = Vec::new();
        let mut i: usize = 0;
        while i < args.len()
            invariant
                sv == strings_view(args@),
                i <= args@.len(),
                text@ == join_spaced(sv.take(i as int)),
            decreases args@.len() - i,
        {
            let ghost before = text@;
            if i > 0 {
                text.push(' ');
            }
            let mut word = chars_of(args[i].as_str());
            text.append(&mut word);
            proof {
                let t = sv.take(i + 1);
                assert(t.drop_last() =~= sv.take(i as int));
                if i == 0 {
                    assert(text@ =~= t[0]);
                } else {
                    assert(text@ =~= join_spaced(t.drop_last()) + seq![' '] + t.last());
                }
            }
            i = i + 1;
        }
        assert(sv.take(i as int) =~= sv);
        text.push('\n');
        Reply::out(string_of(text.as_slice()))
    }
}

/// The value of a run of decimal digits.
pub open spec fn digits_value(s: Seq<char>) -> int
    decreases s.len(),
{
    if s.len() == 0 {
        0
    } else {
        10 * digits_value(s.drop_last()) + (s.last() as int - '0' as int)
    }
}

pub open spec fn is_decimal_digits(s: Seq<char>) -> bool {
    &&& s.len() > 0
    &&& forall|i: int| 0 <= i < s.len() ==> '0' <= #[trigger] s[i] <= '9'
}

/// A decimal integer as `i32`'s `FromStr` reads it: an optional `+` or `-`,
/// then one or more ASCII digits, with a value that fits.
pub open spec fn decimal_i32(s: Seq<char>) -> Option<i32> {
    let negative = s.len() > 0 && s[0] == '-';
    let signed = s.len() > 0 && (s[0] == '-' || s[0] == '+');
    let digits = if signed {
        s.drop_first()
    } else {
        s
    };
    let v = if negative {
        -digits_value(digits)
    } else {
        digits_value(digits)
    };
    if is_decimal_digits(digits) && i32::MIN <= v <= i32::MAX {
        Some(v as i32)
    } else {
        None
    }
}

/// Relies on `str::parse::<i32>`: an optional sign and ASCII digits whose
/// value fits in `i32` give that value; anything else is an error.
#[verifier::external_body]
fn parse_i32(s: &str) -> (r: Option<i32>)
    ensures
        r == decimal_i32(s@),
{
    s.parse::<i32>().ok()
}

impl ExitHandler {
    /// The status that `exit` ends the process with: its first argument read
    /// as a decimal integer, or 0 when there is none or it is not one.
    pub fn exit_code(args: &Vec<String>) -> (r: i32)
        ensures
            args@.len() == 0 ==> r == 0,
            args@.len() > 0 ==> r == match decimal_i32(args@[0]@) {
                Some(v) => v,
                None => 0,
            },
    {
        if args.len() == 0 {
            0
        } else {
            match parse_i32(args[0].as_str()) {
                Some(v) => v,
                None => 0,
            }
        }
    }
}

/// The lines that list the builtins of `hs`, each indented by two spaces.
pub open spec fn help_lines(hs: Seq<Builtin>) -> Seq<char>
    decreases hs.len(),
{
    if hs.len() == 0 {
        Seq::empty()
    } else {
        help_lines(hs.drop_last()) + "  "@ + hs.last().spec_help() + "\n"@
    }
}

impl HelpHandler {
    /// What `help` prints: the description of the builtin named by the first
    /// argument, or of every builtin when there is no argument.
    pub fn output(args: &Vec<String>, registry: &CommandRegistry) -> (r: Reply)
        requires
            registry.wf(),
        ensures
            args@.len() == 0 ==> r.out@ == "Available commands:\n"@ + help_lines(registry@)
                && r.err@ == Seq::<char>::empty(),
            args@.len() > 0 && (exists|i: int|
                0 <= i < registry@.len() && (#[trigger] registry@[i]).spec_name() == args@[0]@)
                ==> exists|i: int|
                0 <= i < registry@.len() && (#[trigger] registry@[i]).spec_name() == args@[0]@
                    && r.out@ == registry@[i].spec_help() + "\n"@ && r.err@ == Seq::<
                    char,
                >::empty(),
            args@.len() > 0 && (forall|i: int|
                0 <= i < registry@.len() ==> (#[trigger] registry@[i]).spec_name() != args@[0]@)
                ==> r.out@ == Seq::<char>::empty() && r.err@ == "Unknown command: "@ + args@[0]@
                + "\n"@,
    {
        if args.len() > 0 {
            match registry.get(args[0].as_str()) {
                Some(h) => {
                    let ghost i = registry@.index_of(h);
                    proof {
                        assert(registry@[i] == h);
                        assert forall|j: int|
                            0 <= j < registry@.len() && (#[trigger] registry@[j]).spec_name()
                                == args@[0]@ implies registry@[j] == h by {
                            if j != i {
                                if j < i {
                                    assert(registry@[j].spec_name() != registry@[i].spec_name());
                                } else {
                                    assert(registry@[i].spec_name() != registry@[j].spec_name());
                                }
                            }
                        }
                    }
                    Reply::out(concat(h.help(), "\n"))
                },
                None => {
                    let text = concat(concat("Unknown command: ", args[0].as_str()).as_str(), "\n");
                    Reply::err(text)
                },
            }
        } else {
            let mut text = chars_of("Available commands:\n");
            let mut i: usize = 0;
            while i < registry.handlers.len()
                invariant
                    i <= registry@.len(),
                    text@ == "Available commands:\n"@ + help_lines(registry@.take(i as int)),
                decreases registry@.len() - i,
            {
                let mut indent = chars_of("  ");
                let mut line = chars_of(registry.handlers[i].help());
                let mut newline = chars_of("\n");
                text.append(&mut indent);
                text.append(&mut line);
                text.append(&mut newline);
                proof {
                    let t = registry@.take(i + 1);
                    assert(t.drop_last() =~= registry@.take(i as int));
                    assert(text@ =~= "Available commands:\n"@ + help_lines(t));
                }
                i = i + 1;
            }
            assert(registry@.take(i as int) =~= registry@);
            Reply::out(string_of(text.as_slice()))
        }
    }
}

/// What `type` can tell without searching the path.
pub enum TypeAnswer {
    /// The answer is known.
    Known(Reply),
    /// The name is not a builtin: search the executables for it.
    Search(String),
}

impl TypeHandler {
    /// `type` on its arguments: a usage error unless there is exactly one,
    /// then whether it names a builtin.
    pub fn describe(args: &Vec<String>, registry: &CommandRegistry) -> (r: TypeAnswer)
        requires
            registry.wf(),
        ensures
            args@.len() != 1 ==> (r matches TypeAnswer::Known(reply) && reply.out@ == Seq::<
                char,
            >::empty() && reply.err@ == "type takes exactly one argument\n"@),
            args@.len() == 1 && (exists|i: int|
                0 <= i < registry@.len() && (#[trigger] registry@[i]).spec_name() == args@[0]@)
                ==> (r matches TypeAnswer::Known(reply) && reply.out@ == args@[0]@
                + " is a shell builtin\n"@ && reply.err@ == Seq::<char>::empty()),
            args@.len() == 1 && (forall|i: int|
                0 <= i < registry@.len() ==> (#[trigger] registry@[i]).spec_name() != args@[0]@)
                ==> (r matches TypeAnswer::Search(name) && name@ == args@[0]@),
    {
        if args.len() != 1 {
            return TypeAnswer::Known(
                Reply::err("type takes exactly one argument\n".to_owned()),
            );
        }
        match registry.get(args[0].as_str()) {
            Some(_) => {
                let text = concat(args[0].as_str(), " is a shell builtin\n");
                TypeAnswer::Known(Reply::out(text))
            },
            None => TypeAnswer::Search(args[0].clone()),
        }
    }

    /// `type` on a name that is not a builtin, once the executables were
    /// searched: where it was found, or that it was not.
    pub fn located(name: &str, path: Option<String>) -> (r: Reply)
        ensures
            path matches Some(p) ==> r.out@ == name@ + " is "@ + p@ + "\n"@ && r.err@ == Seq::<
                char,
            >::empty(),
            path is None ==> r.out@ == Seq::<char>::empty() && r.err@ == name@ + ": not found\n"@,
    {
        match path {
            Some(p) => {
                let head = concat(name, " is ");
                let line = concat(concat(head.as_str(), p.as_str()).as_str(), "\n");
                Reply::out(line)
            },
            None => Reply::err(concat(name, ": not found\n")),
        }
    }
}

/// Where `cd` goes, before the directory is checked.
pub enum CdPlan {
    /// More than one argument was given.
    TooManyArguments,
    /// Go to `path`: a `~` at its start stands for the home directory, and
    /// a relative path is taken from the working directory. `shown` is the
    /// directory as the user gave it, for messages.
    Go { shown: String, path: String },
}

impl CdHandler {
    /// The directory that `cd` aims at: the home directory (or `/` when it is
    /// unknown) without an argument, else the argument, with a leading `~`
    /// replaced by the home directory (or `/`).
    pub fn plan(args: &Vec<String>, home: Option<String>) -> (r: CdPlan)
        ensures
            args@.len() > 1 ==> r is TooManyArguments,
            args@.len() <= 1 ==> (r matches CdPlan::Go { shown, path } && {
                let h = match home {
                    Some(h) => h@,
                    None => "/"@,
                };
                let target = if args@.len() == 0 {
                    h
                } else {
                    args@[0]@
                };
                &&& shown@ == target
                &&& path@ == if target.len() > 0 && target[0] == '~' {
                    h + target.drop_first()
                } else {
                    target
                }
            }),
    {
        if args.len() > 1 {
            return CdPlan::TooManyArguments;
        }
        let h = match home {
            Some(h) => h,
            None => "/".to_owned(),
        };
        let target = if args.len() == 0 {
            h.clone()
        } else {
            args[0].clone()
        };
        let cs = chars_of(target.as_str());
        let path = if cs.len() > 0 && cs[0] == '~' {
            let mut p = chars_of(h.as_str());
            let mut i: usize = 1;
            while i < cs.len()
                invariant
                    1 <= i <= cs@.len(),
                    p@ == h@ + cs@.subrange(1, i as int),
                decreases cs@.len() - i,
            {
                p.push(cs[i]);
                i = i + 1;
                assert(p@ =~= h@ + cs@.subrange(1, i as int));
            }
            assert(cs@.subrange(1, i as int) =~= cs@.drop_first());
            string_of(p.as_slice())
        } else {
            target.clone()
        };
        CdPlan::Go { shown: target, path }
    }
}

/// What is printed when a name is neither a builtin nor an executable.
pub fn not_found_message(name: &str) -> (r: String)
    ensures
        r@ == name@ + ": command not found"@,
{
    concat(name, ": command not found")
}

} // verus!
