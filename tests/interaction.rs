use minishell::commands::{
    not_found_message, Builtin, CdHandler, CdPlan, CommandHandler, CommandRegistry, EchoHandler,
    ExitHandler, HelpHandler, TypeAnswer, TypeHandler,
};
use minishell::completion::{completion_candidates, find_longest_common_prefix, names_with_prefix};
use minishell::editor::{KeyAction, LineEditor, TabOutcome};
use minishell::order::sorted_unique;
use minishell::parser::Parser;
use minishell::text::is_blank;

fn strings(v: &[&str]) -> Vec<String> {
    v.iter().map(|s| s.to_string()).collect()
}

fn type_in(editor: &mut LineEditor, text: &str) {
    for b in text.bytes() {
        editor.key(b);
    }
}

fn echo_exit() -> CommandRegistry {
    let mut r = CommandRegistry::empty();
    r.register(Builtin::Echo);
    r.register(Builtin::Exit);
    r
}

fn candidates_for(editor: &LineEditor, registry: &CommandRegistry) -> Vec<String> {
    let prefix = editor.completion_prefix().unwrap();
    completion_candidates(&prefix, &registry.find_command_starting_with(&prefix), &Vec::new())
}

#[test]
fn double_tab_lists_candidates() {
    let registry = echo_exit();
    let mut editor = LineEditor::new();
    type_in(&mut editor, "e");
    assert!(matches!(editor.key(b'\t'), KeyAction::Complete));
    let cands = candidates_for(&editor, &registry);
    assert_eq!(cands, strings(&["echo", "exit"]));

    let first = editor.tab(&cands);
    assert_eq!(first, TabOutcome { rewritten: false, bell: true, listed: false });
    assert_eq!(editor.text(), "e");
    assert_eq!(editor.pending, Some(vec!['e']));

    let second = editor.tab(&cands);
    assert_eq!(second, TabOutcome { rewritten: false, bell: false, listed: true });
    assert_eq!(editor.text(), "e");
    assert_eq!(editor.pending, None);
    assert_eq!(cands.join("  "), "echo  exit");
}

#[test]
fn single_candidate_completes_with_a_space() {
    let registry = echo_exit();
    let mut editor = LineEditor::new();
    type_in(&mut editor, "ex");
    let cands = candidates_for(&editor, &registry);
    let out = editor.tab(&cands);
    assert_eq!(out, TabOutcome { rewritten: true, bell: false, listed: false });
    assert_eq!(editor.text(), "exit ");
    assert_eq!(editor.pending, None);
}

#[test]
fn no_candidate_rings_the_bell() {
    let registry = echo_exit();
    let mut editor = LineEditor::new();
    type_in(&mut editor, "zz");
    let cands = candidates_for(&editor, &registry);
    assert!(cands.is_empty());
    let out = editor.tab(&cands);
    assert_eq!(out, TabOutcome { rewritten: false, bell: true, listed: false });
    assert_eq!(editor.text(), "zz");
}

#[test]
fn tab_extends_to_common_prefix_first() {
    let mut editor = LineEditor::new();
    type_in(&mut editor, "fo");
    let cands = completion_candidates("fo", &Vec::new(), &strings(&["foobar", "foobaz", "foo", "foobar"]));
    assert_eq!(cands, strings(&["foo", "foobar", "foobaz"]));
    let out = editor.tab(&cands);
    assert_eq!(out, TabOutcome { rewritten: true, bell: true, listed: false });
    assert_eq!(editor.text(), "foo");
    let out = editor.tab(&cands);
    assert_eq!(out, TabOutcome { rewritten: false, bell: false, listed: true });
}

#[test]
fn other_key_between_tabs_resets_the_mark() {
    let registry = echo_exit();
    let mut editor = LineEditor::new();
    type_in(&mut editor, "e");
    let cands = candidates_for(&editor, &registry);
    editor.tab(&cands);
    type_in(&mut editor, "x");
    assert_eq!(editor.pending, None);
    editor.key(127);
    let out = editor.tab(&cands);
    assert!(out.bell && !out.listed);
}

#[test]
fn tab_after_second_word_does_nothing() {
    let mut editor = LineEditor::new();
    type_in(&mut editor, "echo a");
    assert_eq!(editor.completion_prefix(), None);
    let out = editor.tab(&strings(&["echo", "exit"]));
    assert_eq!(out, TabOutcome { rewritten: false, bell: false, listed: false });
    assert_eq!(editor.text(), "echo a");
}

#[test]
fn blank_buffer_completes_from_nothing() {
    let editor = LineEditor::new();
    assert_eq!(editor.completion_prefix(), Some(String::new()));
    let mut editor = LineEditor::new();
    type_in(&mut editor, "  ec ");
    assert_eq!(editor.completion_prefix(), Some("ec".to_string()));
}

#[test]
fn keys_edit_the_buffer() {
    let mut editor = LineEditor::new();
    assert!(matches!(editor.key(b'h'), KeyAction::Echo('h')));
    assert!(matches!(editor.key(b'i'), KeyAction::Echo('i')));
    assert!(matches!(editor.key(27), KeyAction::Ignore));
    assert!(matches!(editor.key(127), KeyAction::Erase));
    assert!(matches!(editor.key(8), KeyAction::Erase));
    assert!(matches!(editor.key(8), KeyAction::Ignore));
    type_in(&mut editor, "ls");
    match editor.key(b'\r') {
        KeyAction::Submit(line) => assert_eq!(line, "ls"),
        _ => panic!("expected a submitted line"),
    }
    assert_eq!(editor.text(), "");
}

#[test]
fn longest_common_prefix_cases() {
    assert_eq!(find_longest_common_prefix(&Vec::new()), "");
    assert_eq!(find_longest_common_prefix(&strings(&["abc"])), "abc");
    assert_eq!(find_longest_common_prefix(&strings(&["echo", "exit"])), "e");
    assert_eq!(find_longest_common_prefix(&strings(&["abc", "abd", "ab"])), "ab");
    assert_eq!(find_longest_common_prefix(&strings(&["x", "y"])), "");
}

#[test]
fn sorting_removes_repeats() {
    assert_eq!(
        sorted_unique(&strings(&["pwd", "cd", "exit", "cd", "echo", "Z"])),
        strings(&["Z", "cd", "echo", "exit", "pwd"])
    );
    assert!(sorted_unique(&Vec::new()).is_empty());
}

#[test]
fn prefix_filter_keeps_order() {
    assert_eq!(
        names_with_prefix(&strings(&["tar", "top", "ls", "tee"]), "t"),
        strings(&["tar", "top", "tee"])
    );
    assert_eq!(names_with_prefix(&strings(&["a", "b"]), "").len(), 2);
}

#[test]
fn registry_lookups() {
    let r = CommandRegistry::new();
    assert_eq!(r.list_commands(), strings(&["exit", "echo", "pwd", "cd", "type", "help"]));
    assert_eq!(r.get("cd"), Some(Builtin::Cd));
    assert_eq!(r.get("CD"), None);
    assert_eq!(r.get("fooxyz"), None);
    let mut found = r.find_command_starting_with("e");
    found.sort();
    assert_eq!(found, strings(&["echo", "exit"]));
    assert_eq!(Builtin::Help.name(), "help");
    assert_eq!(Builtin::Pwd.help(), "pwd - Print the current working directory");
}

#[test]
fn registering_twice_keeps_one_entry() {
    let mut r = CommandRegistry::empty();
    r.register(Builtin::Echo);
    r.register(Builtin::Echo);
    assert_eq!(r.list_commands(), strings(&["echo"]));
}

#[test]
fn unknown_command_message() {
    let r = CommandRegistry::new();
    let c = Parser::parse("fooxyz").unwrap();
    assert_eq!(r.get(&c.name), None);
    assert_eq!(not_found_message(&c.name), "fooxyz: command not found");
}

#[test]
fn echo_joins_arguments() {
    let reply = EchoHandler::output(&strings(&["hi"]));
    assert_eq!(reply.out, "hi\n");
    assert_eq!(reply.err, "");
    assert_eq!(EchoHandler::output(&strings(&["a b", "c"])).out, "a b c\n");
    assert_eq!(EchoHandler::output(&Vec::new()).out, "\n");
}

#[test]
fn exit_code_from_first_argument() {
    assert_eq!(ExitHandler::exit_code(&Vec::new()), 0);
    assert_eq!(ExitHandler::exit_code(&strings(&["42"])), 42);
    assert_eq!(ExitHandler::exit_code(&strings(&["-7"])), -7);
    assert_eq!(ExitHandler::exit_code(&strings(&["+3"])), 3);
    assert_eq!(ExitHandler::exit_code(&strings(&["abc"])), 0);
    assert_eq!(ExitHandler::exit_code(&strings(&["99999999999"])), 0);
}

#[test]
fn help_texts() {
    let r = CommandRegistry::new();
    let one = HelpHandler::output(&strings(&["cd"]), &r);
    assert_eq!(one.out, "cd [directory] - Change the current directory\n");
    let unknown = HelpHandler::output(&strings(&["nope"]), &r);
    assert_eq!(unknown.out, "");
    assert_eq!(unknown.err, "Unknown command: nope\n");
    let all = HelpHandler::output(&Vec::new(), &echo_exit());
    assert_eq!(
        all.out,
        "Available commands:\n  echo [text] - Print text to stdout\n  exit [code] - Exit the shell with optional exit code\n"
    );
}

#[test]
fn type_answers() {
    let r = CommandRegistry::new();
    match TypeHandler::describe(&strings(&["echo"]), &r) {
        TypeAnswer::Known(reply) => assert_eq!(reply.out, "echo is a shell builtin\n"),
        _ => panic!("echo is a builtin"),
    }
    match TypeHandler::describe(&Vec::new(), &r) {
        TypeAnswer::Known(reply) => assert_eq!(reply.err, "type takes exactly one argument\n"),
        _ => panic!("usage error expected"),
    }
    match TypeHandler::describe(&strings(&["ls"]), &r) {
        TypeAnswer::Search(name) => assert_eq!(name, "ls"),
        _ => panic!("ls is not a builtin"),
    }
    assert_eq!(TypeHandler::located("ls", Some("/bin/ls".to_string())).out, "ls is /bin/ls\n");
    assert_eq!(TypeHandler::located("zz", None).err, "zz: not found\n");
}

#[test]
fn cd_destinations() {
    let home = Some("/home/u".to_string());
    assert!(matches!(CdHandler::plan(&strings(&["a", "b"]), home.clone()), CdPlan::TooManyArguments));
    match CdHandler::plan(&Vec::new(), home.clone()) {
        CdPlan::Go { shown, path } => {
            assert_eq!(shown, "/home/u");
            assert_eq!(path, "/home/u");
        }
        _ => panic!(),
    }
    match CdHandler::plan(&strings(&["~/src"]), home.clone()) {
        CdPlan::Go { shown, path } => {
            assert_eq!(shown, "~/src");
            assert_eq!(path, "/home/u/src");
        }
        _ => panic!(),
    }
    match CdHandler::plan(&strings(&["~"]), None) {
        CdPlan::Go { path, .. } => assert_eq!(path, "/"),
        _ => panic!(),
    }
    match CdHandler::plan(&strings(&["rel/dir"]), home) {
        CdPlan::Go { path, .. } => assert_eq!(path, "rel/dir"),
        _ => panic!(),
    }
}

#[test]
fn blank_lines() {
    assert!(is_blank(""));
    assert!(is_blank(" \t "));
    assert!(!is_blank(" a "));
}
