//! The decisions of the raw-mode line editor: what each keystroke does to the
//! buffer, and what a Tab does given the completion candidates.

use vstd::prelude::*;

use crate::completion::{
    completion_prefix, completion_word, find_longest_common_prefix, longest_common_prefix,
};
use crate::parser::strings_view;
use crate::text::{chars_equal, chars_of, string_of};

verus! {

/// The line being typed, and the completion marker.
pub struct LineEditor {
    /// The characters typed so far.
    pub buffer: Vec<char>,
    /// The buffer's text at the last Tab that found several candidates and
    /// rang the bell; cleared by any other key.
    pub pending: Option<Vec<char>>,
}

/// The editor's state as mathematical values.
pub struct EditorView {
    pub buffer: Seq<char>,
    pub pending: Option<Seq<char>>,
}

pub open spec fn option_chars_view(p: Option<Vec<char>>) -> Option<Seq<char>> {
    match p {
        Some(v) => Some(v@),
        None => None,
    }
}

impl View for LineEditor {
    type V = EditorView;

    open spec fn view(&self) -> EditorView {
        EditorView { buffer: self.buffer@, pending: option_chars_view(self.pending) }
    }
}

/// What the terminal must show after a Tab.
#[derive(Debug, Clone, Copy, PartialEq, Eq, Structural)]
pub struct TabOutcome {
    /// The buffer was rewritten: erase the old text on screen and print the new.
    pub rewritten: bool,
    /// Ring the bell.
    pub bell: bool,
    /// Print the candidates on a line of their own, then the prompt and buffer again.
    pub listed: bool,
}

/// What the terminal must do after a keystroke other than Tab.
#[derive(Debug)]
pub enum KeyAction {
    /// The line is complete: move to a new line and hand it over.
    Submit(String),
    /// Print the character just appended.
    Echo(char),
    /// Erase the last character on screen.
    Erase,
    /// Tab: gather the candidates and complete.
    Complete,
    /// Nothing to show.
    Ignore,
}

/// The state and outcome of a Tab on `s` when the candidates are `cands`
/// (sorted, each once).
pub open spec fn tab_result(s: EditorView, cands: Seq<Seq<char>>) -> (EditorView, TabOutcome) {
    if completion_word(s.buffer) is None {
        (s, TabOutcome { rewritten: false, bell: false, listed: false })
    } else if cands.len() == 0 {
        (
            EditorView { buffer: s.buffer, pending: None },
            TabOutcome { rewritten: false, bell: true, listed: false },
        )
    } else if cands.len() == 1 {
        (
            EditorView { buffer: cands[0].push(' '), pending: None },
            TabOutcome { rewritten: true, bell: false, listed: false },
        )
    } else {
        let l = longest_common_prefix(cands);
        let extend = l.len() > s.buffer.len();
        let b = if extend {
            l
        } else {
            s.buffer
        };
        if s.pending == Some(b) {
            (
                EditorView { buffer: b, pending: None },
                TabOutcome { rewritten: extend, bell: false, listed: true },
            )
        } else {
            (
                EditorView { buffer: b, pending: Some(b) },
                TabOutcome { rewritten: extend, bell: true, listed: false },
            )
        }
    }
}

/// Two Tabs in a row, with no other key between, on a buffer of one word at
/// most that has several candidates: the first rings the bell and marks the
/// text, the second lists the candidates, leaves the text as it is and clears
/// the mark. (Should the common prefix hold whitespace, the second Tab sees
/// several words and does nothing: that case is left out.)
pub proof fn lemma_second_tab_lists(s: EditorView, cands: Seq<Seq<char>>)
    requires
        s.pending is None,
        cands.len() >= 2,
        completion_word(s.buffer) is Some,
        completion_word(tab_result(s, cands).0.buffer) is Some,
    ensures
        ({
            let (s1, o1) = tab_result(s, cands);
            let (s2, o2) = tab_result(s1, cands);
            &&& o1.bell && !o1.listed
            &&& s1.pending == Some(s1.buffer)
            &&& o2.listed && !o2.bell && !o2.rewritten
            &&& s2.buffer == s1.buffer
            &&& s2.pending is None
        }),
{
}

impl LineEditor {
    pub fn new() -> (r: LineEditor)
        ensures
            r@.buffer == Seq::<char>::empty(),
            r@.pending is None,
    {
        LineEditor { buffer: Vec::new(), pending: None }
    }

    /// The buffer as a string.
    pub fn text(&self) -> (r: String)
        ensures
            r@ == self@.buffer,
    {
        string_of(self.buffer.as_slice())
    }

    /// The text that a Tab would complete, if the buffer holds one word at most.
    pub fn completion_prefix(&self) -> (r: Option<String>)
        ensures
            match r {
                Some(p) => completion_word(self@.buffer) == Some(p@),
                None => completion_word(self@.buffer) is None,
            },
    {
        match completion_prefix(&self.buffer) {
            Some(p) => Some(string_of(p.as_slice())),
            None => None,
        }
    }

    /// Handles one byte read from the terminal.
    pub fn key(&mut self, byte: u8) -> (r: KeyAction)
        ensures
            (byte == 10 || byte == 13) ==> {
                &&& r matches KeyAction::Submit(line) && line@ == old(self)@.buffer
                &&& final(self)@.buffer == Seq::<char>::empty()
                &&& final(self)@.pending is None
            },
            (byte == 127 || byte == 8) ==> {
                &&& final(self)@.pending is None
                &&& old(self)@.buffer.len() > 0 ==> r is Erase && final(self)@.buffer == old(
                    self,
                )@.buffer.drop_last()
                &&& old(self)@.buffer.len() == 0 ==> r is Ignore && final(self)@.buffer == old(
                    self,
                )@.buffer
            },
            byte == 9 ==> r is Complete && final(self)@ == old(self)@,
            32 <= byte <= 126 ==> {
                &&& r == KeyAction::Echo(byte as char)
                &&& final(self)@.buffer == old(self)@.buffer.push(byte as char)
                &&& final(self)@.pending is None
            },
            !(byte == 10 || byte == 13 || byte == 127 || byte == 8 || byte == 9 || 32 <= byte
                <= 126) ==> r is Ignore && final(self)@ == old(self)@,
    {
        if byte == 10 || byte == 13 {
            let line = string_of(self.buffer.as_slice());
            self.buffer = Vec::new();
            self.pending = None;
            KeyAction::Submit(line)
        } else if byte == 127 || byte == 8 {
            self.pending = None;
            if self.buffer.len() > 0 {
                self.buffer.pop();
                KeyAction::Erase
            } else {
                KeyAction::Ignore
            }
        } else if byte == 9 {
            KeyAction::Complete
        } else if 32 <= byte && byte <= 126 {
            let c = byte as char;
            self.buffer.push(c);
            self.pending = None;
            KeyAction::Echo(c)
        } else {
            KeyAction::Ignore
        }
    }

    /// Handles a Tab, given the completion candidates of the buffer's word
    /// (sorted, each once).
    pub fn tab(&mut self, candidates: &Vec<String>) -> (r: TabOutcome)
        ensures
            (final(self)@, r) == tab_result(old(self)@, strings_view(candidates@)),
    {
        if completion_prefix(&self.buffer).is_none() {
            return TabOutcome { rewritten: false, bell: false, listed: false };
        }
        if candidates.len() == 0 {
            self.pending = None;
            return TabOutcome { rewritten: false, bell: true, listed: false };
        }
        if candidates.len() == 1 {
            let mut b = chars_of(candidates[0].as_str());
            b.push(' ');
            self.buffer = b;
            self.pending = None;
            return TabOutcome { rewritten: true, bell: false, listed: false };
        }
        let lcp = chars_of(find_longest_common_prefix(candidates).as_str());
        let extend = lcp.len() > self.buffer.len();
        if extend {
            self.buffer = lcp;
        }
        let again = match &self.pending {
            Some(p) => chars_equal(p, &self.buffer),
            None => false,
        };
        if again {
            self.pending = None;
            TabOutcome { rewritten: extend, bell: false, listed: true }
        } else {
            let mut copy: Vec<char> = Vec::new();
            let mut i: usize = 0;
            while i < self.buffer.len()
                invariant
                    i <= self.buffer@.len(),
                    copy@ == self.buffer@.take(i as int),
                decreases self.buffer@.len() - i,
            {
                copy.push(self.buffer[i]);
                i = i + 1;
                assert(self.buffer@.take(i as int) =~= self.buffer@.take(i - 1).push(
                    self.buffer@[i - 1],
                ));
            }
            assert(self.buffer@.take(i as int) =~= self.buffer@);
            self.pending = Some(copy);
            TabOutcome { rewritten: extend, bell: true, listed: false }
        }
    }
}

} // verus!
