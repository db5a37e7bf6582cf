//! The compiled lesson script: its error type, the label index and the
//! execution cursor.

pub mod commands;
pub mod executor;
pub mod parser;

use vstd::prelude::*;
use crate::script::commands::{Command, CommandModel};

verus! {

/// Errors raised while loading or running a lesson script.  I/O and
/// encoding failures are carried as their rendered messages, since the
/// crate itself performs no I/O.
#[derive(Debug, Clone, PartialEq)]
pub enum ScriptError {
    /// An I/O failure reported by the host, by its message.
    Io(String),
    /// A malformed or unrecognized command line, with its 1-based line
    /// number and its exact text.
    InvalidCommand { line: usize, content: String },
    /// A jump to a label that the script never defines.
    LabelNotFound { label: String },
    /// A structural violation (reserved).
    InvalidFormat { message: String },
    /// A text-encoding failure reported by the host, by its message.
    Utf8Error(String),
    /// A sandbox escape or an oversized external text file.
    FileError(String),
}

/// Mathematical image of a [`ScriptError`].
#[verifier::ext_equal]
pub enum ScriptErrorModel {
    Io(Seq<char>),
    InvalidCommand { line: int, content: Seq<char> },
    LabelNotFound { label: Seq<char> },
    InvalidFormat { message: Seq<char> },
    Utf8Error(Seq<char>),
    FileError(Seq<char>),
}

impl View for ScriptError {
    type V = ScriptErrorModel;

    open spec fn view(&self) -> ScriptErrorModel {
        match self {
            ScriptError::Io(m) => ScriptErrorModel::Io(m@),
            ScriptError::InvalidCommand { line, content } => ScriptErrorModel::InvalidCommand {
                line: *line as int,
                content: content@,
            },
            ScriptError::LabelNotFound { label } => ScriptErrorModel::LabelNotFound {
                label: label@,
            },
            ScriptError::InvalidFormat { message } => ScriptErrorModel::InvalidFormat {
                message: message@,
            },
            ScriptError::Utf8Error(m) => ScriptErrorModel::Utf8Error(m@),
            ScriptError::FileError(m) => ScriptErrorModel::FileError(m@),
        }
    }
}

/// Result type for script operations.
pub type ScriptResult<T> = Result<T, ScriptError>;

/// The label table: a mapping from label name to command index in which a
/// later definition of a name silently overwrites an earlier one.
#[derive(Debug, Clone)]
pub struct LabelIndex {
    entries: Vec<(String, usize)>,
}

spec fn entries_map(s: Seq<(String, usize)>) -> Map<Seq<char>, int>
    decreases s.len(),
{
    if s.len() == 0 {
        Map::empty()
    } else {
        entries_map(s.drop_last()).insert(s.last().0@, s.last().1 as int)
    }
}

spec fn entries_unique(s: Seq<(String, usize)>) -> bool {
    forall|i: int, j: int| 0 <= i < j < s.len() ==> s[i].0@ != s[j].0@
}

proof fn lemma_entries_map_absent(s: Seq<(String, usize)>, name: Seq<char>)
    requires
        forall|j: int| 0 <= j < s.len() ==> s[j].0@ != name,
    ensures
        !entries_map(s).contains_key(name),
    decreases s.len(),
{
    if s.len() > 0 {
        lemma_entries_map_absent(s.drop_last(), name);
    }
}

proof fn lemma_entries_map_get(s: Seq<(String, usize)>, i: int)
    requires
        0 <= i < s.len(),
        forall|j: int| i < j < s.len() ==> s[j].0@ != s[i].0@,
    ensures
        entries_map(s).contains_key(s[i].0@),
        entries_map(s)[s[i].0@] == s[i].1 as int,
    decreases s.len(),
{
    if i < s.len() - 1 {
        lemma_entries_map_get(s.drop_last(), i);
    }
}

proof fn lemma_entries_map_remove(s: Seq<(String, usize)>, j: int)
    requires
        entries_unique(s),
        0 <= j < s.len(),
    ensures
        entries_map(s.remove(j)) == entries_map(s).remove(s[j].0@),
    decreases s.len(),
{
    if j == s.len() - 1 {
        assert(s.remove(j) =~= s.drop_last());
        lemma_entries_map_absent(s.drop_last(), s[j].0@);
        assert(entries_map(s.drop_last()) =~= entries_map(s).remove(s[j].0@));
    } else {
        assert(s.remove(j).drop_last() =~= s.drop_last().remove(j));
        assert(entries_unique(s.drop_last()));
        lemma_entries_map_remove(s.drop_last(), j);
        assert(entries_map(s.remove(j)) =~= entries_map(s).remove(s[j].0@));
    }
}

proof fn lemma_entries_map_dom(s: Seq<(String, usize)>)
    requires
        entries_unique(s),
    ensures
        entries_map(s).dom().finite(),
        entries_map(s).dom().len() == s.len(),
    decreases s.len(),
{
    if s.len() > 0 {
        assert(entries_unique(s.drop_last()));
        lemma_entries_map_dom(s.drop_last());
        lemma_entries_map_absent(s.drop_last(), s.last().0@);
    }
}

impl View for LabelIndex {
    type V = Map<Seq<char>, int>;

    closed spec fn view(&self) -> Map<Seq<char>, int> {
        entries_map(self.entries@)
    }
}

impl LabelIndex {
    /// No label name occurs twice in the table.
    pub closed spec fn wf(&self) -> bool {
        entries_unique(self.entries@)
    }

    /// An empty label table.
    pub fn new() -> (r: LabelIndex)
        ensures
            r@ == Map::<Seq<char>, int>::empty(),
            r.wf(),
    {
        LabelIndex { entries: Vec::new() }
    }

    /// Look a label up.
    pub fn get(&self, label: &str) -> (r: Option<usize>)
        requires
            self.wf(),
        ensures
            match r {
                Some(i) => self@.contains_key(label@) && self@[label@] == i as int,
                None => !self@.contains_key(label@),
            },
    {
        let mut i: usize = 0;
        while i < self.entries.len()
            invariant
                0 <= i <= self.entries@.len(),
                entries_unique(self.entries@),
                forall|k: int| 0 <= k < i ==> self.entries@[k].0@ != label@,
            decreases self.entries@.len() - i,
        {
            if crate::text::str_eq(self.entries[i].0.as_str(), label) {
                proof {
                    lemma_entries_map_get(self.entries@, i as int);
                }
                return Some(self.entries[i].1);
            }
            i = i + 1;
        }
        proof {
            lemma_entries_map_absent(self.entries@, label@);
        }
        None
    }

    /// Whether a label is defined.
    pub fn contains_key(&self, label: &str) -> (b: bool)
        requires
            self.wf(),
        ensures
            b == self@.contains_key(label@),
    {
        self.get(label).is_some()
    }

    /// Bind `label` to `index`, overwriting any earlier binding.
    pub fn insert(&mut self, label: String, index: usize)
        requires
            old(self).wf(),
        ensures
            final(self)@ == old(self)@.insert(label@, index as int),
            final(self).wf(),
    {
        let ghost s0 = self.entries@;
        let ghost key = label@;
        let mut i: usize = 0;
        while i < self.entries.len()
            invariant
                0 <= i <= self.entries@.len(),
                entries_unique(self.entries@),
                self.entries@ == old(self).entries@,
                s0 == self.entries@,
                key == label@,
                forall|k: int| 0 <= k < i ==> self.entries@[k].0@ != label@,
            decreases self.entries@.len() - i,
        {
            if crate::text::str_eq(self.entries[i].0.as_str(), label.as_str()) {
                proof {
                    lemma_entries_map_remove(self.entries@, i as int);
                    lemma_entries_map_get(self.entries@, i as int);
                }
                self.entries.remove(i);
                let ghost s1 = self.entries@;
                self.entries.push((label, index));
                proof {
                    assert(s1 == s0.remove(i as int));
                    assert(self.entries@.drop_last() =~= s1);
                    assert(self.entries@.last().0@ == key);
                    assert(self.entries@.last().1 == index);
                    assert(entries_map(self.entries@) == entries_map(s1).insert(
                        key,
                        index as int,
                    ));
                    assert(entries_map(s0).remove(key).insert(key, index as int) =~= entries_map(
                        s0,
                    ).insert(key, index as int));
                    // Uniqueness survives: the one entry with this key left.
                    assert forall|a: int, b: int|
                        0 <= a < b < self.entries@.len() implies self.entries@[a].0@
                        != self.entries@[b].0@ by {
                        if b == self.entries@.len() - 1 {
                            if a < i {
                                assert(self.entries@[a] == s0[a]);
                            } else {
                                assert(self.entries@[a] == s0[a + 1]);
                            }
                        } else {
                            if a < i {
                                assert(self.entries@[a] == s0[a]);
                            } else {
                                assert(self.entries@[a] == s0[a + 1]);
                            }
                            if b < i {
                                assert(self.entries@[b] == s0[b]);
                            } else {
                                assert(self.entries@[b] == s0[b + 1]);
                            }
                        }
                    }
                }
                return ;
            }
            i = i + 1;
        }
        proof {
            lemma_entries_map_absent(self.entries@, label@);
        }
        self.entries.push((label, index));
        proof {
            assert(self.entries@.drop_last() =~= s0);
            assert(self.entries@.last().0@ == key);
            assert(self.entries@.last().1 == index);
            assert forall|a: int, b: int|
                0 <= a < b < self.entries@.len() implies self.entries@[a].0@
                != self.entries@[b].0@ by {
                assert(self.entries@[a] == s0[a]);
                if b < self.entries@.len() - 1 {
                    assert(self.entries@[b] == s0[b]);
                }
            }
        }
    }

    /// How many labels are defined.
    pub fn len(&self) -> (n: usize)
        requires
            self.wf(),
        ensures
            n == self@.dom().len(),
    {
        proof {
            lemma_entries_map_dom(self.entries@);
        }
        self.entries.len()
    }
}

/// A parsed lesson script with indexed labels and an execution cursor.
#[derive(Debug, Clone)]
pub struct Script {
    /// The path the script was loaded from, kept for resolving external
    /// text files against the script's own directory.
    pub path: String,
    /// All parsed commands, in textual order.
    pub commands: Vec<Command>,
    /// Label table for jumps.
    pub labels: LabelIndex,
    /// Current execution position, always within `[0, commands.len()]`;
    /// a position equal to the length means the script is finished.
    pub position: usize,
}

/// Mathematical image of a [`Script`].
#[verifier::ext_equal]
pub struct ScriptModel {
    pub path: Seq<char>,
    pub commands: Seq<CommandModel>,
    pub labels: Map<Seq<char>, int>,
    pub position: int,
}

impl View for Script {
    type V = ScriptModel;

    open spec fn view(&self) -> ScriptModel {
        ScriptModel {
            path: self.path@,
            commands: self.commands@.map_values(|c: Command| c@),
            labels: self.labels@,
            position: self.position as int,
        }
    }
}

impl Script {
    /// The label table is well formed, the cursor is in range and every
    /// label points at a command.
    pub open spec fn wf(self) -> bool {
        &&& self.labels.wf()
        &&& 0 <= self@.position <= self@.commands.len()
        &&& forall|name: Seq<char>|
            #[trigger] self@.labels.contains_key(name) ==> 0 <= self@.labels[name]
                < self@.commands.len()
    }

    /// Jump to a label: an unconditional cursor reset to the label's
    /// recorded index, or `LabelNotFound` if the label is undefined.
    pub fn goto_label(&mut self, label: &str) -> (r: ScriptResult<()>)
        requires
            old(self).wf(),
        ensures
            final(self).wf(),
            match r {
                Ok(()) => old(self)@.labels.contains_key(label@) && final(self)@ == (ScriptModel {
                    position: old(self)@.labels[label@],
                    ..old(self)@
                }),
                Err(e) => {
                    &&& !old(self)@.labels.contains_key(label@)
                    &&& final(self)@ == old(self)@
                    &&& e@ matches ScriptErrorModel::LabelNotFound { label: l } && l == label@
                },
            },
    {
        match self.labels.get(label) {
            Some(pos) => {
                self.position = pos;
                Ok(())
            },
            None => Err(ScriptError::LabelNotFound { label: label.to_owned() }),
        }
    }

    /// The command under the cursor, or `None` once the script is finished.
    pub fn current_command(&self) -> (r: Option<&Command>)
        ensures
            match r {
                Some(c) => self@.position < self@.commands.len() && c@ == self@.commands[self@.position],
                None => self@.position >= self@.commands.len(),
            },
    {
        if self.position < self.commands.len() {
            Some(&self.commands[self.position])
        } else {
            None
        }
    }

    /// Advance the cursor by one command; past the end it stays put, so a
    /// finished script stays finished.
    pub fn next(&mut self) -> (r: Option<&Command>)
        ensures
            old(self).wf() ==> final(self).wf(),
            final(self)@ == (ScriptModel {
                position: if old(self)@.position < old(self)@.commands.len() {
                    old(self)@.position + 1
                } else {
                    old(self)@.position
                },
                ..old(self)@
            }),
            match r {
                Some(c) => final(self)@.position < final(self)@.commands.len() && c@
                    == final(self)@.commands[final(self)@.position],
                None => final(self)@.position >= final(self)@.commands.len(),
            },
    {
        if self.position < self.commands.len() {
            self.position = self.position + 1;
        }
        if self.position < self.commands.len() {
            Some(&self.commands[self.position])
        } else {
            None
        }
    }

    /// Whether the cursor has run off the end of the command list.
    pub fn is_finished(&self) -> (r: bool)
        ensures
            r == (self@.position >= self@.commands.len()),
    {
        self.position >= self.commands.len()
    }
}

/// Law: a defined label's recorded index lies within the command list,
/// so `goto_label` on it (which by its contract sets the cursor to that
/// index) followed by `current_command` (which by its contract returns
/// the command under the cursor) yields the command stored at the
/// label's recorded index; on an undefined label `goto_label` returns
/// `LabelNotFound` and leaves the script unchanged.
pub proof fn lemma_goto_target_in_range(s: Script, name: Seq<char>)
    requires
        s.wf(),
        s@.labels.contains_key(name),
    ensures
        0 <= s@.labels[name] < s@.commands.len(),
{
}

/// Law: under well-formedness the cursor never passes the length, so
/// `is_finished` holds exactly when `position == len(commands)`; by
/// `next`'s contract the cursor stays put past the end, leaving
/// `is_finished` true and `current_command` none indefinitely.
pub proof fn lemma_finished_iff(s: Script)
    requires
        s.wf(),
    ensures
        (s@.position >= s@.commands.len()) <==> (s@.position == s@.commands.len()),
{
}

} // verus!
