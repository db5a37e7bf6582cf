//! Script parser: turns the raw lines of a lesson file into a [`Script`],
//! building the command list and the label index, handling comments,
//! continuation lines and menu sub-items.
//!
//! The whole pass is specified as a fold ([`parse_prefix`]) of a per-line
//! transition ([`line_step`]) over the parser state.

use vstd::prelude::*;
use crate::script::commands::{
    Command, CommandModel, MenuItem, MenuItemModel, ParsedLine, parse_line_spec,
};
use crate::script::{LabelIndex, Script, ScriptError, ScriptErrorModel, ScriptResult};
use crate::text::{find_char, find_char_spec, trim, trim_spec};

verus! {

/// Parser state: the commands built so far, the label table, and the
/// index of a just-appended Menu command still collecting its items.
#[verifier::ext_equal]
pub struct ParseState {
    pub commands: Seq<CommandModel>,
    pub labels: Map<Seq<char>, int>,
    pub pending_menu: Option<int>,
}

/// The state before any line is read.
pub open spec fn initial_state() -> ParseState {
    ParseState { commands: Seq::empty(), labels: Map::empty(), pending_menu: None }
}

/// The text a free-text continuation line contributes: the line is
/// trimmed, one leading `:` is stripped, and the rest is trimmed again.
pub open spec fn continuation_text(line: Seq<char>) -> Seq<char> {
    let t = trim_spec(line);
    let s = if t.len() > 0 && t[0] == ':' {
        t.subrange(1, t.len() as int)
    } else {
        t
    };
    trim_spec(s)
}

/// Joining continuation text onto accumulated text: a single space
/// separates parts once the text is non-empty.
pub open spec fn cont_append(text: Seq<char>, part: Seq<char>) -> Seq<char> {
    if text.len() == 0 {
        part
    } else {
        text + seq![' '] + part
    }
}

/// Only Tutorial, Instruction, Drill and SpeedTest accept continuation
/// text; on any other command it is dropped.
pub open spec fn cont_update(c: CommandModel, part: Seq<char>) -> CommandModel {
    match c {
        CommandModel::Tutorial { text } => CommandModel::Tutorial {
            text: cont_append(text, part),
        },
        CommandModel::Instruction { text } => CommandModel::Instruction {
            text: cont_append(text, part),
        },
        CommandModel::Drill { text, practice_only } => CommandModel::Drill {
            text: cont_append(text, part),
            practice_only,
        },
        CommandModel::SpeedTest { text, practice_only } => CommandModel::SpeedTest {
            text: cont_append(text, part),
            practice_only,
        },
        _ => c,
    }
}

/// Effect of a free-text continuation line on the command list: blank
/// contributions (empty, or a lone `:`) are ignored, anything else is
/// appended to the most recent command.
pub open spec fn continuation_step(commands: Seq<CommandModel>, line: Seq<char>) -> Seq<
    CommandModel,
> {
    let part = continuation_text(line);
    if part.len() == 0 || part == seq![':'] || commands.len() == 0 {
        commands
    } else {
        commands.update(commands.len() - 1, cont_update(commands.last(), part))
    }
}

/// The menu item a continuation line denotes, if any: `:LABEL "desc"`,
/// with the label before the first quote and the description strictly
/// between the first and second quotes.  Malformed lines denote nothing
/// and are silently ignored.
pub open spec fn menu_item_of(line: Seq<char>) -> Option<MenuItemModel> {
    let t = trim_spec(line);
    if t.len() == 0 || t[0] != ':' {
        None
    } else {
        let content = t.subrange(1, t.len() as int);
        match find_char_spec(content, '"', 0) {
            Some(q1) => match find_char_spec(content, '"', q1 + 1) {
                Some(q2) => Some(
                    MenuItemModel {
                        label: trim_spec(content.subrange(0, q1)),
                        description: content.subrange(q1 + 1, q2),
                    },
                ),
                None => None,
            },
            None => None,
        }
    }
}

/// Effect of a menu-item line on the command list: a well-formed item is
/// appended to the pending Menu command's item list.
pub open spec fn menu_item_step(commands: Seq<CommandModel>, mi: int, line: Seq<char>) -> Seq<
    CommandModel,
> {
    match menu_item_of(line) {
        Some(item) => {
            if 0 <= mi < commands.len() && commands[mi] is Menu {
                commands.update(
                    mi,
                    CommandModel::Menu {
                        title: commands[mi]->Menu_title,
                        items: commands[mi]->Menu_items.push(item),
                    },
                )
            } else {
                commands
            }
        },
        None => commands,
    }
}

/// Effect of appending a freshly parsed command: its index is recorded
/// in the label table if it is a Label (overwriting any earlier binding),
/// and it becomes the pending menu if it is a Menu.
pub open spec fn command_step(st: ParseState, c: CommandModel) -> ParseState {
    let idx = st.commands.len() as int;
    ParseState {
        commands: st.commands.push(c),
        labels: match c {
            CommandModel::Label { name } => st.labels.insert(name, idx),
            _ => st.labels,
        },
        pending_menu: if c is Menu {
            Some(idx)
        } else {
            None
        },
    }
}

/// The per-line transition of the parser.
pub open spec fn line_step(st: ParseState, line: Seq<char>, line_no: int) -> Result<
    ParseState,
    ScriptErrorModel,
> {
    if line.len() > 0 && line[0] == ' ' {
        match st.pending_menu {
            Some(mi) => Ok(ParseState { commands: menu_item_step(st.commands, mi, line), ..st }),
            None => Ok(ParseState { commands: continuation_step(st.commands, line), ..st }),
        }
    } else {
        let st0 = ParseState { pending_menu: None, ..st };
        match parse_line_spec(line) {
            ParsedLine::Blank => Ok(st0),
            ParsedLine::Bad => Err(
                ScriptErrorModel::InvalidCommand { line: line_no, content: line },
            ),
            ParsedLine::Cmd(c) => Ok(command_step(st0, c)),
        }
    }
}

/// The parser state after the first `n` lines, or the first error; line
/// numbers are 1-based.
pub open spec fn parse_prefix(lines: Seq<Seq<char>>, n: int) -> Result<
    ParseState,
    ScriptErrorModel,
>
    decreases n,
{
    if n <= 0 {
        Ok(initial_state())
    } else {
        match parse_prefix(lines, n - 1) {
            Ok(st) => line_step(st, lines[n - 1], n),
            Err(e) => Err(e),
        }
    }
}

/// The views of a sequence of raw lines.
pub open spec fn lines_model(ls: Seq<String>) -> Seq<Seq<char>> {
    ls.map_values(|l: String| l@)
}

/// What parsing a whole file yields.
pub open spec fn parse_model(lines: Seq<Seq<char>>) -> Result<ParseState, ScriptErrorModel> {
    parse_prefix(lines, lines.len() as int)
}

/// Append one continuation part to accumulated text, separated by a
/// single space once the text is non-empty.
fn append_part(text: &mut String, part: &str)
    ensures
        final(text)@ == cont_append(old(text)@, part@),
{
    if !text.as_str().is_empty() {
        text.append(" ");
        proof {
            reveal_strlit(" ");
            assert(" "@ =~= seq![' ']);
        }
        text.append(part);
        proof {
            assert(text@ =~= old(text)@ + seq![' '] + part@);
        }
    } else {
        text.append(part);
        proof {
            assert(text@ =~= part@);
        }
    }
}

/// Append a continuation line's text to the most recent command, if that
/// command accepts continuation text.
fn append_continuation_line(line: &str, commands: &mut Vec<Command>) -> (r: ScriptResult<()>)
    ensures
        r is Ok,
        final(commands)@.map_values(|c: Command| c@) == continuation_step(
            old(commands)@.map_values(|c: Command| c@),
            line@,
        ),
{
    let ghost cm0 = commands@.map_values(|c: Command| c@);
    let t = trim(line);
    let s = if t.unicode_len() > 0 && t.get_char(0) == ':' {
        t.substring_char(1, t.unicode_len())
    } else {
        t
    };
    let part = trim(s);
    let pn = part.unicode_len();
    if pn == 0 {
        return Ok(());
    }
    if pn == 1 && part.get_char(0) == ':' {
        proof {
            assert(part@ =~= seq![':']);
        }
        return Ok(());
    }
    proof {
        assert(part@ != seq![':']) by {
            if part@ == seq![':'] {
                assert(part@.len() == 1 && part@[0] == ':');
            }
        }
    }
    match commands.pop() {
        Some(cmd) => {
            let ghost last_model = cmd@;
            let updated = match cmd {
                Command::Tutorial { text } => {
                    let mut text = text;
                    append_part(&mut text, part);
                    Command::Tutorial { text }
                },
                Command::Instruction { text } => {
                    let mut text = text;
                    append_part(&mut text, part);
                    Command::Instruction { text }
                },
                Command::Drill { text, practice_only } => {
                    let mut text = text;
                    append_part(&mut text, part);
                    Command::Drill { text, practice_only }
                },
                Command::SpeedTest { text, practice_only } => {
                    let mut text = text;
                    append_part(&mut text, part);
                    Command::SpeedTest { text, practice_only }
                },
                other => other,
            };
            proof {
                assert(updated@ == cont_update(last_model, part@));
            }
            commands.push(updated);
            proof {
                assert(commands@.map_values(|c: Command| c@) =~= cm0.update(
                    cm0.len() - 1,
                    cont_update(cm0.last(), part@),
                ));
            }
        },
        None => {
        },
    }
    Ok(())
}

/// Parse a menu item line (`:LABEL  "Description"`) and append it to the
/// pending Menu command, which is always the most recently appended one.
fn parse_menu_item(line: &str, commands: &mut Vec<Command>, menu_index: usize) -> (r:
    ScriptResult<()>)
    requires
        old(commands)@.len() > 0,
        menu_index == old(commands)@.len() - 1,
    ensures
        r is Ok,
        final(commands)@.map_values(|c: Command| c@) == menu_item_step(
            old(commands)@.map_values(|c: Command| c@),
            menu_index as int,
            line@,
        ),
{
    let ghost cm0 = commands@.map_values(|c: Command| c@);
    let t = trim(line);
    let tn = t.unicode_len();
    if tn == 0 {
        return Ok(());
    }
    if t.get_char(0) != ':' {
        return Ok(());
    }
    let content = t.substring_char(1, tn);
    let q1 = match find_char(content, '"', 0) {
        Some(q) => q,
        None => {
            return Ok(());
        },
    };
    let q2 = match find_char(content, '"', q1 + 1) {
        Some(q) => q,
        None => {
            return Ok(());
        },
    };
    let label = trim(content.substring_char(0, q1)).to_owned();
    let description = content.substring_char(q1 + 1, q2).to_owned();
    let item = MenuItem { label, description };
    let ghost item_model = item@;
    proof {
        assert(menu_item_of(line@) == Some(item_model));
    }
    match commands.pop() {
        Some(cmd) => {
            match cmd {
                Command::Menu { title, items } => {
                    let mut items = items;
                    items.push(item);
                    let rebuilt = Command::Menu { title, items };
                    proof {
                        assert(rebuilt@->Menu_items =~= cm0[menu_index as int]->Menu_items.push(
                            item_model,
                        ));
                        assert(rebuilt@ == CommandModel::Menu {
                            title: cm0[menu_index as int]->Menu_title,
                            items: cm0[menu_index as int]->Menu_items.push(item_model),
                        });
                    }
                    commands.push(rebuilt);
                    proof {
                        assert(commands@.map_values(|c: Command| c@) =~= menu_item_step(
                            cm0,
                            menu_index as int,
                            line@,
                        ));
                    }
                },
                other => {
                    commands.push(other);
                    proof {
                        assert(commands@.map_values(|c: Command| c@) =~= cm0);
                    }
                },
            }
        },
        None => {
        },
    }
    Ok(())
}

/// Parse the physical lines of a lesson file into a complete [`Script`].
///
/// Lines are processed in order with a 1-based line counter; a line
/// beginning with a space extends the preceding command (or the pending
/// menu), every other line is parsed as a command.  The first malformed
/// command line aborts the parse: no partial script is returned.
pub fn parse_lines(lines: &Vec<String>, path: &str) -> (r: ScriptResult<Script>)
    ensures
        match r {
            Ok(script) => {
                &&& parse_model(lines_model(lines@)) matches Ok(st) && script@.commands
                    == st.commands && script@.labels == st.labels
                &&& script@.position == 0
                &&& script@.path == path@
                &&& script.wf()
            },
            Err(e) => parse_model(lines_model(lines@)) matches Err(m) && e@ == m,
        },
{
    let ghost lm = lines_model(lines@);
    let mut commands: Vec<Command> = Vec::new();
    let mut labels = LabelIndex::new();
    let mut pending_menu: Option<usize> = None;
    let mut idx: usize = 0;
    proof {
        assert(parse_prefix(lm, 0) matches Ok(st) && st =~= initial_state());
        assert(commands@.map_values(|c: Command| c@) =~= Seq::<CommandModel>::empty());
    }
    while idx < lines.len()
        invariant
            lm == lines_model(lines@),
            lm.len() == lines@.len(),
            0 <= idx <= lines@.len(),
            labels.wf(),
            parse_prefix(lm, idx as int) matches Ok(st) && st == (ParseState {
                commands: commands@.map_values(|c: Command| c@),
                labels: labels@,
                pending_menu: match pending_menu {
                    Some(mi) => Some(mi as int),
                    None => None,
                },
            }),
            pending_menu matches Some(mi) ==> commands@.len() > 0 && mi == commands@.len() - 1
                && commands@.map_values(|c: Command| c@)[mi as int] is Menu,
            forall|name: Seq<char>| #[trigger]
                labels@.contains_key(name) ==> 0 <= labels@[name] < commands@.len(),
        decreases lines@.len() - idx,
    {
        let ghost st_in = ParseState {
            commands: commands@.map_values(|c: Command| c@),
            labels: labels@,
            pending_menu: match pending_menu {
                Some(mi) => Some(mi as int),
                None => None,
            },
        };
        let line = &lines[idx];
        let line_number = idx + 1;
        let starts_with_space = line.as_str().unicode_len() > 0 && line.as_str().get_char(0)
            == ' ';
        if starts_with_space {
            match pending_menu {
                Some(mi) => {
                    let _ = parse_menu_item(line.as_str(), &mut commands, mi);
                },
                None => {
                    let _ = append_continuation_line(line.as_str(), &mut commands);
                },
            }
            proof {
                let st_out = ParseState {
                    commands: commands@.map_values(|c: Command| c@),
                    labels: labels@,
                    pending_menu: match pending_menu {
                        Some(mi) => Some(mi as int),
                        None => None,
                    },
                };
                assert(st_out.commands.len() == st_in.commands.len());
                match pending_menu {
                    Some(mi) => {
                        assert(st_out.commands[mi as int] is Menu);
                    },
                    None => {
                    },
                }
                assert(lm[idx as int] == line@);
                assert(line_step(st_in, lm[idx as int], idx + 1 as int) matches Ok(st) && st
                    =~= st_out);
            }
        } else {
            pending_menu = None;
            match Command::parse_line(line.as_str(), line_number) {
                Err(e) => {
                    proof {
                        assert(lm[idx as int] == line@);
                        assert(parse_prefix(lm, idx + 1 as int) matches Err(m) && m == e@);
                        lemma_parse_prefix_err(lm, idx + 1 as int);
                    }
                    return Err(e);
                },
                Ok(opt) => {
                    match opt {
                        None => {
                            proof {
                                let st_out = ParseState {
                                    commands: commands@.map_values(|c: Command| c@),
                                    labels: labels@,
                                    pending_menu: None,
                                };
                                assert(lm[idx as int] == line@);
                                assert(line_step(st_in, lm[idx as int], idx + 1 as int)
                                    matches Ok(st) && st =~= st_out);
                            }
                        },
                        Some(cmd) => {
                            let ghost cmd_model = cmd@;
                            let cmd_index = commands.len();
                            match &cmd {
                                Command::Label { name } => {
                                    labels.insert(name.clone(), cmd_index);
                                },
                                Command::Menu { .. } => {
                                    pending_menu = Some(cmd_index);
                                },
                                _ => {
                                },
                            }
                            commands.push(cmd);
                            proof {
                                assert forall|name: Seq<char>| #[trigger]
                                    labels@.contains_key(name) implies 0 <= labels@[name]
                                    < commands@.len() by {
                                    match cmd_model {
                                        CommandModel::Label { name: nm } => {
                                            if name != nm {
                                                assert(st_in.labels.contains_key(name));
                                            }
                                        },
                                        _ => {
                                            assert(labels@ == st_in.labels);
                                        },
                                    }
                                }
                                let st_out = ParseState {
                                    commands: commands@.map_values(|c: Command| c@),
                                    labels: labels@,
                                    pending_menu: match pending_menu {
                                        Some(mi) => Some(mi as int),
                                        None => None,
                                    },
                                };
                                assert(commands@.map_values(|c: Command| c@)
                                    =~= st_in.commands.push(cmd_model));
                                assert(lm[idx as int] == line@);
                                assert(line_step(st_in, lm[idx as int], idx + 1 as int)
                                    matches Ok(st) && st =~= st_out);
                            }
                        },
                    }
                },
            }
        }
        idx = idx + 1;
    }
    let script = Script { path: path.to_owned(), commands, labels, position: 0 };
    Ok(script)
}

/// Text accumulated by folding continuation parts onto `text`, in
/// source order, exactly as [`cont_update`] applies them line by line.
pub open spec fn fold_cont(text: Seq<char>, parts: Seq<Seq<char>>) -> Seq<char>
    decreases parts.len(),
{
    if parts.len() == 0 {
        text
    } else {
        fold_cont(cont_append(text, parts[0]), parts.drop_first())
    }
}

/// Parts joined by single spaces, in order.
pub open spec fn join_spaced(parts: Seq<Seq<char>>) -> Seq<char>
    decreases parts.len(),
{
    if parts.len() == 0 {
        Seq::empty()
    } else {
        cont_append(join_spaced(parts.drop_last()), parts.last())
    }
}

/// Law: continuation accumulation is associative — folding two batches
/// of continuation lines one after the other is folding their
/// concatenation.
pub proof fn lemma_cont_accumulation_assoc(
    text: Seq<char>,
    parts1: Seq<Seq<char>>,
    parts2: Seq<Seq<char>>,
)
    ensures
        fold_cont(fold_cont(text, parts1), parts2) == fold_cont(text, parts1 + parts2),
    decreases parts1.len(),
{
    if parts1.len() == 0 {
        assert(parts1 + parts2 =~= parts2);
    } else {
        assert((parts1 + parts2).drop_first() =~= parts1.drop_first() + parts2);
        assert((parts1 + parts2)[0] == parts1[0]);
        lemma_cont_accumulation_assoc(cont_append(text, parts1[0]), parts1.drop_first(), parts2);
    }
}

/// Folding one more part appends it to the accumulated text.
proof fn lemma_fold_cont_push(text: Seq<char>, parts: Seq<Seq<char>>, part: Seq<char>)
    ensures
        fold_cont(text, parts.push(part)) == cont_append(fold_cont(text, parts), part),
    decreases parts.len(),
{
    let p1 = parts.push(part);
    if parts.len() == 0 {
        assert(p1[0] == part);
        assert(p1.drop_first() =~= Seq::<Seq<char>>::empty());
        assert(fold_cont(text, p1) == fold_cont(cont_append(text, part), p1.drop_first()));
        assert(fold_cont(cont_append(text, part), p1.drop_first()) == cont_append(text, part));
        assert(fold_cont(text, parts) == text);
    } else {
        assert(p1[0] == parts[0]);
        assert(p1.drop_first() =~= parts.drop_first().push(part));
        assert(fold_cont(text, p1) == fold_cont(cont_append(text, parts[0]), p1.drop_first()));
        assert(fold_cont(text, parts) == fold_cont(
            cont_append(text, parts[0]),
            parts.drop_first(),
        ));
        lemma_fold_cont_push(cont_append(text, parts[0]), parts.drop_first(), part);
    }
}

/// Law: continuation accumulation is order-preserving — folding N
/// continuation parts onto a command's text yields the parts joined by
/// single spaces, in source order, prefixed by the original text when
/// there was any.
pub proof fn lemma_cont_accumulation(text: Seq<char>, parts: Seq<Seq<char>>)
    ensures
        text.len() == 0 ==> fold_cont(text, parts) == join_spaced(parts),
        text.len() > 0 ==> fold_cont(text, parts) == join_spaced(seq![text] + parts),
    decreases parts.len(),
{
    if parts.len() == 0 {
        if text.len() > 0 {
            let one = seq![text];
            assert(one + parts =~= one);
            assert(one.drop_last() =~= Seq::<Seq<char>>::empty());
            assert(one.last() == text);
            assert(join_spaced(one) == cont_append(join_spaced(one.drop_last()), text));
            assert(join_spaced(one.drop_last()) == Seq::<char>::empty());
        }
    } else {
        let init = parts.drop_last();
        lemma_cont_accumulation(text, init);
        assert(parts =~= init.push(parts.last()));
        lemma_fold_cont_push(text, init, parts.last());
        assert(fold_cont(text, parts) == cont_append(fold_cont(text, init), parts.last()));
        if text.len() == 0 {
            assert(join_spaced(parts) == cont_append(join_spaced(init), parts.last()));
        } else {
            let whole = seq![text] + parts;
            assert(whole.drop_last() =~= seq![text] + init);
            assert(whole.last() == parts.last());
            assert(join_spaced(whole) == cont_append(
                join_spaced(whole.drop_last()),
                parts.last(),
            ));
        }
    }
}

/// The non-blank contributions of the continuation lines `[a, b)`, in
/// source order: each line's [`continuation_text`], skipping the empty
/// and lone-colon ones that the parser ignores.
pub open spec fn cont_parts(lines: Seq<Seq<char>>, a: int, b: int) -> Seq<Seq<char>>
    decreases b - a,
{
    if a >= b {
        Seq::empty()
    } else {
        let rest = cont_parts(lines, a, b - 1);
        let part = continuation_text(lines[b - 1]);
        if part.len() == 0 || part == seq![':'] {
            rest
        } else {
            rest.push(part)
        }
    }
}

/// The accumulated text of a command; empty for commands that carry none.
pub open spec fn text_of(c: CommandModel) -> Seq<char> {
    match c {
        CommandModel::Tutorial { text } => text,
        CommandModel::Instruction { text } => text,
        CommandModel::Drill { text, .. } => text,
        CommandModel::SpeedTest { text, .. } => text,
        _ => Seq::empty(),
    }
}

/// `c1` is `c0` with its text replaced by `txt` where `c0` accumulates
/// text, and `c0` unchanged otherwise.
pub open spec fn same_shape_with_text(c0: CommandModel, c1: CommandModel, txt: Seq<char>) -> bool {
    match c0 {
        CommandModel::Tutorial { .. } => c1 == CommandModel::Tutorial { text: txt },
        CommandModel::Instruction { .. } => c1 == CommandModel::Instruction { text: txt },
        CommandModel::Drill { text: _, practice_only } => c1 == CommandModel::Drill {
            text: txt,
            practice_only,
        },
        CommandModel::SpeedTest { text: _, practice_only } => c1 == CommandModel::SpeedTest {
            text: txt,
            practice_only,
        },
        _ => c1 == c0,
    }
}

/// After a run of continuation lines, `st1` is `st0` with only the most
/// recent command's text changed, to the fold of the lines' non-blank
/// contributions onto it.
pub open spec fn continuation_run_result(
    st0: ParseState,
    st1: ParseState,
    lines: Seq<Seq<char>>,
    a: int,
    b: int,
) -> bool {
    &&& st1.labels == st0.labels
    &&& st1.pending_menu is None
    &&& st1.commands.len() == st0.commands.len()
    &&& forall|j: int| 0 <= j < st0.commands.len() - 1 ==> st1.commands[j] == st0.commands[j]
    &&& same_shape_with_text(
        st0.commands.last(),
        st1.commands.last(),
        fold_cont(text_of(st0.commands.last()), cont_parts(lines, a, b)),
    )
}

/// Law (end to end): a run of free-text continuation lines changes
/// nothing in the parser state but the most recent command's text, which
/// becomes the fold of the lines' non-blank contributions onto its
/// payload — by [`lemma_cont_accumulation`], those contributions joined
/// by single spaces, in source order.
pub proof fn lemma_continuation_lines_fold(lines: Seq<Seq<char>>, a: int, b: int)
    requires
        0 <= a <= b <= lines.len(),
        forall|k: int| a <= k < b ==> lines[k].len() > 0 && lines[k][0] == ' ',
    ensures
        parse_prefix(lines, a) matches Ok(st0) ==> ((st0.pending_menu is None
            && st0.commands.len() > 0) ==> (parse_prefix(lines, b) matches Ok(st1)
            && continuation_run_result(st0, st1, lines, a, b))),
    decreases b - a,
{
    if a < b {
        lemma_continuation_lines_fold(lines, a, b - 1);
        match parse_prefix(lines, a) {
            Ok(st0) => {
                if st0.pending_menu is None && st0.commands.len() > 0 {
                    match parse_prefix(lines, b - 1) {
                        Ok(stp) => {
                            let line = lines[b - 1];
                            let part = continuation_text(line);
                            let c0 = st0.commands.last();
                            let parts_before = cont_parts(lines, a, b - 1);
                            assert(parse_prefix(lines, b) == line_step(stp, line, b));
                            if part.len() == 0 || part == seq![':'] {
                                assert(continuation_step(stp.commands, line) == stp.commands);
                            } else {
                                lemma_fold_cont_push(text_of(c0), parts_before, part);
                                let updated = cont_update(stp.commands.last(), part);
                                assert(continuation_step(stp.commands, line) == stp.commands
                                    .update(stp.commands.len() - 1, updated));
                                match c0 {
                                    CommandModel::Tutorial { .. } => {
                                    },
                                    CommandModel::Instruction { .. } => {
                                    },
                                    CommandModel::Drill { .. } => {
                                    },
                                    CommandModel::SpeedTest { .. } => {
                                    },
                                    _ => {
                                        // The command accumulates no text:
                                        // the update leaves it in place.
                                        assert(updated == stp.commands.last());
                                        assert(stp.commands.update(
                                            stp.commands.len() - 1,
                                            updated,
                                        ) =~= stp.commands);
                                    },
                                }
                            }
                        },
                        Err(_) => {
                        },
                    }
                }
            },
            Err(_) => {
            },
        }
    }
}

/// `c` is a Label command defining `name`.
pub open spec fn is_label_named(c: CommandModel, name: Seq<char>) -> bool {
    c matches CommandModel::Label { name: n } && n == name
}

/// The label table describes the command list: every binding points at
/// the latest Label command with its name, and every Label command's
/// name is bound.
pub open spec fn labels_describe(st: ParseState) -> bool {
    &&& forall|name: Seq<char>| #[trigger]
        st.labels.contains_key(name) ==> 0 <= st.labels[name] < st.commands.len()
            && is_label_named(st.commands[st.labels[name]], name)
    &&& forall|name: Seq<char>, j: int|
        st.labels.contains_key(name) && st.labels[name] < j < st.commands.len() ==> !(
        #[trigger] is_label_named(st.commands[j], name))
    &&& forall|name: Seq<char>, j: int|
        0 <= j < st.commands.len() && #[trigger] is_label_named(st.commands[j], name)
            ==> st.labels.contains_key(name)
}

/// Law: a label resolves if and only if some Label command defines it,
/// and re-defining a label later in the file makes jumps resolve to the
/// later index — every binding names the last definition in textual
/// order.
pub proof fn lemma_labels_last_wins(lines: Seq<Seq<char>>, n: int)
    requires
        0 <= n <= lines.len(),
    ensures
        parse_prefix(lines, n) matches Ok(st) ==> labels_describe(st),
    decreases n,
{
    if n > 0 {
        lemma_labels_last_wins(lines, n - 1);
        match parse_prefix(lines, n - 1) {
            Ok(st_prev) => {
                let line = lines[n - 1];
                match parse_prefix(lines, n) {
                    Ok(st_new) => {
                        if line.len() > 0 && line[0] == ' ' {
                            // The command list changes at most in one
                            // text or item field; Label commands and the
                            // table are untouched.
                            assert(st_new.labels == st_prev.labels);
                            assert(st_new.commands.len() == st_prev.commands.len());
                            assert forall|name: Seq<char>, j: int|
                                0 <= j < st_new.commands.len() implies (is_label_named(
                                st_new.commands[j],
                                name,
                            ) == is_label_named(st_prev.commands[j], name)) by {}
                            assert(labels_describe(st_new));
                        } else {
                            match parse_line_spec(line) {
                                ParsedLine::Blank => {
                                    assert(labels_describe(st_new));
                                },
                                ParsedLine::Cmd(c) => {
                                    let len0 = st_prev.commands.len() as int;
                                    assert(st_new.commands == st_prev.commands.push(c));
                                    assert forall|name: Seq<char>| #[trigger]
                                        st_new.labels.contains_key(name) implies 0
                                        <= st_new.labels[name] < st_new.commands.len()
                                        && is_label_named(
                                        st_new.commands[st_new.labels[name]],
                                        name,
                                    ) by {
                                        match c {
                                            CommandModel::Label { name: nm } => {
                                                if name != nm {
                                                    assert(st_prev.labels.contains_key(name));
                                                }
                                            },
                                            _ => {
                                            },
                                        }
                                    }
                                    assert forall|name: Seq<char>, j: int|
                                        st_new.labels.contains_key(name)
                                            && st_new.labels[name] < j
                                            < st_new.commands.len() implies !(
                                    #[trigger] is_label_named(st_new.commands[j], name)) by {
                                        match c {
                                            CommandModel::Label { name: nm } => {
                                                if name != nm {
                                                    assert(st_prev.labels.contains_key(name));
                                                    if j < len0 {
                                                        assert(!is_label_named(
                                                            st_prev.commands[j],
                                                            name,
                                                        ));
                                                    }
                                                }
                                            },
                                            _ => {
                                                assert(st_prev.labels.contains_key(name));
                                                if j < len0 {
                                                    assert(!is_label_named(
                                                        st_prev.commands[j],
                                                        name,
                                                    ));
                                                }
                                            },
                                        }
                                    }
                                    assert forall|name: Seq<char>, j: int|
                                        0 <= j < st_new.commands.len() && #[trigger]
                                        is_label_named(st_new.commands[j], name)
                                            implies st_new.labels.contains_key(name) by {
                                        if j < len0 {
                                            assert(is_label_named(st_prev.commands[j], name));
                                        }
                                    }
                                    assert(labels_describe(st_new));
                                },
                                ParsedLine::Bad => {
                                },
                            }
                        }
                    },
                    Err(_) => {
                    },
                }
            },
            Err(_) => {
            },
        }
    }
}

/// Once a prefix fails, the whole parse fails with the same error.
pub proof fn lemma_parse_prefix_err(lines: Seq<Seq<char>>, n: int)
    requires
        0 <= n <= lines.len(),
        parse_prefix(lines, n) is Err,
    ensures
        parse_prefix(lines, lines.len() as int) == parse_prefix(lines, n),
    decreases lines.len() - n,
{
    if n < lines.len() {
        lemma_parse_prefix_err(lines, n + 1);
    }
}

} // verus!
