//! Script command definitions: the closed set of instruction variants the
//! lesson DSL compiles to, and the line parser that selects them.

use vstd::prelude::*;
use crate::script::ScriptError;
use crate::text::{
    blank, find_char, find_char_spec, is_blank, is_digit, is_wspace, strip_trailing,
    strip_trailing_spec, str_eq, trim, trim_spec,
};

verus! {

/// An error-rate ceiling in hundredths of a percent.  The lesson format
/// writes percentages as decimal numbers; they are held in fixed point so
/// that threshold comparisons have an exact meaning.
#[derive(Debug, Clone, Copy, PartialEq, Eq, Structural)]
pub struct Percent {
    pub hundredths: u32,
}

/// Menu item definition: a jump label and its displayed description.
#[derive(Debug, Clone, PartialEq)]
pub struct MenuItem {
    pub label: String,
    pub description: String,
}

/// Mathematical image of a [`MenuItem`].
#[verifier::ext_equal]
pub struct MenuItemModel {
    pub label: Seq<char>,
    pub description: Seq<char>,
}

impl View for MenuItem {
    type V = MenuItemModel;

    open spec fn view(&self) -> MenuItemModel {
        MenuItemModel { label: self.label@, description: self.description@ }
    }
}

/// All supported script commands.
#[derive(Debug, Clone, PartialEq)]
pub enum Command {
    /// Comment line - ignored during execution.
    Comment { content: String },
    /// Label definition (`*:NAME`).
    Label { name: String },
    /// Tutorial text display (`T:text`).
    Tutorial { text: String },
    /// Instruction display (`I:text`); always suspends for one keypress.
    Instruction { text: String },
    /// Clear screen and set an optional banner (`B:banner`).
    Clear { banner: Option<String> },
    /// Unconditional jump (`G:NAME`).
    Goto { label: String },
    /// Exit the script (`X:`).
    Exit,
    /// Yes/no question (`Q:text`).
    Query { text: String },
    /// Conditional jump on a yes answer (`Y:NAME`).
    YesGoto { label: String },
    /// Conditional jump on a no answer (`N:NAME`).
    NoGoto { label: String },
    /// Drill exercise (`D:text`, practice-only `d:text`).
    Drill { text: String, practice_only: bool },
    /// Speed test exercise (`S:text`, practice-only `s:text`).
    SpeedTest { text: String, practice_only: bool },
    /// Tutorial text loaded from a file (`t:path`).
    TutorialFile { path: String },
    /// Drill text loaded from a file (`f:path`, practice-only `p:path`).
    DrillFile { path: String, practice_only: bool },
    /// Speed test text loaded from a file (`z:path`, practice-only `w:path`).
    SpeedTestFile { path: String, practice_only: bool },
    /// Key binding (`K:sequence`); reserved, currently only logged.
    KeyBind { sequence: String },
    /// Set the drill failure threshold (`E:percentage`).
    ErrorMaxSet { percentage: Percent },
    /// Set the label a failed drill redirects to (`F:NAME`).
    OnFailureSet { label: String },
    /// Menu definition (`M:title`); items come from continuation lines.
    Menu { title: String, items: Vec<MenuItem> },
}

/// Mathematical image of a [`Command`].
#[verifier::ext_equal]
pub enum CommandModel {
    Comment { content: Seq<char> },
    Label { name: Seq<char> },
    Tutorial { text: Seq<char> },
    Instruction { text: Seq<char> },
    Clear { banner: Option<Seq<char>> },
    Goto { label: Seq<char> },
    Exit,
    Query { text: Seq<char> },
    YesGoto { label: Seq<char> },
    NoGoto { label: Seq<char> },
    Drill { text: Seq<char>, practice_only: bool },
    SpeedTest { text: Seq<char>, practice_only: bool },
    TutorialFile { path: Seq<char> },
    DrillFile { path: Seq<char>, practice_only: bool },
    SpeedTestFile { path: Seq<char>, practice_only: bool },
    KeyBind { sequence: Seq<char> },
    ErrorMaxSet { percentage: Percent },
    OnFailureSet { label: Seq<char> },
    Menu { title: Seq<char>, items: Seq<MenuItemModel> },
}

impl View for Command {
    type V = CommandModel;

    open spec fn view(&self) -> CommandModel {
        match self {
            Command::Comment { content } => CommandModel::Comment { content: content@ },
            Command::Label { name } => CommandModel::Label { name: name@ },
            Command::Tutorial { text } => CommandModel::Tutorial { text: text@ },
            Command::Instruction { text } => CommandModel::Instruction { text: text@ },
            Command::Clear { banner } => CommandModel::Clear {
                banner: match banner {
                    Some(b) => Some(b@),
                    None => None,
                },
            },
            Command::Goto { label } => CommandModel::Goto { label: label@ },
            Command::Exit => CommandModel::Exit,
            Command::Query { text } => CommandModel::Query { text: text@ },
            Command::YesGoto { label } => CommandModel::YesGoto { label: label@ },
            Command::NoGoto { label } => CommandModel::NoGoto { label: label@ },
            Command::Drill { text, practice_only } => CommandModel::Drill {
                text: text@,
                practice_only: *practice_only,
            },
            Command::SpeedTest { text, practice_only } => CommandModel::SpeedTest {
                text: text@,
                practice_only: *practice_only,
            },
            Command::TutorialFile { path } => CommandModel::TutorialFile { path: path@ },
            Command::DrillFile { path, practice_only } => CommandModel::DrillFile {
                path: path@,
                practice_only: *practice_only,
            },
            Command::SpeedTestFile { path, practice_only } => CommandModel::SpeedTestFile {
                path: path@,
                practice_only: *practice_only,
            },
            Command::KeyBind { sequence } => CommandModel::KeyBind { sequence: sequence@ },
            Command::ErrorMaxSet { percentage } => CommandModel::ErrorMaxSet {
                percentage: *percentage,
            },
            Command::OnFailureSet { label } => CommandModel::OnFailureSet { label: label@ },
            Command::Menu { title, items } => CommandModel::Menu {
                title: title@,
                items: items@.map_values(|it: MenuItem| it@),
            },
        }
    }
}

/// Value of a decimal digit.
pub open spec fn digit_val(c: char) -> int {
    if c == '0' {
        0
    } else if c == '1' {
        1
    } else if c == '2' {
        2
    } else if c == '3' {
        3
    } else if c == '4' {
        4
    } else if c == '5' {
        5
    } else if c == '6' {
        6
    } else if c == '7' {
        7
    } else if c == '8' {
        8
    } else {
        9
    }
}

/// Value of a digit string read most-significant first.
pub open spec fn digits_value(s: Seq<char>) -> int
    decreases s.len(),
{
    if s.len() == 0 {
        0
    } else {
        digits_value(s.drop_last()) * 10 + digit_val(s.last())
    }
}

/// A decimal number: digits with at most one decimal point and at least
/// one digit.
pub open spec fn is_decimal(s: Seq<char>) -> bool {
    &&& forall|i: int| 0 <= i < s.len() ==> (is_digit(s[i]) || s[i] == '.')
    &&& forall|i: int, j: int| 0 <= i < j < s.len() ==> !(s[i] == '.' && s[j] == '.')
    &&& exists|i: int| 0 <= i < s.len() && is_digit(s[i])
}

/// Contribution of the fractional digits, truncated to two places.
pub open spec fn frac_hundredths(f: Seq<char>) -> int {
    (if f.len() >= 1 {
        10 * digit_val(f[0])
    } else {
        0
    }) + (if f.len() >= 2 {
        digit_val(f[1])
    } else {
        0
    })
}

/// Value of a decimal number in hundredths.
pub open spec fn decimal_hundredths(s: Seq<char>) -> int {
    match find_char_spec(s, '.', 0) {
        Some(d) => digits_value(s.subrange(0, d)) * 100 + frac_hundredths(
            s.subrange(d + 1, s.len() as int),
        ),
        None => digits_value(s) * 100,
    }
}

/// What an `E:` payload denotes: `default` means zero; otherwise trailing
/// `*` and `%` marks are stripped and the rest must be a decimal number
/// whose value in hundredths of a percent fits the fixed-point range,
/// kept to two decimal places.  A leading minus sign makes the ceiling
/// non-positive, which means "no explicit ceiling" and maps to zero like
/// `default` does.
pub open spec fn percent_spec(data: Seq<char>) -> Option<u32> {
    let d = trim_spec(data);
    if d == "default"@ {
        Some(0u32)
    } else {
        let t = trim_spec(strip_trailing_spec(strip_trailing_spec(d, '*'), '%'));
        if t.len() > 0 && t[0] == '-' {
            if is_decimal(t.subrange(1, t.len() as int)) {
                Some(0u32)
            } else {
                None
            }
        } else if is_decimal(t) && decimal_hundredths(t) <= u32::MAX {
            Some(decimal_hundredths(t) as u32)
        } else {
            None
        }
    }
}

/// What an `M:` payload denotes: the title, with one matching pair of
/// wrapping double quotes stripped.
pub open spec fn menu_title_spec(data: Seq<char>) -> Seq<char> {
    let d = trim_spec(data);
    if d.len() >= 2 && d[0] == '"' && d[d.len() - 1] == '"' {
        d.subrange(1, d.len() - 1)
    } else {
        d
    }
}

/// Outcome of reading one physical line.
pub enum ParsedLine {
    /// A blank line, ignored and not stored.
    Blank,
    /// A malformed or unrecognized command line.
    Bad,
    /// A recognized command.
    Cmd(CommandModel),
}

/// The whole line grammar: which command (if any) a physical line
/// denotes.  The line is read exactly as it stands: a blank line is one
/// of white space only, a comment keeps the raw line, the selector and
/// separator are the line's first two characters, and the payload is the
/// verbatim remainder — nothing is trimmed except where a variant's own
/// normalization (`E:`, `M:`) says so.
pub open spec fn parse_line_spec(line: Seq<char>) -> ParsedLine {
    if is_blank(line) {
        ParsedLine::Blank
    } else if line[0] == '#' || line[0] == '!' {
        ParsedLine::Cmd(CommandModel::Comment { content: line })
    } else if line.len() < 2 || line[1] != ':' {
        ParsedLine::Bad
    } else {
        let c = line[0];
        let data = line.subrange(2, line.len() as int);
        if c == '*' {
            ParsedLine::Cmd(CommandModel::Label { name: data })
        } else if c == 'T' {
            ParsedLine::Cmd(CommandModel::Tutorial { text: data })
        } else if c == 'I' {
            ParsedLine::Cmd(CommandModel::Instruction { text: data })
        } else if c == 'B' {
            ParsedLine::Cmd(
                CommandModel::Clear {
                    banner: if data.len() == 0 {
                        None
                    } else {
                        Some(data)
                    },
                },
            )
        } else if c == 'G' {
            ParsedLine::Cmd(CommandModel::Goto { label: data })
        } else if c == 'X' {
            ParsedLine::Cmd(CommandModel::Exit)
        } else if c == 'Q' {
            ParsedLine::Cmd(CommandModel::Query { text: data })
        } else if c == 'Y' {
            ParsedLine::Cmd(CommandModel::YesGoto { label: data })
        } else if c == 'N' {
            ParsedLine::Cmd(CommandModel::NoGoto { label: data })
        } else if c == 'D' {
            ParsedLine::Cmd(CommandModel::Drill { text: data, practice_only: false })
        } else if c == 'd' {
            ParsedLine::Cmd(CommandModel::Drill { text: data, practice_only: true })
        } else if c == 'S' {
            ParsedLine::Cmd(CommandModel::SpeedTest { text: data, practice_only: false })
        } else if c == 's' {
            ParsedLine::Cmd(CommandModel::SpeedTest { text: data, practice_only: true })
        } else if c == 't' {
            ParsedLine::Cmd(CommandModel::TutorialFile { path: data })
        } else if c == 'f' {
            ParsedLine::Cmd(CommandModel::DrillFile { path: data, practice_only: false })
        } else if c == 'p' {
            ParsedLine::Cmd(CommandModel::DrillFile { path: data, practice_only: true })
        } else if c == 'z' {
            ParsedLine::Cmd(CommandModel::SpeedTestFile { path: data, practice_only: false })
        } else if c == 'w' {
            ParsedLine::Cmd(CommandModel::SpeedTestFile { path: data, practice_only: true })
        } else if c == 'K' {
            ParsedLine::Cmd(CommandModel::KeyBind { sequence: data })
        } else if c == 'F' {
            ParsedLine::Cmd(CommandModel::OnFailureSet { label: data })
        } else if c == 'E' {
            match percent_spec(data) {
                Some(h) => ParsedLine::Cmd(
                    CommandModel::ErrorMaxSet { percentage: Percent { hundredths: h } },
                ),
                None => ParsedLine::Bad,
            }
        } else if c == 'M' {
            ParsedLine::Cmd(
                CommandModel::Menu { title: menu_title_spec(data), items: Seq::empty() },
            )
        } else {
            ParsedLine::Bad
        }
    }
}

/// Runtime digit test and value.
fn digit_of(c: char) -> (r: Option<u8>)
    ensures
        match r {
            Some(d) => is_digit(c) && d == digit_val(c),
            None => !is_digit(c),
        },
{
    match c {
        '0' => Some(0),
        '1' => Some(1),
        '2' => Some(2),
        '3' => Some(3),
        '4' => Some(4),
        '5' => Some(5),
        '6' => Some(6),
        '7' => Some(7),
        '8' => Some(8),
        '9' => Some(9),
        _ => None,
    }
}

proof fn lemma_digits_value_nonneg(s: Seq<char>)
    ensures
        digits_value(s) >= 0,
    decreases s.len(),
{
    if s.len() > 0 {
        lemma_digits_value_nonneg(s.drop_last());
    }
}

/// Runtime test of [`is_decimal`].
fn check_decimal(s: &str) -> (b: bool)
    ensures
        b == is_decimal(s@),
{
    let n = s.unicode_len();
    let dot = find_char(s, '.', 0);
    match dot {
        Some(j) => {
            if find_char(s, '.', j + 1).is_some() {
                proof {
                    crate::text::lemma_find_char_bounds(s@, '.', 0);
                    crate::text::lemma_find_char_bounds(s@, '.', j + 1);
                }
                return false;
            }
        },
        None => {
        },
    }
    let mut i: usize = 0;
    let mut any: bool = false;
    while i < n
        invariant
            n == s@.len(),
            0 <= i <= n,
            dot matches Some(j) ==> j < n && find_char_spec(s@, '.', 0) == Some(j as int)
                && find_char_spec(s@, '.', j + 1) is None,
            dot is None ==> find_char_spec(s@, '.', 0) is None,
            forall|k: int| 0 <= k < i ==> (is_digit(s@[k]) || s@[k] == '.'),
            any ==> exists|k: int| 0 <= k < i && is_digit(s@[k]),
            !any ==> forall|k: int| 0 <= k < i ==> !is_digit(s@[k]),
        decreases n - i,
    {
        let c = s.get_char(i);
        match digit_of(c) {
            Some(_) => {
                any = true;
            },
            None => {
                if c != '.' {
                    proof {
                        assert(!is_decimal(s@));
                    }
                    return false;
                }
            },
        }
        i = i + 1;
    }
    proof {
        if any {
            // Any two decimal points would both be the first one.
            assert forall|a: int, b2: int|
                0 <= a < b2 < s@.len() implies !(s@[a] == '.' && s@[b2] == '.') by {
                match dot {
                    Some(j) => {
                        crate::text::lemma_find_char_first(s@, '.', 0);
                        crate::text::lemma_find_char_first(s@, '.', j + 1);
                    },
                    None => {
                        crate::text::lemma_find_char_first(s@, '.', 0);
                    },
                }
            }
            assert(is_decimal(s@));
        } else {
            assert(!is_decimal(s@));
        }
    }
    any
}

/// Parse the numeric part of an `E:` payload, in hundredths of a percent.
fn parse_percent(data: &str) -> (r: Option<u32>)
    ensures
        r == percent_spec(data@),
{
    let d = trim(data);
    if str_eq(d, "default") {
        return Some(0);
    }
    let stripped = trim(strip_trailing(strip_trailing(d, '*'), '%'));
    let ghost t = stripped@;
    proof {
        assert(t == trim_spec(strip_trailing_spec(strip_trailing_spec(trim_spec(data@), '*'), '%')));
    }
    let n = stripped.unicode_len();
    if n > 0 && stripped.get_char(0) == '-' {
        // A negative ceiling is no ceiling: it maps to zero, the engine
        // default, as long as a decimal number follows the sign.
        let rest = stripped.substring_char(1, n);
        let ok = check_decimal(rest);
        proof {
            assert(rest@ =~= t.subrange(1, t.len() as int));
        }
        return if ok {
            Some(0)
        } else {
            None
        };
    }
    let dot = find_char(stripped, '.', 0);
    let end = match dot {
        Some(j) => {
            // A second decimal point rules the number out.
            if find_char(stripped, '.', j + 1).is_some() {
                proof {
                    crate::text::lemma_find_char_bounds(t, '.', 0);
                    crate::text::lemma_find_char_bounds(t, '.', j + 1);
                }
                return None;
            }
            j
        },
        None => n,
    };
    // Scan the whole part: all digits, value tracked until it can no
    // longer fit.  A whole part beyond u32::MAX / 100 = 42949672 cannot
    // fit the fixed-point range whatever the fraction adds.
    let mut i: usize = 0;
    let mut acc: u64 = 0;
    let mut big: bool = false;
    while i < end
        invariant
            t == stripped@,
            t == trim_spec(strip_trailing_spec(strip_trailing_spec(trim_spec(data@), '*'), '%')),
            trim_spec(data@) != "default"@,
            !(t.len() > 0 && t[0] == '-'),
            n == t.len(),
            end <= n,
            0 <= i <= end,
            dot matches Some(j) ==> end == j && find_char_spec(t, '.', 0) == Some(end as int),
            dot is None ==> end == n && find_char_spec(t, '.', 0) is None,
            forall|k: int| 0 <= k < i ==> is_digit(t[k]),
            !big ==> acc == digits_value(t.subrange(0, i as int)) && acc <= 42949672,
            big ==> digits_value(t.subrange(0, i as int)) > 42949672,
        decreases end - i,
    {
        let c = stripped.get_char(i);
        match digit_of(c) {
            Some(dv) => {
                proof {
                    assert(t.subrange(0, i as int + 1).drop_last() =~= t.subrange(0, i as int));
                    lemma_digits_value_nonneg(t.subrange(0, i as int));
                }
                if big {
                } else {
                    let next = acc * 10 + (dv as u64);
                    if next > 42949672 {
                        big = true;
                    } else {
                        acc = next;
                    }
                }
            },
            None => {
                // Not a digit; a decimal point cannot occur before `end`.
                proof {
                    if c == '.' {
                        crate::text::lemma_find_char_first(t, '.', 0);
                    }
                    assert(!is_decimal(t));
                }
                return None;
            },
        }
        i = i + 1;
    }
    // Scan the fractional part (if any): all digits, first two kept.
    proof {
        crate::text::lemma_find_char_bounds(t, '.', 0);
    }
    let ghost frac = t.subrange(end + 1, n as int);
    let mut f0: u64 = 0;
    let mut f1: u64 = 0;
    let mut any_frac: bool = false;
    let mut k: usize = if end < n {
        end + 1
    } else {
        n
    };
    while k < n
        invariant
            t == stripped@,
            t == trim_spec(strip_trailing_spec(strip_trailing_spec(trim_spec(data@), '*'), '%')),
            trim_spec(data@) != "default"@,
            !(t.len() > 0 && t[0] == '-'),
            n == t.len(),
            end <= n,
            end < n ==> t[end as int] == '.' && find_char_spec(t, '.', 0) == Some(end as int)
                && end + 1 <= k,
            end == n ==> k == n && find_char_spec(t, '.', 0) is None,
            forall|k2: int| 0 <= k2 < end ==> is_digit(t[k2]),
            k <= n,
            frac == t.subrange(end + 1, n as int),
            forall|m: int| end + 1 <= m < k ==> is_digit(t[m]),
            any_frac == (end < n && k > end + 1),
            end < n && k > end + 1 ==> f0 == 10 * digit_val(frac[0]),
            end < n && k > end + 2 ==> f1 == digit_val(frac[1]),
            k <= end + 2 ==> f1 == 0,
            k <= end + 1 ==> f0 == 0,
            !big ==> acc == digits_value(t.subrange(0, end as int)) && acc <= 42949672,
            big ==> digits_value(t.subrange(0, end as int)) > 42949672,
            f1 <= 9,
            f0 <= 90,
        decreases n - k,
    {
        let c = stripped.get_char(k);
        match digit_of(c) {
            Some(dv) => {
                if k == end + 1 {
                    f0 = 10 * (dv as u64);
                } else if k == end + 2 {
                    f1 = dv as u64;
                }
                any_frac = true;
            },
            None => {
                proof {
                    if c == '.' {
                        assert(t[end as int] == '.' && t[k as int] == '.');
                    }
                    assert(!is_decimal(t));
                }
                return None;
            },
        }
        k = k + 1;
    }
    // At least one digit somewhere.
    if end == 0 && !any_frac {
        proof {
            assert forall|ix: int| 0 <= ix < t.len() implies !is_digit(t[ix]) by {
                if t.len() > 0 {
                    assert(t[0] == '.');
                }
            }
            assert(!is_decimal(t));
        }
        return None;
    }
    proof {
        // The scans cover the whole string, so it is a decimal number.
        assert forall|ix: int| 0 <= ix < t.len() implies (is_digit(t[ix]) || t[ix] == '.') by {}
        if end > 0 {
            assert(is_digit(t[0]));
        } else {
            assert(is_digit(t[end + 1]));
        }
        assert(is_decimal(t));
    }
    let value: u64 = if big {
        proof {
            lemma_decimal_too_big(t, end as int);
        }
        return None;
    } else {
        proof {
            lemma_decimal_value(t, end as int);
        }
        acc * 100 + f0 + f1
    };
    proof {
        if end == n {
            assert(t.subrange(0, end as int) =~= t);
        }
        assert(acc == digits_value(t.subrange(0, end as int)));
        assert(f0 + f1 == frac_hundredths(t.subrange(end + 1, t.len() as int)) || end == n);
        assert(value == decimal_hundredths(t));
        assert(percent_spec(data@) == (if decimal_hundredths(t) <= u32::MAX {
            Some(decimal_hundredths(t) as u32)
        } else {
            None::<u32>
        }));
    }
    if value > 0xffff_ffff {
        None
    } else {
        Some(value as u32)
    }
}

proof fn lemma_decimal_too_big(t: Seq<char>, end: int)
    requires
        0 <= end <= t.len(),
        end == t.len() ==> find_char_spec(t, '.', 0) is None,
        end < t.len() ==> find_char_spec(t, '.', 0) == Some(end),
        digits_value(t.subrange(0, end)) > 42949672,
    ensures
        decimal_hundredths(t) > u32::MAX,
{
    let w = digits_value(t.subrange(0, end));
    if end == t.len() {
        assert(t.subrange(0, end) =~= t);
        assert(decimal_hundredths(t) == w * 100);
    } else {
        let f = frac_hundredths(t.subrange(end + 1, t.len() as int));
        assert(decimal_hundredths(t) == w * 100 + f);
        assert(f >= 0);
    }
    assert(w * 100 >= 42949673 * 100);
}

proof fn lemma_decimal_value(t: Seq<char>, end: int)
    requires
        0 <= end <= t.len(),
        end == t.len() ==> find_char_spec(t, '.', 0) is None,
        end < t.len() ==> find_char_spec(t, '.', 0) == Some(end),
    ensures
        end == t.len() ==> decimal_hundredths(t) == digits_value(t) * 100,
        end < t.len() ==> decimal_hundredths(t) == digits_value(t.subrange(0, end)) * 100
            + frac_hundredths(t.subrange(end + 1, t.len() as int)),
{
    if end == t.len() {
        assert(t.subrange(0, end) =~= t);
    }
}

/// The commands whose payload is taken verbatim from the line (every
/// variant but `E:`, whose number is parsed, and `M:`, whose title may
/// shed its quotes), by their selector characters.
pub open spec fn verbatim_command(c: char, payload: Seq<char>) -> Option<CommandModel> {
    if c == '*' {
        Some(CommandModel::Label { name: payload })
    } else if c == 'T' {
        Some(CommandModel::Tutorial { text: payload })
    } else if c == 'I' {
        Some(CommandModel::Instruction { text: payload })
    } else if c == 'B' {
        Some(
            CommandModel::Clear {
                banner: if payload.len() == 0 {
                    None
                } else {
                    Some(payload)
                },
            },
        )
    } else if c == 'G' {
        Some(CommandModel::Goto { label: payload })
    } else if c == 'X' {
        Some(CommandModel::Exit)
    } else if c == 'Q' {
        Some(CommandModel::Query { text: payload })
    } else if c == 'Y' {
        Some(CommandModel::YesGoto { label: payload })
    } else if c == 'N' {
        Some(CommandModel::NoGoto { label: payload })
    } else if c == 'D' {
        Some(CommandModel::Drill { text: payload, practice_only: false })
    } else if c == 'd' {
        Some(CommandModel::Drill { text: payload, practice_only: true })
    } else if c == 'S' {
        Some(CommandModel::SpeedTest { text: payload, practice_only: false })
    } else if c == 's' {
        Some(CommandModel::SpeedTest { text: payload, practice_only: true })
    } else if c == 't' {
        Some(CommandModel::TutorialFile { path: payload })
    } else if c == 'f' {
        Some(CommandModel::DrillFile { path: payload, practice_only: false })
    } else if c == 'p' {
        Some(CommandModel::DrillFile { path: payload, practice_only: true })
    } else if c == 'z' {
        Some(CommandModel::SpeedTestFile { path: payload, practice_only: false })
    } else if c == 'w' {
        Some(CommandModel::SpeedTestFile { path: payload, practice_only: true })
    } else if c == 'K' {
        Some(CommandModel::KeyBind { sequence: payload })
    } else if c == 'F' {
        Some(CommandModel::OnFailureSet { label: payload })
    } else {
        None
    }
}

/// Law: every well-formed command line `<c>:<payload>` parses to the
/// variant its selector names, with the payload carried over verbatim.
pub proof fn lemma_parse_line_round_trip(c: char, payload: Seq<char>)
    requires
        verbatim_command(c, payload) is Some,
    ensures
        parse_line_spec(seq![c, ':'] + payload) matches ParsedLine::Cmd(m) && Some(m)
            == verbatim_command(c, payload),
{
    let line = seq![c, ':'] + payload;
    assert(line.len() >= 2);
    assert(line[0] == c);
    assert(line[1] == ':');
    assert(!is_wspace(c));
    assert(!is_blank(line));
    assert(line.subrange(2, line.len() as int) =~= payload);
}

impl Command {
    /// Parse a single physical line into a command: `None` for a blank
    /// line, the selected command variant otherwise, or `InvalidCommand`
    /// naming the line number and the line's exact text.
    pub fn parse_line(line: &str, line_number: usize) -> (r: Result<
        Option<Command>,
        ScriptError,
    >)
        ensures
            match r {
                Ok(opt) => match opt {
                    None => parse_line_spec(line@) is Blank,
                    Some(cmd) => parse_line_spec(line@) matches ParsedLine::Cmd(m) && cmd@ == m,
                },
                Err(e) => {
                    &&& parse_line_spec(line@) is Bad
                    &&& e@ matches crate::script::ScriptErrorModel::InvalidCommand {
                        line: l,
                        content,
                    } && l == line_number as int && content == line@
                },
            },
    {
        let n = line.unicode_len();
        if blank(line) {
            return Ok(None);
        }
        let c0 = line.get_char(0);
        if c0 == '#' || c0 == '!' {
            return Ok(Some(Command::Comment { content: line.to_owned() }));
        }
        if n < 2 || line.get_char(1) != ':' {
            return Err(
                ScriptError::InvalidCommand { line: line_number, content: line.to_owned() },
            );
        }
        let data = line.substring_char(2, n);
        let cmd = match c0 {
            '*' => Command::Label { name: data.to_owned() },
            'T' => Command::Tutorial { text: data.to_owned() },
            'I' => Command::Instruction { text: data.to_owned() },
            'B' => Command::Clear {
                banner: if data.unicode_len() == 0 {
                    None
                } else {
                    Some(data.to_owned())
                },
            },
            'G' => Command::Goto { label: data.to_owned() },
            'X' => Command::Exit,
            'Q' => Command::Query { text: data.to_owned() },
            'Y' => Command::YesGoto { label: data.to_owned() },
            'N' => Command::NoGoto { label: data.to_owned() },
            'D' => Command::Drill { text: data.to_owned(), practice_only: false },
            'd' => Command::Drill { text: data.to_owned(), practice_only: true },
            'S' => Command::SpeedTest { text: data.to_owned(), practice_only: false },
            's' => Command::SpeedTest { text: data.to_owned(), practice_only: true },
            't' => Command::TutorialFile { path: data.to_owned() },
            'f' => Command::DrillFile { path: data.to_owned(), practice_only: false },
            'p' => Command::DrillFile { path: data.to_owned(), practice_only: true },
            'z' => Command::SpeedTestFile { path: data.to_owned(), practice_only: false },
            'w' => Command::SpeedTestFile { path: data.to_owned(), practice_only: true },
            'K' => Command::KeyBind { sequence: data.to_owned() },
            'F' => Command::OnFailureSet { label: data.to_owned() },
            'E' => {
                match parse_percent(data) {
                    Some(h) => Command::ErrorMaxSet { percentage: Percent { hundredths: h } },
                    None => {
                        return Err(
                            ScriptError::InvalidCommand {
                                line: line_number,
                                content: line.to_owned(),
                            },
                        );
                    },
                }
            },
            'M' => {
                let d = trim(data);
                let dn = d.unicode_len();
                let title = if dn >= 2 && d.get_char(0) == '"' && d.get_char(dn - 1) == '"' {
                    d.substring_char(1, dn - 1).to_owned()
                } else {
                    d.to_owned()
                };
                let items: Vec<MenuItem> = Vec::new();
                proof {
                    assert(items@.map_values(|it: MenuItem| it@) =~= Seq::<MenuItemModel>::empty());
                }
                Command::Menu { title, items }
            },
            _ => {
                return Err(
                    ScriptError::InvalidCommand { line: line_number, content: line.to_owned() },
                );
            },
        };
        Ok(Some(cmd))
    }
}

} // verus!
