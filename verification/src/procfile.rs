//! The configuration syntax: one process per non-blank line, written
//! `name: command [arguments...]`, where the name is made of letters,
//! digits and underscores, the delimiter is the first colon, and everything
//! after it (trimmed) is split on single spaces into a command token
//! followed by zero or more argument tokens. Lines of any other shape are
//! silently skipped. Declaration order is preserved.

use crate::text::{
    chars_vec, is_line_ws, is_name_char, join_char, lemma_join_split, lemma_split_char_len,
    name_char, split_char, split_vec, string_from_chars, subvec, trim_vec, trim_ws,
};
use vstd::prelude::*;
use vstd::string::StringExecFns;

verus! {

/// The mathematical content of one declared process.
pub ghost struct ProcessModel {
    pub name: Seq<char>,
    pub command: Seq<char>,
    pub options: Seq<Seq<char>>,
}

/// A single declared process: its display name, the command to run and the
/// command's arguments.
pub struct Process {
    /// The declaration's name label.
    pub name: String,
    /// The command to run.
    pub command: String,
    /// The command's arguments.
    pub options: Vec<String>,
}

impl View for Process {
    type V = ProcessModel;

    open spec fn view(&self) -> ProcessModel {
        ProcessModel {
            name: self.name@,
            command: self.command@,
            options: self.options.deep_view(),
        }
    }
}

/// The views of a sequence of parsed processes.
pub open spec fn views_of(ps: Seq<Process>) -> Seq<ProcessModel> {
    ps.map_values(|p: Process| p@)
}

/// Position `k` is the delimiting colon of a well-shaped declaration line:
/// a non-empty run of name characters before it, and at least one character
/// after it.
pub open spec fn line_match_at(line: Seq<char>, k: int) -> bool {
    &&& 1 <= k
    &&& k + 1 < line.len()
    &&& line[k] == ':'
    &&& forall|j: int| 0 <= j < k ==> is_name_char(line[j])
}

/// Whether the line declares a process.
pub open spec fn line_matches(line: Seq<char>) -> bool {
    exists|k: int| line_match_at(line, k)
}

/// The position of the delimiting colon of a well-shaped line.
pub open spec fn line_colon(line: Seq<char>) -> int {
    choose|k: int| line_match_at(line, k)
}

/// The process a well-shaped line declares: the name before the colon, and
/// the trimmed remainder split on single spaces into a command and its
/// arguments.
pub open spec fn line_process(line: Seq<char>) -> ProcessModel
    recommends
        line_matches(line),
{
    let k = line_colon(line);
    let toks = split_char(trim_ws(line.skip(k + 1)), ' ');
    ProcessModel { name: line.subrange(0, k), command: toks[0], options: toks.drop_first() }
}

/// The processes declared by a sequence of lines, in order.
pub open spec fn parse_lines(lines: Seq<Seq<char>>) -> Seq<ProcessModel>
    decreases lines.len(),
{
    if lines.len() == 0 {
        Seq::<ProcessModel>::empty()
    } else if line_matches(lines[0]) {
        seq![line_process(lines[0])] + parse_lines(lines.drop_first())
    } else {
        parse_lines(lines.drop_first())
    }
}

/// The processes declared by a configuration text: its lines are the pieces
/// between newlines, and each well-shaped line contributes one process, in
/// declaration order.
pub open spec fn parse_spec(content: Seq<char>) -> Seq<ProcessModel> {
    parse_lines(split_char(content, '\n'))
}

/// The command-and-arguments portion of a process, formatted as the command
/// followed by the arguments joined by single spaces.
pub open spec fn display_of(p: ProcessModel) -> Seq<char> {
    p.command + seq![' '] + join_char(p.options, ' ')
}

/// A colon is not a name character, so a well-shaped line has exactly one
/// position that can delimit it.
proof fn lemma_colon_unique(line: Seq<char>, k1: int, k2: int)
    requires
        line_match_at(line, k1),
        line_match_at(line, k2),
    ensures
        k1 == k2,
{
    assert(!is_name_char(':'));
    if k1 < k2 {
        assert(is_name_char(line[k1]));
    }
    if k2 < k1 {
        assert(is_name_char(line[k2]));
    }
}

/// A configuration error: the text was unreadable, or it declared no
/// process where at least one was required.
#[derive(Debug, Clone, Copy, PartialEq, Eq)]
pub enum ConfigError {
    /// The configuration text could not be read at all.
    Unreadable,
    /// No line of the text declared a process.
    NoProcesses,
}

/// Parses one line; yields the declared process if the line is well shaped.
fn parse_line(line: &Vec<char>) -> (r: Option<Process>)
    ensures
        r is Some <==> line_matches(line@),
        r matches Some(p) ==> p@ == line_process(line@),
{
    let mut j: usize = 0;
    while j < line.len() && name_char(line[j])
        invariant
            0 <= j <= line@.len(),
            forall|i: int| 0 <= i < j ==> is_name_char(line@[i]),
        decreases line@.len() - j,
    {
        j = j + 1;
    }
    if 1 <= j && j < line.len() && line[j] == ':' && j + 1 < line.len() {
        proof {
            assert(line_match_at(line@, j as int));
            lemma_colon_unique(line@, line_colon(line@), j as int);
        }
        let name_chars = subvec(line, 0, j);
        let tail = subvec(line, j + 1, line.len());
        proof {
            assert(tail@ =~= line@.skip(j + 1));
        }
        let trimmed = trim_vec(&tail);
        let toks = split_vec(&trimmed, ' ');
        let name = string_from_chars(&name_chars);
        let command = string_from_chars(&toks[0]);
        let mut options: Vec<String> = Vec::new();
        let mut idx: usize = 1;
        while idx < toks.len()
            invariant
                1 <= idx <= toks@.len(),
                options.deep_view() == toks.deep_view().subrange(1, idx as int),
            decreases toks@.len() - idx,
        {
            let ghost prev = options.deep_view();
            options.push(string_from_chars(&toks[idx]));
            proof {
                assert(options.deep_view() =~~= prev.push(toks.deep_view()[idx as int]));
                assert(options.deep_view() =~~= toks.deep_view().subrange(1, idx + 1));
            }
            idx = idx + 1;
        }
        proof {
            assert(options.deep_view() =~~= toks.deep_view().drop_first());
            assert(toks@[0]@ =~= toks@[0].deep_view());
            assert(name_chars@ =~= line@.subrange(0, j as int));
        }
        Some(Process { name, command, options })
    } else {
        proof {
            assert forall|k: int| !line_match_at(line@, k) by {
                if line_match_at(line@, k) {
                    assert(!is_name_char(':'));
                    if k < j {
                        assert(is_name_char(line@[k]));
                        assert(false);
                    } else if k > j {
                        assert(j < line@.len());
                        assert(is_name_char(line@[j as int]));
                        assert(false);
                    } else {
                        assert(false);
                    }
                }
            }
        }
        None
    }
}

/// Parses a configuration text: every well-shaped line contributes one
/// process, in declaration order, and every other line is skipped. Never
/// fails; a text declaring nothing yields an empty list.
pub fn parse(content: &str) -> (r: Result<Vec<Process>, ConfigError>)
    ensures
        (r matches Ok(ps) && views_of(ps@) == parse_spec(content@)),
{
    let chars = chars_vec(content);
    let lines = split_vec(&chars, '\n');
    let mut out: Vec<Process> = Vec::new();
    let mut i: usize = 0;
    proof {
        assert(lines.deep_view().skip(0) =~~= lines.deep_view());
        assert(views_of(out@) =~~= Seq::<ProcessModel>::empty());
    }
    while i < lines.len()
        invariant
            0 <= i <= lines@.len(),
            lines.deep_view() == split_char(chars@, '\n'),
            chars@ == content@,
            parse_spec(content@) == views_of(out@) + parse_lines(lines.deep_view().skip(i as int)),
        decreases lines@.len() - i,
    {
        let ghost rest = lines.deep_view().skip(i as int);
        proof {
            assert(rest[0] == lines.deep_view()[i as int]);
            assert(lines@[i as int]@ =~= lines@[i as int].deep_view());
            assert(rest.drop_first() =~~= lines.deep_view().skip(i + 1));
        }
        let ghost prev = views_of(out@);
        match parse_line(&lines[i]) {
            Some(p) => {
                out.push(p);
                proof {
                    assert(views_of(out@) =~~= prev.push(p@));
                    assert(prev.push(p@) + parse_lines(lines.deep_view().skip(i + 1)) =~~= prev + (
                    seq![p@] + parse_lines(lines.deep_view().skip(i + 1))));
                }
            },
            None => {},
        }
        i = i + 1;
    }
    proof {
        assert(parse_lines(lines.deep_view().skip(lines@.len() as int)) =~~= Seq::<
            ProcessModel,
        >::empty());
        assert(views_of(out@) + Seq::<ProcessModel>::empty() =~~= views_of(out@));
    }
    Ok(out)
}

/// Parses a configuration text that must declare at least one process;
/// yields `ConfigError::NoProcesses` exactly when it declares none.
pub fn parse_nonempty(content: &str) -> (r: Result<Vec<Process>, ConfigError>)
    ensures
        parse_spec(content@).len() == 0 <==> (r matches Err(e) && e == ConfigError::NoProcesses),
        parse_spec(content@).len() > 0 ==> (r matches Ok(ps) && views_of(ps@) == parse_spec(
            content@,
        )),
{
    match parse(content) {
        Ok(ps) => {
            if ps.len() == 0 {
                Err(ConfigError::NoProcesses)
            } else {
                proof {
                    assert(views_of(ps@).len() == ps@.len());
                }
                Ok(ps)
            }
        },
        Err(e) => Err(e),
    }
}

impl Process {
    /// The command-and-arguments portion as text: the command followed by
    /// the arguments joined by single spaces.
    pub fn to_string(&self) -> (r: String)
        ensures
            r@ == display_of(self@),
    {
        let mut out = self.command.clone();
        out.append(" ");
        let mut i: usize = 0;
        proof {
            reveal_strlit(" ");
            assert(self.options.deep_view().take(0) =~~= Seq::<Seq<char>>::empty());
            assert(out@ =~= self.command@ + seq![' ']);
        }
        while i < self.options.len()
            invariant
                0 <= i <= self.options@.len(),
                out@ == self.command@ + seq![' '] + join_char(
                    self.options.deep_view().take(i as int),
                    ' ',
                ),
            decreases self.options@.len() - i,
        {
            let ghost opts = self.options.deep_view();
            if i > 0 {
                out.append(" ");
            }
            out.append(self.options[i].as_str());
            proof {
                reveal_strlit(" ");
                assert(self.options@[i as int]@ =~= opts[i as int]);
                assert(opts.take(i + 1) =~~= opts.take(i as int).push(opts[i as int]));
                if i > 0 {
                    crate::text::lemma_join_push(opts.take(i as int), opts[i as int], ' ');
                    assert(out@ =~= self.command@ + seq![' '] + join_char(opts.take(i + 1), ' '));
                } else {
                    assert(opts.take(1) =~~= seq![opts[0]]);
                    assert(join_char(opts.take(1), ' ') == opts[0]);
                    assert(out@ =~= self.command@ + seq![' '] + join_char(opts.take(1), ' '));
                }
            }
            i = i + 1;
        }
        proof {
            assert(self.options.deep_view().take(self.options@.len() as int)
                =~~= self.options.deep_view());
        }
        out
    }
}

/// Law: formatting a parsed process as the command followed by the
/// arguments joined by single spaces reproduces the command-and-arguments
/// portion of its line (the trimmed text after the colon) exactly, whenever
/// that portion holds at least one argument.
pub proof fn lemma_display_round_trip(line: Seq<char>)
    requires
        line_matches(line),
        line_process(line).options.len() > 0,
    ensures
        display_of(line_process(line)) == trim_ws(line.skip(line_colon(line) + 1)),
{
    let t = trim_ws(line.skip(line_colon(line) + 1));
    let toks = split_char(t, ' ');
    lemma_join_split(t, ' ');
    lemma_split_char_len(t, ' ');
    assert(toks.len() >= 2);
    assert(join_char(toks, ' ') == toks[0] + seq![' '] + join_char(toks.drop_first(), ' '));
}

} // verus!
