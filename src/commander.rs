use vstd::prelude::*;

use crate::model::{
    same_family, spec_action_from_config, spec_subject_from_str, Command, CommandAction,
    CommandModel, CommandSubject,
};
use crate::text::str_eq;

verus! {

/// Characters stripped from the start of a configuration line.
pub open spec fn is_lead_trim(c: char) -> bool {
    c == ' ' || c == '\t' || c == '-' || c == '"'
}

/// Characters stripped from the end of a configuration line.
pub open spec fn is_tail_trim(c: char) -> bool {
    c == '"' || c == ':'
}

/// The first index at or after `i` that is not a leading decoration.
pub open spec fn lead_end(s: Seq<char>, i: int) -> int
    decreases s.len() - i,
{
    if i >= s.len() {
        s.len() as int
    } else if is_lead_trim(s[i]) {
        lead_end(s, i + 1)
    } else {
        i
    }
}

/// The end of `s[lo..j]` once trailing decorations are stripped.
pub open spec fn tail_start(s: Seq<char>, lo: int, j: int) -> int
    decreases j - lo,
{
    if j <= lo {
        lo
    } else if is_tail_trim(s[j - 1]) {
        tail_start(s, lo, j - 1)
    } else {
        j
    }
}

/// Spaces and tabs in the leading run of whitespace from `i`.
pub open spec fn indent_counts(s: Seq<char>, i: int) -> (nat, nat)
    decreases s.len() - i,
{
    if i < 0 || i >= s.len() {
        (0, 0)
    } else if s[i] == ' ' {
        (indent_counts(s, i + 1).0 + 1, indent_counts(s, i + 1).1)
    } else if s[i] == '\t' {
        (indent_counts(s, i + 1).0, indent_counts(s, i + 1).1 + 1)
    } else {
        (0, 0)
    }
}

/// Nesting level of a line: one per two spaces, one per tab.
pub open spec fn spec_indentation(s: Seq<char>) -> nat {
    indent_counts(s, 0).0 / 2 + indent_counts(s, 0).1
}

/// The line without its leading decoration and trailing quote or colon.
pub open spec fn spec_cleaned(s: Seq<char>) -> Seq<char> {
    let a = lead_end(s, 0);
    s.subrange(a, tail_start(s, a, s.len() as int))
}

/// Splits a configuration line into its nesting level and its bare text.
pub fn cleaned_line_with_indentation<'a>(line: &'a str) -> (r: (usize, &'a str))
    ensures
        r.0 == spec_indentation(line@),
        r.1@ == spec_cleaned(line@),
{
    let n = line.unicode_len();
    let mut spaces: usize = 0;
    let mut tabs: usize = 0;
    let mut i: usize = 0;
    while i < n && is_indent_exec(line.get_char(i))
        invariant
            n == line@.len(),
            i <= n,
            spaces + tabs == i,
            indent_counts(line@, 0).0 == spaces + indent_counts(line@, i as int).0,
            indent_counts(line@, 0).1 == tabs + indent_counts(line@, i as int).1,
        decreases n - i,
    {
        if line.get_char(i) == ' ' {
            spaces += 1;
        } else {
            tabs += 1;
        }
        i += 1;
    }
    assert(indent_counts(line@, i as int) == (0nat, 0nat));
    let mut a: usize = 0;
    while a < n && is_lead_trim_exec(line.get_char(a))
        invariant
            n == line@.len(),
            a <= n,
            lead_end(line@, 0) == lead_end(line@, a as int),
        decreases n - a,
    {
        a += 1;
    }
    let mut b: usize = n;
    while b > a && is_tail_trim_exec(line.get_char(b - 1))
        invariant
            n == line@.len(),
            a <= b <= n,
            lead_end(line@, 0) == a,
            tail_start(line@, a as int, n as int) == tail_start(line@, a as int, b as int),
        decreases b,
    {
        b -= 1;
    }
    (spaces / 2 + tabs, line.substring_char(a, b))
}

fn is_indent_exec(c: char) -> (r: bool)
    ensures
        r == (c == ' ' || c == '\t'),
{
    c == ' ' || c == '\t'
}

fn is_lead_trim_exec(c: char) -> (r: bool)
    ensures
        r == is_lead_trim(c),
{
    c == ' ' || c == '\t' || c == '-' || c == '"'
}

fn is_tail_trim_exec(c: char) -> (r: bool)
    ensures
        r == is_tail_trim(c),
{
    c == '"' || c == ':'
}

/// What the command-map reader knows after some lines.
pub struct ParseState {
    pub parsing: bool,
    pub location: Option<Seq<char>>,
    pub action: Option<CommandAction>,
    pub locations: Seq<Seq<char>>,
    pub commands: Seq<CommandModel>,
}

pub open spec fn parse_start() -> ParseState {
    ParseState {
        parsing: false,
        location: None,
        action: None,
        locations: Seq::empty(),
        commands: Seq::empty(),
    }
}

/// One line of the command map. Until a `commands` line nothing counts; then
/// level 1 names a location, level 2 an action family under it, level 3 a
/// subject under that; any other level ends the commands block. Unknown
/// keywords are skipped.
pub open spec fn parse_line(st: ParseState, line: Seq<char>) -> ParseState {
    let level = spec_indentation(line);
    let text = spec_cleaned(line);
    if !st.parsing {
        if text == "commands"@ {
            ParseState { parsing: true, ..st }
        } else {
            st
        }
    } else if level == 1 {
        ParseState { location: Some(text), locations: st.locations.push(text), ..st }
    } else if level == 2 {
        ParseState { action: spec_action_from_config(text), ..st }
    } else if level == 3 {
        match (st.location, st.action, spec_subject_from_str(text)) {
            (Some(location), Some(action), Some(subject)) => ParseState {
                commands: st.commands.push((location, action, subject)),
                ..st
            },
            _ => st,
        }
    } else {
        ParseState { parsing: false, ..st }
    }
}

pub open spec fn parse_lines(lines: Seq<Seq<char>>) -> ParseState
    decreases lines.len(),
{
    if lines.len() == 0 {
        parse_start()
    } else {
        parse_line(parse_lines(lines.drop_last()), lines.last())
    }
}

pub open spec fn lines_view(lines: Seq<String>) -> Seq<Seq<char>> {
    lines.map_values(|l: String| l@)
}

/// The commands of a command map.
pub struct CommandMap {
    pub commands: Vec<Command>,
}

/// Reads a command map given as its lines. Returns the commands and the
/// locations in the order they appear.
pub fn parse_command_map(lines: &Vec<String>) -> (r: (CommandMap, Vec<String>))
    ensures
        r.0.commands@.len() == parse_lines(lines_view(lines@)).commands.len(),
        forall|i: int|
            0 <= i < r.0.commands@.len() ==> (#[trigger] r.0.commands@[i]).model()
                == parse_lines(lines_view(lines@)).commands[i],
        r.1@.len() == parse_lines(lines_view(lines@)).locations.len(),
        forall|i: int|
            0 <= i < r.1@.len() ==> (#[trigger] r.1@[i])@ == parse_lines(
                lines_view(lines@),
            ).locations[i],
{
    let ghost lv = lines_view(lines@);
    let mut locations: Vec<String> = Vec::new();
    let mut commands: Vec<Command> = Vec::new();
    let mut is_parsing_commands = false;
    let mut current_location: Option<String> = None;
    let mut current_action: Option<CommandAction> = None;
    let mut i: usize = 0;
    assert(lv.take(0) =~= Seq::<Seq<char>>::empty());
    while i < lines.len()
        invariant
            lv == lines_view(lines@),
            i <= lines@.len(),
            ({
                let st = parse_lines(lv.take(i as int));
                &&& st.parsing == is_parsing_commands
                &&& st.action == current_action
                &&& (match current_location {
                    Some(l) => st.location == Some(l@),
                    None => st.location is None,
                })
                &&& commands@.len() == st.commands.len()
                &&& forall|j: int|
                    0 <= j < commands@.len() ==> (#[trigger] commands@[j]).model()
                        == st.commands[j]
                &&& locations@.len() == st.locations.len()
                &&& forall|j: int|
                    0 <= j < locations@.len() ==> (#[trigger] locations@[j])@ == st.locations[j]
            }),
        decreases lines@.len() - i,
    {
        let ghost prev = parse_lines(lv.take(i as int));
        assert(lv.take(i + 1).drop_last() =~= lv.take(i as int));
        assert(lv.take(i + 1).last() == lines@[i as int]@);
        let (indentation, line) = cleaned_line_with_indentation(lines[i].as_str());
        if !is_parsing_commands {
            if str_eq(line, "commands") {
                is_parsing_commands = true;
            }
        } else if indentation == 1 {
            let location = line.to_owned();
            locations.push(location.clone());
            current_location = Some(location);
        } else if indentation == 2 {
            current_action = CommandAction::from_command_parser(line);
        } else if indentation == 3 {
            let subject = CommandSubject::from_command_parser(line);
            match (&current_location, current_action, subject) {
                (Some(location), Some(action), Some(subject)) => {
                    commands.push(Command { location: location.clone(), action, subject });
                },
                _ => {},
            }
        } else {
            is_parsing_commands = false;
        }
        i += 1;
    }
    assert(lv.take(lines@.len() as int) =~= lv);
    (CommandMap { commands }, locations)
}

/// The registry holds a triple with the same location and subject and an
/// action of the same family.
pub open spec fn registry_supports(registry: Seq<CommandModel>, c: CommandModel) -> bool {
    exists|i: int|
        0 <= i < registry.len() && (#[trigger] registry[i]).0 == c.0 && registry[i].2 == c.2
            && same_family(registry[i].1, c.1)
}

/// The table of supported commands and the known locations.
pub struct Commander {
    pub commands: Vec<Command>,
    pub locations: Vec<String>,
}

impl Commander {
    pub open spec fn registry(&self) -> Seq<CommandModel> {
        self.commands@.map_values(|c: Command| c.model())
    }

    pub open spec fn location_names(&self) -> Seq<Seq<char>> {
        self.locations@.map_values(|l: String| l@)
    }

    /// Builds the registry from the lines of a command map.
    pub fn new(config_lines: &Vec<String>) -> (r: Commander)
        ensures
            r.registry() == parse_lines(lines_view(config_lines@)).commands,
            r.location_names() == parse_lines(lines_view(config_lines@)).locations,
    {
        let (map, locations) = parse_command_map(config_lines);
        let r = Commander { commands: map.commands, locations };
        assert(r.registry() =~= parse_lines(lines_view(config_lines@)).commands);
        assert(r.location_names() =~= parse_lines(lines_view(config_lines@)).locations);
        r
    }

    /// The known locations, in the order the command map gives them.
    pub fn known_locations(&self) -> (r: &Vec<String>)
        ensures
            r@ == self.locations@,
    {
        &self.locations
    }

    /// Whether the command's location, subject and action family are
    /// registered.
    pub fn supports_command(&self, command: &Command) -> (r: bool)
        ensures
            r == registry_supports(self.registry(), command.model()),
    {
        let mut i: usize = 0;
        while i < self.commands.len()
            invariant
                i <= self.commands@.len(),
                forall|j: int|
                    0 <= j < i ==> !({
                        let s = #[trigger] self.registry()[j];
                        s.0 == command.model().0 && s.2 == command.model().2 && same_family(
                            s.1,
                            command.model().1,
                        )
                    }),
            decreases self.commands@.len() - i,
        {
            let supported = &self.commands[i];
            if supported.location == command.location && supported.subject == command.subject
                && supported.action.is_same_action(&command.action) {
                assert(self.registry()[i as int] == supported.model());
                return true;
            }
            i += 1;
        }
        false
    }
}

/// The registry answers exactly for what was loaded: each loaded triple is
/// supported, and a triple is supported only if one with the same location,
/// subject and action family was loaded, so a partial match is refused.
pub proof fn lemma_supported_iff_loaded(lines: Seq<Seq<char>>, c: CommandModel)
    ensures
        forall|i: int|
            0 <= i < parse_lines(lines).commands.len() ==> registry_supports(
                parse_lines(lines).commands,
                #[trigger] parse_lines(lines).commands[i],
            ),
        registry_supports(parse_lines(lines).commands, c) <==> exists|i: int|
            0 <= i < parse_lines(lines).commands.len() && (#[trigger] parse_lines(
                lines,
            ).commands[i]).0 == c.0 && parse_lines(lines).commands[i].2 == c.2 && same_family(
                parse_lines(lines).commands[i].1,
                c.1,
            ),
{
    let cmds = parse_lines(lines).commands;
    assert forall|i: int| 0 <= i < cmds.len() implies registry_supports(
        cmds,
        #[trigger] cmds[i],
    ) by {
        assert(same_family(cmds[i].1, cmds[i].1));
    }
}

} // verus!
