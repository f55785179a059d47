use vstd::prelude::*;
use crate::change::{split_lines, split_to_lines_vec};
use crate::context::ToolContext;
use crate::params::{value_of, with_entry, ParamMap};
use crate::scan::{find, find_class, same_chars, slice, CharClass};
use crate::text::{chars_of, string_of};

verus! {

/// The names of the variables that the configuration file can hold.
pub fn initialize_configurable_variables() -> (r: Vec<String>)
    ensures
        r@.len() == 5,
        r@[0]@ == "bitbucket_username"@,
        r@[1]@ == "bitbucket_app_password"@,
        r@[2]@ == "bitbucket_workspace"@,
        r@[3]@ == "bitbucket_repository"@,
        r@[4]@ == "working_path"@,
{
    let mut r: Vec<String> = Vec::new();
    r.push("bitbucket_username".to_owned());
    r.push("bitbucket_app_password".to_owned());
    r.push("bitbucket_workspace".to_owned());
    r.push("bitbucket_repository".to_owned());
    r.push("working_path".to_owned());
    r
}

/// A `key=value` argument split at its first `=`; without one, all of it is the key
/// and the value is empty.
pub open spec fn key_value_of(s: Seq<char>) -> (Seq<char>, Seq<char>) {
    let e = find_class(s, 0, CharClass::Equals);
    if e >= s.len() {
        (s, Seq::empty())
    } else {
        (s.subrange(0, e), s.subrange(e + 1, s.len() as int))
    }
}

pub fn read_arg(variable_key_value_string: &str) -> (r: (String, String))
    ensures
        (r.0@, r.1@) == key_value_of(variable_key_value_string@),
{
    let s = chars_of(variable_key_value_string);
    let e = find(&s, 0, CharClass::Equals);
    if e >= s.len() {
        (variable_key_value_string.to_owned(), String::new())
    } else {
        (string_of(&slice(&s, 0, e)), string_of(&slice(&s, e + 1, s.len())))
    }
}

/// How many characters the executable's own name takes at the end of its path.
pub open spec fn exe_name_len(windows: bool) -> nat {
    if windows { 7 } else { 3 }
}

/// The folder of the executable whose path is `exe_path`: the path without the
/// executable's name.
pub fn config_root_path(exe_path: &str, windows: bool) -> (r: String)
    requires
        exe_path@.len() > exe_name_len(windows),
    ensures
        r@ == exe_path@.subrange(0, exe_path@.len() - exe_name_len(windows)),
{
    let s = chars_of(exe_path);
    let n: usize = if windows { 7 } else { 3 };
    string_of(&slice(&s, 0, s.len() - n))
}

/// The configuration file, in the folder `config_root`.
pub fn config_file_path(config_root: &str) -> (r: String)
    ensures
        r@ == config_root@ + "config.txt"@,
{
    let mut r = config_root.to_owned();
    r.append("config.txt");
    r
}

/// What a new configuration file holds.
pub fn default_config_file_content() -> (r: String)
    ensures
        r@ == "bitbucket_username=[enter value]\nbitbucket_app_password=[enter value]\nbitbucket_workspace=[enter value]\nbitbucket_repository=[enter value]"@,
{
    "bitbucket_username=[enter value]\nbitbucket_app_password=[enter value]\nbitbucket_workspace=[enter value]\nbitbucket_repository=[enter value]".to_owned()
}

/// The pieces of `s` between line feeds, the last one included.
pub open spec fn pieces(s: Seq<char>) -> Seq<Seq<char>> {
    split_lines(s.push('\n'))
}

/// A line that takes at most one byte in UTF-8: empty, or one ASCII character.
pub open spec fn at_most_one_byte(l: Seq<char>) -> bool {
    l.len() == 0 || (l.len() == 1 && l[0] < '\u{80}')
}

/// The variables `vars` with those of the lines `lines` set in turn. A line of fewer
/// than two bytes is passed over.
pub open spec fn variables_from_lines(vars: Seq<(Seq<char>, Seq<char>)>, lines: Seq<Seq<char>>) -> Seq<(Seq<char>, Seq<char>)>
    decreases lines.len(),
{
    if lines.len() == 0 {
        vars
    } else {
        let before = variables_from_lines(vars, lines.drop_last());
        let l = lines.last();
        if at_most_one_byte(l) {
            before
        } else {
            with_entry(before, key_value_of(l).0, key_value_of(l).1)
        }
    }
}

/// Sets the variables that the configuration text `config_file_content` holds, one
/// `key=value` on each line. A variable `working_path` becomes the working path.
pub fn load_variables(tool_context: &mut ToolContext, config_file_content: &str)
    ensures
        final(tool_context).should_quit == old(tool_context).should_quit,
        final(tool_context).command_parameters == old(tool_context).command_parameters,
        old(tool_context).configuration_variables.wf() ==> final(tool_context).configuration_variables.wf(),
        config_file_content@.len() == 0 ==> *final(tool_context) == *old(tool_context),
        config_file_content@.len() > 0 ==> final(tool_context).configuration_variables@ == variables_from_lines(
            old(tool_context).configuration_variables@,
            pieces(config_file_content@),
        ),
        config_file_content@.len() > 0 ==> final(tool_context).working_path@ == (match value_of(
            final(tool_context).configuration_variables@,
            "working_path"@,
        ) {
            Some(p) => p,
            None => old(tool_context).working_path@,
        }),
{
    if chars_of(config_file_content).len() == 0 {
        return;
    }
    let mut text = config_file_content.to_owned();
    text.push('\n');
    let lines = split_to_lines_vec(text.as_str());
    let ghost ls = pieces(config_file_content@);
    let mut i: usize = 0;
    while i < lines.len()
        invariant
            i <= lines.len(),
            lines@.len() == ls.len(),
            forall|m: int| 0 <= m < lines@.len() ==> lines@[m]@ == ls[m],
            tool_context.should_quit == old(tool_context).should_quit,
            tool_context.command_parameters == old(tool_context).command_parameters,
            tool_context.working_path == old(tool_context).working_path,
            old(tool_context).configuration_variables.wf() ==> tool_context.configuration_variables.wf(),
            tool_context.configuration_variables@ == variables_from_lines(
                old(tool_context).configuration_variables@,
                ls.take(i as int),
            ),
        decreases lines.len() - i,
    {
        assert(ls.take(i as int + 1).drop_last() =~= ls.take(i as int));
        let line = chars_of(lines[i].as_str());
        if !(line.len() == 0 || (line.len() == 1 && line[0] < '\u{80}')) {
            let (key, value) = read_arg(lines[i].as_str());
            tool_context.configuration_variables.insert(key, value);
        }
        i += 1;
    }
    assert(ls.take(ls.len() as int) =~= ls);
    match tool_context.configuration_variables.get("working_path") {
        Some(p) => {
            tool_context.working_path = p;
        },
        None => {},
    }
}

/// Sets the variable that a `key=value` argument names.
pub fn set_variable(tool_context: &mut ToolContext, variable_argument: &str)
    ensures
        final(tool_context).configuration_variables@ == with_entry(
            old(tool_context).configuration_variables@,
            key_value_of(variable_argument@).0,
            key_value_of(variable_argument@).1,
        ),
        final(tool_context).command_parameters == old(tool_context).command_parameters,
        final(tool_context).working_path == old(tool_context).working_path,
        final(tool_context).should_quit == old(tool_context).should_quit,
        old(tool_context).configuration_variables.wf() ==> final(tool_context).configuration_variables.wf(),
{
    let (key, value) = read_arg(variable_argument);
    tool_context.configuration_variables.insert(key, value);
}

/// The text of a configuration file: one `key=value` line for each variable.
pub open spec fn variables_text(vars: Seq<(Seq<char>, Seq<char>)>) -> Seq<char>
    decreases vars.len(),
{
    if vars.len() == 0 {
        Seq::empty()
    } else {
        variables_text(vars.drop_last()) + vars.last().0 + "="@ + vars.last().1 + "\n"@
    }
}

pub fn variables_file_content(vars: &ParamMap) -> (r: String)
    ensures
        r@ == variables_text(vars@),
{
    let mut r = String::new();
    let mut i: usize = 0;
    while i < vars.entries.len()
        invariant
            i <= vars.entries.len(),
            r@ == variables_text(vars@.take(i as int)),
        decreases vars.entries.len() - i,
    {
        assert(vars@.take(i as int + 1).drop_last() =~= vars@.take(i as int));
        r.append(vars.entries[i].0.as_str());
        r.append("=");
        r.append(vars.entries[i].1.as_str());
        r.append("\n");
        i += 1;
    }
    assert(vars@.take(vars@.len() as int) =~= vars@);
    r
}

/// The variable whose value is not shown.
pub open spec fn secret_variable() -> Seq<char> {
    "bitbucket_app_password"@
}

/// One line for each variable, as `key=value`; the app password shows as `*******`.
pub open spec fn listing_text(vars: Seq<(Seq<char>, Seq<char>)>) -> Seq<char>
    decreases vars.len(),
{
    if vars.len() == 0 {
        Seq::empty()
    } else if vars.last().0 == secret_variable() {
        listing_text(vars.drop_last()) + vars.last().0 + "=*******\n"@
    } else {
        listing_text(vars.drop_last()) + vars.last().0 + "="@ + vars.last().1 + "\n"@
    }
}

/// The variables as they are shown to the user.
pub fn variables_listing(vars: &ParamMap) -> (r: String)
    ensures
        r@ == listing_text(vars@),
{
    let mut r = String::new();
    let secret = chars_of("bitbucket_app_password");
    let mut i: usize = 0;
    while i < vars.entries.len()
        invariant
            i <= vars.entries.len(),
            secret@ == secret_variable(),
            r@ == listing_text(vars@.take(i as int)),
        decreases vars.entries.len() - i,
    {
        assert(vars@.take(i as int + 1).drop_last() =~= vars@.take(i as int));
        r.append(vars.entries[i].0.as_str());
        if same_chars(&chars_of(vars.entries[i].0.as_str()), &secret) {
            r.append("=*******\n");
        } else {
            r.append("=");
            r.append(vars.entries[i].1.as_str());
            r.append("\n");
        }
        i += 1;
    }
    assert(vars@.take(vars@.len() as int) =~= vars@);
    r
}

/// The value that stands for a variable not set yet.
pub open spec fn placeholder_value() -> Seq<char> {
    "[enter value]"@
}

/// Whether the user must be asked for the variable `key`: it is not set, or still
/// holds the placeholder.
pub fn needs_prompt(vars: &ParamMap, key: &str) -> (r: bool)
    ensures
        r == (match value_of(vars@, key@) {
            Some(v) => v == placeholder_value(),
            None => true,
        }),
{
    match vars.get(key) {
        Some(v) => same_chars(&chars_of(v.as_str()), &chars_of("[enter value]")),
        None => true,
    }
}

/// What a configuration command asks to be done outside.
#[derive(Clone, Copy, Debug, PartialEq, Eq, Structural)]
pub enum ConfigAction {
    /// Nothing: no configuration command was given.
    Nothing,
    /// Show the names of the configurable variables.
    ListVariables,
    /// Show all variables.
    GetAll,
    /// A variable was set: write the configuration file.
    WriteVariables,
}

/// Runs the configuration command among the parameters, if any; a run stops after it.
/// A variable to set is set here; what is to be shown or written is returned.
pub fn configure(tool_context: &mut ToolContext) -> (r: ConfigAction)
    ensures
        final(tool_context).command_parameters == old(tool_context).command_parameters,
        final(tool_context).working_path == old(tool_context).working_path,
        old(tool_context).configuration_variables.wf() ==> final(tool_context).configuration_variables.wf(),
        value_of(old(tool_context).command_parameters@, "list_variables"@) is Some ==> r == ConfigAction::ListVariables
            && *final(tool_context) == *old(tool_context),
        value_of(old(tool_context).command_parameters@, "list_variables"@) is None
            ==> final(tool_context).should_quit,
        value_of(old(tool_context).command_parameters@, "list_variables"@) is None
            && value_of(old(tool_context).command_parameters@, "get_all"@) is Some ==> r == ConfigAction::GetAll
            && final(tool_context).configuration_variables == old(tool_context).configuration_variables,
        value_of(old(tool_context).command_parameters@, "list_variables"@) is None
            && value_of(old(tool_context).command_parameters@, "get_all"@) is None
            && value_of(old(tool_context).command_parameters@, "variable_set"@) is Some ==> r == ConfigAction::WriteVariables
            && final(tool_context).configuration_variables@ == with_entry(
                old(tool_context).configuration_variables@,
                key_value_of(value_of(old(tool_context).command_parameters@, "variable_set"@)->0).0,
                key_value_of(value_of(old(tool_context).command_parameters@, "variable_set"@)->0).1,
            ),
        value_of(old(tool_context).command_parameters@, "list_variables"@) is None
            && value_of(old(tool_context).command_parameters@, "get_all"@) is None
            && value_of(old(tool_context).command_parameters@, "variable_set"@) is None ==> r == ConfigAction::Nothing
            && final(tool_context).configuration_variables == old(tool_context).configuration_variables,
{
    if tool_context.command_parameters.contains_key("list_variables") {
        return ConfigAction::ListVariables;
    }
    if tool_context.command_parameters.contains_key("get_all") {
        tool_context.should_quit = true;
        return ConfigAction::GetAll;
    }
    match tool_context.command_parameters.get("variable_set") {
        Some(arg) => {
            set_variable(tool_context, arg.as_str());
            tool_context.should_quit = true;
            ConfigAction::WriteVariables
        },
        None => {
            tool_context.should_quit = true;
            ConfigAction::Nothing
        },
    }
}

} // verus!
