use vstd::prelude::*;
use crate::options::{Automation, Opt};
use crate::params::{value_of, with_entry, ParamMap};

verus! {

/// What a run carries: the parameters from the command line, the configuration
/// variables, and where it works.
pub struct ToolContext {
    pub should_quit: bool,
    pub printing_on: bool,
    pub working_path: String,
    pub command_parameters: ParamMap,
    pub configuration_variables: ParamMap,
    pub time_snapshots: Vec<String>,
}

impl ToolContext {
    /// A context that works in `working_path`, with no parameter and no variable.
    pub fn new(working_path: String) -> (r: ToolContext)
        ensures
            !r.should_quit,
            r.printing_on,
            r.working_path@ == working_path@,
            r.command_parameters@.len() == 0,
            r.configuration_variables@.len() == 0,
            r.command_parameters.wf(),
            r.configuration_variables.wf(),
            r.time_snapshots@.len() == 0,
    {
        ToolContext {
            should_quit: false,
            printing_on: true,
            working_path,
            command_parameters: ParamMap::new(),
            configuration_variables: ParamMap::new(),
            time_snapshots: Vec::new(),
        }
    }
}

/// `p` with `k` set to `v` when `cond` holds.
pub open spec fn entry_if(p: Seq<(Seq<char>, Seq<char>)>, cond: bool, k: Seq<char>, v: Seq<char>) -> Seq<(Seq<char>, Seq<char>)> {
    if cond {
        with_entry(p, k, v)
    } else {
        p
    }
}

/// The command parameters `p` with those that the options `o` set, in this order:
/// `bbuser`, `branch`, `stringonly`, `noclean`, `supported`, `git`, `variable_set`,
/// `get_all`, `feature`.
pub open spec fn option_parameters(p: Seq<(Seq<char>, Seq<char>)>, o: Opt) -> Seq<(Seq<char>, Seq<char>)> {
    let with_user = entry_if(p, o.bitbucket_user is Some, "bbuser"@, o.bitbucket_user->0@);
    let with_branch = with_entry(with_user, "branch"@, o.branch@);
    let with_string_only = entry_if(with_branch, o.string_only, "stringonly"@, "--string-only"@);
    let with_no_clean = entry_if(with_string_only, o.no_clean, "noclean"@, "--noclean"@);
    let with_supported = entry_if(with_no_clean, o.list_supported_mode, "supported"@, "--supported"@);
    let with_git = entry_if(with_supported, o.automation == Automation::Git, "git"@, "--git"@);
    let with_variable = entry_if(with_git, o.config_set is Some, "variable_set"@, o.config_set->0@);
    let with_get_all = entry_if(with_variable, o.config_get_all, "get_all"@, "--get-all"@);
    entry_if(with_get_all, o.feature is Some, "feature"@, o.feature->0@)
}

/// Records the command line options as command parameters. A run that only lists the
/// supported categories sets nothing and is to quit.
pub fn configure_tool_context(tool_context: &mut ToolContext, options: &Opt)
    ensures
        final(tool_context).working_path == old(tool_context).working_path,
        final(tool_context).configuration_variables == old(tool_context).configuration_variables,
        final(tool_context).printing_on == old(tool_context).printing_on,
        old(tool_context).command_parameters.wf() ==> final(tool_context).command_parameters.wf(),
        options.list_supported_mode ==> final(tool_context).should_quit
            && final(tool_context).command_parameters@ == old(tool_context).command_parameters@,
        !options.list_supported_mode ==> final(tool_context).should_quit == old(tool_context).should_quit
            && final(tool_context).command_parameters@ == option_parameters(old(tool_context).command_parameters@, *options),
{
    if options.list_supported_mode {
        tool_context.should_quit = true;
        return;
    }
    match &options.bitbucket_user {
        Some(user) => tool_context.command_parameters.insert("bbuser".to_owned(), user.clone()),
        None => {},
    }
    tool_context.command_parameters.insert("branch".to_owned(), options.branch.clone());
    if options.string_only {
        tool_context.command_parameters.insert("stringonly".to_owned(), "--string-only".to_owned());
    }
    if options.no_clean {
        tool_context.command_parameters.insert("noclean".to_owned(), "--noclean".to_owned());
    }
    if options.list_supported_mode {
        tool_context.command_parameters.insert("supported".to_owned(), "--supported".to_owned());
    }
    if options.automation == Automation::Git {
        tool_context.command_parameters.insert("git".to_owned(), "--git".to_owned());
    }
    match &options.config_set {
        Some(v) => tool_context.command_parameters.insert("variable_set".to_owned(), v.clone()),
        None => {},
    }
    if options.config_get_all {
        tool_context.command_parameters.insert("get_all".to_owned(), "--get-all".to_owned());
    }
    match &options.feature {
        Some(f) => tool_context.command_parameters.insert("feature".to_owned(), f.clone()),
        None => {},
    }
}

/// The branch compared when none is given.
pub open spec fn default_compare_branch() -> Seq<char> {
    "qa"@
}

/// The feature branch: the parameter `feature`, else what git reported as the current
/// branch, else empty. The compare branch: the parameter `branch`, else `qa`.
pub fn branch_names(tool_context: &ToolContext, feature_branch_from_git: &str) -> (r: (String, String))
    ensures
        r.0@ == (match value_of(tool_context.command_parameters@, "feature"@) {
            Some(f) => f,
            None => feature_branch_from_git@,
        }),
        r.1@ == (match value_of(tool_context.command_parameters@, "branch"@) {
            Some(b) => b,
            None => default_compare_branch(),
        }),
{
    let feature = match tool_context.command_parameters.get("feature") {
        Some(f) => f,
        None => feature_branch_from_git.to_owned(),
    };
    let compare = match tool_context.command_parameters.get("branch") {
        Some(b) => b,
        None => "qa".to_owned(),
    };
    (feature, compare)
}

} // verus!
