use sfmanifest::config::{
    config_file_path, config_root_path, configure, default_config_file_content, initialize_configurable_variables,
    load_variables, needs_prompt, read_arg, set_variable, variables_file_content, variables_listing, ConfigAction,
};
use sfmanifest::context::{branch_names, configure_tool_context, ToolContext};
use sfmanifest::options::{Automation, Opt};
use sfmanifest::params::ParamMap;

fn context() -> ToolContext {
    ToolContext::new(String::from("/work"))
}

fn options() -> Opt {
    Opt {
        feature: None,
        branch: String::from("qa"),
        string_only: false,
        bitbucket_user: None,
        no_clean: false,
        list_supported_mode: false,
        automation: Automation::Bitbucket,
        config_set: None,
        config_get_all: false,
    }
}

#[test]
fn read_arg_splits_at_the_first_equals() {
    assert_eq!(read_arg("key=a=b"), (String::from("key"), String::from("a=b")));
    assert_eq!(read_arg("lonely"), (String::from("lonely"), String::new()));
    assert_eq!(read_arg("=v"), (String::new(), String::from("v")));
}

#[test]
fn configurable_variables_are_listed() {
    let v = initialize_configurable_variables();
    assert_eq!(
        v,
        vec!["bitbucket_username", "bitbucket_app_password", "bitbucket_workspace", "bitbucket_repository", "working_path"]
    );
}

#[test]
fn load_variables_reads_each_line() {
    let mut t = context();
    load_variables(&mut t, "bitbucket_username=me\n\nx\nbitbucket_workspace=ws\nbitbucket_username=you");
    assert_eq!(t.configuration_variables.get("bitbucket_username"), Some(String::from("you")));
    assert_eq!(t.configuration_variables.get("bitbucket_workspace"), Some(String::from("ws")));
    assert_eq!(t.configuration_variables.get("x"), None);
    assert_eq!(t.configuration_variables.len(), 2);
    assert_eq!(t.working_path, "/work");
}

#[test]
fn load_variables_sets_the_working_path() {
    let mut t = context();
    load_variables(&mut t, "working_path=/elsewhere\n");
    assert_eq!(t.working_path, "/elsewhere");
}

#[test]
fn load_variables_of_empty_text_changes_nothing() {
    let mut t = context();
    load_variables(&mut t, "");
    assert_eq!(t.configuration_variables.len(), 0);
}

#[test]
fn set_variable_replaces_the_value() {
    let mut t = context();
    set_variable(&mut t, "bitbucket_workspace=one");
    set_variable(&mut t, "bitbucket_workspace=two");
    assert_eq!(t.configuration_variables.get("bitbucket_workspace"), Some(String::from("two")));
    assert_eq!(t.configuration_variables.len(), 1);
}

#[test]
fn variables_file_and_listing() {
    let mut vars = ParamMap::new();
    vars.insert(String::from("bitbucket_username"), String::from("me"));
    vars.insert(String::from("bitbucket_app_password"), String::from("secret"));
    assert_eq!(variables_file_content(&vars), "bitbucket_username=me\nbitbucket_app_password=secret\n");
    assert_eq!(variables_listing(&vars), "bitbucket_username=me\nbitbucket_app_password=*******\n");
}

#[test]
fn prompt_is_needed_for_missing_or_placeholder_values() {
    let mut vars = ParamMap::new();
    vars.insert(String::from("a"), String::from("[enter value]"));
    vars.insert(String::from("b"), String::from("set"));
    assert!(needs_prompt(&vars, "a"));
    assert!(!needs_prompt(&vars, "b"));
    assert!(needs_prompt(&vars, "c"));
}

#[test]
fn config_paths() {
    assert_eq!(config_root_path("/opt/tool/sfm", false), "/opt/tool/");
    assert_eq!(config_root_path("C:\\tool\\sfm.exe", true), "C:\\tool\\");
    assert_eq!(config_file_path("/opt/tool/"), "/opt/tool/config.txt");
    assert!(default_config_file_content().starts_with("bitbucket_username=[enter value]\n"));
}

#[test]
fn configure_sets_a_variable_and_quits() {
    let mut t = context();
    t.command_parameters.insert(String::from("variable_set"), String::from("bitbucket_repository=repo"));
    assert_eq!(configure(&mut t), ConfigAction::WriteVariables);
    assert!(t.should_quit);
    assert_eq!(t.configuration_variables.get("bitbucket_repository"), Some(String::from("repo")));
}

#[test]
fn configure_get_all_and_nothing() {
    let mut t = context();
    t.command_parameters.insert(String::from("get_all"), String::from("--get-all"));
    assert_eq!(configure(&mut t), ConfigAction::GetAll);
    assert!(t.should_quit);
    let mut n = context();
    assert_eq!(configure(&mut n), ConfigAction::Nothing);
    assert!(n.should_quit);
    let mut l = context();
    l.command_parameters.insert(String::from("list_variables"), String::new());
    assert_eq!(configure(&mut l), ConfigAction::ListVariables);
    assert!(!l.should_quit);
}

#[test]
fn options_become_parameters() {
    let mut t = context();
    let mut o = options();
    o.feature = Some(String::from("feature/x"));
    o.string_only = true;
    o.automation = Automation::Git;
    o.bitbucket_user = Some(String::from("me"));
    configure_tool_context(&mut t, &o);
    let p = &t.command_parameters;
    assert_eq!(p.get("branch"), Some(String::from("qa")));
    assert_eq!(p.get("feature"), Some(String::from("feature/x")));
    assert_eq!(p.get("stringonly"), Some(String::from("--string-only")));
    assert_eq!(p.get("git"), Some(String::from("--git")));
    assert_eq!(p.get("bbuser"), Some(String::from("me")));
    assert_eq!(p.get("noclean"), None);
    assert!(!t.should_quit);
}

#[test]
fn listing_mode_quits_without_parameters() {
    let mut t = context();
    let mut o = options();
    o.list_supported_mode = true;
    configure_tool_context(&mut t, &o);
    assert!(t.should_quit);
    assert_eq!(t.command_parameters.len(), 0);
}

#[test]
fn branch_names_prefer_parameters() {
    let mut t = context();
    assert_eq!(branch_names(&t, "main"), (String::from("main"), String::from("qa")));
    t.command_parameters.insert(String::from("feature"), String::from("f"));
    t.command_parameters.insert(String::from("branch"), String::from("dev"));
    assert_eq!(branch_names(&t, "main"), (String::from("f"), String::from("dev")));
}

#[test]
fn automation_names_ignore_case() {
    assert_eq!(Automation::from_name("GIT").ok(), Some(Automation::Git));
    assert_eq!(Automation::from_name("B").ok(), Some(Automation::Bitbucket));
    assert_eq!("Bitbucket".parse::<Automation>().ok(), Some(Automation::Bitbucket));
    assert!(Automation::from_name("svn").is_err());
    assert_eq!(Automation::from_name("svn").err().map(|e| e.message()), Some(String::from("Invalid automation mode")));
    assert_eq!(Automation::default(), Automation::Bitbucket);
    assert_eq!(Automation::Git.name(), "Git");
}

#[test]
fn load_variables_reads_a_one_character_non_ascii_line() {
    let mut t = context();
    load_variables(&mut t, "\u{e9}\na\n");
    assert_eq!(t.configuration_variables.get("\u{e9}"), Some(String::new()));
    assert_eq!(t.configuration_variables.get("a"), None);
    assert_eq!(t.configuration_variables.len(), 1);
}
