use sfmanifest::categories::common_metadata_buckets;
use sfmanifest::change::{parse_change_line, split_to_lines_vec, ChangeRecord, ChangeStatus};
use sfmanifest::members::MemberSet;
use sfmanifest::order::lex_less;
use sfmanifest::manifest::{build_manifests, sort_metadata_buckets, ManifestBundle, MAXIMUM_DIFF_FILE_SIZE};

const PROLOG: &str = "<?xml version=\"1.0\" encoding=\"UTF-8\"?>\n<Package xmlns=\"http://soap.sforce.com/2006/04/metadata\">\n";
const EPILOG: &str = "\t<version>64.0</version>\n</Package>";

fn doc(blocks: &str) -> String {
    format!("{}{}{}", PROLOG, blocks, EPILOG)
}

fn block(members: &[&str], name: &str) -> String {
    let mut s = String::from("\t<types>\n");
    for m in members {
        s.push_str(&format!("\t\t<members>{}</members>\n", m));
    }
    s.push_str(&format!("\t\t<name>{}</name>\n\t</types>\n", name));
    s
}

fn run(lines: &[&str]) -> ManifestBundle {
    let v: Vec<String> = lines.iter().map(|l| l.to_string()).collect();
    sort_metadata_buckets(&v)
}

#[test]
fn modified_class_is_deployed() {
    let r = run(&["M\tforce-app/main/default/classes/Foo.cls"]);
    assert_eq!(r.manifest, doc(&block(&["Foo"], "ApexClass")));
    assert_eq!(r.destructive_manifest, doc(""));
    assert!(r.unsupported_categories.is_empty());
    assert!(!r.diff_too_large);
}

#[test]
fn classifying_twice_gives_the_same_documents() {
    let lines = [
        "M\tforce-app/main/default/classes/Zeta.cls",
        "A\tforce-app/main/default/classes/Alpha.cls",
        "D\tforce-app/main/default/triggers/OldTrigger.trigger",
        "M\tforce-app/main/default/lwc/card/card.js",
    ];
    let first = run(&lines);
    let second = run(&lines);
    assert_eq!(first.manifest, second.manifest);
    assert_eq!(first.destructive_manifest, second.destructive_manifest);
}

#[test]
fn order_and_repeats_do_not_change_the_documents() {
    let a = run(&[
        "M\tforce-app/main/default/classes/Zeta.cls",
        "A\tforce-app/main/default/classes/Alpha.cls",
    ]);
    let b = run(&[
        "A\tforce-app/main/default/classes/Alpha.cls",
        "M\tforce-app/main/default/classes/Zeta.cls",
        "A\tforce-app/main/default/classes/Alpha.cls",
    ]);
    assert_eq!(a.manifest, b.manifest);
    assert_eq!(a.manifest, doc(&block(&["Alpha", "Zeta"], "ApexClass")));
}

#[test]
fn members_sort_case_sensitively() {
    let r = run(&[
        "M\tforce-app/main/default/classes/apple.cls",
        "M\tforce-app/main/default/classes/Banana.cls",
        "M\tforce-app/main/default/classes/Ban.cls",
    ]);
    assert_eq!(r.manifest, doc(&block(&["Ban", "Banana", "apple"], "ApexClass")));
}

#[test]
fn basic_member_ignores_the_extension() {
    let r = run(&[
        "M\tforce-app/main/default/classes/Foo.cls",
        "M\tforce-app/main/default/classes/Foo.cls-meta.xml",
    ]);
    assert_eq!(r.manifest, doc(&block(&["Foo"], "ApexClass")));
    let p = run(&["M\tforce-app/main/default/profiles/Admin.profile-meta.xml"]);
    assert_eq!(p.manifest, doc(&block(&["Admin"], "Profile")));
}

#[test]
fn bundle_files_collapse_to_the_folder() {
    let r = run(&[
        "M\tforce-app/main/default/lwc/myCard/myCard.js",
        "M\tforce-app/main/default/lwc/myCard/myCard.html",
        "A\tforce-app/main/default/lwc/myCard/__tests__/myCard.test.js",
        "M\tforce-app/main/default/aura/Widget/WidgetController.js",
    ]);
    assert_eq!(
        r.manifest,
        doc(&format!(
            "{}{}",
            block(&["Widget"], "AuraDefinitionBundle"),
            block(&["myCard"], "LightningComponentBundle")
        ))
    );
}

#[test]
fn object_field_goes_to_custom_field() {
    let r = run(&["M\tforce-app/main/default/objects/Account/fields/Foo__c.field-meta.xml"]);
    assert_eq!(r.manifest, doc(&block(&["Account.Foo__c"], "CustomField")));
}

#[test]
fn object_list_view_goes_to_list_view() {
    let r = run(&["A\tforce-app/main/default/objects/Case/listViews/Open.listView-meta.xml"]);
    assert_eq!(r.manifest, doc(&block(&["Case.Open"], "ListView")));
}

#[test]
fn object_itself_goes_to_custom_object() {
    let r = run(&["M\tforce-app/main/default/objects/Account.object-meta.xml"]);
    assert_eq!(r.manifest, doc(&block(&["Account"], "CustomObject")));
    let nested = run(&["M\tforce-app/main/default/objects/Account/Account.object-meta.xml"]);
    assert_eq!(nested.manifest, doc(&block(&["Account"], "CustomObject")));
}

#[test]
fn object_item_of_unknown_sub_category_is_dropped() {
    let r = run(&["M\tforce-app/main/default/objects/Account/gadgets/Thing.gadget-meta.xml"]);
    assert_eq!(r.manifest, doc(""));
    assert!(r.unsupported_categories.is_empty());
}

#[test]
fn deleted_class_is_destructive_only() {
    let r = run(&["D\tforce-app/main/default/classes/Foo.cls"]);
    assert_eq!(r.manifest, doc(""));
    assert_eq!(r.destructive_manifest, doc(&block(&["Foo"], "ApexClass")));
}

#[test]
fn renamed_file_is_destructive_for_its_old_path() {
    let r = run(&["R100\tforce-app/main/default/classes/Old.cls\tforce-app/main/default/classes/New.cls"]);
    assert_eq!(r.manifest, doc(""));
    assert_eq!(r.destructive_manifest, doc(&block(&["Old"], "ApexClass")));
}

#[test]
fn custom_labels_become_a_wildcard() {
    let r = run(&["M\tforce-app/main/default/labels/CustomLabels.labels-meta.xml"]);
    assert_eq!(r.manifest, doc(&block(&["*"], "CustomLabels")));
}

#[test]
fn custom_labels_are_kept_in_the_destructive_manifest() {
    let r = run(&["D\tforce-app/main/default/labels/CustomLabels.labels-meta.xml"]);
    assert_eq!(r.destructive_manifest, doc(&block(&["CustomLabels"], "CustomLabels")));
}

#[test]
fn unknown_category_is_reported_once() {
    let r = run(&["M\tforce-app/main/default/unknownType/X.foo"]);
    assert_eq!(r.manifest, doc(""));
    assert_eq!(r.destructive_manifest, doc(""));
    assert_eq!(r.unsupported_categories, vec![String::from("unknownType")]);
}

#[test]
fn paths_outside_the_root_are_skipped() {
    let r = run(&[
        "M\tREADME.md",
        "M\tforce-app/test/default/classes/Foo.cls",
        "M\tforce-app/main/default/classes",
        "",
        "x",
    ]);
    assert_eq!(r.manifest, doc(""));
    assert_eq!(r.destructive_manifest, doc(""));
    assert!(r.unsupported_categories.is_empty());
}

#[test]
fn too_many_changes_give_empty_documents() {
    let lines: Vec<String> = (0..MAXIMUM_DIFF_FILE_SIZE)
        .map(|i| format!("M\tforce-app/main/default/classes/C{}.cls", i))
        .collect();
    let r = sort_metadata_buckets(&lines);
    assert!(r.diff_too_large);
    assert_eq!(r.manifest, doc(""));
    assert_eq!(r.destructive_manifest, doc(""));
    assert!(!r.manifest.contains("<types>"));
}

#[test]
fn one_change_under_the_limit_is_classified() {
    let lines: Vec<String> = (0..MAXIMUM_DIFF_FILE_SIZE - 1)
        .map(|i| format!("M\tforce-app/main/default/classes/C{}.cls", i))
        .collect();
    let r = sort_metadata_buckets(&lines);
    assert!(!r.diff_too_large);
    assert!(r.manifest.contains("<members>C4998</members>"));
}

#[test]
fn quick_action_and_custom_metadata_names() {
    let r = run(&[
        "M\tforce-app/main/default/quickActions/Account.NewCase.quickAction-meta.xml",
        "M\tforce-app/main/default/customMetadata/Setting.Default.md-meta.xml",
    ]);
    assert_eq!(
        r.manifest,
        doc(&format!(
            "{}{}",
            block(&["Setting.Default"], "CustomMetadata"),
            block(&["Account.NewCase"], "QuickAction")
        ))
    );
}

#[test]
fn deleted_quick_action_is_destructive() {
    let r = run(&["D\tforce-app/main/default/quickActions/Log.quickAction-meta.xml"]);
    assert_eq!(r.destructive_manifest, doc(&block(&["Log"], "QuickAction")));
}

#[test]
fn categories_follow_table_order() {
    let r = run(&[
        "M\tforce-app/main/default/triggers/T.trigger",
        "M\tforce-app/main/default/classes/C.cls",
        "M\tforce-app/main/default/flows/F.flow-meta.xml",
    ]);
    assert_eq!(
        r.manifest,
        doc(&format!("{}{}{}", block(&["C"], "ApexClass"), block(&["F"], "Flow"), block(&["T"], "ApexTrigger")))
    );
}

#[test]
fn build_manifests_takes_records() {
    let records = vec![
        ChangeRecord { change_code: String::from("A"), path: String::from("force-app/main/default/pages/Home.page") },
        ChangeRecord { change_code: String::from("D"), path: String::from("force-app/main/default/tabs/Old.tab-meta.xml") },
    ];
    let r = build_manifests(&records);
    assert_eq!(r.manifest, doc(&block(&["Home"], "ApexPage")));
    assert_eq!(r.destructive_manifest, doc(&block(&["Old"], "CustomTab")));
}

#[test]
fn table_has_every_category_empty() {
    let b = common_metadata_buckets();
    assert_eq!(b.len(), 34);
    assert_eq!(b[3].file_path_name, "classes");
    assert_eq!(b[3].package_xml_name, "ApexClass");
    assert!(b[18].bundle);
    assert!(b.iter().all(|x| x.files.len() == 0 && x.destructive_files.len() == 0));
}

#[test]
fn parse_line_with_tab() {
    let r = parse_change_line("M\tforce-app/main/default/classes/A.cls");
    assert_eq!(r.change_code, "M");
    assert_eq!(r.path, "force-app/main/default/classes/A.cls");
    assert_eq!(r.status(), ChangeStatus::Modified);
}

#[test]
fn parse_rename_line_keeps_old_path() {
    let r = parse_change_line("R072\tforce-app/a/Old.cls\tforce-app/a/New.cls");
    assert_eq!(r.change_code, "R072");
    assert_eq!(r.path, "force-app/a/Old.cls");
    assert_eq!(r.status(), ChangeStatus::Renamed);
    let remote = parse_change_line("R       force-app/a/Old.cls       force-app/a/New.cls");
    assert_eq!(remote.path, "force-app/a/Old.cls");
    let bare = parse_change_line("R100\tforce-app/a/Makefile\tforce-app/a/Build");
    assert_eq!(bare.path, "force-app/a/Makefile");
    let dotted = parse_change_line("R090\tforce-app/a.b/my file.js\tforce-app/c/new.js");
    assert_eq!(dotted.path, "force-app/a.b/my file.js");
    let single = parse_change_line("R100\tforce-app/a/Only.cls");
    assert_eq!(single.path, "force-app/a/Only.cls");
}

#[test]
fn parse_line_keeps_the_rest_of_the_line() {
    let r = parse_change_line("A  my dir/My File.txt trailing\r\n");
    assert_eq!(r.change_code, "A");
    assert_eq!(r.path, "my dir/My File.txt trailing");
    let m = parse_change_line("M\tforce-app/a.b/my file.js");
    assert_eq!(m.path, "force-app/a.b/my file.js");
}

#[test]
fn parse_line_without_blank() {
    let r = parse_change_line("M");
    assert_eq!(r.change_code, "M");
    assert_eq!(r.path, "");
    let lead = parse_change_line(" path/x.cls");
    assert_eq!(lead.change_code, "");
    assert_eq!(lead.path, "path/x.cls");
}

#[test]
fn split_lines_drops_an_unfinished_last_line() {
    assert_eq!(split_to_lines_vec("a\nb\n"), vec![String::from("a"), String::from("b")]);
    assert_eq!(split_to_lines_vec("a\n\nb"), vec![String::from("a"), String::new()]);
    assert!(split_to_lines_vec("").is_empty());
}

#[test]
fn status_codes_and_words() {
    assert_eq!(ChangeStatus::from_code("A"), ChangeStatus::Added);
    assert_eq!(ChangeStatus::from_code("D"), ChangeStatus::Deleted);
    assert_eq!(ChangeStatus::from_code("?"), ChangeStatus::Unknown);
    assert_eq!(ChangeStatus::from_code(""), ChangeStatus::Unknown);
    assert_eq!(ChangeStatus::from_word("removed"), ChangeStatus::Deleted);
    assert_eq!(ChangeStatus::from_word("merge conflict"), ChangeStatus::MergeConflict);
    assert_eq!(ChangeStatus::from_word("remote deleted").letter(), 'D');
    assert_eq!(ChangeStatus::from_word("merge conflict").letter(), 'M');
    assert_eq!(ChangeStatus::from_word("Unknown").letter(), '?');
}

#[test]
fn new_bundle_is_empty() {
    let b = ManifestBundle::new();
    assert!(b.manifest.is_empty() && b.destructive_manifest.is_empty());
    assert!(b.unsupported_categories.is_empty() && !b.diff_too_large);
}

#[test]
fn member_set_sorts_and_dedupes() {
    let mut s = MemberSet::new();
    for m in ["b", "a", "B", "b", "ab"] {
        s.insert(m.chars().collect());
    }
    assert_eq!(s.len(), 4);
    assert_eq!(s.members(), vec!["B", "a", "ab", "b"]);
}

#[test]
fn lex_order_puts_prefixes_first() {
    let a: Vec<char> = "Acc".chars().collect();
    let b: Vec<char> = "Account".chars().collect();
    assert!(lex_less(&a, &b));
    assert!(!lex_less(&b, &a));
    assert!(!lex_less(&a, &a));
}

#[test]
fn empty_custom_metadata_name_is_empty() {
    let r = run(&["M\tforce-app/main/default/customMetadata/.md-meta.xml"]);
    assert_eq!(r.manifest, doc(&block(&[""], "CustomMetadata")));
}

#[test]
fn deleted_bundle_files_collapse_in_the_destructive_manifest() {
    let r = run(&[
        "D\tforce-app/main/default/lwc/myCard/myCard.js",
        "D\tforce-app/main/default/lwc/myCard/myCard.html",
    ]);
    assert_eq!(r.manifest, doc(""));
    assert_eq!(r.destructive_manifest, doc(&block(&["myCard"], "LightningComponentBundle")));
}
