use vstd::prelude::*;
use crate::members::MemberSet;
use crate::scan::same_chars;
use crate::text::chars_of;

verus! {

/// The metadata categories: for each, its folder name under the project root, its
/// type name in a manifest, and whether its unit is a whole folder (a bundle).
pub open spec fn category_table() -> Seq<(Seq<char>, Seq<char>, bool)> {
    seq![
        ("approvalProcesses"@, "ApprovalProcess"@, false),
        ("aura"@, "AuraDefinitionBundle"@, true),
        ("businessProcesses"@, "BusinessProcess"@, false),
        ("classes"@, "ApexClass"@, false),
        ("compactLayouts"@, "CompactLayout"@, false),
        ("customMetadata"@, "CustomMetadata"@, false),
        ("customPermissions"@, "CustomPermission"@, false),
        ("customSettings"@, "CustomSetting"@, false),
        ("externalCredentials"@, "ExternalCredential"@, false),
        ("fieldSets"@, "FieldSet"@, false),
        ("fields"@, "CustomField"@, false),
        ("flexipages"@, "FlexiPage"@, false),
        ("flows"@, "Flow"@, false),
        ("globalValueSets"@, "GlobalValueSet"@, false),
        ("groups"@, "Group"@, false),
        ("labels"@, "CustomLabels"@, false),
        ("layouts"@, "Layout"@, false),
        ("listViews"@, "ListView"@, false),
        ("lwc"@, "LightningComponentBundle"@, true),
        ("namedCredentials"@, "NamedCredential"@, false),
        ("objects"@, "CustomObject"@, false),
        ("pages"@, "ApexPage"@, false),
        ("permissionsetgroups"@, "PermissionSetGroup"@, false),
        ("permissionsets"@, "PermissionSet"@, false),
        ("profiles"@, "Profile"@, false),
        ("quickActions"@, "QuickAction"@, false),
        ("recordTypes"@, "RecordType"@, false),
        ("remoteSiteSettings"@, "RemoteSiteSetting"@, false),
        ("searchLayouts"@, "SearchLayouts"@, false),
        ("standardValueSets"@, "StandardValueSet"@, false),
        ("tabs"@, "CustomTab"@, false),
        ("triggers"@, "ApexTrigger"@, false),
        ("validationRules"@, "ValidationRule"@, false),
        ("webLinks"@, "WebLink"@, false)
    ]
}

/// The position in `category_table()` of the first category whose folder is `key`,
/// searching from `i`; -1 when there is none.
pub open spec fn find_category(t: Seq<(Seq<char>, Seq<char>, bool)>, key: Seq<char>, i: int) -> int
    decreases t.len() - i,
{
    if i < 0 || i >= t.len() {
        -1
    } else if t[i].0 == key {
        i
    } else {
        find_category(t, key, i + 1)
    }
}

/// The position of the category whose folder is `key`, or -1 for an unsupported one.
pub open spec fn category_index(key: Seq<char>) -> int {
    find_category(category_table(), key, 0)
}

pub proof fn lemma_find_category(t: Seq<(Seq<char>, Seq<char>, bool)>, key: Seq<char>, i: int)
    requires
        0 <= i,
    ensures
        -1 <= find_category(t, key, i) < t.len(),
        find_category(t, key, i) >= 0 ==> find_category(t, key, i) >= i && t[find_category(t, key, i)].0 == key,
        find_category(t, key, i) == -1 <==> (forall|j: int| i <= j < t.len() ==> t[j].0 != key),
        forall|j: int| i <= j < find_category(t, key, i) ==> t[j].0 != key,
    decreases t.len() - i,
{
    if i < t.len() && t[i].0 != key {
        lemma_find_category(t, key, i + 1);
    }
}

/// A category, with the members found for it: those to deploy and those to remove.
pub struct MetadataBucket {
    pub file_path_name: String,
    pub package_xml_name: String,
    pub files: MemberSet,
    pub destructive_files: MemberSet,
    pub bundle: bool,
}

impl MetadataBucket {
    pub fn new(file_path_name: &str, package_xml_name: &str, bundle: bool) -> (r: MetadataBucket)
        ensures
            r.file_path_name@ == file_path_name@,
            r.package_xml_name@ == package_xml_name@,
            r.bundle == bundle,
            r.files.wf(),
            r.destructive_files.wf(),
            r.files@.len() == 0,
            r.destructive_files@.len() == 0,
    {
        MetadataBucket {
            file_path_name: file_path_name.to_owned(),
            package_xml_name: package_xml_name.to_owned(),
            files: MemberSet::new(),
            destructive_files: MemberSet::new(),
            bundle,
        }
    }
}

/// `b` holds the categories of the table, in its order, with well-formed member sets.
pub open spec fn buckets_match_table(b: Seq<MetadataBucket>) -> bool {
    &&& b.len() == category_table().len()
    &&& forall|i: int|
        0 <= i < b.len() ==> {
            &&& (#[trigger] b[i]).file_path_name@ == category_table()[i].0
            &&& b[i].package_xml_name@ == category_table()[i].1
            &&& b[i].bundle == category_table()[i].2
            &&& b[i].files.wf()
            &&& b[i].destructive_files.wf()
        }
}

/// One bucket for each category of the table, in its order, all empty.
#[verifier::rlimit(50)]
pub fn common_metadata_buckets() -> (r: Vec<MetadataBucket>)
    ensures
        buckets_match_table(r@),
        forall|i: int| 0 <= i < r@.len() ==> (#[trigger] r@[i]).files@.len() == 0 && r@[i].destructive_files@.len() == 0,
{
    let mut r: Vec<MetadataBucket> = Vec::new();
    r.push(MetadataBucket::new("approvalProcesses", "ApprovalProcess", false));
    r.push(MetadataBucket::new("aura", "AuraDefinitionBundle", true));
    r.push(MetadataBucket::new("businessProcesses", "BusinessProcess", false));
    r.push(MetadataBucket::new("classes", "ApexClass", false));
    r.push(MetadataBucket::new("compactLayouts", "CompactLayout", false));
    r.push(MetadataBucket::new("customMetadata", "CustomMetadata", false));
    r.push(MetadataBucket::new("customPermissions", "CustomPermission", false));
    r.push(MetadataBucket::new("customSettings", "CustomSetting", false));
    r.push(MetadataBucket::new("externalCredentials", "ExternalCredential", false));
    r.push(MetadataBucket::new("fieldSets", "FieldSet", false));
    r.push(MetadataBucket::new("fields", "CustomField", false));
    r.push(MetadataBucket::new("flexipages", "FlexiPage", false));
    r.push(MetadataBucket::new("flows", "Flow", false));
    r.push(MetadataBucket::new("globalValueSets", "GlobalValueSet", false));
    r.push(MetadataBucket::new("groups", "Group", false));
    r.push(MetadataBucket::new("labels", "CustomLabels", false));
    r.push(MetadataBucket::new("layouts", "Layout", false));
    r.push(MetadataBucket::new("listViews", "ListView", false));
    r.push(MetadataBucket::new("lwc", "LightningComponentBundle", true));
    r.push(MetadataBucket::new("namedCredentials", "NamedCredential", false));
    r.push(MetadataBucket::new("objects", "CustomObject", false));
    r.push(MetadataBucket::new("pages", "ApexPage", false));
    r.push(MetadataBucket::new("permissionsetgroups", "PermissionSetGroup", false));
    r.push(MetadataBucket::new("permissionsets", "PermissionSet", false));
    r.push(MetadataBucket::new("profiles", "Profile", false));
    r.push(MetadataBucket::new("quickActions", "QuickAction", false));
    r.push(MetadataBucket::new("recordTypes", "RecordType", false));
    r.push(MetadataBucket::new("remoteSiteSettings", "RemoteSiteSetting", false));
    r.push(MetadataBucket::new("searchLayouts", "SearchLayouts", false));
    r.push(MetadataBucket::new("standardValueSets", "StandardValueSet", false));
    r.push(MetadataBucket::new("tabs", "CustomTab", false));
    r.push(MetadataBucket::new("triggers", "ApexTrigger", false));
    r.push(MetadataBucket::new("validationRules", "ValidationRule", false));
    r.push(MetadataBucket::new("webLinks", "WebLink", false));
    r
}

/// The index of the bucket for the folder `key`, or `None` for an unsupported category.
pub fn find_bucket_index(buckets: &Vec<MetadataBucket>, key: &Vec<char>) -> (r: Option<usize>)
    requires
        buckets_match_table(buckets@),
    ensures
        r == (if category_index(key@) >= 0 { Some(category_index(key@) as usize) } else { None }),
{
    proof {
        lemma_find_category(category_table(), key@, 0);
    }
    let mut i: usize = 0;
    while i < buckets.len()
        invariant
            i <= buckets.len(),
            buckets_match_table(buckets@),
            find_category(category_table(), key@, 0) == find_category(category_table(), key@, i as int),
        decreases buckets.len() - i,
    {
        let name = chars_of(buckets[i].file_path_name.as_str());
        if same_chars(&name, key) {
            return Some(i);
        }
        i += 1;
    }
    None
}

} // verus!
