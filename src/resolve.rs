use vstd::prelude::*;
use crate::categories::MetadataBucket;
use crate::scan::{find, find_class, slice, CharClass};
use crate::text::chars_of;

verus! {

/// A change is destructive when its code begins with the deletion or the rename marker.
pub open spec fn is_destructive(code: Seq<char>) -> bool {
    code.len() > 0 && (code[0] == 'D' || code[0] == 'R')
}

/// Whether a change with this code adds or updates, rather than removes.
pub fn change_code_constructive(change_code: &Vec<char>) -> (r: bool)
    ensures
        r == !is_destructive(change_code@),
{
    if change_code.len() > 0 && (change_code[0] == 'D' || change_code[0] == 'R') {
        return false;
    }
    true
}

/// The file name of a flat file: after the first separator, up to the next dot.
pub open spec fn basic_member(s: Seq<char>) -> Seq<char> {
    let k = find_class(s, 0, CharClass::Separator);
    if k >= s.len() {
        Seq::empty()
    } else {
        s.subrange(k + 1, find_class(s, k + 1, CharClass::Dot))
    }
}

/// The folder name of a bundle: between the first separator and the next one.
pub open spec fn bundle_member(s: Seq<char>) -> Seq<char> {
    let k = find_class(s, 0, CharClass::Separator);
    if k >= s.len() {
        Seq::empty()
    } else {
        s.subrange(k + 1, find_class(s, k + 1, CharClass::Separator))
    }
}

/// The length of the suffix `.quickAction-meta.xml`.
pub const QUICK_ACTION_SUFFIX_LEN: usize = 21;

/// A quick action: what stands between the first separator and the suffix
/// `.quickAction-meta.xml`; nothing when the path is too short to hold both.
pub open spec fn quick_action_member(s: Seq<char>) -> Option<Seq<char>> {
    let k = find_class(s, 0, CharClass::Separator);
    if k < s.len() && k + 1 + QUICK_ACTION_SUFFIX_LEN <= s.len() {
        Some(s.subrange(k + 1, s.len() - QUICK_ACTION_SUFFIX_LEN))
    } else {
        None
    }
}

/// The length of the prefix `customMetadata/`.
pub const CUSTOM_METADATA_PREFIX_LEN: usize = 15;

/// The length of the suffix `.md-meta.xml`.
pub const CUSTOM_METADATA_SUFFIX_LEN: usize = 12;

/// A custom metadata record: the path without its category prefix and without the
/// suffix `.md-meta.xml`. A path too short to hold the suffix keeps all that follows
/// the prefix.
pub open spec fn custom_metadata_member(s: Seq<char>) -> Seq<char> {
    if s.len() >= CUSTOM_METADATA_PREFIX_LEN + CUSTOM_METADATA_SUFFIX_LEN {
        s.subrange(CUSTOM_METADATA_PREFIX_LEN as int, s.len() - CUSTOM_METADATA_SUFFIX_LEN)
    } else if s.len() >= CUSTOM_METADATA_PREFIX_LEN {
        s.subrange(CUSTOM_METADATA_PREFIX_LEN as int, s.len() as int)
    } else {
        Seq::empty()
    }
}

/// The folder of custom objects.
pub open spec fn objects_key() -> Seq<char> {
    "objects"@
}

/// An object path `objects/Obj.ext` or `objects/Obj/Obj.ext` names the object itself,
/// in the folder `objects`; `objects/Obj/sub/Item.ext` names `Obj.Item` in the folder
/// `sub`. Gives the folder and the member, or nothing for any other shape.
pub open spec fn object_member(s: Seq<char>) -> Option<(Seq<char>, Seq<char>)> {
    let k = find_class(s, 0, CharClass::Separator);
    let a = k + 1;
    let e1 = find_class(s, a, CharClass::SeparatorOrDot);
    let b = e1 + 1;
    let e2 = find_class(s, b, CharClass::SeparatorOrDot);
    let c = e2 + 1;
    let e3 = find_class(s, c, CharClass::SeparatorOrDot);
    if k >= s.len() || e1 >= s.len() {
        None
    } else if s[e1] == '.' {
        Some((objects_key(), s.subrange(a, e1)))
    } else if e2 >= s.len() {
        None
    } else if s[e2] == '.' {
        Some((objects_key(), s.subrange(b, e2)))
    } else if e3 >= s.len() || s[e3] != '.' {
        None
    } else {
        Some((s.subrange(b, e2), s.subrange(a, e1) + seq!['.'] + s.subrange(c, e3)))
    }
}

/// `new` is `old` with `m` added to the set that `code` routes it to.
pub open spec fn member_added(old: MetadataBucket, new: MetadataBucket, code: Seq<char>, m: Seq<char>) -> bool {
    &&& new.file_path_name == old.file_path_name
    &&& new.package_xml_name == old.package_xml_name
    &&& new.bundle == old.bundle
    &&& new.files.wf()
    &&& new.destructive_files.wf()
    &&& if is_destructive(code) {
        &&& new.destructive_files.set() == old.destructive_files.set().insert(m)
        &&& new.files@ == old.files@
    } else {
        &&& new.files.set() == old.files.set().insert(m)
        &&& new.destructive_files@ == old.destructive_files@
    }
}

/// Adds `m` to the bucket's members to deploy, or to remove when `change_code` is destructive.
pub fn add_member(change_code: &Vec<char>, bucket: &mut MetadataBucket, m: Vec<char>)
    requires
        old(bucket).files.wf(),
        old(bucket).destructive_files.wf(),
    ensures
        member_added(*old(bucket), *final(bucket), change_code@, m@),
{
    if change_code_constructive(change_code) {
        bucket.files.insert(m);
    } else {
        bucket.destructive_files.insert(m);
    }
}

pub fn basic_member_of(s: &Vec<char>) -> (r: Vec<char>)
    ensures
        r@ == basic_member(s@),
{
    let k = find(s, 0, CharClass::Separator);
    if k >= s.len() {
        return Vec::new();
    }
    let e = find(s, k + 1, CharClass::Dot);
    slice(s, k + 1, e)
}

pub fn bundle_member_of(s: &Vec<char>) -> (r: Vec<char>)
    ensures
        r@ == bundle_member(s@),
{
    let k = find(s, 0, CharClass::Separator);
    if k >= s.len() {
        return Vec::new();
    }
    let e = find(s, k + 1, CharClass::Separator);
    slice(s, k + 1, e)
}

pub fn quick_action_member_of(s: &Vec<char>) -> (r: Option<Vec<char>>)
    ensures
        match r {
            Some(v) => quick_action_member(s@) == Some(v@),
            None => quick_action_member(s@) is None,
        },
{
    let k = find(s, 0, CharClass::Separator);
    if k < s.len() && QUICK_ACTION_SUFFIX_LEN <= s.len() - (k + 1) {
        Some(slice(s, k + 1, s.len() - QUICK_ACTION_SUFFIX_LEN))
    } else {
        None
    }
}

pub fn custom_metadata_member_of(s: &Vec<char>) -> (r: Vec<char>)
    ensures
        r@ == custom_metadata_member(s@),
{
    if s.len() >= CUSTOM_METADATA_PREFIX_LEN + CUSTOM_METADATA_SUFFIX_LEN {
        slice(s, CUSTOM_METADATA_PREFIX_LEN, s.len() - CUSTOM_METADATA_SUFFIX_LEN)
    } else if s.len() >= CUSTOM_METADATA_PREFIX_LEN {
        slice(s, CUSTOM_METADATA_PREFIX_LEN, s.len())
    } else {
        Vec::new()
    }
}

pub fn object_member_of(s: &Vec<char>) -> (r: Option<(Vec<char>, Vec<char>)>)
    ensures
        match r {
            Some(p) => object_member(s@) == Some((p.0@, p.1@)),
            None => object_member(s@) is None,
        },
{
    let k = find(s, 0, CharClass::Separator);
    if k >= s.len() {
        return None;
    }
    let a = k + 1;
    let e1 = find(s, a, CharClass::SeparatorOrDot);
    if e1 >= s.len() {
        return None;
    }
    let objects = chars_of("objects");
    if s[e1] == '.' {
        return Some((objects, slice(s, a, e1)));
    }
    let b = e1 + 1;
    let e2 = find(s, b, CharClass::SeparatorOrDot);
    if e2 >= s.len() {
        return None;
    }
    if s[e2] == '.' {
        return Some((objects, slice(s, b, e2)));
    }
    let c = e2 + 1;
    let e3 = find(s, c, CharClass::SeparatorOrDot);
    if e3 >= s.len() || s[e3] != '.' {
        return None;
    }
    let mut m = slice(s, a, e1);
    m.push('.');
    let mut item = slice(s, c, e3);
    m.append(&mut item);
    Some((slice(s, b, e2), m))
}

/// Files under a flat category: the member is the file name without its extension.
pub fn basic_name(change_code: &Vec<char>, name_minus_root: &Vec<char>, current_metadata_bucket: &mut MetadataBucket)
    requires
        old(current_metadata_bucket).files.wf(),
        old(current_metadata_bucket).destructive_files.wf(),
    ensures
        member_added(*old(current_metadata_bucket), *final(current_metadata_bucket), change_code@, basic_member(name_minus_root@)),
{
    let m = basic_member_of(name_minus_root);
    add_member(change_code, current_metadata_bucket, m);
}

/// Files inside a bundle: the member is the bundle's folder.
pub fn bundle_name(change_code: &Vec<char>, name_minus_root: &Vec<char>, current_metadata_bucket: &mut MetadataBucket)
    requires
        old(current_metadata_bucket).files.wf(),
        old(current_metadata_bucket).destructive_files.wf(),
    ensures
        member_added(*old(current_metadata_bucket), *final(current_metadata_bucket), change_code@, bundle_member(name_minus_root@)),
{
    let m = bundle_member_of(name_minus_root);
    add_member(change_code, current_metadata_bucket, m);
}

/// A quick action file: the member is its name without the quick action suffix;
/// a path too short for that adds nothing.
pub fn quick_action_name(change_code: &Vec<char>, name_minus_root: &Vec<char>, current_metadata_bucket: &mut MetadataBucket)
    requires
        old(current_metadata_bucket).files.wf(),
        old(current_metadata_bucket).destructive_files.wf(),
    ensures
        match quick_action_member(name_minus_root@) {
            Some(m) => member_added(*old(current_metadata_bucket), *final(current_metadata_bucket), change_code@, m),
            None => *final(current_metadata_bucket) == *old(current_metadata_bucket),
        },
{
    match quick_action_member_of(name_minus_root) {
        Some(m) => add_member(change_code, current_metadata_bucket, m),
        None => {},
    }
}

/// A custom metadata record file: the member is its name without prefix and suffix.
pub fn custom_metadata_name(change_code: &Vec<char>, name_minus_root: &Vec<char>, current_metadata_bucket: &mut MetadataBucket)
    requires
        old(current_metadata_bucket).files.wf(),
        old(current_metadata_bucket).destructive_files.wf(),
    ensures
        member_added(*old(current_metadata_bucket), *final(current_metadata_bucket), change_code@, custom_metadata_member(name_minus_root@)),
{
    let m = custom_metadata_member_of(name_minus_root);
    add_member(change_code, current_metadata_bucket, m);
}

} // verus!
