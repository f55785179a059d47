use vstd::prelude::*;
use crate::categories::{category_index, category_table, lemma_find_category};
use crate::classify::{
    BucketSets, add_to_sets, classified, classify, empty_sets, object_placement, place_at, project_root,
    unsupported_of, Placement,
};
use crate::manifest::{bucket_block, lemma_sorted_of, manifest_xml, members_xml, types_block, with_label_wildcard};
use crate::members::strictly_sorted;
use crate::resolve::{basic_member, bundle_member, is_destructive, object_member, objects_key};
use crate::scan::{find_class, in_class, is_separator, lemma_find_class_at, CharClass};
use crate::table_facts::{lemma_classes_entry, lemma_labels_entry, lemma_objects_entry};

verus! {

/// A supported category whose files are flat, each one a member.
pub open spec fn is_basic_category(cat: Seq<char>) -> bool {
    &&& category_index(cat) >= 0
    &&& !category_table()[category_index(cat)].2
    &&& cat != objects_key()
    &&& cat != "quickActions"@
    &&& cat != "customMetadata"@
}

/// A supported category whose members are folders.
pub open spec fn is_bundle_category(cat: Seq<char>) -> bool {
    category_index(cat) >= 0 && category_table()[category_index(cat)].2
}

/// `s` holds no separator.
pub open spec fn no_separator(s: Seq<char>) -> bool {
    forall|j: int| 0 <= j < s.len() ==> !is_separator(#[trigger] s[j])
}

/// `s` holds no separator and no dot: a plain name.
pub open spec fn plain_name(s: Seq<char>) -> bool {
    forall|j: int| 0 <= j < s.len() ==> !is_separator(#[trigger] s[j]) && s[j] != '.'
}

/// The path of `rest` under the folder `cat` of the project root.
pub open spec fn path_under(cat: Seq<char>, rest: Seq<char>) -> Seq<char> {
    project_root() + cat + seq!['/'] + rest
}

/// What the classifier reads of such a path: past the root, up to the first separator.
proof fn lemma_path_under(cat: Seq<char>, rest: Seq<char>)
    requires
        no_separator(cat),
    ensures
        ({
            let path = path_under(cat, rest);
            let root = project_root();
            let n = path.subrange(root.len() as int, path.len() as int);
            &&& root.len() <= path.len()
            &&& path.subrange(0, root.len() as int) == root
            &&& n == cat + seq!['/'] + rest
            &&& find_class(n, 0, CharClass::Separator) == cat.len()
            &&& n.subrange(0, cat.len() as int) == cat
        }),
{
    let path = path_under(cat, rest);
    let root = project_root();
    let n = path.subrange(root.len() as int, path.len() as int);
    assert(path.subrange(0, root.len() as int) =~= root);
    assert(n =~= cat + seq!['/'] + rest);
    assert(n.subrange(0, cat.len() as int) =~= cat);
    assert forall|m: int| 0 <= m < cat.len() implies !crate::scan::in_class(CharClass::Separator, #[trigger] n[m]) by {
        assert(n[m] == cat[m]);
    }
    lemma_find_class_at(n, 0, cat.len() as int, CharClass::Separator);
}

/// A scan from `i` over a plain name that a character of the class ends.
proof fn lemma_scan_name(n: Seq<char>, i: int, name: Seq<char>, k: CharClass)
    requires
        0 <= i,
        i + name.len() < n.len(),
        n.subrange(i, i + name.len()) == name,
        plain_name(name),
        in_class(k, n[i + name.len()]),
        k == CharClass::Separator || k == CharClass::Dot || k == CharClass::SeparatorOrDot,
    ensures
        find_class(n, i, k) == i + name.len(),
{
    assert forall|m: int| i <= m < i + name.len() implies !in_class(k, #[trigger] n[m]) by {
        assert(n[m] == name[m - i]);
    }
    lemma_find_class_at(n, i, i + name.len(), k);
}


/// The file `Name.ext` of a flat category is the member `Name`, whatever `ext` is.
pub proof fn lemma_basic_member_is_file_name(cat: Seq<char>, name: Seq<char>, ext: Seq<char>)
    requires
        is_basic_category(cat),
        no_separator(cat),
        plain_name(name),
    ensures
        classify(path_under(cat, name + seq!['.'] + ext)) == Placement::Place(category_index(cat), name),
{
    let rest = name + seq!['.'] + ext;
    lemma_path_under(cat, rest);
    let n = cat + seq!['/'] + rest;
    let k = cat.len() as int;
    assert(n.subrange(k + 1, k + 1 + name.len()) =~= name);
    assert(n[k + 1 + name.len()] == '.');
    lemma_scan_name(n, k + 1, name, CharClass::Dot);
    assert(basic_member(n) == name);
}

/// Every file under a bundle's folder is the member named by that folder.
pub proof fn lemma_bundle_member_is_folder(cat: Seq<char>, bundle: Seq<char>, rest: Seq<char>)
    requires
        is_bundle_category(cat),
        no_separator(cat),
        no_separator(bundle),
    ensures
        classify(path_under(cat, bundle + seq!['/'] + rest)) == Placement::Place(category_index(cat), bundle),
{
    let r = bundle + seq!['/'] + rest;
    lemma_path_under(cat, r);
    let n = cat + seq!['/'] + r;
    let k = cat.len() as int;
    assert(n.subrange(k + 1, k + 1 + bundle.len()) =~= bundle);
    assert(n[k + 1 + bundle.len()] == '/');
    assert forall|m: int| k + 1 <= m < k + 1 + bundle.len() implies !in_class(CharClass::Separator, #[trigger] n[m]) by {
        assert(n[m] == bundle[m - k - 1]);
    }
    lemma_find_class_at(n, k + 1, k + 1 + bundle.len(), CharClass::Separator);
    assert(bundle_member(n) == bundle);
}

/// Two changed files of one bundle, both to deploy or both to remove, give that bundle
/// once, in the set their codes route it to, and nothing in the other set.
pub proof fn lemma_bundle_files_collapse(
    code1: Seq<char>,
    code2: Seq<char>,
    cat: Seq<char>,
    bundle: Seq<char>,
    rest1: Seq<char>,
    rest2: Seq<char>,
)
    requires
        is_bundle_category(cat),
        no_separator(cat),
        no_separator(bundle),
        is_destructive(code1) == is_destructive(code2),
    ensures
        ({
            let st = classified(
                seq![
                    (code1, path_under(cat, bundle + seq!['/'] + rest1)),
                    (code2, path_under(cat, bundle + seq!['/'] + rest2)),
                ],
            );
            &&& side(st[category_index(cat)], is_destructive(code1)) == set![bundle]
            &&& side(st[category_index(cat)], !is_destructive(code1)) == Set::<Seq<char>>::empty()
        }),
{
    lemma_bundle_member_is_folder(cat, bundle, rest1);
    lemma_bundle_member_is_folder(cat, bundle, rest2);
    lemma_find_category(category_table(), cat, 0);
    let r1 = (code1, path_under(cat, bundle + seq!['/'] + rest1));
    let r2 = (code2, path_under(cat, bundle + seq!['/'] + rest2));
    let s = seq![r1, r2];
    assert(s.drop_last() =~= seq![r1]);
    assert(seq![r1].drop_last() =~= Seq::<(Seq<char>, Seq<char>)>::empty());
    reveal_with_fuel(classified, 3);
    assert(set![bundle].insert(bundle) =~= set![bundle]);
    assert(Set::<Seq<char>>::empty().insert(bundle) =~= set![bundle]);
}

/// A further changed file under a bundle whose folder is already a member of the set
/// its code routes it to changes no bucket.
pub proof fn lemma_bundle_file_adds_nothing(st: BucketSets, code: Seq<char>, cat: Seq<char>, bundle: Seq<char>, rest: Seq<char>)
    requires
        is_bundle_category(cat),
        no_separator(cat),
        no_separator(bundle),
        st.len() == category_table().len(),
        side(st[category_index(cat)], is_destructive(code)).contains(bundle),
    ensures
        place_at(st, code, classify(path_under(cat, bundle + seq!['/'] + rest))) == st,
{
    lemma_bundle_member_is_folder(cat, bundle, rest);
    lemma_find_category(category_table(), cat, 0);
    let i = category_index(cat);
    assert(st[i].0.insert(bundle) =~= st[i].0 || is_destructive(code));
    assert(st[i].1.insert(bundle) =~= st[i].1 || !is_destructive(code));
    assert(add_to_sets(st, i, code, bundle) =~= st);
}

/// A file of an object's sub-category, `objects/Obj/sub/Item.ext`, is the member
/// `Obj.Item` of the category `sub`, which is not the bucket of objects unless `sub`
/// is `objects`.
pub proof fn lemma_object_item_member(obj: Seq<char>, sub: Seq<char>, item: Seq<char>, ext: Seq<char>)
    requires
        plain_name(obj),
        plain_name(sub),
        plain_name(item),
        category_index(sub) >= 0,
    ensures
        classify(path_under(objects_key(), obj + seq!['/'] + sub + seq!['/'] + item + seq!['.'] + ext))
            == Placement::Place(category_index(sub), obj + seq!['.'] + item),
        sub != objects_key() ==> category_index(sub) != category_index(objects_key()),
{
    lemma_objects_entry();
    lemma_find_category(category_table(), sub, 0);
    lemma_find_category(category_table(), objects_key(), 0);
    let rest = obj + seq!['/'] + sub + seq!['/'] + item + seq!['.'] + ext;
    lemma_path_under(objects_key(), rest);
    let n = objects_key() + seq!['/'] + rest;
    let a: int = objects_key().len() as int + 1;
    let e1: int = a + obj.len();
    let b: int = e1 + 1;
    let e2: int = b + sub.len();
    let c: int = e2 + 1;
    let e3: int = c + item.len();
    assert(n.subrange(a, e1) =~= obj);
    assert(n[e1] == '/');
    lemma_scan_name(n, a, obj, CharClass::SeparatorOrDot);
    assert(n.subrange(b, e2) =~= sub);
    assert(n[e2] == '/');
    lemma_scan_name(n, b, sub, CharClass::SeparatorOrDot);
    assert(n.subrange(c, e3) =~= item);
    assert(n[e3] == '.');
    lemma_scan_name(n, c, item, CharClass::SeparatorOrDot);
    assert(object_member(n) == Some((sub, obj + seq!['.'] + item)));
    assert(object_placement(n) == Placement::Place(category_index(sub), obj + seq!['.'] + item));
}

/// An object's own file, `objects/Obj.ext`, is the member `Obj` of the bucket of objects.
pub proof fn lemma_object_itself(obj: Seq<char>, ext: Seq<char>)
    requires
        plain_name(obj),
    ensures
        classify(path_under(objects_key(), obj + seq!['.'] + ext))
            == Placement::Place(category_index(objects_key()), obj),
{
    lemma_objects_entry();
    let rest = obj + seq!['.'] + ext;
    lemma_path_under(objects_key(), rest);
    let n = objects_key() + seq!['/'] + rest;
    let a: int = objects_key().len() as int + 1;
    let e1: int = a + obj.len();
    assert(n.subrange(a, e1) =~= obj);
    assert(n[e1] == '.');
    lemma_scan_name(n, a, obj, CharClass::SeparatorOrDot);
    assert(object_member(n) == Some((objects_key(), obj)));
}

/// A deleted class `classes/Name.ext` is a member to remove of the class bucket, and
/// nothing else: no bucket gets a member to deploy.
pub proof fn lemma_deleted_class(code: Seq<char>, name: Seq<char>, ext: Seq<char>)
    requires
        code.len() > 0,
        code[0] == 'D',
        plain_name(name),
    ensures
        classified(seq![(code, path_under("classes"@, name + seq!['.'] + ext))])
            == empty_sets().update(3, (Set::<Seq<char>>::empty(), set![name])),
{
    lemma_classes_entry();
    lemma_basic_member_is_file_name("classes"@, name, ext);
    let r = (code, path_under("classes"@, name + seq!['.'] + ext));
    assert(seq![r].drop_last() =~= Seq::<(Seq<char>, Seq<char>)>::empty());
    reveal_with_fuel(classified, 2);
    assert(Set::<Seq<char>>::empty().insert(name) =~= set![name]);
    assert(classified(seq![r]) =~= empty_sets().update(3, (Set::<Seq<char>>::empty(), set![name])));
}

/// The label file `labels/CustomLabels.ext`, added or changed, gives a `CustomLabels`
/// block whose one member is the wildcard `*`.
pub proof fn lemma_labels_wildcard(code: Seq<char>, ext: Seq<char>)
    requires
        !is_destructive(code),
    ensures
        bucket_block(classified(seq![(code, path_under("labels"@, "CustomLabels"@ + seq!['.'] + ext))]), 15, false)
            == "\t<types>\n"@ + "\t\t<members>"@ + "*"@ + "</members>\n"@ + "\t\t<name>"@ + "CustomLabels"@
            + "</name>\n"@ + "\t</types>\n"@,
{
    reveal_strlit("CustomLabels");
    lemma_labels_entry();
    lemma_basic_member_is_file_name("labels"@, "CustomLabels"@, ext);
    let r = (code, path_under("labels"@, "CustomLabels"@ + seq!['.'] + ext));
    assert(seq![r].drop_last() =~= Seq::<(Seq<char>, Seq<char>)>::empty());
    reveal_with_fuel(classified, 2);
    let st = classified(seq![r]);
    assert(Set::<Seq<char>>::empty().insert("CustomLabels"@) =~= set!["CustomLabels"@]);
    assert(st[15].0 == set!["CustomLabels"@]);
    let one = seq!["CustomLabels"@];
    assert(strictly_sorted(one));
    assert forall|y: Seq<char>| one.to_set().contains(y) <==> set!["CustomLabels"@].contains(y) by {
        if one.contains(y) {
            let k = choose|k: int| 0 <= k < one.len() && one[k] == y;
            assert(k == 0);
        }
        if y == "CustomLabels"@ {
            assert(one[0] == y);
        }
    }
    assert(one.to_set() =~= set!["CustomLabels"@]);
    lemma_sorted_of(one);
    assert(with_label_wildcard(one, category_table()[15].1) == seq!["*"@]);
    assert(seq!["*"@].drop_last() =~= Seq::<Seq<char>>::empty());
    reveal_with_fuel(members_xml, 2);
    assert(members_xml(seq!["*"@]) =~= "\t\t<members>"@ + "*"@ + "</members>\n"@);
    assert(types_block(seq!["*"@], "CustomLabels"@) =~= "\t<types>\n"@ + "\t\t<members>"@ + "*"@ + "</members>\n"@
        + "\t\t<name>"@ + "CustomLabels"@ + "</name>\n"@ + "\t</types>\n"@);
}

/// A file under a folder that is no category is reported once, as that folder, and
/// adds no member.
pub proof fn lemma_unknown_category(code: Seq<char>, cat: Seq<char>, rest: Seq<char>)
    requires
        category_index(cat) < 0,
        no_separator(cat),
    ensures
        classify(path_under(cat, rest)) == Placement::Unsupported(cat),
        unsupported_of(seq![(code, path_under(cat, rest))]) == seq![cat],
        classified(seq![(code, path_under(cat, rest))]) == empty_sets(),
{
    lemma_path_under(cat, rest);
    let r = (code, path_under(cat, rest));
    assert(seq![r].drop_last() =~= Seq::<(Seq<char>, Seq<char>)>::empty());
    reveal_with_fuel(classified, 2);
    reveal_with_fuel(unsupported_of, 2);
    assert(Seq::<Seq<char>>::empty().push(cat) =~= seq![cat]);
}

/// A change places member `m` in bucket `i`, in the set that `d` names.
pub open spec fn placed_in(r: (Seq<char>, Seq<char>), i: int, m: Seq<char>, d: bool) -> bool {
    classify(r.1) == Placement::Place(i, m) && is_destructive(r.0) == d
}

/// A placement always names a bucket of the table.
proof fn lemma_placement_in_table(path: Seq<char>)
    ensures
        match classify(path) {
            Placement::Place(i, m) => 0 <= i < category_table().len(),
            _ => true,
        },
{
    let root = project_root();
    let n = path.subrange(root.len() as int, path.len() as int);
    let k = find_class(n, 0, CharClass::Separator);
    lemma_find_category(category_table(), n.subrange(0, k), 0);
    match object_member(n) {
        Some(p) => lemma_find_category(category_table(), p.0, 0),
        None => {},
    }
}

/// One of the two sets of a bucket: to remove when `d`, else to deploy.
pub open spec fn side(p: (Set<Seq<char>>, Set<Seq<char>>), d: bool) -> Set<Seq<char>> {
    if d {
        p.1
    } else {
        p.0
    }
}

/// A bucket holds after one more change what it held before, and what that change placed there.
proof fn lemma_classified_step(recs: Seq<(Seq<char>, Seq<char>)>, i: int, m: Seq<char>, d: bool)
    requires
        recs.len() > 0,
        0 <= i < category_table().len(),
        classified(recs.drop_last()).len() == category_table().len(),
    ensures
        side(classified(recs)[i], d).contains(m) == (side(classified(recs.drop_last())[i], d).contains(m)
            || placed_in(recs.last(), i, m, d)),
{
    let last = recs.last();
    let st = classified(recs.drop_last());
    assert(classified(recs) == place_at(st, last.0, classify(last.1)));
    lemma_placement_in_table(last.1);
    match classify(last.1) {
        Placement::Place(i0, m0) => {
            let nst = add_to_sets(st, i0, last.0, m0);
            assert(classified(recs) == nst);
            if i != i0 {
                assert(nst[i] == st[i]);
            }
        },
        _ => {},
    }
}

/// The members of each bucket are those that some change places there.
pub proof fn lemma_classified_members(recs: Seq<(Seq<char>, Seq<char>)>)
    ensures
        classified(recs).len() == category_table().len(),
        forall|i: int, m: Seq<char>, d: bool|
            0 <= i < category_table().len() ==> (#[trigger] side(classified(recs)[i], d).contains(m) <==> exists|j: int|
                0 <= j < recs.len() && #[trigger] placed_in(recs[j], i, m, d)),
    decreases recs.len(),
{
    if recs.len() > 0 {
        let prev = recs.drop_last();
        lemma_classified_members(prev);
        let last = recs.last();
        lemma_placement_in_table(last.1);
        assert forall|i: int, m: Seq<char>, d: bool| 0 <= i < category_table().len() implies
            (#[trigger] side(classified(recs)[i], d).contains(m) <==> exists|j: int| 0 <= j < recs.len() && #[trigger] placed_in(recs[j], i, m, d)) by {
            assert(placed_in(last, i, m, d) ==> placed_in(recs[recs.len() - 1], i, m, d));
            lemma_classified_step(recs, i, m, d);
            if exists|j: int| 0 <= j < recs.len() && #[trigger] placed_in(recs[j], i, m, d) {
                let j = choose|j: int| 0 <= j < recs.len() && #[trigger] placed_in(recs[j], i, m, d);
                if j < prev.len() {
                    assert(prev[j] == recs[j]);
                    assert(placed_in(prev[j], i, m, d));
                }
            }
            if exists|j: int| 0 <= j < prev.len() && #[trigger] placed_in(prev[j], i, m, d) {
                let j = choose|j: int| 0 <= j < prev.len() && #[trigger] placed_in(prev[j], i, m, d);
                assert(prev[j] == recs[j]);
                assert(placed_in(recs[j], i, m, d));
            }
        }
    } else {
        assert forall|i: int, m: Seq<char>, d: bool| 0 <= i < category_table().len() implies
            !(#[trigger] side(classified(recs)[i], d).contains(m)) by {}
    }
}

proof fn lemma_same_placements(a: Seq<(Seq<char>, Seq<char>)>, b: Seq<(Seq<char>, Seq<char>)>, i: int, m: Seq<char>, d: bool)
    requires
        a.to_set() == b.to_set(),
    ensures
        (exists|j: int| 0 <= j < a.len() && #[trigger] placed_in(a[j], i, m, d))
            <==> (exists|j: int| 0 <= j < b.len() && #[trigger] placed_in(b[j], i, m, d)),
{
    if exists|j: int| 0 <= j < a.len() && #[trigger] placed_in(a[j], i, m, d) {
        let j = choose|j: int| 0 <= j < a.len() && #[trigger] placed_in(a[j], i, m, d);
        assert(a.to_set().contains(a[j]));
        let k = choose|k: int| 0 <= k < b.len() && b[k] == a[j];
        assert(placed_in(b[k], i, m, d));
    }
    if exists|j: int| 0 <= j < b.len() && #[trigger] placed_in(b[j], i, m, d) {
        let j = choose|j: int| 0 <= j < b.len() && #[trigger] placed_in(b[j], i, m, d);
        assert(b.to_set().contains(b[j]));
        let k = choose|k: int| 0 <= k < a.len() && a[k] == b[j];
        assert(placed_in(a[k], i, m, d));
    }
}

/// The manifests depend only on which changes there are: the same changes, in any
/// order and any number of times, give the same members and so the same manifests.
/// Classifying one list twice is the case `a == b`.
pub proof fn lemma_same_changes_same_manifests(a: Seq<(Seq<char>, Seq<char>)>, b: Seq<(Seq<char>, Seq<char>)>)
    requires
        a.to_set() == b.to_set(),
    ensures
        classified(a) == classified(b),
        manifest_xml(classified(a), false) == manifest_xml(classified(b), false),
        manifest_xml(classified(a), true) == manifest_xml(classified(b), true),
{
    lemma_classified_members(a);
    lemma_classified_members(b);
    assert forall|i: int| 0 <= i < category_table().len() implies #[trigger] classified(a)[i] == classified(b)[i] by {
        assert forall|m: Seq<char>| #[trigger] classified(a)[i].0.contains(m) == classified(b)[i].0.contains(m) by {
            lemma_same_placements(a, b, i, m, false);
            assert(side(classified(a)[i], false).contains(m) == side(classified(b)[i], false).contains(m));
        }
        assert forall|m: Seq<char>| #[trigger] classified(a)[i].1.contains(m) == classified(b)[i].1.contains(m) by {
            lemma_same_placements(a, b, i, m, true);
            assert(side(classified(a)[i], true).contains(m) == side(classified(b)[i], true).contains(m));
        }
        assert(classified(a)[i].0 =~= classified(b)[i].0);
        assert(classified(a)[i].1 =~= classified(b)[i].1);
    }
    assert(classified(a) =~= classified(b));
}

} // verus!
