use vstd::prelude::*;
use crate::categories::{
    buckets_match_table, category_index, category_table, common_metadata_buckets, find_bucket_index,
    lemma_find_category, MetadataBucket,
};
use crate::change::{record_views, ChangeRecord};
use crate::resolve::{
    basic_member, basic_name, bundle_member, bundle_name, custom_metadata_member, custom_metadata_name,
    is_destructive, member_added, object_member, object_member_of, add_member, quick_action_member,
    quick_action_name, objects_key,
};
use crate::scan::{find, find_class, same_chars, slice, starts_with, CharClass};
use crate::text::{chars_of, string_of};

verus! {

/// The directory under which the metadata categories lie.
pub open spec fn project_root() -> Seq<char> {
    "force-app/main/default/"@
}

/// Where one change goes.
pub enum Placement {
    /// Outside the project root, or of no shape that names a member.
    Skip,
    /// Under a category folder that the table does not hold.
    Unsupported(Seq<char>),
    /// The member, for the bucket at this index.
    Place(int, Seq<char>),
}

/// Where a path under `objects`, with the root taken off, goes.
pub open spec fn object_placement(n: Seq<char>) -> Placement {
    match object_member(n) {
        Some(p) => if category_index(p.0) >= 0 {
            Placement::Place(category_index(p.0), p.1)
        } else {
            Placement::Skip
        },
        None => Placement::Skip,
    }
}

/// Where the change of a file at `path` goes: the first folder under the project root
/// names the category, and the category's shape says how the member is named: a
/// bundle's folder, an object or object item, a quick action, a custom metadata
/// record, or else a flat file.
pub open spec fn classify(path: Seq<char>) -> Placement {
    let root = project_root();
    let n = path.subrange(root.len() as int, path.len() as int);
    let k = find_class(n, 0, CharClass::Separator);
    let cat = n.subrange(0, k);
    let i = category_index(cat);
    if !(root.len() <= path.len() && path.subrange(0, root.len() as int) == root) {
        Placement::Skip
    } else if k >= n.len() {
        Placement::Skip
    } else if i < 0 {
        Placement::Unsupported(cat)
    } else if category_table()[i].2 {
        Placement::Place(i, bundle_member(n))
    } else if cat == objects_key() {
        object_placement(n)
    } else if cat == "quickActions"@ {
        match quick_action_member(n) {
            Some(m) => Placement::Place(i, m),
            None => Placement::Skip,
        }
    } else if cat == "customMetadata"@ {
        Placement::Place(i, custom_metadata_member(n))
    } else {
        Placement::Place(i, basic_member(n))
    }
}

/// For each bucket, its members to deploy and its members to remove.
pub type BucketSets = Seq<(Set<Seq<char>>, Set<Seq<char>>)>;

pub open spec fn bucket_sets(b: Seq<MetadataBucket>) -> BucketSets {
    b.map_values(|x: MetadataBucket| (x.files.set(), x.destructive_files.set()))
}

/// `st` with `m` added to bucket `i`, to the set that `code` routes it to.
pub open spec fn add_to_sets(st: BucketSets, i: int, code: Seq<char>, m: Seq<char>) -> BucketSets {
    st.update(
        i,
        if is_destructive(code) {
            (st[i].0, st[i].1.insert(m))
        } else {
            (st[i].0.insert(m), st[i].1)
        },
    )
}

pub open spec fn place_at(st: BucketSets, code: Seq<char>, p: Placement) -> BucketSets {
    match p {
        Placement::Place(i, m) => add_to_sets(st, i, code, m),
        _ => st,
    }
}

/// No member anywhere.
pub open spec fn empty_sets() -> BucketSets {
    Seq::new(category_table().len(), |i: int| (Set::<Seq<char>>::empty(), Set::<Seq<char>>::empty()))
}

/// The members that the changes `recs` give each bucket.
pub open spec fn classified(recs: Seq<(Seq<char>, Seq<char>)>) -> BucketSets
    decreases recs.len(),
{
    if recs.len() == 0 {
        empty_sets()
    } else {
        place_at(classified(recs.drop_last()), recs.last().0, classify(recs.last().1))
    }
}

/// The unsupported categories that the changes `recs` meet, one for each such change, in order.
pub open spec fn unsupported_of(recs: Seq<(Seq<char>, Seq<char>)>) -> Seq<Seq<char>>
    decreases recs.len(),
{
    if recs.len() == 0 {
        Seq::empty()
    } else {
        match classify(recs.last().1) {
            Placement::Unsupported(c) => unsupported_of(recs.drop_last()).push(c),
            _ => unsupported_of(recs.drop_last()),
        }
    }
}

pub proof fn lemma_add_to_bucket(b: Seq<MetadataBucket>, i: int, nb: MetadataBucket, code: Seq<char>, m: Seq<char>)
    requires
        buckets_match_table(b),
        0 <= i < b.len(),
        member_added(b[i], nb, code, m),
    ensures
        buckets_match_table(b.update(i, nb)),
        bucket_sets(b.update(i, nb)) == add_to_sets(bucket_sets(b), i, code, m),
{
    assert(bucket_sets(b.update(i, nb)) =~= add_to_sets(bucket_sets(b), i, code, m));
}

/// A file under `objects`: the object itself goes to the bucket `objects`, and an item
/// of the object (a field, a list view, ...) goes as `Object.Item` to its own category.
pub fn object_metadata(change_code: &Vec<char>, name_minus_root: &Vec<char>, all_metadata_buckets: &mut Vec<MetadataBucket>)
    requires
        buckets_match_table(old(all_metadata_buckets)@),
    ensures
        buckets_match_table(final(all_metadata_buckets)@),
        bucket_sets(final(all_metadata_buckets)@) == place_at(
            bucket_sets(old(all_metadata_buckets)@),
            change_code@,
            object_placement(name_minus_root@),
        ),
{
    match object_member_of(name_minus_root) {
        Some(p) => {
            let (key, m) = p;
            match find_bucket_index(all_metadata_buckets, &key) {
                Some(i) => {
                    proof {
                        lemma_find_category(category_table(), key@, 0);
                    }
                    let ghost b = all_metadata_buckets@;
                    add_member(change_code, &mut all_metadata_buckets[i], m);
                    proof {
                        lemma_add_to_bucket(b, i as int, all_metadata_buckets@[i as int], change_code@, p.1@);
                        assert(all_metadata_buckets@ == b.update(i as int, all_metadata_buckets@[i as int]));
                    }
                },
                None => {},
            }
        },
        None => {},
    }
}

/// Files the change of `record` into its bucket. Gives the category folder when the
/// table does not hold it.
pub fn classify_change(all_metadata_buckets: &mut Vec<MetadataBucket>, record: &ChangeRecord) -> (r: Option<String>)
    requires
        buckets_match_table(old(all_metadata_buckets)@),
    ensures
        buckets_match_table(final(all_metadata_buckets)@),
        bucket_sets(final(all_metadata_buckets)@) == place_at(
            bucket_sets(old(all_metadata_buckets)@),
            record.change_code@,
            classify(record.path@),
        ),
        match classify(record.path@) {
            Placement::Unsupported(c) => r is Some && r->0@ == c,
            _ => r is None,
        },
{
    let code = chars_of(record.change_code.as_str());
    let path = chars_of(record.path.as_str());
    let root = chars_of("force-app/main/default/");
    if !starts_with(&path, &root) {
        return None;
    }
    let n = slice(&path, root.len(), path.len());
    let k = find(&n, 0, CharClass::Separator);
    if k >= n.len() {
        return None;
    }
    let cat = slice(&n, 0, k);
    let ghost b = all_metadata_buckets@;
    match find_bucket_index(all_metadata_buckets, &cat) {
        None => Some(string_of(&cat)),
        Some(i) => {
            proof {
                lemma_find_category(category_table(), cat@, 0);
            }
            if !all_metadata_buckets[i].bundle && same_chars(&cat, &chars_of("objects")) {
                object_metadata(&code, &n, all_metadata_buckets);
            } else {
                if all_metadata_buckets[i].bundle {
                    bundle_name(&code, &n, &mut all_metadata_buckets[i]);
                } else if same_chars(&cat, &chars_of("quickActions")) {
                    quick_action_name(&code, &n, &mut all_metadata_buckets[i]);
                } else if same_chars(&cat, &chars_of("customMetadata")) {
                    custom_metadata_name(&code, &n, &mut all_metadata_buckets[i]);
                } else {
                    basic_name(&code, &n, &mut all_metadata_buckets[i]);
                }
                proof {
                    let nb = all_metadata_buckets@[i as int];
                    assert(all_metadata_buckets@ == b.update(i as int, nb));
                    match classify(record.path@) {
                        Placement::Place(j, m) => {
                            lemma_add_to_bucket(b, i as int, nb, code@, m);
                        },
                        _ => {
                            assert(b.update(i as int, nb) =~= b);
                        },
                    }
                }
            }
            None
        },
    }
}

/// Files every change into its bucket, and lists the unsupported categories met.
pub fn classify_changes(records: &Vec<ChangeRecord>) -> (r: (Vec<MetadataBucket>, Vec<String>))
    ensures
        buckets_match_table(r.0@),
        bucket_sets(r.0@) == classified(record_views(records@)),
        r.1@.map_values(|s: String| s@) == unsupported_of(record_views(records@)),
{
    let mut buckets = common_metadata_buckets();
    let mut unsupported: Vec<String> = Vec::new();
    assert(bucket_sets(buckets@) =~= empty_sets()) by {
        assert forall|i: int| 0 <= i < buckets@.len() implies buckets@[i].files.set() =~= Set::<Seq<char>>::empty()
            && buckets@[i].destructive_files.set() =~= Set::<Seq<char>>::empty() by {}
    }
    let mut j: usize = 0;
    while j < records.len()
        invariant
            j <= records.len(),
            buckets_match_table(buckets@),
            bucket_sets(buckets@) == classified(record_views(records@).take(j as int)),
            unsupported@.map_values(|s: String| s@) == unsupported_of(record_views(records@).take(j as int)),
        decreases records.len() - j,
    {
        let ghost before = unsupported@;
        let found = classify_change(&mut buckets, &records[j]);
        assert(record_views(records@).take(j as int + 1).drop_last() =~= record_views(records@).take(j as int));
        assert(record_views(records@).take(j as int + 1).last() == (records@[j as int].change_code@, records@[j as int].path@));
        match found {
            Some(c) => {
                unsupported.push(c);
                assert(unsupported@.map_values(|s: String| s@) =~= before.map_values(|s: String| s@).push(c@));
            },
            None => {},
        }
        j += 1;
    }
    assert(record_views(records@).take(records.len() as int) =~= record_views(records@));
    (buckets, unsupported)
}

} // verus!
