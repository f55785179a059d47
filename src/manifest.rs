use vstd::prelude::*;
use crate::categories::{buckets_match_table, category_table, MetadataBucket};
use crate::change::{parse_change_line, record_views, ChangeRecord};
use crate::classify::{bucket_sets, classified, classify_changes, unsupported_of, BucketSets};
use crate::members::strictly_sorted;
use crate::order::{lemma_lex_irreflexive, lemma_lex_transitive};
use crate::scan::same_chars;
use crate::text::chars_of;

verus! {

/// A diff with this many changes or more is not classified.
pub const MAXIMUM_DIFF_FILE_SIZE: usize = 5000;

/// The two manifests of a run, with what the run reports.
pub struct ManifestBundle {
    /// What to deploy.
    pub manifest: String,
    /// What to remove.
    pub destructive_manifest: String,
    /// The unsupported category folders met, one for each change under one.
    pub unsupported_categories: Vec<String>,
    /// The diff held too many changes, and none was classified.
    pub diff_too_large: bool,
}

impl ManifestBundle {
    /// A bundle with two empty texts and nothing reported.
    pub fn new() -> (r: ManifestBundle)
        ensures
            r.manifest@.len() == 0,
            r.destructive_manifest@.len() == 0,
            r.unsupported_categories@.len() == 0,
            !r.diff_too_large,
    {
        ManifestBundle {
            manifest: String::new(),
            destructive_manifest: String::new(),
            unsupported_categories: Vec::new(),
            diff_too_large: false,
        }
    }
}

/// The members of `s` in sorted order.
pub open spec fn sorted_of(s: Set<Seq<char>>) -> Seq<Seq<char>> {
    choose|q: Seq<Seq<char>>| strictly_sorted(q) && q.to_set() == s
}

pub proof fn lemma_sorted_unique(a: Seq<Seq<char>>, b: Seq<Seq<char>>)
    requires
        strictly_sorted(a),
        strictly_sorted(b),
        a.to_set() == b.to_set(),
    ensures
        a == b,
    decreases a.len(),
{
    if a.len() == 0 {
        if b.len() > 0 {
            assert(b.to_set().contains(b[0]));
        }
        assert(a =~= b);
    } else {
        assert(a.to_set().contains(a[0]));
        assert(b.len() > 0);
        assert(b.to_set().contains(b[0]));
        let i = choose|i: int| 0 <= i < a.len() && a[i] == b[0];
        let j = choose|j: int| 0 <= j < b.len() && b[j] == a[0];
        if j > 0 {
            if i > 0 {
                lemma_lex_transitive(b[0], a[0], a[i]);
            }
            lemma_lex_irreflexive(b[0]);
        }
        assert(a[0] == b[0]);
        let a1 = a.drop_first();
        let b1 = b.drop_first();
        assert forall|x: Seq<char>| a1.to_set().contains(x) <==> b1.to_set().contains(x) by {
            if a1.contains(x) {
                let k = choose|k: int| 0 <= k < a1.len() && a1[k] == x;
                assert(a.to_set().contains(a[k + 1]));
                let m = choose|m: int| 0 <= m < b.len() && b[m] == x;
                if m == 0 {
                    lemma_lex_irreflexive(a[0]);
                }
                assert(b1[m - 1] == x);
            }
            if b1.contains(x) {
                let k = choose|k: int| 0 <= k < b1.len() && b1[k] == x;
                assert(b.to_set().contains(b[k + 1]));
                let m = choose|m: int| 0 <= m < a.len() && a[m] == x;
                if m == 0 {
                    lemma_lex_irreflexive(b[0]);
                }
                assert(a1[m - 1] == x);
            }
        }
        assert(a1.to_set() =~= b1.to_set());
        lemma_sorted_unique(a1, b1);
        assert(a =~= seq![a[0]] + a1);
        assert(b =~= seq![b[0]] + b1);
    }
}

/// A sorted member set holds its members in the order `sorted_of` gives.
pub proof fn lemma_sorted_of(q: Seq<Seq<char>>)
    requires
        strictly_sorted(q),
    ensures
        sorted_of(q.to_set()) == q,
{
    let s = q.to_set();
    assert(exists|p: Seq<Seq<char>>| strictly_sorted(p) && p.to_set() == s);
    lemma_sorted_unique(sorted_of(s), q);
}

/// The start of a manifest.
pub open spec fn xml_prolog() -> Seq<char> {
    "<?xml version=\"1.0\" encoding=\"UTF-8\"?>\n"@ + "<Package xmlns=\"http://soap.sforce.com/2006/04/metadata\">\n"@
}

/// The end of a manifest.
pub open spec fn xml_epilog() -> Seq<char> {
    "\t<version>64.0</version>\n"@ + "</Package>"@
}

/// One `<members>` line for each member, in order.
pub open spec fn members_xml(ms: Seq<Seq<char>>) -> Seq<char>
    decreases ms.len(),
{
    if ms.len() == 0 {
        Seq::empty()
    } else {
        members_xml(ms.drop_last()) + "\t\t<members>"@ + ms.last() + "</members>\n"@
    }
}

/// The `<types>` block of a category; nothing for a category with no member.
pub open spec fn types_block(ms: Seq<Seq<char>>, xml_name: Seq<char>) -> Seq<char> {
    if ms.len() == 0 {
        Seq::empty()
    } else {
        "\t<types>\n"@ + members_xml(ms) + "\t\t<name>"@ + xml_name + "</name>\n"@ + "\t</types>\n"@
    }
}

/// Labels are deployed whole: a `CustomLabels` block whose one member is `CustomLabels`
/// lists the wildcard `*` instead.
pub open spec fn with_label_wildcard(ms: Seq<Seq<char>>, xml_name: Seq<char>) -> Seq<Seq<char>> {
    if xml_name == "CustomLabels"@ && ms == seq!["CustomLabels"@] {
        seq!["*"@]
    } else {
        ms
    }
}

/// The block of bucket `i`: of its members to remove when `destructive`, else of
/// those to deploy.
pub open spec fn bucket_block(st: BucketSets, i: int, destructive: bool) -> Seq<char> {
    let t = category_table()[i].1;
    if destructive {
        types_block(sorted_of(st[i].1), t)
    } else {
        types_block(with_label_wildcard(sorted_of(st[i].0), t), t)
    }
}

/// The blocks of the first `n` buckets, in table order.
pub open spec fn blocks(st: BucketSets, n: int, destructive: bool) -> Seq<char>
    decreases n,
{
    if n <= 0 {
        Seq::empty()
    } else {
        blocks(st, n - 1, destructive) + bucket_block(st, n - 1, destructive)
    }
}

/// The manifest of the members in `st`: to remove when `destructive`, else to deploy.
pub open spec fn manifest_xml(st: BucketSets, destructive: bool) -> Seq<char> {
    xml_prolog() + blocks(st, category_table().len() as int, destructive) + xml_epilog()
}

/// A manifest with no block.
pub open spec fn empty_manifest_xml() -> Seq<char> {
    xml_prolog() + xml_epilog()
}

/// Appends the characters of `v`.
fn push_chars(out: &mut String, v: &Vec<char>)
    ensures
        final(out)@ == old(out)@ + v@,
{
    let ghost start = out@;
    let mut i: usize = 0;
    while i < v.len()
        invariant
            i <= v.len(),
            out@ == start + v@.take(i as int),
        decreases v.len() - i,
    {
        out.push(v[i]);
        assert(v@.take(i as int + 1) =~= v@.take(i as int).push(v@[i as int]));
        i += 1;
    }
    assert(v@.take(v.len() as int) =~= v@);
}

pub open spec fn views(v: Seq<Vec<char>>) -> Seq<Seq<char>> {
    v.map_values(|m: Vec<char>| m@)
}

/// Appends the `<types>` block of members `ms` under `xml_name`.
fn push_types_block(out: &mut String, ms: &Vec<Vec<char>>, xml_name: &Vec<char>)
    ensures
        final(out)@ == old(out)@ + types_block(views(ms@), xml_name@),
{
    if ms.len() == 0 {
        assert(old(out)@ + Seq::<char>::empty() =~= old(out)@);
        return;
    }
    let ghost start = out@;
    out.append("\t<types>\n");
    let mut i: usize = 0;
    while i < ms.len()
        invariant
            i <= ms.len(),
            out@ == start + "\t<types>\n"@ + members_xml(views(ms@).take(i as int)),
        decreases ms.len() - i,
    {
        out.append("\t\t<members>");
        push_chars(out, &ms[i]);
        out.append("</members>\n");
        proof {
            let t = views(ms@).take(i as int + 1);
            assert(t.drop_last() =~= views(ms@).take(i as int));
            assert(t.last() == ms@[i as int]@);
        }
        i += 1;
    }
    assert(views(ms@).take(ms.len() as int) =~= views(ms@));
    out.append("\t\t<name>");
    push_chars(out, xml_name);
    out.append("</name>\n");
    out.append("\t</types>\n");
}

/// The manifest of `buckets`: of their members to remove when `destructive`, else of
/// those to deploy.
pub fn render_manifest(buckets: &Vec<MetadataBucket>, destructive: bool) -> (r: String)
    requires
        buckets_match_table(buckets@),
    ensures
        r@ == manifest_xml(bucket_sets(buckets@), destructive),
{
    let ghost st = bucket_sets(buckets@);
    let mut out = String::new();
    out.append("<?xml version=\"1.0\" encoding=\"UTF-8\"?>\n");
    out.append("<Package xmlns=\"http://soap.sforce.com/2006/04/metadata\">\n");
    let mut i: usize = 0;
    while i < buckets.len()
        invariant
            i <= buckets.len(),
            buckets_match_table(buckets@),
            st == bucket_sets(buckets@),
            out@ == xml_prolog() + blocks(st, i as int, destructive),
        decreases buckets.len() - i,
    {
        let b = &buckets[i];
        let t = chars_of(b.package_xml_name.as_str());
        if destructive {
            proof {
                lemma_sorted_of(b.destructive_files@);
            }
            push_types_block(&mut out, &b.destructive_files.items, &t);
        } else {
            proof {
                lemma_sorted_of(b.files@);
            }
            if b.files.items.len() == 1 && same_chars(&t, &chars_of("CustomLabels"))
                && same_chars(&b.files.items[0], &chars_of("CustomLabels")) {
                let star = vec![chars_of("*")];
                proof {
                    assert(b.files@ =~= seq!["CustomLabels"@]);
                    assert(views(star@) =~= seq!["*"@]);
                }
                push_types_block(&mut out, &star, &t);
            } else {
                proof {
                    if t@ == "CustomLabels"@ && b.files@ == seq!["CustomLabels"@] {
                        assert(b.files@[0] == b.files.items@[0]@);
                    }
                }
                push_types_block(&mut out, &b.files.items, &t);
            }
        }
        i += 1;
    }
    out.append("\t<version>64.0</version>\n");
    out.append("</Package>");
    out
}

/// Builds the two manifests of a set of changes. A diff of `MAXIMUM_DIFF_FILE_SIZE`
/// changes or more gives two manifests with no block and is reported as too large.
pub fn build_manifests(records: &Vec<ChangeRecord>) -> (r: ManifestBundle)
    ensures
        r.diff_too_large == (records@.len() >= MAXIMUM_DIFF_FILE_SIZE),
        r.diff_too_large ==> r.manifest@ == empty_manifest_xml() && r.destructive_manifest@ == empty_manifest_xml()
            && r.unsupported_categories@.len() == 0,
        !r.diff_too_large ==> r.manifest@ == manifest_xml(classified(record_views(records@)), false)
            && r.destructive_manifest@ == manifest_xml(classified(record_views(records@)), true)
            && r.unsupported_categories@.map_values(|s: String| s@) == unsupported_of(record_views(records@)),
{
    if records.len() >= MAXIMUM_DIFF_FILE_SIZE {
        let mut manifest = String::new();
        manifest.append("<?xml version=\"1.0\" encoding=\"UTF-8\"?>\n");
        manifest.append("<Package xmlns=\"http://soap.sforce.com/2006/04/metadata\">\n");
        manifest.append("\t<version>64.0</version>\n");
        manifest.append("</Package>");
        let destructive_manifest = manifest.clone();
        return ManifestBundle {
            manifest,
            destructive_manifest,
            unsupported_categories: Vec::new(),
            diff_too_large: true,
        };
    }
    let (buckets, unsupported) = classify_changes(records);
    ManifestBundle {
        manifest: render_manifest(&buckets, false),
        destructive_manifest: render_manifest(&buckets, true),
        unsupported_categories: unsupported,
        diff_too_large: false,
    }
}

/// The records of the lines of a name-status diff.
pub open spec fn records_of(lines: Seq<String>) -> Seq<(Seq<char>, Seq<char>)> {
    lines.map_values(|l: String| (crate::change::change_code_of(l@), crate::change::change_path_of(l@)))
}

/// Reads each line of a name-status diff as a change.
pub fn parse_change_lines(diffed_files_by_lines: &Vec<String>) -> (r: Vec<ChangeRecord>)
    ensures
        record_views(r@) == records_of(diffed_files_by_lines@),
{
    let mut r: Vec<ChangeRecord> = Vec::new();
    let mut i: usize = 0;
    while i < diffed_files_by_lines.len()
        invariant
            i <= diffed_files_by_lines.len(),
            r@.len() == i,
            record_views(r@) == records_of(diffed_files_by_lines@.take(i as int)),
        decreases diffed_files_by_lines.len() - i,
    {
        let ghost before = r@;
        r.push(parse_change_line(diffed_files_by_lines[i].as_str()));
        proof {
            let lines = diffed_files_by_lines@;
            assert forall|k: int| 0 <= k < i + 1 implies record_views(r@)[k] == records_of(lines.take(i as int + 1))[k] by {
                if k < i {
                    assert(record_views(before)[k] == records_of(lines.take(i as int))[k]);
                    assert(r@[k] == before[k]);
                }
            }
            assert(record_views(r@) =~= records_of(lines.take(i as int + 1)));
        }
        i += 1;
    }
    assert(diffed_files_by_lines@.take(diffed_files_by_lines.len() as int) =~= diffed_files_by_lines@);
    r
}

/// Builds the two manifests of the lines of a name-status diff.
pub fn sort_metadata_buckets(diffed_files_by_lines: &Vec<String>) -> (r: ManifestBundle)
    ensures
        r.diff_too_large == (diffed_files_by_lines@.len() >= MAXIMUM_DIFF_FILE_SIZE),
        r.diff_too_large ==> r.manifest@ == empty_manifest_xml() && r.destructive_manifest@ == empty_manifest_xml()
            && r.unsupported_categories@.len() == 0,
        !r.diff_too_large ==> r.manifest@ == manifest_xml(classified(records_of(diffed_files_by_lines@)), false)
            && r.destructive_manifest@ == manifest_xml(classified(records_of(diffed_files_by_lines@)), true)
            && r.unsupported_categories@.map_values(|s: String| s@) == unsupported_of(records_of(diffed_files_by_lines@)),
{
    let records = parse_change_lines(diffed_files_by_lines);
    build_manifests(&records)
}

} // verus!
