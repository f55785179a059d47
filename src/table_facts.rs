use vstd::prelude::*;
use crate::categories::{category_index, category_table, lemma_find_category};
use crate::resolve::objects_key;
use crate::scan::is_separator;

verus! {

/// Two texts differ when their lengths do, or when they differ at index `at`.
pub proof fn lemma_texts_differ(a: Seq<char>, b: Seq<char>, at: int)
    requires
        a.len() != b.len() || (0 <= at < a.len() && at < b.len() && a[at] != b[at]),
    ensures
        a != b,
{
}

/// `key` stands at index `i` of the table, and at no earlier one.
proof fn lemma_index_is(key: Seq<char>, i: int)
    requires
        0 <= i < category_table().len(),
        category_table()[i].0 == key,
        forall|j: int| 0 <= j < i ==> category_table()[j].0 != key,
    ensures
        category_index(key) == i,
{
    lemma_find_category(category_table(), key, 0);
}

/// The folder of objects is a supported category that is no bundle, and holds no separator.
pub proof fn lemma_objects_entry()
    ensures
        category_index(objects_key()) >= 0,
        !category_table()[category_index(objects_key())].2,
        forall|j: int| 0 <= j < objects_key().len() ==> !is_separator(#[trigger] objects_key()[j]),
{
    reveal_strlit("objects");
    reveal_strlit("aura");
    reveal_strlit("lwc");
    lemma_find_category(category_table(), objects_key(), 0);
    assert(category_table()[20].0 == objects_key());
    let i = category_index(objects_key());
    lemma_texts_differ("aura"@, objects_key(), 0);
    lemma_texts_differ("lwc"@, objects_key(), 0);
    assert(category_table()[1].0 == "aura"@);
    assert(category_table()[18].0 == "lwc"@);
    assert(category_table()[i].2 ==> i == 1 || i == 18);
}

/// Which of the folders with a resolver of their own `key` is not.
pub proof fn lemma_not_special_text(key: Seq<char>, at_objects: int, at_quick_actions: int, at_custom_metadata: int)
    requires
        key.len() != 7 || (0 <= at_objects < 7 && at_objects < key.len() && key[at_objects] != "objects"@[at_objects]),
        key.len() != 12 || (0 <= at_quick_actions < 12 && key[at_quick_actions] != "quickActions"@[at_quick_actions]),
        key.len() != 14 || (0 <= at_custom_metadata < 14 && key[at_custom_metadata] != "customMetadata"@[at_custom_metadata]),
    ensures
        key != objects_key(),
        key != "quickActions"@,
        key != "customMetadata"@,
{
    reveal_strlit("objects");
    reveal_strlit("quickActions");
    reveal_strlit("customMetadata");
}

/// The folder of Apex classes: index 3, a flat category.
pub proof fn lemma_classes_entry()
    ensures
        category_index("classes"@) == 3,
        "classes"@ != objects_key(),
        "classes"@ != "quickActions"@,
        "classes"@ != "customMetadata"@,
        forall|j: int| 0 <= j < "classes"@.len() ==> !is_separator(#[trigger] "classes"@[j]),
{
    reveal_strlit("classes");
    reveal_strlit("approvalProcesses");
    reveal_strlit("aura");
    reveal_strlit("businessProcesses");
    lemma_texts_differ("approvalProcesses"@, "classes"@, 0);
    lemma_texts_differ("aura"@, "classes"@, 0);
    lemma_texts_differ("businessProcesses"@, "classes"@, 0);
    lemma_index_is("classes"@, 3);
    reveal_strlit("objects");
    lemma_not_special_text("classes"@, 0, 0, 0);
}

/// The folder of custom labels: index 15, a flat category.
pub proof fn lemma_labels_entry()
    ensures
        category_index("labels"@) == 15,
        "labels"@ != objects_key(),
        "labels"@ != "quickActions"@,
        "labels"@ != "customMetadata"@,
        forall|j: int| 0 <= j < "labels"@.len() ==> !is_separator(#[trigger] "labels"@[j]),
{
    reveal_strlit("labels");
    reveal_strlit("fields");
    lemma_texts_differ("fields"@, "labels"@, 0);
    reveal_strlit("groups");
    lemma_texts_differ("groups"@, "labels"@, 0);
    assert forall|j: int| 0 <= j < 15 && j != 10 && j != 14 implies category_table()[j].0.len() != 6 by {
        reveal_strlit("approvalProcesses");
        reveal_strlit("aura");
        reveal_strlit("businessProcesses");
        reveal_strlit("classes");
        reveal_strlit("compactLayouts");
        reveal_strlit("customMetadata");
        reveal_strlit("customPermissions");
        reveal_strlit("customSettings");
        reveal_strlit("externalCredentials");
        reveal_strlit("fieldSets");
        reveal_strlit("flexipages");
        reveal_strlit("flows");
        reveal_strlit("globalValueSets");
    }
    lemma_index_is("labels"@, 15);
    lemma_not_special_text("labels"@, 0, 0, 0);
}

} // verus!
