//! References between resources: the path that an alias names, and the
//! check that every pure reference has a target.
use vstd::prelude::*;
use crate::table::{group_index, item_index_from, lookup, GroupView, ResourceTable};
use crate::text::{texts, to_uppercase, uppercase};
use crate::types::{ResourceValue, ValueView};
use crate::entries::{
    leaf_of, namespace_of, namespace_prefix, push_namespace_prefix, split_path_to_namespace,
};
use crate::utils::{sanitize_identifier, sanitized};

verus! {

/// The name of the constant generated for a resource name: sanitised and in
/// upper case.
pub open spec fn constant_name(name: Seq<char>) -> Seq<char> {
    uppercase(sanitized(name))
}

/// The path of the constant that a reference names: the module of the
/// kind, the namespaces that the key leads through, and the constant named
/// after the key's last segment; from the crate root where asked. This is
/// where the definition of the resource with that kind and name stands.
pub open spec fn reference_path(resource_type: Seq<char>, key: Seq<char>, use_crate_prefix: bool)
    -> Seq<char> {
    if use_crate_prefix {
        "crate::"@ + sanitized(resource_type) + "::"@ + namespace_prefix(namespace_of(key))
            + constant_name(leaf_of(key))
    } else {
        sanitized(resource_type) + "::"@ + namespace_prefix(namespace_of(key)) + constant_name(
            leaf_of(key),
        )
    }
}

/// Resolves a reference to the path of its target constant, such as
/// `string::APP_NAME` or `crate::color::ui::PRIMARY`.
pub fn resolve_reference_path(resource_type: &str, key: &str, use_crate_prefix: bool) -> (r: String)
    ensures
        r@ == reference_path(resource_type@, key@, use_crate_prefix),
{
    let (namespace, leaf) = split_path_to_namespace(key);
    let name = to_uppercase(sanitize_identifier(leaf.as_str()).as_str());
    let mut out = String::new();
    if use_crate_prefix {
        out.append("crate::");
    }
    out.append(sanitize_identifier(resource_type).as_str());
    out.append("::");
    push_namespace_prefix(&mut out, &namespace);
    out.append(name.as_str());
    assert(out@ =~= reference_path(resource_type@, key@, use_crate_prefix));
    out
}

/// What is wrong with a resource of kind `kind` and name `name`, if
/// anything: a pure reference must name a kind that the table has, and in
/// it a key that exists. The message names the resource and its missing
/// target.
pub open spec fn reference_error(
    t: Seq<GroupView>,
    kind: Seq<char>,
    name: Seq<char>,
    value: ValueView,
) -> Option<Seq<char>> {
    match value {
        ValueView::Reference { resource_type, key } => match group_index(t, resource_type) {
            Some(i) => if item_index_from(t[i].items, key, 0).is_none() {
                Some(
                    "Unresolved reference in "@ + kind + "."@ + name + ": @"@ + resource_type + "/"@
                        + key + " does not exist"@,
                )
            } else {
                None
            },
            None => Some(
                "Invalid reference in "@ + kind + "."@ + name + ": @"@ + resource_type + "/"@ + key
                    + ": resource type '"@ + resource_type + "' does not exist"@,
            ),
        },
        _ => None,
    }
}

/// Every message names both ends of the broken reference: the kind and
/// name of the resource that holds it, and behind `@` the kind and key of
/// the target that is missing.
pub proof fn lemma_reference_error_names_both_ends(
    t: Seq<GroupView>,
    kind: Seq<char>,
    name: Seq<char>,
    resource_type: Seq<char>,
    key: Seq<char>,
)
    requires
        lookup(t, resource_type, key).is_none(),
    ensures
        ({
            let e = reference_error(t, kind, name, ValueView::Reference { resource_type, key });
            let both = kind + "."@ + name + ": @"@ + resource_type + "/"@ + key;
            e == Some(
                "Unresolved reference in "@ + both + " does not exist"@,
            ) || e == Some(
                "Invalid reference in "@ + both + ": resource type '"@ + resource_type
                    + "' does not exist"@,
            )
        }),
{
    let both = kind + "."@ + name + ": @"@ + resource_type + "/"@ + key;
    match group_index(t, resource_type) {
        Some(i) => {
            assert("Unresolved reference in "@ + kind + "."@ + name + ": @"@ + resource_type + "/"@
                + key + " does not exist"@ =~= "Unresolved reference in "@ + both
                + " does not exist"@);
        },
        None => {
            assert("Invalid reference in "@ + kind + "."@ + name + ": @"@ + resource_type + "/"@
                + key + ": resource type '"@ + resource_type + "' does not exist"@
                =~= "Invalid reference in "@ + both + ": resource type '"@ + resource_type
                + "' does not exist"@);
        },
    }
}

/// Zero or one message as a sequence.
pub open spec fn reported(e: Option<Seq<char>>) -> Seq<Seq<char>> {
    match e {
        Some(m) => seq![m],
        None => Seq::empty(),
    }
}

/// The messages for the first `j` resources of a group.
pub open spec fn item_errors(
    t: Seq<GroupView>,
    kind: Seq<char>,
    items: Seq<(Seq<char>, ValueView)>,
    j: int,
) -> Seq<Seq<char>>
    decreases j,
{
    if j <= 0 || j > items.len() {
        Seq::empty()
    } else {
        item_errors(t, kind, items, j - 1) + reported(
            reference_error(t, kind, items[j - 1].0, items[j - 1].1),
        )
    }
}

/// The messages for the first `i` groups.
pub open spec fn group_errors(t: Seq<GroupView>, i: int) -> Seq<Seq<char>>
    decreases i,
{
    if i <= 0 || i > t.len() {
        Seq::empty()
    } else {
        group_errors(t, i - 1) + item_errors(t, t[i - 1].kind, t[i - 1].items, t[i - 1].items.len() as int)
    }
}

/// The messages for all dangling references of the table, in table order:
/// every one is reported, not only the first.
pub open spec fn reference_errors(t: Seq<GroupView>) -> Seq<Seq<char>> {
    group_errors(t, t.len() as int)
}

fn check_reference(table: &ResourceTable, kind: &str, name: &str, value: &ResourceValue) -> (r:
    Option<String>)
    ensures
        crate::utils::opt_text(r) == reference_error(table@, kind@, name@, value@),
{
    match value {
        ResourceValue::Reference { resource_type, key } => {
            match table.get(resource_type.as_str()) {
                Some(items) => match crate::table::find_item(items, key.as_str()) {
                    Some(_) => None,
                    None => {
                        let mut m = "Unresolved reference in ".to_string();
                        m.append(kind);
                        m.append(".");
                        m.append(name);
                        m.append(": @");
                        m.append(resource_type.as_str());
                        m.append("/");
                        m.append(key.as_str());
                        m.append(" does not exist");
                        Some(m)
                    },
                },
                None => {
                    let mut m = "Invalid reference in ".to_string();
                    m.append(kind);
                    m.append(".");
                    m.append(name);
                    m.append(": @");
                    m.append(resource_type.as_str());
                    m.append("/");
                    m.append(key.as_str());
                    m.append(": resource type '");
                    m.append(resource_type.as_str());
                    m.append("' does not exist");
                    Some(m)
                },
            }
        },
        _ => None,
    }
}

/// Checks that every pure reference points to an existing resource and
/// returns one message for each that does not.
pub fn validate_references(table: &ResourceTable) -> (errors: Vec<String>)
    ensures
        texts(errors@) == reference_errors(table@),
{
    let mut errors: Vec<String> = Vec::new();
    let mut i: usize = 0;
    assert(texts(errors@) =~= group_errors(table@, 0));
    while i < table.groups.len()
        invariant
            i <= table.groups@.len(),
            texts(errors@) == group_errors(table@, i as int),
        decreases table.groups@.len() - i,
    {
        let group = &table.groups[i];
        assert(table@[i as int] == group@);
        let mut j: usize = 0;
        assert(texts(errors@) + item_errors(table@, group@.kind, group@.items, 0) =~= texts(
            errors@,
        ));
        while j < group.items.len()
            invariant
                i < table.groups@.len(),
                table@[i as int] == group@,
                j <= group.items@.len(),
                texts(errors@) == group_errors(table@, i as int) + item_errors(
                    table@,
                    group@.kind,
                    group@.items,
                    j as int,
                ),
            decreases group.items@.len() - j,
        {
            let ghost before = texts(errors@);
            let item = &group.items[j];
            assert(group@.items[j as int] == (item.0@, item.1@));
            match check_reference(table, group.kind.as_str(), item.0.as_str(), &item.1) {
                Some(m) => {
                    errors.push(m);
                    assert(texts(errors@) =~= before + seq![m@]);
                },
                None => {
                    assert(texts(errors@) =~= before + Seq::<Seq<char>>::empty());
                },
            }
            j = j + 1;
            assert(texts(errors@) =~= group_errors(table@, i as int) + item_errors(
                table@,
                group@.kind,
                group@.items,
                j as int,
            ));
        }
        i = i + 1;
    }
    errors
}

/// Every dangling pure reference is reported: for the resource at position
/// `j` of group `i`, whatever `reference_error` says of it is among the
/// messages of the table.
pub proof fn lemma_dangling_reference_reported(t: Seq<GroupView>, i: int, j: int)
    requires
        0 <= i < t.len(),
        0 <= j < t[i].items.len(),
        reference_error(t, t[i].kind, t[i].items[j].0, t[i].items[j].1).is_some(),
    ensures
        reference_errors(t).contains(
            reference_error(t, t[i].kind, t[i].items[j].0, t[i].items[j].1).unwrap(),
        ),
        reference_errors(t).len() > 0,
{
    let m = reference_error(t, t[i].kind, t[i].items[j].0, t[i].items[j].1).unwrap();
    lemma_item_errors_contain(t, t[i].kind, t[i].items, j, t[i].items.len() as int);
    lemma_group_errors_contain(t, i, t.len() as int, m);
}

proof fn lemma_item_errors_contain(
    t: Seq<GroupView>,
    kind: Seq<char>,
    items: Seq<(Seq<char>, ValueView)>,
    j: int,
    upto: int,
)
    requires
        0 <= j < upto <= items.len(),
        reference_error(t, kind, items[j].0, items[j].1).is_some(),
    ensures
        item_errors(t, kind, items, upto).contains(
            reference_error(t, kind, items[j].0, items[j].1).unwrap(),
        ),
    decreases upto,
{
    let m = reference_error(t, kind, items[j].0, items[j].1).unwrap();
    let head = item_errors(t, kind, items, upto - 1);
    let tail = reported(reference_error(t, kind, items[upto - 1].0, items[upto - 1].1));
    if j == upto - 1 {
        assert(tail[0] == m);
        assert((head + tail)[head.len() as int] == m);
    } else {
        lemma_item_errors_contain(t, kind, items, j, upto - 1);
        let k = choose|k: int| 0 <= k < head.len() && head[k] == m;
        assert((head + tail)[k] == m);
    }
}

proof fn lemma_group_errors_contain(t: Seq<GroupView>, i: int, upto: int, m: Seq<char>)
    requires
        0 <= i < upto <= t.len(),
        item_errors(t, t[i].kind, t[i].items, t[i].items.len() as int).contains(m),
    ensures
        group_errors(t, upto).contains(m),
    decreases upto,
{
    let head = group_errors(t, upto - 1);
    let tail = item_errors(t, t[upto - 1].kind, t[upto - 1].items, t[upto - 1].items.len() as int);
    if i == upto - 1 {
        let k = choose|k: int| 0 <= k < tail.len() && tail[k] == m;
        assert((head + tail)[head.len() + k] == m);
    } else {
        lemma_group_errors_contain(t, i, upto - 1, m);
        let k = choose|k: int| 0 <= k < head.len() && head[k] == m;
        assert((head + tail)[k] == m);
    }
}

} // verus!
