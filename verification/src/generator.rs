//! The emitter: from the resource table to the generated source text.
//!
//! For every kind there is a module of definitions, nested by namespace.
//! The module `r` mirrors all of them in one namespace tree of re-exports,
//! so a resource can be reached by its kind or through `r`, and is the same
//! item either way. Test resources get a module of their own, present only
//! in builds that are told so.
use vstd::prelude::*;
use crate::arrays::array_text;
use crate::emit::{
    definition_text, emit_resource_padded, function_name, is_array_kind, is_number_kind,
    is_text_kind,
};
use crate::entries::{
    collect_entries, entries_of, entries_view, item_entries, leaf_of, namespace_prefix,
    push_group_entries, push_namespace_prefix, EntryView, ResourceEntry,
};
use crate::references::constant_name;
use crate::table::{group_index, GroupView, ResourceGroup, ResourceTable};
use crate::text::{str_eq, to_lowercase, to_uppercase};
use crate::tree::{
    build_namespace_tree, sort_namespace_tree, sorted_tree, tree_of, NamespaceNode, TreeView,
};
use crate::types::{NumberValue, NumberView, ResourceValue, ValueView};
use crate::utils::{sanitize_identifier, sanitized};

verus! {

/// What stands at the leaves of an emitted namespace tree.
#[derive(Debug, Clone, Copy, PartialEq, Eq, Structural)]
pub enum EmitMode {
    /// The definition of each resource.
    Define,
    /// A re-export of each resource from the module of its kind.
    Export,
}

/// The name of the item that the definition of a resource declares, where
/// it declares one: the constant's name, or the function's for a template.
pub open spec fn item_name(e: EntryView) -> Option<Seq<char>> {
    let name = constant_name(e.leaf_name);
    if e.resource_type == "string"@ {
        match e.value {
            ValueView::String(_) => Some(name),
            ValueView::Reference { .. } => Some(name),
            ValueView::InterpolatedString(_) => Some(name),
            ValueView::Template(_) => Some(function_name(e.leaf_name)),
            _ => None,
        }
    } else if is_number_kind(e.resource_type) {
        match e.value {
            ValueView::Number(_) => Some(name),
            ValueView::Reference { .. } => Some(name),
            _ => None,
        }
    } else if e.resource_type == "bool"@ {
        match e.value {
            ValueView::Bool(_) => Some(name),
            ValueView::Reference { .. } => Some(name),
            _ => None,
        }
    } else if is_text_kind(e.resource_type) {
        match e.value {
            ValueView::Color(_) => Some(name),
            ValueView::Url(_) => Some(name),
            ValueView::Dimension(_) => Some(name),
            ValueView::Reference { .. } => Some(name),
            _ => None,
        }
    } else if is_array_kind(e.resource_type) {
        match e.value {
            ValueView::Array { element_type, spec, items } => match array_text(
                element_type,
                spec,
                items,
                Seq::empty(),
                Seq::empty(),
                name,
            ) {
                Ok(Some(_)) => Some(name),
                _ => None,
            },
            _ => None,
        }
    } else {
        None
    }
}

/// The path of the item that the definition of a resource declares: the
/// module of its kind, its namespaces, and the item's name.
pub open spec fn item_path(e: EntryView, name: Seq<char>) -> Seq<char> {
    "crate::"@ + sanitized(e.resource_type) + "::"@ + namespace_prefix(e.namespace_path) + name
}

/// The re-export of a resource: it names the item that the module of the
/// resource's kind defines in the same namespace, and so is that item. A
/// resource without a definition has no re-export.
pub open spec fn reexport_text(e: EntryView, pad: Seq<char>) -> Seq<char> {
    match item_name(e) {
        Some(name) => pad + "pub use "@ + item_path(e, name) + ";\n"@,
        None => Seq::empty(),
    }
}

/// The two forms agree on what there is to reach: a resource that the
/// module of its kind does not define is not re-exported either, and a
/// resource that is re-exported is named by the path of its kind's module,
/// its namespaces and the name of its item.
pub proof fn lemma_reexport_follows_definition(
    e: EntryView,
    all: Seq<GroupView>,
    pad: Seq<char>,
    export_pad: Seq<char>,
)
    ensures
        item_name(e).is_none() ==> definition_text(e, all, pad) == Seq::<char>::empty()
            && reexport_text(e, export_pad) == Seq::<char>::empty(),
        item_name(e).is_some() ==> reexport_text(e, export_pad) == export_pad + "pub use crate::"@
            + sanitized(e.resource_type) + "::"@ + namespace_prefix(e.namespace_path)
            + item_name(e).unwrap() + ";\n"@,
{
    if item_name(e).is_some() {
        let name = item_name(e).unwrap();
        assert(export_pad + "pub use "@ + item_path(e, name) + ";\n"@ =~= export_pad
            + "pub use crate::"@ + sanitized(e.resource_type) + "::"@ + namespace_prefix(
            e.namespace_path,
        ) + name + ";\n"@) by {
            reveal_strlit("pub use ");
            reveal_strlit("crate::");
            reveal_strlit("pub use crate::");
            assert("pub use "@ + "crate::"@ =~= "pub use crate::"@);
            assert(export_pad + "pub use "@ + ("crate::"@ + sanitized(e.resource_type) + "::"@
                + namespace_prefix(e.namespace_path) + name) + ";\n"@ =~= export_pad + ("pub use "@
                + "crate::"@) + sanitized(e.resource_type) + "::"@ + namespace_prefix(
                e.namespace_path,
            ) + name + ";\n"@);
        }
    }
}

/// An alias names its target's definition: the path that a reference to
/// the resource of kind `kind` and name `key` resolves to is the path of
/// the constant that the entry of that resource defines, and that the
/// module `r` re-exports. So the alias, the definition and the re-export
/// are one item, and have one value.
pub proof fn lemma_alias_names_definition(kind: Seq<char>, key: Seq<char>, value: ValueView)
    requires
        leaf_of(key).len() > 0,
    ensures
        ({
            let target = crate::entries::entry_for(kind, key, value)[0];
            let name = constant_name(target.leaf_name);
            &&& crate::references::reference_path(kind, key, true) == item_path(target, name)
            &&& item_name(target) == Some(name) ==> reexport_text(target, Seq::empty())
                == "pub use "@ + crate::references::reference_path(kind, key, true) + ";\n"@
        }),
{
    let target = crate::entries::entry_for(kind, key, value)[0];
    let name = constant_name(target.leaf_name);
    assert(Seq::<char>::empty() + "pub use "@ + item_path(target, name) + ";\n"@ =~= "pub use "@
        + item_path(target, name) + ";\n"@);
}

/// A resource can be reached in both forms, under one path: the tree of
/// its kind's module, where it is defined, and the tree of the module `r`,
/// where it is re-exported, both hold its entry in the namespace of its
/// path. What stands there is the definition in the one and the re-export
/// of that definition's path in the other.
pub proof fn lemma_resource_stands_in_both_trees(t: Seq<GroupView>, i: int, j: int)
    requires
        0 <= i < t.len(),
        0 <= j < t[i].items.len(),
        crate::entries::has_entry(t[i].items[j].0),
    ensures
        ({
            let e = crate::entries::entry_of(t[i].kind, t[i].items[j].0, t[i].items[j].1);
            let all = entries_of(t);
            let own = item_entries(t[i].kind, t[i].items, t[i].items.len() as int);
            &&& exists|k: int|
                0 <= k < all.len() && all[k] == e && crate::tree::has_leaf_at(
                    sorted_tree(tree_of(all, all.len() as int), all),
                    e.namespace_path,
                    k,
                )
            &&& exists|k: int|
                0 <= k < own.len() && own[k] == e && crate::tree::has_leaf_at(
                    sorted_tree(tree_of(own, own.len() as int), own),
                    e.namespace_path,
                    k,
                )
            &&& forall|pad: Seq<char>|
                item_name(e).is_some() ==> #[trigger] reexport_text(e, pad) == pad + "pub use "@
                    + item_path(e, item_name(e).unwrap()) + ";\n"@
        }),
{
    let e = crate::entries::entry_of(t[i].kind, t[i].items[j].0, t[i].items[j].1);
    let all = entries_of(t);
    let own = item_entries(t[i].kind, t[i].items, t[i].items.len() as int);
    crate::entries::lemma_entries_hold(t, i, j, t.len() as int);
    crate::entries::lemma_item_entries_hold(t[i].kind, t[i].items, j, t[i].items.len() as int);
    let a = choose|k: int| 0 <= k < all.len() && all[k] == e;
    crate::tree::lemma_emitted_tree(all, a);
    let b = choose|k: int| 0 <= k < own.len() && own[k] == e;
    crate::tree::lemma_emitted_tree(own, b);
}

fn entry_item_name(entry: &ResourceEntry) -> (r: Option<String>)
    ensures
        crate::utils::opt_text(r) == item_name(entry@),
{
    let name = to_uppercase(sanitize_identifier(entry.leaf_name.as_str()).as_str());
    let kind = entry.resource_type.as_str();
    if str_eq(kind, "string") {
        match &entry.value {
            ResourceValue::String(_) => Some(name),
            ResourceValue::Reference { .. } => Some(name),
            ResourceValue::InterpolatedString(_) => Some(name),
            ResourceValue::Template(_) => Some(
                to_lowercase(sanitize_identifier(entry.leaf_name.as_str()).as_str()),
            ),
            _ => None,
        }
    } else if str_eq(kind, "number") || str_eq(kind, "int") || str_eq(kind, "float") {
        match &entry.value {
            ResourceValue::Number(_) => Some(name),
            ResourceValue::Reference { .. } => Some(name),
            _ => None,
        }
    } else if str_eq(kind, "bool") {
        match &entry.value {
            ResourceValue::Bool(_) => Some(name),
            ResourceValue::Reference { .. } => Some(name),
            _ => None,
        }
    } else if str_eq(kind, "color") || str_eq(kind, "url") || str_eq(kind, "dimension") {
        match &entry.value {
            ResourceValue::Color(_) => Some(name),
            ResourceValue::Url(_) => Some(name),
            ResourceValue::Dimension(_) => Some(name),
            ResourceValue::Reference { .. } => Some(name),
            _ => None,
        }
    } else if str_eq(kind, "array") || str_eq(kind, "string_array") || str_eq(kind, "int_array")
        || str_eq(kind, "float_array") {
        match &entry.value {
            ResourceValue::Array { element_type, spec, items } => {
                let nothing = String::new();
                match crate::arrays::emit_array(
                    element_type.as_str(),
                    spec,
                    items,
                    nothing.as_str(),
                    nothing.as_str(),
                    name.as_str(),
                ) {
                    Ok(Some(_)) => Some(name),
                    _ => None,
                }
            },
            _ => None,
        }
    } else {
        None
    }
}

/// Appends the re-export of a resource.
pub fn emit_reexport(code: &mut String, entry: &ResourceEntry, pad: &str)
    ensures
        final(code)@ == old(code)@ + reexport_text(entry@, pad@),
{
    match entry_item_name(entry) {
        Some(name) => {
            let mut path = "crate::".to_string();
            path.append(sanitize_identifier(entry.resource_type.as_str()).as_str());
            path.append("::");
            push_namespace_prefix(&mut path, &entry.namespace_path);
            path.append(name.as_str());
            assert(path@ =~= item_path(entry@, name@));
            code.append(pad);
            code.append("pub use ");
            code.append(path.as_str());
            code.append(";\n");
            assert(final(code)@ =~= old(code)@ + reexport_text(entry@, pad@));
        },
        None => {
            assert(final(code)@ =~= old(code)@ + Seq::<char>::empty());
        },
    }
}

/// What stands in the tree for the resource at position `idx`; a position
/// outside the entries gives nothing.
pub open spec fn leaf_text(
    entries: Seq<EntryView>,
    idx: int,
    all: Seq<GroupView>,
    pad: Seq<char>,
    mode: EmitMode,
) -> Seq<char> {
    if 0 <= idx < entries.len() {
        match mode {
            EmitMode::Define => definition_text(entries[idx], all, pad),
            EmitMode::Export => reexport_text(entries[idx], pad),
        }
    } else {
        Seq::empty()
    }
}

/// The text of the first `n` resources of a namespace.
pub open spec fn leaves_text(
    leaves: Seq<int>,
    n: int,
    entries: Seq<EntryView>,
    all: Seq<GroupView>,
    pad: Seq<char>,
    mode: EmitMode,
) -> Seq<char>
    decreases n,
{
    if n <= 0 || n > leaves.len() {
        Seq::empty()
    } else {
        leaves_text(leaves, n - 1, entries, all, pad, mode) + leaf_text(
            entries,
            leaves[n - 1],
            all,
            pad,
            mode,
        )
    }
}

/// The text of the first `n` child namespaces: each a module of its name
/// around its own text, indented four spaces further.
pub open spec fn children_text(
    cs: Seq<(Seq<char>, TreeView)>,
    n: int,
    entries: Seq<EntryView>,
    all: Seq<GroupView>,
    pad: Seq<char>,
    mode: EmitMode,
) -> Seq<char>
    decreases cs, n,
{
    if n <= 0 || n > cs.len() {
        Seq::empty()
    } else {
        children_text(cs, n - 1, entries, all, pad, mode) + (pad + "pub mod "@ + cs[n - 1].0
            + " {\n"@ + tree_text(cs[n - 1].1, entries, all, pad + "    "@, mode) + pad + "}\n"@)
    }
}

/// The text of a namespace: its child namespaces first, in their order,
/// then its own resources, in theirs.
pub open spec fn tree_text(
    t: TreeView,
    entries: Seq<EntryView>,
    all: Seq<GroupView>,
    pad: Seq<char>,
    mode: EmitMode,
) -> Seq<char>
    decreases t,
{
    children_text(t.children, t.children.len() as int, entries, all, pad, mode) + leaves_text(
        t.leaves,
        t.leaves.len() as int,
        entries,
        all,
        pad,
        mode,
    )
}

fn emit_leaves(
    code: &mut String,
    indices: &Vec<usize>,
    entries: &Vec<ResourceEntry>,
    all_resources: &ResourceTable,
    pad: &str,
    mode: EmitMode,
)
    ensures
        final(code)@ == old(code)@ + leaves_text(
            Seq::new(indices@.len(), |i: int| indices@[i] as int),
            indices@.len() as int,
            entries_view(entries@),
            all_resources@,
            pad@,
            mode,
        ),
{
    let ghost es = entries_view(entries@);
    let ghost all = all_resources@;
    let ghost start = code@;
    let ghost leaves = Seq::new(indices@.len(), |i: int| indices@[i] as int);
    let mut j: usize = 0;
    assert(code@ =~= start + leaves_text(leaves, 0, es, all, pad@, mode));
    while j < indices.len()
        invariant
            j <= indices@.len(),
            es == entries_view(entries@),
            all == all_resources@,
            leaves == Seq::new(indices@.len(), |i: int| indices@[i] as int),
            code@ == start + leaves_text(leaves, j as int, es, all, pad@, mode),
        decreases indices@.len() - j,
    {
        let ghost c0 = code@;
        let idx = indices[j];
        assert(leaves[j as int] == idx as int);
        if idx < entries.len() {
            assert(es[idx as int] == entries@[idx as int]@);
            match mode {
                EmitMode::Define => emit_resource_padded(code, &entries[idx], all_resources, pad),
                EmitMode::Export => emit_reexport(code, &entries[idx], pad),
            }
        }
        assert(code@ =~= c0 + leaf_text(es, idx as int, all, pad@, mode));
        j = j + 1;
        assert(code@ =~= start + leaves_text(leaves, j as int, es, all, pad@, mode));
    }
}

fn emit_children(
    code: &mut String,
    children: &Vec<(String, NamespaceNode)>,
    entries: &Vec<ResourceEntry>,
    all_resources: &ResourceTable,
    pad: &str,
    mode: EmitMode,
)
    ensures
        final(code)@ == old(code)@ + children_text(
            crate::tree::children_view(children@),
            children@.len() as int,
            entries_view(entries@),
            all_resources@,
            pad@,
            mode,
        ),
    decreases children,
{
    let ghost es = entries_view(entries@);
    let ghost all = all_resources@;
    let ghost start = code@;
    let ghost cs = crate::tree::children_view(children@);
    let mut inner = pad.to_string();
    inner.append("    ");
    let mut i: usize = 0;
    assert(code@ =~= start + children_text(cs, 0, es, all, pad@, mode));
    while i < children.len()
        invariant
            i <= children@.len(),
            es == entries_view(entries@),
            all == all_resources@,
            cs == crate::tree::children_view(children@),
            inner@ == pad@ + "    "@,
            code@ == start + children_text(cs, i as int, es, all, pad@, mode),
        decreases children@.len() - i,
    {
        proof {
            vstd::std_specs::vec::axiom_vec_index_decreases(*children, i as int);
        }
        let ghost c0 = code@;
        assert(cs[i as int].0 == children@[i as int].0@);
        assert(cs[i as int].1 == crate::tree::node_view(children@[i as int].1));
        code.append(pad);
        code.append("pub mod ");
        code.append(children[i].0.as_str());
        code.append(" {\n");
        emit_namespace_tree(code, &children[i].1, entries, all_resources, inner.as_str(), mode);
        code.append(pad);
        code.append("}\n");
        assert(code@ =~= c0 + (pad@ + "pub mod "@ + cs[i as int].0 + " {\n"@ + tree_text(
            cs[i as int].1,
            es,
            all,
            pad@ + "    "@,
            mode,
        ) + pad@ + "}\n"@));
        i = i + 1;
    }
}

/// Appends the text of a namespace and of all below it.
pub fn emit_namespace_tree(
    code: &mut String,
    node: &NamespaceNode,
    entries: &Vec<ResourceEntry>,
    all_resources: &ResourceTable,
    pad: &str,
    mode: EmitMode,
)
    ensures
        final(code)@ == old(code)@ + tree_text(
            node@,
            entries_view(entries@),
            all_resources@,
            pad@,
            mode,
        ),
    decreases node,
{
    emit_children(code, &node.children, entries, all_resources, pad, mode);
    emit_leaves(code, &node.resource_indices, entries, all_resources, pad, mode);
    assert(final(code)@ =~= old(code)@ + tree_text(
        node@,
        entries_view(entries@),
        all_resources@,
        pad@,
        mode,
    ));
}

/// The text of the namespace tree of the given entries, the resources of
/// every namespace in the order of their leaf names.
pub open spec fn namespace_text(
    entries: Seq<EntryView>,
    all: Seq<GroupView>,
    pad: Seq<char>,
    mode: EmitMode,
) -> Seq<char> {
    tree_text(
        sorted_tree(tree_of(entries, entries.len() as int), entries),
        entries,
        all,
        pad,
        mode,
    )
}

fn emit_entries(
    code: &mut String,
    entries: &Vec<ResourceEntry>,
    all_resources: &ResourceTable,
    pad: &str,
    mode: EmitMode,
)
    ensures
        final(code)@ == old(code)@ + namespace_text(
            entries_view(entries@),
            all_resources@,
            pad@,
            mode,
        ),
{
    let tree = build_namespace_tree(entries);
    let sorted = sort_namespace_tree(&tree, entries);
    emit_namespace_tree(code, &sorted, entries, all_resources, pad, mode);
}

/// Whether some resource is an arbitrary-precision number.
pub open spec fn items_have_big_decimal(items: Seq<(Seq<char>, ValueView)>) -> bool {
    exists|i: int|
        0 <= i < items.len() && (#[trigger] items[i]).1 matches ValueView::Number(
            NumberView::BigDecimal(_),
        )
}

fn any_big_decimal(items: &Vec<(String, ResourceValue)>) -> (r: bool)
    ensures
        r == items_have_big_decimal(crate::table::items_view(items@)),
{
    let ghost its = crate::table::items_view(items@);
    let mut i: usize = 0;
    while i < items.len()
        invariant
            i <= items@.len(),
            its == crate::table::items_view(items@),
            forall|j: int|
                0 <= j < i ==> !((#[trigger] its[j]).1 matches ValueView::Number(
                    NumberView::BigDecimal(_),
                )),
        decreases items@.len() - i,
    {
        assert(its[i as int].1 == items@[i as int].1@);
        match &items[i].1 {
            ResourceValue::Number(NumberValue::BigDecimal(_)) => {
                return true;
            },
            _ => {},
        }
        i = i + 1;
    }
    false
}

/// The imports that arbitrary-precision statics need.
pub open spec fn big_decimal_imports(needed: bool) -> Seq<char> {
    if needed {
        "    use core::str::FromStr;\n"@ + "    use std::sync::LazyLock;\n"@
            + "    use r_resources::BigDecimal;\n"@
    } else {
        Seq::empty()
    }
}

fn emit_big_decimal_imports(code: &mut String, needed: bool)
    ensures
        final(code)@ == old(code)@ + big_decimal_imports(needed),
{
    if needed {
        code.append("    use core::str::FromStr;\n");
        code.append("    use std::sync::LazyLock;\n");
        code.append("    use r_resources::BigDecimal;\n");
        assert(final(code)@ =~= old(code)@ + big_decimal_imports(needed));
    } else {
        assert(final(code)@ =~= old(code)@ + big_decimal_imports(needed));
    }
}

/// The module of one kind: the definitions of the group's resources,
/// nested by namespace. Interpolations are resolved against the whole
/// table `all`.
pub open spec fn kind_module(g: GroupView, all: Seq<GroupView>) -> Seq<char> {
    "\npub mod "@ + sanitized(g.kind) + " {\n"@ + big_decimal_imports(
        g.kind == "number"@ && items_have_big_decimal(g.items),
    ) + namespace_text(
        item_entries(g.kind, g.items, g.items.len() as int),
        all,
        "    "@,
        EmitMode::Define,
    ) + "}\n"@
}

/// Generates the module of definitions for one kind.
pub fn generate_kind_module(group: &ResourceGroup, all_resources: &ResourceTable) -> (code: String)
    ensures
        code@ == kind_module(group@, all_resources@),
{
    let mut code = "\npub mod ".to_string();
    code.append(sanitize_identifier(group.kind.as_str()).as_str());
    code.append(" {\n");
    let needed = str_eq(group.kind.as_str(), "number") && any_big_decimal(&group.items);
    emit_big_decimal_imports(&mut code, needed);
    let mut entries: Vec<ResourceEntry> = Vec::new();
    assert(entries_view(entries@) =~= Seq::<EntryView>::empty());
    push_group_entries(&mut entries, group);
    assert(entries_view(entries@) =~= item_entries(
        group@.kind,
        group@.items,
        group@.items.len() as int,
    ));
    emit_entries(&mut code, &entries, all_resources, "    ", EmitMode::Define);
    code.append("}\n");
    assert(code@ =~= kind_module(group@, all_resources@));
    code
}

/// The table that holds one group.
pub open spec fn single_group(kind: Seq<char>, items: Seq<(Seq<char>, ValueView)>) -> Seq<
    GroupView,
> {
    seq![GroupView { kind, items }]
}

fn module_of(kind: &str, items: &Vec<(String, ResourceValue)>) -> (code: String)
    ensures
        code@ == kind_module(
            GroupView { kind: kind@, items: crate::table::items_view(items@) },
            single_group(kind@, crate::table::items_view(items@)),
        ),
{
    let mut copy: Vec<(String, ResourceValue)> = Vec::new();
    let mut i: usize = 0;
    while i < items.len()
        invariant
            i <= items@.len(),
            copy@.len() == i,
            forall|j: int|
                0 <= j < i ==> copy@[j].0@ == items@[j].0@ && copy@[j].1@ == items@[j].1@,
        decreases items@.len() - i,
    {
        copy.push((items[i].0.clone(), crate::entries::clone_value(&items[i].1)));
        i = i + 1;
    }
    assert(crate::table::items_view(copy@) =~= crate::table::items_view(items@));
    let mut groups: Vec<ResourceGroup> = Vec::new();
    groups.push(ResourceGroup { kind: kind.to_string(), items: copy });
    let table = ResourceTable { groups };
    assert(table@ =~= single_group(kind@, crate::table::items_view(items@)));
    generate_kind_module(&table.groups[0], &table)
}

/// Generates the module `string` for the given string resources alone.
pub fn generate_string_module(strings: &Vec<(String, ResourceValue)>) -> (code: String)
    ensures
        code@ == kind_module(
            GroupView { kind: "string"@, items: crate::table::items_view(strings@) },
            single_group("string"@, crate::table::items_view(strings@)),
        ),
{
    module_of("string", strings)
}

/// Generates the module `int` for the given numbers alone.
pub fn generate_int_module(ints: &Vec<(String, ResourceValue)>) -> (code: String)
    ensures
        code@ == kind_module(
            GroupView { kind: "int"@, items: crate::table::items_view(ints@) },
            single_group("int"@, crate::table::items_view(ints@)),
        ),
{
    module_of("int", ints)
}

/// Generates the module `float` for the given numbers alone.
pub fn generate_float_module(floats: &Vec<(String, ResourceValue)>) -> (code: String)
    ensures
        code@ == kind_module(
            GroupView { kind: "float"@, items: crate::table::items_view(floats@) },
            single_group("float"@, crate::table::items_view(floats@)),
        ),
{
    module_of("float", floats)
}

/// Generates the module `bool` for the given boolean resources alone.
pub fn generate_bool_module(bools: &Vec<(String, ResourceValue)>) -> (code: String)
    ensures
        code@ == kind_module(
            GroupView { kind: "bool"@, items: crate::table::items_view(bools@) },
            single_group("bool"@, crate::table::items_view(bools@)),
        ),
{
    module_of("bool", bools)
}

/// Generates the module `color` for the given color resources alone.
pub fn generate_color_module(colors: &Vec<(String, ResourceValue)>) -> (code: String)
    ensures
        code@ == kind_module(
            GroupView { kind: "color"@, items: crate::table::items_view(colors@) },
            single_group("color"@, crate::table::items_view(colors@)),
        ),
{
    module_of("color", colors)
}

/// Generates the module `url` for the given URL resources alone.
pub fn generate_url_module(urls: &Vec<(String, ResourceValue)>) -> (code: String)
    ensures
        code@ == kind_module(
            GroupView { kind: "url"@, items: crate::table::items_view(urls@) },
            single_group("url"@, crate::table::items_view(urls@)),
        ),
{
    module_of("url", urls)
}

/// Generates the module `dimension` for the given dimension resources
/// alone.
pub fn generate_dimension_module(dimensions: &Vec<(String, ResourceValue)>) -> (code: String)
    ensures
        code@ == kind_module(
            GroupView { kind: "dimension"@, items: crate::table::items_view(dimensions@) },
            single_group("dimension"@, crate::table::items_view(dimensions@)),
        ),
{
    module_of("dimension", dimensions)
}

/// Generates the module `string_array` for the given arrays alone.
pub fn generate_string_array_module(string_arrays: &Vec<(String, ResourceValue)>) -> (code: String)
    ensures
        code@ == kind_module(
            GroupView { kind: "string_array"@, items: crate::table::items_view(string_arrays@) },
            single_group("string_array"@, crate::table::items_view(string_arrays@)),
        ),
{
    module_of("string_array", string_arrays)
}

/// Generates the module `int_array` for the given arrays alone.
pub fn generate_int_array_module(int_arrays: &Vec<(String, ResourceValue)>) -> (code: String)
    ensures
        code@ == kind_module(
            GroupView { kind: "int_array"@, items: crate::table::items_view(int_arrays@) },
            single_group("int_array"@, crate::table::items_view(int_arrays@)),
        ),
{
    module_of("int_array", int_arrays)
}

/// Generates the module `float_array` for the given arrays alone.
pub fn generate_float_array_module(float_arrays: &Vec<(String, ResourceValue)>) -> (code: String)
    ensures
        code@ == kind_module(
            GroupView { kind: "float_array"@, items: crate::table::items_view(float_arrays@) },
            single_group("float_array"@, crate::table::items_view(float_arrays@)),
        ),
{
    module_of("float_array", float_arrays)
}

/// The modules of the first `n` kinds, in table order.
pub open spec fn kind_modules(t: Seq<GroupView>, n: int) -> Seq<char>
    decreases n,
{
    if n <= 0 || n > t.len() {
        Seq::empty()
    } else {
        kind_modules(t, n - 1) + kind_module(t[n - 1], t)
    }
}

/// Generates the modules of definitions, one for each kind.
pub fn generate_kind_modules(resources: &ResourceTable) -> (code: String)
    ensures
        code@ == kind_modules(resources@, resources@.len() as int),
{
    let mut code = String::new();
    let mut i: usize = 0;
    assert(code@ =~= kind_modules(resources@, 0));
    while i < resources.groups.len()
        invariant
            i <= resources.groups@.len(),
            code@ == kind_modules(resources@, i as int),
        decreases resources.groups@.len() - i,
    {
        assert(resources@[i as int] == resources.groups@[i as int]@);
        let m = generate_kind_module(&resources.groups[i], resources);
        code.append(m.as_str());
        i = i + 1;
    }
    code
}

/// The module `r`: one namespace tree over all resources, each re-exported
/// from the module of its kind.
pub open spec fn r_module(t: Seq<GroupView>) -> Seq<char> {
    "\npub mod r {\n"@ + namespace_text(entries_of(t), t, "    "@, EmitMode::Export) + "}\n"@
}

/// Generates the module `r`, the namespace tree of re-exports.
pub fn generate_r_module(resources: &ResourceTable) -> (code: String)
    ensures
        code@ == r_module(resources@),
{
    let entries = collect_entries(resources);
    let mut code = "\npub mod r {\n".to_string();
    emit_entries(&mut code, &entries, resources, "    ", EmitMode::Export);
    code.append("}\n");
    code
}

/// Whether the numbers of the table hold one of arbitrary precision.
pub open spec fn needs_big_decimal(t: Seq<GroupView>) -> bool {
    match group_index(t, "number"@) {
        Some(i) => items_have_big_decimal(t[i].items),
        None => false,
    }
}

/// The module of the test resources: their definitions in one namespace
/// tree, compiled only where the build says that test resources exist.
pub open spec fn r_tests_module(t: Seq<GroupView>) -> Seq<char> {
    "\n#[cfg(r_resources_has_tests)]\npub mod r_tests {\n"@ + big_decimal_imports(
        needs_big_decimal(t),
    ) + namespace_text(entries_of(t), t, "    "@, EmitMode::Define) + "}\n"@
}

/// Generates the module of the test resources.
pub fn generate_r_tests_module(test_resources: &ResourceTable) -> (code: String)
    ensures
        code@ == r_tests_module(test_resources@),
{
    let entries = collect_entries(test_resources);
    let needed = match test_resources.get("number") {
        Some(items) => any_big_decimal(items),
        None => false,
    };
    let mut code = "\n#[cfg(r_resources_has_tests)]\npub mod r_tests {\n".to_string();
    emit_big_decimal_imports(&mut code, needed);
    emit_entries(&mut code, &entries, test_resources, "    ", EmitMode::Define);
    code.append("}\n");
    assert(code@ =~= r_tests_module(test_resources@));
    code
}

/// The marker type `R` that ends every generated file.
pub open spec fn r_struct() -> Seq<char> {
    "\npub struct R;\n\nimpl Default for R {\n    fn default() -> Self {\n        Self::new()\n    }\n}\n\nimpl R {\n    #[must_use]\n    pub const fn new() -> Self {\n        Self\n    }\n}\n"@
}

pub fn generate_r_struct() -> (code: String)
    ensures
        code@ == r_struct(),
{
    "\npub struct R;\n\nimpl Default for R {\n    fn default() -> Self {\n        Self::new()\n    }\n}\n\nimpl R {\n    #[must_use]\n    pub const fn new() -> Self {\n        Self\n    }\n}\n".to_string()
}

/// What is generated where there are no resources at all: an empty `r`
/// and the marker type.
pub open spec fn empty_code() -> Seq<char> {
    "\npub mod r {}\n"@ + r_struct()
}

pub fn generate_empty_code() -> (code: String)
    ensures
        code@ == empty_code(),
{
    let mut code = "\npub mod r {}\n".to_string();
    code.append(generate_r_struct().as_str());
    code
}

/// The generated source text for a table: the modules of the kinds, the
/// module `r`, and the marker type. It is a function of the table alone:
/// the same table gives the same text, byte for byte.
pub open spec fn generated_code(t: Seq<GroupView>) -> Seq<char> {
    kind_modules(t, t.len() as int) + r_module(t) + r_struct()
}

/// Generates the source text for all resources.
pub fn generate_code(resources: &ResourceTable) -> (code: String)
    ensures
        code@ == generated_code(resources@),
{
    let mut code = generate_kind_modules(resources);
    code.append(generate_r_module(resources).as_str());
    code.append(generate_r_struct().as_str());
    code
}

/// The generated source text for a table and the table of the test
/// resources: as without tests, with the module of the test resources
/// before the marker type.
pub open spec fn generated_code_with_tests(t: Seq<GroupView>, tests: Seq<GroupView>) -> Seq<char> {
    kind_modules(t, t.len() as int) + r_module(t) + r_tests_module(tests) + r_struct()
}

/// Generates the source text for all resources and the test resources.
pub fn generate_code_with_tests(resources: &ResourceTable, test_resources: &ResourceTable) -> (code:
    String)
    ensures
        code@ == generated_code_with_tests(resources@, test_resources@),
{
    let mut code = generate_kind_modules(resources);
    code.append(generate_r_module(resources).as_str());
    code.append(generate_r_tests_module(test_resources).as_str());
    code.append(generate_r_struct().as_str());
    code
}

} // verus!
