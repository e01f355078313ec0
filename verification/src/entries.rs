//! The resources of a table as a flat list of entries, each with the
//! namespace path and leaf name that its qualified name splits into.
use vstd::prelude::*;
use crate::table::{GroupView, ResourceGroup, ResourceTable};
use crate::text::{chars_of, string_of_range, texts};
use crate::types::{ResourceValue, ValueView};
use crate::utils::{sanitize_identifier, sanitized};

verus! {

/// Zero or one path segment: an empty stretch is no segment.
pub open spec fn piece(cur: Seq<char>) -> Seq<Seq<char>> {
    if cur.len() > 0 {
        seq![cur]
    } else {
        Seq::empty()
    }
}

/// The segments of `s[i..]`, given that `cur` is the part of the current
/// segment already read.
pub open spec fn segments_from(s: Seq<char>, i: int, cur: Seq<char>) -> Seq<Seq<char>>
    decreases s.len() - i,
{
    if i < 0 || i >= s.len() {
        piece(cur)
    } else if s[i] == '/' {
        piece(cur) + segments_from(s, i + 1, Seq::empty())
    } else {
        segments_from(s, i + 1, cur.push(s[i]))
    }
}

/// The segments of a qualified name: the stretches between `/`, empty ones
/// left out.
pub open spec fn segments(s: Seq<char>) -> Seq<Seq<char>> {
    segments_from(s, 0, Seq::empty())
}

/// Splits a qualified name at each `/`, leaving out empty segments.
pub fn split_segments(path: &str) -> (r: Vec<String>)
    ensures
        texts(r@) == segments(path@),
{
    let v = chars_of(path);
    let mut out: Vec<String> = Vec::new();
    let mut start: usize = 0;
    let mut i: usize = 0;
    proof {
        assert(v@.subrange(0, 0) =~= Seq::<char>::empty());
        assert(texts(out@) + segments(path@) =~= segments(path@));
    }
    while i < v.len()
        invariant
            v@ == path@,
            start <= i <= v@.len(),
            texts(out@) + segments_from(path@, i as int, v@.subrange(start as int, i as int))
                == segments(path@),
        decreases v@.len() - i,
    {
        let ghost cur = v@.subrange(start as int, i as int);
        let ghost done = texts(out@);
        if v[i] == '/' {
            if i > start {
                let seg = string_of_range(&v, start, i);
                out.push(seg);
                assert(texts(out@) =~= done + piece(cur));
            } else {
                assert(texts(out@) =~= done + piece(cur));
            }
            proof {
                assert(v@.subrange(i + 1, i + 1) =~= Seq::<char>::empty());
                let rest = segments_from(path@, i + 1, Seq::empty());
                assert(done + (piece(cur) + rest) =~= (done + piece(cur)) + rest);
            }
            start = i + 1;
        } else {
            proof {
                assert(v@.subrange(start as int, i + 1) =~= cur.push(v@[i as int]));
            }
        }
        i = i + 1;
    }
    let ghost done = texts(out@);
    let ghost cur = v@.subrange(start as int, i as int);
    if start < i {
        let seg = string_of_range(&v, start, i);
        out.push(seg);
        assert(texts(out@) =~= done + piece(cur));
    } else {
        assert(texts(out@) =~= done + piece(cur));
    }
    out
}

/// The namespace path of a qualified name: all segments but the last,
/// sanitised.
pub open spec fn namespace_of(path: Seq<char>) -> Seq<Seq<char>> {
    let segs = segments(path);
    if segs.len() <= 1 {
        Seq::empty()
    } else {
        Seq::new((segs.len() - 1) as nat, |i: int| sanitized(segs[i]))
    }
}

/// The leaf name of a qualified name: the last segment, sanitised; empty
/// where the name has no segment.
pub open spec fn leaf_of(path: Seq<char>) -> Seq<char> {
    let segs = segments(path);
    if segs.len() == 0 {
        Seq::empty()
    } else {
        sanitized(segs.last())
    }
}

/// Splits a qualified name into its namespace path and leaf name.
pub fn split_path_to_namespace(path: &str) -> (r: (Vec<String>, String))
    ensures
        texts(r.0@) == namespace_of(path@),
        r.1@ == leaf_of(path@),
{
    let parts = split_segments(path);
    let n = parts.len();
    if n == 0 {
        let ns: Vec<String> = Vec::new();
        assert(texts(ns@) =~= namespace_of(path@));
        return (ns, String::new());
    }
    assert(texts(parts@)[n - 1] == parts@[n - 1]@);
    let leaf = sanitize_identifier(parts[n - 1].as_str());
    let mut ns: Vec<String> = Vec::new();
    let mut i: usize = 0;
    while i < n - 1
        invariant
            n == parts@.len(),
            n > 0,
            i <= n - 1,
            ns@.len() == i,
            forall|j: int| 0 <= j < i ==> ns@[j]@ == sanitized(parts@[j]@),
        decreases n - 1 - i,
    {
        ns.push(sanitize_identifier(parts[i].as_str()));
        i = i + 1;
    }
    proof {
        assert forall|j: int| 0 <= j < n - 1 implies texts(ns@)[j] == namespace_of(path@)[j] by {
            assert(texts(parts@)[j] == parts@[j]@);
        }
        assert(texts(ns@) =~= namespace_of(path@));
    }
    (ns, leaf)
}

/// The module path of a namespace: each segment followed by `::`.
pub open spec fn namespace_prefix(ns: Seq<Seq<char>>) -> Seq<char>
    decreases ns.len(),
{
    if ns.len() == 0 {
        Seq::empty()
    } else {
        namespace_prefix(ns.drop_last()) + ns.last() + "::"@
    }
}

/// Appends the module path of a namespace.
pub fn push_namespace_prefix(out: &mut String, ns: &Vec<String>)
    ensures
        final(out)@ == old(out)@ + namespace_prefix(texts(ns@)),
{
    let ghost head = out@;
    let ghost segs = texts(ns@);
    let mut i: usize = 0;
    assert(segs.take(0) =~= Seq::<Seq<char>>::empty());
    assert(out@ =~= head + namespace_prefix(segs.take(0)));
    while i < ns.len()
        invariant
            i <= ns@.len(),
            segs == texts(ns@),
            out@ == head + namespace_prefix(segs.take(i as int)),
        decreases ns@.len() - i,
    {
        proof {
            let next = segs.take(i + 1);
            assert(next.drop_last() =~= segs.take(i as int));
            assert(next.last() == ns@[i as int]@);
        }
        out.append(ns[i].as_str());
        out.append("::");
        i = i + 1;
        assert(out@ =~= head + namespace_prefix(segs.take(i as int)));
    }
    assert(segs.take(i as int) =~= segs);
}

/// One resource, ready for emission.
#[derive(Debug, Clone)]
pub struct ResourceEntry {
    /// The kind under which the resource is filed.
    pub resource_type: String,
    /// The sanitised names of the enclosing namespaces, outermost first.
    pub namespace_path: Vec<String>,
    /// The sanitised last segment of the resource's name.
    pub leaf_name: String,
    pub value: ResourceValue,
}

/// The mathematical value of a `ResourceEntry`.
pub struct EntryView {
    pub resource_type: Seq<char>,
    pub namespace_path: Seq<Seq<char>>,
    pub leaf_name: Seq<char>,
    pub value: ValueView,
}

impl View for ResourceEntry {
    type V = EntryView;

    open spec fn view(&self) -> EntryView {
        EntryView {
            resource_type: self.resource_type@,
            namespace_path: texts(self.namespace_path@),
            leaf_name: self.leaf_name@,
            value: self.value@,
        }
    }
}

/// The views of a list of entries.
pub open spec fn entries_view(es: Seq<ResourceEntry>) -> Seq<EntryView> {
    Seq::new(es.len(), |i: int| es[i]@)
}

/// The entry for a resource; a resource whose name has no segment has
/// none.
pub open spec fn entry_for(kind: Seq<char>, name: Seq<char>, value: ValueView) -> Seq<EntryView> {
    if leaf_of(name).len() == 0 {
        Seq::empty()
    } else {
        seq![
            EntryView {
                resource_type: kind,
                namespace_path: namespace_of(name),
                leaf_name: leaf_of(name),
                value,
            },
        ]
    }
}

/// The entries of the first `j` resources of a group.
pub open spec fn item_entries(kind: Seq<char>, items: Seq<(Seq<char>, ValueView)>, j: int) -> Seq<
    EntryView,
>
    decreases j,
{
    if j <= 0 || j > items.len() {
        Seq::empty()
    } else {
        item_entries(kind, items, j - 1) + entry_for(kind, items[j - 1].0, items[j - 1].1)
    }
}

/// The entries of the first `i` groups.
pub open spec fn group_entries(t: Seq<GroupView>, i: int) -> Seq<EntryView>
    decreases i,
{
    if i <= 0 || i > t.len() {
        Seq::empty()
    } else {
        group_entries(t, i - 1) + item_entries(t[i - 1].kind, t[i - 1].items, t[i - 1].items.len() as int)
    }
}

/// The entries of a table: one for each resource with a usable name, in
/// table order.
pub open spec fn entries_of(t: Seq<GroupView>) -> Seq<EntryView> {
    group_entries(t, t.len() as int)
}

/// Appends the entries of one group.
pub fn push_group_entries(entries: &mut Vec<ResourceEntry>, group: &ResourceGroup)
    ensures
        entries_view(final(entries)@) == entries_view(old(entries)@) + item_entries(
            group@.kind,
            group@.items,
            group@.items.len() as int,
        ),
{
    let ghost start = entries_view(entries@);
    let mut j: usize = 0;
    assert(start + item_entries(group@.kind, group@.items, 0) =~= start);
    while j < group.items.len()
        invariant
            j <= group.items@.len(),
            entries_view(entries@) == start + item_entries(group@.kind, group@.items, j as int),
        decreases group.items@.len() - j,
    {
        let ghost before = entries_view(entries@);
        let item = &group.items[j];
        assert(group@.items[j as int] == (item.0@, item.1@));
        let (namespace_path, leaf_name) = split_path_to_namespace(item.0.as_str());
        if leaf_name.as_str().unicode_len() > 0 {
            let entry = ResourceEntry {
                resource_type: group.kind.clone(),
                namespace_path,
                leaf_name,
                value: clone_value(&item.1),
            };
            entries.push(entry);
            assert(entries_view(entries@) =~= before + entry_for(group@.kind, item.0@, item.1@));
        } else {
            assert(entries_view(entries@) =~= before + entry_for(group@.kind, item.0@, item.1@));
        }
        j = j + 1;
        assert(entries_view(entries@) =~= start + item_entries(
            group@.kind,
            group@.items,
            j as int,
        ));
    }
}

/// Lists the resources of a table as entries.
pub fn collect_entries(resources: &ResourceTable) -> (entries: Vec<ResourceEntry>)
    ensures
        entries_view(entries@) == entries_of(resources@),
{
    let mut entries: Vec<ResourceEntry> = Vec::new();
    let mut i: usize = 0;
    assert(entries_view(entries@) =~= group_entries(resources@, 0));
    while i < resources.groups.len()
        invariant
            i <= resources.groups@.len(),
            entries_view(entries@) == group_entries(resources@, i as int),
        decreases resources.groups@.len() - i,
    {
        assert(resources@[i as int] == resources.groups@[i as int]@);
        push_group_entries(&mut entries, &resources.groups[i]);
        i = i + 1;
    }
    entries
}

/// A copy of a value.
pub fn clone_value(v: &ResourceValue) -> (r: ResourceValue)
    ensures
        r@ == v@,
{
    match v {
        ResourceValue::String(s) => ResourceValue::String(s.clone()),
        ResourceValue::Number(n) => ResourceValue::Number(
            match n {
                crate::types::NumberValue::Int(i) => crate::types::NumberValue::Int(*i),
                crate::types::NumberValue::Float(s) => crate::types::NumberValue::Float(s.clone()),
                crate::types::NumberValue::BigDecimal(s) => crate::types::NumberValue::BigDecimal(
                    s.clone(),
                ),
                crate::types::NumberValue::Typed { literal, ty } => crate::types::NumberValue::Typed {
                    literal: literal.clone(),
                    ty: *ty,
                },
            },
        ),
        ResourceValue::Bool(b) => ResourceValue::Bool(*b),
        ResourceValue::Color(s) => ResourceValue::Color(s.clone()),
        ResourceValue::Url(s) => ResourceValue::Url(s.clone()),
        ResourceValue::Dimension(s) => ResourceValue::Dimension(s.clone()),
        ResourceValue::Array { element_type, spec, items } => ResourceValue::Array {
            element_type: element_type.clone(),
            spec: crate::ast::clone_opt(spec),
            items: crate::ast::clone_strings(items),
        },
        ResourceValue::Reference { resource_type, key } => ResourceValue::Reference {
            resource_type: resource_type.clone(),
            key: key.clone(),
        },
        ResourceValue::InterpolatedString(parts) => {
            let mut out: Vec<crate::types::InterpolationPart> = Vec::new();
            let mut i: usize = 0;
            while i < parts.len()
                invariant
                    i <= parts@.len(),
                    out@.len() == i,
                    forall|j: int| 0 <= j < i ==> out@[j]@ == parts@[j]@,
                decreases parts@.len() - i,
            {
                let p = match &parts[i] {
                    crate::types::InterpolationPart::Text(t) => crate::types::InterpolationPart::Text(
                        t.clone(),
                    ),
                    crate::types::InterpolationPart::Reference {
                        resource_type,
                        key,
                    } => crate::types::InterpolationPart::Reference {
                        resource_type: resource_type.clone(),
                        key: key.clone(),
                    },
                };
                out.push(p);
                i = i + 1;
            }
            assert(crate::types::parts_view(out@) =~= crate::types::parts_view(parts@));
            ResourceValue::InterpolatedString(out)
        },
        ResourceValue::Template(t) => {
            let mut out: Vec<crate::types::TemplateParameter> = Vec::new();
            let mut i: usize = 0;
            while i < t.parameters.len()
                invariant
                    i <= t.parameters@.len(),
                    out@.len() == i,
                    forall|j: int| 0 <= j < i ==> out@[j]@ == t.parameters@[j]@,
                decreases t.parameters@.len() - i,
            {
                out.push(
                    crate::types::TemplateParameter {
                        name: t.parameters[i].name.clone(),
                        param_type: t.parameters[i].param_type,
                    },
                );
                i = i + 1;
            }
            assert(crate::types::parameters_view(out@) =~= crate::types::parameters_view(
                t.parameters@,
            ));
            ResourceValue::Template(
                crate::types::Template { template: t.template.clone(), parameters: out },
            )
        },
    }
}

/// Whether a resource has an entry: its name has a last segment.
pub open spec fn has_entry(name: Seq<char>) -> bool {
    leaf_of(name).len() > 0
}

/// The entry of a resource that has one.
pub open spec fn entry_of(kind: Seq<char>, name: Seq<char>, value: ValueView) -> EntryView {
    EntryView {
        resource_type: kind,
        namespace_path: namespace_of(name),
        leaf_name: leaf_of(name),
        value,
    }
}

/// Every resource of a group that has an entry is among the entries of the
/// group.
pub proof fn lemma_item_entries_hold(
    kind: Seq<char>,
    items: Seq<(Seq<char>, ValueView)>,
    j: int,
    upto: int,
)
    requires
        0 <= j < upto <= items.len(),
        has_entry(items[j].0),
    ensures
        item_entries(kind, items, upto).contains(entry_of(kind, items[j].0, items[j].1)),
    decreases upto,
{
    let e = entry_of(kind, items[j].0, items[j].1);
    let head = item_entries(kind, items, upto - 1);
    let tail = entry_for(kind, items[upto - 1].0, items[upto - 1].1);
    if j == upto - 1 {
        assert(tail[0] == e);
        assert((head + tail)[head.len() as int] == e);
    } else {
        lemma_item_entries_hold(kind, items, j, upto - 1);
        let k = choose|k: int| 0 <= k < head.len() && head[k] == e;
        assert((head + tail)[k] == e);
    }
}

/// Every resource of the table that has an entry is among the entries of
/// the table.
pub proof fn lemma_entries_hold(t: Seq<GroupView>, i: int, j: int, upto: int)
    requires
        0 <= i < upto <= t.len(),
        0 <= j < t[i].items.len(),
        has_entry(t[i].items[j].0),
    ensures
        group_entries(t, upto).contains(entry_of(t[i].kind, t[i].items[j].0, t[i].items[j].1)),
    decreases upto,
{
    let e = entry_of(t[i].kind, t[i].items[j].0, t[i].items[j].1);
    let head = group_entries(t, upto - 1);
    let tail = item_entries(t[upto - 1].kind, t[upto - 1].items, t[upto - 1].items.len() as int);
    if i == upto - 1 {
        lemma_item_entries_hold(t[i].kind, t[i].items, j, t[i].items.len() as int);
        let k = choose|k: int| 0 <= k < tail.len() && tail[k] == e;
        assert((head + tail)[head.len() + k] == e);
    } else {
        lemma_entries_hold(t, i, j, upto - 1);
        let k = choose|k: int| 0 <= k < head.len() && head[k] == e;
        assert((head + tail)[k] == e);
    }
}

} // verus!
