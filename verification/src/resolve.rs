//! Resolution of references inside interpolated strings.
//!
//! A reference is followed to the text it finally stands for: a plain
//! string ends the search, a pure reference or another interpolation
//! continues it. The resources entered on the way are remembered, and a
//! reference back to one of them is not followed again: it stays in the
//! text as a marker, so a cycle costs a constant its meaning but never the
//! compilation its end.
use vstd::prelude::*;
use crate::table::{lookup, GroupView, ResourceTable};
use crate::text::{str_eq, texts};
use crate::types::{parts_view, InterpolationPart, PartView, ResourceValue, ValueView};
use crate::utils::opt_text;

verus! {

/// The token under which a resource is remembered while it is being
/// resolved.
pub open spec fn visit_token(kind: Seq<char>, key: Seq<char>) -> Seq<char> {
    kind + ":"@ + key
}

/// The text that the resource of the given kind and key finally stands
/// for, if any. There is none where the resource is already being resolved
/// (`visited`), where it does not exist, where its value is no text, or
/// where `fuel` nested resources have been entered.
pub open spec fn resolved_text(
    t: Seq<GroupView>,
    kind: Seq<char>,
    key: Seq<char>,
    visited: Seq<Seq<char>>,
    fuel: nat,
) -> Option<Seq<char>>
    decreases fuel, 0nat, 0nat,
{
    if fuel == 0 || visited.contains(visit_token(kind, key)) {
        None
    } else {
        match lookup(t, kind, key) {
            Some(v) => value_text(t, v, visited.push(visit_token(kind, key)), (fuel - 1) as nat),
            None => None,
        }
    }
}

/// The text that a value stands for: a string is its own text, a reference
/// has the text of its target, an interpolation the text of its parts;
/// any other value has none.
pub open spec fn value_text(t: Seq<GroupView>, v: ValueView, visited: Seq<Seq<char>>, fuel: nat)
    -> Option<Seq<char>>
    decreases fuel, 2nat, 0nat,
{
    match v {
        ValueView::String(s) => Some(s),
        ValueView::Reference { resource_type, key } => resolved_text(
            t,
            resource_type,
            key,
            visited,
            fuel,
        ),
        ValueView::InterpolatedString(parts) => Some(parts_text(t, parts, visited, fuel)),
        _ => None,
    }
}

/// The text of one part: literal text as it is, a reference by the text of
/// its target, or by the marker `@key` where the target has none.
pub open spec fn part_text(t: Seq<GroupView>, part: PartView, visited: Seq<Seq<char>>, fuel: nat)
    -> Seq<char>
    decreases fuel, 1nat, 0nat,
{
    match part {
        PartView::Text(s) => s,
        PartView::Reference { resource_type, key } => match resolved_text(
            t,
            resource_type,
            key,
            visited,
            fuel,
        ) {
            Some(x) => x,
            None => "@"@ + key,
        },
    }
}

/// The text of an interpolation: the texts of its parts, one after
/// another.
pub open spec fn parts_text(
    t: Seq<GroupView>,
    parts: Seq<PartView>,
    visited: Seq<Seq<char>>,
    fuel: nat,
) -> Seq<char>
    decreases fuel, 1nat, parts.len() + 1,
{
    if parts.len() == 0 {
        Seq::empty()
    } else {
        parts_text(t, parts.drop_last(), visited, fuel) + part_text(t, parts.last(), visited, fuel)
    }
}

fn is_visited(visited: &Vec<String>, token: &str) -> (r: bool)
    ensures
        r == texts(visited@).contains(token@),
{
    let mut i: usize = 0;
    while i < visited.len()
        invariant
            i <= visited@.len(),
            forall|j: int| 0 <= j < i ==> texts(visited@)[j] != token@,
        decreases visited@.len() - i,
    {
        assert(texts(visited@)[i as int] == visited@[i as int]@);
        if str_eq(visited[i].as_str(), token) {
            return true;
        }
        i = i + 1;
    }
    false
}

fn resolve_bounded(
    resource_type: &str,
    key: &str,
    all_resources: &ResourceTable,
    visited: &mut Vec<String>,
    fuel: usize,
) -> (r: Option<String>)
    ensures
        texts(final(visited)@) == texts(old(visited)@),
        opt_text(r) == resolved_text(
            all_resources@,
            resource_type@,
            key@,
            texts(old(visited)@),
            fuel as nat,
        ),
    decreases fuel, 0nat,
{
    if fuel == 0 {
        return None;
    }
    let mut ref_key = resource_type.to_string();
    ref_key.append(":");
    ref_key.append(key);
    if is_visited(visited, ref_key.as_str()) {
        return None;
    }
    let ghost before = texts(visited@);
    let result = match all_resources.find(resource_type, key) {
        Some(value) => {
            visited.push(ref_key);
            assert(texts(visited@) =~= before.push(visit_token(resource_type@, key@)));
            let r = extract_bounded(value, all_resources, visited, fuel - 1);
            let ghost mid = visited@;
            visited.pop();
            assert(texts(visited@) =~= texts(mid).drop_last());
            assert(texts(mid).drop_last() =~= before);
            r
        },
        None => None,
    };
    result
}

fn extract_bounded(
    value: &ResourceValue,
    all_resources: &ResourceTable,
    visited: &mut Vec<String>,
    fuel: usize,
) -> (r: Option<String>)
    ensures
        texts(final(visited)@) == texts(old(visited)@),
        opt_text(r) == value_text(all_resources@, value@, texts(old(visited)@), fuel as nat),
    decreases fuel, 2nat,
{
    match value {
        ResourceValue::String(text) => Some(text.clone()),
        ResourceValue::Reference { resource_type, key } => resolve_bounded(
            resource_type.as_str(),
            key.as_str(),
            all_resources,
            visited,
            fuel,
        ),
        ResourceValue::InterpolatedString(parts) => parts_bounded(
            parts,
            all_resources,
            visited,
            fuel,
        ),
        _ => None,
    }
}

fn parts_bounded(
    parts: &Vec<InterpolationPart>,
    all_resources: &ResourceTable,
    visited: &mut Vec<String>,
    fuel: usize,
) -> (r: Option<String>)
    ensures
        texts(final(visited)@) == texts(old(visited)@),
        r.is_some(),
        r.unwrap()@ == parts_text(
            all_resources@,
            parts_view(parts@),
            texts(old(visited)@),
            fuel as nat,
        ),
    decreases fuel, 1nat,
{
    let mut result = String::new();
    let mut i: usize = 0;
    let ghost ps = parts_view(parts@);
    let ghost vis = texts(visited@);
    assert(ps.take(0) =~= Seq::<PartView>::empty());
    while i < parts.len()
        invariant
            i <= parts@.len(),
            ps == parts_view(parts@),
            texts(visited@) == vis,
            result@ == parts_text(all_resources@, ps.take(i as int), vis, fuel as nat),
        decreases parts@.len() - i,
    {
        proof {
            let next = ps.take(i + 1);
            assert(next.drop_last() =~= ps.take(i as int));
            assert(next.last() == parts@[i as int]@);
            assert(parts_text(all_resources@, next, vis, fuel as nat) == parts_text(
                all_resources@,
                next.drop_last(),
                vis,
                fuel as nat,
            ) + part_text(all_resources@, next.last(), vis, fuel as nat));
        }
        let ghost r0 = result@;
        match &parts[i] {
            InterpolationPart::Text(text) => {
                result.append(text.as_str());
            },
            InterpolationPart::Reference { resource_type, key } => {
                match resolve_bounded(
                    resource_type.as_str(),
                    key.as_str(),
                    all_resources,
                    visited,
                    fuel,
                ) {
                    Some(resolved) => {
                        result.append(resolved.as_str());
                    },
                    None => {
                        result.append("@");
                        result.append(key.as_str());
                        assert(result@ =~= r0 + ("@"@ + key@));
                    },
                }
            },
        }
        i = i + 1;
    }
    assert(ps.take(i as int) =~= ps);
    Some(result)
}

/// The number of resources in the first `i` groups.
pub open spec fn resource_count(t: Seq<GroupView>, i: int) -> nat
    decreases i,
{
    if i <= 0 || i > t.len() {
        0
    } else {
        resource_count(t, i - 1) + t[i - 1].items.len()
    }
}

/// How many nested resources a resolution may enter: one more than there
/// are resources, as far as the machine can count. That is enough for
/// every resolution (`lemma_fuel_suffices`): none ends for lack of fuel.
pub open spec fn resolution_fuel(t: Seq<GroupView>) -> nat {
    if resource_count(t, t.len() as int) < usize::MAX {
        resource_count(t, t.len() as int) + 1
    } else {
        usize::MAX as nat
    }
}

pub fn resolution_depth(table: &ResourceTable) -> (fuel: usize)
    ensures
        fuel == resolution_fuel(table@),
{
    let mut total: usize = 0;
    let mut i: usize = 0;
    while i < table.groups.len()
        invariant
            i <= table.groups@.len(),
            total as nat == if resource_count(table@, i as int) < usize::MAX {
                resource_count(table@, i as int)
            } else {
                usize::MAX as nat
            },
        decreases table.groups@.len() - i,
    {
        assert(table@[i as int].items.len() == table.groups@[i as int].items@.len());
        let n = table.groups[i].items.len();
        total = if n >= usize::MAX - total {
            usize::MAX
        } else {
            total + n
        };
        i = i + 1;
    }
    if total < usize::MAX {
        total + 1
    } else {
        usize::MAX
    }
}

/// The text that the resource of the given kind and key finally stands
/// for, if any, while the resources in `visited` are being resolved.
pub open spec fn resolved(t: Seq<GroupView>, kind: Seq<char>, key: Seq<char>, visited: Seq<Seq<char>>)
    -> Option<Seq<char>> {
    resolved_text(t, kind, key, visited, resolution_fuel(t))
}

/// The text that a value stands for, if any.
pub open spec fn value_resolved(t: Seq<GroupView>, v: ValueView, visited: Seq<Seq<char>>) -> Option<
    Seq<char>,
> {
    value_text(t, v, visited, resolution_fuel(t))
}

/// The text of an interpolation.
pub open spec fn parts_resolved(t: Seq<GroupView>, parts: Seq<PartView>, visited: Seq<Seq<char>>)
    -> Seq<char> {
    parts_text(t, parts, visited, resolution_fuel(t))
}

/// Resolves the resource of the given kind and key to its text. It has
/// none where it is among `visited`, does not exist, or is no text.
pub fn resolve_string_value(
    resource_type: &str,
    key: &str,
    all_resources: &ResourceTable,
    visited: &mut Vec<String>,
) -> (r: Option<String>)
    ensures
        texts(final(visited)@) == texts(old(visited)@),
        opt_text(r) == resolved(all_resources@, resource_type@, key@, texts(old(visited)@)),
{
    resolve_bounded(resource_type, key, all_resources, visited, resolution_depth(all_resources))
}

/// The text that a value stands for, resolving what it refers to.
pub fn extract_string_from_value(
    value: &ResourceValue,
    all_resources: &ResourceTable,
    visited: &mut Vec<String>,
) -> (r: Option<String>)
    ensures
        texts(final(visited)@) == texts(old(visited)@),
        opt_text(r) == value_resolved(all_resources@, value@, texts(old(visited)@)),
{
    extract_bounded(value, all_resources, visited, resolution_depth(all_resources))
}

/// The text of an interpolation. It always has one: a part that cannot be
/// resolved stays in the text as the marker `@key`.
pub fn resolve_interpolation_parts(
    parts: &Vec<InterpolationPart>,
    all_resources: &ResourceTable,
    visited: &mut Vec<String>,
) -> (r: Option<String>)
    ensures
        texts(final(visited)@) == texts(old(visited)@),
        r.is_some(),
        r.unwrap()@ == parts_resolved(all_resources@, parts_view(parts@), texts(old(visited)@)),
{
    parts_bounded(parts, all_resources, visited, resolution_depth(all_resources))
}

/// A reference to a resource that is already being resolved renders as
/// the marker `@key`: a cycle ends at the point where it closes.
pub proof fn lemma_cycle_renders_marker(
    t: Seq<GroupView>,
    kind: Seq<char>,
    key: Seq<char>,
    visited: Seq<Seq<char>>,
    fuel: nat,
)
    requires
        visited.contains(visit_token(kind, key)),
    ensures
        resolved_text(t, kind, key, visited, fuel).is_none(),
        part_text(t, PartView::Reference { resource_type: kind, key }, visited, fuel) == "@"@ + key,
{
}

/// Two interpolations that refer to each other and to nothing else: each
/// resolves, and in each the other's reference back renders as a marker.
pub proof fn lemma_mutual_cycle_resolves(
    t: Seq<GroupView>,
    kind_a: Seq<char>,
    key_a: Seq<char>,
    kind_b: Seq<char>,
    key_b: Seq<char>,
    fuel: nat,
)
    requires
        fuel >= 2,
        visit_token(kind_a, key_a) != visit_token(kind_b, key_b),
        lookup(t, kind_a, key_a) == Some(
            ValueView::InterpolatedString(
                seq![PartView::Reference { resource_type: kind_b, key: key_b }],
            ),
        ),
        lookup(t, kind_b, key_b) == Some(
            ValueView::InterpolatedString(
                seq![PartView::Reference { resource_type: kind_a, key: key_a }],
            ),
        ),
    ensures
        resolved_text(t, kind_a, key_a, Seq::empty(), fuel) == Some("@"@ + key_a),
{
    let ta = visit_token(kind_a, key_a);
    let tb = visit_token(kind_b, key_b);
    let pa = seq![PartView::Reference { resource_type: kind_b, key: key_b }];
    let pb = seq![PartView::Reference { resource_type: kind_a, key: key_a }];
    let v1 = Seq::<Seq<char>>::empty().push(ta);
    let v2 = v1.push(tb);
    assert(v1[0] == ta);
    assert(v2[0] == ta);
    assert(v2[1] == tb);
    assert(!v1.contains(tb));
    let f1 = (fuel - 1) as nat;
    let f2 = (fuel - 2) as nat;
    lemma_cycle_renders_marker(t, kind_a, key_a, v2, f2);
    assert(pb.drop_last() =~= Seq::<PartView>::empty());
    assert(pa.drop_last() =~= Seq::<PartView>::empty());
    assert(parts_text(t, pb.drop_last(), v2, f2) =~= Seq::<char>::empty());
    assert(pb.last() == PartView::Reference { resource_type: kind_a, key: key_a });
    assert(parts_text(t, pb, v2, f2) == parts_text(t, pb.drop_last(), v2, f2) + part_text(
        t,
        pb.last(),
        v2,
        f2,
    ));
    assert(parts_text(t, pb, v2, f2) =~= "@"@ + key_a);
    assert(value_text(t, ValueView::InterpolatedString(pb), v2, f2) == Some("@"@ + key_a));
    assert(resolved_text(t, kind_b, key_b, v1, f1) == Some("@"@ + key_a));
    assert(parts_text(t, pa.drop_last(), v1, f1) =~= Seq::<char>::empty());
    assert(pa.last() == PartView::Reference { resource_type: kind_b, key: key_b });
    assert(part_text(t, pa.last(), v1, f1) == "@"@ + key_a);
    assert(parts_text(t, pa, v1, f1) == parts_text(t, pa.drop_last(), v1, f1) + part_text(
        t,
        pa.last(),
        v1,
        f1,
    ));
    assert(parts_text(t, pa, v1, f1) =~= "@"@ + key_a);
}

/// A chain of resources, each a pure reference to the next and the last a
/// plain string: `kinds[i]` and `keys[i]` name the resource at position
/// `i`.
pub open spec fn is_reference_chain(
    t: Seq<GroupView>,
    kinds: Seq<Seq<char>>,
    keys: Seq<Seq<char>>,
    text: Seq<char>,
) -> bool {
    &&& kinds.len() == keys.len()
    &&& kinds.len() > 0
    &&& forall|i: int|
        0 <= i < kinds.len() - 1 ==> #[trigger] lookup(t, kinds[i], keys[i]) == Some(
            ValueView::Reference { resource_type: kinds[i + 1], key: keys[i + 1] },
        )
    &&& lookup(t, kinds.last(), keys.last()) == Some(ValueView::String(text))
}

/// Whether no resource of the chain from position `from` on is among
/// `visited` or occurs twice.
pub open spec fn chain_is_fresh(
    kinds: Seq<Seq<char>>,
    keys: Seq<Seq<char>>,
    visited: Seq<Seq<char>>,
    from: int,
) -> bool {
    &&& forall|i: int|
        from <= i < kinds.len() ==> !visited.contains(#[trigger] visit_token(kinds[i], keys[i]))
    &&& forall|i: int, j: int|
        from <= i < j < kinds.len() ==> visit_token(kinds[i], keys[i]) != visit_token(
            kinds[j],
            keys[j],
        )
}

/// An alias resolves to what its target resolves to, through any number of
/// hops: every resource of a chain of pure references without a cycle
/// resolves to the text of the string at its end.
pub proof fn lemma_reference_chain_resolves(
    t: Seq<GroupView>,
    kinds: Seq<Seq<char>>,
    keys: Seq<Seq<char>>,
    text: Seq<char>,
    visited: Seq<Seq<char>>,
    from: int,
    fuel: nat,
)
    requires
        is_reference_chain(t, kinds, keys, text),
        0 <= from < kinds.len(),
        chain_is_fresh(kinds, keys, visited, from),
        fuel >= kinds.len() - from,
    ensures
        resolved_text(t, kinds[from], keys[from], visited, fuel) == Some(text),
    decreases kinds.len() - from,
{
    let token = visit_token(kinds[from], keys[from]);
    assert(!visited.contains(token));
    if from == kinds.len() - 1 {
        assert(lookup(t, kinds[from], keys[from]) == Some(ValueView::String(text)));
    } else {
        let next = visited.push(token);
        assert forall|i: int| from + 1 <= i < kinds.len() implies !next.contains(
            #[trigger] visit_token(kinds[i], keys[i]),
        ) by {
            let x = visit_token(kinds[i], keys[i]);
            assert(!visited.contains(x));
            assert(x != token);
            if next.contains(x) {
                let k = choose|k: int| 0 <= k < next.len() && next[k] == x;
                if k < visited.len() {
                    assert(visited[k] == x);
                }
            }
        }
        lemma_reference_chain_resolves(t, kinds, keys, text, next, from + 1, (fuel - 1) as nat);
        assert(lookup(t, kinds[from], keys[from]) == Some(
            ValueView::Reference { resource_type: kinds[from + 1], key: keys[from + 1] },
        ));
    }
}

/// The tokens of the first `j` resources of a group.
pub open spec fn item_tokens(kind: Seq<char>, items: Seq<(Seq<char>, ValueView)>, j: int) -> Seq<
    Seq<char>,
>
    decreases j,
{
    if j <= 0 || j > items.len() {
        Seq::empty()
    } else {
        item_tokens(kind, items, j - 1).push(visit_token(kind, items[j - 1].0))
    }
}

/// The tokens of the resources of the first `i` groups.
pub open spec fn group_tokens(t: Seq<GroupView>, i: int) -> Seq<Seq<char>>
    decreases i,
{
    if i <= 0 || i > t.len() {
        Seq::empty()
    } else {
        group_tokens(t, i - 1) + item_tokens(t[i - 1].kind, t[i - 1].items, t[i - 1].items.len() as int)
    }
}

/// The tokens of all resources of the table, one for each.
pub open spec fn table_tokens(t: Seq<GroupView>) -> Seq<Seq<char>> {
    group_tokens(t, t.len() as int)
}

/// The positions of the resources that are not being resolved.
pub open spec fn unvisited(t: Seq<GroupView>, visited: Seq<Seq<char>>) -> Set<int> {
    Set::new(|i: int| 0 <= i < table_tokens(t).len() && !visited.contains(table_tokens(t)[i]))
}

proof fn lemma_item_tokens_len(kind: Seq<char>, items: Seq<(Seq<char>, ValueView)>, upto: int)
    requires
        0 <= upto <= items.len(),
    ensures
        item_tokens(kind, items, upto).len() == upto,
    decreases upto,
{
    if upto > 0 {
        lemma_item_tokens_len(kind, items, upto - 1);
    }
}

proof fn lemma_item_tokens(kind: Seq<char>, items: Seq<(Seq<char>, ValueView)>, j: int, upto: int)
    requires
        0 <= j < upto <= items.len(),
    ensures
        item_tokens(kind, items, upto).len() == upto,
        item_tokens(kind, items, upto)[j] == visit_token(kind, items[j].0),
    decreases upto,
{
    lemma_item_tokens_len(kind, items, upto);
    lemma_item_tokens_len(kind, items, upto - 1);
    if j < upto - 1 {
        lemma_item_tokens(kind, items, j, upto - 1);
    }
}

proof fn lemma_group_tokens_len(t: Seq<GroupView>, i: int)
    requires
        0 <= i <= t.len(),
    ensures
        group_tokens(t, i).len() == resource_count(t, i),
    decreases i,
{
    if i > 0 {
        lemma_group_tokens_len(t, i - 1);
        lemma_item_tokens_len(t[i - 1].kind, t[i - 1].items, t[i - 1].items.len() as int);
    }
}

proof fn lemma_group_tokens_hold(t: Seq<GroupView>, i: int, j: int, upto: int)
    requires
        0 <= i < upto <= t.len(),
        0 <= j < t[i].items.len(),
    ensures
        group_tokens(t, upto).contains(visit_token(t[i].kind, t[i].items[j].0)),
    decreases upto,
{
    let head = group_tokens(t, upto - 1);
    let tail = item_tokens(t[upto - 1].kind, t[upto - 1].items, t[upto - 1].items.len() as int);
    let token = visit_token(t[i].kind, t[i].items[j].0);
    if i == upto - 1 {
        lemma_item_tokens(t[i].kind, t[i].items, j, t[i].items.len() as int);
        assert((head + tail)[head.len() + j] == token);
    } else {
        lemma_group_tokens_hold(t, i, j, upto - 1);
        let k = choose|k: int| 0 <= k < head.len() && head[k] == token;
        assert((head + tail)[k] == token);
    }
}

proof fn lemma_group_index(t: Seq<GroupView>, kind: Seq<char>, from: int)
    requires
        0 <= from,
    ensures
        match crate::table::group_index_from(t, kind, from) {
            Some(i) => from <= i < t.len() && t[i].kind == kind,
            None => true,
        },
    decreases t.len() - from,
{
    if from < t.len() && t[from].kind != kind {
        lemma_group_index(t, kind, from + 1);
    }
}

proof fn lemma_item_index(items: Seq<(Seq<char>, ValueView)>, key: Seq<char>, from: int)
    requires
        0 <= from,
    ensures
        match crate::table::item_index_from(items, key, from) {
            Some(j) => from <= j < items.len() && items[j].0 == key,
            None => true,
        },
    decreases items.len() - from,
{
    if from < items.len() && items[from].0 != key {
        lemma_item_index(items, key, from + 1);
    }
}

/// A resource that the table holds has its token among the table's
/// tokens.
proof fn lemma_found_has_token(t: Seq<GroupView>, kind: Seq<char>, key: Seq<char>)
    requires
        lookup(t, kind, key).is_some(),
    ensures
        table_tokens(t).contains(visit_token(kind, key)),
{
    lemma_group_index(t, kind, 0);
    let i = crate::table::group_index(t, kind).unwrap();
    lemma_item_index(t[i].items, key, 0);
    let j = crate::table::item_index_from(t[i].items, key, 0).unwrap();
    lemma_group_tokens_hold(t, i, j, t.len() as int);
}

proof fn lemma_unvisited_bound(t: Seq<GroupView>, visited: Seq<Seq<char>>)
    ensures
        unvisited(t, visited).finite(),
        unvisited(t, visited).len() <= resource_count(t, t.len() as int),
{
    let n = table_tokens(t).len() as int;
    lemma_group_tokens_len(t, t.len() as int);
    vstd::set_lib::lemma_int_range(0, n);
    assert(unvisited(t, visited).subset_of(vstd::set_lib::set_int_range(0, n)));
    vstd::set_lib::lemma_len_subset(unvisited(t, visited), vstd::set_lib::set_int_range(0, n));
}

proof fn lemma_unvisited_shrinks(t: Seq<GroupView>, visited: Seq<Seq<char>>, token: Seq<char>)
    requires
        table_tokens(t).contains(token),
        !visited.contains(token),
    ensures
        unvisited(t, visited.push(token)).len() < unvisited(t, visited).len(),
{
    let tokens = table_tokens(t);
    let before = unvisited(t, visited);
    let after = unvisited(t, visited.push(token));
    let i0 = choose|i: int| 0 <= i < tokens.len() && tokens[i] == token;
    lemma_unvisited_bound(t, visited);
    assert(before.contains(i0));
    assert(visited.push(token)[visited.len() as int] == token);
    assert(!after.contains(i0));
    assert forall|i: int| after.contains(i) implies before.remove(i0).contains(i) by {
        if visited.contains(tokens[i]) {
            let k = choose|k: int| 0 <= k < visited.len() && visited[k] == tokens[i];
            assert(visited.push(token)[k] == tokens[i]);
        }
    }
    assert(after.subset_of(before.remove(i0)));
    vstd::set::axiom_set_remove_len(before, i0);
    vstd::set_lib::lemma_len_subset(after, before.remove(i0));
}

/// Fuel beyond the number of resources that are not being resolved changes
/// nothing: with that much, resolution ends by what it finds, never by
/// running out.
pub proof fn lemma_fuel_beyond_need(
    t: Seq<GroupView>,
    kind: Seq<char>,
    key: Seq<char>,
    visited: Seq<Seq<char>>,
    f1: nat,
    f2: nat,
)
    requires
        f1 > unvisited(t, visited).len(),
        f2 > unvisited(t, visited).len(),
    ensures
        resolved_text(t, kind, key, visited, f1) == resolved_text(t, kind, key, visited, f2),
    decreases f1, 0nat, 0nat,
{
    let token = visit_token(kind, key);
    if !visited.contains(token) {
        match lookup(t, kind, key) {
            Some(v) => {
                lemma_found_has_token(t, kind, key);
                lemma_unvisited_shrinks(t, visited, token);
                lemma_value_fuel_beyond_need(
                    t,
                    v,
                    visited.push(token),
                    (f1 - 1) as nat,
                    (f2 - 1) as nat,
                );
            },
            None => {},
        }
    }
}

proof fn lemma_value_fuel_beyond_need(
    t: Seq<GroupView>,
    v: ValueView,
    visited: Seq<Seq<char>>,
    f1: nat,
    f2: nat,
)
    requires
        f1 > unvisited(t, visited).len(),
        f2 > unvisited(t, visited).len(),
    ensures
        value_text(t, v, visited, f1) == value_text(t, v, visited, f2),
    decreases f1, 2nat, 0nat,
{
    match v {
        ValueView::Reference { resource_type, key } => {
            lemma_fuel_beyond_need(t, resource_type, key, visited, f1, f2);
        },
        ValueView::InterpolatedString(parts) => {
            lemma_parts_fuel_beyond_need(t, parts, visited, f1, f2);
        },
        _ => {},
    }
}

/// The text of an interpolation does not depend on fuel beyond the number
/// of resources that are not being resolved.
pub proof fn lemma_parts_fuel_beyond_need(
    t: Seq<GroupView>,
    parts: Seq<PartView>,
    visited: Seq<Seq<char>>,
    f1: nat,
    f2: nat,
)
    requires
        f1 > unvisited(t, visited).len(),
        f2 > unvisited(t, visited).len(),
    ensures
        parts_text(t, parts, visited, f1) == parts_text(t, parts, visited, f2),
    decreases f1, 1nat, parts.len() + 1,
{
    if parts.len() > 0 {
        lemma_parts_fuel_beyond_need(t, parts.drop_last(), visited, f1, f2);
        match parts.last() {
            PartView::Reference { resource_type, key } => {
                lemma_fuel_beyond_need(t, resource_type, key, visited, f1, f2);
            },
            PartView::Text(_) => {},
        }
        assert(part_text(t, parts.last(), visited, f1) == part_text(t, parts.last(), visited, f2));
        assert(parts_text(t, parts, visited, f1) == parts_text(t, parts.drop_last(), visited, f1)
            + part_text(t, parts.last(), visited, f1));
        assert(parts_text(t, parts, visited, f2) == parts_text(t, parts.drop_last(), visited, f2)
            + part_text(t, parts.last(), visited, f2));
    }
}

/// What a resource resolves to is what any greater amount of fuel gives:
/// the fuel that the resolver takes for itself never decides.
pub proof fn lemma_resolved_by_any_fuel(
    t: Seq<GroupView>,
    kind: Seq<char>,
    key: Seq<char>,
    visited: Seq<Seq<char>>,
    fuel: nat,
)
    requires
        resource_count(t, t.len() as int) < usize::MAX,
        fuel > resource_count(t, t.len() as int),
    ensures
        resolved(t, kind, key, visited) == resolved_text(t, kind, key, visited, fuel),
{
    lemma_unvisited_bound(t, visited);
    lemma_fuel_beyond_need(t, kind, key, visited, resolution_fuel(t), fuel);
}

/// One unit of fuel more than the table has resources is enough for every
/// resolution that starts afresh: more fuel gives the same text. So what
/// ends a resolution is the text it reaches, a missing target or a cycle,
/// and never the fuel.
pub proof fn lemma_fuel_suffices(t: Seq<GroupView>, parts: Seq<PartView>, fuel: nat)
    requires
        fuel > resource_count(t, t.len() as int),
    ensures
        parts_text(t, parts, Seq::empty(), fuel) == parts_text(
            t,
            parts,
            Seq::empty(),
            resource_count(t, t.len() as int) + 1,
        ),
{
    lemma_unvisited_bound(t, Seq::empty());
    lemma_parts_fuel_beyond_need(
        t,
        parts,
        Seq::empty(),
        fuel,
        resource_count(t, t.len() as int) + 1,
    );
}

} // verus!
