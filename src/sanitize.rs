//! Removing source-location keys from the dependency table.
use vstd::prelude::*;

use crate::document::{
    dependencies_key, dependencies_of, dependencies_table, document_text, has_dependency_table,
    has_key, read_table, remove_attribute, rest_of, tidy_entry, without_key, AttrView, DepView,
    Shape,
};
use crate::error::SanitizeError;
use crate::mode::{wants_check, Mode};

verus! {

/// Whether `k` is one of the source-location keys: `git`, `tag`, `branch`,
/// `rev`, `path`.
pub open spec fn is_source_key(k: Seq<char>) -> bool {
    source_keys().contains(k)
}

pub open spec fn source_keys() -> Seq<Seq<char>> {
    seq![
        seq!['g', 'i', 't'],
        seq!['t', 'a', 'g'],
        seq!['b', 'r', 'a', 'n', 'c', 'h'],
        seq!['r', 'e', 'v'],
        seq!['p', 'a', 't', 'h'],
    ]
}

/// The attributes without those whose key is in `keys`, the others kept in order.
pub open spec fn without_keys(attrs: Seq<AttrView>, keys: Seq<Seq<char>>) -> Seq<AttrView>
    decreases attrs.len(),
{
    if attrs.len() == 0 {
        attrs
    } else {
        let rest = without_keys(attrs.drop_last(), keys);
        if keys.contains(attrs.last().key) {
            rest
        } else {
            rest.push(attrs.last())
        }
    }
}

/// The attributes with every source-location key taken out.
pub open spec fn strip(attrs: Seq<AttrView>) -> Seq<AttrView> {
    without_keys(attrs, source_keys())
}

/// Whether some attribute has a source-location key.
pub open spec fn has_source_key(attrs: Seq<AttrView>) -> bool {
    exists|j: int| 0 <= j < attrs.len() && is_source_key(#[trigger] attrs[j].key)
}

/// Whether sanitizing the entry removes anything.
pub open spec fn removes(e: DepView) -> bool {
    e.kind == Shape::Inline && has_source_key(e.attrs)
}

/// Whether the entry is written in a form the walker refuses.
pub open spec fn unsupported(s: Shape) -> bool {
    s == Shape::Table || s == Shape::TableArray
}

/// The entry as sanitizing leaves it: the same name and form, with the
/// source-location keys gone.
pub open spec fn sanitized_entry(before: DepView, after: DepView) -> bool {
    after.name == before.name && after.kind == before.kind && after.attrs == strip(before.attrs)
}

proof fn lemma_without_key_step(attrs: Seq<AttrView>, keys: Seq<Seq<char>>, k: Seq<char>)
    ensures
        without_key(without_keys(attrs, keys), k) == without_keys(attrs, keys.push(k)),
        has_key(without_keys(attrs, keys), k) == (has_key(attrs, k) && !keys.contains(k)),
    decreases attrs.len(),
{
    if attrs.len() > 0 {
        let init = attrs.drop_last();
        let x = attrs.last();
        lemma_without_key_step(init, keys, k);
        assert(keys.push(k).contains(x.key) == (keys.contains(x.key) || x.key == k)) by {
            if x.key == k {
                assert(keys.push(k)[keys.len() as int] == k);
            }
            if keys.push(k).contains(x.key) {
                let w = choose|w: int| 0 <= w < keys.push(k).len() && keys.push(k)[w] == x.key;
                if w < keys.len() {
                    assert(keys[w] == x.key);
                }
            }
            if keys.contains(x.key) {
                let w = choose|w: int| 0 <= w < keys.len() && keys[w] == x.key;
                assert(keys.push(k)[w] == x.key);
            }
        }
        let rest = without_keys(init, keys);
        if has_key(attrs, k) {
            let j = choose|j: int| 0 <= j < attrs.len() && attrs[j].key == k;
            if j < init.len() {
                assert(init[j].key == k);
            }
        }
        if has_key(init, k) {
            let j = choose|j: int| 0 <= j < init.len() && init[j].key == k;
            assert(attrs[j].key == k);
        }
        if !keys.contains(x.key) {
            let full = rest.push(x);
            if has_key(full, k) {
                let j = choose|j: int| 0 <= j < full.len() && full[j].key == k;
                if j < rest.len() {
                    assert(rest[j].key == k);
                }
            }
            if has_key(rest, k) {
                let j = choose|j: int| 0 <= j < rest.len() && rest[j].key == k;
                assert(full[j].key == k);
            }
            assert(full.drop_last() == rest);
        }
    }
}

/// Takes the source-location keys (`git`, `tag`, `branch`, `rev`, `path`) out
/// of entry `i` when it is an inline table, and says whether any was there;
/// a table that lost one is spaced afresh. Every other entry, and an entry of
/// any other form, is left as it is.
pub fn sanitize_dependency_entry(doc: &mut toml_edit::DocumentMut, i: usize) -> (r: bool)
    requires
        has_dependency_table(*old(doc)),
        i < dependencies_of(*old(doc)).len(),
    ensures
        has_dependency_table(*final(doc)),
        dependencies_of(*final(doc)).len() == dependencies_of(*old(doc)).len(),
        forall|j: int|
            0 <= j < dependencies_of(*old(doc)).len() && j != i ==> #[trigger] dependencies_of(
                *final(doc),
            )[j] == dependencies_of(*old(doc))[j],
        sanitized_entry(dependencies_of(*old(doc))[i as int], dependencies_of(*final(doc))[i as int]),
        r == removes(dependencies_of(*old(doc))[i as int]),
        !r ==> dependencies_of(*final(doc)) == dependencies_of(*old(doc)) && document_text(
            *final(doc),
        ) == document_text(*old(doc)),
        rest_of(*final(doc), dependencies_key()) == rest_of(*old(doc), dependencies_key()),
{
    let ghost d0 = *doc;
    let ghost a0 = dependencies_of(d0)[i as int].attrs;
    let ghost inline = dependencies_of(d0)[i as int].kind == Shape::Inline;
    let ghost ks = source_keys();
    proof {
        lemma_without_none(a0, ks.take(0));
        lemma_source_keys_distinct();
    }
    let mut removed = false;
    let mut n: usize = 0;
    while n < 5
        invariant
            n <= 5,
            d0 == *old(doc),
            a0 == dependencies_of(d0)[i as int].attrs,
            inline == (dependencies_of(d0)[i as int].kind == Shape::Inline),
            ks == source_keys(),
            forall|m: int| 0 <= m < 5 ==> !(#[trigger] ks.take(m)).contains(ks[m]),
            has_dependency_table(*doc),
            dependencies_of(*doc).len() == dependencies_of(d0).len(),
            i < dependencies_of(d0).len(),
            forall|j: int|
                0 <= j < dependencies_of(d0).len() && j != i ==> #[trigger] dependencies_of(*doc)[j]
                    == dependencies_of(d0)[j],
            dependencies_of(*doc)[i as int].name == dependencies_of(d0)[i as int].name,
            dependencies_of(*doc)[i as int].kind == dependencies_of(d0)[i as int].kind,
            dependencies_of(*doc)[i as int].attrs == without_keys(a0, ks.take(n as int)),
            removed == (inline && exists|m: int| 0 <= m < n && #[trigger] has_key(a0, ks[m])),
            !removed ==> dependencies_of(*doc) == dependencies_of(d0) && document_text(*doc)
                == document_text(d0),
            rest_of(*doc, dependencies_key()) == rest_of(d0, dependencies_key()),
        decreases 5 - n,
    {
        let key = source_key(n);
        let step = remove_attribute(doc, dependencies_table(), i, key);
        proof {
            lemma_without_key_step(a0, ks.take(n as int), ks[n as int]);
            assert(ks.take(n as int).push(ks[n as int]) == ks.take(n as int + 1));
            if has_key(a0, ks[n as int]) {
                assert(exists|m: int| 0 <= m < n + 1 && #[trigger] has_key(a0, ks[m]));
            }
        }
        removed = removed || step;
        n = n + 1;
    }
    proof {
        assert(ks.take(5) == ks);
        lemma_source_key_cases(a0);
    }
    if removed {
        tidy_entry(doc, dependencies_table(), i);
    }
    removed
}

/// The source-location keys, in the order they are removed.
fn source_key(n: usize) -> (r: &'static str)
    requires
        n < 5,
    ensures
        r@ == source_keys()[n as int],
{
    proof {
        reveal_strlit("git");
        reveal_strlit("tag");
        reveal_strlit("branch");
        reveal_strlit("rev");
        reveal_strlit("path");
    }
    let r = if n == 0 {
        "git"
    } else if n == 1 {
        "tag"
    } else if n == 2 {
        "branch"
    } else if n == 3 {
        "rev"
    } else {
        "path"
    };
    assert(r@ =~= source_keys()[n as int]);
    r
}

/// What the walker reports of one entry: its name, and whether a
/// source-location key was removed from it.
pub struct EntryReport {
    pub name: String,
    pub removed: bool,
}

/// Whether some entry is written as a full sub-table or an array of tables.
pub open spec fn has_unsupported(deps: Seq<DepView>) -> bool {
    exists|j: int| 0 <= j < deps.len() && unsupported(#[trigger] deps[j].kind)
}

/// The error for the first entry written in a refused form.
pub open spec fn first_unsupported_error(deps: Seq<DepView>, e: SanitizeError) -> bool {
    exists|j: int|
        0 <= j < deps.len() && unsupported(#[trigger] deps[j].kind) && (forall|k: int|
            0 <= k < j ==> !unsupported(#[trigger] deps[k].kind)) && (
        e matches SanitizeError::UnsupportedEntryShape(n) && n@ == deps[j].name)
}

/// Whether the report lists the entries in order, each with its removal flag.
pub open spec fn reports(rep: Seq<EntryReport>, deps: Seq<DepView>) -> bool {
    rep.len() == deps.len() && forall|j: int|
        0 <= j < rep.len() ==> (#[trigger] rep[j]).name@ == deps[j].name && rep[j].removed
            == removes(deps[j])
}

/// Walks the `dependencies` table in order and sanitizes each entry.
///
/// Fails with `MissingDependenciesTable` when the document has no table-like
/// `dependencies` entry, and with `UnsupportedEntryShape`, naming the first
/// such entry, when one is written as a full sub-table or an array of tables;
/// a document it refuses is left as it was.
/// Otherwise every entry keeps its name and form and loses its source-location
/// keys, and the report gives each entry's name and removal flag. A document
/// none of whose entries holds such a key is written out as before.
pub fn sanitize(doc: &mut toml_edit::DocumentMut) -> (r: Result<Vec<EntryReport>, SanitizeError>)
    ensures
        !has_dependency_table(*old(doc)) ==> r == Err::<Vec<EntryReport>, SanitizeError>(
            SanitizeError::MissingDependenciesTable,
        ),
        r is Err ==> *final(doc) == *old(doc),
        rest_of(*final(doc), dependencies_key()) == rest_of(*old(doc), dependencies_key()),
        has_dependency_table(*old(doc)) ==> (r is Err <==> has_unsupported(
            dependencies_of(*old(doc)),
        )),
        has_dependency_table(*old(doc)) ==> (r matches Err(e) ==> first_unsupported_error(
            dependencies_of(*old(doc)),
            e,
        )),
        r matches Ok(rep) ==> {
            &&& has_dependency_table(*final(doc))
            &&& reports(rep@, dependencies_of(*old(doc)))
            &&& dependencies_of(*final(doc)).len() == dependencies_of(*old(doc)).len()
            &&& forall|j: int|
                0 <= j < dependencies_of(*old(doc)).len() ==> #[trigger] sanitized_entry(
                    dependencies_of(*old(doc))[j],
                    dependencies_of(*final(doc))[j],
                )
            &&& forall|j: int|
                0 <= j < dependencies_of(*old(doc)).len() && !removes(
                    #[trigger] dependencies_of(*old(doc))[j],
                ) ==> dependencies_of(*final(doc))[j] == dependencies_of(*old(doc))[j]
        },
        (forall|j: int|
            0 <= j < dependencies_of(*old(doc)).len() ==> !removes(
                #[trigger] dependencies_of(*old(doc))[j],
            )) ==> document_text(*final(doc)) == document_text(*old(doc)) && dependencies_of(
            *final(doc),
        ) == dependencies_of(*old(doc)),
{
    let ghost d0 = *doc;
    let info = match read_table(doc, dependencies_table()) {
        Some(v) => v,
        None => {
            return Err(SanitizeError::MissingDependenciesTable);
        },
    };
    let ghost deps0 = dependencies_of(d0);
    let mut k: usize = 0;
    while k < info.len()
        invariant
            has_dependency_table(d0),
            d0 == *old(doc),
            *doc == d0,
            deps0 == dependencies_of(d0),
            info.len() == deps0.len(),
            forall|j: int| 0 <= j < info.len() ==> (#[trigger] info[j]).matches_view(deps0[j]),
            0 <= k <= info.len(),
            forall|j: int| 0 <= j < k ==> !unsupported(#[trigger] deps0[j].kind),
        decreases info.len() - k,
    {
        let kind = info[k].kind;
        if kind == Shape::Table || kind == Shape::TableArray {
            let name = info[k].name.clone();
            proof {
                assert(first_unsupported_error(deps0, SanitizeError::UnsupportedEntryShape(name)));
                assert(info[k as int].matches_view(deps0[k as int]));
                assert(unsupported(deps0[k as int].kind));
                assert(has_unsupported(deps0));
            }
            return Err(SanitizeError::UnsupportedEntryShape(name));
        }
        k = k + 1;
    }
    let mut rep: Vec<EntryReport> = Vec::new();
    let mut i: usize = 0;
    while i < info.len()
        invariant
            has_dependency_table(d0),
            d0 == *old(doc),
            deps0 == dependencies_of(d0),
            info.len() == deps0.len(),
            forall|j: int| 0 <= j < info.len() ==> (#[trigger] info[j]).matches_view(deps0[j]),
            forall|j: int| 0 <= j < info.len() ==> !unsupported(#[trigger] deps0[j].kind),
            0 <= i <= info.len(),
            has_dependency_table(*doc),
            dependencies_of(*doc).len() == deps0.len(),
            forall|j: int| 0 <= j < i ==> #[trigger] sanitized_entry(deps0[j], dependencies_of(*doc)[j]),
            forall|j: int| i <= j < deps0.len() ==> #[trigger] dependencies_of(*doc)[j] == deps0[j],
            reports(rep@, deps0.take(i as int)),
            forall|j: int|
                0 <= j < i && !removes(#[trigger] deps0[j]) ==> dependencies_of(*doc)[j] == deps0[j],
            (forall|j: int| 0 <= j < i ==> !removes(#[trigger] deps0[j])) ==> dependencies_of(*doc)
                == deps0 && document_text(*doc) == document_text(d0),
            rest_of(*doc, dependencies_key()) == rest_of(d0, dependencies_key()),
        decreases info.len() - i,
    {
        let removed = sanitize_dependency_entry(doc, i);
        rep.push(EntryReport { name: info[i].name.clone(), removed });
        proof {
            assert(deps0.take(i as int + 1).drop_last() == deps0.take(i as int));
        }
        i = i + 1;
    }
    proof {
        assert(deps0.take(i as int) == deps0);
    }
    Ok(rep)
}

/// The positions, in order, of the report's entries that `mode` asks to
/// check against the registry.
pub fn entries_to_check(rep: &Vec<EntryReport>, mode: Mode) -> (r: Vec<usize>)
    ensures
        r@ == Seq::new(rep.len() as nat, |j: int| j).filter(
            |j: int| wants_check(mode, rep[j].removed),
        ).map_values(|j: int| j as usize),
{
    let ghost all = Seq::new(rep.len() as nat, |j: int| j);
    let ghost pick = |j: int| wants_check(mode, rep[j].removed);
    let mut r: Vec<usize> = Vec::new();
    let mut i: usize = 0;
    while i < rep.len()
        invariant
            i <= rep.len(),
            all == Seq::new(rep.len() as nat, |j: int| j),
            pick == (|j: int| wants_check(mode, rep[j].removed)),
            r@ == all.take(i as int).filter(pick).map_values(|j: int| j as usize),
        decreases rep.len() - i,
    {
        proof {
            reveal(Seq::filter);
            assert(all.take(i as int + 1).drop_last() == all.take(i as int));
            assert(all.take(i as int + 1).last() == i as int);
        }
        if mode.should_check(rep[i].removed) {
            r.push(i);
            proof {
                assert(r@ =~= all.take(i as int + 1).filter(pick).map_values(|j: int| j as usize));
            }
        }
        i = i + 1;
    }
    proof {
        assert(all.take(i as int) == all);
    }
    r
}

proof fn lemma_without_keys_is_filter(attrs: Seq<AttrView>, keys: Seq<Seq<char>>)
    ensures
        without_keys(attrs, keys) == attrs.filter(|a: AttrView| !keys.contains(a.key)),
    decreases attrs.len(),
{
    reveal(Seq::filter);
    if attrs.len() > 0 {
        lemma_without_keys_is_filter(attrs.drop_last(), keys);
    }
}

proof fn lemma_without_keys_clean(attrs: Seq<AttrView>, keys: Seq<Seq<char>>)
    ensures
        forall|j: int|
            0 <= j < without_keys(attrs, keys).len() ==> !keys.contains(
                (#[trigger] without_keys(attrs, keys)[j]).key,
            ),
        without_keys(without_keys(attrs, keys), keys) == without_keys(attrs, keys),
    decreases attrs.len(),
{
    if attrs.len() > 0 {
        let init = attrs.drop_last();
        lemma_without_keys_clean(init, keys);
        let rest = without_keys(init, keys);
        if !keys.contains(attrs.last().key) {
            let full = rest.push(attrs.last());
            assert(full.drop_last() == rest);
            assert forall|j: int| 0 <= j < full.len() implies !keys.contains(
                (#[trigger] full[j]).key,
            ) by {
                if j < rest.len() {
                    assert(full[j] == rest[j]);
                }
            }
        }
    }
}

/// Sanitizing an entry leaves none of `git`, `tag`, `branch`, `rev`, `path`
/// among its attributes, and keeps every other attribute, with its value, in
/// its original order.
pub proof fn law_strip_complete(attrs: Seq<AttrView>)
    ensures
        forall|j: int| 0 <= j < strip(attrs).len() ==> !is_source_key(#[trigger] strip(attrs)[j].key),
        strip(attrs) == attrs.filter(|a: AttrView| !is_source_key(a.key)),
{
    lemma_without_keys_clean(attrs, source_keys());
    lemma_without_keys_is_filter(attrs, source_keys());
    assert((|a: AttrView| !source_keys().contains(a.key)) == (|a: AttrView| !is_source_key(a.key)));
}

/// Sanitizing an already sanitized manifest changes nothing: when every entry
/// of `after` is the corresponding entry of `before` sanitized, no entry of
/// `after` holds a source-location key (so a second run removes nothing and
/// writes the document out as it was), and stripping each entry again gives
/// the same attributes.
pub proof fn law_sanitize_idempotent(before: toml_edit::DocumentMut, after: toml_edit::DocumentMut)
    requires
        dependencies_of(after).len() == dependencies_of(before).len(),
        forall|j: int|
            0 <= j < dependencies_of(before).len() ==> #[trigger] sanitized_entry(
                dependencies_of(before)[j],
                dependencies_of(after)[j],
            ),
    ensures
        forall|j: int|
            0 <= j < dependencies_of(after).len() ==> !has_source_key(
                #[trigger] dependencies_of(after)[j].attrs,
            ) && !removes(dependencies_of(after)[j]) && strip(dependencies_of(after)[j].attrs)
                == dependencies_of(after)[j].attrs,
{
    assert forall|j: int| 0 <= j < dependencies_of(after).len() implies !has_source_key(
        #[trigger] dependencies_of(after)[j].attrs,
    ) && !removes(dependencies_of(after)[j]) && strip(dependencies_of(after)[j].attrs)
        == dependencies_of(after)[j].attrs by {
        assert(sanitized_entry(dependencies_of(before)[j], dependencies_of(after)[j]));
        let a = dependencies_of(before)[j].attrs;
        lemma_without_keys_clean(a, source_keys());
        if has_source_key(strip(a)) {
            let k = choose|k: int| 0 <= k < strip(a).len() && is_source_key(#[trigger] strip(a)[k].key);
            assert(!source_keys().contains(strip(a)[k].key));
        }
    }
}

proof fn lemma_source_keys_distinct()
    ensures
        forall|n: int| 0 <= n < 5 ==> !(#[trigger] source_keys().take(n)).contains(source_keys()[n]),
{
    let ks = source_keys();
    assert forall|n: int| 0 <= n < 5 implies !(#[trigger] ks.take(n)).contains(ks[n]) by {
        if ks.take(n).contains(ks[n]) {
            let w = choose|w: int| 0 <= w < ks.take(n).len() && ks.take(n)[w] == ks[n];
            assert(ks[w][0] == ks[n][0]);
        }
    }
}

proof fn lemma_without_none(attrs: Seq<AttrView>, keys: Seq<Seq<char>>)
    requires
        keys.len() == 0,
    ensures
        without_keys(attrs, keys) == attrs,
    decreases attrs.len(),
{
    if attrs.len() > 0 {
        lemma_without_none(attrs.drop_last(), keys);
        assert(attrs.drop_last().push(attrs.last()) == attrs);
    }
}

proof fn lemma_source_key_cases(attrs: Seq<AttrView>)
    ensures
        has_source_key(attrs) == exists|m: int| 0 <= m < 5 && #[trigger] has_key(attrs, source_keys()[m]),
{
    let ks = source_keys();
    if has_source_key(attrs) {
        let j = choose|j: int| 0 <= j < attrs.len() && is_source_key(#[trigger] attrs[j].key);
        let w = choose|w: int| 0 <= w < ks.len() && ks[w] == attrs[j].key;
        assert(has_key(attrs, ks[w]));
    }
    if exists|m: int| 0 <= m < 5 && #[trigger] has_key(attrs, ks[m]) {
        let m = choose|m: int| 0 <= m < 5 && #[trigger] has_key(attrs, ks[m]);
        let j = choose|j: int| 0 <= j < attrs.len() && (#[trigger] attrs[j]).key == ks[m];
        assert(is_source_key(attrs[j].key));
    }
}

} // verus!
