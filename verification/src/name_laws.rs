//! What names stand for: the slot of a name, the parts of a path, the language of an extension
//! and the function of an import.

use vstd::prelude::*;
use crate::ir::{FunctionDeclV, LocalSlot};
use crate::modules::{
    action_for, merged_signature, stand_in, GraphV, ImportAction, ImportFacts, SignatureV,
};
use crate::names::{bound_slot, decl_named, name_of, scoped_slot, slot_of, BindingsV, NamesV};
use crate::options::{flavor_of_extension, lowered, normalized, OptionsV, SourceFlavor};
use crate::paths::{
    component_start, extension_of, file_name_of, file_stem_of, last_dot, trimmed_len,
};

verus! {

// ---------------------------------------------------------------------------
// Names of locals.

proof fn lemma_slot_of_prefix(a: BindingsV, b: BindingsV, name: Seq<char>, n: int)
    requires
        0 <= n <= a.len(),
        n <= b.len(),
        forall|i: int| 0 <= i < n ==> a[i] == b[i],
    ensures
        slot_of(a, name, n) == slot_of(b, name, n),
    decreases n,
{
    if n > 0 {
        lemma_slot_of_prefix(a, b, name, n - 1);
    }
}

proof fn lemma_name_of_prefix(a: BindingsV, b: BindingsV, slot: LocalSlot, n: int)
    requires
        0 <= n <= a.len(),
        n <= b.len(),
        forall|i: int| 0 <= i < n ==> a[i] == b[i],
    ensures
        name_of(a, slot, n) == name_of(b, slot, n),
    decreases n,
{
    if n > 0 {
        lemma_name_of_prefix(a, b, slot, n - 1);
    }
}

/// The slot of a name is the one that it was bound to last; binding a name changes no other
/// name. A name that was never bound has no slot.
pub proof fn law_names_lead_to_their_slots(
    b: BindingsV,
    name: Seq<char>,
    other: Seq<char>,
    slot: LocalSlot,
    another: LocalSlot,
)
    ensures
        bound_slot(b.push((name, slot)), name) == Some(slot),
        other != name ==> bound_slot(b.push((name, slot)), other) == bound_slot(b, other),
        bound_slot(Seq::empty(), name) is None,
        name_of(b.push((name, slot)), slot, b.len() as int + 1) == Some(name),
        another != slot ==> name_of(b.push((name, slot)), another, b.len() as int + 1) == name_of(
            b,
            another,
            b.len() as int,
        ),
{
    lemma_slot_of_prefix(b, b.push((name, slot)), other, b.len() as int);
    lemma_name_of_prefix(b, b.push((name, slot)), another, b.len() as int);
}

proof fn lemma_scoped_prefix(a: Seq<BindingsV>, b: Seq<BindingsV>, name: Seq<char>, n: int)
    requires
        0 <= n <= a.len(),
        n <= b.len(),
        forall|i: int| 0 <= i < n ==> a[i] == b[i],
    ensures
        scoped_slot(a, name, n) == scoped_slot(b, name, n),
    decreases n,
{
    if n > 0 {
        lemma_scoped_prefix(a, b, name, n - 1);
    }
}

/// Inside a body its parameters hide what is outside, and what it does not bind is still what it
/// was; behind it everything is what it was before.
pub proof fn law_bodies_hide_what_is_outside(
    a: NamesV,
    params: BindingsV,
    name: Seq<char>,
    slot: LocalSlot,
)
    ensures
        ({
            let inside = a.entered(params);
            let n = inside.scopes.len() as int;
            &&& bound_slot(params, name) is Some ==> scoped_slot(inside.scopes, name, n)
                == bound_slot(params, name)
            &&& bound_slot(params, name) is None ==> scoped_slot(inside.scopes, name, n)
                == scoped_slot(a.scopes, name, a.scopes.len() as int)
            &&& scoped_slot(inside.bind_inner(name, slot).scopes, name, n) == Some(slot)
            &&& inside.left().scopes == a.scopes
            &&& inside.left().captures == a.captures
            &&& inside.left().locals == a.locals
        }),
{
    let inside = a.entered(params);
    lemma_scoped_prefix(a.scopes, inside.scopes, name, a.scopes.len() as int);
    assert(inside.left().scopes =~= a.scopes);
    assert(inside.left().captures =~= a.captures);
    let bound = inside.bind_inner(name, slot).scopes;
    assert(bound[a.scopes.len() as int] == params.push((name, slot)));
    law_names_lead_to_their_slots(params, name, name, slot, slot);
}

/// A slot that is taken is the next one, which no slot taken before is; and it may change until
/// it is said that it may not.
pub proof fn law_slots_are_taken_in_turn(a: NamesV, slot: LocalSlot, other: LocalSlot, value: bool)
    requires
        !a.full(),
        a.mutable.len() == a.next_local,
    ensures
        a.allocated().next_local == a.next_local + 1,
        a.allocated().is_mutable(a.next_local),
        other != a.next_local ==> a.allocated().is_mutable(other) == a.is_mutable(other),
        a.with_mutable(slot, value).is_mutable(slot) == value,
        other != slot ==> a.with_mutable(slot, value).is_mutable(other) == a.is_mutable(other),
{
}

/// What a closure took from outside is found under its name, as what was taken.
pub proof fn law_captured_names_are_found(
    a: NamesV,
    name: Seq<char>,
    other: Seq<char>,
    from: LocalSlot,
    to: LocalSlot,
)
    requires
        a.captures.len() > 0,
    ensures
        bound_slot(a.capture(name, from, to).captures.last().by_name, name) == Some(to),
        other != name ==> bound_slot(a.capture(name, from, to).captures.last().by_name, other)
            == bound_slot(a.captures.last().by_name, other),
        a.capture(name, from, to).captures.last().copies == a.captures.last().copies.push(
            (from, to),
        ),
        a.capture(name, from, to).captures.len() == a.captures.len(),
{
    law_names_lead_to_their_slots(a.captures.last().by_name, name, other, to, to);
}

proof fn lemma_decl_after(
    list: Seq<FunctionDeclV>,
    decl: FunctionDeclV,
    name: Seq<char>,
    i: int,
)
    requires
        0 <= i <= list.len(),
    ensures
        decl_named(list.push(decl), name, i) == match decl_named(list, name, i) {
            Some(found) => Some(found),
            None => if decl.name == name {
                Some(decl)
            } else {
                None
            },
        },
    decreases list.len() - i,
{
    if i < list.len() {
        lemma_decl_after(list, decl, name, i + 1);
    } else {
        assert(list.push(decl)[i] == decl);
        assert(decl_named(list.push(decl), name, i + 1) is None);
    }
}

/// A function is found by its name as it was declared first, and declaring one changes no other.
pub proof fn law_functions_are_found_by_name(a: NamesV, decl: FunctionDeclV, name: Seq<char>)
    ensures
        a.decl(decl.name) is None ==> a.with_decl(decl).decl(decl.name) == Some(decl),
        a.decl(name) is Some ==> a.with_decl(decl).decl(name) == a.decl(name),
        name != decl.name ==> a.with_decl(decl).decl(name) == a.decl(name),
        a.decl(name) matches Some(found) ==> found.name == name,
{
    lemma_decl_after(a.functions, decl, name, 0);
    lemma_decl_after(a.functions, decl, decl.name, 0);
    lemma_decl_name(a.functions, name, 0);
}

proof fn lemma_decl_name(list: Seq<FunctionDeclV>, name: Seq<char>, i: int)
    requires
        0 <= i <= list.len(),
    ensures
        decl_named(list, name, i) matches Some(found) ==> found.name == name,
    decreases list.len() - i,
{
    if i < list.len() {
        lemma_decl_name(list, name, i + 1);
    }
}

// ---------------------------------------------------------------------------
// Paths.

proof fn lemma_component(path: Seq<char>, from: int, n: int)
    requires
        0 <= from <= n <= path.len(),
        from == 0 || path[from - 1] == '/',
        forall|i: int| from <= i < n ==> path[i] != '/',
    ensures
        component_start(path, n) == from,
    decreases n,
{
    if n > from {
        lemma_component(path, from, n - 1);
    }
}

/// The file name of a path is what stands behind the last separator; separators at the end do
/// not count.
pub proof fn law_file_names(dir: Seq<char>, name: Seq<char>)
    requires
        dir.len() == 0 || dir.last() == '/',
        name.len() > 0,
        !name.contains('/'),
        name != "."@,
        name != ".."@,
    ensures
        file_name_of(dir + name) == Some(name),
        file_name_of(dir + name + seq!['/']) == Some(name),
{
    let path = dir + name;
    let n = path.len() as int;
    assert(path[n - 1] == name.last());
    assert(name.contains(name.last()));
    if name.last() == '.' {
        reveal_strlit(".");
        if name.len() == 1 {
            assert(name =~= "."@);
        }
        assert(path[n - 2] == name[name.len() - 2]);
        assert(name.contains(name[name.len() - 2]));
    }
    assert(trimmed_len(path, n) == n);
    assert forall|i: int| dir.len() <= i < n implies path[i] != '/' by {
        assert(path[i] == name[i - dir.len()]);
        assert(name.contains(name[i - dir.len()]));
    }
    lemma_component(path, dir.len() as int, n);
    assert(path.subrange(dir.len() as int, n) =~= name);
    let longer = path + seq!['/'];
    lemma_trimmed_prefix(path, longer, n);
    lemma_component(longer, dir.len() as int, n);
    assert(trimmed_len(longer, n + 1) == trimmed_len(longer, n));
    assert(longer.subrange(dir.len() as int, n) =~= name);
}

proof fn lemma_trimmed_prefix(a: Seq<char>, b: Seq<char>, n: int)
    requires
        0 <= n <= a.len(),
        n <= b.len(),
        forall|i: int| 0 <= i < n ==> a[i] == b[i],
    ensures
        trimmed_len(a, n) == trimmed_len(b, n),
    decreases n,
{
    if n > 0 {
        lemma_trimmed_prefix(a, b, n - 1);
        if n > 1 {
            lemma_trimmed_prefix(a, b, n - 2);
        }
    }
}

proof fn lemma_last_dot(name: Seq<char>, dot: int, n: int)
    requires
        0 <= dot < n <= name.len(),
        name[dot] == '.',
        forall|i: int| dot < i < n ==> name[i] != '.',
    ensures
        last_dot(name, n) == dot,
    decreases n,
{
    if dot < n - 1 {
        lemma_last_dot(name, dot, n - 1);
    }
}

proof fn lemma_no_dot(name: Seq<char>, n: int)
    requires
        0 <= n <= name.len(),
        forall|i: int| 0 <= i < n ==> name[i] != '.',
    ensures
        last_dot(name, n) == -1,
    decreases n,
{
    if n > 0 {
        lemma_no_dot(name, n - 1);
    }
}

/// A file name is its stem, a dot and its extension; without a dot it is all stem.
pub proof fn law_stems_and_extensions(dir: Seq<char>, stem: Seq<char>, ext: Seq<char>)
    requires
        dir.len() == 0 || dir.last() == '/',
        stem.len() > 0,
        !stem.contains('/'),
        !ext.contains('/'),
        !ext.contains('.'),
    ensures
        stem + seq!['.'] + ext != ".."@ ==> file_stem_of(dir + (stem + seq!['.'] + ext)) == Some(
            stem,
        ) && extension_of(dir + (stem + seq!['.'] + ext)) == Some(ext),
        !stem.contains('.') ==> file_stem_of(dir + stem) == Some(stem) && extension_of(dir + stem)
            is None,
{
    let name = stem + seq!['.'] + ext;
    assert(!name.contains('/')) by {
        assert forall|i: int| 0 <= i < name.len() implies name[i] != '/' by {
            if i < stem.len() {
                assert(stem.contains(stem[i]));
            } else if i > stem.len() {
                assert(ext.contains(ext[i - stem.len() - 1]));
            }
        }
    }
    reveal_strlit(".");
    reveal_strlit("..");
    if name != ".."@ {
        assert(name.len() >= 2);
        law_file_names(dir, name);
        assert forall|i: int| stem.len() < i < name.len() implies name[i] != '.' by {
            assert(name[i] == ext[i - stem.len() - 1]);
            assert(ext.contains(ext[i - stem.len() - 1]));
        }
        lemma_last_dot(name, stem.len() as int, name.len() as int);
        assert(name.take(stem.len() as int) =~= stem);
        assert(name.skip(stem.len() as int + 1) =~= ext);
    }
    if !stem.contains('.') {
        assert(stem[0] != '.') by {
            assert(stem.contains(stem[0]));
        }
        law_file_names(dir, stem);
        assert forall|i: int| 0 <= i < stem.len() implies stem[i] != '.' by {
            assert(stem.contains(stem[i]));
        }
        lemma_no_dot(stem, stem.len() as int);
    }
}

/// The extension of the files of a language.
pub open spec fn extension_text(f: SourceFlavor) -> Seq<char> {
    match f {
        SourceFlavor::RustScript => "rss"@,
        SourceFlavor::JavaScript => "js"@,
        SourceFlavor::Lua => "lua"@,
        SourceFlavor::Scheme => "scm"@,
    }
}

/// A language is known by its extension, whatever the case of its letters, and by no other.
pub proof fn law_languages_are_known_by_their_extension(ext: Seq<char>, f: SourceFlavor)
    ensures
        flavor_of_extension(ext) == Some(f) <==> lowered(ext) == extension_text(f),
{
    reveal_strlit("rss");
    reveal_strlit("js");
    reveal_strlit("lua");
    reveal_strlit("scm");
    assert("rss"@[0] == 'r' && "js"@[0] == 'j' && "lua"@[0] == 'l' && "scm"@[0] == 's');
}

/// An import specifier keeps its characters but for its separators, which are all the same
/// afterwards.
pub proof fn law_separators_are_made_the_same(text: Seq<char>, i: int)
    requires
        0 <= i < text.len(),
    ensures
        normalized(text).len() == text.len(),
        normalized(text)[i] != '\\',
        text[i] != '\\' ==> normalized(text)[i] == text[i],
        text[i] == '\\' ==> normalized(text)[i] == '/',
{
}

// ---------------------------------------------------------------------------
// Modules.

/// A module is loaded unless it is being loaded, which is a cycle, or was; what is no module of
/// the program's own is passed over.
pub proof fn law_what_is_done_about_an_import(
    g: GraphV,
    path: Seq<char>,
    key: Seq<char>,
    facts: ImportFacts,
)
    ensures
        facts.is_builtin || !facts.is_module ==> action_for(g, path, key, facts)
            == ImportAction::Skip,
        !facts.is_builtin && facts.is_module && (key != path || !facts.is_virtual) ==> {
            &&& action_for(g.entered(key), path, key, facts) == ImportAction::Cycle
            &&& !g.visiting.contains(key) && g.seen.contains(key) ==> action_for(
                g,
                path,
                key,
                facts,
            ) == ImportAction::Skip
            &&& !g.visiting.contains(key) && !g.seen.contains(key) ==> action_for(
                g,
                path,
                key,
                facts,
            ) == ImportAction::Load
        },
{
    assert(g.entered(key).visiting[g.visiting.len() as int] == key);
}

/// A function of two modules takes as many arguments as the one that takes more, and the type
/// parameters of the one that has any; two that differ in them are refused.
pub proof fn law_signatures_cover_both(a: SignatureV, b: SignatureV)
    ensures
        merged_signature(a, b) is None <==> a.type_params.len() > 0 && b.type_params.len() > 0
            && a.type_params != b.type_params,
        merged_signature(a, b) matches Some(c) ==> c.arity >= a.arity && c.arity >= b.arity && (
        c.arity == a.arity || c.arity == b.arity) && (a.type_params.len() > 0 ==> c.type_params
            == a.type_params) && (b.type_params.len() > 0 ==> c.type_params == b.type_params) && (
        a.type_params.len() == 0 && b.type_params.len() == 0 ==> c.type_params.len() == 0),
        merged_signature(a, a) == Some(a),
{
}

/// A source that was put in place of a module counts: under the module's specifier first, then
/// under its path.
pub proof fn law_stand_ins_count(
    o: OptionsV,
    spec_text: Seq<char>,
    path: Seq<char>,
    source: Seq<char>,
)
    ensures
        stand_in(o.with_source(spec_text, source), spec_text, path) == Some(source),
        o.source_for(spec_text) is None && normalized(spec_text) != normalized(path) ==> stand_in(
            o.with_source(path, source),
            spec_text,
            path,
        ) == Some(source),
        o.source_for(spec_text) is None && o.source_for(path) is None ==> stand_in(
            o,
            spec_text,
            path,
        ) is None,
{
}

} // verus!
