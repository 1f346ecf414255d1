//! What imports are for: which calls they make possible, what those calls become in the text,
//! and what is declared for them.

use vstd::prelude::*;
use crate::imports::{
    after_import, default_namespace, exports_name, extended_namespace, host_named, missing_from,
    namespace_names, prefixed, renamed, rewritten_source, CallRules, ExportedFunction,
    ImportClause, ImportResolution, ModuleImport, NamedImport,
};
use crate::modules::{
    arg_list, declaration, export_position, with_exports, with_function, with_import, with_named,
    Declared,
};
use crate::options::SourceFlavor;
use crate::rewrite::{
    at, called_member, ident_end, path_is_called, rewritten, rewritten_word, separator_end,
    space_end, Mode, RuleSet,
};
use crate::text::{
    ascii_is_one_byte, decimal, ident_continue, ident_start, inline_space, valid_ident,
};

verus! {

// ---------------------------------------------------------------------------
// The rules after an import.

proof fn lemma_extended(names: Set<Seq<char>>, exports: Seq<ExportedFunction>, n: int)
    requires
        0 <= n <= exports.len(),
    ensures
        forall|x: Seq<char>| #[trigger]
            extended_namespace(
                names,
                exports,
                n,
            ).contains(x) <==> names.contains(x) || exists|i: int|
                0 <= i < n && (#[trigger] exports[i]).name@ == x,
    decreases n,
{
    if n > 0 {
        lemma_extended(names, exports, n - 1);
        let before = extended_namespace(names, exports, n - 1);
        assert forall|x: Seq<char>| #[trigger]
            extended_namespace(
                names,
                exports,
                n,
            ).contains(x) <==> names.contains(x) || exists|i: int|
                0 <= i < n && (#[trigger] exports[i]).name@ == x by {
            assert(before.contains(x) <==> names.contains(x) || exists|i: int|
                0 <= i < n - 1 && (#[trigger] exports[i]).name@ == x);
            if x == exports[n - 1].name@ {
                assert(exports[n - 1].name@ == x);
            }
        }
    }
}

/// Whether the names that are called through a namespace are those that a module exports, and
/// those that were before.
pub open spec fn opens_namespace(
    before: CallRules,
    after: CallRules,
    namespace: Seq<char>,
    exports: Seq<ExportedFunction>,
) -> bool {
    &&& after.namespaces.dom() == before.namespaces.dom().insert(namespace)
    &&& forall|x: Seq<char>| #[trigger]
        after.namespaces[namespace].contains(x) <==> exports_name(exports, x) || (
        before.namespaces.dom().contains(namespace) && before.namespaces[namespace].contains(x))
    &&& forall|other: Seq<char>|
        other != namespace && before.namespaces.dom().contains(other) ==> (
        #[trigger] after.namespaces[other]) == before.namespaces[other]
    &&& after.aliases == before.aliases
    &&& after.roots == before.roots
    &&& after.requires_vm == before.requires_vm
}

/// A loaded module that is imported under a namespace can be called through it: every function
/// that it exports, and no other that could not be before.
pub proof fn law_namespace_imports_open_the_namespace(
    rules: CallRules,
    import: ModuleImport,
    namespace: String,
    exports: Vec<ExportedFunction>,
)
    requires
        import.spec@ != "vm"@,
        import.clause == ImportClause::Namespace(namespace),
    ensures
        after_import(rules, import, ImportResolution::Loaded(exports)) matches Ok(r)
            && opens_namespace(rules, r, namespace@, exports@),
{
    lemma_extended(
        namespace_names(rules.namespaces, namespace@),
        exports@,
        exports@.len() as int,
    );
    let r = after_import(rules, import, ImportResolution::Loaded(exports))->Ok_0;
    assert(r.namespaces.dom() =~= rules.namespaces.dom().insert(namespace@));
}

/// A loaded module that is imported as a whole can be called through the namespace of its file
/// name, where that is a name.
pub proof fn law_whole_imports_open_the_default_namespace(
    rules: CallRules,
    import: ModuleImport,
    exports: Vec<ExportedFunction>,
)
    requires
        import.spec@ != "vm"@,
        import.clause is AllPublic,
    ensures
        after_import(rules, import, ImportResolution::Loaded(exports)) matches Ok(r) && match default_namespace(
            import.spec@,
        ) {
            Some(namespace) => opens_namespace(rules, r, namespace, exports@),
            None => r == rules,
        },
{
    match default_namespace(import.spec@) {
        Some(namespace) => {
            lemma_extended(
                namespace_names(rules.namespaces, namespace),
                exports@,
                exports@.len() as int,
            );
            let r = after_import(rules, import, ImportResolution::Loaded(exports))->Ok_0;
            assert(r.namespaces.dom() =~= rules.namespaces.dom().insert(namespace));
        },
        None => {},
    }
}

/// Whether no two imports are called by the same name.
pub open spec fn locals_differ(named: Seq<NamedImport>) -> bool {
    forall|i: int, j: int|
        0 <= i < j < named.len() ==> (#[trigger] named[i]).local@ != (#[trigger] named[j]).local@
}

/// Whether a name is one that an import is called by.
pub open spec fn is_local(named: Seq<NamedImport>, name: Seq<char>) -> bool {
    exists|i: int| 0 <= i < named.len() && (#[trigger] named[i]).local@ == name
}

proof fn lemma_renamed(aliases: Map<Seq<char>, Seq<char>>, named: Seq<NamedImport>, n: int)
    requires
        0 <= n <= named.len(),
        locals_differ(named),
    ensures
        forall|i: int|
            0 <= i < n && (#[trigger] named[i]).local@ != named[i].imported@ ==> renamed(
                aliases,
                named,
                n,
            ).dom().contains(named[i].local@) && renamed(aliases, named, n)[named[i].local@]
                == named[i].imported@,
        forall|x: Seq<char>|
            !is_local(named, x) ==> (#[trigger] renamed(aliases, named, n).dom().contains(x)
                <==> aliases.dom().contains(x)) && (aliases.dom().contains(x) ==> renamed(
                aliases,
                named,
                n,
            )[x] == aliases[x]),
    decreases n,
{
    if n > 0 {
        lemma_renamed(aliases, named, n - 1);
        assert(is_local(named, named[n - 1].local@));
        let before = renamed(aliases, named, n - 1);
        assert forall|x: Seq<char>| !is_local(named, x) implies (#[trigger] renamed(
            aliases,
            named,
            n,
        ).dom().contains(x) <==> aliases.dom().contains(x)) && (aliases.dom().contains(x)
            ==> renamed(aliases, named, n)[x] == aliases[x]) by {
            assert(before.dom().contains(x) <==> aliases.dom().contains(x));
        }
    }
}

/// Names that are imported one by one lead to what they import, each under its local name; a
/// module that lacks one of them is refused, with the name of the first.
pub proof fn law_named_imports_lead_to_what_they_name(
    rules: CallRules,
    import: ModuleImport,
    named: Vec<NamedImport>,
    exports: Vec<ExportedFunction>,
)
    requires
        import.spec@ != "vm"@,
        import.clause == ImportClause::Named(named),
        locals_differ(named@),
    ensures
        match after_import(rules, import, ImportResolution::Loaded(exports)) {
            Ok(r) => {
                &&& forall|i: int|
                    0 <= i < named@.len() ==> exports_name(
                        exports@,
                        (#[trigger] named@[i]).imported@,
                    )
                &&& forall|i: int|
                    0 <= i < named@.len() && (#[trigger] named@[i]).local@ != named@[i].imported@
                        ==> r.aliases.dom().contains(named@[i].local@)
                        && r.aliases[named@[i].local@] == named@[i].imported@
                &&& forall|x: Seq<char>|
                    !is_local(named@, x) ==> (#[trigger] r.aliases.dom().contains(x)
                        <==> rules.aliases.dom().contains(x)) && (rules.aliases.dom().contains(x)
                        ==> r.aliases[x] == rules.aliases[x])
                &&& r.namespaces == rules.namespaces
                &&& r.roots == rules.roots
                &&& r.requires_vm == rules.requires_vm
            },
            Err(message) => exists|k: int|
                {
                    &&& 0 <= k < named@.len()
                    &&& !exports_name(exports@, (#[trigger] named@[k]).imported@)
                    &&& forall|i: int|
                        0 <= i < k ==> exports_name(exports@, (#[trigger] named@[i]).imported@)
                    &&& message == "module '"@ + import.spec@ + "' has no public function '"@
                        + named@[k].imported@ + "'"@
                },
        },
{
    lemma_missing(named@, exports@, 0);
    lemma_renamed(rules.aliases, named@, named@.len() as int);
    match missing_from(named@, exports@, 0) {
        Some(name) => {
            let k = choose|k: int|
                {
                    &&& 0 <= k < named@.len()
                    &&& (#[trigger] named@[k]).imported@ == name
                    &&& !exports_name(exports@, name)
                    &&& forall|j: int|
                        0 <= j < k ==> exports_name(exports@, (#[trigger] named@[j]).imported@)
                };
            assert(!exports_name(exports@, named@[k].imported@));
        },
        None => {},
    }
}

proof fn lemma_missing(named: Seq<NamedImport>, exports: Seq<ExportedFunction>, i: int)
    requires
        0 <= i <= named.len(),
    ensures
        match missing_from(named, exports, i) {
            None => forall|k: int|
                i <= k < named.len() ==> exports_name(exports, (#[trigger] named[k]).imported@),
            Some(name) => exists|k: int|
                {
                    &&& i <= k < named.len()
                    &&& (#[trigger] named[k]).imported@ == name
                    &&& !exports_name(exports, name)
                    &&& forall|j: int|
                        i <= j < k ==> exports_name(exports, (#[trigger] named[j]).imported@)
                },
        },
    decreases named.len() - i,
{
    if i < named.len() {
        if exports_name(exports, named[i].imported@) {
            lemma_missing(named, exports, i + 1);
            match missing_from(named, exports, i + 1) {
                Some(name) => {
                    let k = choose|k: int|
                        {
                            &&& i + 1 <= k < named.len()
                            &&& (#[trigger] named[k]).imported@ == name
                            &&& !exports_name(exports, name)
                            &&& forall|j: int|
                                i + 1 <= j < k ==> exports_name(
                                    exports,
                                    (#[trigger] named[j]).imported@,
                                )
                        };
                    assert(named[k].imported@ == name);
                    assert forall|j: int| i <= j < k implies exports_name(
                        exports,
                        (#[trigger] named[j]).imported@,
                    ) by {}
                },
                None => {},
            }
        } else {
            assert(named[i].imported@ == named[i].imported@);
        }
    }
}

proof fn lemma_prefixed(
    aliases: Map<Seq<char>, Seq<char>>,
    prefix: Seq<char>,
    exports: Seq<ExportedFunction>,
    n: int,
)
    requires
        0 <= n <= exports.len(),
    ensures
        forall|i: int|
            0 <= i < n ==> prefixed(aliases, prefix, exports, n).dom().contains(
                prefix + (#[trigger] exports[i]).name@,
            ) && prefixed(aliases, prefix, exports, n)[prefix + exports[i].name@]
                == exports[i].name@,
        forall|x: Seq<char>|
            !prefix.is_prefix_of(x) ==> (#[trigger] prefixed(
                aliases,
                prefix,
                exports,
                n,
            ).dom().contains(x) <==> aliases.dom().contains(x)) && (aliases.dom().contains(x)
                ==> prefixed(aliases, prefix, exports, n)[x] == aliases[x]),
    decreases n,
{
    if n > 0 {
        lemma_prefixed(aliases, prefix, exports, n - 1);
        let last = exports[n - 1].name@;
        let before = prefixed(aliases, prefix, exports, n - 1);
        assert(prefix.is_prefix_of(prefix + last)) by {
            assert((prefix + last).take(prefix.len() as int) =~= prefix);
        }
        assert forall|i: int| 0 <= i < n implies prefixed(
            aliases,
            prefix,
            exports,
            n,
        ).dom().contains(
            prefix + (#[trigger] exports[i]).name@,
        ) && prefixed(aliases, prefix, exports, n)[prefix + exports[i].name@]
            == exports[i].name@ by {
            let name = exports[i].name@;
            if prefix + name == prefix + last {
                assert((prefix + name).skip(prefix.len() as int) =~= name);
                assert((prefix + last).skip(prefix.len() as int) =~= last);
            }
        }
    }
}

/// A module that is imported under a prefix can be called by its functions' names behind the
/// prefix.
pub proof fn law_prefix_imports_lead_to_every_export(
    rules: CallRules,
    import: ModuleImport,
    prefix: String,
    exports: Vec<ExportedFunction>,
)
    requires
        import.spec@ != "vm"@,
        import.clause == ImportClause::Prefix(prefix),
    ensures
        after_import(rules, import, ImportResolution::Loaded(exports)) matches Ok(r) && {
            &&& forall|i: int|
                0 <= i < exports@.len() ==> r.aliases.dom().contains(
                    prefix@ + (#[trigger] exports@[i]).name@,
                ) && r.aliases[prefix@ + exports@[i].name@] == exports@[i].name@
            &&& forall|x: Seq<char>|
                !prefix@.is_prefix_of(x) ==> (#[trigger] r.aliases.dom().contains(x)
                    <==> rules.aliases.dom().contains(x)) && (rules.aliases.dom().contains(x)
                    ==> r.aliases[x] == rules.aliases[x])
            &&& r.namespaces == rules.namespaces
            &&& r.roots == rules.roots
            &&& r.requires_vm == rules.requires_vm
        },
{
    lemma_prefixed(rules.aliases, prefix@, exports@, exports@.len() as int);
}

proof fn lemma_host_named(
    aliases: Map<Seq<char>, Seq<char>>,
    named: Seq<NamedImport>,
    root: Seq<char>,
    n: int,
)
    requires
        0 <= n <= named.len(),
        locals_differ(named),
    ensures
        forall|i: int|
            0 <= i < n ==> host_named(aliases, named, root, n).dom().contains(
                (#[trigger] named[i]).local@,
            ) && host_named(aliases, named, root, n)[named[i].local@] == root + "::"@
                + named[i].imported@,
        forall|x: Seq<char>|
            !is_local(named, x) ==> (#[trigger] host_named(aliases, named, root, n).dom().contains(x)
                <==> aliases.dom().contains(x)) && (aliases.dom().contains(x) ==> host_named(
                aliases,
                named,
                root,
                n,
            )[x] == aliases[x]),
    decreases n,
{
    if n > 0 {
        lemma_host_named(aliases, named, root, n - 1);
        assert(is_local(named, named[n - 1].local@));
        let before = host_named(aliases, named, root, n - 1);
        assert forall|x: Seq<char>| !is_local(named, x) implies (#[trigger] host_named(
            aliases,
            named,
            root,
            n,
        ).dom().contains(x) <==> aliases.dom().contains(x)) && (aliases.dom().contains(x)
            ==> host_named(aliases, named, root, n)[x] == aliases[x]) by {
            assert(before.dom().contains(x) <==> aliases.dom().contains(x));
        }
    }
}

/// A namespace of the host that has no module is called through the host's own namespace: as
/// a whole, under a name, or function by function.
pub proof fn law_host_imports_lead_into_the_host(
    rules: CallRules,
    import: ModuleImport,
    root: String,
)
    requires
        import.spec@ != "vm"@,
        import.clause matches ImportClause::Named(named) ==> locals_differ(named@),
    ensures
        after_import(rules, import, ImportResolution::Virtual(Some(root))) matches Ok(r) && {
            &&& r.namespaces == rules.namespaces
            &&& match import.clause {
                ImportClause::Namespace(n) => r.roots == rules.roots.insert(n@, "vm::"@ + root@)
                    && r.aliases == rules.aliases && r.requires_vm,
                ImportClause::AllPublic => match default_namespace(import.spec@) {
                    Some(n) => r.roots == rules.roots.insert(n, "vm::"@ + root@) && r.aliases
                        == rules.aliases && r.requires_vm,
                    None => r == rules,
                },
                ImportClause::Named(named) => {
                    &&& r.roots == rules.roots
                    &&& named@.len() > 0 ==> r.requires_vm
                    &&& rules.requires_vm ==> r.requires_vm
                    &&& named@.len() == 0 ==> r.requires_vm == rules.requires_vm
                    &&& forall|i: int|
                        0 <= i < named@.len() ==> r.aliases.dom().contains(
                            (#[trigger] named@[i]).local@,
                        ) && r.aliases[named@[i].local@] == "vm::"@ + root@ + "::"@
                            + named@[i].imported@
                    &&& forall|x: Seq<char>|
                        !is_local(named@, x) ==> (#[trigger] r.aliases.dom().contains(x)
                            <==> rules.aliases.dom().contains(x)) && (
                        rules.aliases.dom().contains(x) ==> r.aliases[x] == rules.aliases[x])
                },
                ImportClause::Prefix(_) => r == rules,
            }
        },
{
    match import.clause {
        ImportClause::Named(named) => {
            lemma_host_named(rules.aliases, named@, "vm::"@ + root@, named@.len() as int);
        },
        _ => {},
    }
}

/// Functions of the host's own namespace are imported under other names; nothing else about
/// that namespace changes a call, and neither does a built-in namespace.
pub proof fn law_own_namespaces_change_names_only(
    rules: CallRules,
    import: ModuleImport,
    resolution: ImportResolution,
)
    requires
        import.clause matches ImportClause::Named(named) ==> locals_differ(named@),
    ensures
        resolution is Builtin ==> after_import(rules, import, resolution) == Ok::<
            CallRules,
            Seq<char>,
        >(rules),
        import.spec@ == "vm"@ && !(resolution is Builtin) ==> (after_import(
            rules,
            import,
            resolution,
        ) matches Ok(r) && {
            &&& r.namespaces == rules.namespaces && r.roots == rules.roots && r.requires_vm
                == rules.requires_vm
            &&& !(import.clause is Named) ==> r == rules
            &&& import.clause matches ImportClause::Named(named) ==> {
                &&& forall|i: int|
                    0 <= i < named@.len() && (#[trigger] named@[i]).local@ != named@[i].imported@
                        ==> r.aliases.dom().contains(named@[i].local@)
                        && r.aliases[named@[i].local@] == named@[i].imported@
                &&& forall|x: Seq<char>|
                    !is_local(named@, x) ==> (#[trigger] r.aliases.dom().contains(x)
                        <==> rules.aliases.dom().contains(x)) && (rules.aliases.dom().contains(x)
                        ==> r.aliases[x] == rules.aliases[x])
            }
        }),
{
    match import.clause {
        ImportClause::Named(named) => {
            lemma_renamed(rules.aliases, named@, named@.len() as int);
        },
        _ => {},
    }
}

// ---------------------------------------------------------------------------
// What calls become in a text.

/// Whether a word stands at a position of a text.
pub open spec fn stands_at(src: Seq<char>, p: int, word: Seq<char>) -> bool {
    0 <= p && p + word.len() <= src.len() && src.subrange(p, p + word.len()) == word
}

/// What stands between a namespace and a function in a language.
pub open spec fn separator(flavor: SourceFlavor) -> Seq<char> {
    if flavor == SourceFlavor::RustScript {
        "::"@
    } else {
        "."@
    }
}

proof fn lemma_run_of_word(src: Seq<char>, p: int, word: Seq<char>, i: int)
    requires
        stands_at(src, p, word),
        valid_ident(word),
        0 < i <= word.len(),
        p + word.len() < src.len() ==> !ident_continue(src[p + word.len()]),
    ensures
        ident_end(src, p + i) == p + word.len(),
    decreases word.len() - i,
{
    if i < word.len() {
        assert(src[p + i] == src.subrange(p, p + word.len())[i]);
        assert(ident_continue(word[i]));
        lemma_run_of_word(src, p, word, i + 1);
    }
}

proof fn lemma_word_starts(src: Seq<char>, p: int, word: Seq<char>)
    requires
        stands_at(src, p, word),
        valid_ident(word),
    ensures
        ident_start(src[p]),
        p < src.len(),
{
    assert(src[p] == src.subrange(p, p + word.len())[0]);
}

proof fn lemma_separators(flavor: SourceFlavor)
    ensures
        separator(SourceFlavor::RustScript) == seq![':', ':'],
        flavor != SourceFlavor::RustScript ==> separator(flavor) == seq!['.'],
{
    reveal_strlit("::");
    reveal_strlit(".");
    assert("::"@ =~= seq![':', ':']);
    assert("."@ =~= seq!['.']);
}

/// A separator at a position leads behind itself.
proof fn lemma_separator_there(flavor: SourceFlavor, src: Seq<char>, p: int)
    requires
        stands_at(src, p, separator(flavor)),
    ensures
        separator_end(flavor, src, p) == Some(p + separator(flavor).len()),
        !ident_continue(src[p]),
        !inline_space(src[p]),
        p < src.len(),
        space_end(src, p) == p,
{
    lemma_separators(flavor);
    let sep = separator(flavor);
    assert(src[p] == src.subrange(p, p + sep.len())[0]);
    if flavor == SourceFlavor::RustScript {
        assert(src[p + 1] == src.subrange(p, p + sep.len())[1]);
        assert(space_end(src, p + 1) == p + 1);
    }
}

/// A call of a function through an imported namespace becomes a call of the function itself:
/// the namespace and the separator are taken out, and the rest of the text goes on from there.
pub proof fn law_calls_through_a_namespace_become_plain(
    flavor: SourceFlavor,
    aliases: Map<Seq<char>, Seq<char>>,
    namespaces: Map<Seq<char>, Set<Seq<char>>>,
    wildcards: Set<Seq<char>>,
    prefixes: Seq<Seq<char>>,
    src: Seq<char>,
    p: int,
    namespace: Seq<char>,
    function: Seq<char>,
)
    requires
        valid_ident(namespace),
        valid_ident(function),
        stands_at(src, p, namespace),
        stands_at(src, p + namespace.len(), separator(flavor)),
        stands_at(src, p + namespace.len() + separator(flavor).len(), function),
        stands_at(
            src,
            p + namespace.len() + separator(flavor).len() + function.len(),
            seq!['('],
        ),
        wildcards.contains(namespace) || (namespaces.dom().contains(namespace)
            && namespaces[namespace].contains(function)),
    ensures
        ({
            let rules = RuleSet::Calls { flavor, aliases, namespaces, wildcards, prefixes };
            rewritten(rules, src, p, Mode::Code) == function + rewritten(
                rules,
                src,
                p + namespace.len() + separator(flavor).len() + function.len(),
                Mode::Code,
            )
        }),
{
    let rules = RuleSet::Calls { flavor, aliases, namespaces, wildcards, prefixes };
    let sep = separator(flavor);
    let a = p + namespace.len();
    let b = a + sep.len();
    let e = b + function.len();
    lemma_separator_there(flavor, src, a);
    lemma_word_starts(src, p, namespace);
    lemma_word_starts(src, b, function);
    assert(src[e] == src.subrange(e, e + 1)[0]);
    lemma_run_of_word(src, p, namespace, 1);
    lemma_run_of_word(src, b, function, 1);
    assert(space_end(src, b) == b);
    assert(space_end(src, e) == e);
    assert(called_member(flavor, src, a) == Some((function, e)));
    assert(rewritten_word(rules, src, p, a) == (function, e));
}

/// A call by a name that an import gave becomes a call of what the name leads to.
pub proof fn law_calls_by_another_name_become_what_it_leads_to(
    flavor: SourceFlavor,
    aliases: Map<Seq<char>, Seq<char>>,
    namespaces: Map<Seq<char>, Set<Seq<char>>>,
    prefixes: Seq<Seq<char>>,
    src: Seq<char>,
    p: int,
    name: Seq<char>,
)
    requires
        valid_ident(name),
        stands_at(src, p, name),
        stands_at(src, p + name.len(), seq!['(']),
        aliases.dom().contains(name),
    ensures
        ({
            let rules = RuleSet::Calls {
                flavor,
                aliases,
                namespaces,
                wildcards: Set::empty(),
                prefixes,
            };
            rewritten(rules, src, p, Mode::Code) == aliases[name] + rewritten(
                rules,
                src,
                p + name.len(),
                Mode::Code,
            )
        }),
{
    let rules = RuleSet::Calls { flavor, aliases, namespaces, wildcards: Set::empty(), prefixes };
    let e = p + name.len();
    assert(src[e] == src.subrange(e, e + 1)[0]);
    lemma_word_starts(src, p, name);
    lemma_run_of_word(src, p, name, 1);
    assert(space_end(src, e) == e);
    assert(called_member(flavor, src, e) is None);
    assert(rewritten_word(rules, src, p, e) == (aliases[name], e));
}

/// A namespace of the host before a call is written as the path that it stands for.
pub proof fn law_host_namespaces_become_their_paths(
    flavor: SourceFlavor,
    roots: Map<Seq<char>, Seq<char>>,
    src: Seq<char>,
    p: int,
    namespace: Seq<char>,
    function: Seq<char>,
)
    requires
        valid_ident(namespace),
        valid_ident(function),
        stands_at(src, p, namespace),
        stands_at(src, p + namespace.len(), separator(flavor)),
        stands_at(src, p + namespace.len() + separator(flavor).len(), function),
        stands_at(
            src,
            p + namespace.len() + separator(flavor).len() + function.len(),
            seq!['('],
        ),
        roots.dom().contains(namespace),
    ensures
        ({
            let rules = RuleSet::Host { flavor, roots };
            rewritten(rules, src, p, Mode::Code) == roots[namespace] + rewritten(
                rules,
                src,
                p + namespace.len(),
                Mode::Code,
            )
        }),
{
    let sep = separator(flavor);
    let a = p + namespace.len();
    let b = a + sep.len();
    let e = b + function.len();
    lemma_separator_there(flavor, src, a);
    lemma_word_starts(src, p, namespace);
    lemma_word_starts(src, b, function);
    assert(src[e] == src.subrange(e, e + 1)[0]);
    lemma_run_of_word(src, p, namespace, 1);
    lemma_run_of_word(src, b, function, 1);
    assert(space_end(src, b) == b);
    assert(space_end(src, e) == e);
    assert(path_is_called(flavor, src, b));
}

/// A word that no rule is for is written as it is.
pub proof fn law_other_words_stay(
    flavor: SourceFlavor,
    aliases: Map<Seq<char>, Seq<char>>,
    namespaces: Map<Seq<char>, Set<Seq<char>>>,
    roots: Map<Seq<char>, Seq<char>>,
    src: Seq<char>,
    p: int,
    name: Seq<char>,
)
    requires
        valid_ident(name),
        stands_at(src, p, name),
        p + name.len() < src.len() ==> !ident_continue(src[p + name.len()]),
        !aliases.dom().contains(name),
        !namespaces.dom().contains(name),
        !roots.dom().contains(name),
    ensures
        ({
            let rules = RuleSet::Calls {
                flavor,
                aliases,
                namespaces,
                wildcards: Set::empty(),
                prefixes: Seq::empty(),
            };
            rewritten(rules, src, p, Mode::Code) == name + rewritten(
                rules,
                src,
                p + name.len(),
                Mode::Code,
            )
        }),
        ({
            let rules = RuleSet::Host { flavor, roots };
            rewritten(rules, src, p, Mode::Code) == name + rewritten(
                rules,
                src,
                p + name.len(),
                Mode::Code,
            )
        }),
{
    lemma_word_starts(src, p, name);
    lemma_run_of_word(src, p, name, 1);
}

/// Signs and spaces in code are written as they are, one by one. A quote opens a text, and two
/// slashes or a slash and a star a comment; in a text or a comment nothing is taken for a call.
pub proof fn law_signs_stay(rules: RuleSet, src: Seq<char>, p: int, delimiter: char)
    requires
        0 <= p < src.len(),
        src[p] as u32 <= 0x7F,
    ensures
        !ident_start(src[p]) && src[p] != '/' && src[p] != '"' && src[p] != '\'' && src[p] != '`'
            ==> rewritten(rules, src, p, Mode::Code) == seq![src[p]] + rewritten(
            rules,
            src,
            p + 1,
            Mode::Code,
        ),
        src[p] == '"' || src[p] == '\'' || src[p] == '`' ==> rewritten(rules, src, p, Mode::Code)
            == seq![src[p]] + rewritten(
            rules,
            src,
            p + 1,
            Mode::Text { delimiter: src[p], escaped: false },
        ),
        src[p] == '/' && p + 1 < src.len() && src[p + 1] == '/' ==> rewritten(
            rules,
            src,
            p,
            Mode::Code,
        ) == seq!['/', '/'] + rewritten(rules, src, p + 2, Mode::LineComment),
        src[p] == '/' && p + 1 < src.len() && src[p + 1] == '*' ==> rewritten(
            rules,
            src,
            p,
            Mode::Code,
        ) == seq!['/', '*'] + rewritten(rules, src, p + 2, Mode::BlockComment),
        rewritten(rules, src, p, Mode::LineComment) == seq![src[p]] + rewritten(
            rules,
            src,
            p + 1,
            if src[p] == '\n' {
                Mode::Code
            } else {
                Mode::LineComment
            },
        ),
        !(src[p] == '*' && p + 1 < src.len() && src[p + 1] == '/') ==> rewritten(
            rules,
            src,
            p,
            Mode::BlockComment,
        ) == seq![src[p]] + rewritten(rules, src, p + 1, Mode::BlockComment),
        src[p] == '*' && p + 1 < src.len() && src[p + 1] == '/' ==> rewritten(
            rules,
            src,
            p,
            Mode::BlockComment,
        ) == seq!['*', '/'] + rewritten(rules, src, p + 2, Mode::Code),
        rewritten(rules, src, p, Mode::Text { delimiter, escaped: true }) == seq![src[p]]
            + rewritten(rules, src, p + 1, Mode::Text { delimiter, escaped: false }),
        rewritten(rules, src, p, Mode::Text { delimiter, escaped: false }) == seq![src[p]]
            + rewritten(
            rules,
            src,
            p + 1,
            if src[p] == '\\' {
                Mode::Text { delimiter, escaped: true }
            } else if src[p] == delimiter {
                Mode::Code
            } else {
                Mode::Text { delimiter, escaped: false }
            },
        ),
{
    ascii_is_one_byte(src[p]);
    ascii_is_one_byte('/');
    ascii_is_one_byte('*');
    assert(seq!['/'] + seq!['/'] =~= seq!['/', '/']);
    assert(seq!['/'] + seq!['*'] =~= seq!['/', '*']);
    assert(seq!['*'] + seq!['/'] =~= seq!['*', '/']);
}

/// In a text that starts with a call through a namespace, after an import of a module under
/// that namespace: the call is of the function itself.
pub proof fn law_an_imported_namespace_is_taken_out_of_the_text(
    flavor: SourceFlavor,
    import: ModuleImport,
    namespace: String,
    exports: Vec<ExportedFunction>,
    function: Seq<char>,
    rest: Seq<char>,
)
    requires
        flavor != SourceFlavor::Scheme,
        import.spec@ != "vm"@,
        import.clause == ImportClause::Namespace(namespace),
        valid_ident(namespace@),
        valid_ident(function),
        exports_name(exports@, function),
        rest.len() > 0,
        rest[0] == '(',
    ensures
        after_import(CallRules::none(), import, ImportResolution::Loaded(exports)) matches Ok(r)
            && exists|after: Seq<char>|
            rewritten_source(flavor, r, namespace@ + separator(flavor) + function + rest)
                == #[trigger] (function + after),
{
    law_namespace_imports_open_the_namespace(CallRules::none(), import, namespace, exports);
    let r = after_import(CallRules::none(), import, ImportResolution::Loaded(exports))->Ok_0;
    let sep = separator(flavor);
    let src = namespace@ + sep + function + rest;
    let a = namespace@.len() as int;
    let b = a + sep.len();
    let e = b + function.len();
    assert(src.subrange(0, a) =~= namespace@);
    assert(src.subrange(a, b) =~= sep);
    assert(src.subrange(b, e) =~= function);
    assert(src.subrange(e, e + 1) =~= seq!['(']);
    assert(r.namespaces.dom().contains(namespace@));
    assert(r.namespaces[namespace@].contains(function));
    assert(r.namespaces != Map::<Seq<char>, Set<Seq<char>>>::empty());
    law_calls_through_a_namespace_become_plain(
        flavor,
        r.aliases,
        r.namespaces,
        Set::empty(),
        Seq::empty(),
        src,
        0,
        namespace@,
        function,
    );
    let rules = RuleSet::Calls {
        flavor,
        aliases: r.aliases,
        namespaces: r.namespaces,
        wildcards: Set::empty(),
        prefixes: Seq::empty(),
    };
    let after = rewritten(rules, src, e, Mode::Code);
    assert(rewritten_source(flavor, r, src) == function + after);
}

// ---------------------------------------------------------------------------
// What is declared.

/// Whether every declaration of some functions is there in others, with no fewer parameters.
pub open spec fn keeps_declared(before: Declared, after: Declared) -> bool {
    forall|x: Seq<char>| #[trigger]
        before.dom().contains(x) ==> after.dom().contains(x) && after[x].arity >= before[x].arity
            && (before[x].type_params.len() > 0 ==> after[x].type_params
            == before[x].type_params)
}

/// Whether a function is declared, with enough parameters and its type parameters.
pub open spec fn is_declared(d: Declared, f: ExportedFunction) -> bool {
    d.dom().contains(f.name@) && d[f.name@].arity >= f.arity && (f.type_params@.len() > 0
        ==> d[f.name@].type_params == f.signature().type_params)
}

proof fn lemma_with_function(d: Declared, f: ExportedFunction)
    ensures
        with_function(d, f) matches Ok(r) ==> keeps_declared(d, r) && is_declared(r, f) && r.dom()
            == d.dom().insert(f.name@) && (d.dom().contains(f.name@) ==> r[f.name@].arity
            == d[f.name@].arity || r[f.name@].arity == f.arity) && (!d.dom().contains(f.name@)
            ==> r[f.name@].arity == f.arity && r[f.name@].type_params
            == f.signature().type_params),
{
    if with_function(d, f) is Ok {
        assert(with_function(d, f)->Ok_0.dom() =~= d.dom().insert(f.name@));
    }
}

/// Every function of a module that is imported as a whole, under a namespace or a prefix is
/// declared, and nothing that was declared is lost; no other name is declared.
pub proof fn law_whole_modules_are_declared(
    d: Declared,
    import: ModuleImport,
    exports: Vec<ExportedFunction>,
)
    requires
        !(import.clause is Named),
    ensures
        with_import(d, import, ImportResolution::Loaded(exports)) matches Ok(r) ==> {
            &&& keeps_declared(d, r)
            &&& forall|i: int| 0 <= i < exports@.len() ==> is_declared(r, #[trigger] exports@[i])
            &&& forall|x: Seq<char>| #[trigger]
                r.dom().contains(x) ==> d.dom().contains(x) || exports_name(exports@, x)
        },
{
    lemma_with_exports(d, exports@, 0);
}

proof fn lemma_with_exports(d: Declared, exports: Seq<ExportedFunction>, i: int)
    requires
        0 <= i <= exports.len(),
    ensures
        with_exports(d, exports, i) matches Ok(r) ==> {
            &&& keeps_declared(d, r)
            &&& forall|k: int| i <= k < exports.len() ==> is_declared(r, #[trigger] exports[k])
            &&& forall|x: Seq<char>| #[trigger]
                r.dom().contains(x) ==> d.dom().contains(x) || exports_name(exports, x)
        },
    decreases exports.len() - i,
{
    if i < exports.len() {
        lemma_with_function(d, exports[i]);
        match with_function(d, exports[i]) {
            Ok(next) => {
                lemma_with_exports(next, exports, i + 1);
                if with_exports(next, exports, i + 1) is Ok {
                    let r = with_exports(next, exports, i + 1)->Ok_0;
                    assert(next.dom().contains(exports[i].name@));
                    assert forall|x: Seq<char>| #[trigger] d.dom().contains(x) implies r.dom().contains(
                        x,
                    ) && r[x].arity >= d[x].arity && (d[x].type_params.len() > 0
                        ==> r[x].type_params == d[x].type_params) by {
                        assert(next.dom().contains(x));
                    }
                    assert(is_declared(r, exports[i]));
                    assert forall|x: Seq<char>| #[trigger] r.dom().contains(x) implies d.dom().contains(
                        x,
                    ) || exports_name(exports, x) by {
                        if !exports_name(exports, x) {
                            assert(exports[i].name@ != x);
                            assert(next.dom().contains(x));
                        }
                    }
                }
            },
            Err(_) => {},
        }
    }
}

/// Every function that is imported by its name is declared under the name that its module
/// gives it, and nothing else is.
pub proof fn law_named_functions_are_declared(
    d: Declared,
    import: ModuleImport,
    named: Vec<NamedImport>,
    exports: Vec<ExportedFunction>,
)
    requires
        import.clause == ImportClause::Named(named),
    ensures
        with_import(d, import, ImportResolution::Loaded(exports)) matches Ok(r) ==> {
            &&& keeps_declared(d, r)
            &&& forall|i: int|
                0 <= i < named@.len() ==> exports_name(
                    exports@,
                    (#[trigger] named@[i]).imported@,
                ) && r.dom().contains(named@[i].imported@)
            &&& forall|x: Seq<char>| #[trigger]
                r.dom().contains(x) ==> d.dom().contains(x) || exists|i: int|
                    0 <= i < named@.len() && (#[trigger] named@[i]).imported@ == x
        },
{
    lemma_with_named(d, import.spec@, named@, exports@, 0);
}

proof fn lemma_export_position(exports: Seq<ExportedFunction>, name: Seq<char>, i: int)
    requires
        0 <= i <= exports.len(),
    ensures
        i <= export_position(exports, name, i) <= exports.len(),
        export_position(exports, name, i) < exports.len() ==> exports[export_position(
            exports,
            name,
            i,
        )].name@ == name,
    decreases exports.len() - i,
{
    if i < exports.len() && exports[i].name@ != name {
        lemma_export_position(exports, name, i + 1);
    }
}

proof fn lemma_with_named(
    d: Declared,
    spec_text: Seq<char>,
    named: Seq<NamedImport>,
    exports: Seq<ExportedFunction>,
    i: int,
)
    requires
        0 <= i <= named.len(),
    ensures
        with_named(d, spec_text, named, exports, i) matches Ok(r) ==> {
            &&& keeps_declared(d, r)
            &&& forall|k: int|
                i <= k < named.len() ==> exports_name(exports, (#[trigger] named[k]).imported@)
                    && r.dom().contains(named[k].imported@)
            &&& forall|x: Seq<char>| #[trigger]
                r.dom().contains(x) ==> d.dom().contains(x) || exists|k: int|
                    i <= k < named.len() && (#[trigger] named[k]).imported@ == x
        },
    decreases named.len() - i,
{
    if i < named.len() {
        let at = export_position(exports, named[i].imported@, 0);
        lemma_export_position(exports, named[i].imported@, 0);
        if at < exports.len() {
            lemma_with_function(d, exports[at]);
            match with_function(d, exports[at]) {
                Ok(next) => {
                    lemma_with_named(next, spec_text, named, exports, i + 1);
                    if with_named(next, spec_text, named, exports, i + 1) is Ok {
                        let r = with_named(next, spec_text, named, exports, i + 1)->Ok_0;
                        assert(exports[at].name@ == named[i].imported@);
                        assert(next.dom().contains(exports[at].name@));
                        assert forall|x: Seq<char>| #[trigger]
                            d.dom().contains(x) implies r.dom().contains(x) && r[x].arity
                            >= d[x].arity && (d[x].type_params.len() > 0 ==> r[x].type_params
                            == d[x].type_params) by {
                            assert(next.dom().contains(x));
                        }
                        assert forall|x: Seq<char>| #[trigger]
                            r.dom().contains(x) implies d.dom().contains(x) || exists|k: int|
                            i <= k < named.len() && (#[trigger] named[k]).imported@ == x by {
                            if !d.dom().contains(x) && named[i].imported@ != x {
                                assert(!next.dom().contains(x));
                                let k = choose|k: int|
                                    i + 1 <= k < named.len() && (#[trigger] named[k]).imported@
                                        == x;
                                assert(named[k].imported@ == x);
                            } else if named[i].imported@ == x {
                                assert(named[i].imported@ == x);
                            }
                        }
                    }
                },
                Err(_) => {},
            }
        }
    }
}

/// An import of a module that was not loaded is refused; a built-in namespace, one of the host
/// and what is no module declare nothing.
pub proof fn law_only_loaded_modules_declare(
    d: Declared,
    import: ModuleImport,
    resolution: ImportResolution,
)
    ensures
        resolution is Missing ==> with_import(d, import, resolution) == Err::<Declared, Seq<char>>(
            "module '"@ + import.spec@ + "' did not load"@,
        ),
        resolution is Builtin || resolution is NotAModule || resolution is Virtual ==> with_import(
            d,
            import,
            resolution,
        ) == Ok::<Declared, Seq<char>>(d),
{
}

/// A declaration is a line of the language: the name, its type parameters if it has any, and
/// as many parameters as it takes, by number.
pub proof fn law_declarations_read_as_functions(f: ExportedFunction, n: int)
    ensures
        f.type_params@.len() == 0 ==> declaration(f) == "pub fn "@ + f.name@ + "("@ + arg_list(
            f.arity as int,
        ) + ");\n"@,
        f.type_params@.len() == 1 ==> declaration(f) == "pub fn "@ + f.name@ + ("<"@
            + f.type_params@[0]@ + ">"@) + "("@ + arg_list(f.arity as int) + ");\n"@,
        arg_list(0) == Seq::<char>::empty(),
        arg_list(1) == "arg"@ + decimal(0),
        n >= 1 ==> arg_list(n + 1) == arg_list(n) + ", "@ + ("arg"@ + decimal(n as nat)),
{
    assert("pub fn "@ + f.name@ + Seq::<char>::empty() =~= "pub fn "@ + f.name@);
}

} // verus!
