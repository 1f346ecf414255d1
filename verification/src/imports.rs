//! Imports of a source file, and what they make of its calls.

use vstd::prelude::*;
use crate::errors::SourcePathError;
use crate::options::SourceFlavor;
use crate::paths::{file_stem, file_stem_of};
use crate::rewrite::{
    list_texts, rewrite_function_call_paths, rewrite_host_namespace_call_paths,
    rewrite_scheme_call_heads, rewritten, rewritten_scheme, sets_in, texts_in, Mode, RuleSet,
    SchemeMode, SchemeRules,
};
use crate::tables::{StrMap, StrSet};
use crate::text::{is_valid_ident, same_text, valid_ident};

verus! {

/// A function imported under a name of its own.
#[derive(Debug)]
pub struct NamedImport {
    pub imported: String,
    pub local: String,
}

/// What an import brings in, and how it is called.
#[derive(Debug)]
pub enum ImportClause {
    AllPublic,
    Named(Vec<NamedImport>),
    Namespace(String),
    Prefix(String),
}

/// An import.
#[derive(Debug)]
pub struct ModuleImport {
    pub spec: String,
    pub clause: ImportClause,
    pub line: usize,
}

/// A function that a module exports.
#[derive(Debug)]
pub struct ExportedFunction {
    pub name: String,
    pub arity: u8,
    pub type_params: Vec<String>,
}

/// What an import was found to name.
#[derive(Debug)]
pub enum ImportResolution {
    /// A namespace that is built in.
    Builtin,
    /// Something that is no module.
    NotAModule,
    /// A module that was loaded, with its exports.
    Loaded(Vec<ExportedFunction>),
    /// A namespace of the host without a module, under its root if it has one.
    Virtual(Option<String>),
    /// A module that was not loaded.
    Missing,
}

/// A source with its calls rewritten.
#[derive(Debug)]
pub struct ImportRewriteResult {
    pub source: String,
    pub requires_vm_namespace: bool,
}

/// The namespace of the host itself.
pub open spec fn vm_spec() -> Seq<char> {
    "vm"@
}

/// The namespace that a module has by its file name, where that is an identifier.
pub open spec fn default_namespace(spec_text: Seq<char>) -> Option<Seq<char>> {
    match file_stem_of(spec_text) {
        Some(stem) => if valid_ident(stem) {
            Some(stem)
        } else {
            None
        },
        None => None,
    }
}

pub fn module_default_namespace(import_spec: &str) -> (r: Option<String>)
    ensures
        r is Some <==> default_namespace(import_spec@) is Some,
        r matches Some(name) ==> default_namespace(import_spec@) == Some(name@),
{
    match file_stem(import_spec) {
        Some(stem) => if is_valid_ident(stem.as_str()) {
            Some(stem)
        } else {
            None
        },
        None => None,
    }
}

// ---------------------------------------------------------------------------
// What imports make of calls.

/// How calls are rewritten.
pub struct CallRules {
    pub aliases: Map<Seq<char>, Seq<char>>,
    pub namespaces: Map<Seq<char>, Set<Seq<char>>>,
    pub roots: Map<Seq<char>, Seq<char>>,
    pub requires_vm: bool,
}

impl CallRules {
    pub open spec fn none() -> CallRules {
        CallRules {
            aliases: Map::empty(),
            namespaces: Map::empty(),
            roots: Map::empty(),
            requires_vm: false,
        }
    }
}

/// Whether a module exports a function.
pub open spec fn exports_name(exports: Seq<ExportedFunction>, name: Seq<char>) -> bool {
    exists|i: int| 0 <= i < exports.len() && (#[trigger] exports[i]).name@ == name
}

/// The names of a namespace so far.
pub open spec fn namespace_names(
    namespaces: Map<Seq<char>, Set<Seq<char>>>,
    namespace: Seq<char>,
) -> Set<Seq<char>> {
    if namespaces.dom().contains(namespace) {
        namespaces[namespace]
    } else {
        Set::empty()
    }
}

/// A namespace with the exports of a module added, up to position `n`.
pub open spec fn extended_namespace(
    names: Set<Seq<char>>,
    exports: Seq<ExportedFunction>,
    n: int,
) -> Set<Seq<char>>
    decreases n,
{
    if n <= 0 {
        names
    } else {
        extended_namespace(names, exports, n - 1).insert(exports[n - 1].name@)
    }
}

/// Rules with the exports of a module in a namespace.
pub open spec fn with_namespace(
    rules: CallRules,
    namespace: Seq<char>,
    exports: Seq<ExportedFunction>,
) -> CallRules {
    CallRules {
        namespaces: rules.namespaces.insert(
            namespace,
            extended_namespace(
                namespace_names(rules.namespaces, namespace),
                exports,
                exports.len() as int,
            ),
        ),
        ..rules
    }
}

/// Aliases with those of the names that are imported under another one, up to
/// position `n`.
pub open spec fn renamed(
    aliases: Map<Seq<char>, Seq<char>>,
    named: Seq<NamedImport>,
    n: int,
) -> Map<Seq<char>, Seq<char>>
    decreases n,
{
    if n <= 0 {
        aliases
    } else {
        let before = renamed(aliases, named, n - 1);
        if named[n - 1].local@ != named[n - 1].imported@ {
            before.insert(named[n - 1].local@, named[n - 1].imported@)
        } else {
            before
        }
    }
}

/// Aliases with names that lead into a namespace of the host, up to position `n`.
pub open spec fn host_named(
    aliases: Map<Seq<char>, Seq<char>>,
    named: Seq<NamedImport>,
    root: Seq<char>,
    n: int,
) -> Map<Seq<char>, Seq<char>>
    decreases n,
{
    if n <= 0 {
        aliases
    } else {
        host_named(aliases, named, root, n - 1).insert(
            named[n - 1].local@,
            root + "::"@ + named[n - 1].imported@,
        )
    }
}

/// Aliases with the exports of a module under a prefix, up to position `n`.
pub open spec fn prefixed(
    aliases: Map<Seq<char>, Seq<char>>,
    prefix: Seq<char>,
    exports: Seq<ExportedFunction>,
    n: int,
) -> Map<Seq<char>, Seq<char>>
    decreases n,
{
    if n <= 0 {
        aliases
    } else {
        prefixed(aliases, prefix, exports, n - 1).insert(
            prefix + exports[n - 1].name@,
            exports[n - 1].name@,
        )
    }
}

/// The path of a namespace of the host.
pub open spec fn vm_root(root: Seq<char>) -> Seq<char> {
    "vm::"@ + root
}

/// Rules after an import of a namespace of the host that has no module.
pub open spec fn after_virtual(
    rules: CallRules,
    import: ModuleImport,
    root: Seq<char>,
) -> CallRules {
    match import.clause {
        ImportClause::AllPublic => match default_namespace(import.spec@) {
            Some(namespace) => CallRules {
                roots: rules.roots.insert(namespace, vm_root(root)),
                requires_vm: true,
                ..rules
            },
            None => rules,
        },
        ImportClause::Named(named) => CallRules {
            aliases: host_named(rules.aliases, named@, vm_root(root), named@.len() as int),
            requires_vm: rules.requires_vm || named@.len() > 0,
            ..rules
        },
        ImportClause::Namespace(namespace) => CallRules {
            roots: rules.roots.insert(namespace@, vm_root(root)),
            requires_vm: true,
            ..rules
        },
        ImportClause::Prefix(_) => rules,
    }
}

/// The message on an import of a function that a module does not export.
pub open spec fn no_function_message(spec_text: Seq<char>, name: Seq<char>) -> Seq<char> {
    "module '"@ + spec_text + "' has no public function '"@ + name + "'"@
}

/// The first name from position `i` on that a module does not export.
pub open spec fn missing_from(
    named: Seq<NamedImport>,
    exports: Seq<ExportedFunction>,
    i: int,
) -> Option<Seq<char>>
    decreases named.len() - i,
{
    if i < 0 || i >= named.len() {
        None
    } else if !exports_name(exports, named[i].imported@) {
        Some(named[i].imported@)
    } else {
        missing_from(named, exports, i + 1)
    }
}

/// Rules after an import of a module: a message where it lacks a function.
pub open spec fn after_loaded(
    rules: CallRules,
    import: ModuleImport,
    exports: Seq<ExportedFunction>,
) -> Result<CallRules, Seq<char>> {
    match import.clause {
        ImportClause::AllPublic => match default_namespace(import.spec@) {
            Some(namespace) => Ok(with_namespace(rules, namespace, exports)),
            None => Ok(rules),
        },
        ImportClause::Named(named) => match missing_from(named@, exports, 0) {
            Some(name) => Err(no_function_message(import.spec@, name)),
            None => Ok(
                CallRules {
                    aliases: renamed(rules.aliases, named@, named@.len() as int),
                    ..rules
                },
            ),
        },
        ImportClause::Namespace(namespace) => Ok(with_namespace(rules, namespace@, exports)),
        ImportClause::Prefix(prefix) => Ok(
            CallRules {
                aliases: prefixed(rules.aliases, prefix@, exports, exports.len() as int),
                ..rules
            },
        ),
    }
}

/// Rules after an import.
pub open spec fn after_import(
    rules: CallRules,
    import: ModuleImport,
    resolution: ImportResolution,
) -> Result<CallRules, Seq<char>> {
    if resolution is Builtin {
        Ok(rules)
    } else if import.spec@ == vm_spec() {
        match import.clause {
            ImportClause::Named(named) => Ok(
                CallRules {
                    aliases: renamed(rules.aliases, named@, named@.len() as int),
                    ..rules
                },
            ),
            _ => Ok(rules),
        }
    } else {
        match resolution {
            ImportResolution::Loaded(exports) => after_loaded(rules, import, exports@),
            ImportResolution::Virtual(Some(root)) => Ok(after_virtual(rules, import, root@)),
            _ => Ok(rules),
        }
    }
}

/// Rules after the imports from position `i` on: an error with its line where one of
/// them fails.
pub open spec fn rules_from(
    rules: CallRules,
    imports: Seq<ModuleImport>,
    resolutions: Seq<ImportResolution>,
    i: int,
) -> Result<CallRules, (usize, Seq<char>)>
    decreases imports.len() - i,
{
    if i < 0 || i >= imports.len() {
        Ok(rules)
    } else {
        match after_import(rules, imports[i], resolutions[i]) {
            Ok(next) => rules_from(next, imports, resolutions, i + 1),
            Err(message) => Err((imports[i].line, message)),
        }
    }
}

/// A source text with the calls of its imports rewritten.
pub open spec fn rewritten_source(flavor: SourceFlavor, rules: CallRules, source: Seq<char>) -> Seq<
    char,
> {
    let host = if rules.roots == Map::<Seq<char>, Seq<char>>::empty() {
        source
    } else {
        rewritten(RuleSet::Host { flavor, roots: rules.roots }, source, 0, Mode::Code)
    };
    if rules.aliases == Map::<Seq<char>, Seq<char>>::empty() && rules.namespaces == Map::<
        Seq<char>,
        Set<Seq<char>>,
    >::empty() {
        host
    } else if flavor == SourceFlavor::Scheme {
        rewritten_scheme(
            SchemeRules {
                aliases: rules.aliases,
                namespaces: rules.namespaces,
                wildcards: Set::empty(),
                prefixes: Seq::empty(),
            },
            host,
            0,
            SchemeMode::Code,
        )
    } else {
        rewritten(
            RuleSet::Calls {
                flavor,
                aliases: rules.aliases,
                namespaces: rules.namespaces,
                wildcards: Set::empty(),
                prefixes: Seq::empty(),
            },
            host,
            0,
            Mode::Code,
        )
    }
}

/// A source without imports is left as it is.
pub proof fn law_no_imports_no_change(flavor: SourceFlavor, source: Seq<char>)
    ensures
        rewritten_source(flavor, CallRules::none(), source) == source,
{
}

/// The tables that calls are rewritten by.
struct CallTables {
    alias_calls: StrMap<String>,
    namespace_calls: StrMap<StrSet>,
    namespace_roots: StrMap<String>,
    requires_vm_namespace: bool,
}

impl CallTables {
    spec fn view(&self) -> CallRules {
        CallRules {
            aliases: texts_in(self.alias_calls@),
            namespaces: sets_in(self.namespace_calls@),
            roots: texts_in(self.namespace_roots@),
            requires_vm: self.requires_vm_namespace,
        }
    }

    fn new() -> (r: CallTables)
        ensures
            r@ == CallRules::none(),
    {
        let r = CallTables {
            alias_calls: StrMap::new(),
            namespace_calls: StrMap::new(),
            namespace_roots: StrMap::new(),
            requires_vm_namespace: false,
        };
        assert(r@.aliases =~= Map::<Seq<char>, Seq<char>>::empty());
        assert(r@.namespaces =~= Map::<Seq<char>, Set<Seq<char>>>::empty());
        assert(r@.roots =~= Map::<Seq<char>, Seq<char>>::empty());
        r
    }

    fn add_alias(&mut self, local: String, target: String)
        ensures
            final(self)@ == (CallRules {
                aliases: old(self)@.aliases.insert(local@, target@),
                ..old(self)@
            }),
    {
        self.alias_calls.insert(local, target);
        assert(self@.aliases =~= old(self)@.aliases.insert(local@, target@));
    }

    fn add_root(&mut self, namespace: String, root: String)
        ensures
            final(self)@ == (CallRules {
                roots: old(self)@.roots.insert(namespace@, root@),
                requires_vm: true,
                ..old(self)@
            }),
    {
        self.namespace_roots.insert(namespace, root);
        self.requires_vm_namespace = true;
        assert(self@.roots =~= old(self)@.roots.insert(namespace@, root@));
    }

    fn add_namespace(&mut self, namespace: String, exports: &Vec<ExportedFunction>)
        ensures
            final(self)@ == with_namespace(old(self)@, namespace@, exports@),
    {
        let mut names: StrSet = match self.namespace_calls.get(namespace.as_str()) {
            Some(set) => set.copied(),
            None => StrSet::new(),
        };
        let ghost start = names@;
        assert(start == namespace_names(self@.namespaces, namespace@));
        let mut i: usize = 0;
        while i < exports.len()
            invariant
                i <= exports@.len(),
                names@ == extended_namespace(start, exports@, i as int),
            decreases exports@.len() - i,
        {
            names.insert(exports[i].name.clone());
            i += 1;
        }
        let ghost set = names@;
        self.namespace_calls.insert(namespace, names);
        assert(self@.namespaces =~= old(self)@.namespaces.insert(namespace@, set));
    }

    fn add_renamed(&mut self, named: &Vec<NamedImport>)
        ensures
            final(self)@ == (CallRules {
                aliases: renamed(old(self)@.aliases, named@, named@.len() as int),
                ..old(self)@
            }),
    {
        let mut i: usize = 0;
        while i < named.len()
            invariant
                i <= named@.len(),
                self@ == (CallRules {
                    aliases: renamed(old(self)@.aliases, named@, i as int),
                    ..old(self)@
                }),
            decreases named@.len() - i,
        {
            if !same_text(named[i].local.as_str(), named[i].imported.as_str()) {
                self.add_alias(named[i].local.clone(), named[i].imported.clone());
            }
            i += 1;
        }
    }

    fn add_virtual(&mut self, import: &ModuleImport, root: &str)
        ensures
            final(self)@ == after_virtual(old(self)@, *import, root@),
    {
        let mut vm_prefix = "vm::".to_string();
        vm_prefix.push_str(root);
        match &import.clause {
            ImportClause::AllPublic => match module_default_namespace(import.spec.as_str()) {
                Some(namespace) => self.add_root(namespace, vm_prefix),
                None => {},
            },
            ImportClause::Named(named) => {
                let mut i: usize = 0;
                while i < named.len()
                    invariant
                        i <= named@.len(),
                        vm_prefix@ == vm_root(root@),
                        self@ == (CallRules {
                            aliases: host_named(
                                old(self)@.aliases,
                                named@,
                                vm_root(root@),
                                i as int,
                            ),
                            ..old(self)@
                        }),
                    decreases named@.len() - i,
                {
                    let mut target = vm_prefix.clone();
                    target.push_str("::");
                    target.push_str(named[i].imported.as_str());
                    self.add_alias(named[i].local.clone(), target);
                    i += 1;
                }
                if named.len() > 0 {
                    self.requires_vm_namespace = true;
                }
            },
            ImportClause::Namespace(namespace) => self.add_root(namespace.clone(), vm_prefix),
            ImportClause::Prefix(_) => {},
        }
    }

    fn add_loaded(&mut self, import: &ModuleImport, exports: &Vec<ExportedFunction>) -> (r: Result<
        (),
        String,
    >)
        ensures
            match after_loaded(old(self)@, *import, exports@) {
                Ok(rules) => r is Ok && final(self)@ == rules,
                Err(message) => r is Err && r->Err_0@ == message,
            },
    {
        match &import.clause {
            ImportClause::AllPublic => {
                match module_default_namespace(import.spec.as_str()) {
                    Some(namespace) => self.add_namespace(namespace, exports),
                    None => {},
                }
                Ok(())
            },
            ImportClause::Named(named) => {
                let mut i: usize = 0;
                while i < named.len()
                    invariant
                        i <= named@.len(),
                        import.clause == ImportClause::Named(*named),
                        self@ == old(self)@,
                        missing_from(named@, exports@, 0) == missing_from(
                            named@,
                            exports@,
                            i as int,
                        ),
                    decreases named@.len() - i,
                {
                    if !has_export(exports, named[i].imported.as_str()) {
                        return Err(
                            missing_function_text(
                                import.spec.as_str(),
                                named[i].imported.as_str(),
                            ),
                        );
                    }
                    i += 1;
                }
                self.add_renamed(named);
                Ok(())
            },
            ImportClause::Namespace(namespace) => {
                self.add_namespace(namespace.clone(), exports);
                Ok(())
            },
            ImportClause::Prefix(prefix) => {
                let mut i: usize = 0;
                while i < exports.len()
                    invariant
                        i <= exports@.len(),
                        self@ == (CallRules {
                            aliases: prefixed(old(self)@.aliases, prefix@, exports@, i as int),
                            ..old(self)@
                        }),
                    decreases exports@.len() - i,
                {
                    let mut local = prefix.clone();
                    local.push_str(exports[i].name.as_str());
                    self.add_alias(local, exports[i].name.clone());
                    i += 1;
                }
                Ok(())
            },
        }
    }

    fn add_import(&mut self, import: &ModuleImport, resolution: &ImportResolution) -> (r: Result<
        (),
        String,
    >)
        ensures
            match after_import(old(self)@, *import, *resolution) {
                Ok(rules) => r is Ok && final(self)@ == rules,
                Err(message) => r is Err && r->Err_0@ == message,
            },
    {
        match resolution {
            ImportResolution::Builtin => {
                return Ok(());
            },
            _ => {},
        }
        if same_text(import.spec.as_str(), "vm") {
            match &import.clause {
                ImportClause::Named(named) => self.add_renamed(named),
                _ => {},
            }
            return Ok(());
        }
        match resolution {
            ImportResolution::Loaded(exports) => self.add_loaded(import, exports),
            ImportResolution::Virtual(Some(root)) => {
                self.add_virtual(import, root.as_str());
                Ok(())
            },
            _ => Ok(()),
        }
    }
}

fn has_export(exports: &Vec<ExportedFunction>, name: &str) -> (r: bool)
    ensures
        r == exports_name(exports@, name@),
{
    let mut i: usize = 0;
    while i < exports.len()
        invariant
            i <= exports@.len(),
            forall|k: int| 0 <= k < i ==> (#[trigger] exports@[k]).name@ != name@,
        decreases exports@.len() - i,
    {
        if same_text(exports[i].name.as_str(), name) {
            assert(exports@[i as int].name@ == name@);
            return true;
        }
        i += 1;
    }
    false
}

fn missing_function_text(import_spec: &str, name: &str) -> (r: String)
    ensures
        r@ == no_function_message(import_spec@, name@),
{
    let mut message = "module '".to_string();
    message.push_str(import_spec);
    message.push_str("' has no public function '");
    message.push_str(name);
    message.push_str("'");
    message
}

/// Rewrites the calls of a source by its imports.
pub fn rewrite_imported_call_sites(
    source: &str,
    flavor: SourceFlavor,
    path: &str,
    imports: &Vec<ModuleImport>,
    resolutions: &Vec<ImportResolution>,
) -> (r: Result<ImportRewriteResult, SourcePathError>)
    requires
        imports@.len() == resolutions@.len(),
    ensures
        match rules_from(CallRules::none(), imports@, resolutions@, 0) {
            Ok(rules) => r is Ok && r->Ok_0.source@ == rewritten_source(flavor, rules, source@)
                && r->Ok_0.requires_vm_namespace == rules.requires_vm,
            Err((line, message)) => r is Err && r->Err_0 is InvalidImportSyntax
                && r->Err_0->InvalidImportSyntax_path@ == path@
                && r->Err_0->InvalidImportSyntax_line == line
                && r->Err_0->InvalidImportSyntax_message@ == message,
        },
{
    let mut tables = CallTables::new();
    let ghost total = rules_from(CallRules::none(), imports@, resolutions@, 0);
    let mut i: usize = 0;
    while i < imports.len()
        invariant
            i <= imports@.len(),
            imports@.len() == resolutions@.len(),
            total == rules_from(CallRules::none(), imports@, resolutions@, 0),
            total == rules_from(tables@, imports@, resolutions@, i as int),
        decreases imports@.len() - i,
    {
        match tables.add_import(&imports[i], &resolutions[i]) {
            Ok(()) => {},
            Err(message) => {
                return Err(
                    SourcePathError::InvalidImportSyntax {
                        path: path.to_string(),
                        line: imports[i].line,
                        message,
                    },
                );
            },
        }
        i += 1;
    }
    proof {
        lemma_texts_in_empty(tables.namespace_roots@);
        lemma_texts_in_empty(tables.alias_calls@);
        lemma_sets_in_empty(tables.namespace_calls@);
    }
    let host = rewrite_host_namespace_call_paths(source, flavor, &tables.namespace_roots);
    if tables.alias_calls.is_empty() && tables.namespace_calls.is_empty() {
        return Ok(
            ImportRewriteResult {
                source: host,
                requires_vm_namespace: tables.requires_vm_namespace,
            },
        );
    }
    let wildcards = StrSet::new();
    let prefixes: Vec<String> = Vec::new();
    assert(list_texts(prefixes@) =~= Seq::<Seq<char>>::empty());
    let text = if flavor == SourceFlavor::Scheme {
        rewrite_scheme_call_heads(
            host.as_str(),
            &tables.alias_calls,
            &tables.namespace_calls,
            &wildcards,
            &prefixes,
        )
    } else {
        rewrite_function_call_paths(
            host.as_str(),
            flavor,
            &tables.alias_calls,
            &tables.namespace_calls,
            &wildcards,
            &prefixes,
        )
    };
    Ok(ImportRewriteResult { source: text, requires_vm_namespace: tables.requires_vm_namespace })
}

proof fn lemma_texts_in_empty(m: Map<Seq<char>, String>)
    ensures
        texts_in(m) == Map::<Seq<char>, Seq<char>>::empty() <==> m == Map::<
            Seq<char>,
            String,
        >::empty(),
{
    if texts_in(m) == Map::<Seq<char>, Seq<char>>::empty() {
        assert forall|k: Seq<char>| !(#[trigger] m.dom().contains(k)) by {
            assert(texts_in(m).dom().contains(k) == m.dom().contains(k));
        }
        assert(m =~= Map::<Seq<char>, String>::empty());
    } else if m == Map::<Seq<char>, String>::empty() {
        assert(texts_in(m) =~= Map::<Seq<char>, Seq<char>>::empty());
    }
}

proof fn lemma_sets_in_empty(m: Map<Seq<char>, StrSet>)
    ensures
        sets_in(m) == Map::<Seq<char>, Set<Seq<char>>>::empty() <==> m == Map::<
            Seq<char>,
            StrSet,
        >::empty(),
{
    if sets_in(m) == Map::<Seq<char>, Set<Seq<char>>>::empty() {
        assert forall|k: Seq<char>| !(#[trigger] m.dom().contains(k)) by {
            assert(sets_in(m).dom().contains(k) == m.dom().contains(k));
        }
        assert(m =~= Map::<Seq<char>, StrSet>::empty());
    } else if m == Map::<Seq<char>, StrSet>::empty() {
        assert(sets_in(m) =~= Map::<Seq<char>, Set<Seq<char>>>::empty());
    }
}

} // verus!
