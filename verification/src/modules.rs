//! Modules: which to load, and which of their functions an importer declares.

use vstd::prelude::*;
use crate::errors::SourcePathError;
use crate::imports::{
    exports_name, no_function_message, ExportedFunction, ImportClause, ImportResolution,
    ModuleImport, NamedImport,
};
use crate::ir::{clone_strings, strings_view};
use crate::options::{CompileSourceFileOptions, OptionsV};
use crate::tables::StrSet;
use crate::text::{chars_of, decimal, push_decimal, same_text};

verus! {

// ---------------------------------------------------------------------------
// Loading modules.

/// What to do about an import.
#[derive(Clone, Copy, Debug, PartialEq, Eq, Structural)]
pub enum ImportAction {
    /// Nothing: it names no module, or one that was loaded.
    Skip,
    /// Report that the module imports itself, perhaps through others.
    Cycle,
    /// Load the module.
    Load,
}

/// What is known of an import before it is loaded.
#[derive(Clone, Copy, Debug, PartialEq, Eq, Structural)]
pub struct ImportFacts {
    pub is_builtin: bool,
    pub is_module: bool,
    pub is_virtual: bool,
}

/// The modules that are being loaded and those that were.
#[derive(Debug)]
pub struct ModuleGraph {
    visiting: Vec<String>,
    seen: StrSet,
}

/// The model of the modules that are being loaded and those that were.
pub struct GraphV {
    pub visiting: Seq<Seq<char>>,
    pub seen: Set<Seq<char>>,
}

/// What to do about an import in a file.
pub open spec fn action_for(g: GraphV, path: Seq<char>, key: Seq<char>, facts: ImportFacts)
    -> ImportAction {
    if facts.is_builtin || !facts.is_module {
        ImportAction::Skip
    } else if key == path && facts.is_virtual {
        ImportAction::Skip
    } else if g.visiting.contains(key) {
        ImportAction::Cycle
    } else if g.seen.contains(key) {
        ImportAction::Skip
    } else {
        ImportAction::Load
    }
}

impl GraphV {
    pub open spec fn entered(self, key: Seq<char>) -> GraphV {
        GraphV { visiting: self.visiting.push(key), ..self }
    }

    pub open spec fn left(self, key: Seq<char>) -> GraphV {
        GraphV { visiting: self.visiting.drop_last(), seen: self.seen.insert(key) }
    }
}

/// A module is loaded once, and never while it is being loaded.
pub proof fn law_modules_load_once(
    g: GraphV,
    key: Seq<char>,
    path: Seq<char>,
    facts: ImportFacts,
)
    ensures
        action_for(g, path, key, facts) == ImportAction::Load ==> !g.visiting.contains(key)
            && !g.seen.contains(key),
        action_for(g.entered(key), path, key, facts) != ImportAction::Load,
        !g.visiting.contains(key) ==> action_for(
            g.entered(key).left(key),
            path,
            key,
            facts,
        ) == ImportAction::Skip,
        g.entered(key).left(key).visiting == g.visiting,
{
    assert(g.entered(key).visiting[g.visiting.len() as int] == key);
    assert(g.entered(key).left(key).visiting =~= g.visiting);
}

impl ModuleGraph {
    pub closed spec fn view(&self) -> GraphV {
        GraphV { visiting: strings_view(self.visiting@), seen: self.seen@ }
    }

    /// A graph of which only the root is being loaded.
    pub fn new(root: String) -> (r: ModuleGraph)
        ensures
            r@ == (GraphV { visiting: seq![root@], seen: Set::empty() }),
    {
        let mut visiting: Vec<String> = Vec::new();
        visiting.push(root);
        assert(strings_view(visiting@) =~= seq![root@]);
        ModuleGraph { visiting, seen: StrSet::new() }
    }

    /// What to do about an import in the file at `path` of the module at `key`.
    pub fn action(&self, path: &str, key: &str, facts: ImportFacts) -> (r: ImportAction)
        ensures
            r == action_for(self@, path@, key@, facts),
    {
        if facts.is_builtin || !facts.is_module {
            return ImportAction::Skip;
        }
        if same_text(key, path) && facts.is_virtual {
            return ImportAction::Skip;
        }
        let mut i: usize = 0;
        while i < self.visiting.len()
            invariant
                i <= self.visiting@.len(),
                facts.is_module && !facts.is_builtin && !(key@ == path@ && facts.is_virtual),
                forall|k: int| 0 <= k < i ==> strings_view(self.visiting@)[k] != key@,
            decreases self.visiting@.len() - i,
        {
            if same_text(self.visiting[i].as_str(), key) {
                assert(strings_view(self.visiting@)[i as int] == key@);
                return ImportAction::Cycle;
            }
            i += 1;
        }
        if self.seen.contains(key) {
            ImportAction::Skip
        } else {
            ImportAction::Load
        }
    }

    /// Notes that a module is being loaded.
    pub fn enter(&mut self, key: String)
        ensures
            final(self)@ == old(self)@.entered(key@),
    {
        self.visiting.push(key);
        assert(self@.visiting =~= old(self)@.visiting.push(key@));
    }

    /// Notes that the module that was entered last is loaded.
    pub fn leave(&mut self, key: String)
        requires
            old(self)@.visiting.len() > 0,
        ensures
            final(self)@ == old(self)@.left(key@),
    {
        self.visiting.pop();
        self.seen.insert(key);
        assert(self@.visiting =~= old(self)@.visiting.drop_last());
    }
}

/// The source that stands in for a module, by its specifier or by its path.
pub open spec fn stand_in(o: OptionsV, spec_text: Seq<char>, path: Seq<char>) -> Option<Seq<char>> {
    match o.source_for(spec_text) {
        Some(source) => Some(source),
        None => o.source_for(path),
    }
}

pub fn module_source_override<'a>(
    options: &'a CompileSourceFileOptions,
    import_spec: &str,
    resolved_path: &str,
) -> (r: Option<&'a str>)
    ensures
        r is Some <==> stand_in(options@, import_spec@, resolved_path@) is Some,
        r matches Some(source) ==> stand_in(options@, import_spec@, resolved_path@) == Some(
            source@,
        ),
{
    match options.module_override_source(import_spec) {
        Some(source) => Some(source),
        None => options.module_override_source(resolved_path),
    }
}

// ---------------------------------------------------------------------------
// Declaring imported functions.

/// The signature of an imported function.
pub struct SignatureV {
    pub arity: u8,
    pub type_params: Seq<Seq<char>>,
}

impl ExportedFunction {
    pub open spec fn signature(&self) -> SignatureV {
        SignatureV { arity: self.arity, type_params: strings_view(self.type_params@) }
    }
}

/// The larger of two numbers.
pub open spec fn larger(a: u8, b: u8) -> u8 {
    if a >= b {
        a
    } else {
        b
    }
}

/// The signature that covers two of the same name, unless their type parameters differ.
pub open spec fn merged_signature(a: SignatureV, b: SignatureV) -> Option<SignatureV> {
    if a.type_params == b.type_params || b.type_params.len() == 0 {
        Some(SignatureV { arity: larger(a.arity, b.arity), type_params: a.type_params })
    } else if a.type_params.len() == 0 {
        Some(SignatureV { arity: larger(a.arity, b.arity), type_params: b.type_params })
    } else {
        None
    }
}

/// The functions of a set of imports by name.
pub type Declared = Map<Seq<char>, SignatureV>;

/// The message on functions of one name with different type parameters.
pub open spec fn type_params_message(name: Seq<char>) -> Seq<char> {
    "function '"@ + name
        + "' declared with conflicting type parameters across imported modules"@
}

/// The functions with one more.
pub open spec fn with_function(d: Declared, f: ExportedFunction) -> Result<Declared, Seq<char>> {
    if d.dom().contains(f.name@) {
        match merged_signature(d[f.name@], f.signature()) {
            Some(s) => Ok(d.insert(f.name@, s)),
            None => Err(type_params_message(f.name@)),
        }
    } else {
        Ok(d.insert(f.name@, f.signature()))
    }
}

/// The functions with all exports of a module, from position `i` on.
pub open spec fn with_exports(d: Declared, exports: Seq<ExportedFunction>, i: int) -> Result<
    Declared,
    Seq<char>,
>
    decreases exports.len() - i,
{
    if i < 0 || i >= exports.len() {
        Ok(d)
    } else {
        match with_function(d, exports[i]) {
            Ok(next) => with_exports(next, exports, i + 1),
            Err(e) => Err(e),
        }
    }
}

/// The position from `i` on at which a module exports a name.
pub open spec fn export_position(exports: Seq<ExportedFunction>, name: Seq<char>, i: int) -> int
    decreases exports.len() - i,
{
    if i < 0 || i >= exports.len() || exports[i].name@ == name {
        i
    } else {
        export_position(exports, name, i + 1)
    }
}

/// The functions with the named exports of a module, from position `i` on.
pub open spec fn with_named(
    d: Declared,
    spec_text: Seq<char>,
    named: Seq<NamedImport>,
    exports: Seq<ExportedFunction>,
    i: int,
) -> Result<Declared, Seq<char>>
    decreases named.len() - i,
{
    if i < 0 || i >= named.len() {
        Ok(d)
    } else {
        let at = export_position(exports, named[i].imported@, 0);
        if at >= exports.len() {
            Err(no_function_message(spec_text, named[i].imported@))
        } else {
            match with_function(d, exports[at]) {
                Ok(next) => with_named(next, spec_text, named, exports, i + 1),
                Err(e) => Err(e),
            }
        }
    }
}

/// The message on an import of a module that was not loaded.
pub open spec fn not_loaded_message(spec_text: Seq<char>) -> Seq<char> {
    "module '"@ + spec_text + "' did not load"@
}

/// The functions with those of an import.
pub open spec fn with_import(d: Declared, import: ModuleImport, resolution: ImportResolution)
    -> Result<Declared, Seq<char>> {
    match resolution {
        ImportResolution::Loaded(exports) => match import.clause {
            ImportClause::Named(named) => with_named(d, import.spec@, named@, exports@, 0),
            _ => with_exports(d, exports@, 0),
        },
        ImportResolution::Missing => Err(not_loaded_message(import.spec@)),
        _ => Ok(d),
    }
}

/// The functions of imports, from position `i` on.
pub open spec fn declared_from(
    d: Declared,
    imports: Seq<ModuleImport>,
    resolutions: Seq<ImportResolution>,
    i: int,
) -> Result<Declared, (usize, Seq<char>)>
    decreases imports.len() - i,
{
    if i < 0 || i >= imports.len() {
        Ok(d)
    } else {
        match with_import(d, imports[i], resolutions[i]) {
            Ok(next) => declared_from(next, imports, resolutions, i + 1),
            Err(message) => Err((imports[i].line, message)),
        }
    }
}

/// Whether a text comes before another: by the first character that differs, and a
/// text before its continuations.
pub open spec fn text_before(a: Seq<char>, b: Seq<char>) -> bool
    decreases a.len(),
{
    if b.len() == 0 {
        false
    } else if a.len() == 0 {
        true
    } else if a[0] != b[0] {
        a[0] < b[0]
    } else {
        text_before(a.drop_first(), b.drop_first())
    }
}

/// Whether functions stand in the order of their names, each name once.
pub open spec fn in_order(list: Seq<ExportedFunction>) -> bool {
    forall|i: int, j: int|
        0 <= i < j < list.len() ==> text_before(
            (#[trigger] list[i]).name@,
            (#[trigger] list[j]).name@,
        )
}

/// Whether a list holds exactly the functions of a map.
pub open spec fn lists(list: Seq<ExportedFunction>, d: Declared) -> bool {
    &&& forall|name: Seq<char>| #[trigger] d.dom().contains(name) <==> exports_name(list, name)
    &&& forall|i: int| 0 <= i < list.len() ==> d[(#[trigger] list[i]).name@] == list[i].signature()
}

proof fn lemma_before_irreflexive(a: Seq<char>)
    ensures
        !text_before(a, a),
    decreases a.len(),
{
    if a.len() > 0 {
        lemma_before_irreflexive(a.drop_first());
    }
}

proof fn lemma_before_total(a: Seq<char>, b: Seq<char>)
    ensures
        text_before(a, b) || text_before(b, a) || a == b,
    decreases a.len(),
{
    if a.len() > 0 && b.len() > 0 && a[0] == b[0] {
        lemma_before_total(a.drop_first(), b.drop_first());
        if a.drop_first() == b.drop_first() {
            assert(a =~= seq![a[0]] + a.drop_first());
            assert(b =~= seq![b[0]] + b.drop_first());
        }
    } else if a.len() == 0 && b.len() == 0 {
        assert(a =~= b);
    }
}

proof fn lemma_before_transitive(a: Seq<char>, b: Seq<char>, c: Seq<char>)
    requires
        text_before(a, b),
        text_before(b, c),
    ensures
        text_before(a, c),
    decreases a.len(),
{
    if a.len() > 0 && b.len() > 0 && c.len() > 0 && a[0] == b[0] && b[0] == c[0] {
        lemma_before_transitive(a.drop_first(), b.drop_first(), c.drop_first());
    }
}

/// Names are in a strict order: of two different ones exactly one comes first.
pub proof fn law_name_order(a: Seq<char>, b: Seq<char>, c: Seq<char>)
    ensures
        !text_before(a, a),
        a != b ==> (text_before(a, b) <==> !text_before(b, a)),
        text_before(a, b) && text_before(b, c) ==> text_before(a, c),
{
    lemma_before_irreflexive(a);
    lemma_before_total(a, b);
    if text_before(a, b) && text_before(b, c) {
        lemma_before_transitive(a, b, c);
    }
    if text_before(a, b) && text_before(b, a) {
        lemma_before_transitive(a, b, a);
    }
}

fn name_before(a: &str, b: &str) -> (r: bool)
    ensures
        r == text_before(a@, b@),
{
    let x = chars_of(a);
    let y = chars_of(b);
    let mut i: usize = 0;
    assert(x@.skip(0) =~= x@);
    assert(y@.skip(0) =~= y@);
    while i < x.len() && i < y.len()
        invariant
            i <= x@.len(),
            i <= y@.len(),
            x@ == a@,
            y@ == b@,
            text_before(a@, b@) == text_before(x@.skip(i as int), y@.skip(i as int)),
        decreases x@.len() - i,
    {
        if x[i] != y[i] {
            return x[i] < y[i];
        }
        assert(x@.skip(i as int).drop_first() =~= x@.skip(i + 1));
        assert(y@.skip(i as int).drop_first() =~= y@.skip(i + 1));
        i += 1;
    }
    i < y.len()
}

fn same_strings(a: &Vec<String>, b: &Vec<String>) -> (r: bool)
    ensures
        r == (strings_view(a@) == strings_view(b@)),
{
    if a.len() != b.len() {
        assert(strings_view(a@).len() != strings_view(b@).len());
        return false;
    }
    let mut i: usize = 0;
    while i < a.len()
        invariant
            i <= a@.len(),
            a@.len() == b@.len(),
            forall|k: int| 0 <= k < i ==> (#[trigger] a@[k])@ == b@[k]@,
        decreases a@.len() - i,
    {
        if !same_text(a[i].as_str(), b[i].as_str()) {
            assert(strings_view(a@)[i as int] != strings_view(b@)[i as int]);
            return false;
        }
        i += 1;
    }
    assert(strings_view(a@) =~= strings_view(b@));
    true
}

impl Clone for ExportedFunction {
    fn clone(&self) -> (r: Self)
        ensures
            r.name@ == self.name@,
            r.signature() == self.signature(),
    {
        ExportedFunction {
            name: self.name.clone(),
            arity: self.arity,
            type_params: clone_strings(&self.type_params),
        }
    }
}

/// Merges two functions of the same name.
fn merge_signatures(existing: &ExportedFunction, next: &ExportedFunction) -> (r: Option<
    ExportedFunction,
>)
    ensures
        r is Some <==> merged_signature(existing.signature(), next.signature()) is Some,
        r matches Some(f) ==> f.name@ == existing.name@ && merged_signature(
            existing.signature(),
            next.signature(),
        ) == Some(f.signature()),
{
    let arity: u8 = if existing.arity >= next.arity {
        existing.arity
    } else {
        next.arity
    };
    if same_strings(&existing.type_params, &next.type_params) || next.type_params.len() == 0 {
        Some(
            ExportedFunction {
                name: existing.name.clone(),
                arity,
                type_params: clone_strings(&existing.type_params),
            },
        )
    } else if existing.type_params.len() == 0 {
        Some(
            ExportedFunction {
                name: existing.name.clone(),
                arity,
                type_params: clone_strings(&next.type_params),
            },
        )
    } else {
        None
    }
}

fn type_params_text(name: &str) -> (r: String)
    ensures
        r@ == type_params_message(name@),
{
    let mut message = "function '".to_string();
    message.push_str(name);
    message.push_str("' declared with conflicting type parameters across imported modules");
    message
}

/// Adds a function to a list in order.
fn merge_imported_function_signature(
    list: &mut Vec<ExportedFunction>,
    function: &ExportedFunction,
    Ghost(d): Ghost<Declared>,
) -> (r: Result<(), String>)
    requires
        in_order(old(list)@),
        lists(old(list)@, d),
    ensures
        match with_function(d, *function) {
            Ok(next) => r is Ok && in_order(final(list)@) && lists(final(list)@, next),
            Err(message) => r is Err && r->Err_0@ == message,
        },
{
    let ghost before = list@;
    let ghost name = function.name@;
    let mut i: usize = 0;
    while i < list.len() && name_before(list[i].name.as_str(), function.name.as_str())
        invariant
            i <= list@.len(),
            list@ == before,
            name == function.name@,
            forall|k: int| 0 <= k < i ==> text_before((#[trigger] before[k]).name@, name),
        decreases list@.len() - i,
    {
        i += 1;
    }
    proof {
        assert forall|k: int| 0 <= k < i implies (#[trigger] before[k]).name@ != name by {
            lemma_before_irreflexive(name);
        }
        if i < before.len() {
            lemma_before_total(before[i as int].name@, name);
            assert forall|k: int| i < k < before.len() implies text_before(
                name,
                (#[trigger] before[k]).name@,
            ) by {
                assert(text_before(before[i as int].name@, before[k].name@));
                if before[i as int].name@ != name {
                    lemma_before_transitive(name, before[i as int].name@, before[k].name@);
                }
            }
            assert forall|k: int| i < k < before.len() implies (#[trigger] before[k]).name@
                != name by {
                lemma_before_irreflexive(name);
            }
        }
    }
    if i < list.len() && same_text(list[i].name.as_str(), function.name.as_str()) {
        assert(exports_name(before, name));
        assert(d[before[i as int].name@] == before[i as int].signature());
        match merge_signatures(&list[i], function) {
            Some(merged) => {
                let ghost s = merged.signature();
                list.set(i, merged);
                proof {
                    let after = list@;
                    assert forall|n: Seq<char>| exports_name(before, n) == #[trigger] exports_name(
                        after,
                        n,
                    ) by {
                        if exports_name(before, n) {
                            let w = choose|w: int|
                                0 <= w < before.len() && (#[trigger] before[w]).name@ == n;
                            assert(after[w].name@ == n);
                        }
                        if exports_name(after, n) {
                            let w = choose|w: int|
                                0 <= w < after.len() && (#[trigger] after[w]).name@ == n;
                            assert(before[w].name@ == n);
                        }
                    }
                    assert forall|a: int, b: int| 0 <= a < b < after.len() implies text_before(
                        (#[trigger] after[a]).name@,
                        (#[trigger] after[b]).name@,
                    ) by {
                        assert(text_before(before[a].name@, before[b].name@));
                    }
                    let next = d.insert(name, s);
                    assert forall|k: int| 0 <= k < after.len() implies next[(
                    #[trigger] after[k]).name@] == after[k].signature() by {
                        if k != i {
                            assert(before[k].name@ != name);
                            assert(d[before[k].name@] == before[k].signature());
                        }
                    }
                }
                Ok(())
            },
            None => Err(type_params_text(function.name.as_str())),
        }
    } else {
        proof {
            assert(!exports_name(before, name)) by {
                if exports_name(before, name) {
                    let w = choose|w: int|
                        0 <= w < before.len() && (#[trigger] before[w]).name@ == name;
                    assert(w == i);
                }
            }
        }
        let added = function.clone();
        let ghost s = added.signature();
        list.insert(i, added);
        proof {
            let after = list@;
            assert forall|n: Seq<char>| #[trigger] exports_name(after, n) == (exports_name(
                before,
                n,
            ) || n == name) by {
                if exports_name(before, n) {
                    let w = choose|w: int|
                        0 <= w < before.len() && (#[trigger] before[w]).name@ == n;
                    assert(after[if w < i {
                        w
                    } else {
                        w + 1
                    }].name@ == n);
                }
                assert(after[i as int].name@ == name);
                if exports_name(after, n) {
                    let w = choose|w: int| 0 <= w < after.len() && (#[trigger] after[w]).name@ == n;
                    if w < i {
                        assert(before[w].name@ == n);
                    } else if w > i {
                        assert(before[w - 1].name@ == n);
                    }
                }
            }
            assert forall|a: int, b: int| 0 <= a < b < after.len() implies text_before(
                (#[trigger] after[a]).name@,
                (#[trigger] after[b]).name@,
            ) by {
                if a < i && b < i {
                    assert(text_before(before[a].name@, before[b].name@));
                } else if a < i && b == i {
                    assert(text_before(before[a].name@, name));
                } else if a < i {
                    assert(text_before(before[a].name@, before[b - 1].name@));
                } else if a == i {
                    assert(before[b - 1].name@ == after[b].name@);
                } else {
                    assert(text_before(before[a - 1].name@, before[b - 1].name@));
                }
            }
            let next = d.insert(name, s);
            assert forall|k: int| 0 <= k < after.len() implies next[(#[trigger] after[k]).name@]
                == after[k].signature() by {
                if k < i {
                    assert(d[before[k].name@] == before[k].signature());
                } else if k > i {
                    assert(d[before[k - 1].name@] == before[k - 1].signature());
                }
            }
        }
        Ok(())
    }
}

fn find_export(exports: &Vec<ExportedFunction>, name: &str) -> (r: usize)
    ensures
        r == export_position(exports@, name@, 0),
        r <= exports@.len(),
{
    let mut i: usize = 0;
    while i < exports.len() && !same_text(exports[i].name.as_str(), name)
        invariant
            i <= exports@.len(),
            export_position(exports@, name@, 0) == export_position(exports@, name@, i as int),
        decreases exports@.len() - i,
    {
        i += 1;
    }
    i
}

/// Adds the functions of an import to a list in order.
fn add_import_functions(
    list: &mut Vec<ExportedFunction>,
    import: &ModuleImport,
    resolution: &ImportResolution,
    Ghost(d): Ghost<Declared>,
) -> (r: Result<(), String>)
    requires
        in_order(old(list)@),
        lists(old(list)@, d),
    ensures
        match with_import(d, *import, *resolution) {
            Ok(next) => r is Ok && in_order(final(list)@) && lists(final(list)@, next),
            Err(message) => r is Err && r->Err_0@ == message,
        },
{
    let exports = match resolution {
        ImportResolution::Loaded(exports) => exports,
        ImportResolution::Missing => {
            let mut message = "module '".to_string();
            message.push_str(import.spec.as_str());
            message.push_str("' did not load");
            return Err(message);
        },
        _ => {
            return Ok(());
        },
    };
    let ghost total = with_import(d, *import, *resolution);
    let ghost mut now = d;
    match &import.clause {
        ImportClause::Named(named) => {
            let mut i: usize = 0;
            while i < named.len()
                invariant
                    i <= named@.len(),
                    in_order(list@),
                    lists(list@, now),
                    total == with_import(d, *import, *resolution),
                    total == with_named(now, import.spec@, named@, exports@, i as int),
                decreases named@.len() - i,
            {
                let at = find_export(exports, named[i].imported.as_str());
                if at >= exports.len() {
                    let mut message = "module '".to_string();
                    message.push_str(import.spec.as_str());
                    message.push_str("' has no public function '");
                    message.push_str(named[i].imported.as_str());
                    message.push_str("'");
                    return Err(message);
                }
                match merge_imported_function_signature(list, &exports[at], Ghost(now)) {
                    Ok(()) => {
                        proof {
                            now = with_function(now, exports@[at as int])->Ok_0;
                        }
                    },
                    Err(e) => {
                        return Err(e);
                    },
                }
                i += 1;
            }
        },
        _ => {
            let mut i: usize = 0;
            while i < exports.len()
                invariant
                    i <= exports@.len(),
                    in_order(list@),
                    lists(list@, now),
                    total == with_import(d, *import, *resolution),
                    total == with_exports(now, exports@, i as int),
                decreases exports@.len() - i,
            {
                match merge_imported_function_signature(list, &exports[i], Ghost(now)) {
                    Ok(()) => {
                        proof {
                            now = with_function(now, exports@[i as int])->Ok_0;
                        }
                    },
                    Err(e) => {
                        return Err(e);
                    },
                }
                i += 1;
            }
        },
    }
    Ok(())
}

/// The functions that a file imports, in the order of their names.
pub fn collect_imported_module_functions(
    path: &str,
    imports: &Vec<ModuleImport>,
    resolutions: &Vec<ImportResolution>,
) -> (r: Result<Vec<ExportedFunction>, SourcePathError>)
    requires
        imports@.len() == resolutions@.len(),
    ensures
        match declared_from(Map::empty(), imports@, resolutions@, 0) {
            Ok(d) => r is Ok && in_order(r->Ok_0@) && lists(r->Ok_0@, d),
            Err((line, message)) => r is Err && r->Err_0 is InvalidImportSyntax
                && r->Err_0->InvalidImportSyntax_path@ == path@
                && r->Err_0->InvalidImportSyntax_line == line
                && r->Err_0->InvalidImportSyntax_message@ == message,
        },
{
    let mut list: Vec<ExportedFunction> = Vec::new();
    let ghost mut now: Declared = Map::empty();
    let ghost total = declared_from(now, imports@, resolutions@, 0);
    let mut i: usize = 0;
    while i < imports.len()
        invariant
            i <= imports@.len(),
            imports@.len() == resolutions@.len(),
            in_order(list@),
            lists(list@, now),
            total == declared_from(Map::empty(), imports@, resolutions@, 0),
            total == declared_from(now, imports@, resolutions@, i as int),
        decreases imports@.len() - i,
    {
        match add_import_functions(&mut list, &imports[i], &resolutions[i], Ghost(now)) {
            Ok(()) => {
                proof {
                    now = with_import(now, imports@[i as int], resolutions@[i as int])->Ok_0;
                }
            },
            Err(message) => {
                return Err(
                    SourcePathError::InvalidImportSyntax {
                        path: path.to_string(),
                        line: imports[i].line,
                        message,
                    },
                );
            },
        }
        i += 1;
    }
    Ok(list)
}

// ---------------------------------------------------------------------------
// The prelude.

/// Texts with commas between them, up to position `n`.
pub open spec fn comma_list(list: Seq<Seq<char>>, n: int) -> Seq<char>
    decreases n,
{
    if n <= 0 {
        Seq::empty()
    } else if n == 1 {
        list[0]
    } else {
        comma_list(list, n - 1) + ", "@ + list[n - 1]
    }
}

/// The names that parameters are given: `arg0`, `arg1` and so on, up to number `n`.
pub open spec fn arg_list(n: int) -> Seq<char>
    decreases n,
{
    if n <= 0 {
        Seq::empty()
    } else if n == 1 {
        "arg"@ + decimal(0)
    } else {
        arg_list(n - 1) + ", "@ + ("arg"@ + decimal((n - 1) as nat))
    }
}

/// The declaration of an imported function.
pub open spec fn declaration(f: ExportedFunction) -> Seq<char> {
    let params = strings_view(f.type_params@);
    let generics = if params.len() == 0 {
        Seq::empty()
    } else {
        "<"@ + comma_list(params, params.len() as int) + ">"@
    };
    "pub fn "@ + f.name@ + generics + "("@ + arg_list(f.arity as int) + ");\n"@
}

/// The declarations of the first `n` functions.
pub open spec fn declarations(list: Seq<ExportedFunction>, n: int) -> Seq<char>
    decreases n,
{
    if n <= 0 {
        Seq::empty()
    } else {
        declarations(list, n - 1) + declaration(list[n - 1])
    }
}

fn push_declaration(out: &mut String, f: &ExportedFunction)
    ensures
        final(out)@ == old(out)@ + declaration(*f),
{
    let mut text = "pub fn ".to_string();
    text.push_str(f.name.as_str());
    let ghost params = strings_view(f.type_params@);
    if f.type_params.len() > 0 {
        let mut generics = "<".to_string();
        let mut i: usize = 0;
        assert("<"@ + comma_list(params, 0) =~= "<"@);
        while i < f.type_params.len()
            invariant
                i <= f.type_params@.len(),
                params == strings_view(f.type_params@),
                generics@ == "<"@ + comma_list(params, i as int),
            decreases f.type_params@.len() - i,
        {
            if i > 0 {
                generics.push_str(", ");
            }
            generics.push_str(f.type_params[i].as_str());
            i += 1;
            assert(generics@ =~= "<"@ + comma_list(params, i as int));
        }
        generics.push_str(">");
        text.push_str(generics.as_str());
    } else {
        assert(text@ + Seq::<char>::empty() =~= text@);
    }
    text.push_str("(");
    let ghost front = text@;
    let mut k: u8 = 0;
    assert(front + arg_list(0) =~= front);
    while k < f.arity
        invariant
            k <= f.arity,
            text@ == front + arg_list(k as int),
        decreases f.arity - k,
    {
        let ghost before = text@;
        if k > 0 {
            text.push_str(", ");
        }
        text.push_str("arg");
        push_decimal(&mut text, k as u64);
        k += 1;
        assert(text@ =~= front + arg_list(k as int));
    }
    text.push_str(");\n");
    out.push_str(text.as_str());
    proof {
        let generics = if params.len() == 0 {
            Seq::empty()
        } else {
            "<"@ + comma_list(params, params.len() as int) + ">"@
        };
        assert(front == "pub fn "@ + f.name@ + generics + "("@);
    }
}

/// The declarations that stand in front of a file for the functions that it imports.
pub fn build_rustscript_import_prelude(
    path: &str,
    imports: &Vec<ModuleImport>,
    resolutions: &Vec<ImportResolution>,
) -> (r: Result<String, SourcePathError>)
    requires
        imports@.len() == resolutions@.len(),
    ensures
        match declared_from(Map::empty(), imports@, resolutions@, 0) {
            Ok(d) => r is Ok && exists|list: Seq<ExportedFunction>|
                in_order(list) && lists(list, d) && r->Ok_0@ == #[trigger] declarations(
                    list,
                    list.len() as int,
                ),
            Err((line, message)) => r is Err && r->Err_0 is InvalidImportSyntax
                && r->Err_0->InvalidImportSyntax_path@ == path@
                && r->Err_0->InvalidImportSyntax_line == line
                && r->Err_0->InvalidImportSyntax_message@ == message,
        },
{
    let list = match collect_imported_module_functions(path, imports, resolutions) {
        Ok(list) => list,
        Err(e) => {
            return Err(e);
        },
    };
    let mut prelude = String::new();
    let mut i: usize = 0;
    while i < list.len()
        invariant
            i <= list@.len(),
            prelude@ == declarations(list@, i as int),
        decreases list@.len() - i,
    {
        push_declaration(&mut prelude, &list[i]);
        i += 1;
    }
    Ok(prelude)
}

} // verus!
