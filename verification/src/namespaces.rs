//! Namespaces of built-in and host functions.

use vstd::prelude::*;
use crate::builtins::BuiltinFunction;
use crate::ir::strings_view;
use crate::names::Aliases;
use crate::text::{is_valid_ident, same_text, valid_ident};

verus! {

/// A built-in function under the name it has in a namespace.
#[derive(Debug)]
pub struct BuiltinMember {
    pub namespace: String,
    pub member: String,
    pub builtin: BuiltinFunction,
}

/// The namespaces of built-in functions, and a text that lists them.
#[derive(Debug)]
pub struct BuiltinNamespaces {
    pub members: Vec<BuiltinMember>,
    pub hint: String,
}

/// Whether one of the members from position `i` on belongs to a namespace.
pub open spec fn namespace_from(list: Seq<BuiltinMember>, namespace: Seq<char>, i: int) -> bool
    decreases list.len() - i,
{
    0 <= i < list.len() && (list[i].namespace@ == namespace || namespace_from(
        list,
        namespace,
        i + 1,
    ))
}

/// The first of the members from position `i` on with a name in a namespace.
pub open spec fn member_from(
    list: Seq<BuiltinMember>,
    namespace: Seq<char>,
    member: Seq<char>,
    i: int,
) -> Option<BuiltinFunction>
    decreases list.len() - i,
{
    if i < 0 || i >= list.len() {
        None
    } else if list[i].namespace@ == namespace && list[i].member@ == member {
        Some(list[i].builtin)
    } else {
        member_from(list, namespace, member, i + 1)
    }
}

impl BuiltinNamespaces {
    /// Whether a namespace holds built-in functions.
    pub open spec fn has(self, namespace: Seq<char>) -> bool {
        namespace_from(self.members@, namespace, 0)
    }

    /// The built-in function of a namespace under a name.
    pub open spec fn member(self, namespace: Seq<char>, member: Seq<char>) -> Option<
        BuiltinFunction,
    > {
        member_from(self.members@, namespace, member, 0)
    }

    pub fn is_builtin_namespace(&self, namespace: &str) -> (r: bool)
        ensures
            r == self.has(namespace@),
    {
        let mut i: usize = 0;
        while i < self.members.len()
            invariant
                i <= self.members@.len(),
                self.has(namespace@) == namespace_from(self.members@, namespace@, i as int),
            decreases self.members@.len() - i,
        {
            if same_text(self.members[i].namespace.as_str(), namespace) {
                return true;
            }
            i += 1;
        }
        false
    }

    pub fn resolve_builtin_namespace_call(&self, namespace: &str, member: &str) -> (r: Option<
        BuiltinFunction,
    >)
        ensures
            r == self.member(namespace@, member@),
    {
        let mut i: usize = 0;
        while i < self.members.len()
            invariant
                i <= self.members@.len(),
                self.member(namespace@, member@) == member_from(
                    self.members@,
                    namespace@,
                    member@,
                    i as int,
                ),
            decreases self.members@.len() - i,
        {
            if same_text(self.members[i].namespace.as_str(), namespace) && same_text(
                self.members[i].member.as_str(),
                member,
            ) {
                return Some(self.members[i].builtin);
            }
            i += 1;
        }
        None
    }
}

/// Whether the text of an import names a namespace of the host and no file: it is an
/// identifier.
pub fn is_virtual_host_namespace_spec(spec: &str) -> (r: bool)
    ensures
        r == valid_ident(spec@),
{
    is_valid_ident(spec)
}

/// The model of the host names that a source text has imported.
pub struct HostNamesV {
    pub namespaces: Map<Seq<char>, Seq<char>>,
    pub direct: Map<Seq<char>, Seq<char>>,
    pub wildcards: Seq<Seq<char>>,
}

/// A path with more segments from position `i` on.
pub open spec fn extended(path: Seq<char>, segments: Seq<Seq<char>>, i: int) -> Seq<char>
    decreases segments.len() - i,
{
    if i < 0 || i >= segments.len() {
        path
    } else {
        extended(path + "::"@ + segments[i], segments, i + 1)
    }
}

impl HostNamesV {
    pub open spec fn start() -> HostNamesV {
        HostNamesV { namespaces: Map::empty(), direct: Map::empty(), wildcards: Seq::empty() }
    }

    pub open spec fn with_namespace(self, name: Seq<char>, target: Seq<char>) -> HostNamesV {
        HostNamesV { namespaces: self.namespaces.insert(name, target), ..self }
    }

    pub open spec fn with_direct(self, name: Seq<char>, target: Seq<char>) -> HostNamesV {
        HostNamesV { direct: self.direct.insert(name, target), ..self }
    }

    pub open spec fn with_wildcard(self, namespace: Seq<char>) -> HostNamesV {
        HostNamesV {
            wildcards: if self.wildcards.contains(namespace) {
                self.wildcards
            } else {
                self.wildcards.push(namespace)
            },
            ..self
        }
    }

    /// What a call of a bare name reaches.
    pub open spec fn direct_target(self, name: Seq<char>) -> Option<Seq<char>> {
        if self.direct.dom().contains(name) {
            Some(self.direct[name])
        } else if self.wildcards.len() == 1 {
            Some(self.wildcards[0] + "::"@ + name)
        } else {
            None
        }
    }

    /// What a call of a path reaches.
    pub open spec fn path_target(self, namespace: Seq<char>, path: Seq<Seq<char>>) -> Option<
        Seq<char>,
    > {
        if self.namespaces.dom().contains(namespace) && path.len() > 0 {
            let root = self.namespaces[namespace];
            Some(
                extended(
                    if path[0].len() == 0 {
                        root
                    } else {
                        root + "::"@ + path[0]
                    },
                    path,
                    1,
                ),
            )
        } else {
            None
        }
    }

    /// The namespace of built-in functions that a name stands for.
    pub open spec fn builtin_root(
        self,
        builtins: BuiltinNamespaces,
        namespace: Seq<char>,
    ) -> Option<
        Seq<char>,
    > {
        if self.namespaces.dom().contains(namespace) && builtins.has(self.namespaces[namespace]) {
            Some(self.namespaces[namespace])
        } else {
            None
        }
    }
}

/// The host names that a source text has imported.
#[derive(Debug)]
pub struct HostNames {
    pub host_namespace_aliases: Aliases,
    pub direct_host_call_aliases: Aliases,
    pub direct_host_wildcard_imports: Vec<String>,
}

impl HostNames {
    pub open spec fn view(&self) -> HostNamesV {
        HostNamesV {
            namespaces: self.host_namespace_aliases@,
            direct: self.direct_host_call_aliases@,
            wildcards: strings_view(self.direct_host_wildcard_imports@),
        }
    }

    pub fn new() -> (r: HostNames)
        ensures
            r@ == HostNamesV::start(),
    {
        let r = HostNames {
            host_namespace_aliases: Aliases::new(),
            direct_host_call_aliases: Aliases::new(),
            direct_host_wildcard_imports: Vec::new(),
        };
        assert(r@.wildcards =~= Seq::empty());
        r
    }

    pub fn add_wildcard(&mut self, namespace: String)
        ensures
            final(self)@ == old(self)@.with_wildcard(namespace@),
    {
        let ghost want = self@.with_wildcard(namespace@);
        let ghost list = self@.wildcards;
        let mut i: usize = 0;
        while i < self.direct_host_wildcard_imports.len()
            invariant
                i <= self.direct_host_wildcard_imports@.len(),
                self@ == old(self)@,
                list == self@.wildcards,
                list.len() == self.direct_host_wildcard_imports@.len(),
                want == old(self)@.with_wildcard(namespace@),
                forall|k: int| 0 <= k < i ==> list[k] != namespace@,
            decreases self.direct_host_wildcard_imports@.len() - i,
        {
            assert(list[i as int] == self.direct_host_wildcard_imports@[i as int]@);
            if same_text(self.direct_host_wildcard_imports[i].as_str(), namespace.as_str()) {
                assert(list.contains(namespace@));
                return;
            }
            i += 1;
        }
        self.direct_host_wildcard_imports.push(namespace);
        assert(self@.wildcards =~= want.wildcards);
    }

    pub fn resolve_direct_host_call_target(&self, name: &str) -> (r: Option<String>)
        ensures
            match self@.direct_target(name@) {
                Some(target) => r is Some && r->0@ == target,
                None => r is None,
            },
    {
        match self.direct_host_call_aliases.get(name) {
            Some(target) => {
                return Some(target);
            },
            None => {},
        }
        assert(self@.wildcards.len() == self.direct_host_wildcard_imports@.len());
        if self.direct_host_wildcard_imports.len() == 1 {
            assert(self@.wildcards[0] == self.direct_host_wildcard_imports@[0]@);
            let mut out = self.direct_host_wildcard_imports[0].clone();
            out.push_str("::");
            out.push_str(name);
            return Some(out);
        }
        None
    }

    pub fn resolve_host_namespace_call_target(&self, namespace: &str, path: &Vec<String>) -> (r:
        Option<String>)
        ensures
            match self@.path_target(namespace@, strings_view(path@)) {
                Some(target) => r is Some && r->0@ == target,
                None => r is None,
            },
    {
        let ghost segments = strings_view(path@);
        if path.len() == 0 {
            return None;
        }
        match self.host_namespace_aliases.get(namespace) {
            Some(root) => {
                let mut out = root;
                assert(segments[0] == path@[0]@);
                if !same_text(path[0].as_str(), "") {
                    out.push_str("::");
                    out.push_str(path[0].as_str());
                }
                proof {
                    reveal_strlit("");
                    assert(path@[0]@ == ""@ <==> path@[0]@.len() == 0) by {
                        if path@[0]@.len() == 0 {
                            assert(path@[0]@ =~= ""@);
                        }
                    }
                }
                let ghost first = out@;
                let mut i: usize = 1;
                while i < path.len()
                    invariant
                        1 <= i <= path@.len(),
                        segments == strings_view(path@),
                        extended(first, segments, 1) == extended(out@, segments, i as int),
                    decreases path@.len() - i,
                {
                    assert(segments[i as int] == path@[i as int]@);
                    out.push_str("::");
                    out.push_str(path[i].as_str());
                    i += 1;
                }
                Some(out)
            },
            None => None,
        }
    }

    pub fn resolve_imported_builtin_namespace(
        &self,
        builtins: &BuiltinNamespaces,
        namespace: &str,
    ) -> (r: Option<String>)
        ensures
            match self@.builtin_root(*builtins, namespace@) {
                Some(root) => r is Some && r->0@ == root,
                None => r is None,
            },
    {
        match self.host_namespace_aliases.get(namespace) {
            Some(root) => if builtins.is_builtin_namespace(root.as_str()) {
                Some(root)
            } else {
                None
            },
            None => None,
        }
    }
}

} // verus!
