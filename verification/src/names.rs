//! Qualified type names.

use crate::text::texts;
use vstd::prelude::*;
use vstd::string::StringExecFns;

verus! {

/// The contents of an optional string.
pub open spec fn opt_text(s: Option<String>) -> Option<Seq<char>> {
    match s {
        Some(t) => Some(t@),
        None => None,
    }
}

/// A qualified type name: the name of the type itself and the names of the
/// scopes that enclose it. A name that is absent marks an anonymous type or
/// scope.
#[derive(Debug)]
pub struct TypeName {
    /// The enclosing scopes, the innermost first.
    pub namespace: Vec<Option<String>>,
    /// The name of the type itself.
    pub name: Option<String>,
}

/// A qualified type name as plain sequences.
pub struct TypeNameView {
    /// The enclosing scopes, the innermost first.
    pub namespace: Seq<Option<Seq<char>>>,
    /// The name of the type itself.
    pub name: Option<Seq<char>>,
}

impl View for TypeName {
    type V = TypeNameView;

    open spec fn view(&self) -> TypeNameView {
        TypeNameView {
            namespace: self.namespace@.map_values(|s: Option<String>| opt_text(s)),
            name: opt_text(self.name),
        }
    }
}

/// The text that stands for a segment: its name, or `<anon>` where it has
/// none.
pub open spec fn segment_text(seg: Option<Seq<char>>) -> Seq<char> {
    match seg {
        Some(s) => s,
        None => "<anon>"@,
    }
}

/// The scopes `ns`, which are given with the innermost first, written from
/// the outermost inwards, each followed by `::`.
pub open spec fn scope_prefix(ns: Seq<Option<Seq<char>>>) -> Seq<char>
    decreases ns.len(),
{
    if ns.len() == 0 {
        Seq::empty()
    } else {
        scope_prefix(ns.drop_first()) + segment_text(ns[0]) + "::"@
    }
}

impl TypeNameView {
    /// The name as it is written in C++: the scopes from the outermost
    /// inwards and the name of the type, separated by `::`.
    pub open spec fn display(self) -> Seq<char> {
        scope_prefix(self.namespace) + segment_text(self.name)
    }

    /// The segments of the name from the outermost scope to the type itself.
    pub open spec fn path(self) -> Seq<Option<Seq<char>>> {
        self.namespace.reverse().push(self.name)
    }

    /// The type has no name of its own, or one of its scopes has none.
    pub open spec fn is_anon(self) -> bool {
        self.name is None || exists|i: int|
            0 <= i < self.namespace.len() && self.namespace[i] is None
    }

    /// The path ends with the segments of `dest`, in their order.
    pub open spec fn ends_with(self, dest: Seq<Seq<char>>) -> bool {
        let path = self.path();
        &&& dest.len() <= path.len()
        &&& forall|i: int|
            0 <= i < dest.len() ==> path[path.len() - dest.len() + i] == Some(#[trigger] dest[i])
    }
}

fn same_text(a: &Option<String>, b: &Option<String>) -> (same: bool)
    ensures
        same == (opt_text(*a) == opt_text(*b)),
{
    match (a, b) {
        (Some(x), Some(y)) => *x == *y,
        (None, None) => true,
        _ => false,
    }
}

fn push_segment(out: &mut String, seg: &Option<String>)
    ensures
        final(out)@ == old(out)@ + segment_text(opt_text(*seg)),
{
    match seg {
        Some(s) => out.append(s.as_str()),
        None => out.append("<anon>"),
    }
}

impl TypeName {
    /// A name without scopes.
    pub fn plain(name: String) -> (t: TypeName)
        ensures
            t@ == (TypeNameView { namespace: Seq::empty(), name: Some(name@) }),
    {
        let t = TypeName { namespace: Vec::new(), name: Some(name) };
        proof {
            assert(t@.namespace =~= Seq::empty());
        }
        t
    }

    /// A copy of the name.
    pub fn duplicate(&self) -> (copy: TypeName)
        ensures
            copy@ == self@,
    {
        let mut namespace: Vec<Option<String>> = Vec::new();
        let mut i: usize = 0;
        while i < self.namespace.len()
            invariant
                i <= self.namespace.len(),
                namespace.len() == i,
                forall|k: int| 0 <= k < i ==> opt_text(#[trigger] namespace[k]) == opt_text(self.namespace[k]),
            decreases self.namespace.len() - i,
        {
            namespace.push(
                match &self.namespace[i] {
                    Some(s) => Some(s.clone()),
                    None => None,
                },
            );
            i = i + 1;
        }
        let name = match &self.name {
            Some(s) => Some(s.clone()),
            None => None,
        };
        let copy = TypeName { namespace, name };
        proof {
            assert(copy@.namespace =~= self@.namespace);
        }
        copy
    }

    /// Writes the name as it is written in C++.
    pub fn display(&self) -> (text: String)
        ensures
            text@ == self@.display(),
    {
        let ghost ns = self@.namespace;
        let mut out = String::new();
        let mut i: usize = self.namespace.len();
        while i > 0
            invariant
                i <= self.namespace.len(),
                ns == self@.namespace,
                out@ == scope_prefix(ns.skip(i as int)),
            decreases i,
        {
            i = i - 1;
            proof {
                assert(ns.skip(i as int).drop_first() =~= ns.skip(i + 1));
            }
            push_segment(&mut out, &self.namespace[i]);
            out.append("::");
        }
        proof {
            assert(ns.skip(0) =~= ns);
        }
        push_segment(&mut out, &self.name);
        out
    }

    /// Tells whether the type has no name of its own or lies in a scope that
    /// has none.
    pub fn is_anon(&self) -> (b: bool)
        ensures
            b == self@.is_anon(),
    {
        if self.name.is_none() {
            return true;
        }
        let mut i: usize = 0;
        while i < self.namespace.len()
            invariant
                i <= self.namespace.len(),
                forall|k: int| 0 <= k < i ==> self@.namespace[k] is Some,
            decreases self.namespace.len() - i,
        {
            if self.namespace[i].is_none() {
                assert(self@.namespace[i as int] is None);
                return true;
            }
            i = i + 1;
        }
        false
    }

    /// Tells whether two names have the same segments.
    pub fn same_as(&self, other: &TypeName) -> (same: bool)
        ensures
            same == (self@ == other@),
    {
        if !same_text(&self.name, &other.name) {
            return false;
        }
        if self.namespace.len() != other.namespace.len() {
            assert(self@.namespace.len() != other@.namespace.len());
            return false;
        }
        let mut i: usize = 0;
        while i < self.namespace.len()
            invariant
                i <= self.namespace.len(),
                self.namespace.len() == other.namespace.len(),
                forall|k: int| 0 <= k < i ==> self@.namespace[k] == other@.namespace[k],
            decreases self.namespace.len() - i,
        {
            if !same_text(&self.namespace[i], &other.namespace[i]) {
                assert(self@.namespace[i as int] != other@.namespace[i as int]);
                return false;
            }
            i = i + 1;
        }
        assert(self@.namespace =~= other@.namespace);
        true
    }

    /// Tells whether the name, read from the outermost scope inwards, ends
    /// with the segments of `dest`.
    pub fn ends_with(&self, dest: &Vec<String>) -> (b: bool)
        ensures
            b == self@.ends_with(texts(dest@)),
    {
        let n = dest.len();
        if n == 0 {
            return true;
        }
        if n - 1 > self.namespace.len() {
            return false;
        }
        let ghost path = self@.path();
        let ghost want = texts(dest@);
        // The last segment of `dest` names the type itself.
        match &self.name {
            Some(own) => {
                if !(*own == dest[n - 1]) {
                    assert(path[path.len() - want.len() + (n - 1)] != Some(want[n - 1]));
                    return false;
                }
            },
            None => {
                assert(path[path.len() - want.len() + (n - 1)] != Some(want[n - 1]));
                return false;
            },
        }
        // The segments before it name the scopes, the innermost last.
        let mut k: usize = 0;
        while k < n - 1
            invariant
                n == dest.len(),
                n >= 1,
                n - 1 <= self.namespace.len(),
                k <= n - 1,
                path == self@.path(),
                want == texts(dest@),
                path.len() == self.namespace.len() + 1,
                want.len() == n,
                forall|i: int|
                    n - 1 - k <= i < n ==> path[path.len() - n + i] == Some(#[trigger] want[i]),
            decreases n - 1 - k,
        {
            let seg = &self.namespace[k];
            match seg {
                Some(scope) => {
                    if !(*scope == dest[n - 2 - k]) {
                        assert(path[path.len() - want.len() + (n - 2 - k)] != Some(
                            want[n - 2 - k],
                        ));
                        return false;
                    }
                },
                None => {
                    assert(path[path.len() - want.len() + (n - 2 - k)] != Some(want[n - 2 - k]));
                    return false;
                },
            }
            k = k + 1;
        }
        true
    }
}

} // verus!
