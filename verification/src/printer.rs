//! The emission sink and the identifier allocator.
//!
//! The sink collects two texts, line by line: a header of type definitions
//! and a program whose `main` checks sizes and offsets. The allocator hands
//! out the identifiers under which types are defined and remembers each one.

use crate::fresh::lemma_free_number_is_free;
use crate::ids::next_id;
use crate::ids::uniq_id;
use crate::ids::IdGenerator;
use crate::names::TypeName;
use crate::names::TypeNameView;
use crate::text::decimal;
use crate::text::ident_part;
use crate::text::ident_prefix;
use crate::text::push_decimal;
use crate::text::texts;
use vstd::prelude::*;
use vstd::string::StringExecFns;
use vstd::string::StrSliceExecFns;

verus! {

/// One check of the generated program: a C expression and the value that it
/// must have.
#[derive(Debug)]
pub struct EqAssert {
    /// The C expression.
    pub expr: String,
    /// The value expected of it.
    pub val: u64,
}

/// A check as plain values.
pub struct EqAssertView {
    /// The C expression.
    pub expr: Seq<char>,
    /// The value expected of it.
    pub val: u64,
}

impl View for EqAssert {
    type V = EqAssertView;

    open spec fn view(&self) -> EqAssertView {
        EqAssertView { expr: self.expr@, val: self.val }
    }
}

/// The checks of a list, as plain values.
pub open spec fn assert_views(v: Seq<EqAssert>) -> Seq<EqAssertView> {
    v.map_values(|a: EqAssert| a@)
}

/// An identifier that was handed out, with the number of times that a
/// numbered variant of it was asked for.
#[derive(Debug)]
pub struct UsedIdent {
    /// The identifier.
    pub name: String,
    /// The last number that was appended to it.
    pub count: u64,
}

/// The emission sink together with the identifiers handed out so far.
#[derive(Debug)]
pub struct Printer {
    /// The lines of the header.
    pub h_lines: Vec<String>,
    /// The lines of the checking program.
    pub c_lines: Vec<String>,
    /// Every identifier handed out, in the order of first use.
    pub used_idents: Vec<UsedIdent>,
}

/// The state of a `Printer` as plain values.
pub struct PrinterView {
    /// The lines of the header.
    pub header: Seq<Seq<char>>,
    /// The lines of the checking program.
    pub program: Seq<Seq<char>>,
    /// Every identifier handed out, with its counter.
    pub used: Seq<(Seq<char>, u64)>,
}

/// The identifiers handed out, as plain values.
pub open spec fn used_views(v: Seq<UsedIdent>) -> Seq<(Seq<char>, u64)> {
    v.map_values(|u: UsedIdent| (u.name@, u.count))
}

impl View for Printer {
    type V = PrinterView;

    open spec fn view(&self) -> PrinterView {
        PrinterView {
            header: texts(self.h_lines@),
            program: texts(self.c_lines@),
            used: used_views(self.used_idents@),
        }
    }
}

/// The statement that checks `expr` against `val`.
pub open spec fn assert_line(expr: Seq<char>, val: u64) -> Seq<char> {
    "  ZHANYI_HIDVA_ASSERT_EQ("@ + expr + ", "@ + decimal(val as nat) + ");"@
}

/// The statements that check `asserts`, one per line.
pub open spec fn assert_lines(asserts: Seq<EqAssertView>) -> Seq<Seq<char>> {
    asserts.map_values(|a: EqAssertView| assert_line(a.expr, a.val))
}

/// The first lines of a header.
pub open spec fn header_prologue() -> Seq<Seq<char>> {
    seq!["// Generated by hidva/clayout!"@, "#pragma once"@, "#include <linux/types.h>"@]
}

/// The line of the program that includes the header written beside it.
pub open spec fn include_line(path: Seq<char>) -> Seq<char> {
    "#include \""@ + path + ".h"@ + "\""@
}

/// The first lines of a checking program whose header is `path` with `.h`
/// appended: the includes, the checking macro and the opening of `main`.
pub open spec fn program_prologue(path: Seq<char>) -> Seq<Seq<char>> {
    seq![
        "// Generated by hidva/clayout!"@,
        "#include <stdio.h>"@,
        "#include <stdlib.h>"@,
        include_line(path),
        ""@,
        ""@,
        ""@,
        ""@,
        ""@,
        "#define ZHANYI_HIDVA_ASSERT_EQ(a, e) do {    \\"@,
        "    int actual_size = (a);  \\"@,
        "    int expect_size = (e);  \\"@,
        "    if (actual_size != expect_size) {   \\"@,
        "        fprintf(stderr, \"ASSERT FAILED! actual: %s, which is %d; expect: %s, which is %d\\n\", #a, actual_size, #e, expect_size);    \\"@,
        "        abort();    \\"@,
        "    }   \\"@,
        "} while(0)"@,
        "        "@,
        ""@,
        ""@,
        ""@,
        ""@,
        "int main() {"@,
    ]
}

/// The position of the first entry of `used` that holds `name`.
pub open spec fn find_used(used: Seq<(Seq<char>, u64)>, name: Seq<char>) -> Option<int>
    decreases used.len(),
{
    if used.len() == 0 {
        None
    } else if used[0].0 == name {
        Some(0)
    } else {
        match find_used(used.drop_first(), name) {
            Some(i) => Some(i + 1),
            None => None,
        }
    }
}

/// A name segment cut at its first character that cannot stand in an
/// identifier; empty where the segment is absent.
pub open spec fn clean(seg: Option<Seq<char>>) -> Seq<char> {
    match seg {
        Some(s) => ident_prefix(s),
        None => Seq::empty(),
    }
}

/// The cleaned scope names that are not empty, the innermost first.
pub open spec fn scope_idents(ns: Seq<Option<Seq<char>>>) -> Seq<Seq<char>>
    decreases ns.len(),
{
    if ns.len() == 0 {
        Seq::empty()
    } else {
        let rest = scope_idents(ns.drop_last());
        let c = clean(ns.last());
        if c.len() == 0 {
            rest
        } else {
            rest.push(c)
        }
    }
}

/// The candidate identifier made of `leaf` and the `k` innermost scopes,
/// joined by underscores with the outermost of them first.
pub open spec fn candidate(leaf: Seq<char>, scopes: Seq<Seq<char>>, k: nat) -> Seq<char>
    decreases k,
{
    if k == 0 {
        leaf
    } else {
        scopes[k - 1] + "_"@ + candidate(leaf, scopes, (k - 1) as nat)
    }
}

/// The identifier that begins with `prefix` and ends with the number `n`.
pub open spec fn with_number(prefix: Seq<char>, n: u64) -> Seq<char> {
    prefix + decimal(n as nat)
}

/// The identifier `base` with the number `n` appended.
pub open spec fn numbered(base: Seq<char>, n: u64) -> Seq<char> {
    with_number(base + "_"@, n)
}

/// The first number from `n` on, in the order of the counter, that makes an
/// identifier with `prefix` that is not in use. At most `fuel` numbers are
/// passed over; with as much fuel as there are identifiers in use that is
/// never too little.
pub open spec fn free_number(used: Seq<(Seq<char>, u64)>, prefix: Seq<char>, n: u64, fuel: nat) -> u64
    decreases fuel,
{
    if fuel == 0 || find_used(used, with_number(prefix, n)) is None {
        n
    } else {
        free_number(used, prefix, next_id(n), (fuel - 1) as nat)
    }
}

/// Allocation for a named type, from the candidate with `k` scopes on. The
/// first candidate that is not in use is recorded and returned. Where even
/// the one with all scopes is in use, its counter advances until the
/// candidate with that number appended is not in use either, and that one is
/// recorded and returned.
pub open spec fn alloc_named(
    used: Seq<(Seq<char>, u64)>,
    leaf: Seq<char>,
    scopes: Seq<Seq<char>>,
    k: nat,
) -> (Seq<(Seq<char>, u64)>, Seq<char>)
    decreases scopes.len() - k,
{
    let cand = candidate(leaf, scopes, k);
    match find_used(used, cand) {
        None => (used.push((cand, 0)), cand),
        Some(i) => {
            if k >= scopes.len() {
                let n = free_number(used, cand + "_"@, next_id(used[i].1), used.len());
                let name = numbered(cand, n);
                (used.update(i, (cand, n)).push((name, 0)), name)
            } else {
                alloc_named(used, leaf, scopes, k + 1)
            }
        },
    }
}

/// The identifier of an anonymous type that takes the number `id`.
pub open spec fn anon_ident(id: u64) -> Seq<char> {
    with_number("AnonType"@, id)
}

/// What an allocation for `tyname` gives: the identifiers in use afterwards,
/// the counter afterwards, and the identifier handed out. An anonymous type
/// takes the first number from the counter on with which its identifier is
/// not in use.
pub open spec fn alloc_ident_spec(used: Seq<(Seq<char>, u64)>, id: u64, tyname: TypeNameView) -> (
    Seq<(Seq<char>, u64)>,
    u64,
    Seq<char>,
) {
    let leaf = clean(tyname.name);
    if leaf.len() == 0 {
        let n = free_number(used, "AnonType"@, id, used.len());
        (used.push((anon_ident(n), 0)), next_id(n), anon_ident(n))
    } else {
        let (after, name) = alloc_named(used, leaf, scope_idents(tyname.namespace), 0);
        (after, id, name)
    }
}

impl PrinterView {
    /// The state of a sink that was just opened: the opening lines of both
    /// texts and no identifier. The program includes the header under the
    /// name `path` with `.h` appended.
    pub open spec fn opened(path: Seq<char>) -> PrinterView {
        PrinterView {
            header: header_prologue(),
            program: program_prologue(path),
            used: Seq::empty(),
        }
    }

    /// The state after one check was added, with the blank line that closes
    /// its group.
    pub open spec fn add_eq_assert(self, expr: Seq<char>, val: u64) -> PrinterView {
        PrinterView { program: self.program.push(assert_line(expr, val)).push(""@), ..self }
    }

    /// The state after a group of checks was added, with the blank line that
    /// closes it.
    pub open spec fn add_eq_asserts(self, asserts: Seq<EqAssertView>) -> PrinterView {
        PrinterView { program: (self.program + assert_lines(asserts)).push(""@), ..self }
    }

    /// The state after a definition was added, with the two blank lines that
    /// follow it.
    pub open spec fn add_type(self, lines: Seq<Seq<char>>) -> PrinterView {
        PrinterView { header: (self.header + lines).push(""@).push(""@), ..self }
    }

    /// The state after the program was closed.
    pub open spec fn finish(self) -> PrinterView {
        PrinterView { program: self.program.push("  return 0;"@).push("}"@), ..self }
    }
}

/// `find_used` gives the first position that holds the name.
pub proof fn lemma_find_used(used: Seq<(Seq<char>, u64)>, name: Seq<char>)
    ensures
        match find_used(used, name) {
            Some(i) => 0 <= i < used.len() && used[i].0 == name && forall|k: int|
                0 <= k < i ==> (#[trigger] used[k]).0 != name,
            None => forall|k: int| 0 <= k < used.len() ==> (#[trigger] used[k]).0 != name,
        },
    decreases used.len(),
{
    if used.len() > 0 && used[0].0 != name {
        let rest = used.drop_first();
        lemma_find_used(rest, name);
        match find_used(rest, name) {
            Some(i) => {
                assert forall|k: int| 0 <= k < i + 1 implies (#[trigger] used[k]).0 != name by {
                    if k > 0 {
                        assert(used[k] == rest[k - 1]);
                    }
                }
            },
            None => {
                assert forall|k: int| 0 <= k < used.len() implies (#[trigger] used[k]).0
                    != name by {
                    if k > 0 {
                        assert(used[k] == rest[k - 1]);
                    }
                }
            },
        }
    }
}

/// An identifier that is added to those in use is in use.
pub proof fn lemma_pushed_is_used(used: Seq<(Seq<char>, u64)>, name: Seq<char>)
    ensures
        find_used(used.push((name, 0)), name) is Some,
{
    let after = used.push((name, 0));
    lemma_find_used(after, name);
    assert(after[used.len() as int].0 == name);
}

fn line(s: &str) -> (l: String)
    ensures
        l@ == s@,
{
    String::from_str(s)
}

impl Printer {
    /// A sink that holds the opening lines of both texts and no identifier.
    /// The program includes the header under the name `path` with `.h`
    /// appended.
    pub fn try_open(path: &str) -> (p: Printer)
        ensures
            p@ == PrinterView::opened(path@),
    {
        let mut h_lines: Vec<String> = Vec::new();
        h_lines.push(line("// Generated by hidva/clayout!"));
        h_lines.push(line("#pragma once"));
        h_lines.push(line("#include <linux/types.h>"));
        let mut header_ref = line("#include \"");
        header_ref.append(path);
        header_ref.append(".h");
        header_ref.append("\"");
        let mut c_lines: Vec<String> = Vec::new();
        c_lines.push(line("// Generated by hidva/clayout!"));
        c_lines.push(line("#include <stdio.h>"));
        c_lines.push(line("#include <stdlib.h>"));
        c_lines.push(header_ref);
        c_lines.push(line(""));
        c_lines.push(line(""));
        c_lines.push(line(""));
        c_lines.push(line(""));
        c_lines.push(line(""));
        c_lines.push(line("#define ZHANYI_HIDVA_ASSERT_EQ(a, e) do {    \\"));
        c_lines.push(line("    int actual_size = (a);  \\"));
        c_lines.push(line("    int expect_size = (e);  \\"));
        c_lines.push(line("    if (actual_size != expect_size) {   \\"));
        c_lines.push(
            line(
                "        fprintf(stderr, \"ASSERT FAILED! actual: %s, which is %d; expect: %s, which is %d\\n\", #a, actual_size, #e, expect_size);    \\",
            ),
        );
        c_lines.push(line("        abort();    \\"));
        c_lines.push(line("    }   \\"));
        c_lines.push(line("} while(0)"));
        c_lines.push(line("        "));
        c_lines.push(line(""));
        c_lines.push(line(""));
        c_lines.push(line(""));
        c_lines.push(line(""));
        c_lines.push(line("int main() {"));
        let p = Printer { h_lines, c_lines, used_idents: Vec::new() };
        proof {
            assert(p@.header =~= header_prologue());
            assert(p@.program =~= program_prologue(path@));
            assert(p@.used =~= Seq::<(Seq<char>, u64)>::empty());
        }
        p
    }

    fn do_add_eq_assert(&mut self, expr: &str, size: u64)
        ensures
            final(self)@ == (PrinterView {
                program: old(self)@.program.push(assert_line(expr@, size)),
                ..old(self)@
            }),
    {
        let mut l = line("  ZHANYI_HIDVA_ASSERT_EQ(");
        l.append(expr);
        l.append(", ");
        push_decimal(&mut l, size);
        l.append(");");
        self.c_lines.push(l);
        proof {
            assert(final(self)@.program =~= old(self)@.program.push(assert_line(expr@, size)));
        }
    }

    fn blank_line(&mut self)
        ensures
            final(self)@ == (PrinterView { program: old(self)@.program.push(""@), ..old(self)@ }),
    {
        self.c_lines.push(line(""));
        proof {
            assert(final(self)@.program =~= old(self)@.program.push(""@));
        }
    }

    /// Adds one check to the program, and the blank line that closes its
    /// group.
    pub fn add_eq_assert(&mut self, expr: &str, size: u64)
        ensures
            final(self)@ == old(self)@.add_eq_assert(expr@, size),
    {
        self.do_add_eq_assert(expr, size);
        self.blank_line();
    }

    /// Adds a group of checks to the program, and the blank line that closes
    /// it.
    pub fn add_eq_asserts(&mut self, asserts: &Vec<EqAssert>)
        ensures
            final(self)@ == old(self)@.add_eq_asserts(assert_views(asserts@)),
    {
        let ghost all = assert_lines(assert_views(asserts@));
        let mut i: usize = 0;
        while i < asserts.len()
            invariant
                i <= asserts.len(),
                all == assert_lines(assert_views(asserts@)),
                self@ == (PrinterView {
                    program: old(self)@.program + all.take(i as int),
                    ..old(self)@
                }),
            decreases asserts.len() - i,
        {
            let ghost before = self@.program;
            self.do_add_eq_assert(asserts[i].expr.as_str(), asserts[i].val);
            proof {
                assert(before.push(all[i as int]) =~= old(self)@.program + all.take(i + 1));
            }
            i = i + 1;
        }
        proof {
            assert(all.take(i as int) =~= all);
        }
        self.blank_line();
    }

    /// Adds a definition to the header, and the two blank lines that follow
    /// it.
    pub fn add_type(&mut self, lines: &Vec<String>)
        ensures
            final(self)@ == old(self)@.add_type(texts(lines@)),
    {
        let ghost all = texts(lines@);
        let mut i: usize = 0;
        while i < lines.len()
            invariant
                i <= lines.len(),
                all == texts(lines@),
                self@ == (PrinterView {
                    header: old(self)@.header + all.take(i as int),
                    ..old(self)@
                }),
            decreases lines.len() - i,
        {
            let ghost before = self@.header;
            self.h_lines.push(lines[i].clone());
            proof {
                assert(self@.header =~= before.push(all[i as int]));
                assert(before.push(all[i as int]) =~= old(self)@.header + all.take(i + 1));
            }
            i = i + 1;
        }
        proof {
            assert(all.take(i as int) =~= all);
        }
        let ghost mid = self@.header;
        self.h_lines.push(line(""));
        self.h_lines.push(line(""));
        proof {
            assert(self@.header =~= mid.push(""@).push(""@));
        }
    }

    fn find(&self, name: &String) -> (found: Option<usize>)
        ensures
            match find_used(self@.used, name@) {
                Some(i) => found == Some(i as usize) && 0 <= i < self.used_idents.len(),
                None => found is None,
            },
    {
        let mut i: usize = 0;
        while i < self.used_idents.len()
            invariant
                i <= self.used_idents.len(),
                forall|k: int| 0 <= k < i ==> (#[trigger] self@.used[k]).0 != name@,
            decreases self.used_idents.len() - i,
        {
            if self.used_idents[i].name == *name {
                proof {
                    assert(self@.used[i as int].0 == name@);
                    lemma_find_used(self@.used, name@);
                }
                return Some(i);
            }
            i = i + 1;
        }
        proof {
            lemma_find_used(self@.used, name@);
        }
        None
    }

    fn scope_idents_of(tyname: &TypeName) -> (scopes: Vec<String>)
        ensures
            texts(scopes@) == scope_idents(tyname@.namespace),
    {
        let ghost ns = tyname@.namespace;
        let mut scopes: Vec<String> = Vec::new();
        let mut i: usize = 0;
        while i < tyname.namespace.len()
            invariant
                i <= tyname.namespace.len(),
                ns == tyname@.namespace,
                texts(scopes@) == scope_idents(ns.take(i as int)),
            decreases tyname.namespace.len() - i,
        {
            proof {
                assert(ns.take(i + 1).drop_last() =~= ns.take(i as int));
            }
            match &tyname.namespace[i] {
                Some(scope) => {
                    let part = ident_part(scope.as_str());
                    if part.unicode_len() != 0 {
                        scopes.push(line(part));
                    }
                },
                None => {},
            }
            i = i + 1;
        }
        proof {
            assert(ns.take(i as int) =~= ns);
        }
        scopes
    }

    fn free_number(&self, prefix: &str, start: u64) -> (r: (u64, String))
        ensures
            r.0 == free_number(self@.used, prefix@, start, self@.used.len()),
            r.1@ == with_number(prefix@, r.0),
            find_used(self@.used, r.1@) is None,
    {
        let total = self.used_idents.len();
        let mut n = start;
        let mut passed: usize = 0;
        loop
            invariant
                total == self.used_idents.len(),
                passed <= total,
                free_number(self@.used, prefix@, n, (total - passed) as nat) == free_number(
                    self@.used,
                    prefix@,
                    start,
                    total as nat,
                ),
            decreases total - passed,
        {
            let mut name = line(prefix);
            push_decimal(&mut name, n);
            if passed == total || self.find(&name).is_none() {
                proof {
                    lemma_free_number_is_free(self@.used, prefix@, start);
                }
                return (n, name);
            }
            n = if n == u64::MAX {
                0
            } else {
                n + 1
            };
            passed = passed + 1;
        }
    }

    /// Hands out an identifier for the type named `tyname`, and records it.
    /// The identifier was not in use before.
    ///
    /// A type whose own name holds no identifier gets `AnonType` followed by
    /// the first number from the counter of `ids` on with which that is not
    /// in use. Any other gets its own name if that is not in use; else its
    /// name with as few enclosing scopes in front of it as it takes to find
    /// one that is not in use; and where even the full path is in use, the
    /// full path followed by a number that counts per path and goes on until
    /// the identifier is not in use.
    pub fn alloc_ident(&mut self, tyname: &TypeName, ids: &mut IdGenerator) -> (name: String)
        ensures
            ({
                let (used, id, n) = alloc_ident_spec(old(self)@.used, old(ids).next, tyname@);
                &&& final(self)@ == (PrinterView { used, ..old(self)@ })
                &&& final(ids).next == id
                &&& name@ == n
            }),
            find_used(old(self)@.used, name@) is None,
            find_used(final(self)@.used, name@) is Some,
    {
        let leaf: &str = match &tyname.name {
            Some(own) => ident_part(own.as_str()),
            None => "",
        };
        proof {
            reveal_strlit("");
        }
        if leaf.unicode_len() == 0 {
            let (n, name) = self.free_number("AnonType", ids.next);
            ids.next = n;
            uniq_id(ids);
            self.used_idents.push(UsedIdent { name: name.clone(), count: 0 });
            proof {
                assert(self@.used =~= old(self)@.used.push((name@, 0)));
                lemma_pushed_is_used(old(self)@.used, name@);
            }
            return name;
        }
        let scopes = Self::scope_idents_of(tyname);
        let ghost used0 = self@.used;
        let ghost all = texts(scopes@);
        let mut k: usize = 0;
        let mut cand = line(leaf);
        let mut name: Option<String> = None;
        while name.is_none()
            invariant
                k <= scopes.len(),
                all == texts(scopes@),
                cand@ == candidate(leaf@, all, k as nat),
                name is None ==> self@ == old(self)@ && alloc_named(used0, leaf@, all, k as nat)
                    == alloc_named(used0, leaf@, all, 0),
                name is Some ==> self@ == (PrinterView {
                    used: alloc_named(used0, leaf@, all, 0).0,
                    ..old(self)@
                }) && name->0@ == alloc_named(used0, leaf@, all, 0).1 && find_used(
                    used0,
                    name->0@,
                ) is None && find_used(self@.used, name->0@) is Some,
                used0 == old(self)@.used,
            decreases
                    (if name is None {
                        1int
                    } else {
                        0int
                    }),
                    scopes.len() - k,
        {
            match self.find(&cand) {
                None => {
                    self.used_idents.push(UsedIdent { name: cand.clone(), count: 0 });
                    proof {
                        assert(self@.used =~= used0.push((cand@, 0)));
                        lemma_pushed_is_used(used0, cand@);
                    }
                    name = Some(cand.clone());
                },
                Some(i) => {
                    if k >= scopes.len() {
                        let first = if self.used_idents[i].count == u64::MAX {
                            0
                        } else {
                            self.used_idents[i].count + 1
                        };
                        let mut prefix = cand.clone();
                        prefix.append("_");
                        let (n, full) = self.free_number(prefix.as_str(), first);
                        self.used_idents[i] = UsedIdent { name: cand.clone(), count: n };
                        self.used_idents.push(UsedIdent { name: full.clone(), count: 0 });
                        proof {
                            let bumped = used0.update(i as int, (cand@, n));
                            assert(self@.used =~= bumped.push((full@, 0)));
                            lemma_pushed_is_used(bumped, full@);
                        }
                        name = Some(full);
                    } else {
                        let mut next = scopes[k].clone();
                        next.append("_");
                        next.append(cand.as_str());
                        cand = next;
                        k = k + 1;
                    }
                },
            }
        }
        match name {
            Some(n) => n,
            None => cand,
        }
    }

    /// Closes the program: `main` returns zero.
    pub fn finish(&mut self)
        ensures
            final(self)@ == old(self)@.finish(),
    {
        self.c_lines.push(line("  return 0;"));
        self.c_lines.push(line("}"));
        proof {
            assert(final(self)@.program =~= old(self)@.program.push("  return 0;"@).push("}"@));
        }
    }
}

} // verus!
