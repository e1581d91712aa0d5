//! The type graph that layouts are reconstructed from, and the summaries
//! that reconstruction leaves behind.
//!
//! A graph holds the type descriptors of one or more inputs. A descriptor
//! refers to other descriptors of the same input by their position in that
//! input's list; a position outside the list stands for `void` or for a type
//! that the input does not describe.

use crate::names::TypeName;
use crate::names::TypeNameView;
use crate::text::ident_part;
use crate::text::ident_prefix;
use crate::text::is_whitespace;
use crate::text::char_is_whitespace;
use vstd::prelude::*;
use vstd::std_specs::iter::IteratorSpec;
use vstd::string::StrSliceExecFns;

verus! {

/// Identifies a type descriptor: the input it belongs to and its position
/// among the descriptors of that input.
#[derive(Debug, Clone, Copy, PartialEq, Eq, Structural, Hash)]
pub struct TypeIndex {
    /// The position of the input among the inputs of the graph.
    pub input_id: usize,
    /// The position of the descriptor among those of its input.
    pub typoff: usize,
}

/// What is known of a type once it has been processed.
#[derive(Debug)]
pub struct TypeInfo {
    /// The C type expression by which the type is referred to.
    pub name: String,
    /// The number of bytes that the type takes when nothing follows its last
    /// field.
    pub packed_size: u64,
    /// The size of the type as the input reports it.
    pub size: u64,
}

/// A type summary as plain values.
pub struct TypeInfoView {
    /// The C type expression by which the type is referred to.
    pub name: Seq<char>,
    /// The packed size in bytes.
    pub packed_size: u64,
    /// The reported size in bytes.
    pub size: u64,
}

impl View for TypeInfo {
    type V = TypeInfoView;

    open spec fn view(&self) -> TypeInfoView {
        TypeInfoView { name: self.name@, packed_size: self.packed_size, size: self.size }
    }
}

/// `s` without the whitespace at its end.
pub open spec fn trim_end(s: Seq<char>) -> Seq<char>
    decreases s.len(),
{
    if s.len() == 0 || !is_whitespace(s.last()) {
        s
    } else {
        trim_end(s.drop_last())
    }
}

/// The position at which the run of characters that are not whitespace and
/// that ends `s` begins; the length of `s` where it ends in whitespace.
pub open spec fn word_start(s: Seq<char>) -> nat
    decreases s.len(),
{
    if s.len() == 0 || is_whitespace(s.last()) {
        s.len()
    } else {
        word_start(s.drop_last())
    }
}

/// The last of the words of `s` that whitespace separates; empty where `s`
/// has no word.
pub open spec fn last_word(s: Seq<char>) -> Seq<char> {
    let t = trim_end(s);
    t.skip(word_start(t) as int)
}

/// The identifier at the start of the last word of a type expression.
pub open spec fn type_ident(name: Seq<char>) -> Seq<char> {
    ident_prefix(last_word(name))
}

impl TypeInfo {
    /// The identifier by which names derived from this type begin: the last
    /// word of its type expression, cut at the first character that cannot
    /// stand in an identifier. Empty where the expression has no word.
    pub fn ident(&self) -> (id: &str)
        ensures
            id@ == type_ident(self.name@),
    {
        let name = self.name.as_str();
        let total: usize = name.unicode_len();
        let ghost s = name@;
        // `w` is where the word that ends the text read so far begins,
        // `te` is where the whitespace at its end begins,
        // `ww` is where the last word begins.
        let mut w: usize = 0;
        let mut te: usize = 0;
        let mut ww: usize = 0;
        let mut i: usize = 0;
        let mut it = name.chars();
        loop
            invariant
                s == name@,
                total == s.len(),
                it.obeys_prophetic_iter_laws(),
                it.decrease() is Some,
                i <= total,
                it.remaining() == s.skip(i as int),
                w <= i,
                ww <= te <= i,
                w == word_start(s.take(i as int)),
                trim_end(s.take(i as int)) == s.take(te as int),
                ww == word_start(s.take(te as int)),
            ensures
                i == total,
            decreases it.decrease()->0,
        {
            match it.next() {
                Some(c) => {
                    proof {
                        assert(s.take(i + 1).drop_last() =~= s.take(i as int));
                    }
                    if char_is_whitespace(c) {
                        w = i + 1;
                    } else {
                        te = i + 1;
                        ww = w;
                    }
                    i = i + 1;
                },
                None => {
                    break ;
                },
            }
        }
        proof {
            assert(s.take(i as int) =~= s);
            assert(s.take(te as int).skip(ww as int) =~= s.subrange(ww as int, te as int));
        }
        ident_part(name.substring_char(ww, te))
    }
}

/// What a modifier does to the type it refers to.
#[derive(Debug, Clone, Copy, PartialEq, Eq, Structural)]
pub enum TypeModifierKind {
    /// A pointer to the type.
    Pointer,
    /// A reference to the type.
    Reference,
    /// An rvalue reference to the type.
    RvalueReference,
    /// The type made constant.
    Const,
    /// The type packed.
    Packed,
    /// The type made volatile.
    Volatile,
    /// The type restricted.
    Restrict,
    /// The type shared.
    Shared,
    /// The type made atomic.
    Atomic,
    /// Any other qualifier.
    Other,
}

/// A primitive type.
#[derive(Debug)]
pub struct BaseType {
    /// Its name in C.
    pub name: Option<String>,
    /// Its size in bytes.
    pub byte_size: Option<u64>,
}

/// An alias of another type.
#[derive(Debug)]
pub struct TypeDef {
    /// The qualified name of the alias.
    pub name: TypeName,
    /// The position of the type that it stands for.
    pub ty: usize,
}

/// What occupies a place in the layout of a structure.
#[derive(Debug)]
pub enum LayoutItem {
    /// Bytes or bits that no member uses.
    Padding,
    /// A member.
    Member {
        /// The name of the member.
        name: Option<String>,
        /// The position of its type.
        ty: usize,
    },
    /// A part whose shape depends on a discriminant.
    VariantPart,
    /// A base whose members the structure inherits.
    Inherit {
        /// The position of the type of the base.
        ty: usize,
    },
}

/// One item in the layout of a structure.
#[derive(Debug)]
pub struct Layout {
    /// Where the item begins, in bits from the start of the structure.
    pub bit_offset: u64,
    /// The number of bits that the item takes.
    pub bit_size: Option<u64>,
    /// What the item is.
    pub item: LayoutItem,
}

/// A structure or class.
#[derive(Debug)]
pub struct StructType {
    /// Its qualified name.
    pub name: TypeName,
    /// Its size in bytes.
    pub byte_size: Option<u64>,
    /// Whether the input only declares the type, without its members.
    pub declaration: bool,
    /// Its items in the order of their offsets, with the unused places
    /// between and after them as padding items.
    pub layout: Vec<Layout>,
}

/// A member of a union.
#[derive(Debug)]
pub struct UnionMember {
    /// The name of the member.
    pub name: Option<String>,
    /// The position of its type.
    pub ty: usize,
    /// Where the member begins, in bits from the start of the union.
    pub bit_offset: u64,
    /// The number of bits that the member takes.
    pub bit_size: Option<u64>,
}

/// A union.
#[derive(Debug)]
pub struct UnionType {
    /// Its qualified name.
    pub name: TypeName,
    /// Its size in bytes.
    pub byte_size: Option<u64>,
    /// Whether the input only declares the type, without its members.
    pub declaration: bool,
    /// Its members.
    pub members: Vec<UnionMember>,
}

/// The value of an enumerator.
#[derive(Debug, Clone, Copy, PartialEq, Eq, Structural)]
pub enum EnumeratorValue {
    /// A value that is read as a signed number.
    Signed(i64),
    /// A value that is read as an unsigned number.
    Unsigned(u64),
    /// A value that is not known.
    Other,
}

/// One named value of an enumeration.
#[derive(Debug)]
pub struct Enumerator {
    /// The name of the value.
    pub name: Option<String>,
    /// The value.
    pub value: EnumeratorValue,
}

/// An enumeration.
#[derive(Debug)]
pub struct EnumerationType {
    /// Its qualified name.
    pub name: TypeName,
    /// Its size in bytes.
    pub byte_size: Option<u64>,
    /// Whether the input only declares the type, without its values.
    pub declaration: bool,
    /// Its values.
    pub enumerators: Vec<Enumerator>,
}

/// Every dimension is known.
pub open spec fn dims_known(dims: Seq<Option<u64>>) -> bool {
    forall|i: int| 0 <= i < dims.len() ==> (#[trigger] dims[i]) is Some
}

/// The product of the dimensions.
pub open spec fn dims_product(dims: Seq<Option<u64>>) -> nat
    decreases dims.len(),
{
    if dims.len() == 0 {
        1
    } else {
        dims_product(dims.drop_last()) * (dims.last()->0 as nat)
    }
}

/// The number of elements of an array with the dimensions `dims`: their
/// product. There is none where the array has no dimension, where a
/// dimension is not known, and where the product is above `u64::MAX`.
pub open spec fn element_count_spec(dims: Seq<Option<u64>>) -> Option<u64> {
    if dims.len() == 0 || !dims_known(dims) || dims_product(dims) > u64::MAX {
        None
    } else {
        Some(dims_product(dims) as u64)
    }
}

/// A product with a factor of zero is zero.
pub proof fn lemma_product_zero(dims: Seq<Option<u64>>, i: int)
    requires
        0 <= i < dims.len(),
        dims[i] == Some(0u64),
    ensures
        dims_product(dims) == 0,
    decreases dims.len(),
{
    if i < dims.len() - 1 {
        lemma_product_zero(dims.drop_last(), i);
        assert(0 * (dims.last()->0 as nat) == 0) by (nonlinear_arith);
    } else {
        assert(dims_product(dims.drop_last()) * 0 == 0) by (nonlinear_arith);
    }
}

/// A product of factors that are not zero is no less than the product of
/// the first of them.
pub proof fn lemma_product_grows(dims: Seq<Option<u64>>, k: int)
    requires
        0 <= k <= dims.len(),
        forall|i: int| 0 <= i < dims.len() ==> (#[trigger] dims[i]) is Some && dims[i]->0 >= 1,
    ensures
        dims_product(dims.take(k)) <= dims_product(dims),
    decreases dims.len() - k,
{
    if k < dims.len() {
        lemma_product_grows(dims, k + 1);
        let longer = dims.take(k + 1);
        assert(longer.drop_last() =~= dims.take(k));
        assert(longer.last() == dims[k]);
        let p = dims_product(dims.take(k));
        let d = dims[k]->0 as nat;
        assert(p <= p * d) by (nonlinear_arith)
            requires
                d >= 1,
        ;
    } else {
        assert(dims.take(k) =~= dims);
    }
}

/// Tells the number of elements of an array from its dimensions.
pub fn element_count(dims: &[Option<u64>]) -> (r: Option<u64>)
    ensures
        r == element_count_spec(dims@),
{
    let n = dims.len();
    if n == 0 {
        return None;
    }
    let mut zero: Option<usize> = None;
    let mut i: usize = 0;
    while i < n
        invariant
            i <= n,
            n == dims@.len(),
            forall|k: int| 0 <= k < i ==> (#[trigger] dims@[k]) is Some,
            match zero {
                Some(z) => z < i && dims@[z as int] == Some(0u64),
                None => forall|k: int| 0 <= k < i ==> (#[trigger] dims@[k])->0 >= 1,
            },
        decreases n - i,
    {
        match dims[i] {
            None => {
                return None;
            },
            Some(d) => {
                if d == 0 {
                    zero = Some(i);
                }
            },
        }
        i = i + 1;
    }
    match zero {
        Some(z) => {
            proof {
                lemma_product_zero(dims@, z as int);
            }
            return Some(0);
        },
        None => {},
    }
    let mut count: u64 = 1;
    let mut j: usize = 0;
    proof {
        assert(dims@.take(0) =~= Seq::empty());
    }
    while j < n
        invariant
            j <= n,
            n == dims@.len(),
            forall|k: int| 0 <= k < n ==> (#[trigger] dims@[k]) is Some && dims@[k]->0 >= 1,
            count == dims_product(dims@.take(j as int)),
        decreases n - j,
    {
        let d = match dims[j] {
            Some(d) => d,
            None => 1,
        };
        proof {
            assert(dims@.take(j + 1).drop_last() =~= dims@.take(j as int));
            assert(dims@.take(j + 1).last() == dims@[j as int]);
            lemma_product_grows(dims@, j + 1);
        }
        count = match count.checked_mul(d) {
            Some(c) => c,
            None => {
                return None;
            },
        };
        j = j + 1;
    }
    proof {
        assert(dims@.take(n as int) =~= dims@);
    }
    Some(count)
}

/// An array.
#[derive(Debug)]
pub struct ArrayType {
    /// The position of the type of its elements.
    pub ty: usize,
    /// The size of the whole array in bytes.
    pub byte_size: Option<u64>,
    /// The number of its elements.
    pub count: Option<u64>,
}

/// A pointer or reference to a type, or a qualified version of it.
#[derive(Debug)]
pub struct TypeModifier {
    /// What the modifier does.
    pub kind: TypeModifierKind,
    /// The position of the type that it modifies.
    pub ty: usize,
    /// The size of the modified type in bytes.
    pub byte_size: Option<u64>,
}

/// A type descriptor.
#[derive(Debug)]
pub enum TypeKind {
    /// The type `void`.
    Void,
    /// A primitive type.
    Base(BaseType),
    /// An alias.
    Def(TypeDef),
    /// A structure or class.
    Struct(StructType),
    /// A union.
    Union(UnionType),
    /// An enumeration.
    Enumeration(EnumerationType),
    /// An array.
    Array(ArrayType),
    /// A function type.
    Function,
    /// A type of which only the name is known.
    Unspecified,
    /// A pointer to a member.
    PointerToMember,
    /// A pointer, a reference or a qualified type.
    Modifier(TypeModifier),
    /// A subrange of another type.
    Subrange,
}

/// The type descriptors of all inputs.
#[derive(Debug)]
pub struct TypeGraph {
    /// For each input, its descriptors.
    pub inputs: Vec<Vec<TypeKind>>,
}

impl TypeGraph {
    /// The graph has a descriptor at `idx`.
    pub open spec fn has(&self, idx: TypeIndex) -> bool {
        idx.input_id < self.inputs.len() && idx.typoff < self.inputs[idx.input_id as int].len()
    }

    /// The descriptor at `idx`.
    pub open spec fn at(&self, idx: TypeIndex) -> TypeKind
        recommends
            self.has(idx),
    {
        self.inputs[idx.input_id as int][idx.typoff as int]
    }

    /// Looks up the descriptor at `idx`.
    pub fn node(&self, idx: TypeIndex) -> (found: Option<&TypeKind>)
        ensures
            self.has(idx) ==> found == Some(&self.at(idx)),
            !self.has(idx) ==> found is None,
    {
        if idx.input_id < self.inputs.len() {
            let types = &self.inputs[idx.input_id];
            if idx.typoff < types.len() {
                return Some(&types[idx.typoff]);
            }
        }
        None
    }
}

/// Where the definition of a named type stands.
#[derive(Debug)]
pub struct RegistryEntry {
    /// The qualified name of the type.
    pub name: TypeName,
    /// The position of its definition.
    pub index: TypeIndex,
}

/// The definitions of the named types of all inputs, in the order in which
/// they were found. Of several definitions under one name, the first counts.
#[derive(Debug)]
pub struct TypeRegistry {
    /// The definitions.
    pub entries: Vec<RegistryEntry>,
}

/// A registry as plain values: names with the positions of their
/// definitions.
pub type RegistryView = Seq<(TypeNameView, TypeIndex)>;

/// The position under which `name` stands first in `entries`.
pub open spec fn registry_find(entries: RegistryView, name: TypeNameView) -> Option<TypeIndex>
    decreases entries.len(),
{
    if entries.len() == 0 {
        None
    } else if entries[0].0 == name {
        Some(entries[0].1)
    } else {
        registry_find(entries.drop_first(), name)
    }
}

impl View for TypeRegistry {
    type V = RegistryView;

    open spec fn view(&self) -> RegistryView {
        self.entries@.map_values(|e: RegistryEntry| (e.name@, e.index))
    }
}

impl TypeRegistry {
    /// A registry without entries.
    pub fn new() -> (r: TypeRegistry)
        ensures
            r@ == RegistryView::empty(),
    {
        let r = TypeRegistry { entries: Vec::new() };
        r
    }

    /// Looks up the definition registered first under `name`.
    pub fn get(&self, name: &TypeName) -> (found: Option<TypeIndex>)
        ensures
            found == registry_find(self@, name@),
    {
        let ghost all = self@;
        let mut i: usize = 0;
        proof {
            assert(all.skip(0) =~= all);
        }
        while i < self.entries.len()
            invariant
                i <= self.entries.len(),
                all == self@,
                registry_find(all, name@) == registry_find(all.skip(i as int), name@),
            decreases self.entries.len() - i,
        {
            proof {
                assert(all.skip(i as int).drop_first() =~= all.skip(i + 1));
            }
            if self.entries[i].name.same_as(name) {
                return Some(self.entries[i].index);
            }
            i = i + 1;
        }
        None
    }

    /// Adds a definition after those already registered.
    pub fn insert(&mut self, name: TypeName, index: TypeIndex)
        ensures
            final(self)@ == old(self)@.push((name@, index)),
    {
        self.entries.push(RegistryEntry { name, index });
    }
}

} // verus!
