//! The fields of a structure or union under construction.

use crate::ids::next_id;
use crate::ids::uniq_id;
use crate::ids::IdGenerator;
use crate::printer::assert_views;
use crate::printer::EqAssert;
use crate::printer::EqAssertView;
use crate::text::all_ident_chars;
use crate::text::decimal;
use crate::text::is_valid_ident;
use crate::text::push_decimal;
use crate::text::texts;
use vstd::prelude::*;
use vstd::string::StringExecFns;

verus! {

/// One field of a structure or union that is being put together.
#[derive(Debug)]
pub struct Member {
    /// Where the field begins, in bytes.
    pub off: u64,
    /// The number of bytes that the field takes.
    pub len: u64,
    /// The name of the field.
    pub field_name: String,
    /// The declaration of the field, without the semicolon.
    pub def: String,
    /// Whether the field only fills space that the compiler left unused.
    pub is_padding: bool,
}

/// A field as plain values.
pub struct MemberView {
    /// Where the field begins, in bytes.
    pub off: u64,
    /// The number of bytes that the field takes.
    pub len: u64,
    /// The name of the field.
    pub field_name: Seq<char>,
    /// The declaration of the field, without the semicolon.
    pub def: Seq<char>,
    /// Whether the field only fills unused space.
    pub is_padding: bool,
}

impl View for Member {
    type V = MemberView;

    open spec fn view(&self) -> MemberView {
        MemberView {
            off: self.off,
            len: self.len,
            field_name: self.field_name@,
            def: self.def@,
            is_padding: self.is_padding,
        }
    }
}

/// The fields of a list, as plain values.
pub open spec fn member_views(v: Seq<Member>) -> Seq<MemberView> {
    v.map_values(|m: Member| m@)
}

/// The C expression for the offset of `field` in the type `tyname`.
pub open spec fn offset_expr(tyname: Seq<char>, field: Seq<char>) -> Seq<char> {
    "(long int)(&((("@ + tyname + "*)0)->"@ + field + "))"@
}

/// The C expression for the size of `field` in the type `tyname`.
pub open spec fn size_expr(tyname: Seq<char>, field: Seq<char>) -> Seq<char> {
    "sizeof((("@ + tyname + "*)0)->"@ + field + ")"@
}

/// The line that declares a field in a definition.
pub open spec fn member_line(def: Seq<char>) -> Seq<char> {
    "  "@ + def + ";"@
}

/// The two checks on a field of the type `tyname`: its offset, then its
/// size.
pub open spec fn member_asserts(tyname: Seq<char>, m: MemberView) -> Seq<EqAssertView> {
    seq![
        EqAssertView { expr: offset_expr(tyname, m.field_name), val: m.off },
        EqAssertView { expr: size_expr(tyname, m.field_name), val: m.len },
    ]
}

/// The declaration of an array of `len` bytes named `field`.
pub open spec fn byte_array_def(field: Seq<char>, len: u64) -> Seq<char> {
    "__u8 "@ + field + "["@ + decimal(len as nat) + "]"@
}

/// A field of `len` bytes at `off` that stands for something that is not
/// reproduced: an array of bytes whose name is `prefix` followed by `id`.
pub open spec fn opaque_member(
    off: u64,
    len: u64,
    prefix: Seq<char>,
    id: u64,
    is_padding: bool,
) -> MemberView {
    MemberView {
        off,
        len,
        field_name: prefix + decimal(id as nat),
        def: byte_array_def(prefix + decimal(id as nat), len),
        is_padding,
    }
}

/// The field of type `ty` named `field` that takes `len` bytes at `off`.
pub open spec fn typed_member(off: u64, len: u64, ty: Seq<char>, field: Seq<char>) -> MemberView {
    MemberView { off, len, field_name: field, def: ty + " "@ + field, is_padding: false }
}

/// The name under which a member is declared, and the counter afterwards,
/// where the counter stands at `id`. A member without a name is called
/// `__anon` and a number; one whose name is no identifier, `__mem` and a
/// number; any other keeps its name.
pub open spec fn member_name_spec(input: Option<Seq<char>>, id: u64) -> (Seq<char>, u64) {
    match input {
        None => ("__anon"@ + decimal(id as nat), next_id(id)),
        Some(s) => {
            if all_ident_chars(s) {
                (s, id)
            } else {
                ("__mem"@ + decimal(id as nat), next_id(id))
            }
        },
    }
}

fn opaque(off: u64, len: u64, prefix: &str, is_padding: bool, ids: &mut IdGenerator) -> (m:
    Member)
    ensures
        m@ == opaque_member(off, len, prefix@, old(ids).next, is_padding),
        final(ids).next == next_id(old(ids).next),
{
    let mut field_name = String::from_str(prefix);
    push_decimal(&mut field_name, uniq_id(ids));
    let mut def = String::from_str("__u8 ");
    def.append(field_name.as_str());
    def.append("[");
    push_decimal(&mut def, len);
    def.append("]");
    Member { off, len, field_name, def, is_padding }
}

impl Member {
    /// Adds the declaration of the field to `def` and the checks of its
    /// offset and its size in the type `tyname` to `asserts`.
    pub fn print(&self, tyname: &str, def: &mut Vec<String>, asserts: &mut Vec<EqAssert>)
        ensures
            texts(final(def)@) == texts(old(def)@).push(member_line(self.def@)),
            assert_views(final(asserts)@) == assert_views(old(asserts)@) + member_asserts(
                tyname@,
                self@,
            ),
    {
        let mut l = String::from_str("  ");
        l.append(self.def.as_str());
        l.append(";");
        def.push(l);
        let mut at = String::from_str("(long int)(&(((");
        at.append(tyname);
        at.append("*)0)->");
        at.append(self.field_name.as_str());
        at.append("))");
        asserts.push(EqAssert { expr: at, val: self.off });
        let mut size = String::from_str("sizeof(((");
        size.append(tyname);
        size.append("*)0)->");
        size.append(self.field_name.as_str());
        size.append(")");
        asserts.push(EqAssert { expr: size, val: self.len });
    }

    /// A field that fills `len` unused bytes at `off`, named `__padding` and
    /// a number drawn from `ids`.
    pub fn new_padding(off: u64, len: u64, ids: &mut IdGenerator) -> (m: Member)
        ensures
            m@ == opaque_member(off, len, "__padding"@, old(ids).next, true),
            final(ids).next == next_id(old(ids).next),
    {
        opaque(off, len, "__padding", true, ids)
    }

    /// A field of `len` bytes at `off` in place of something that is not
    /// reproduced, named `name` and a number drawn from `ids`.
    pub fn new_placeholder(off: u64, len: u64, name: &str, ids: &mut IdGenerator) -> (m: Member)
        ensures
            m@ == opaque_member(off, len, name@, old(ids).next, false),
            final(ids).next == next_id(old(ids).next),
    {
        opaque(off, len, name, false, ids)
    }
}

/// Tells the name under which to declare a member whose name in the input is
/// `input`. A number is drawn from `ids` only where a name is made up.
pub fn member_name(input: Option<&str>, ids: &mut IdGenerator) -> (name: String)
    ensures
        name@ == member_name_spec(
            match input {
                Some(s) => Some(s@),
                None => None,
            },
            old(ids).next,
        ).0,
        final(ids).next == member_name_spec(
            match input {
                Some(s) => Some(s@),
                None => None,
            },
            old(ids).next,
        ).1,
{
    match input {
        None => {
            let mut name = String::from_str("__anon");
            push_decimal(&mut name, uniq_id(ids));
            name
        },
        Some(s) => {
            if is_valid_ident(s) {
                String::from_str(s)
            } else {
                let mut name = String::from_str("__mem");
                push_decimal(&mut name, uniq_id(ids));
                name
            }
        },
    }
}

} // verus!
