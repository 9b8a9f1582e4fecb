use vstd::prelude::*;
use crate::merge::{build_reason_table, merged_table_ok, table_from_members};
use crate::table::EnumTable;
use btf_rs::utils::collection::{BtfCollection, NamedBtf};
use btf_rs::{Enum, EnumMember, Type};

verus! {

/// How a table build can fail. Absence of an optional enumeration is not an
/// error: it is reported as `None` and skipped.
#[derive(Debug)]
pub enum TableError {
    /// The metadata source could not be read or parsed.
    MetadataLoad(String),
    /// The core drop-reason enumeration does not exist in the metadata: the
    /// kernel build does not support drop reasons at all.
    Unsupported,
    /// An enumeration member's name could not be resolved from the metadata.
    MemberName(String),
}

#[verifier::external_type_specification]
#[verifier::external_body]
pub struct ExBtfCollection(BtfCollection);

#[verifier::external_type_specification]
#[verifier::external_body]
pub struct ExNamedBtf(NamedBtf);

#[verifier::external_type_specification]
#[verifier::external_body]
pub struct ExType(Type);

#[verifier::external_type_specification]
#[verifier::external_body]
pub struct ExEnum(Enum);

#[verifier::external_type_specification]
#[verifier::external_body]
pub struct ExEnumMember(EnumMember);

#[verifier::external_type_specification]
#[verifier::external_body]
pub struct ExBtfError(btf_rs::Error);

/// Relies on `BtfCollection::resolve_types_by_name`: every type definition
/// with the given name across the loaded BTF files, each paired with the BTF
/// object it was found in; an error when the metadata itself cannot be read.
#[verifier::external_body]
fn resolve_types<'a>(col: &'a BtfCollection, name: &str) -> (r: Result<
    Vec<(&'a NamedBtf, Type)>,
    btf_rs::Error,
>) {
    col.resolve_types_by_name(name)
}

/// Relies on the `btf_rs::Type` enum: picks out its enumeration variant.
#[verifier::external_body]
fn type_as_enum(t: &Type) -> (r: Option<&Enum>) {
    match t {
        Type::Enum(e) => Some(e),
        _ => None,
    }
}

/// Relies on the public `members` field of `btf_rs::Enum`: the member list,
/// in declaration order.
#[verifier::external_body]
fn enum_members(e: &Enum) -> (r: &Vec<EnumMember>) {
    &e.members
}

/// Relies on `btf_rs::EnumMember::val`: the member's value as stored in the
/// metadata.
#[verifier::external_body]
fn member_value(m: &EnumMember) -> (r: u32) {
    m.val()
}

/// Relies on `btf_rs::Btf::resolve_name`: the member's declared name, read
/// from the string table of the BTF object the enumeration came from.
#[verifier::external_body]
fn member_name(btf: &NamedBtf, m: &EnumMember) -> (r: Result<String, btf_rs::Error>) {
    btf.resolve_name(m)
}

/// Relies on the `Display` impl of `btf_rs::Error` for a readable message.
#[verifier::external_body]
fn btf_error_message(e: &btf_rs::Error) -> (r: String) {
    format!("{e}")
}

/// Extracts the enumeration with the given name: the first enumeration-kind
/// definition found, as its member table. `None` when no definition carries
/// the name or none of them is an enumeration; an error when the metadata
/// cannot be read or a member's name cannot be resolved.
pub fn parse_enum(col: &BtfCollection, name: &str) -> (r: Result<Option<EnumTable>, TableError>)
    ensures
        match r {
            Ok(Some(t)) => t.wf(),
            Ok(None) => true,
            Err(e) => e is MetadataLoad || e is MemberName,
        },
{
    let types = match resolve_types(col, name) {
        Ok(types) => types,
        Err(e) => return Err(TableError::MetadataLoad(btf_error_message(&e))),
    };
    let n = types.len();
    let mut i: usize = 0;
    while i < n
        invariant
            0 <= i <= n,
            n == types@.len(),
        decreases n - i,
    {
        let pair = &types[i];
        if let Some(en) = type_as_enum(&pair.1) {
            let btf = pair.0;
            let members = enum_members(en);
            let m = members.len();
            let mut raw: Vec<(i64, String)> = Vec::new();
            let mut j: usize = 0;
            while j < m
                invariant
                    0 <= j <= m,
                    m == members@.len(),
                decreases m - j,
            {
                let value = member_value(&members[j]);
                let resolved = match member_name(btf, &members[j]) {
                    Ok(s) => s,
                    Err(e) => return Err(TableError::MemberName(btf_error_message(&e))),
                };
                raw.push((value as i64, resolved));
                j += 1;
            }
            return Ok(Some(table_from_members(&raw)));
        }
        i += 1;
    }
    Ok(None)
}

/// The non-core drop-reason enumerations known here, in precedence order: for
/// colliding codes an earlier entry wins over a later one.
pub fn non_core_drop_reasons() -> (names: Vec<&'static str>)
    ensures
        names@.len() == 2,
        names@[0]@ == "mac80211_drop_reason"@,
        names@[1]@ == "ovs_drop_reason"@,
{
    let mut names: Vec<&'static str> = Vec::new();
    names.push("mac80211_drop_reason");
    names.push("ovs_drop_reason");
    names
}

/// Decides the build outcome from the extraction results alone: a missing
/// core enumeration means drop reasons are unsupported; otherwise the core
/// and the extensions, in their given precedence order, merge into the final
/// table, and the subsystem table passes through as extracted.
pub fn build_from_parts(
    core: Option<EnumTable>,
    exts: Vec<EnumTable>,
    subsys: Option<EnumTable>,
) -> (r: Result<(EnumTable, Option<EnumTable>), TableError>)
    requires
        core matches Some(c) ==> c.wf(),
        forall|k: int| 0 <= k < exts@.len() ==> (#[trigger] exts@[k]).wf(),
    ensures
        match r {
            Ok(p) => core matches Some(c) && p.0.wf() && merged_table_ok(p.0, c, exts@) && p.1
                == subsys,
            Err(e) => core is None && e is Unsupported,
        },
{
    match core {
        Some(c) => {
            let reasons = build_reason_table(c, &exts);
            Ok((reasons, subsys))
        },
        None => Err(TableError::Unsupported),
    }
}

/// Builds the merged drop-reason table and the optional subsystem table from
/// the loaded metadata. Fails with `Unsupported` when the core drop-reason
/// enumeration is absent; an absent extension or subsystem enumeration is not
/// an error.
pub fn build_tables(col: &BtfCollection) -> (r: Result<(EnumTable, Option<EnumTable>), TableError>)
    ensures
        match r {
            Ok(p) => p.0.wf() && match p.1 {
                Some(s) => s.wf(),
                None => true,
            },
            Err(_) => true,
        },
{
    let core = match parse_enum(col, "skb_drop_reason") {
        Ok(opt) => opt,
        Err(e) => return Err(e),
    };
    if core.is_none() {
        return Err(TableError::Unsupported);
    }
    let ext_names = non_core_drop_reasons();
    let mut exts: Vec<EnumTable> = Vec::new();
    let mut i: usize = 0;
    while i < ext_names.len()
        invariant
            0 <= i <= ext_names@.len(),
            forall|k: int| 0 <= k < exts@.len() ==> (#[trigger] exts@[k]).wf(),
        decreases ext_names@.len() - i,
    {
        match parse_enum(col, ext_names[i]) {
            Ok(Some(t)) => exts.push(t),
            Ok(None) => (),
            Err(e) => return Err(e),
        }
        i += 1;
    }
    let subsys = match parse_enum(col, "skb_drop_reason_subsys") {
        Ok(opt) => opt,
        Err(e) => return Err(e),
    };
    build_from_parts(core, exts, subsys)
}

} // verus!
