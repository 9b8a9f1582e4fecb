use vstd::prelude::*;
use crate::table::EnumTable;

verus! {

/// The sentinel mask code (SKB_DROP_REASON_SUBSYS_MASK): it marks the
/// subsystem bits of a code and never names a real drop reason.
pub const SUBSYS_MASK: u32 = 0xffff0000;

/// How many drop-reason subsystems are known here. Kept in sync with the
/// kernel definition of `enum skb_drop_reason_subsys`, which may grow.
pub const SKB_DROP_REASON_SUBSYS_NUM: usize = 5;

/// A declared member value, reinterpreted as the unsigned 32-bit table key.
pub open spec fn spec_reinterpret(v: i64) -> u32 {
    ((v as int) % 0x100000000) as u32
}

/// Reinterprets a member's declared value, which the metadata may hand over
/// sign-extended, as the unsigned 32-bit table key.
pub fn reinterpret_key(v: i64) -> (r: u32)
    ensures
        r == spec_reinterpret(v),
{
    match v.checked_rem_euclid(0x100000000) {
        Some(m) => m as u32,
        None => {
            proof {
                assert(false);
            }
            0
        },
    }
}

/// The table that one enumeration's member list denotes: each declared value
/// keyed by its 32-bit reinterpretation; on a key collision the later member
/// wins.
pub open spec fn spec_member_map(s: Seq<(i64, String)>) -> Map<u32, Seq<char>>
    decreases s.len(),
{
    if s.len() == 0 {
        Map::empty()
    } else {
        spec_member_map(s.drop_last()).insert(spec_reinterpret(s.last().0), s.last().1@)
    }
}

/// Builds the member table of one enumeration from its (value, name) pairs,
/// in declaration order.
pub fn table_from_members(members: &Vec<(i64, String)>) -> (t: EnumTable)
    ensures
        t.wf(),
        t@ == spec_member_map(members@),
{
    let mut t = EnumTable::new();
    let n = members.len();
    let mut i: usize = 0;
    proof {
        assert(members@.subrange(0, 0) =~= Seq::<(i64, String)>::empty());
    }
    while i < n
        invariant
            t.wf(),
            n == members@.len(),
            0 <= i <= n,
            t@ == spec_member_map(members@.subrange(0, i as int)),
        decreases n - i,
    {
        let key = reinterpret_key(members[i].0);
        let name = members[i].1.clone();
        t.insert(key, name);
        proof {
            assert(members@.subrange(0, i + 1).drop_last() =~= members@.subrange(0, i as int));
            assert(members@.subrange(0, i + 1).last() == members@[i as int]);
        }
        i += 1;
    }
    proof {
        assert(members@.subrange(0, n as int) =~= members@);
    }
    t
}

/// Adds every entry of `ext` whose code is still absent from `acc`: an entry
/// already present is never overwritten.
pub fn merge_into(acc: &mut EnumTable, ext: &EnumTable)
    requires
        old(acc).wf(),
        ext.wf(),
    ensures
        final(acc).wf(),
        forall|c: u32|
            final(acc)@.contains_key(c) <==> old(acc)@.contains_key(c) || ext@.contains_key(c),
        forall|c: u32| old(acc)@.contains_key(c) ==> final(acc)@[c] == old(acc)@[c],
        forall|c: u32|
            !old(acc)@.contains_key(c) && ext@.contains_key(c) ==> final(acc)@[c] == ext@[c],
{
    let n = ext.entries.len();
    let mut i: usize = 0;
    while i < n
        invariant
            acc.wf(),
            ext.wf(),
            n == ext.entries@.len(),
            0 <= i <= n,
            forall|c: u32|
                acc@.contains_key(c) <==> old(acc)@.contains_key(c) || exists|j: int|
                    0 <= j < i && ext.entries@[j].0 == c,
            forall|c: u32| old(acc)@.contains_key(c) ==> acc@[c] == old(acc)@[c],
            forall|c: u32|
                !old(acc)@.contains_key(c) && acc@.contains_key(c) ==> ext@.contains_key(c)
                    && acc@[c] == ext@[c],
        decreases n - i,
    {
        let code = ext.entries[i].0;
        let name = ext.entries[i].1.clone();
        proof {
            ext.lemma_entries_in_view();
        }
        acc.insert_if_absent(code, name);
        proof {
            assert(ext.entries@[i as int].0 == code);
        }
        i += 1;
    }
}

/// Whether some extension among the first `upto` defines the code.
pub open spec fn ext_defines(exts: Seq<EnumTable>, upto: int, c: u32) -> bool {
    exists|k: int| 0 <= k < upto && #[trigger] exts[k]@.contains_key(c)
}

proof fn lemma_ext_defines_step(exts: Seq<EnumTable>, u: int, c: u32)
    requires
        0 <= u,
    ensures
        ext_defines(exts, u + 1, c) <==> (ext_defines(exts, u, c) || exts[u]@.contains_key(c)),
{
    if ext_defines(exts, u + 1, c) {
        let k = choose|k: int| 0 <= k < u + 1 && #[trigger] exts[k]@.contains_key(c);
        if k < u {
            assert(ext_defines(exts, u, c));
        } else {
            assert(exts[u]@.contains_key(c));
        }
    }
    if ext_defines(exts, u, c) {
        let k = choose|k: int| 0 <= k < u && #[trigger] exts[k]@.contains_key(c);
        assert(0 <= k < u + 1 && exts[k]@.contains_key(c));
    }
    if exts[u]@.contains_key(c) {
        assert(0 <= u < u + 1 && exts[u]@.contains_key(c));
    }
}

/// What the merged table is, pointwise. A code is present when the core
/// defines it (the sentinel mask aside) or some extension does; the core's
/// name always wins, and among extensions the earliest listed one that
/// defines the code wins; the sentinel mask code is present only if an
/// extension itself defines it.
pub open spec fn merged_table_ok(t: EnumTable, core: EnumTable, exts: Seq<EnumTable>) -> bool {
    &&& forall|c: u32|
        #[trigger] t@.contains_key(c) <==> ((c != SUBSYS_MASK && core@.contains_key(c))
            || ext_defines(exts, exts.len() as int, c))
    &&& forall|c: u32| c != SUBSYS_MASK && #[trigger] core@.contains_key(c) ==> t@[c] == core@[c]
    &&& forall|c: u32, k: int|
        !(c != SUBSYS_MASK && core@.contains_key(c)) && 0 <= k < exts.len()
            && #[trigger] exts[k]@.contains_key(c) && (forall|j: int|
            0 <= j < k ==> !#[trigger] exts[j]@.contains_key(c)) ==> t@[c] == exts[k]@[c]
    &&& !ext_defines(exts, exts.len() as int, SUBSYS_MASK) ==> !t@.contains_key(SUBSYS_MASK)
}

/// Merges the core table with the extension tables under the first-writer-wins
/// rule: the core always keeps its name for a code it defines, and an
/// earlier-listed extension wins over a later one. The sentinel mask code is
/// removed from the core before the merge, whether or not it was present.
pub fn build_reason_table(core: EnumTable, exts: &Vec<EnumTable>) -> (t: EnumTable)
    requires
        core.wf(),
        forall|k: int| 0 <= k < exts@.len() ==> (#[trigger] exts@[k]).wf(),
    ensures
        t.wf(),
        merged_table_ok(t, core, exts@),
{
    let ghost orig = core@;
    let mut t = core;
    t.remove(SUBSYS_MASK);
    let ghost base = t@;
    proof {
        assert(forall|c: u32|
            #[trigger] base.contains_key(c) <==> (c != SUBSYS_MASK && orig.contains_key(c)));
        assert(forall|c: u32| #[trigger] base.contains_key(c) ==> base[c] == orig[c]);
    }
    let m = exts.len();
    let mut i: usize = 0;
    while i < m
        invariant
            t.wf(),
            m == exts@.len(),
            0 <= i <= m,
            forall|k: int| 0 <= k < m ==> (#[trigger] exts@[k]).wf(),
            forall|c: u32|
                #[trigger] t@.contains_key(c) <==> (base.contains_key(c)
                    || ext_defines(exts@, i as int, c)),
            forall|c: u32| #[trigger] base.contains_key(c) ==> t@[c] == base[c],
            forall|c: u32, k: int|
                0 <= k < i && !base.contains_key(c) && #[trigger] exts@[k]@.contains_key(c)
                    && (forall|j: int| 0 <= j < k ==> !#[trigger] exts@[j]@.contains_key(c))
                    ==> t@[c] == exts@[k]@[c],
        decreases m - i,
    {
        let ghost pre = t@;
        let ext = &exts[i];
        merge_into(&mut t, ext);
        proof {
            assert forall|c: u32|
                #[trigger] t@.contains_key(c) <==> (base.contains_key(c)
                    || ext_defines(exts@, i + 1, c)) by {
                lemma_ext_defines_step(exts@, i as int, c);
                assert(pre.contains_key(c) <==> (base.contains_key(c)
                    || ext_defines(exts@, i as int, c)));
                assert(t@.contains_key(c) <==> (pre.contains_key(c)
                    || exts@[i as int]@.contains_key(c)));
            }
            assert forall|c: u32, k: int|
                0 <= k < i + 1 && !base.contains_key(c) && #[trigger] exts@[k]@.contains_key(c)
                    && (forall|j: int| 0 <= j < k ==> !#[trigger] exts@[j]@.contains_key(c))
                    implies t@[c] == exts@[k]@[c] by {
                lemma_ext_defines_step(exts@, i as int, c);
                if k < i {
                    assert(ext_defines(exts@, i as int, c)) by {
                        assert(0 <= k < i && exts@[k]@.contains_key(c));
                    }
                    assert(pre.contains_key(c));
                    assert(t@[c] == pre[c]);
                } else {
                    assert(!ext_defines(exts@, i as int, c)) by {
                        if ext_defines(exts@, i as int, c) {
                            let kk = choose|kk: int|
                                0 <= kk < i && #[trigger] exts@[kk]@.contains_key(c);
                            assert(!exts@[kk]@.contains_key(c));
                        }
                    }
                    assert(!pre.contains_key(c));
                    assert(t@[c] == exts@[i as int]@[c]);
                }
            }
        }
        i += 1;
    }
    proof {
        assert forall|c: u32|
            #[trigger] t@.contains_key(c) <==> ((c != SUBSYS_MASK && orig.contains_key(c))
                || ext_defines(exts@, exts@.len() as int, c)) by {
            assert(base.contains_key(c) <==> (c != SUBSYS_MASK && orig.contains_key(c)));
        }
        assert forall|c: u32|
            c != SUBSYS_MASK && #[trigger] orig.contains_key(c) implies t@[c] == orig[c] by {
            assert(base.contains_key(c));
        }
    }
    t
}

/// Whether the subsystem enumeration names more subsystems than this library
/// has built-in support for. Raw-code resolution still works in that case:
/// unknown codes fall back to a generic label with subsystem annotation.
pub fn more_subsystems_than_known(subsys: &EnumTable) -> (r: bool)
    ensures
        r == (subsys.entries@.len() > SKB_DROP_REASON_SUBSYS_NUM),
{
    subsys.len() > SKB_DROP_REASON_SUBSYS_NUM
}

} // verus!
