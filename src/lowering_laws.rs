//! Laws of the lowering to assembly, stated over the model of `asmgen`.
use vstd::prelude::*;
use crate::asmgen::{frame_offset, next_state, slot, state_after, with_var};
use crate::codegen::Instruction;

verus! {

/// The name referenced by a variable instruction.
pub open spec fn referenced_var(ins: Instruction) -> Option<Seq<char>> {
    match ins {
        Instruction::LoadVar(name) => Some(name@),
        Instruction::StoreVar(name) => Some(name@),
        _ => None,
    }
}

proof fn lemma_step(instrs: Seq<Instruction>, k: nat)
    ensures
        state_after(instrs, k + 1) == next_state(instrs[k as int], state_after(instrs, k)),
        state_after(instrs, k + 1).vars == match referenced_var(instrs[k as int]) {
            Some(name) => with_var(state_after(instrs, k).vars, name),
            None => state_after(instrs, k).vars,
        },
{
}

/// Lowering more instructions only appends to the variables and to the pool.
proof fn lemma_tables_grow(instrs: Seq<Instruction>, k1: nat, k2: nat)
    requires
        k1 <= k2,
    ensures
        state_after(instrs, k1).vars.len() <= state_after(instrs, k2).vars.len(),
        forall|i: int|
            0 <= i < state_after(instrs, k1).vars.len() ==> state_after(instrs, k2).vars[i]
                == #[trigger] state_after(instrs, k1).vars[i],
        state_after(instrs, k1).pool.len() <= state_after(instrs, k2).pool.len(),
        forall|i: int|
            0 <= i < state_after(instrs, k1).pool.len() ==> state_after(instrs, k2).pool[i]
                == #[trigger] state_after(instrs, k1).pool[i],
    decreases k2,
{
    if k1 < k2 {
        lemma_tables_grow(instrs, k1, (k2 - 1) as nat);
        lemma_step(instrs, (k2 - 1) as nat);
    }
}

proof fn lemma_vars_unique(instrs: Seq<Instruction>, k: nat)
    ensures
        state_after(instrs, k).vars.no_duplicates(),
    decreases k,
{
    if k > 0 {
        lemma_vars_unique(instrs, (k - 1) as nat);
        lemma_step(instrs, (k - 1) as nat);
    }
}

proof fn lemma_slot_of_unique(vars: Seq<Seq<char>>, i: int)
    requires
        vars.no_duplicates(),
        0 <= i < vars.len(),
    ensures
        slot(vars, vars[i]) == i,
        frame_offset(vars, vars[i]) == 8 * (i + 1),
{
    let c = slot(vars, vars[i]);
    assert(0 <= c < vars.len() && vars[c] == vars[i]);
}

/// Frame offsets are handed out in order of first reference: no variable
/// has two slots, the variable in slot `i` sits at offset `8 * (i + 1)`,
/// every referenced name has a slot, and lowering more instructions only
/// adds slots after the existing ones, so a name's offset never changes.
pub proof fn law_frame_offsets(instrs: Seq<Instruction>, k1: nat, k2: nat)
    requires
        k1 <= k2 <= instrs.len(),
    ensures
        ({
            let v1 = state_after(instrs, k1).vars;
            let v2 = state_after(instrs, k2).vars;
            &&& v2.no_duplicates()
            &&& v1.len() <= v2.len()
            &&& forall|i: int| 0 <= i < v1.len() ==> v2[i] == #[trigger] v1[i]
            &&& forall|i: int|
                0 <= i < v2.len() ==> #[trigger] frame_offset(v2, v2[i]) == 8 * (i + 1)
            &&& forall|i: int|
                0 <= i < v1.len() ==> #[trigger] frame_offset(v2, v1[i]) == frame_offset(
                    v1,
                    v1[i],
                )
            &&& forall|j: int|
                0 <= j < k2 && #[trigger] referenced_var(instrs[j]) is Some ==> v2.contains(
                    referenced_var(instrs[j])->0,
                )
        }),
{
    let v1 = state_after(instrs, k1).vars;
    let v2 = state_after(instrs, k2).vars;
    lemma_tables_grow(instrs, k1, k2);
    lemma_vars_unique(instrs, k1);
    lemma_vars_unique(instrs, k2);
    assert forall|i: int| 0 <= i < v2.len() implies #[trigger] frame_offset(v2, v2[i]) == 8 * (i
        + 1) by {
        lemma_slot_of_unique(v2, i);
    }
    assert forall|i: int| 0 <= i < v1.len() implies #[trigger] frame_offset(v2, v1[i])
        == frame_offset(v1, v1[i]) by {
        lemma_slot_of_unique(v2, i);
        lemma_slot_of_unique(v1, i);
    }
    assert forall|j: int| 0 <= j < k2 && #[trigger] referenced_var(instrs[j]) is Some implies v2.contains(
        referenced_var(instrs[j])->0,
    ) by {
        let name = referenced_var(instrs[j])->0;
        lemma_step(instrs, j as nat);
        let vj = state_after(instrs, (j + 1) as nat).vars;
        let prev = state_after(instrs, j as nat).vars;
        if !prev.contains(name) {
            assert(vj[vj.len() - 1] == name);
        }
        assert(vj.contains(name));
        let p = choose|p: int| 0 <= p < vj.len() && vj[p] == name;
        lemma_tables_grow(instrs, (j + 1) as nat, k2);
        assert(v2[p] == name);
    }
}

/// String literals take pool indices in order of occurrence: the literal of
/// a `PushString` at position `j1` gets the index `state_after(instrs,
/// j1).pool.len()`, which is below every index handed out later, and the
/// pool holds the literal at that index from then on.
pub proof fn law_pool_order(instrs: Seq<Instruction>, j1: nat, j2: nat)
    requires
        j1 < j2 <= instrs.len(),
        instrs[j1 as int] is PushString,
    ensures
        ({
            let index = state_after(instrs, j1).pool.len();
            &&& index < state_after(instrs, j2).pool.len()
            &&& state_after(instrs, j2).pool[index as int] == (instrs[j1 as int]->PushString_0)@
        }),
{
    lemma_step(instrs, j1);
    lemma_tables_grow(instrs, j1 + 1, j2);
    assert(state_after(instrs, j1 + 1).pool[state_after(instrs, j1).pool.len() as int] == (
    instrs[j1 as int]->PushString_0)@);
}

} // verus!
