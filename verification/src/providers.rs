use vstd::prelude::*;

verus! {

/// Hardware-acceleration providers a graph commit may use.
#[derive(Clone, Copy, Debug, PartialEq, Eq, Structural)]
pub enum Provider {
    Cuda,
    CoreMl,
    DirectMl,
    Cpu,
}

/// The fixed preference order of registration attempts: accelerated
/// providers first, the software baseline last.
pub fn preference_order() -> (r: Vec<Provider>)
    ensures
        r@ == seq![Provider::Cuda, Provider::CoreMl, Provider::DirectMl, Provider::Cpu],
{
    let mut v: Vec<Provider> = Vec::new();
    v.push(Provider::Cuda);
    v.push(Provider::CoreMl);
    v.push(Provider::DirectMl);
    v.push(Provider::Cpu);
    proof {
        assert(v@ =~= seq![Provider::Cuda, Provider::CoreMl, Provider::DirectMl, Provider::Cpu]);
    }
    v
}

/// Picks the registration attempt to commit with: registrations are
/// best-effort and independent, so the first success wins; total failure
/// yields none and the engine still commits with a bare default, failing
/// only when that commit fails too.
pub fn select_provider(outcomes: &Vec<bool>) -> (r: Option<usize>)
    ensures
        match r {
            Some(u) => u < outcomes@.len() && outcomes@[u as int] && (forall|j: int|
                0 <= j < u ==> !outcomes@[j]),
            None => forall|j: int| 0 <= j < outcomes@.len() ==> !outcomes@[j],
        },
{
    let mut i: usize = 0;
    while i < outcomes.len()
        invariant
            i <= outcomes@.len(),
            forall|j: int| 0 <= j < i ==> !outcomes@[j],
        decreases outcomes@.len() - i,
    {
        if outcomes[i] {
            return Some(i);
        }
        i = i + 1;
    }
    None
}

} // verus!
