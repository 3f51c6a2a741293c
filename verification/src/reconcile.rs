//! The reconciliation cycle's merge: every remote artifact's update task
//! returns an outcome, and the outcomes are folded, in the remote manifest's
//! order, into the next local manifest.
//!
//! After a cycle, the entry of every applied artifact equals the remote
//! entry; the entry of every skipped or failed artifact equals its prior
//! local value; and a failed fresh install leaves no entry behind.

use vstd::prelude::*;

use crate::manifest::{has_key, Artifact, Artifacts};
use crate::update::Outcome;

verus! {

/// Folds one artifact's outcome into the next local manifest: an applied
/// update contributes the remote entry; anything else keeps the prior local
/// entry, or contributes nothing where there was none.
pub fn apply_outcome(
    acc: &mut Artifacts,
    name: &String,
    local_artifact: Option<&Artifact>,
    remote_artifact: &Artifact,
    outcome: &Outcome,
)
    requires
        old(acc).wf(),
        !old(acc)@.contains_key(name@),
    ensures
        final(acc).wf(),
        outcome is Applied ==> final(acc)@ == old(acc)@.insert(name@, *remote_artifact),
        !(outcome is Applied) ==> match local_artifact {
            Some(a) => final(acc)@ == old(acc)@.insert(name@, *a),
            None => final(acc)@ == old(acc)@,
        },
{
    match outcome {
        Outcome::Applied => {
            acc.insert(name.clone(), remote_artifact.clone());
        },
        _ => {
            match local_artifact {
                Some(a) => {
                    acc.insert(name.clone(), a.clone());
                },
                None => {},
            }
        },
    }
}

/// Builds the next local manifest from the remote manifest and the per-task
/// outcomes, collected in the remote manifest's order: applied artifacts take
/// the remote entry, everything else keeps its prior local entry, and no
/// other name appears.
pub fn apply_outcomes(local: &Artifacts, remote: &Artifacts, outcomes: &Vec<Outcome>) -> (r:
    Artifacts)
    requires
        local.wf(),
        remote.wf(),
        outcomes@.len() == remote.components@.len(),
    ensures
        r.wf(),
        forall|i: int|
            0 <= i < remote.components@.len() ==> {
                let name = (#[trigger] remote.components@[i]).0@;
                if outcomes@[i] is Applied {
                    r@.contains_key(name) && r@[name] == remote.components@[i].1
                } else if local@.contains_key(name) {
                    r@.contains_key(name) && r@[name] == local@[name]
                } else {
                    !r@.contains_key(name)
                }
            },
        forall|k: Seq<char>| #[trigger] r@.contains_key(k) ==> has_key(remote.components@, k),
{
    let n = remote.len();
    let mut r = Artifacts::with_capacity(n);
    let mut i: usize = 0;
    while i < n
        invariant
            local.wf(),
            remote.wf(),
            outcomes@.len() == remote.components@.len(),
            n == remote.components@.len(),
            i <= n,
            r.wf(),
            forall|j: int|
                0 <= j < i ==> {
                    let name = (#[trigger] remote.components@[j]).0@;
                    if outcomes@[j] is Applied {
                        r@.contains_key(name) && r@[name] == remote.components@[j].1
                    } else if local@.contains_key(name) {
                        r@.contains_key(name) && r@[name] == local@[name]
                    } else {
                        !r@.contains_key(name)
                    }
                },
            forall|k: Seq<char>| #[trigger] r@.contains_key(k) ==> exists|j: int|
                0 <= j < i && remote.components@[j].0@ == k,
        decreases n - i,
    {
        let pair = &remote.components[i];
        proof {
            if r@.contains_key(pair.0@) {
                let j = choose|j: int| 0 <= j < i && remote.components@[j].0@ == pair.0@;
                assert(remote.components@[j].0@ != remote.components@[i as int].0@);
            }
        }
        let local_artifact = local.get(&pair.0);
        apply_outcome(&mut r, &pair.0, local_artifact, &pair.1, &outcomes[i]);
        i += 1;
    }
    r
}

} // verus!
