//! The pod the global shortcuts act on.

use vstd::prelude::*;

use crate::settings::Pod;

verus! {

/// The first enabled pod: the one clipboard text is collected into, whose panel
/// the shortcut opens, and whose bar tells whether the bars are showing.
pub fn collect_into_first_pod(pods: &Vec<Pod>) -> (r: Option<u64>)
    ensures
        match r {
            Some(id) => exists|i: int|
                0 <= i < pods@.len() && pods@[i].enabled && pods@[i].id == id && forall|j: int|
                    0 <= j < i ==> !pods@[j].enabled,
            None => forall|j: int| 0 <= j < pods@.len() ==> !pods@[j].enabled,
        },
{
    let mut i: usize = 0;
    while i < pods.len()
        invariant
            i <= pods.len(),
            forall|j: int| 0 <= j < i ==> !pods@[j].enabled,
        decreases pods.len() - i,
    {
        if pods[i].enabled {
            return Some(pods[i].id);
        }
        i = i + 1;
    }
    None
}

} // verus!
