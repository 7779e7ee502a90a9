use crate::rng::{choose_one, gen_range};
use vstd::prelude::*;

verus! {

/// The dispatcher waits at least `ASSIGNMENT_PAUSE_FROM` seconds between two
/// orders that it hands out, and less than `ASSIGNMENT_PAUSE_BELOW`.
pub const ASSIGNMENT_PAUSE_FROM: i32 = 1;

pub const ASSIGNMENT_PAUSE_BELOW: i32 = 5;

/// The place of the store `id` in `stores_ids`: the first place that holds
/// it, or `None` for an id that is not there.
pub fn find_store(stores_ids: &Vec<String>, id: &String) -> (place: Option<usize>)
    ensures
        match place {
            Some(found) => stores_ids.deep_view().index_of_first(id@) == Some(found as int),
            None => stores_ids.deep_view().index_of_first(id@) is None,
        },
        place matches Some(found) ==> found < stores_ids.len() && stores_ids[found as int]@ == id@,
        place is None <==> !stores_ids.deep_view().contains(id@),
{
    let ghost ids = stores_ids.deep_view();
    let mut place: usize = 0;
    while place < stores_ids.len()
        invariant
            place <= stores_ids.len(),
            ids == stores_ids.deep_view(),
            forall|earlier: int| 0 <= earlier < place ==> ids[earlier] != id@,
        decreases stores_ids.len() - place,
    {
        if stores_ids[place] == *id {
            proof {
                assert(ids[place as int] == id@);
                ids.index_of_first_ensures(id@);
            }
            return Some(place);
        }
        place += 1;
    }
    proof {
        ids.index_of_first_ensures(id@);
    }
    None
}

/// The store that gets a new order: one of `stores_ids`, picked at random and
/// given by its place, or `None` when there is no store.
pub fn choose_store(stores_ids: &Vec<String>) -> (place: Option<usize>)
    ensures
        place is None <==> stores_ids.len() == 0,
        place matches Some(picked) ==> picked < stores_ids.len(),
{
    match choose_one(stores_ids) {
        Some(id) => {
            proof {
                assert forall|i: int| 0 <= i < stores_ids.len() implies stores_ids.deep_view()[i]
                    == #[trigger] stores_ids@[i]@ by {}
            }
            find_store(stores_ids, id)
        },
        None => None,
    }
}

/// The seconds that the dispatcher waits after it handed out an order: drawn
/// at random from `ASSIGNMENT_PAUSE_FROM..ASSIGNMENT_PAUSE_BELOW`.
pub fn assignment_pause() -> (seconds: u64)
    ensures
        ASSIGNMENT_PAUSE_FROM <= seconds < ASSIGNMENT_PAUSE_BELOW,
{
    let drawn = gen_range(ASSIGNMENT_PAUSE_FROM, ASSIGNMENT_PAUSE_BELOW);
    drawn as u64
}

} // verus!
