//! Finding a satellite in the stored element sets.

use vstd::prelude::*;
use crate::error::PassesCalculationError;

verus! {

/// The element set at `index` carries the name `wanted`.
pub open spec fn is_named(names: Seq<Option<String>>, wanted: Seq<char>, index: int) -> bool {
    &&& 0 <= index < names.len()
    &&& names[index] matches Some(name)
    &&& name@ == wanted
}

/// The place of the first element set that carries the wanted name.
///
/// `names` holds the names of the stored element sets in their order, `None`
/// for a set without a name.
pub fn find_satrec(names: &Vec<Option<String>>, satellite_name: &str) -> (res: Result<
    usize,
    PassesCalculationError,
>)
    ensures
        match res {
            Ok(index) => {
                &&& is_named(names@, satellite_name@, index as int)
                &&& forall|earlier: int|
                    0 <= earlier < index ==> !is_named(names@, satellite_name@, earlier)
            },
            Err(error) => {
                &&& error == PassesCalculationError::SatelliteNotFound
                &&& forall|index: int| !is_named(names@, satellite_name@, index)
            },
        },
{
    let wanted: String = satellite_name.to_owned();
    let mut index: usize = 0;
    while index < names.len()
        invariant
            index <= names.len(),
            wanted@ == satellite_name@,
            forall|earlier: int|
                0 <= earlier < index ==> !is_named(names@, satellite_name@, earlier),
        decreases names.len() - index,
    {
        match &names[index] {
            Some(name) => {
                if *name == wanted {
                    return Ok(index);
                }
            },
            None => {},
        }
        index = index + 1;
    }
    Err(PassesCalculationError::SatelliteNotFound)
}

} // verus!
