//! The list of people credited for translating the application.

use vstd::prelude::*;

verus! {

/// The translators credited in the application's about dialog, each with
/// the languages they covered.
pub fn translators_list() -> (r: Vec<&'static str>)
    ensures
        r@.len() == 2,
        r@[0]@ == "Andrea Coronese (English, Italian)"@,
        r@[1]@ == "Rene Coty (French)"@,
{
    let mut list: Vec<&'static str> = Vec::new();
    list.push("Andrea Coronese (English, Italian)");
    list.push("Rene Coty (French)");
    list
}

} // verus!
