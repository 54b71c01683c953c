use vstd::prelude::*;
use vstd::std_specs::cmp::PartialEqSpec;

verus! {

/// How a tool button is shown: picked or not.
#[derive(Debug, Clone, Copy, PartialEq, Eq, Structural)]
pub enum SelectorTheme {
    Selected,
    NotSelected,
}

impl SelectorTheme {
    /// `Selected` exactly when `current` equals `intended`.
    pub fn pick<T: PartialEq>(current: T, intended: T) -> (r: Self)
        ensures
            <T as PartialEqSpec>::obeys_eq_spec() ==> (r == SelectorTheme::Selected
                <==> current.eq_spec(&intended)),
    {
        if current == intended {
            SelectorTheme::Selected
        } else {
            SelectorTheme::NotSelected
        }
    }
}

} // verus!
