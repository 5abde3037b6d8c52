use vstd::prelude::*;

verus! {

/// The movie entity stored by the service.
pub struct Movie {
    pub id: String,
    pub name: String,
    pub year: u16,
    pub was_good: bool,
}

/// Mathematical model of a `Movie`: the field contents as plain values.
pub ghost struct MovieView {
    pub id: Seq<char>,
    pub name: Seq<char>,
    pub year: u16,
    pub was_good: bool,
}

impl View for Movie {
    type V = MovieView;

    open spec fn view(&self) -> MovieView {
        MovieView {
            id: self.id@,
            name: self.name@,
            year: self.year,
            was_good: self.was_good,
        }
    }
}

impl Clone for Movie {
    fn clone(&self) -> (r: Self)
        ensures
            r@ == self@,
    {
        Movie {
            id: self.id.clone(),
            name: self.name.clone(),
            year: self.year,
            was_good: self.was_good,
        }
    }
}

impl PartialEq for Movie {
    fn eq(&self, other: &Movie) -> (r: bool) {
        self.id == other.id && self.name == other.name && self.year == other.year
            && self.was_good == other.was_good
    }
}

impl vstd::std_specs::cmp::PartialEqSpecImpl for Movie {
    open spec fn obeys_eq_spec() -> bool {
        true
    }

    open spec fn eq_spec(&self, other: &Movie) -> bool {
        self@ == other@
    }
}

} // verus!
