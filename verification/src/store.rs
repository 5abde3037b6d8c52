use vstd::prelude::*;

use crate::record::{Movie, MovieView};

verus! {

/// The record views of a sequence of movies.
pub open spec fn views_of(movies: Seq<Movie>) -> Seq<MovieView> {
    movies.map_values(|m: Movie| m@)
}

/// No two entries share an id.
pub open spec fn ids_unique(s: Seq<MovieView>) -> bool {
    forall|i: int, j: int| 0 <= i < j < s.len() ==> s[i].id != s[j].id
}

/// The map denoted by a sequence of records: an entry keyed by each id,
/// later entries winning.
pub open spec fn map_of(s: Seq<MovieView>) -> Map<Seq<char>, MovieView>
    decreases s.len(),
{
    if s.len() == 0 {
        Map::empty()
    } else {
        map_of(s.drop_last()).insert(s.last().id, s.last())
    }
}

/// An id is in the domain of `map_of(s)` exactly when some entry carries it.
proof fn lemma_map_of_dom(s: Seq<MovieView>)
    ensures
        forall|id: Seq<char>|
            #[trigger] map_of(s).contains_key(id) <==> exists|i: int|
                0 <= i < s.len() && s[i].id == id,
    decreases s.len(),
{
    if s.len() > 0 {
        lemma_map_of_dom(s.drop_last());
        assert forall|id: Seq<char>| #[trigger]
            map_of(s).contains_key(id) implies exists|i: int|
            0 <= i < s.len() && s[i].id == id by {
            if id == s.last().id {
                assert(s[s.len() - 1].id == id);
            } else {
                assert(map_of(s.drop_last()).contains_key(id));
                let i = choose|i: int| 0 <= i < s.drop_last().len() && s.drop_last()[i].id == id;
                assert(s.drop_last()[i] == s[i]);
                assert(s[i].id == id);
            }
        }
        assert forall|id: Seq<char>|
            (exists|i: int| 0 <= i < s.len() && s[i].id == id) implies #[trigger]
            map_of(s).contains_key(id) by {
            let i = choose|i: int| 0 <= i < s.len() && s[i].id == id;
            if i < s.len() - 1 {
                assert(s.drop_last()[i] == s[i]);
                assert(map_of(s.drop_last()).contains_key(id));
            }
        }
    }
}

/// With unique ids, `map_of(s)` maps each entry's id to that entry.
proof fn lemma_map_of_index(s: Seq<MovieView>, i: int)
    requires
        ids_unique(s),
        0 <= i < s.len(),
    ensures
        map_of(s).contains_key(s[i].id),
        map_of(s)[s[i].id] == s[i],
    decreases s.len(),
{
    if i < s.len() - 1 {
        assert(s[i].id != s.last().id);
        assert(ids_unique(s.drop_last())) by {
            assert(forall|p: int, q: int|
                0 <= p < q < s.drop_last().len() ==> s.drop_last()[p] == s[p]
                    && s.drop_last()[q] == s[q]);
        }
        lemma_map_of_index(s.drop_last(), i);
        assert(s.drop_last()[i] == s[i]);
    }
}

/// Replacing the entry at `i` by a record with the same id updates exactly
/// that id's binding.
proof fn lemma_map_of_update(s: Seq<MovieView>, i: int, v: MovieView)
    requires
        ids_unique(s),
        0 <= i < s.len(),
        v.id == s[i].id,
    ensures
        map_of(s.update(i, v)) == map_of(s).insert(v.id, v),
    decreases s.len(),
{
    let t = s.update(i, v);
    if i == s.len() - 1 {
        assert(t.drop_last() =~= s.drop_last());
        assert(t.last() == v);
        assert(map_of(s.drop_last()).insert(v.id, v) =~= map_of(s.drop_last()).insert(
            s.last().id,
            s.last(),
        ).insert(v.id, v));
    } else {
        assert(ids_unique(s.drop_last())) by {
            assert(forall|p: int, q: int|
                0 <= p < q < s.drop_last().len() ==> s.drop_last()[p] == s[p]
                    && s.drop_last()[q] == s[q]);
        }
        assert(s.drop_last()[i] == s[i]);
        lemma_map_of_update(s.drop_last(), i, v);
        assert(t.drop_last() =~= s.drop_last().update(i, v));
        assert(t.last() == s.last());
        assert(s[i].id != s.last().id);
        assert(map_of(s.drop_last()).insert(v.id, v).insert(s.last().id, s.last())
            =~= map_of(s.drop_last()).insert(s.last().id, s.last()).insert(v.id, v));
    }
}

/// The in-memory database of movies, keyed by id.
pub struct DataBase {
    movies: Vec<Movie>,
}

impl View for DataBase {
    type V = Map<Seq<char>, MovieView>;

    open spec fn view(&self) -> Map<Seq<char>, MovieView> {
        map_of(self.entries())
    }
}

/// Position of the first entry with the given id, if any.
fn find_index(movies: &Vec<Movie>, id: &String) -> (r: Option<usize>)
    ensures
        match r {
            Some(k) => k < movies@.len() && views_of(movies@)[k as int].id == id@,
            None => forall|j: int| 0 <= j < movies@.len() ==> views_of(movies@)[j].id != id@,
        },
{
    let n = movies.len();
    let mut i: usize = 0;
    while i < n
        invariant
            i <= n,
            n == movies@.len(),
            forall|j: int| 0 <= j < i ==> views_of(movies@)[j].id != id@,
        decreases n - i,
    {
        if movies[i].id == *id {
            return Some(i);
        }
        i += 1;
    }
    None
}

impl DataBase {
    /// The stored records, as views, in insertion order.
    pub closed spec fn entries(&self) -> Seq<MovieView> {
        views_of(self.movies@)
    }

    #[verifier::type_invariant]
    spec fn wf(self) -> bool {
        ids_unique(self.entries())
    }

    /// Creates an empty database.
    pub fn new() -> (r: Self)
        ensures
            r@ == Map::<Seq<char>, MovieView>::empty(),
    {
        let movies: Vec<Movie> = Vec::new();
        DataBase { movies }
    }

    /// Looks up the record stored under `id`, if any.  No side effects.
    pub fn get(&self, id: &String) -> (r: Option<&Movie>)
        ensures
            match r {
                Some(m) => self@.contains_key(id@) && m@ == self@[id@],
                None => !self@.contains_key(id@),
            },
    {
        proof {
            use_type_invariant(&*self);
            lemma_map_of_dom(self.entries());
        }
        match find_index(&self.movies, id) {
            Some(k) => {
                proof {
                    lemma_map_of_index(self.entries(), k as int);
                }
                Some(&self.movies[k])
            },
            None => None,
        }
    }

    /// Inserts `movie` under its id, replacing any previous record with that
    /// id, and returns the inserted value.  Always succeeds.
    pub fn put(&mut self, movie: Movie) -> (r: Movie)
        ensures
            final(self)@ == old(self)@.insert(movie@.id, movie@),
            r@ == movie@,
    {
        proof {
            use_type_invariant(&*self);
        }
        let ghost s0 = self.entries();
        let r = movie.clone();
        let mut movies: Vec<Movie> = Vec::new();
        std::mem::swap(&mut movies, &mut self.movies);
        match find_index(&movies, &movie.id) {
            Some(k) => {
                proof {
                    lemma_map_of_update(s0, k as int, movie@);
                }
                movies[k] = movie;
                proof {
                    assert(views_of(movies@) =~= s0.update(k as int, r@));
                }
            },
            None => {
                movies.push(movie);
                proof {
                    let s1 = views_of(movies@);
                    assert(s1.drop_last() =~= s0);
                    assert(s1.last() == r@);
                    assert forall|i: int, j: int| 0 <= i < j < s1.len() implies s1[i].id
                        != s1[j].id by {
                        if j < s1.len() - 1 {
                            assert(s1[i] == s0[i] && s1[j] == s0[j]);
                        } else {
                            assert(s1[i] == s0[i] && s1[j] == r@);
                        }
                    }
                }
            },
        }
        self.movies = movies;
        r
    }
}

} // verus!
