use vstd::prelude::*;

use crate::record::MovieView;

verus! {

/// The store after a batch of insertions, first to last.  `DataBase::put`
/// ensures that each insertion is exactly a `Map::insert` keyed by the
/// record's id, so a run of calls denotes this fold.
pub open spec fn put_all(db: Map<Seq<char>, MovieView>, s: Seq<MovieView>) -> Map<
    Seq<char>,
    MovieView,
>
    decreases s.len(),
{
    if s.len() == 0 {
        db
    } else {
        put_all(db.insert(s[0].id, s[0]), s.drop_first())
    }
}

/// Round trip: storing a record and then looking up its id yields a record
/// equal to it in every field.
pub proof fn lemma_put_then_get(db: Map<Seq<char>, MovieView>, m: MovieView)
    ensures
        db.insert(m.id, m).contains_key(m.id),
        db.insert(m.id, m)[m.id] == m,
{
}

/// An insertion under one id leaves every other id's entry as it was.
pub proof fn lemma_put_other_id_preserved(db: Map<Seq<char>, MovieView>, m: MovieView, id: Seq<
    char,
>)
    requires
        m.id != id,
    ensures
        db.insert(m.id, m).contains_key(id) == db.contains_key(id),
        db.contains_key(id) ==> db.insert(m.id, m)[id] == db[id],
{
}

proof fn lemma_put_all_absent(db: Map<Seq<char>, MovieView>, s: Seq<MovieView>, id: Seq<char>)
    requires
        !db.contains_key(id),
        forall|i: int| 0 <= i < s.len() ==> s[i].id != id,
    ensures
        !put_all(db, s).contains_key(id),
    decreases s.len(),
{
    if s.len() > 0 {
        assert(s[0].id != id);
        lemma_put_all_absent(db.insert(s[0].id, s[0]), s.drop_first(), id);
    }
}

/// Miss: an id that no insertion ever carried is absent from the store,
/// whatever was inserted.
pub proof fn lemma_never_put_absent(s: Seq<MovieView>, id: Seq<char>)
    requires
        forall|i: int| 0 <= i < s.len() ==> s[i].id != id,
    ensures
        !put_all(Map::empty(), s).contains_key(id),
{
    lemma_put_all_absent(Map::empty(), s, id);
}

/// Overwrite: a second insertion under the same id replaces the first
/// record, and the store is as if only the second had happened.
pub proof fn lemma_overwrite(
    db: Map<Seq<char>, MovieView>,
    m1: MovieView,
    m2: MovieView,
)
    requires
        m2.id == m1.id,
    ensures
        db.insert(m1.id, m1).insert(m2.id, m2)[m1.id] == m2,
        db.insert(m1.id, m1).insert(m2.id, m2) == db.insert(m2.id, m2),
{
    assert(db.insert(m1.id, m1).insert(m2.id, m2) =~= db.insert(m2.id, m2));
}

/// Idempotent re-insertion: inserting the same record twice leaves the store
/// exactly as one insertion does.
pub proof fn lemma_put_idempotent(db: Map<Seq<char>, MovieView>, m: MovieView)
    ensures
        db.insert(m.id, m).insert(m.id, m) == db.insert(m.id, m),
{
    assert(db.insert(m.id, m).insert(m.id, m) =~= db.insert(m.id, m));
}

proof fn lemma_put_all_frame(db: Map<Seq<char>, MovieView>, s: Seq<MovieView>, id: Seq<char>)
    requires
        db.contains_key(id),
        forall|i: int| 0 <= i < s.len() ==> s[i].id != id,
    ensures
        put_all(db, s).contains_key(id),
        put_all(db, s)[id] == db[id],
    decreases s.len(),
{
    if s.len() > 0 {
        assert(s[0].id != id);
        lemma_put_all_frame(db.insert(s[0].id, s[0]), s.drop_first(), id);
    }
}

/// No lost updates: after a batch of insertions with pairwise distinct ids,
/// every record of the batch is retrievable under its id, unchanged.
pub proof fn lemma_distinct_puts_all_present(
    db: Map<Seq<char>, MovieView>,
    s: Seq<MovieView>,
    k: int,
)
    requires
        forall|i: int, j: int| 0 <= i < j < s.len() ==> s[i].id != s[j].id,
        0 <= k < s.len(),
    ensures
        put_all(db, s).contains_key(s[k].id),
        put_all(db, s)[s[k].id] == s[k],
    decreases s.len(),
{
    let db1 = db.insert(s[0].id, s[0]);
    let rest = s.drop_first();
    if k == 0 {
        assert(forall|i: int| 0 <= i < rest.len() ==> rest[i] == s[i + 1]);
        lemma_put_all_frame(db1, rest, s[0].id);
    } else {
        assert(forall|i: int, j: int|
            0 <= i < j < rest.len() ==> rest[i] == s[i + 1] && rest[j] == s[j + 1]);
        assert(rest[k - 1] == s[k]);
        lemma_distinct_puts_all_present(db1, rest, k - 1);
    }
}

} // verus!
