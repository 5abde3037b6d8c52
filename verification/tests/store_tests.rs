use movie_store::record::Movie;
use movie_store::store::DataBase;

fn movie(id: &str, name: &str, year: u16, was_good: bool) -> Movie {
    Movie { id: String::from(id), name: String::from(name), year, was_good }
}

#[test]
fn round_trip_put_get() {
    let mut db = DataBase::new();
    let m = movie("m1", "Inception", 2010, true);
    db.put(m.clone());
    let got = db.get(&String::from("m1")).expect("stored record should be found");
    assert_eq!(got.id, "m1");
    assert_eq!(got.name, "Inception");
    assert_eq!(got.year, 2010);
    assert!(got.was_good);
    assert!(*got == m);
}

#[test]
fn miss_returns_none() {
    let mut db = DataBase::new();
    assert!(db.get(&String::from("m1")).is_none());
    db.put(movie("m1", "Inception", 2010, true));
    assert!(db.get(&String::from("m2")).is_none());
    assert!(db.get(&String::from("")).is_none());
}

#[test]
fn put_returns_inserted_value() {
    let mut db = DataBase::new();
    let m = movie("m1", "Inception", 2010, true);
    let echoed = db.put(m.clone());
    assert!(echoed == m);
}

#[test]
fn overwrite_same_id() {
    let mut db = DataBase::new();
    db.put(movie("m1", "Inception", 2010, true));
    db.put(movie("m1", "Inception Remastered", 2010, true));
    let got = db.get(&String::from("m1")).expect("stored record should be found");
    assert_eq!(got.name, "Inception Remastered");
}

#[test]
fn idempotent_reinsert() {
    let mut db = DataBase::new();
    let m = movie("m1", "Inception", 2010, true);
    db.put(m.clone());
    db.put(m.clone());
    let got = db.get(&String::from("m1")).expect("stored record should be found");
    assert!(*got == m);
}

#[test]
fn distinct_puts_all_retrievable() {
    let mut db = DataBase::new();
    let movies = [
        movie("m1", "Inception", 2010, true),
        movie("m2", "Memento", 2000, true),
        movie("m3", "Tenet", 2020, false),
        movie("m4", "Dunkirk", 2017, true),
        movie("m5", "Following", 1998, false),
    ];
    for m in movies.iter() {
        db.put(m.clone());
    }
    for m in movies.iter() {
        let got = db.get(&m.id).expect("every distinct record should be found");
        assert!(*got == *m);
    }
}
