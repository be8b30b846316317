//! The settings store: a mapping from setting names to integers, with one row
//! per name.

use vstd::prelude::*;
use crate::error::{Error, written};

verus! {

/// One row of the settings table.
#[derive(Debug, Clone, PartialEq, Eq)]
pub struct Setting {
    pub name: String,
    pub value: u32,
}

/// Some row carries `name`.
pub open spec fn has_row(rows: Seq<Setting>, name: Seq<char>) -> bool {
    exists|i: int| 0 <= i < rows.len() && (#[trigger] rows[i]).name@ == name
}

/// The position of a row that carries `name`.
pub open spec fn row_of(rows: Seq<Setting>, name: Seq<char>) -> int {
    choose|i: int| 0 <= i < rows.len() && (#[trigger] rows[i]).name@ == name
}

/// No two rows carry the same name.
pub open spec fn distinct(rows: Seq<Setting>) -> bool {
    forall|i: int, j: int|
        0 <= i < j < rows.len() ==> (#[trigger] rows[i]).name@ != (#[trigger] rows[j]).name@
}

/// The mapping that the rows stand for.
pub open spec fn mapping_of(rows: Seq<Setting>) -> Map<Seq<char>, u32> {
    Map::new(|name: Seq<char>| has_row(rows, name), |name: Seq<char>| rows[row_of(rows, name)].value)
}

/// Where `name` stands among the rows, if it does.
fn find_row(rows: &Vec<Setting>, name: &str) -> (at: Option<usize>)
    ensures
        match at {
            Some(i) => i < rows.len() && rows@[i as int].name@ == name@,
            None => !has_row(rows@, name@),
        },
{
    let key = name.to_owned();
    let n = rows.len();
    let mut i: usize = 0;
    while i < n
        invariant
            n == rows.len(),
            i <= n,
            key@ == name@,
            forall|k: int| 0 <= k < i ==> (#[trigger] rows@[k]).name@ != name@,
        decreases n - i,
    {
        if rows[i].name == key {
            return Some(i);
        }
        i = i + 1;
    }
    None
}

/// The settings store. It holds one row for each name.
pub struct Settings {
    rows: Vec<Setting>,
}

impl View for Settings {
    type V = Map<Seq<char>, u32>;

    closed spec fn view(&self) -> Map<Seq<char>, u32> {
        mapping_of(self.rows@)
    }
}

impl Settings {
    #[verifier::type_invariant]
    spec fn inv(self) -> bool {
        distinct(self.rows@)
    }

    /// A store without settings.
    pub fn new() -> (settings: Settings)
        ensures
            settings@ == Map::<Seq<char>, u32>::empty(),
    {
        let settings = Settings { rows: Vec::new() };
        settings
    }

    /// A store that holds `rows`. It fails when two of them carry the same name.
    pub fn from_rows(rows: Vec<Setting>) -> (r: Result<Settings, Error>)
        ensures
            r is Ok <==> distinct(rows@),
            r matches Ok(settings) ==> settings@ == mapping_of(rows@),
            r matches Err(e) ==> e == Error::Query,
    {
        let n = rows.len();
        let mut j: usize = 0;
        while j < n
            invariant
                n == rows.len(),
                j <= n,
                forall|a: int, b: int|
                    0 <= a < b < j ==> (#[trigger] rows@[a]).name@ != (#[trigger] rows@[b]).name@,
            decreases n - j,
        {
            let mut i: usize = 0;
            while i < j
                invariant
                    n == rows.len(),
                    i <= j < n,
                    forall|a: int| 0 <= a < i ==> (#[trigger] rows@[a]).name@ != rows@[j as int].name@,
                decreases j - i,
            {
                if rows[i].name == rows[j].name {
                    return Err(Error::Query);
                }
                i = i + 1;
            }
            j = j + 1;
        }
        Ok(Settings { rows })
    }

    /// The rows of the store.
    pub fn rows(&self) -> (rows: &Vec<Setting>)
        ensures
            distinct(rows@),
            mapping_of(rows@) == self@,
    {
        proof {
            use_type_invariant(self);
        }
        &self.rows
    }

    /// The value of the setting `name`, or `default` when the store has no such setting.
    pub fn get(&self, name: &str, default: u32) -> (value: u32)
        ensures
            value == if self@.dom().contains(name@) {
                self@[name@]
            } else {
                default
            },
    {
        proof {
            use_type_invariant(self);
        }
        match find_row(&self.rows, name) {
            Some(i) => {
                self.rows[i].value
            },
            None => default,
        }
    }

    /// Gives the setting `name` the value `value`.
    ///
    /// It fails, and changes nothing, when the store has no such setting.
    pub fn set(&mut self, name: &str, value: u32) -> (r: Result<(), Error>)
        ensures
            r == written(old(self)@.dom().contains(name@)),
            final(self)@ == if r is Ok {
                old(self)@.insert(name@, value)
            } else {
                old(self)@
            },
    {
        proof {
            use_type_invariant(&*self);
        }
        match find_row(&self.rows, name) {
            Some(i) => {
                let ghost before = self.rows@;
                let mut rows: Vec<Setting> = Vec::new();
                std::mem::swap(&mut rows, &mut self.rows);
                let row = Setting { name: name.to_owned(), value };
                rows.set(i, row);
                proof {
                    let after = rows@;
                    assert forall|key: Seq<char>| has_row(after, key) == has_row(before, key) by {
                        if has_row(before, key) {
                            let k = row_of(before, key);
                            assert(after[k].name@ == key);
                        }
                    }
                }
                self.rows = rows;
                Ok(())
            },
            None => Err(Error::Write),
        }
    }

    /// Adds the setting `name` with the value `value`.
    ///
    /// It fails, and changes nothing, when the store has such a setting already.
    pub fn insert(&mut self, name: &str, value: u32) -> (r: Result<(), Error>)
        ensures
            r == written(!old(self)@.dom().contains(name@)),
            final(self)@ == if r is Ok {
                old(self)@.insert(name@, value)
            } else {
                old(self)@
            },
    {
        proof {
            use_type_invariant(&*self);
        }
        match find_row(&self.rows, name) {
            Some(_) => Err(Error::Write),
            None => {
                let ghost before = self.rows@;
                let mut rows: Vec<Setting> = Vec::new();
                std::mem::swap(&mut rows, &mut self.rows);
                let row = Setting { name: name.to_owned(), value };
                rows.push(row);
                proof {
                    let after = rows@;
                    let last = after.len() - 1;
                    assert forall|key: Seq<char>| has_row(after, key) == (has_row(before, key)
                        || key == name@) by {
                        if has_row(before, key) {
                            let k = row_of(before, key);
                            assert(after[k].name@ == key);
                        }
                        assert(after[last].name@ == name@);
                    }
                }
                self.rows = rows;
                Ok(())
            },
        }
    }
}

} // verus!
