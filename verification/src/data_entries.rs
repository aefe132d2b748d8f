//! Typed data values and their JSON rendering for the engine's data
//! files.
//!
//! A [`DataEntry`] is one value of the engine's data language: an
//! integer, a real, a complex number, an array, or a tuple.  The JSON
//! text of every value is pinned by [`json_of`]; notably, an array that
//! is empty or consists solely of ever-nested empty arrays collapses to
//! `[]`, and tuples render as objects with 1-based string keys.

use vstd::prelude::*;

use crate::fixed::Fixed;
use crate::render::{append_char, append_i64, append_u64, dec_int, dec_nat};
use crate::StanData;

verus! {

/// One value of the engine's data language.  Reals and complex parts
/// are exact decimals.
#[derive(Debug, PartialEq, Eq)]
pub enum DataEntry {
    Int(i32),
    Real(Fixed),
    Complex(Fixed, Fixed),
    Array(Vec<DataEntry>),
    Tuple(Vec<DataEntry>),
}

/// Whether a value is an array that is empty or holds only one
/// ever-nested empty array; such values collapse to `[]`.
pub open spec fn empty_array(e: DataEntry) -> bool
    decreases e,
{
    match e {
        DataEntry::Array(arr) => arr@.len() == 0 || (arr@.len() == 1 && empty_array(arr@[0])),
        _ => false,
    }
}

/// The exact JSON text of a value.
pub open spec fn json_of(e: DataEntry) -> Seq<char>
    decreases e, 0int, 0int,
{
    if empty_array(e) {
        "[]"@
    } else {
        match e {
            DataEntry::Int(i) => dec_int(i as int),
            DataEntry::Real(f) => f.spec_text(),
            DataEntry::Complex(re, im) => "["@ + re.spec_text() + ", "@ + im.spec_text() + "]"@,
            DataEntry::Array(arr) => "["@ + json_items(arr@, 0) + "]"@,
            DataEntry::Tuple(tup) => "{"@ + json_tuple_items(tup@, 0) + "}"@,
        }
    }
}

/// The comma-separated JSON texts of the items from position `i` on.
pub open spec fn json_items(s: Seq<DataEntry>, i: int) -> Seq<char>
    decreases s, 1int, s.len() - i,
{
    if i < 0 || i >= s.len() {
        Seq::<char>::empty()
    } else {
        (if i > 0 {
            ", "@
        } else {
            Seq::<char>::empty()
        }) + json_of(s[i]) + json_items(s, i + 1)
    }
}

/// The comma-separated `"k": value` members of a tuple from position
/// `i` on, with 1-based keys.
pub open spec fn json_tuple_items(s: Seq<DataEntry>, i: int) -> Seq<char>
    decreases s, 1int, s.len() - i,
{
    if i < 0 || i >= s.len() {
        Seq::<char>::empty()
    } else {
        (if i > 0 {
            ", "@
        } else {
            Seq::<char>::empty()
        }) + "\""@ + dec_nat((i + 1) as nat) + "\": "@ + json_of(s[i]) + json_tuple_items(s, i + 1)
    }
}

impl DataEntry {
    /// Builds a complex value from its real and imaginary parts.
    pub fn create_from_complex(r: Fixed, i: Fixed) -> (e: DataEntry)
        ensures
            e == DataEntry::Complex(r, i),
    {
        DataEntry::Complex(r, i)
    }

    /// Whether this value collapses to `[]`.
    fn is_empty_array(&self) -> (r: bool)
        ensures
            r == empty_array(*self),
        decreases *self,
    {
        match self {
            DataEntry::Array(arr) => {
                if arr.len() == 0 {
                    true
                } else if arr.len() == 1 {
                    arr[0].is_empty_array()
                } else {
                    false
                }
            },
            _ => false,
        }
    }

    /// Appends this value's JSON text to `res`.
    pub fn write_to_stan_json(&self, res: &mut String)
        ensures
            final(res)@ == old(res)@ + json_of(*self),
        decreases *self, 0int, 0int,
    {
        proof {
            reveal_strlit("[]");
            reveal_strlit("[");
            reveal_strlit("]");
            reveal_strlit("{");
            reveal_strlit("}");
            reveal_strlit(", ");
        }
        if self.is_empty_array() {
            res.append("[]");
            return ;
        }
        match self {
            DataEntry::Int(i) => {
                append_i64(res, *i as i64);
            },
            DataEntry::Real(f) => {
                let t = f.to_text();
                res.append(t.as_str());
            },
            DataEntry::Complex(re, im) => {
                res.append("[");
                let rt = re.to_text();
                res.append(rt.as_str());
                res.append(", ");
                let it = im.to_text();
                res.append(it.as_str());
                res.append("]");
                assert(final(res)@ =~= old(res)@ + json_of(*self));
            },
            DataEntry::Array(arr) => {
                res.append("[");
                write_json_items(arr, 0, res);
                res.append("]");
                assert(final(res)@ =~= old(res)@ + json_of(*self));
            },
            DataEntry::Tuple(tup) => {
                res.append("{");
                write_json_tuple_items(tup, 0, res);
                res.append("}");
                assert(final(res)@ =~= old(res)@ + json_of(*self));
            },
        }
    }
}

/// Appends the comma-separated JSON texts of `arr[i..]` to `res`.
fn write_json_items(arr: &Vec<DataEntry>, i: usize, res: &mut String)
    requires
        i <= arr@.len(),
    ensures
        final(res)@ == old(res)@ + json_items(arr@, i as int),
    decreases arr@, 1int, arr@.len() - i,
{
    if i < arr.len() {
        if i > 0 {
            proof {
                reveal_strlit(", ");
            }
            res.append(", ");
        }
        arr[i].write_to_stan_json(res);
        write_json_items(arr, i + 1, res);
        assert(final(res)@ =~= old(res)@ + json_items(arr@, i as int));
    } else {
        assert(final(res)@ =~= old(res)@ + json_items(arr@, i as int));
    }
}

/// Appends the comma-separated `"k": value` members of `tup[i..]` to
/// `res`, with 1-based keys.
fn write_json_tuple_items(tup: &Vec<DataEntry>, i: usize, res: &mut String)
    requires
        i <= tup@.len(),
    ensures
        final(res)@ == old(res)@ + json_tuple_items(tup@, i as int),
    decreases tup@, 1int, tup@.len() - i,
{
    if i < tup.len() {
        proof {
            reveal_strlit(", ");
            reveal_strlit("\"");
            reveal_strlit("\": ");
        }
        if i > 0 {
            res.append(", ");
        }
        res.append("\"");
        append_u64(res, (i + 1) as u64);
        res.append("\": ");
        tup[i].write_to_stan_json(res);
        write_json_tuple_items(tup, i + 1, res);
        assert(final(res)@ =~= old(res)@ + json_tuple_items(tup@, i as int));
    } else {
        assert(final(res)@ =~= old(res)@ + json_tuple_items(tup@, i as int));
    }
}

/// A named, ordered list of data values.
#[derive(Debug, PartialEq, Eq)]
pub struct DataEntries {
    pub datas: Vec<(String, DataEntry)>,
}

/// The text of a whole data file: the entries as one JSON object, one
/// member per line, four-space indented.
pub open spec fn stan_data_text(s: Seq<(String, DataEntry)>) -> Seq<char> {
    "{\n"@ + stan_data_members(s, 0) + "\n}"@
}

/// The members of the data object from position `i` on.
pub open spec fn stan_data_members(s: Seq<(String, DataEntry)>, i: int) -> Seq<char>
    decreases s.len() - i,
{
    if i < 0 || i >= s.len() {
        Seq::<char>::empty()
    } else {
        (if i > 0 {
            ",\n"@
        } else {
            Seq::<char>::empty()
        }) + "    \""@ + s[i].0@ + "\": "@ + json_of(s[i].1) + stan_data_members(s, i + 1)
    }
}

impl DataEntries {
    /// An empty list.
    pub fn new() -> (r: DataEntries)
        ensures
            r.datas@.len() == 0,
    {
        DataEntries { datas: Vec::new() }
    }

    /// Appends one named value.
    pub fn add_entry(&mut self, name: &str, entry: DataEntry)
        ensures
            final(self).datas@.len() == old(self).datas@.len() + 1,
            forall|j: int|
                0 <= j < old(self).datas@.len() ==> final(self).datas@[j] == old(self).datas@[j],
            final(self).datas@.last().0@ == name@,
            final(self).datas@.last().1 == entry,
    {
        self.datas.push((String::from_str(name), entry));
    }
}

impl StanData for DataEntries {
    open spec fn spec_stan_data(&self) -> Seq<char> {
        stan_data_text(self.datas@)
    }

    fn write_as_stan_data(&self) -> (r: String) {
        let mut res = String::new();
        proof {
            reveal_strlit("{\n");
            reveal_strlit("\n}");
        }
        res.append("{\n");
        write_stan_data_members(&self.datas, 0, &mut res);
        res.append("\n}");
        assert(res@ =~= self.spec_stan_data());
        res
    }
}

/// Appends the members of the data object from position `i` on.
fn write_stan_data_members(datas: &Vec<(String, DataEntry)>, i: usize, res: &mut String)
    requires
        i <= datas@.len(),
    ensures
        final(res)@ == old(res)@ + stan_data_members(datas@, i as int),
    decreases datas@.len() - i,
{
    if i < datas.len() {
        proof {
            reveal_strlit(",\n");
            reveal_strlit("    \"");
            reveal_strlit("\": ");
        }
        if i > 0 {
            res.append(",\n");
        }
        res.append("    \"");
        res.append(datas[i].0.as_str());
        res.append("\": ");
        datas[i].1.write_to_stan_json(res);
        write_stan_data_members(datas, i + 1, res);
        assert(final(res)@ =~= old(res)@ + stan_data_members(datas@, i as int));
    } else {
        assert(final(res)@ =~= old(res)@ + stan_data_members(datas@, i as int));
    }
}

/// A failure while adding a batch of entries.
#[derive(Debug, Clone, PartialEq, Eq)]
pub enum DataCollectionError {
    AddEntryError(String),
}

/// The index of the most recently added entry with the given name, or
/// `-1` when no entry carries it.
pub open spec fn spec_lookup_at(s: Seq<(String, DataEntry)>, name: Seq<char>) -> int
    decreases s.len(),
{
    if s.len() == 0 {
        -1
    } else if s.last().0@ == name {
        s.len() - 1
    } else {
        spec_lookup_at(s.drop_last(), name)
    }
}

/// The value of the most recently added entry with the given name.
pub open spec fn spec_lookup(s: Seq<(String, DataEntry)>, name: Seq<char>) -> Option<DataEntry> {
    let j = spec_lookup_at(s, name);
    if j < 0 {
        None
    } else {
        Some(s[j].1)
    }
}

/// A data-entry list with name-based lookup.  Lookup finds the most
/// recently added entry under a name, so re-adding a name shadows the
/// earlier entry.
#[derive(Debug)]
pub struct DataCollection {
    pub entires: DataEntries,
}

/// A collection with one array entry still open for item-by-item
/// filling.
#[derive(Debug)]
pub struct DataCollectionUncompleted {
    pub entries: DataEntries,
    pub uncompleted_array: Vec<DataEntry>,
    pub uncompleted_data_name: String,
}

impl DataCollection {
    /// An empty collection.
    pub fn new() -> (r: DataCollection)
        ensures
            r.entires.datas@.len() == 0,
    {
        DataCollection { entires: DataEntries::new() }
    }

    /// Appends one named value.
    pub fn add_entry(&mut self, name: &str, entry: DataEntry)
        ensures
            final(self).entires.datas@.len() == old(self).entires.datas@.len() + 1,
            forall|j: int|
                0 <= j < old(self).entires.datas@.len() ==> final(self).entires.datas@[j] == old(
                    self,
                ).entires.datas@[j],
            final(self).entires.datas@.last().0@ == name@,
            final(self).entires.datas@.last().1 == entry,
    {
        self.entires.add_entry(name, entry);
    }

    /// The most recently added value under `name`, if any.
    pub fn get_entry(&self, name: &str) -> (r: Option<&DataEntry>)
        ensures
            match spec_lookup(self.entires.datas@, name@) {
                Some(e) => r matches Some(x) && *x == e,
                None => r is None,
            },
    {
        let key = String::from_str(name);
        let n = self.entires.datas.len();
        let mut i = n;
        proof {
            assert(self.entires.datas@.subrange(0, n as int) =~= self.entires.datas@);
        }
        while i > 0
            invariant
                i <= n,
                n == self.entires.datas@.len(),
                key@ == name@,
                spec_lookup_at(self.entires.datas@, name@) == spec_lookup_at(
                    self.entires.datas@.subrange(0, i as int),
                    name@,
                ),
            decreases i,
        {
            let ghost pre = self.entires.datas@.subrange(0, i as int);
            if self.entires.datas[i - 1].0 == key {
                proof {
                    assert(pre.last() == self.entires.datas@[i - 1]);
                    assert(spec_lookup_at(pre, name@) == i - 1);
                }
                return Some(&self.entires.datas[i - 1].1);
            }
            proof {
                assert(pre.last() == self.entires.datas@[i - 1]);
                assert(pre.drop_last() =~= self.entires.datas@.subrange(0, i - 1));
            }
            i = i - 1;
        }
        proof {
            assert(self.entires.datas@.subrange(0, 0) =~= Seq::<(String, DataEntry)>::empty());
        }
        None
    }


    /// The most recently added value under `name`, for in-place
    /// modification.
    pub fn get_entry_mut(&mut self, name: &str) -> (r: Option<&mut DataEntry>)
        ensures
            ({
                let j = spec_lookup_at(old(self).entires.datas@, name@);
                if j >= 0 {
                    r matches Some(m) && *m == old(self).entires.datas@[j].1
                        && final(self).entires.datas@.len() == old(self).entires.datas@.len()
                        && final(self).entires.datas@[j].0 == old(self).entires.datas@[j].0
                        && final(self).entires.datas@[j].1 == *final(m)
                        && (forall|k: int|
                            0 <= k < old(self).entires.datas@.len() && k != j
                                ==> final(self).entires.datas@[k] == old(self).entires.datas@[k])
                } else {
                    r is None && *final(self) == *old(self)
                }
            }),
    {
        let key = String::from_str(name);
        let n = self.entires.datas.len();
        let mut i = n;
        proof {
            assert(self.entires.datas@.subrange(0, n as int) =~= self.entires.datas@);
        }
        while i > 0
            invariant
                i <= n,
                n == self.entires.datas@.len(),
                key@ == name@,
                *self == *old(self),
                spec_lookup_at(self.entires.datas@, name@) == spec_lookup_at(
                    self.entires.datas@.subrange(0, i as int),
                    name@,
                ),
            decreases i,
        {
            let ghost pre = self.entires.datas@.subrange(0, i as int);
            if self.entires.datas[i - 1].0 == key {
                proof {
                    assert(pre.last() == self.entires.datas@[i - 1]);
                    assert(spec_lookup_at(pre, name@) == i - 1);
                }
                return Some(&mut self.entires.datas[i - 1].1);
            }
            proof {
                assert(pre.last() == self.entires.datas@[i - 1]);
                assert(pre.drop_last() =~= self.entires.datas@.subrange(0, i - 1));
            }
            i = i - 1;
        }
        proof {
            assert(self.entires.datas@.subrange(0, 0) =~= Seq::<(String, DataEntry)>::empty());
        }
        None
    }

    /// Replaces the value of the most recently added entry with the
    /// given name; returns whether such an entry existed.
    pub fn set_entry(&mut self, name: &str, entry: DataEntry) -> (r: bool)
        ensures
            ({
                let j = spec_lookup_at(old(self).entires.datas@, name@);
                if j >= 0 {
                    r && final(self).entires.datas@.len() == old(self).entires.datas@.len()
                        && final(self).entires.datas@[j].0 == old(self).entires.datas@[j].0
                        && final(self).entires.datas@[j].1 == entry && (forall|k: int|
                        0 <= k < old(self).entires.datas@.len() && k != j
                            ==> final(self).entires.datas@[k] == old(self).entires.datas@[k])
                } else {
                    !r && *final(self) == *old(self)
                }
            }),
    {
        let key = String::from_str(name);
        let n = self.entires.datas.len();
        let mut i = n;
        proof {
            assert(self.entires.datas@.subrange(0, n as int) =~= self.entires.datas@);
        }
        while i > 0
            invariant
                i <= n,
                n == self.entires.datas@.len(),
                key@ == name@,
                *self == *old(self),
                spec_lookup_at(self.entires.datas@, name@) == spec_lookup_at(
                    self.entires.datas@.subrange(0, i as int),
                    name@,
                ),
            decreases i,
        {
            let ghost pre = self.entires.datas@.subrange(0, i as int);
            if self.entires.datas[i - 1].0 == key {
                proof {
                    assert(pre.last() == self.entires.datas@[i - 1]);
                    assert(spec_lookup_at(pre, name@) == i - 1);
                }
                self.entires.datas[i - 1].1 = entry;
                return true;
            }
            proof {
                assert(pre.last() == self.entires.datas@[i - 1]);
                assert(pre.drop_last() =~= self.entires.datas@.subrange(0, i - 1));
            }
            i = i - 1;
        }
        proof {
            assert(self.entires.datas@.subrange(0, 0) =~= Seq::<(String, DataEntry)>::empty());
        }
        false
    }

    /// Opens an array entry under `name`; items are added one by one
    /// and the collection comes back when the array is closed.
    pub fn open_array(self, name: &str) -> (r: DataCollectionUncompleted)
        ensures
            r.entries == self.entires,
            r.uncompleted_array@.len() == 0,
            r.uncompleted_data_name@ == name@,
    {
        DataCollectionUncompleted {
            entries: self.entires,
            uncompleted_array: Vec::new(),
            uncompleted_data_name: String::from_str(name),
        }
    }

    /// Appends a batch of named values, one name per value.  A length
    /// mismatch is rejected and leaves the collection unchanged.
    pub fn add_entries(&mut self, name: &Vec<&str>, entries: Vec<DataEntry>) -> (r: Result<
        (),
        DataCollectionError,
    >)
        ensures
            name@.len() == entries@.len() ==> (r is Ok && final(self).entires.datas@.len() == old(
                self,
            ).entires.datas@.len() + name@.len() && (forall|j: int|
                0 <= j < old(self).entires.datas@.len() ==> final(self).entires.datas@[j] == old(
                    self,
                ).entires.datas@[j]) && (forall|j: int|
                0 <= j < name@.len() ==> #[trigger] final(self).entires.datas@[old(
                    self,
                ).entires.datas@.len() + j].0@ == name@[j]@) && (forall|j: int|
                0 <= j < name@.len() ==> #[trigger] final(self).entires.datas@[old(
                    self,
                ).entires.datas@.len() + j].1 == entries@[j])),
            name@.len() != entries@.len() ==> (r matches Err(e) && e matches
                DataCollectionError::AddEntryError(_) && *final(self) == *old(self)),
    {
        if name.len() != entries.len() {
            return Err(
                DataCollectionError::AddEntryError(
                    String::from_str("Name and entries length mismatch"),
                ),
            );
        }
        let ghost base = self.entires.datas@;
        let n = name.len();
        let mut i: usize = 0;
        let mut rest = entries;
        proof {
            assert(rest@.subrange(0, rest@.len() as int) =~= rest@);
        }
        while i < n
            invariant
                i <= n,
                n == name@.len(),
                rest@ =~= entries@.subrange(i as int, entries@.len() as int),
                entries@.len() == n,
                self.entires.datas@.len() == base.len() + i,
                forall|j: int| 0 <= j < base.len() ==> self.entires.datas@[j] == base[j],
                forall|j: int|
                    0 <= j < i ==> #[trigger] self.entires.datas@[base.len() + j].0@ == name@[j]@,
                forall|j: int|
                    0 <= j < i ==> #[trigger] self.entires.datas@[base.len() + j].1 == entries@[j],
            decreases n - i,
        {
            let entry = rest.remove(0);
            proof {
                assert(entry == entries@[i as int]);
                assert(rest@ =~= entries@.subrange(i + 1, entries@.len() as int));
            }
            let ghost prev = self.entires.datas@;
            self.add_entry(name[i], entry);
            proof {
                assert forall|j: int| 0 <= j <= i implies #[trigger] self.entires.datas@[base.len()
                    + j].0@ == name@[j]@ by {
                    if j < i {
                        assert(prev[base.len() + j].0@ == name@[j]@);
                        assert(self.entires.datas@[base.len() + j] == prev[base.len() + j]);
                    } else {
                        assert(self.entires.datas@.last() == self.entires.datas@[base.len() + i]);
                    }
                }
                assert forall|j: int| 0 <= j <= i implies #[trigger] self.entires.datas@[base.len()
                    + j].1 == entries@[j] by {
                    if j < i {
                        assert(prev[base.len() + j].1 == entries@[j]);
                        assert(self.entires.datas@[base.len() + j] == prev[base.len() + j]);
                    } else {
                        assert(self.entires.datas@.last() == self.entires.datas@[base.len() + i]);
                    }
                }
            }
            i = i + 1;
        }
        Ok(())
    }
}

impl DataCollectionUncompleted {
    /// Appends one item to the open array.
    pub fn add_item(&mut self, entry: DataEntry)
        ensures
            final(self).uncompleted_array@ == old(self).uncompleted_array@.push(entry),
            final(self).entries == old(self).entries,
            final(self).uncompleted_data_name == old(self).uncompleted_data_name,
    {
        self.uncompleted_array.push(entry);
    }

    /// Closes the open array, appending it to the collection under the
    /// name it was opened with.
    pub fn close_array(self) -> (r: DataCollection)
        ensures
            r.entires.datas@.len() == self.entries.datas@.len() + 1,
            forall|j: int|
                0 <= j < self.entries.datas@.len() ==> r.entires.datas@[j]
                    == self.entries.datas@[j],
            r.entires.datas@.last().0@ == self.uncompleted_data_name@,
            r.entires.datas@.last().1 == DataEntry::Array(self.uncompleted_array),
    {
        let DataCollectionUncompleted { mut entries, uncompleted_array, uncompleted_data_name } =
            self;
        let new_entry = DataEntry::Array(uncompleted_array);
        entries.add_entry(uncompleted_data_name.as_str(), new_entry);
        DataCollection { entires: entries }
    }
}

/// The position of the first entry with the given name, or `-1` when
/// no entry carries it.
pub open spec fn spec_param_at(s: Seq<(String, DataEntry)>, name: Seq<char>) -> int
    decreases s.len(),
{
    if s.len() == 0 {
        -1
    } else if s[0].0@ == name {
        0
    } else {
        let r = spec_param_at(s.drop_first(), name);
        if r < 0 {
            -1
        } else {
            r + 1
        }
    }
}

/// Skipping a prefix in which the name does not occur shifts the
/// first-occurrence position by the prefix length.
pub proof fn lemma_param_at_from(s: Seq<(String, DataEntry)>, name: Seq<char>, i: int)
    requires
        0 <= i <= s.len(),
        forall|j: int| 0 <= j < i ==> s[j].0@ != name,
    ensures
        spec_param_at(s, name) == (if spec_param_at(s.skip(i), name) < 0 {
            -1
        } else {
            i + spec_param_at(s.skip(i), name)
        }),
    decreases i,
{
    if i == 0 {
        assert(s.skip(0) =~= s);
    } else {
        assert(s[0].0@ != name);
        assert(s.drop_first().skip(i - 1) =~= s.skip(i));
        assert(forall|j: int| 0 <= j < i - 1 ==> s.drop_first()[j].0@ != name);
        lemma_param_at_from(s.drop_first(), name, i - 1);
    }
}

impl DataEntries {
    /// Replaces the value of the first entry with the given name, or
    /// appends a new entry when the name is not present yet.
    pub fn upsert_entry(&mut self, name: &str, entry: DataEntry)
        ensures
            ({
                let j = spec_param_at(old(self).datas@, name@);
                if j >= 0 {
                    final(self).datas@.len() == old(self).datas@.len()
                        && final(self).datas@[j].0 == old(self).datas@[j].0
                        && final(self).datas@[j].1 == entry
                        && (forall|k: int|
                            0 <= k < old(self).datas@.len() && k != j
                                ==> final(self).datas@[k] == old(self).datas@[k])
                } else {
                    final(self).datas@.len() == old(self).datas@.len() + 1
                        && (forall|k: int|
                            0 <= k < old(self).datas@.len()
                                ==> final(self).datas@[k] == old(self).datas@[k])
                        && final(self).datas@.last().0@ == name@
                        && final(self).datas@.last().1 == entry
                }
            }),
    {
        let key = String::from_str(name);
        let n = self.datas.len();
        let mut i: usize = 0;
        while i < n
            invariant
                i <= n,
                n == self.datas@.len(),
                key@ == name@,
                *self == *old(self),
                forall|j: int| 0 <= j < i ==> self.datas@[j].0@ != name@,
            decreases n - i,
        {
            if self.datas[i].0 == key {
                proof {
                    lemma_param_at_from(self.datas@, name@, i as int);
                    assert(self.datas@.skip(i as int)[0] == self.datas@[i as int]);
                    assert(spec_param_at(self.datas@.skip(i as int), name@) == 0);
                }
                self.datas[i].1 = entry;
                return ;
            }
            i = i + 1;
        }
        proof {
            lemma_param_at_from(self.datas@, name@, n as int);
            assert(self.datas@.skip(n as int) =~= Seq::<(String, DataEntry)>::empty());
        }
        self.add_entry(name, entry);
    }
}

impl DataCollection {
    /// Appends one entry holding an array of `iter_n` values drawn
    /// from the supplied generator.
    pub fn add_entry_from_func<F: Fn() -> DataEntry>(&mut self, name: &str, iter_n: usize, func: F)
        requires
            func.requires(()),
        ensures
            final(self).entires.datas@.len() == old(self).entires.datas@.len() + 1,
            forall|j: int|
                0 <= j < old(self).entires.datas@.len() ==> final(self).entires.datas@[j] == old(
                    self,
                ).entires.datas@[j],
            final(self).entires.datas@.last().0@ == name@,
            final(self).entires.datas@.last().1 matches DataEntry::Array(vals) && vals@.len()
                == iter_n && (forall|k: int|
                0 <= k < iter_n ==> call_ensures(func, (), #[trigger] vals@[k])),
    {
        let mut vals: Vec<DataEntry> = Vec::new();
        let mut i: usize = 0;
        while i < iter_n
            invariant
                i <= iter_n,
                vals@.len() == i,
                func.requires(()),
                forall|k: int| 0 <= k < i ==> call_ensures(func, (), #[trigger] vals@[k]),
            decreases iter_n - i,
        {
            let v = func();
            vals.push(v);
            i = i + 1;
        }
        self.add_entry(name, DataEntry::Array(vals));
    }

    /// Calls the generator `iter_n` times; each call must yield one
    /// value per name, and the values are regrouped into one array
    /// entry per name.  A call with the wrong width is rejected and
    /// leaves the collection unchanged.
    pub fn add_entries_from_func<F: Fn() -> Vec<DataEntry>>(
        &mut self,
        name: &Vec<&str>,
        iter_n: usize,
        func: F,
    ) -> (r: Result<(), DataCollectionError>)
        requires
            func.requires(()),
        ensures
            r is Ok ==> exists|rows: Seq<Vec<DataEntry>>|
                {
                    &&& #[trigger] rows.len() == iter_n
                    &&& (forall|i: int|
                        0 <= i < iter_n ==> call_ensures(func, (), #[trigger] rows[i])
                            && rows[i]@.len() == name@.len())
                    &&& final(self).entires.datas@.len() == old(self).entires.datas@.len()
                        + name@.len()
                    &&& (forall|j: int|
                        0 <= j < old(self).entires.datas@.len() ==> final(self).entires.datas@[j]
                            == old(self).entires.datas@[j])
                    &&& (forall|j: int|
                        0 <= j < name@.len() ==> #[trigger] final(self).entires.datas@[old(
                            self,
                        ).entires.datas@.len() + j].0@ == name@[j]@)
                    &&& (forall|j: int|
                        0 <= j < name@.len() ==> ((#[trigger] final(self).entires.datas@[old(
                            self,
                        ).entires.datas@.len() + j].1) matches DataEntry::Array(col) && col@
                            == Seq::new(iter_n as nat, |i: int| rows[i]@[j])))
                },
            r matches Err(e) ==> e matches DataCollectionError::AddEntryError(_) && *final(self)
                == *old(self),
    {
        let n = name.len();
        let mut cols: Vec<Vec<DataEntry>> = Vec::new();
        let mut c: usize = 0;
        while c < n
            invariant
                c <= n,
                cols@.len() == c,
                forall|j: int| 0 <= j < c ==> (#[trigger] cols@[j])@.len() == 0,
            decreases n - c,
        {
            cols.push(Vec::new());
            c = c + 1;
        }
        let mut it: usize = 0;
        let ghost mut rows_g: Seq<Vec<DataEntry>> = Seq::empty();
        while it < iter_n
            invariant
                it <= iter_n,
                n == name@.len(),
                cols@.len() == n,
                func.requires(()),
                *self == *old(self),
                rows_g.len() == it,
                forall|i: int|
                    0 <= i < it ==> call_ensures(func, (), #[trigger] rows_g[i])
                        && rows_g[i]@.len() == n,
                forall|j: int|
                    0 <= j < n ==> (#[trigger] cols@[j])@ == Seq::new(
                        it as nat,
                        |i: int| rows_g[i]@[j],
                    ),
            decreases iter_n - it,
        {
            let mut row = func();
            let ghost rfull = row;
            if row.len() != n {
                return Err(
                    DataCollectionError::AddEntryError(
                        String::from_str("Name and function returns length mismatch"),
                    ),
                );
            }
            let ghost prev_cols = cols@;
            let mut j: usize = 0;
            proof {
                assert(row@ =~= rfull@.skip(0));
            }
            while j < n
                invariant
                    j <= n,
                    n == name@.len(),
                    cols@.len() == n,
                    rfull@.len() == n,
                    call_ensures(func, (), rfull),
                    row@ == rfull@.skip(j as int),
                    prev_cols.len() == n,
                    forall|x: int| j <= x < n ==> #[trigger] cols@[x] == prev_cols[x],
                    forall|x: int| 0 <= x < n ==> (#[trigger] prev_cols[x])@.len() == it,
                    forall|x: int|
                        0 <= x < j ==> (#[trigger] cols@[x])@ == prev_cols[x]@.push(rfull@[x]),
                decreases n - j,
            {
                let v = row.remove(0);
                proof {
                    assert(v == rfull@[j as int]);
                    assert(row@ =~= rfull@.skip(j + 1));
                }
                let ghost pc = cols@;
                let mut col = cols.remove(j);
                col.push(v);
                cols.insert(j, col);
                proof {
                    assert(cols@ =~= pc.update(j as int, cols@[j as int]));
                    assert(cols@[j as int]@ == pc[j as int]@.push(rfull@[j as int]));
                    assert(pc[j as int] == prev_cols[j as int]);
                    assert forall|x: int| 0 <= x <= j implies (#[trigger] cols@[x])@
                        == prev_cols[x]@.push(rfull@[x]) by {
                        if x < j {
                            assert(cols@[x] == pc[x]);
                        }
                    }
                    assert forall|x: int| j + 1 <= x < n implies #[trigger] cols@[x]
                        == prev_cols[x] by {
                        assert(cols@[x] == pc[x]);
                    }
                }
                j = j + 1;
            }
            proof {
                rows_g = rows_g.push(rfull);
                assert forall|x: int| 0 <= x < n implies (#[trigger] cols@[x])@ == Seq::new(
                    (it + 1) as nat,
                    |i: int| rows_g[i]@[x],
                ) by {
                    assert(cols@[x]@ == prev_cols[x]@.push(rfull@[x]));
                    assert(prev_cols[x]@ == Seq::new(it as nat, |i: int| rows_g.drop_last()[i]@[x]));
                    assert forall|i: int| 0 <= i < it implies rows_g.drop_last()[i]@[x]
                        == rows_g[i]@[x] by {
                        assert(rows_g.drop_last()[i] == rows_g[i]);
                    }
                    assert(cols@[x]@ =~= Seq::new((it + 1) as nat, |i: int| rows_g[i]@[x]));
                }
            }
            it = it + 1;
        }
        let mut entries: Vec<DataEntry> = Vec::new();
        let ghost cols_final = cols@;
        let mut k: usize = 0;
        #[verifier::loop_isolation(false)]
        while k < n
            invariant
                k <= n,
                cols@.len() == n - k,
                entries@.len() == k,
                forall|x: int| 0 <= x < n - k ==> #[trigger] cols@[x] == cols_final[k + x],
                forall|x: int|
                    0 <= x < k ==> #[trigger] entries@[x] == DataEntry::Array(cols_final[x]),
            decreases n - k,
        {
            let col = cols.remove(0);
            proof {
                assert(col == cols_final[k as int]);
            }
            entries.push(DataEntry::Array(col));
            k = k + 1;
        }
        let ghost entries_v = entries@;
        let added = self.add_entries(name, entries);
        match added {
            Ok(()) => {
                proof {
                    let base = old(self).entires.datas@.len();
                    assert forall|j: int| 0 <= j < name@.len() implies ((
                    #[trigger] self.entires.datas@[base + j].1) matches DataEntry::Array(col)
                        && col@ == Seq::new(iter_n as nat, |i: int| rows_g[i]@[j])) by {
                        assert(self.entires.datas@[base + j].1 == entries_v[j]);
                        assert(entries_v[j] == DataEntry::Array(cols_final[j]));
                        assert(cols_final[j]@ == Seq::new(iter_n as nat, |i: int| rows_g[i]@[j]));
                    }
                }
                Ok(())
            },
            Err(e) => Err(e),
        }
    }
}

impl<'a> StanData for (&'a str, DataEntry) {
    open spec fn spec_stan_data(&self) -> Seq<char> {
        "{\n    \""@ + self.0@ + "\": "@ + json_of(self.1) + "\n}"@
    }

    fn write_as_stan_data(&self) -> (r: String) {
        proof {
            reveal_strlit("{\n    \"");
            reveal_strlit("\": ");
            reveal_strlit("\n}");
        }
        let mut res = String::from_str("{\n    \"");
        res.append(self.0);
        res.append("\": ");
        self.1.write_to_stan_json(&mut res);
        res.append("\n}");
        assert(res@ =~= self.spec_stan_data());
        res
    }
}

impl<'a> StanData for (char, &'a str, Vec<DataEntry>) {
    open spec fn spec_stan_data(&self) -> Seq<char> {
        "{\n    \""@ + seq![self.0] + "\": "@ + crate::render::dec_nat(self.2@.len() as nat)
            + ",\n    \""@ + self.1@ + "\": ["@ + json_items(self.2@, 0) + "]\n}"@
    }

    fn write_as_stan_data(&self) -> (r: String) {
        proof {
            reveal_strlit("{\n    \"");
            reveal_strlit("\": ");
            reveal_strlit(",\n    \"");
            reveal_strlit("\": [");
            reveal_strlit("]\n}");
        }
        let mut res = String::from_str("{\n    \"");
        append_char(&mut res, self.0);
        res.append("\": ");
        append_u64(&mut res, self.2.len() as u64);
        res.append(",\n    \"");
        res.append(self.1);
        res.append("\": [");
        write_json_items(&self.2, 0, &mut res);
        res.append("]\n}");
        assert(res@ =~= self.spec_stan_data());
        res
    }
}

} // verus!
