//! The schema registry: tables, their fields, and each field's transform chain.

use vstd::prelude::*;

verus! {

/// The raw type of a field as the store sends it.
#[derive(Debug, Clone, Copy, PartialEq, Eq, Structural)]
pub enum FieldKind {
    /// A string; the field must be present.
    Text,
    /// A string, or nothing.
    OptionalText,
    /// A whole number in the range of `u32`.
    Number,
    /// A boolean, or nothing (the store leaves unchecked boxes out).
    OptionalBool,
    /// A list of record ids.
    Ids,
}

/// One step of a transform chain.
#[derive(Debug)]
pub enum Transform {
    /// Hands the value on unchanged.
    Identity,
    /// The first item of a list.
    First,
    /// A missing boolean reads as `false`.
    ForceBool,
    /// A whole number of dollars as text, `"$1,234.00"`.
    Money,
    /// A text split at each line feed.
    SplitLines,
    /// The first of a list of ids, fetched and hydrated as a record of the table.
    FetchFirst(usize),
    /// Every id of a list, fetched and hydrated as records of the table, in order.
    FetchMany(usize),
    /// The value of the named field of a hydrated record.
    Field(String),
}

/// How one field of a table is read and transformed.
#[derive(Debug)]
pub struct FieldSpec {
    /// The field's name in the hydrated record.
    pub target: String,
    /// The field's name in the store's raw record.
    pub source: String,
    /// The raw type of the field.
    pub kind: FieldKind,
    /// The steps run on the raw value, in order.
    pub chain: Vec<Transform>,
}

/// A table: its name in the store and its fields in hydration order.
#[derive(Debug)]
pub struct TableSchema {
    pub name: String,
    pub fields: Vec<FieldSpec>,
}

/// Every table that hydration may reach; linked tables are named by index.
#[derive(Debug)]
pub struct Registry {
    pub tables: Vec<TableSchema>,
}

/// Whether a step only names tables of a registry with `n` tables.
pub open spec fn step_in_range(step: Transform, n: nat) -> bool {
    match step {
        Transform::FetchFirst(t) => t < n,
        Transform::FetchMany(t) => t < n,
        _ => true,
    }
}

impl Registry {
    /// Every linked table that a chain names is in the registry.
    pub open spec fn wf(&self) -> bool {
        forall|t: int, f: int, s: int|
            0 <= t < self.tables@.len() && 0 <= f < self.tables@[t].fields@.len() && 0 <= s
                < self.tables@[t].fields@[f].chain@.len() ==> step_in_range(
                #[trigger] self.tables@[t].fields@[f].chain@[s],
                self.tables@.len(),
            )
    }
}

} // verus!

verus! {

impl Registry {
    /// Whether every linked table that a chain names is in the registry.
    #[verifier::loop_isolation(false)]
    pub fn is_well_formed(&self) -> (r: bool)
        ensures
            r == self.wf(),
    {
        let n = self.tables.len();
        let mut t: usize = 0;
        while t < n
            invariant
                n == self.tables@.len(),
                t <= n,
                forall|t2: int, f: int, s: int|
                    0 <= t2 < t && 0 <= f < self.tables@[t2].fields@.len() && 0 <= s
                        < self.tables@[t2].fields@[f].chain@.len() ==> step_in_range(
                        #[trigger] self.tables@[t2].fields@[f].chain@[s],
                        n as nat,
                    ),
            decreases n - t,
        {
            let fields = &self.tables[t].fields;
            let mut f: usize = 0;
            while f < fields.len()
                invariant
                    n == self.tables@.len(),
                    t < n,
                    fields == &self.tables@[t as int].fields,
                    f <= fields.len(),
                    forall|t2: int, f2: int, s: int|
                        0 <= t2 < t && 0 <= f2 < self.tables@[t2].fields@.len() && 0 <= s
                            < self.tables@[t2].fields@[f2].chain@.len() ==> step_in_range(
                            #[trigger] self.tables@[t2].fields@[f2].chain@[s],
                            n as nat,
                        ),
                    forall|f2: int, s: int|
                        0 <= f2 < f && 0 <= s < fields@[f2].chain@.len() ==> step_in_range(
                            #[trigger] fields@[f2].chain@[s],
                            n as nat,
                        ),
                decreases fields.len() - f,
            {
                let chain = &fields[f].chain;
                let mut s: usize = 0;
                while s < chain.len()
                    invariant
                        n == self.tables@.len(),
                        t < n,
                        f < fields.len(),
                        fields == &self.tables@[t as int].fields,
                        chain == &fields@[f as int].chain,
                        s <= chain.len(),
                        forall|t2: int, f2: int, s2: int|
                            0 <= t2 < t && 0 <= f2 < self.tables@[t2].fields@.len() && 0 <= s2
                                < self.tables@[t2].fields@[f2].chain@.len() ==> step_in_range(
                                #[trigger] self.tables@[t2].fields@[f2].chain@[s2],
                                n as nat,
                            ),
                        forall|f2: int, s2: int|
                            0 <= f2 < f && 0 <= s2 < fields@[f2].chain@.len() ==> step_in_range(
                                #[trigger] fields@[f2].chain@[s2],
                                n as nat,
                            ),
                        forall|s2: int| 0 <= s2 < s ==> step_in_range(#[trigger] chain@[s2], n as nat),
                    decreases chain.len() - s,
                {
                    let ok = match &chain[s] {
                        Transform::FetchFirst(x) => *x < n,
                        Transform::FetchMany(x) => *x < n,
                        _ => true,
                    };
                    if !ok {
                        assert(!step_in_range(self.tables@[t as int].fields@[f as int].chain@[s as int], n as nat));
                        return false;
                    }
                    s = s + 1;
                }
                f = f + 1;
            }
            t = t + 1;
        }
        true
    }
}

} // verus!
