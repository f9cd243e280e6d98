//! The record mapper: turns a loosely-typed remote record into a structured
//! todo item, substituting sentinel values for absent or ill-typed fields.

use vstd::prelude::*;
use vstd::string::StringExecFns;

verus! {

/// A loosely-typed value held by one field of a remote record.
pub enum FieldValue {
    /// An integer-typed value.
    Int(i64),
    /// A string-typed value.
    Text(String),
    /// A boolean-typed value.
    Flag(bool),
    /// A value of any other type the remote store supports.
    Other,
}

/// One named field ("bin") of a remote record.
pub struct Bin {
    /// The field's name.
    pub name: String,
    /// The field's value.
    pub value: FieldValue,
}

/// A remote record as the driver hands it over: the user key, if the remote
/// store returned one, and the record's fields in no particular order.
pub struct RawRecord {
    /// The user key stored alongside the record, if any.
    pub key: Option<FieldValue>,
    /// The record's named fields.
    pub bins: Vec<Bin>,
}

/// A todo item: the strongly-typed local form of a remote record.
pub struct Todo {
    /// The unique, user-assigned id; doubles as the remote primary key.
    pub id: i64,
    /// The task's description.
    pub task: String,
    /// Whether the task has been marked complete.
    pub is_complete: bool,
}

/// The sentinel text used when a record has no string-typed `task` field.
pub open spec fn warning_text() -> Seq<char> {
    "WARNING! Received unexpected string from database!"@
}

/// The id a key decodes to: the integer user key, or 0 when the key is
/// absent or not integer-typed.
pub open spec fn id_of_key(key: Option<FieldValue>) -> i64 {
    match key {
        Some(FieldValue::Int(k)) => k,
        _ => 0,
    }
}

/// The task a record's fields decode to: the string found under `task`,
/// or the fixed warning text when that field is absent or not a string.
/// The first field with a matching name governs.
pub open spec fn task_of(bins: Seq<Bin>) -> Seq<char>
    decreases bins.len(),
{
    if bins.len() == 0 {
        warning_text()
    } else if bins.first().name@ == "task"@ {
        match bins.first().value {
            FieldValue::Text(t) => t@,
            _ => warning_text(),
        }
    } else {
        task_of(bins.drop_first())
    }
}

/// The completion flag a record's fields decode to: the boolean found under
/// `is_complete`, or `false` when that field is absent or not a boolean.
/// The first field with a matching name governs.
pub open spec fn completion_of(bins: Seq<Bin>) -> bool
    decreases bins.len(),
{
    if bins.len() == 0 {
        false
    } else if bins.first().name@ == "is_complete"@ {
        match bins.first().value {
            FieldValue::Flag(c) => c,
            _ => false,
        }
    } else {
        completion_of(bins.drop_first())
    }
}

/// The item is exactly what the record decodes to.
pub open spec fn decodes_to(rec: RawRecord, t: Todo) -> bool {
    &&& t.id == id_of_key(rec.key)
    &&& t.task@ == task_of(rec.bins@)
    &&& t.is_complete == completion_of(rec.bins@)
}

impl Todo {
    /// The integer user key of a record, or 0 when absent or not an integer.
    pub fn get_key_from_record(key: &Option<FieldValue>) -> (id: i64)
        ensures
            id == id_of_key(*key),
    {
        match key {
            Some(FieldValue::Int(k)) => *k,
            _ => 0,
        }
    }

    /// The string under the `task` field, or the fixed warning text when the
    /// field is absent or not a string.
    pub fn get_task_from_record(bins: &Vec<Bin>) -> (task: String)
        ensures
            task@ == task_of(bins@),
    {
        let name: String = <String as StringExecFns>::from_str("task");
        let mut i: usize = 0;
        proof {
            assert(bins@.skip(0) =~= bins@);
        }
        while i < bins.len()
            invariant
                i <= bins@.len(),
                name@ == "task"@,
                task_of(bins@) == task_of(bins@.skip(i as int)),
            decreases bins@.len() - i,
        {
            proof {
                assert(bins@.skip(i as int).first() == bins@[i as int]);
            }
            if bins[i].name == name {
                match &bins[i].value {
                    FieldValue::Text(t) => {
                        return t.clone();
                    },
                    _ => {
                        return <String as StringExecFns>::from_str(
                            "WARNING! Received unexpected string from database!",
                        );
                    },
                }
            }
            proof {
                assert(bins@.skip(i as int).drop_first() =~= bins@.skip(i + 1));
            }
            i += 1;
        }
        <String as StringExecFns>::from_str("WARNING! Received unexpected string from database!")
    }

    /// The boolean under the `is_complete` field, or `false` when the field
    /// is absent or not a boolean.
    pub fn get_completion_from_record(bins: &Vec<Bin>) -> (is_complete: bool)
        ensures
            is_complete == completion_of(bins@),
    {
        let name: String = <String as StringExecFns>::from_str("is_complete");
        let mut i: usize = 0;
        proof {
            assert(bins@.skip(0) =~= bins@);
        }
        while i < bins.len()
            invariant
                i <= bins@.len(),
                name@ == "is_complete"@,
                completion_of(bins@) == completion_of(bins@.skip(i as int)),
            decreases bins@.len() - i,
        {
            proof {
                assert(bins@.skip(i as int).first() == bins@[i as int]);
            }
            if bins[i].name == name {
                match &bins[i].value {
                    FieldValue::Flag(c) => {
                        return *c;
                    },
                    _ => {
                        return false;
                    },
                }
            }
            proof {
                assert(bins@.skip(i as int).drop_first() =~= bins@.skip(i + 1));
            }
            i += 1;
        }
        false
    }

    /// Decode one remote record into a todo item. Total: malformed fields
    /// become sentinel values, never an error.
    pub fn parse_todo(rec: RawRecord) -> (todo: Todo)
        ensures
            decodes_to(rec, todo),
    {
        let id = Self::get_key_from_record(&rec.key);
        let task = Self::get_task_from_record(&rec.bins);
        let is_complete = Self::get_completion_from_record(&rec.bins);
        Todo { id, task, is_complete }
    }
}

/// A record without a string-typed `task` field always decodes to the fixed
/// warning text, never to a failure.
pub proof fn lemma_missing_task_yields_warning(bins: Seq<Bin>)
    requires
        forall|k: int|
            0 <= k < bins.len() && bins[k].name@ == "task"@ ==> !(bins[k].value is Text),
    ensures
        task_of(bins) == warning_text(),
    decreases bins.len(),
{
    if bins.len() == 0 {
    } else if bins.first().name@ == "task"@ {
        assert(!(bins[0].value is Text));
    } else {
        assert(forall|k: int|
            0 <= k < bins.drop_first().len() && bins.drop_first()[k].name@ == "task"@
                ==> !(bins.drop_first()[k].value is Text));
        lemma_missing_task_yields_warning(bins.drop_first());
    }
}

} // verus!
