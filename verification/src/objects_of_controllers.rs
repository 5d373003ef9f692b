//! Bodies of the JSON requests and answers of the server's API.

use vstd::prelude::*;

use crate::models::MyError;
use crate::station::{Tank, Tovar, Trk};

verus! {

/// The answer of an API call that reports only success or failure.
pub struct RequestResult {
    pub status: bool,
}

/// Credentials sent to log a user in.
pub struct AuthInfo {
    pub id_user: i32,
    pub password: String,
}

/// Credentials as echoed back by the login API.
pub struct AuthResult {
    pub id_user: i32,
    pub password: String,
}

/// The station's equipment as sent to or read from the settings API; each
/// part may be left out.
pub struct AllObject {
    pub trks: Option<Vec<Trk>>,
    pub tovars: Option<Vec<Tovar>>,
    pub tanks: Option<Vec<Tank>>,
}

/// The ids of equipment that a delete request names; each part may be left
/// out.
#[allow(non_camel_case_types)]
pub struct AllObject_ID {
    pub trks: Option<Vec<i32>>,
    pub tovars: Option<Vec<i32>>,
    pub tanks: Option<Vec<i32>>,
}

/// A part of the station's equipment that the settings API stores.
#[derive(PartialEq, Eq, Structural, Clone, Copy, Debug)]
pub enum EquipmentPart {
    Tovars,
    Trks,
    Tanks,
}

/// The position of a part in the order in which a settings request writes
/// its parts: goods first, then pumps, then tanks.
pub open spec fn write_rank(part: EquipmentPart) -> int {
    match part {
        EquipmentPart::Tovars => 0,
        EquipmentPart::Trks => 1,
        EquipmentPart::Tanks => 2,
    }
}

/// The parts of a settings request that are present, in the order goods,
/// pumps, tanks.
pub open spec fn parts_present(tovars: bool, trks: bool, tanks: bool) -> Seq<EquipmentPart> {
    (if tovars { seq![EquipmentPart::Tovars] } else { Seq::empty() })
        + (if trks { seq![EquipmentPart::Trks] } else { Seq::empty() })
        + (if tanks { seq![EquipmentPart::Tanks] } else { Seq::empty() })
}

impl AllObject {
    /// The parts that a settings request asks to store, in the order in
    /// which they are written: goods, then pumps, then tanks; absent parts
    /// are left alone.
    pub fn parts_to_store(&self) -> (parts: Vec<EquipmentPart>)
        ensures
            parts@ == parts_present(self.tovars is Some, self.trks is Some, self.tanks is Some),
            parts@.contains(EquipmentPart::Tovars) <==> self.tovars is Some,
            parts@.contains(EquipmentPart::Trks) <==> self.trks is Some,
            parts@.contains(EquipmentPart::Tanks) <==> self.tanks is Some,
            forall|i: int, j: int| 0 <= i < j < parts@.len() ==> write_rank(#[trigger] parts@[i]) < write_rank(#[trigger] parts@[j]),
    {
        let mut parts: Vec<EquipmentPart> = Vec::new();
        if self.tovars.is_some() {
            parts.push(EquipmentPart::Tovars);
        }
        if self.trks.is_some() {
            parts.push(EquipmentPart::Trks);
        }
        if self.tanks.is_some() {
            parts.push(EquipmentPart::Tanks);
        }
        assert(parts@ =~= parts_present(self.tovars is Some, self.trks is Some, self.tanks is Some));
        proof {
            if self.tovars is Some {
                assert(parts@[0] == EquipmentPart::Tovars);
            }
            if self.trks is Some {
                assert(parts@[if self.tovars is Some { 1int } else { 0int }] == EquipmentPart::Trks);
            }
            if self.tanks is Some {
                assert(parts@[parts@.len() - 1] == EquipmentPart::Tanks);
            }
        }
        parts
    }
}

impl AllObject_ID {
    /// The parts that a delete request acts on: only pumps are deleted, and
    /// only when the request names pumps; named goods and tanks are left alone.
    pub fn parts_to_delete(&self) -> (parts: Vec<EquipmentPart>)
        ensures
            parts@ == parts_present(false, self.trks is Some, false),
            parts@.contains(EquipmentPart::Trks) <==> self.trks is Some,
            !parts@.contains(EquipmentPart::Tovars),
            !parts@.contains(EquipmentPart::Tanks),
    {
        let mut parts: Vec<EquipmentPart> = Vec::new();
        if self.trks.is_some() {
            parts.push(EquipmentPart::Trks);
        }
        assert(parts@ =~= parts_present(false, self.trks is Some, false));
        proof {
            if self.trks is Some {
                assert(parts@[0] == EquipmentPart::Trks);
            }
        }
        parts
    }
}

/// The index of the first failed write, or the number of writes when all
/// succeeded.
pub open spec fn first_failure(results: Seq<Result<bool, MyError>>) -> int
    decreases results.len(),
{
    if results.len() == 0 {
        0
    } else if first_failure(results.drop_last()) < results.len() - 1 {
        first_failure(results.drop_last())
    } else if results.last() is Err {
        results.len() - 1
    } else {
        results.len() as int
    }
}

/// The outcome of a settings request from the outcomes of its writes, taken
/// in the order in which they were made: the first failed write's error, or
/// success when every write succeeded.
pub fn combine_write_results(results: &Vec<Result<bool, MyError>>) -> (r: Result<bool, MyError>)
    ensures
        0 <= first_failure(results@) <= results@.len(),
        forall|i: int| 0 <= i < first_failure(results@) ==> #[trigger] results@[i] is Ok,
        first_failure(results@) < results@.len() ==> results@[first_failure(results@)] is Err,
        r matches Ok(status) ==> status && first_failure(results@) == results@.len(),
        r matches Err(e) ==> first_failure(results@) < results@.len()
            && e.message() == results@[first_failure(results@)]->Err_0.message(),
{
    let n = results.len();
    for j in 0..n
        invariant
            n == results@.len(),
            first_failure(results@.take(j as int)) == j,
            forall|i: int| 0 <= i < j ==> #[trigger] results@[i] is Ok,
    {
        assert(results@.take(j + 1).drop_last() =~= results@.take(j as int));
        assert(results@.take(j + 1).last() == results@[j as int]);
        match &results[j] {
            Err(MyError::DatabaseError(m)) => {
                proof { lemma_first_failure_prefix(results@, j as int + 1); }
                return Err(MyError::DatabaseError(m.clone()));
            },
            Ok(_) => {},
        }
    }
    assert(results@.take(n as int) =~= results@);
    Ok(true)
}

/// A failure among the first `k` writes is the first failure of them all.
proof fn lemma_first_failure_prefix(results: Seq<Result<bool, MyError>>, k: int)
    requires
        0 <= k <= results.len(),
        first_failure(results.take(k)) < k,
    ensures
        first_failure(results) == first_failure(results.take(k)),
    decreases results.len() - k,
{
    if k < results.len() {
        assert(results.take(k + 1).drop_last() =~= results.take(k));
        lemma_first_failure_prefix(results, k + 1);
    } else {
        assert(results.take(k) =~= results);
    }
}

} // verus!
