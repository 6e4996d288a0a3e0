use vstd::prelude::*;

use crate::error::VaultError;
use crate::text::chars_of;

verus! {

/// One credential record. `password` holds the envelope of the secret, never
/// the secret itself; `id` is `None` until the store assigns one.
#[derive(Debug)]
pub struct Password {
    pub id: Option<i64>,
    pub service: String,
    pub username: String,
    pub password: String,
    pub notes: Option<String>,
}

/// A record as plain values.
pub struct PasswordView {
    pub id: Option<i64>,
    pub service: Seq<char>,
    pub username: Seq<char>,
    pub password: Seq<char>,
    pub notes: Option<Seq<char>>,
}

/// The view of an optional string.
pub open spec fn opt_view(s: Option<String>) -> Option<Seq<char>> {
    match s {
        Some(t) => Some(t@),
        None => None,
    }
}

impl View for Password {
    type V = PasswordView;

    open spec fn view(&self) -> PasswordView {
        PasswordView {
            id: self.id,
            service: self.service@,
            username: self.username@,
            password: self.password@,
            notes: opt_view(self.notes),
        }
    }
}

fn clone_opt(s: &Option<String>) -> (r: Option<String>)
    ensures
        opt_view(r) == opt_view(*s),
{
    match s {
        Some(t) => Some(t.clone()),
        None => None,
    }
}

impl Password {
    /// A copy of this record.
    pub fn duplicate(&self) -> (r: Password)
        ensures
            r@ == self@,
    {
        Password {
            id: self.id,
            service: self.service.clone(),
            username: self.username.clone(),
            password: self.password.clone(),
            notes: clone_opt(&self.notes),
        }
    }
}

/// The views of a sequence of records.
pub open spec fn views(v: Seq<Password>) -> Seq<PasswordView> {
    v.map_values(|p: Password| p@)
}

/// The record `p` under the id `id`.
pub open spec fn with_id(p: PasswordView, id: i64) -> PasswordView {
    PasswordView { id: Some(id), ..p }
}

/// The table is well formed: every row has a positive id below `next_id`,
/// and ids strictly increase along the table (so they are unique and the
/// table is in insertion order).
pub open spec fn rows_wf(rows: Seq<PasswordView>, next_id: i64) -> bool {
    &&& next_id >= 1
    &&& forall|i: int|
        0 <= i < rows.len() ==> (#[trigger] rows[i]).id is Some && 1 <= rows[i].id->0 < next_id
    &&& forall|i: int, j: int|
        0 <= i < j < rows.len() ==> (#[trigger] rows[i]).id->0 < (#[trigger] rows[j]).id->0
}

/// Whether some row has the id `id`.
pub open spec fn has_id(rows: Seq<PasswordView>, id: i64) -> bool {
    exists|i: int| 0 <= i < rows.len() && (#[trigger] rows[i]).id == Some(id)
}

/// The row with the id `id`, if any.
pub open spec fn lookup(rows: Seq<PasswordView>, id: i64) -> Option<PasswordView> {
    if has_id(rows, id) {
        Some(rows[choose|i: int| 0 <= i < rows.len() && (#[trigger] rows[i]).id == Some(id)])
    } else {
        None
    }
}

/// The table with the row whose id is `rec`'s replaced by `rec`.
pub open spec fn replaced(rows: Seq<PasswordView>, rec: PasswordView) -> Seq<PasswordView> {
    rows.map_values(|r: PasswordView| if r.id == rec.id { rec } else { r })
}

/// The table without the row whose id is `id`.
pub open spec fn without_id(rows: Seq<PasswordView>, id: i64) -> Seq<PasswordView> {
    rows.filter(|r: PasswordView| r.id != Some(id))
}

/// A character code with ASCII upper case letters taken to lower case.
pub open spec fn fold_code(c: char) -> u32 {
    if 65 <= c as u32 <= 90 {
        (c as u32 + 32) as u32
    } else {
        c as u32
    }
}

/// Whether `needle` occurs in `hay` at position `i`, ignoring ASCII case.
pub open spec fn matches_at(hay: Seq<char>, needle: Seq<char>, i: int) -> bool {
    &&& 0 <= i
    &&& i + needle.len() <= hay.len()
    &&& forall|j: int| 0 <= j < needle.len() ==> fold_code(hay[i + j]) == fold_code(needle[j])
}

/// Whether `needle` occurs in `hay`, ignoring ASCII case.
pub open spec fn contains_folded(hay: Seq<char>, needle: Seq<char>) -> bool {
    exists|i: int| #[trigger] matches_at(hay, needle, i)
}

/// Whether a record matches a search query: the query occurs in its service
/// or its username, ignoring ASCII case. The envelope is never searched.
pub open spec fn matches_query(r: PasswordView, query: Seq<char>) -> bool {
    contains_folded(r.service, query) || contains_folded(r.username, query)
}

fn fold(c: char) -> (r: u32)
    ensures
        r == fold_code(c),
{
    let x = c as u32;
    if 65 <= x && x <= 90 {
        x + 32
    } else {
        x
    }
}

fn matches_at_exec(hay: &Vec<char>, needle: &Vec<char>, i: usize) -> (r: bool)
    requires
        i + needle@.len() <= hay@.len(),
    ensures
        r == matches_at(hay@, needle@, i as int),
{
    let hay_len = hay.len();
    let mut j: usize = 0;
    while j < needle.len()
        invariant
            i + needle@.len() <= hay@.len(),
            hay_len == hay@.len(),
            j <= needle@.len(),
            forall|k: int| 0 <= k < j ==> fold_code(hay@[i + k]) == fold_code(needle@[k]),
        decreases needle.len() - j,
    {
        if fold(hay[i + j]) != fold(needle[j]) {
            return false;
        }
        j = j + 1;
    }
    true
}

/// Whether `needle` occurs in `hay`, ignoring ASCII case.
pub fn contains_ignoring_case(hay: &str, needle: &str) -> (r: bool)
    ensures
        r == contains_folded(hay@, needle@),
{
    let h = chars_of(hay);
    let n = chars_of(needle);
    if n.len() > h.len() {
        assert(!contains_folded(hay@, needle@));
        return false;
    }
    let last = h.len() - n.len();
    let mut i: usize = 0;
    loop
        invariant
            h@ == hay@,
            n@ == needle@,
            last == h@.len() - n@.len(),
            i <= last,
            forall|k: int| 0 <= k < i ==> !matches_at(hay@, needle@, k),
        ensures
            forall|k: int| 0 <= k <= last ==> !matches_at(hay@, needle@, k),
        decreases last - i,
    {
        if matches_at_exec(&h, &n, i) {
            return true;
        }
        if i == last {
            break;
        }
        i = i + 1;
    }
    assert forall|k: int| !matches_at(hay@, needle@, k) by {
        if 0 <= k <= last {
        }
    }
    false
}

/// The largest id issued so far according to storage: the larger of the
/// recorded sequence value and the last row's id (rows are in id order),
/// and never below zero.
pub open spec fn last_issued_id(rows: Seq<PasswordView>, recorded: i64) -> i64 {
    let last_row: i64 = if rows.len() > 0 && rows.last().id is Some {
        rows.last().id->0
    } else {
        0
    };
    let m = if recorded > last_row {
        recorded
    } else {
        last_row
    };
    if m > 0 {
        m
    } else {
        0
    }
}

/// The vault's record table: rows in insertion order, each with a unique id
/// that is never handed out again.
pub struct Database {
    rows: Vec<Password>,
    next_id: i64,
}

impl Database {
    /// The rows, in order.
    pub closed spec fn rows(&self) -> Seq<PasswordView> {
        views(self.rows@)
    }

    /// The id that the next added row receives.
    pub closed spec fn spec_next_id(&self) -> i64 {
        self.next_id
    }

    /// The table's invariant.
    pub open spec fn wf(&self) -> bool {
        rows_wf(self.rows(), self.spec_next_id())
    }

    /// An empty table whose first id is 1.
    pub fn new() -> (r: Database)
        ensures
            r.wf(),
            r.rows() == Seq::<PasswordView>::empty(),
            r.spec_next_id() == 1,
    {
        let r = Database { rows: Vec::new(), next_id: 1 };
        assert(r.rows() =~= Seq::<PasswordView>::empty());
        r
    }

    /// A table holding `rows` with `next_id` as the next id to hand out, as
    /// read back from storage. Rows that break the table's invariant (a
    /// missing id, ids out of order or not below `next_id`) are refused with
    /// `StorageError`.
    pub fn from_rows(rows: Vec<Password>, next_id: i64) -> (r: Result<Database, VaultError>)
        ensures
            r is Ok <==> rows_wf(views(rows@), next_id),
            r is Ok ==> r->Ok_0.wf() && r->Ok_0.rows() == views(rows@) && r->Ok_0.spec_next_id()
                == next_id,
            r is Err ==> r == Err::<Database, VaultError>(VaultError::StorageError),
    {
        if next_id < 1 {
            return Err(VaultError::StorageError);
        }
        let ghost v = views(rows@);
        let mut prev: i64 = 0;
        let mut i: usize = 0;
        while i < rows.len()
            invariant
                v == views(rows@),
                next_id >= 1,
                i <= rows@.len(),
                0 <= prev < next_id,
                i > 0 ==> v[i - 1].id == Some(prev),
                i == 0 ==> prev == 0,
                forall|k: int| 0 <= k < i ==> (#[trigger] v[k]).id is Some && 1 <= v[k].id->0 < next_id,
                forall|a: int, b: int|
                    0 <= a < b < i ==> (#[trigger] v[a]).id->0 < (#[trigger] v[b]).id->0,
                forall|a: int| 0 <= a < i ==> (#[trigger] v[a]).id->0 <= prev,
            decreases rows.len() - i,
        {
            let ok = match rows[i].id {
                Some(x) => prev < x && x < next_id,
                None => false,
            };
            if !ok {
                proof {
                    assert(v[i as int] == rows@[i as int]@);
                    if v[i as int].id is Some && 1 <= v[i as int].id->0 < next_id {
                        assert(i > 0);
                        assert(v[i - 1].id->0 < v[i as int].id->0 ==> false);
                    }
                }
                return Err(VaultError::StorageError);
            }
            prev = match rows[i].id {
                Some(x) => x,
                None => prev,
            };
            assert(v[i as int] == rows@[i as int]@);
            i = i + 1;
        }
        Ok(Database { rows, next_id })
    }

    /// The table that storage holds: `rows` in id order, and `recorded`, the
    /// largest id that storage says was ever issued. The next id follows the
    /// largest issued so far, so ids of deleted rows are not handed out
    /// again. Fails with `StorageError` when no id is left or the rows break
    /// the table's invariant.
    pub fn load(rows: Vec<Password>, recorded: i64) -> (r: Result<Database, VaultError>)
        ensures
            r is Ok <==> (last_issued_id(views(rows@), recorded) < i64::MAX && rows_wf(
                views(rows@),
                (last_issued_id(views(rows@), recorded) + 1) as i64,
            )),
            r is Ok ==> r->Ok_0.wf() && r->Ok_0.rows() == views(rows@) && r->Ok_0.spec_next_id()
                == last_issued_id(views(rows@), recorded) + 1,
            r is Err ==> r == Err::<Database, VaultError>(VaultError::StorageError),
    {
        let n = rows.len();
        let last_row: i64 = if n > 0 {
            match rows[n - 1].id {
                Some(x) => x,
                None => 0,
            }
        } else {
            0
        };
        proof {
            if n > 0 {
                assert(views(rows@).last() == rows@[n - 1]@);
            }
        }
        let m = if recorded > last_row {
            recorded
        } else {
            last_row
        };
        let m = if m > 0 {
            m
        } else {
            0
        };
        if m == i64::MAX {
            return Err(VaultError::StorageError);
        }
        Database::from_rows(rows, m + 1)
    }

    fn position(&self, id: i64) -> (r: Option<usize>)
        requires
            self.wf(),
        ensures
            match r {
                Some(i) => i < self.rows().len() && self.rows()[i as int].id == Some(id),
                None => !has_id(self.rows(), id),
            },
    {
        let mut i: usize = 0;
        while i < self.rows.len()
            invariant
                i <= self.rows@.len(),
                forall|k: int| 0 <= k < i ==> (#[trigger] self.rows@[k]).id != Some(id),
            decreases self.rows.len() - i,
        {
            let found = match self.rows[i].id {
                Some(x) => x == id,
                None => false,
            };
            if found {
                return Some(i);
            }
            i = i + 1;
        }
        None
    }

    /// Adds a record under the next id, ignoring the id it carries, and
    /// returns that id. Fails with `StorageError` once the id space is used
    /// up; the table is then unchanged.
    pub fn add_password(&mut self, password: &Password) -> (r: Result<i64, VaultError>)
        requires
            old(self).wf(),
        ensures
            final(self).wf(),
            old(self).spec_next_id() < i64::MAX ==> {
                &&& r == Ok::<i64, VaultError>(old(self).spec_next_id())
                &&& final(self).rows() == old(self).rows().push(
                    with_id(password@, old(self).spec_next_id()),
                )
                &&& final(self).spec_next_id() == old(self).spec_next_id() + 1
            },
            old(self).spec_next_id() == i64::MAX ==> {
                &&& r == Err::<i64, VaultError>(VaultError::StorageError)
                &&& final(self).rows() == old(self).rows()
                &&& final(self).spec_next_id() == old(self).spec_next_id()
            },
    {
        if self.next_id == i64::MAX {
            return Err(VaultError::StorageError);
        }
        let id = self.next_id;
        let mut rec = password.duplicate();
        rec.id = Some(id);
        let ghost before = self.rows();
        self.rows.push(rec);
        self.next_id = id + 1;
        assert(self.rows() =~= before.push(with_id(password@, id)));
        Ok(id)
    }

    /// The record with the id `id`, if the table holds one.
    pub fn get_password(&self, id: i64) -> (r: Option<Password>)
        requires
            self.wf(),
        ensures
            match r {
                Some(p) => lookup(self.rows(), id) == Some(p@),
                None => lookup(self.rows(), id) is None,
            },
    {
        match self.position(id) {
            Some(i) => {
                proof {
                    let rows = self.rows();
                    let j = choose|j: int| 0 <= j < rows.len() && (#[trigger] rows[j]).id == Some(id);
                    if j < i {
                        assert(rows[j].id->0 < rows[i as int].id->0);
                    } else if j > i {
                        assert(rows[i as int].id->0 < rows[j].id->0);
                    }
                }
                Some(self.rows[i].duplicate())
            },
            None => None,
        }
    }

    /// All records, in insertion order.
    pub fn get_all_passwords(&self) -> (r: Vec<Password>)
        ensures
            views(r@) == self.rows(),
    {
        let mut out: Vec<Password> = Vec::new();
        let mut i: usize = 0;
        while i < self.rows.len()
            invariant
                i <= self.rows@.len(),
                views(out@) == views(self.rows@.take(i as int)),
            decreases self.rows.len() - i,
        {
            out.push(self.rows[i].duplicate());
            assert(views(self.rows@.take(i + 1)) =~= views(self.rows@.take(i as int)).push(
                self.rows@[i as int]@,
            ));
            assert(views(out@) =~= views(self.rows@.take(i as int)).push(self.rows@[i as int]@));
            i = i + 1;
        }
        assert(self.rows@.take(self.rows@.len() as int) =~= self.rows@);
        out
    }

    /// The records whose service or username contains `query`, ignoring
    /// ASCII case, in insertion order. An empty query matches every record.
    pub fn search_passwords(&self, query: &str) -> (r: Vec<Password>)
        ensures
            views(r@) == self.rows().filter(|p: PasswordView| matches_query(p, query@)),
    {
        let ghost pred = |p: PasswordView| matches_query(p, query@);
        let mut out: Vec<Password> = Vec::new();
        let mut i: usize = 0;
        while i < self.rows.len()
            invariant
                i <= self.rows@.len(),
                pred == (|p: PasswordView| matches_query(p, query@)),
                views(out@) == views(self.rows@.take(i as int)).filter(pred),
            decreases self.rows.len() - i,
        {
            let row = &self.rows[i];
            let hit = contains_ignoring_case(row.service.as_str(), query)
                || contains_ignoring_case(row.username.as_str(), query);
            let ghost prefix = views(self.rows@.take(i as int));
            assert(views(self.rows@.take(i + 1)) =~= prefix.push(self.rows@[i as int]@));
            proof {
                prefix.lemma_filter_push(self.rows@[i as int]@, pred);
            }
            if hit {
                let ghost before = out@;
                out.push(row.duplicate());
                assert(views(out@) =~= views(before).push(self.rows@[i as int]@));
            }
            i = i + 1;
        }
        assert(self.rows@.take(self.rows@.len() as int) =~= self.rows@);
        out
    }

    /// Replaces every field of the record whose id is `password.id`.
    /// Fails with `NotFound`, leaving the table unchanged, when no record
    /// has that id (or the given record has none).
    pub fn update_password(&mut self, password: &Password) -> (r: Result<(), VaultError>)
        requires
            old(self).wf(),
        ensures
            final(self).wf(),
            final(self).spec_next_id() == old(self).spec_next_id(),
            r is Ok <==> (password.id is Some && has_id(old(self).rows(), password.id->0)),
            r is Ok ==> final(self).rows() == replaced(old(self).rows(), password@),
            r is Err ==> r == Err::<(), VaultError>(VaultError::NotFound) && final(self).rows()
                == old(self).rows(),
    {
        let id = match password.id {
            Some(x) => x,
            None => {
                return Err(VaultError::NotFound);
            },
        };
        match self.position(id) {
            None => Err(VaultError::NotFound),
            Some(i) => {
                let ghost before = self.rows();
                self.rows[i] = password.duplicate();
                assert forall|k: int| 0 <= k < before.len() && k != i implies before[k].id
                    != password@.id by {
                    if k < i {
                        assert(before[k].id->0 < before[i as int].id->0);
                    } else {
                        assert(before[i as int].id->0 < before[k].id->0);
                    }
                }
                assert(self.rows() =~= replaced(before, password@));
                Ok(())
            },
        }
    }

    /// Removes the record with the id `id`. Fails with `NotFound`, leaving
    /// the table unchanged, when there is none.
    pub fn delete_password(&mut self, id: i64) -> (r: Result<(), VaultError>)
        requires
            old(self).wf(),
        ensures
            final(self).wf(),
            final(self).spec_next_id() == old(self).spec_next_id(),
            r is Ok <==> has_id(old(self).rows(), id),
            r is Ok ==> final(self).rows() == without_id(old(self).rows(), id),
            r is Err ==> r == Err::<(), VaultError>(VaultError::NotFound) && final(self).rows()
                == old(self).rows(),
    {
        let ghost pred = |p: PasswordView| p.id != Some(id);
        let ghost all = self.rows();
        let mut kept: Vec<Password> = Vec::new();
        let mut found = false;
        let mut i: usize = 0;
        while i < self.rows.len()
            invariant
                self.wf(),
                all == self.rows(),
                i <= self.rows@.len(),
                pred == (|p: PasswordView| p.id != Some(id)),
                views(kept@) == views(self.rows@.take(i as int)).filter(pred),
                rows_wf(views(kept@), self.next_id),
                forall|a: int, b: int|
                    0 <= a < kept@.len() && i <= b < all.len() ==> (#[trigger] kept@[a]).id->0
                        < (#[trigger] all[b]).id->0,
                found <==> exists|k: int| 0 <= k < i && (#[trigger] all[k]).id == Some(id),
            decreases self.rows.len() - i,
        {
            let ghost prefix = views(self.rows@.take(i as int));
            assert(views(self.rows@.take(i + 1)) =~= prefix.push(all[i as int]));
            proof {
                prefix.lemma_filter_push(all[i as int], pred);
            }
            let same = match self.rows[i].id {
                Some(x) => x == id,
                None => false,
            };
            if same {
                found = true;
            } else {
                let ghost before = kept@;
                kept.push(self.rows[i].duplicate());
                assert(views(kept@) =~= views(before).push(all[i as int]));
                assert forall|a: int, b: int|
                    0 <= a < kept@.len() && i + 1 <= b < all.len() implies (#[trigger] kept@[a]).id->0
                        < (#[trigger] all[b]).id->0 by {
                    if a < before.len() {
                        assert(before[a].id->0 < all[i as int].id->0);
                    }
                    assert(all[i as int].id->0 < all[b].id->0);
                }
                assert(rows_wf(views(kept@), self.next_id)) by {
                    assert forall|a: int, b: int|
                        0 <= a < b < kept@.len() implies (#[trigger] views(kept@)[a]).id->0 < (
                        #[trigger] views(kept@)[b]).id->0 by {
                        if b == kept@.len() - 1 {
                            assert(kept@[a].id->0 < all[i as int].id->0);
                        } else {
                            assert(views(before)[a].id->0 < views(before)[b].id->0);
                        }
                    }
                }
            }
            i = i + 1;
        }
        assert(self.rows@.take(self.rows@.len() as int) =~= self.rows@);
        if found {
            self.rows = kept;
            Ok(())
        } else {
            Err(VaultError::NotFound)
        }
    }

    /// The id that the next added row receives.
    pub fn next_id(&self) -> (r: i64)
        ensures
            r == self.spec_next_id(),
    {
        self.next_id
    }
}


/// After a record is added under the next id, looking that id up gives the
/// record as supplied, carrying that id.
pub proof fn lemma_get_after_add(rows: Seq<PasswordView>, next_id: i64, p: PasswordView)
    requires
        rows_wf(rows, next_id),
    ensures
        lookup(rows.push(with_id(p, next_id)), next_id) == Some(with_id(p, next_id)),
{
    let after = rows.push(with_id(p, next_id));
    assert(after[rows.len() as int].id == Some(next_id));
    let j = choose|j: int| 0 <= j < after.len() && (#[trigger] after[j]).id == Some(next_id);
    if j < rows.len() {
        assert(rows[j].id->0 < next_id);
    }
}

/// Adding a record leaves every other id's lookup as it was.
pub proof fn lemma_add_keeps_others(rows: Seq<PasswordView>, next_id: i64, p: PasswordView, id: i64)
    requires
        rows_wf(rows, next_id),
        id != next_id,
    ensures
        lookup(rows.push(with_id(p, next_id)), id) == lookup(rows, id),
{
    let after = rows.push(with_id(p, next_id));
    if has_id(rows, id) {
        let k = choose|k: int| 0 <= k < rows.len() && (#[trigger] rows[k]).id == Some(id);
        assert(after[k].id == Some(id));
        let j = choose|j: int| 0 <= j < after.len() && (#[trigger] after[j]).id == Some(id);
        let i = choose|i: int| 0 <= i < rows.len() && (#[trigger] rows[i]).id == Some(id);
        assert(j < rows.len());
        assert(j == i) by {
            if j < i {
                assert(rows[j].id->0 < rows[i].id->0);
            } else if i < j {
                assert(rows[i].id->0 < rows[j].id->0);
            }
        }
    } else {
        assert forall|j: int| 0 <= j < after.len() implies (#[trigger] after[j]).id != Some(id) by {
            if j < rows.len() {
                assert(after[j] == rows[j]);
            }
        }
    }
}

/// After the record with id `id` is removed, looking `id` up finds nothing.
pub proof fn lemma_get_after_delete(rows: Seq<PasswordView>, id: i64)
    ensures
        lookup(without_id(rows, id), id) is None,
{
    let pred = |r: PasswordView| r.id != Some(id);
    let after = without_id(rows, id);
    assert forall|j: int| 0 <= j < after.len() implies (#[trigger] after[j]).id != Some(id) by {
        rows.lemma_filter_pred(pred, j);
    }
}

/// After a record is replaced, looking its id up gives the new record.
pub proof fn lemma_get_after_update(rows: Seq<PasswordView>, next_id: i64, p: PasswordView)
    requires
        rows_wf(rows, next_id),
        p.id is Some,
        has_id(rows, p.id->0),
    ensures
        lookup(replaced(rows, p), p.id->0) == Some(p),
{
    let after = replaced(rows, p);
    let id = p.id->0;
    let k = choose|k: int| 0 <= k < rows.len() && (#[trigger] rows[k]).id == Some(id);
    assert(after[k].id == Some(id));
    let j = choose|j: int| 0 <= j < after.len() && (#[trigger] after[j]).id == Some(id);
    if rows[j].id != p.id {
        assert(after[j] == rows[j]);
    }
}

} // verus!
