//! The record store: the durable table of users, modelled as a sequence
//! of rows with unique, store-assigned identifiers. The relational
//! backend performs the same five operations; this model states exactly
//! what each of them returns and changes, and the laws that follow.
use vstd::prelude::*;

verus! {

/// One persisted user row. A row read back from the store always
/// carries its assigned id.
#[derive(Debug)]
pub struct UserRow {
    pub id: i32,
    pub name: String,
    pub email: String,
}

/// Mathematical image of one row.
#[verifier::ext_equal]
pub struct RowModel {
    pub id: int,
    pub name: Seq<char>,
    pub email: Seq<char>,
}

impl View for UserRow {
    type V = RowModel;

    open spec fn view(&self) -> RowModel {
        RowModel { id: self.id as int, name: self.name@, email: self.email@ }
    }
}

impl Clone for UserRow {
    fn clone(&self) -> (r: Self)
        ensures
            r@ == self@,
    {
        UserRow { id: self.id, name: self.name.clone(), email: self.email.clone() }
    }
}

/// Mathematical image of the whole store: the rows in their natural
/// (insertion) order, and the next identity the store will assign.
#[verifier::ext_equal]
pub struct StoreModel {
    pub rows: Seq<RowModel>,
    pub next: int,
}

/// Index of the first row at or after `i` whose id is `id`;
/// `rows.len()` when there is none.
pub open spec fn find_row_from(rows: Seq<RowModel>, id: int, i: int) -> int
    decreases (if i < rows.len() { rows.len() - i } else { 0 })
{
    if i < 0 || i >= rows.len() {
        rows.len() as int
    } else if rows[i].id == id {
        i
    } else {
        find_row_from(rows, id, i + 1)
    }
}

pub proof fn lemma_find_row_from(rows: Seq<RowModel>, id: int, i: int)
    requires
        0 <= i <= rows.len(),
    ensures
        i <= find_row_from(rows, id, i) <= rows.len(),
        forall|j: int| i <= j < find_row_from(rows, id, i) ==> rows[j].id != id,
        find_row_from(rows, id, i) < rows.len() ==> rows[find_row_from(rows, id, i)].id == id,
    decreases rows.len() - i,
{
    if i < rows.len() && rows[i].id != id {
        lemma_find_row_from(rows, id, i + 1);
    }
}

/// Converse direction: a first hit at `k` pins the search result.
pub proof fn lemma_find_row_hit(rows: Seq<RowModel>, id: int, k: int)
    requires
        0 <= k < rows.len(),
        rows[k].id == id,
        forall|j: int| 0 <= j < k ==> rows[j].id != id,
    ensures
        find_row_from(rows, id, 0) == k,
{
    lemma_find_row_from(rows, id, 0);
    let r = find_row_from(rows, id, 0);
    if r < k {
        assert(rows[r].id != id);
    }
}

pub proof fn lemma_find_row_miss(rows: Seq<RowModel>, id: int)
    requires
        forall|j: int| 0 <= j < rows.len() ==> rows[j].id != id,
    ensures
        find_row_from(rows, id, 0) == rows.len(),
{
    lemma_find_row_from(rows, id, 0);
}

/// The row the store returns for `id`, if any.
pub open spec fn spec_get(s: StoreModel, id: int) -> Option<RowModel> {
    let i = find_row_from(s.rows, id, 0);
    if i < s.rows.len() {
        Some(s.rows[i])
    } else {
        None
    }
}

/// Creation appends a row under the next identity and advances it.
pub open spec fn spec_create(s: StoreModel, name: Seq<char>, email: Seq<char>) -> (StoreModel, int) {
    (
        StoreModel {
            rows: s.rows.push(RowModel { id: s.next, name: name, email: email }),
            next: s.next + 1,
        },
        s.next,
    )
}

/// Update replaces name and email wholesale on the matching row;
/// the second component reports whether a row matched.
pub open spec fn spec_update(s: StoreModel, id: int, name: Seq<char>, email: Seq<char>) -> (
    StoreModel,
    bool,
) {
    let i = find_row_from(s.rows, id, 0);
    if i < s.rows.len() {
        (
            StoreModel {
                rows: s.rows.update(i, RowModel { id: id, name: name, email: email }),
                next: s.next,
            },
            true,
        )
    } else {
        (s, false)
    }
}

/// Delete removes the matching row and retires its identity for good:
/// `next` never moves backwards, so the id is not reassigned.
pub open spec fn spec_delete(s: StoreModel, id: int) -> (StoreModel, bool) {
    let i = find_row_from(s.rows, id, 0);
    if i < s.rows.len() {
        (StoreModel { rows: s.rows.remove(i), next: s.next }, true)
    } else {
        (s, false)
    }
}

/// Store well-formedness: identities start at 1, stay below the next
/// one to be assigned, and never repeat.
pub open spec fn store_wf(s: StoreModel) -> bool {
    &&& 1 <= s.next
    &&& forall|i: int| 0 <= i < s.rows.len() ==> 1 <= #[trigger] s.rows[i].id < s.next
    &&& forall|i: int, j: int|
        0 <= i < j < s.rows.len() ==> #[trigger] s.rows[i].id != #[trigger] s.rows[j].id
}

/// The store a fresh table starts from.
pub open spec fn empty_store() -> StoreModel {
    StoreModel { rows: Seq::empty(), next: 1 }
}

/// The id column of the store, in row order.
pub open spec fn ids_of(s: StoreModel) -> Seq<int> {
    s.rows.map_values(|r: RowModel| r.id)
}

/// In-memory store with exactly the five operations the relational
/// backend offers, each with its full contract.
pub struct UserStore {
    rows: Vec<UserRow>,
    next_id: i32,
}

impl View for UserStore {
    type V = StoreModel;

    closed spec fn view(&self) -> StoreModel {
        StoreModel {
            rows: self.rows@.map_values(|r: UserRow| r@),
            next: self.next_id as int,
        }
    }
}

impl UserStore {
    pub open spec fn wf(&self) -> bool {
        store_wf(self@)
    }

    /// A store with no rows, assigning ids from 1.
    pub fn new() -> (s: Self)
        ensures
            s@ == empty_store(),
            s.wf(),
    {
        let s = UserStore { rows: Vec::new(), next_id: 1 };
        proof {
            assert(s@.rows =~= empty_store().rows);
            assert(s@ =~= empty_store());
        }
        s
    }

    /// Index of the row holding `id`, or the row count when none does.
    fn find_idx(&self, id: i32) -> (r: usize)
        ensures
            r as int == find_row_from(self@.rows, id as int, 0),
    {
        let n = self.rows.len();
        let mut i: usize = 0;
        while i < n
            invariant
                i <= n,
                n == self.rows.len(),
                n == self@.rows.len(),
                self@.rows == self.rows@.map_values(|r: UserRow| r@),
                find_row_from(self@.rows, id as int, 0) == find_row_from(
                    self@.rows,
                    id as int,
                    i as int,
                ),
            decreases n - i,
        {
            if self.rows[i].id == id {
                return i;
            }
            i += 1;
        }
        n
    }

    /// Create: the store assigns the next identity to the new row.
    pub fn create(&mut self, name: String, email: String) -> (id: i32)
        requires
            old(self).wf(),
            old(self)@.next < 0x7fff_ffff,
        ensures
            final(self)@ == spec_create(old(self)@, name@, email@).0,
            id as int == spec_create(old(self)@, name@, email@).1,
            final(self).wf(),
    {
        let id = self.next_id;
        let ghost pre = self@;
        self.rows.push(UserRow { id, name, email });
        self.next_id = id + 1;
        proof {
            assert(self@.rows =~= pre.rows.push(
                RowModel { id: id as int, name: name@, email: email@ },
            ));
            assert(self@ =~= spec_create(pre, name@, email@).0);
            assert(store_wf(self@)) by {
                assert(forall|k: int|
                    0 <= k < pre.rows.len() ==> self@.rows[k] == pre.rows[k]);
                assert(self@.rows[pre.rows.len() as int].id == pre.next);
            }
        }
        id
    }

    /// Read one row by id; `None` exactly when no row carries it.
    pub fn get_by_id(&self, id: i32) -> (r: Option<UserRow>)
        ensures
            match r {
                Some(u) => spec_get(self@, id as int) == Some(u@),
                None => spec_get(self@, id as int) is None,
            },
    {
        let i = self.find_idx(id);
        if i < self.rows.len() {
            Some(self.rows[i].clone())
        } else {
            None
        }
    }

    /// All rows, in the store's natural order.
    pub fn list_all(&self) -> (r: Vec<UserRow>)
        ensures
            r@.map_values(|u: UserRow| u@) == self@.rows,
    {
        let n = self.rows.len();
        let mut out: Vec<UserRow> = Vec::new();
        let mut i: usize = 0;
        while i < n
            invariant
                i <= n,
                n == self.rows.len(),
                n == self@.rows.len(),
                self@.rows == self.rows@.map_values(|r: UserRow| r@),
                out@.map_values(|u: UserRow| u@) == self@.rows.subrange(0, i as int),
            decreases n - i,
        {
            let c = self.rows[i].clone();
            let ghost prevm = out@.map_values(|u: UserRow| u@);
            out.push(c);
            proof {
                assert(out@.map_values(|u: UserRow| u@) =~= prevm.push(self@.rows[i as int]));
                assert(self@.rows.subrange(0, i as int + 1) =~= prevm.push(
                    self@.rows[i as int],
                ));
            }
            i += 1;
        }
        assert(out@.map_values(|u: UserRow| u@) =~= self@.rows);
        out
    }

    /// Replace name and email of the row holding `id`; reports whether
    /// any row matched.
    pub fn update_by_id(&mut self, id: i32, name: String, email: String) -> (r: bool)
        requires
            old(self).wf(),
        ensures
            final(self)@ == spec_update(old(self)@, id as int, name@, email@).0,
            r == spec_update(old(self)@, id as int, name@, email@).1,
            final(self).wf(),
    {
        let ghost pre = self@;
        let i = self.find_idx(id);
        proof {
            lemma_find_row_from(pre.rows, id as int, 0);
        }
        if i < self.rows.len() {
            self.rows.set(i, UserRow { id, name, email });
            proof {
                assert(self@.rows =~= pre.rows.update(
                    i as int,
                    RowModel { id: id as int, name: name@, email: email@ },
                ));
                assert(store_wf(self@)) by {
                    assert(forall|k: int|
                        0 <= k < self@.rows.len() && k != i ==> self@.rows[k] == pre.rows[k]);
                    assert(self@.rows[i as int].id == pre.rows[i as int].id);
                }
            }
            true
        } else {
            proof {
                assert(self@ =~= pre);
            }
            false
        }
    }

    /// Remove the row holding `id`; reports whether any row matched.
    /// The identity is retired: `next` is unchanged, so it will not be
    /// assigned again.
    pub fn delete_by_id(&mut self, id: i32) -> (r: bool)
        requires
            old(self).wf(),
        ensures
            final(self)@ == spec_delete(old(self)@, id as int).0,
            r == spec_delete(old(self)@, id as int).1,
            final(self).wf(),
    {
        let ghost pre = self@;
        let i = self.find_idx(id);
        proof {
            lemma_find_row_from(pre.rows, id as int, 0);
        }
        if i < self.rows.len() {
            self.rows.remove(i);
            proof {
                assert(self@.rows =~= pre.rows.remove(i as int));
                assert(store_wf(self@)) by {
                    assert(forall|k: int|
                        0 <= k < self@.rows.len() ==> self@.rows[k] == (if k < i {
                            pre.rows[k]
                        } else {
                            pre.rows[k + 1]
                        }));
                }
            }
            true
        } else {
            proof {
                assert(self@ =~= pre);
            }
            false
        }
    }
}

/// Law: creating a user and reading the returned id back yields the
/// submitted name and email under the assigned id; before the creation
/// that id matched nothing.
pub proof fn lemma_create_then_get(s: StoreModel, name: Seq<char>, email: Seq<char>)
    requires
        store_wf(s),
    ensures
        spec_get(spec_create(s, name, email).0, spec_create(s, name, email).1) == Some(
            RowModel { id: s.next, name: name, email: email },
        ),
        spec_get(s, spec_create(s, name, email).1) is None,
{
    let s1 = spec_create(s, name, email).0;
    let id = s.next;
    assert(forall|j: int| 0 <= j < s.rows.len() ==> s1.rows[j] == s.rows[j]);
    assert(s1.rows[s.rows.len() as int].id == id);
    lemma_find_row_hit(s1.rows, id, s.rows.len() as int);
    lemma_find_row_miss(s.rows, id);
}

/// Law: creation touches no existing row: any other id reads back
/// unchanged afterwards.
pub proof fn lemma_create_frame(s: StoreModel, name: Seq<char>, email: Seq<char>, x: int)
    requires
        store_wf(s),
        x != spec_create(s, name, email).1,
    ensures
        spec_get(spec_create(s, name, email).0, x) == spec_get(s, x),
{
    let s1 = spec_create(s, name, email).0;
    assert(forall|j: int| 0 <= j < s.rows.len() ==> s1.rows[j] == s.rows[j]);
    let r = find_row_from(s.rows, x, 0);
    lemma_find_row_from(s.rows, x, 0);
    if r < s.rows.len() {
        lemma_find_row_hit(s1.rows, x, r);
    } else {
        lemma_find_row_miss(s1.rows, x);
    }
}

/// Law: the identity column never repeats, so a listing has exactly one
/// entry per stored user: as many distinct ids as rows.
pub proof fn lemma_ids_distinct(s: StoreModel)
    requires
        store_wf(s),
    ensures
        ids_of(s).no_duplicates(),
        ids_of(s).to_set().len() == s.rows.len(),
{
    assert forall|i: int, j: int|
        (0 <= i < ids_of(s).len() && 0 <= j < ids_of(s).len() && i != j) implies ids_of(s)[i]
        != ids_of(s)[j] by {
        if i < j {
            assert(s.rows[i].id != s.rows[j].id);
        } else {
            assert(s.rows[j].id != s.rows[i].id);
        }
    }
    ids_of(s).unique_seq_to_set();
}

/// Law: creation grows the id set by exactly one fresh id.
pub proof fn lemma_create_ids(s: StoreModel, name: Seq<char>, email: Seq<char>)
    requires
        store_wf(s),
    ensures
        spec_create(s, name, email).0.rows.len() == s.rows.len() + 1,
        !ids_of(s).to_set().contains(spec_create(s, name, email).1),
        ids_of(spec_create(s, name, email).0).to_set() == ids_of(s).to_set().insert(
            spec_create(s, name, email).1,
        ),
{
    let s1 = spec_create(s, name, email).0;
    let id = s.next;
    if ids_of(s).contains(id) {
        let i = choose|i: int| 0 <= i < ids_of(s).len() && ids_of(s)[i] == id;
        assert(s.rows[i].id < s.next);
        assert(false);
    }
    assert(ids_of(s1) =~= ids_of(s) + seq![id]);
    Seq::lemma_to_set_insert_commutes(ids_of(s), id);
    assert(ids_of(s1).to_set() =~= ids_of(s).to_set().insert(id));
}

/// Law: update rewrites exactly the targeted row, reports whether one
/// matched, and leaves the row count and every other id's row alone.
pub proof fn lemma_update_frame(s: StoreModel, id: int, name: Seq<char>, email: Seq<char>, x: int)
    requires
        store_wf(s),
        x != id,
    ensures
        spec_update(s, id, name, email).1 == (spec_get(s, id) is Some),
        spec_update(s, id, name, email).0.rows.len() == s.rows.len(),
        spec_update(s, id, name, email).0.next == s.next,
        spec_get(spec_update(s, id, name, email).0, x) == spec_get(s, x),
        spec_get(s, id) is Some ==> spec_get(spec_update(s, id, name, email).0, id) == Some(
            RowModel { id: id, name: name, email: email },
        ),
        spec_get(s, id) is None ==> spec_update(s, id, name, email).0 == s,
{
    let i = find_row_from(s.rows, id, 0);
    lemma_find_row_from(s.rows, id, 0);
    if i < s.rows.len() {
        let s1 = spec_update(s, id, name, email).0;
        assert(forall|k: int| 0 <= k < s1.rows.len() && k != i ==> s1.rows[k] == s.rows[k]);
        assert(s1.rows[i].id == id);
        lemma_find_row_hit(s1.rows, id, i);
        let r = find_row_from(s.rows, x, 0);
        lemma_find_row_from(s.rows, x, 0);
        if r < s.rows.len() {
            assert(r != i);
            lemma_find_row_hit(s1.rows, x, r);
        } else {
            lemma_find_row_miss(s1.rows, x);
        }
    }
}

/// Law: delete removes exactly the targeted row when one matches,
/// reports not-found otherwise, and afterwards the id reads back as
/// absent. It never creates or grows anything, and `next` stands still,
/// so the retired id is never reassigned.
pub proof fn lemma_delete_effect(s: StoreModel, id: int)
    requires
        store_wf(s),
    ensures
        spec_delete(s, id).1 == (spec_get(s, id) is Some),
        spec_delete(s, id).0.next == s.next,
        spec_get(spec_delete(s, id).0, id) is None,
        spec_get(s, id) is Some ==> spec_delete(s, id).0.rows.len() == s.rows.len() - 1,
        spec_get(s, id) is None ==> spec_delete(s, id).0 == s,
{
    let i = find_row_from(s.rows, id, 0);
    lemma_find_row_from(s.rows, id, 0);
    if i < s.rows.len() {
        let s1 = spec_delete(s, id).0;
        s.rows.remove_ensures(i);
        assert forall|j: int| 0 <= j < s1.rows.len() implies s1.rows[j].id != id by {
            if j < i {
                assert(s1.rows[j] == s.rows[j]);
            } else {
                assert(s1.rows[j] == s.rows[j + 1]);
            }
        }
        lemma_find_row_miss(s1.rows, id);
    }
}

/// Law: delete leaves every other id's row exactly as it was.
pub proof fn lemma_delete_frame(s: StoreModel, id: int, x: int)
    requires
        store_wf(s),
        x != id,
    ensures
        spec_get(spec_delete(s, id).0, x) == spec_get(s, x),
{
    let i = find_row_from(s.rows, id, 0);
    lemma_find_row_from(s.rows, id, 0);
    if i < s.rows.len() {
        let s1 = spec_delete(s, id).0;
        s.rows.remove_ensures(i);
        let r = find_row_from(s.rows, x, 0);
        lemma_find_row_from(s.rows, x, 0);
        if r < s.rows.len() {
            assert(r != i);
            if r < i {
                assert(s1.rows[r] == s.rows[r]);
                lemma_find_row_hit(s1.rows, x, r);
            } else {
                assert(s1.rows[r - 1] == s.rows[r]);
                assert forall|j: int| 0 <= j < r - 1 implies s1.rows[j].id != x by {
                    if j < i {
                        assert(s1.rows[j] == s.rows[j]);
                    } else {
                        assert(s1.rows[j] == s.rows[j + 1]);
                    }
                }
                lemma_find_row_hit(s1.rows, x, r - 1);
            }
        } else {
            assert forall|j: int| 0 <= j < s1.rows.len() implies s1.rows[j].id != x by {
                if j < i {
                    assert(s1.rows[j] == s.rows[j]);
                } else {
                    assert(s1.rows[j] == s.rows[j + 1]);
                }
            }
            lemma_find_row_miss(s1.rows, x);
        }
    }
}

/// Law: deleting an id with no matching row reports not-found and
/// leaves the store exactly as it was.
pub proof fn lemma_delete_missing(s: StoreModel, id: int)
    requires
        spec_get(s, id) is None,
    ensures
        spec_delete(s, id).0 == s,
        spec_delete(s, id).1 == false,
{
}

/// Law: delete is idempotent in outcome: running it again on an
/// already-deleted id reports not-found and changes nothing.
pub proof fn lemma_delete_idempotent(s: StoreModel, id: int)
    requires
        store_wf(s),
    ensures
        spec_delete(spec_delete(s, id).0, id).1 == false,
        spec_delete(spec_delete(s, id).0, id).0 == spec_delete(s, id).0,
{
    lemma_delete_effect(s, id);
    lemma_delete_missing(spec_delete(s, id).0, id);
}

/// Law: a successful delete shrinks the id set by exactly the target.
pub proof fn lemma_delete_ids(s: StoreModel, id: int)
    requires
        store_wf(s),
        spec_get(s, id) is Some,
    ensures
        ids_of(spec_delete(s, id).0).to_set() == ids_of(s).to_set().remove(id),
{
    let i = find_row_from(s.rows, id, 0);
    lemma_find_row_from(s.rows, id, 0);
    let s1 = spec_delete(s, id).0;
    s.rows.remove_ensures(i);
    lemma_delete_effect(s, id);
    assert(ids_of(s1).to_set() =~= ids_of(s).to_set().remove(id)) by {
        assert forall|x: int| ids_of(s1).contains(x) implies ids_of(s).contains(x) && x != id by {
            let j = choose|j: int| 0 <= j < ids_of(s1).len() && ids_of(s1)[j] == x;
            assert(s1.rows[j].id == x);
            assert(s1.rows[j].id != id);
            if j < i {
                assert(ids_of(s)[j] == x);
            } else {
                assert(s1.rows[j] == s.rows[j + 1]);
                assert(ids_of(s)[j + 1] == x);
            }
        }
        assert forall|x: int| ids_of(s).contains(x) && x != id implies ids_of(s1).contains(x) by {
            let j = choose|j: int| 0 <= j < ids_of(s).len() && ids_of(s)[j] == x;
            assert(s.rows[j].id == x);
            assert(j != i);
            if j < i {
                assert(s1.rows[j] == s.rows[j]);
                assert(ids_of(s1)[j] == x);
            } else {
                assert(s1.rows[j - 1] == s.rows[j]);
                assert(ids_of(s1)[j - 1] == x);
            }
        }
    }
}

} // verus!
