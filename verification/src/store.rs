use vstd::prelude::*;

use vstd::arithmetic::div_mod::lemma_fundamental_div_mod;
use vstd::arithmetic::div_mod::lemma_mod_division_less_than_divisor;
use vstd::math::min;

verus! {

/// The value of a record's unique field, as a mathematical value.
pub open spec fn key_view(k: Option<String>) -> Option<Seq<char>> {
    match k {
        None => None,
        Some(s) => Some(s@),
    }
}

/// A record a table can store: it carries its identifier, and possibly one
/// field that must be unique across all live rows.
pub trait Entity: Sized {
    /// The identifier of this record.
    spec fn spec_id(&self) -> u32;

    /// The value of this record's unique field, if the entity has one.
    spec fn spec_key(&self) -> Option<Seq<char>>;

    fn id(&self) -> (i: u32)
        ensures
            i == self.spec_id(),
    ;

    fn key(&self) -> (k: Option<String>)
        ensures
            key_view(k) == self.spec_key(),
    ;

    /// An owned copy of this record, equal to it.
    fn dup(&self) -> (r: Self)
        ensures
            r == *self,
    ;
}

/// The store's classification of a failed insert: the unique constraint
/// was violated, and by this key value. Every other failure of the
/// in-memory store is impossible, so this is the whole classification.
#[derive(Debug, Clone, PartialEq, Eq)]
pub struct UniqueViolation {
    pub key: String,
}

/// A bulk load that was handed rows the store cannot hold: identifiers
/// not strictly increasing from one, or duplicate unique keys.
#[derive(Debug, Clone, PartialEq, Eq)]
pub struct SeedError;

/// The mathematical state of a table: its live rows in storage order and
/// the identifier the next created row will get.
#[verifier::ext_equal]
pub struct TableModel<R> {
    pub rows: Seq<R>,
    pub next_id: int,
}

impl<R: Entity> TableModel<R> {
    /// Well-formedness: identifiers are positive, strictly increasing in
    /// storage order, all below the next free identifier, and no two live
    /// rows share a unique key.
    pub open spec fn wf(self) -> bool {
        &&& 1 <= self.next_id <= u32::MAX as int
        &&& forall|i: int|
            0 <= i < self.rows.len() ==> 1 <= (#[trigger] self.rows[i]).spec_id() < self.next_id
        &&& forall|i: int, j: int|
            0 <= i < j < self.rows.len() ==> (#[trigger] self.rows[i].spec_id()) < (
            #[trigger] self.rows[j].spec_id())
        &&& forall|i: int, j: int|
            0 <= i < j < self.rows.len() ==> !((#[trigger] self.rows[i].spec_key()) is Some && (
            #[trigger] self.rows[j].spec_key()) == self.rows[i].spec_key())
    }

    /// Whether a live row carries this identifier.
    pub open spec fn has_id(self, id: u32) -> bool {
        exists|i: int| 0 <= i < self.rows.len() && (#[trigger] self.rows[i]).spec_id() == id
    }

    /// The index of the live row with this identifier.
    pub open spec fn idx_of(self, id: u32) -> int {
        choose|i: int| 0 <= i < self.rows.len() && (#[trigger] self.rows[i]).spec_id() == id
    }

    /// The live row with this identifier, if any.
    pub open spec fn spec_get(self, id: u32) -> Option<R> {
        if self.has_id(id) {
            Some(self.rows[self.idx_of(id)])
        } else {
            None
        }
    }

    /// Whether some live row already carries this unique key.
    pub open spec fn key_taken(self, k: Option<Seq<char>>) -> bool {
        match k {
            None => false,
            Some(ks) => exists|i: int|
                0 <= i < self.rows.len() && (#[trigger] self.rows[i]).spec_key() == Some(ks),
        }
    }

    /// The state after a successful insert: the row appended, the next
    /// identifier advanced.
    pub open spec fn insert(self, data: R) -> TableModel<R> {
        TableModel { rows: self.rows.push(data), next_id: self.next_id + 1 }
    }

    /// The state after deleting the row with this identifier; the next
    /// identifier does not move, so identifiers are never reused.
    pub open spec fn delete(self, id: u32) -> TableModel<R> {
        TableModel { rows: self.rows.remove(self.idx_of(id)), next_id: self.next_id }
    }

    /// The rows of one page: storage order, `page * cnt` rows skipped, at
    /// most `cnt` rows taken.
    pub open spec fn spec_browse(self, page: u32, cnt: u32) -> Seq<R> {
        let len = self.rows.len() as int;
        let start = min(page as int * cnt as int, len);
        let end = min(page as int * cnt as int + cnt as int, len);
        self.rows.subrange(start, end)
    }

    /// In a well-formed table the identifier of each row exceeds its index.
    pub proof fn lemma_id_at_least(self, i: int)
        requires
            self.wf(),
            0 <= i < self.rows.len(),
        ensures
            self.rows[i].spec_id() >= i + 1,
        decreases i,
    {
        if i > 0 {
            self.lemma_id_at_least(i - 1);
        }
    }

    /// A well-formed table holds fewer rows than its next identifier.
    pub proof fn lemma_len_bound(self)
        requires
            self.wf(),
        ensures
            self.rows.len() < self.next_id,
    {
        if self.rows.len() > 0 {
            self.lemma_id_at_least(self.rows.len() - 1);
        }
    }

    /// Identifiers are unique among live rows.
    pub proof fn lemma_id_unique(self, i: int, j: int)
        requires
            self.wf(),
            0 <= i < self.rows.len(),
            0 <= j < self.rows.len(),
            self.rows[i].spec_id() == self.rows[j].spec_id(),
        ensures
            i == j,
    {
        if i < j {
            assert(self.rows[i].spec_id() < self.rows[j].spec_id());
        } else if j < i {
            assert(self.rows[j].spec_id() < self.rows[i].spec_id());
        }
    }

    /// A successful insert preserves well-formedness, appends exactly the
    /// new row and advances the next identifier.
    pub proof fn lemma_insert(self, data: R)
        requires
            self.wf(),
            self.next_id < u32::MAX as int,
            data.spec_id() == self.next_id,
            !self.key_taken(data.spec_key()),
        ensures
            self.insert(data).wf(),
            self.insert(data).rows.len() == self.rows.len() + 1,
            self.insert(data).next_id == self.next_id + 1,
    {
        let t = self.insert(data);
        assert forall|i: int, j: int| 0 <= i < j < t.rows.len() implies (
        #[trigger] t.rows[i].spec_id()) < (#[trigger] t.rows[j].spec_id()) by {
            if j < t.rows.len() - 1 {
                assert(t.rows[i] == self.rows[i]);
                assert(t.rows[j] == self.rows[j]);
            } else {
                assert(t.rows[j] == data);
                assert(t.rows[i] == self.rows[i]);
            }
        }
        assert forall|i: int, j: int| 0 <= i < j < t.rows.len() implies !((
        #[trigger] t.rows[i].spec_key()) is Some && (#[trigger] t.rows[j].spec_key())
            == t.rows[i].spec_key()) by {
            if j < t.rows.len() - 1 {
                assert(t.rows[i] == self.rows[i]);
                assert(t.rows[j] == self.rows[j]);
            } else {
                assert(t.rows[j] == data);
                assert(t.rows[i] == self.rows[i]);
                if t.rows[i].spec_key() is Some && data.spec_key() == t.rows[i].spec_key() {
                    assert(self.key_taken(data.spec_key()));
                }
            }
        }
    }

    /// A delete preserves well-formedness and removes exactly the row with
    /// the given identifier.
    pub proof fn lemma_delete(self, id: u32)
        requires
            self.wf(),
            self.has_id(id),
        ensures
            self.delete(id).wf(),
            self.delete(id).rows.len() == self.rows.len() - 1,
            self.delete(id).next_id == self.next_id,
    {
        let ix = self.idx_of(id);
        let t = self.delete(id);
        self.rows.remove_ensures(ix);
        assert forall|i: int| 0 <= i < t.rows.len() implies 1 <= (#[trigger] t.rows[i]).spec_id()
            < t.next_id by {
            if i < ix {
                assert(t.rows[i] == self.rows[i]);
            } else {
                assert(t.rows[i] == self.rows[i + 1]);
            }
        }
        assert forall|i: int, j: int| 0 <= i < j < t.rows.len() implies (
        #[trigger] t.rows[i].spec_id()) < (#[trigger] t.rows[j].spec_id()) by {
            let io: int = if i < ix { i } else { i + 1 };
            let jo: int = if j < ix { j } else { j + 1 };
            assert(t.rows[i] == self.rows[io]);
            assert(t.rows[j] == self.rows[jo]);
            assert(self.rows[io].spec_id() < self.rows[jo].spec_id());
        }
        assert forall|i: int, j: int| 0 <= i < j < t.rows.len() implies !((
        #[trigger] t.rows[i].spec_key()) is Some && (#[trigger] t.rows[j].spec_key())
            == t.rows[i].spec_key()) by {
            let io: int = if i < ix { i } else { i + 1 };
            let jo: int = if j < ix { j } else { j + 1 };
            assert(t.rows[i] == self.rows[io]);
            assert(t.rows[j] == self.rows[jo]);
        }
    }

    /// Once a row is deleted, no live row carries its identifier: a get
    /// with that identifier finds nothing.
    pub proof fn lemma_delete_then_get(self, id: u32)
        requires
            self.wf(),
            self.has_id(id),
        ensures
            self.delete(id).spec_get(id) is None,
    {
        let ix = self.idx_of(id);
        let t = self.delete(id);
        self.rows.remove_ensures(ix);
        if t.has_id(id) {
            let i = choose|i: int|
                0 <= i < t.rows.len() && (#[trigger] t.rows[i]).spec_id() == id;
            let io: int = if i < ix { i } else { i + 1 };
            assert(t.rows[i] == self.rows[io]);
            self.lemma_id_unique(io, ix);
            assert(false);
        }
    }

    /// A created row gets an identifier distinct from every live row's,
    /// and a get with that identifier returns exactly the created row.
    pub proof fn lemma_create_then_get(self, data: R)
        requires
            self.wf(),
            self.next_id < u32::MAX as int,
            data.spec_id() == self.next_id,
            !self.key_taken(data.spec_key()),
        ensures
            forall|i: int|
                0 <= i < self.rows.len() ==> (#[trigger] self.rows[i]).spec_id() != data.spec_id(),
            !self.has_id((data.spec_id() as u32)),
            self.insert(data).spec_get((data.spec_id() as u32)) == Some(data),
    {
        self.lemma_insert(data);
        let t = self.insert(data);
        let id = data.spec_id() as u32;
        assert(t.rows[t.rows.len() - 1] == data);
        assert(t.has_id(id));
        let ix = t.idx_of(id);
        t.lemma_id_unique(ix, t.rows.len() - 1);
    }

    /// Whether a bulk load's rows can stand as a table: identifiers
    /// positive and strictly increasing in the given order, no two rows
    /// sharing a unique key, and room left to assign the next identifier.
    pub open spec fn seed_ok(s: Seq<R>) -> bool {
        &&& forall|i: int| 0 <= i < s.len() ==> 1 <= (#[trigger] s[i]).spec_id()
        &&& forall|i: int, j: int|
            0 <= i < j < s.len() ==> (#[trigger] s[i].spec_id()) < (#[trigger] s[j].spec_id())
        &&& forall|i: int, j: int|
            0 <= i < j < s.len() ==> !((#[trigger] s[i].spec_key()) is Some && (
            #[trigger] s[j].spec_key()) == s[i].spec_key())
        &&& (s.len() > 0 ==> s[s.len() - 1].spec_id() < u32::MAX as int)
    }

    /// The state after bulk-loading rows into an empty table: the next
    /// identifier moves past every loaded one and never backwards.
    pub open spec fn seeded(self, s: Seq<R>) -> TableModel<R> {
        TableModel {
            rows: s,
            next_id: max(
                self.next_id,
                if s.len() == 0 {
                    1
                } else {
                    s[s.len() - 1].spec_id() + 1
                },
            ),
        }
    }

    /// A valid bulk load into a well-formed table yields a well-formed
    /// table.
    pub proof fn lemma_seeded(self, s: Seq<R>)
        requires
            self.wf(),
            Self::seed_ok(s),
        ensures
            self.seeded(s).wf(),
    {
        let t = self.seeded(s);
        assert forall|i: int| 0 <= i < s.len() implies 1 <= (#[trigger] s[i]).spec_id()
            < t.next_id by {
            if i < s.len() - 1 {
                assert(s[i].spec_id() < s[s.len() - 1].spec_id());
            }
        }
    }

    /// What one table operation demands to succeed: a create needs a free
    /// identifier and an untaken key, a delete needs a live target.
    pub open spec fn op_allowed(self, op: TableOp<R>) -> bool {
        match op {
            TableOp::Create(data) => self.next_id < u32::MAX as int && data.spec_id()
                == self.next_id && !self.key_taken(data.spec_key()),
            TableOp::Delete(id) => self.has_id(id),
        }
    }

    pub open spec fn apply_op(self, op: TableOp<R>) -> TableModel<R> {
        match op {
            TableOp::Create(data) => self.insert(data),
            TableOp::Delete(id) => self.delete(id),
        }
    }

    pub open spec fn apply_ops(self, ops: Seq<TableOp<R>>) -> TableModel<R>
        decreases ops.len(),
    {
        if ops.len() <= 0 {
            self
        } else {
            self.apply_op(ops[0]).apply_ops(ops.drop_first())
        }
    }

    /// Whether every operation of the sequence succeeds when run in order.
    pub open spec fn ops_allowed(self, ops: Seq<TableOp<R>>) -> bool
        decreases ops.len(),
    {
        if ops.len() <= 0 {
            true
        } else {
            self.op_allowed(ops[0]) && self.apply_op(ops[0]).ops_allowed(ops.drop_first())
        }
    }

    /// After any sequence of N successful creates and M successful deletes,
    /// in any order, the row count equals the count before plus N minus M.
    pub proof fn lemma_count_after_ops(self, ops: Seq<TableOp<R>>)
        requires
            self.wf(),
            self.ops_allowed(ops),
        ensures
            self.apply_ops(ops).wf(),
            self.apply_ops(ops).rows.len() == self.rows.len() + count_creates(ops) - count_deletes(
                ops,
            ),
        decreases ops.len(),
    {
        if ops.len() > 0 {
            let t = self.apply_op(ops[0]);
            match ops[0] {
                TableOp::Create(d) => {
                    self.lemma_insert(d);
                },
                TableOp::Delete(id) => {
                    self.lemma_delete(id);
                },
            }
            t.lemma_count_after_ops(ops.drop_first());
        }
    }

    /// Each page holds at most `cnt` rows.
    pub proof fn lemma_browse_page_len(self, page: u32, cnt: u32)
        ensures
            self.spec_browse(page, cnt).len() <= cnt,
            self.spec_browse(page, cnt).len() == min(
                cnt as int,
                max(self.rows.len() - page as int * cnt as int, 0),
            ),
    {
    }

    /// Pages of size `cnt` tile the table without gaps or overlaps: the
    /// row at index `i` appears on page `i / cnt` at offset `i % cnt`,
    /// and nowhere else.
    pub proof fn lemma_browse_partition(self, cnt: u32, i: int)
        requires
            self.wf(),
            1 <= cnt,
            0 <= i < self.rows.len(),
        ensures
            i / (cnt as int) < u32::MAX as int,
            self.spec_browse(((i / (cnt as int)) as u32), cnt)[i % (cnt as int)] == self.rows[i],
    {
        let c = cnt as int;
        let p = i / c;
        lemma_fundamental_div_mod(i, c);
        lemma_mod_division_less_than_divisor(i, c);
        self.lemma_len_bound();
        assert(c * p <= i) by {
            assert(i == c * p + i % c);
        }
        assert(p <= i) by (nonlinear_arith)
            requires
                c >= 1,
                i >= 0,
                p == i / c,
        ;
        assert(p * c == c * p) by (nonlinear_arith);
        let len = self.rows.len() as int;
        let start = min(p * c, len);
        let end = min(p * c + c, len);
        assert(start == p * c);
        assert(i < end);
        assert(self.spec_browse((p as u32), cnt) == self.rows.subrange(start, end));
        assert(self.rows.subrange(start, end)[i % c] == self.rows[start + i % c]);
    }
}

/// The spec-level max, mirrored here so callers need not import it.
pub open spec fn max(x: int, y: int) -> int {
    vstd::math::max(x, y)
}

/// One mutation of a table, for reasoning about whole request histories.
pub enum TableOp<R> {
    Create(R),
    Delete(u32),
}

/// The number of creates in a history.
pub open spec fn count_creates<R>(ops: Seq<TableOp<R>>) -> int
    decreases ops.len(),
{
    if ops.len() <= 0 {
        0
    } else {
        (if ops[0] is Create {
            1int
        } else {
            0int
        }) + count_creates(ops.drop_first())
    }
}

/// The number of deletes in a history.
pub open spec fn count_deletes<R>(ops: Seq<TableOp<R>>) -> int
    decreases ops.len(),
{
    if ops.len() <= 0 {
        0
    } else {
        (if ops[0] is Delete {
            1int
        } else {
            0int
        }) + count_deletes(ops.drop_first())
    }
}

/// One table per entity: live rows in storage order, plus the identifier
/// the store will assign to the next created row.
pub struct Table<R> {
    rows: Vec<R>,
    next_id: u32,
}

impl<R: Entity> View for Table<R> {
    type V = TableModel<R>;

    closed spec fn view(&self) -> TableModel<R> {
        TableModel { rows: self.rows@, next_id: self.next_id as int }
    }
}

impl<R: Entity> Table<R> {
    /// A fresh, empty table; the first created row will get identifier 1.
    pub fn new() -> (t: Self)
        ensures
            t@.wf(),
            t@.rows == Seq::<R>::empty(),
            t@.next_id == 1,
    {
        Table { rows: Vec::new(), next_id: 1 }
    }

    /// The identifier the next created row will get.
    pub fn next_id(&self) -> (r: u32)
        ensures
            r as int == self@.next_id,
    {
        self.next_id
    }

    /// The number of live rows.
    pub fn count(&self) -> (n: u32)
        requires
            self@.wf(),
        ensures
            n as int == self@.rows.len(),
    {
        proof {
            self@.lemma_len_bound();
        }
        self.rows.len() as u32
    }

    /// Fetches the single row with this identifier, if it is live.
    pub fn get(&self, id: u32) -> (r: Option<R>)
        requires
            self@.wf(),
        ensures
            r == self@.spec_get(id),
    {
        let n = self.rows.len();
        let mut i: usize = 0;
        while i < n
            invariant
                n == self@.rows.len(),
                0 <= i <= n,
                self@.wf(),
                forall|j: int| 0 <= j < i ==> (#[trigger] self@.rows[j]).spec_id() != id,
            decreases n - i,
        {
            if self.rows[i].id() == id {
                let r = self.rows[i].dup();
                proof {
                    assert(self@.has_id(id));
                    self@.lemma_id_unique(self@.idx_of(id), i as int);
                }
                return Some(r);
            }
            i = i + 1;
        }
        proof {
            if self@.has_id(id) {
                let j = choose|j: int|
                    0 <= j < self@.rows.len() && (#[trigger] self@.rows[j]).spec_id() == id;
                assert(false);
            }
        }
        None
    }

    /// Returns one page of rows in storage order: `page * cnt` rows
    /// skipped, then at most `cnt` rows.
    pub fn browse(&self, page: u32, cnt: u32) -> (r: Vec<R>)
        requires
            self@.wf(),
        ensures
            r@ == self@.spec_browse(page, cnt),
    {
        proof {
            self@.lemma_len_bound();
        }
        let len = self.rows.len();
        assert((page as u64) as int * (cnt as u64) as int <= 0xFFFF_FFFFu64 as int
            * 0xFFFF_FFFFu64 as int) by (nonlinear_arith)
            requires
                (page as u64) as int <= 0xFFFF_FFFFu64 as int,
                (cnt as u64) as int <= 0xFFFF_FFFFu64 as int,
        ;
        let start64: u64 = (page as u64) * (cnt as u64);
        let ghost pc = page as int * cnt as int;
        let ghost glen = self@.rows.len() as int;
        if start64 >= len as u64 {
            proof {
                assert(self@.spec_browse(page, cnt) =~= Seq::<R>::empty());
            }
            return Vec::new();
        }
        let start = start64 as usize;
        let rest = len - start;
        let cap = cnt as usize;
        let take = if cap < rest {
            cap
        } else {
            rest
        };
        proof {
            assert(start as int == min(pc, glen));
            assert(start + take == min(pc + cnt as int, glen));
        }
        let mut out: Vec<R> = Vec::new();
        let mut j: usize = 0;
        while j < take
            invariant
                0 <= j <= take,
                start + take <= len,
                len == self@.rows.len(),
                out@ == self@.rows.subrange(start as int, start + j),
            decreases take - j,
        {
            out.push(self.rows[start + j].dup());
            proof {
                assert(self@.rows.subrange(start as int, start + j + 1) =~= self@.rows.subrange(
                    start as int,
                    start + j,
                ).push(self@.rows[start + j]));
            }
            j = j + 1;
        }
        proof {
            assert(out@ == self@.spec_browse(page, cnt));
        }
        out
    }

    /// Inserts a row carrying the next free identifier. If the row's
    /// unique key is already taken by a live row the store refuses the
    /// insert, classifies it as a unique-constraint violation carrying
    /// that key, and is left unchanged.
    pub fn insert(&mut self, data: R) -> (r: Result<u32, UniqueViolation>)
        requires
            old(self)@.wf(),
            old(self)@.next_id < u32::MAX as int,
            data.spec_id() == old(self)@.next_id,
        ensures
            final(self)@.wf(),
            match r {
                Ok(id) => {
                    &&& id as int == old(self)@.next_id
                    &&& !old(self)@.key_taken(data.spec_key())
                    &&& final(self)@ == old(self)@.insert(data)
                },
                Err(e) => {
                    &&& final(self)@ == old(self)@
                    &&& data.spec_key() is Some
                    &&& Some(e.key@) == data.spec_key()
                    &&& old(self)@.key_taken(data.spec_key())
                },
            },
    {
        let k = data.key();
        match k {
            Some(ks) => {
                let n = self.rows.len();
                let mut i: usize = 0;
                while i < n
                    invariant
                        n == self@.rows.len(),
                        0 <= i <= n,
                        self@ == old(self)@,
                        self@.wf(),
                        Some(ks@) == data.spec_key(),
                        forall|j: int|
                            0 <= j < i ==> (#[trigger] self@.rows[j]).spec_key() != Some(ks@),
                    decreases n - i,
                {
                    let other = self.rows[i].key();
                    match other {
                        Some(k2) => {
                            if ks == k2 {
                                proof {
                                    assert(self@.rows[i as int].spec_key() == Some(ks@));
                                }
                                return Err(UniqueViolation { key: ks });
                            }
                        },
                        None => {},
                    }
                    i = i + 1;
                }
                proof {
                    if self@.key_taken(data.spec_key()) {
                        let j = choose|j: int|
                            0 <= j < self@.rows.len() && (#[trigger] self@.rows[j]).spec_key()
                                == Some(ks@);
                        assert(false);
                    }
                }
            },
            None => {},
        }
        proof {
            old(self)@.lemma_insert(data);
        }
        let id = self.next_id;
        self.rows.push(data);
        self.next_id = self.next_id + 1;
        proof {
            assert(self@ =~= old(self)@.insert(data));
        }
        Ok(id)
    }

    /// Deletes the row with this identifier; reports whether a row was
    /// affected. The next identifier does not move, so a deleted
    /// identifier is never handed out again.
    pub fn delete(&mut self, id: u32) -> (r: bool)
        requires
            old(self)@.wf(),
        ensures
            final(self)@.wf(),
            r == old(self)@.has_id(id),
            r ==> final(self)@ == old(self)@.delete(id),
            !r ==> final(self)@ == old(self)@,
    {
        let n = self.rows.len();
        let mut i: usize = 0;
        while i < n
            invariant
                n == self@.rows.len(),
                0 <= i <= n,
                self@.wf(),
                self@ == old(self)@,
                forall|j: int| 0 <= j < i ==> (#[trigger] self@.rows[j]).spec_id() != id,
            decreases n - i,
        {
            if self.rows[i].id() == id {
                proof {
                    assert(self@.has_id(id));
                    self@.lemma_id_unique(self@.idx_of(id), i as int);
                    old(self)@.lemma_delete(id);
                }
                self.rows.remove(i);
                proof {
                    assert(self@ =~= old(self)@.delete(id));
                }
                return true;
            }
            i = i + 1;
        }
        proof {
            if self@.has_id(id) {
                let j = choose|j: int|
                    0 <= j < self@.rows.len() && (#[trigger] self@.rows[j]).spec_id() == id;
                assert(false);
            }
        }
        false
    }

    /// Bulk-loads rows with explicit identifiers, as the one-time load of
    /// seed data at first boot. A table that already holds rows is left
    /// unchanged; rows the store cannot hold are refused whole.
    pub fn seed(&mut self, entries: Vec<R>) -> (r: Result<(), SeedError>)
        requires
            old(self)@.wf(),
        ensures
            final(self)@.wf(),
            old(self)@.rows.len() > 0 ==> r is Ok && final(self)@ == old(self)@,
            old(self)@.rows.len() == 0 && TableModel::<R>::seed_ok(entries@) ==> r is Ok
                && final(self)@ == old(self)@.seeded(entries@),
            old(self)@.rows.len() == 0 && !TableModel::<R>::seed_ok(entries@) ==> r is Err
                && final(self)@ == old(self)@,
    {
        if self.rows.len() > 0 {
            return Ok(());
        }
        let n = entries.len();
        let mut i: usize = 0;
        while i < n
            invariant
                n == entries@.len(),
                0 <= i <= n,
                self@ == old(self)@,
                self@.wf(),
                old(self)@.rows.len() == 0,
                forall|a: int| 0 <= a < i ==> 1 <= (#[trigger] entries@[a]).spec_id(),
                forall|a: int|
                    1 <= a < i ==> (#[trigger] entries@[a - 1].spec_id()) < entries@[a].spec_id(),
                forall|a: int, b: int|
                    0 <= a < b < i ==> !((#[trigger] entries@[a].spec_key()) is Some && (
                    #[trigger] entries@[b].spec_key()) == entries@[a].spec_key()),
            decreases n - i,
        {
            if entries[i].id() < 1 {
                return Err(SeedError);
            }
            if i > 0 && entries[i - 1].id() >= entries[i].id() {
                return Err(SeedError);
            }
            let ki = entries[i].key();
            match ki {
                Some(ks) => {
                    let mut j: usize = 0;
                    while j < i
                        invariant
                            n == entries@.len(),
                            0 <= j <= i < n,
                            self@ == old(self)@,
                            self@.wf(),
                            old(self)@.rows.len() == 0,
                            Some(ks@) == entries@[i as int].spec_key(),
                            forall|a: int|
                                0 <= a < j ==> (#[trigger] entries@[a].spec_key()) != Some(ks@),
                        decreases i - j,
                    {
                        let kj = entries[j].key();
                        match kj {
                            Some(k2) => {
                                if ks == k2 {
                                    proof {
                                        assert(entries@[j as int].spec_key() == Some(ks@));
                                    }
                                    return Err(SeedError);
                                }
                            },
                            None => {},
                        }
                        j = j + 1;
                    }
                },
                None => {},
            }
            i = i + 1;
        }
        if n > 0 {
            let last = entries[n - 1].id();
            if last == u32::MAX {
                return Err(SeedError);
            }
        }
        proof {
            assert forall|a: int, b: int| 0 <= a < b < entries@.len() implies (
            #[trigger] entries@[a].spec_id()) < (#[trigger] entries@[b].spec_id()) by {
                lemma_adjacent_increasing(entries@, a, b);
            }
            assert(TableModel::<R>::seed_ok(entries@));
        }
        let nid: u32 = if n == 0 {
            self.next_id
        } else {
            let last = entries[n - 1].id();
            if last + 1 > self.next_id {
                last + 1
            } else {
                self.next_id
            }
        };
        proof {
            old(self)@.lemma_seeded(entries@);
        }
        self.rows = entries;
        self.next_id = nid;
        proof {
            assert(self@ =~= old(self)@.seeded(self@.rows));
        }
        Ok(())
    }
}

/// In a sequence whose identifiers rise from each row to the next, they
/// rise between any two rows.
proof fn lemma_adjacent_increasing<R: Entity>(s: Seq<R>, i: int, j: int)
    requires
        forall|a: int| 1 <= a < s.len() ==> (#[trigger] s[a - 1].spec_id()) < s[a].spec_id(),
        0 <= i < j < s.len(),
    ensures
        s[i].spec_id() < s[j].spec_id(),
    decreases j - i,
{
    if j > i + 1 {
        lemma_adjacent_increasing(s, i, j - 1);
        assert(s[j - 1].spec_id() < s[j].spec_id());
    } else {
        assert(s[(i + 1) - 1].spec_id() < s[i + 1].spec_id());
    }
}

} // verus!
