use vstd::prelude::*;

verus! {

/// Outcome of the latest upload attempt for one (fingerprint, destination) key.
#[derive(Clone, Copy, Debug, PartialEq, Eq, Structural)]
pub enum Status {
    Pending,
    Done,
    Failed,
}

impl Status {
    /// The text stored for this status.
    pub fn as_str(&self) -> (r: &'static str)
        ensures
            r@ == status_text(*self),
    {
        proof {
            reveal_strlit("pending");
            reveal_strlit("done");
            reveal_strlit("failed");
        }
        match self {
            Status::Pending => "pending",
            Status::Done => "done",
            Status::Failed => "failed",
        }
    }
}

/// The stored text of each status.
pub open spec fn status_text(s: Status) -> Seq<char> {
    match s {
        Status::Pending => seq!['p', 'e', 'n', 'd', 'i', 'n', 'g'],
        Status::Done => seq!['d', 'o', 'n', 'e'],
        Status::Failed => seq!['f', 'a', 'i', 'l', 'e', 'd'],
    }
}

/// Key of a record: content fingerprint (hex text) and destination URL.
pub type KeyView = (Seq<char>, Seq<char>);

/// Mathematical contents of one record, apart from its key.
pub ghost struct RecordView {
    pub size: u64,
    pub rel_path: Seq<char>,
    pub is_private: bool,
    pub status: Status,
    pub created_at: i64,
}

/// One durable upload record.
#[derive(Clone, Debug)]
pub struct UploadRecord {
    pub fingerprint: String,
    pub destination: String,
    pub size: u64,
    pub rel_path: String,
    pub is_private: bool,
    pub status: Status,
    pub created_at: i64,
}

impl UploadRecord {
    pub open spec fn key(&self) -> KeyView {
        (self.fingerprint@, self.destination@)
    }

    pub open spec fn view(&self) -> RecordView {
        RecordView {
            size: self.size,
            rel_path: self.rel_path@,
            is_private: self.is_private,
            status: self.status,
            created_at: self.created_at,
        }
    }
}

/// The upload ledger: at most one record per (fingerprint, destination) key.
pub struct Ledger {
    records: Vec<UploadRecord>,
}

/// Index of the record with key `k`, if any.
pub open spec fn has_key_at(recs: Seq<UploadRecord>, k: KeyView, i: int) -> bool {
    0 <= i < recs.len() && recs[i].key() == k
}

pub open spec fn keys_unique(recs: Seq<UploadRecord>) -> bool {
    forall|i: int, j: int|
        0 <= i < recs.len() && 0 <= j < recs.len() && i != j ==> #[trigger] recs[i].key()
            != #[trigger] recs[j].key()
}

/// The map from key to record that a sequence of records with unique keys stands for.
pub open spec fn records_map(recs: Seq<UploadRecord>) -> Map<KeyView, RecordView> {
    Map::new(
        |k: KeyView| exists|i: int| has_key_at(recs, k, i),
        |k: KeyView| recs[choose|i: int| has_key_at(recs, k, i)].view(),
    )
}

/// True iff the record for `(fp, dest)` exists and is marked done.
pub open spec fn done_in(m: Map<KeyView, RecordView>, fp: Seq<char>, dest: Seq<char>) -> bool {
    m.contains_key((fp, dest)) && m[(fp, dest)].status == Status::Done
}

/// True iff every destination in `dests` is done for `fp`.
pub open spec fn done_for_all_in(
    m: Map<KeyView, RecordView>,
    fp: Seq<char>,
    dests: Seq<String>,
) -> bool {
    forall|j: int| 0 <= j < dests.len() ==> done_in(m, fp, #[trigger] dests[j]@)
}

/// The record an upsert of the given fields leaves under its key.
pub open spec fn upserted(
    m: Map<KeyView, RecordView>,
    k: KeyView,
    size: u64,
    rel_path: Seq<char>,
    is_private: bool,
    status: Status,
    now: i64,
) -> RecordView {
    RecordView {
        size,
        rel_path,
        is_private,
        status,
        created_at: if m.contains_key(k) {
            m[k].created_at
        } else {
            now
        },
    }
}

/// The ledger after the coordinator records an attempt: a key already done
/// stays as it is; any other key is upserted.
pub open spec fn attempted(
    m: Map<KeyView, RecordView>,
    k: KeyView,
    size: u64,
    rel_path: Seq<char>,
    is_private: bool,
    status: Status,
    now: i64,
) -> Map<KeyView, RecordView> {
    if done_in(m, k.0, k.1) {
        m
    } else {
        m.insert(k, upserted(m, k, size, rel_path, is_private, status, now))
    }
}

impl Ledger {
    pub closed spec fn records(&self) -> Seq<UploadRecord> {
        self.records@
    }

    pub open spec fn wf(&self) -> bool {
        keys_unique(self.records())
    }

    pub open spec fn view(&self) -> Map<KeyView, RecordView> {
        records_map(self.records())
    }

    /// An empty ledger.
    pub fn new() -> (r: Ledger)
        ensures
            r.wf(),
            r@ == Map::<KeyView, RecordView>::empty(),
    {
        let r = Ledger { records: Vec::new() };
        assert(r@ =~= Map::<KeyView, RecordView>::empty());
        r
    }

    /// Number of records held.
    pub fn len(&self) -> (r: usize)
        requires
            self.wf(),
        ensures
            r == self@.len(),
    {
        proof {
            lemma_map_len(self.records());
        }
        self.records.len()
    }

    /// Position of the record with the given key, if there is one.
    fn find(&self, fp: &String, dest: &String) -> (r: Option<usize>)
        requires
            self.wf(),
        ensures
            r is None ==> forall|i: int| !has_key_at(self.records(), (fp@, dest@), i),
            r matches Some(i) ==> has_key_at(self.records(), (fp@, dest@), i as int),
    {
        let mut i: usize = 0;
        while i < self.records.len()
            invariant
                i <= self.records@.len(),
                forall|j: int| 0 <= j < i ==> !has_key_at(self.records(), (fp@, dest@), j),
            decreases self.records@.len() - i,
        {
            let rec = &self.records[i];
            if rec.fingerprint == *fp && rec.destination == *dest {
                return Some(i);
            }
            i = i + 1;
        }
        None
    }

    /// A copy of the record stored under `(fp, dest)`.
    pub fn get(&self, fp: &String, dest: &String) -> (r: Option<UploadRecord>)
        requires
            self.wf(),
        ensures
            r is None <==> !self@.contains_key((fp@, dest@)),
            r matches Some(rec) ==> rec.key() == (fp@, dest@) && rec@ == self@[(fp@, dest@)],
    {
        proof {
            lemma_lookup(self.records(), (fp@, dest@));
        }
        match self.find(fp, dest) {
            None => None,
            Some(i) => {
                let rec = &self.records[i];
                Some(
                    UploadRecord {
                        fingerprint: rec.fingerprint.clone(),
                        destination: rec.destination.clone(),
                        size: rec.size,
                        rel_path: rec.rel_path.clone(),
                        is_private: rec.is_private,
                        status: rec.status,
                        created_at: rec.created_at,
                    },
                )
            },
        }
    }

    /// Whether `(fp, dest)` has a record marked done.
    pub fn is_done(&self, fp: &String, dest: &String) -> (r: bool)
        requires
            self.wf(),
        ensures
            r == done_in(self@, fp@, dest@),
    {
        proof {
            lemma_lookup(self.records(), (fp@, dest@));
        }
        match self.find(fp, dest) {
            None => false,
            Some(i) => match self.records[i].status {
                Status::Done => true,
                _ => false,
            },
        }
    }

    /// Whether every destination of `dests` has a done record for `fp`.
    pub fn is_done_for_all(&self, fp: &String, dests: &Vec<String>) -> (r: bool)
        requires
            self.wf(),
        ensures
            r == done_for_all_in(self@, fp@, dests@),
    {
        let mut j: usize = 0;
        while j < dests.len()
            invariant
                self.wf(),
                j <= dests@.len(),
                forall|t: int| 0 <= t < j ==> done_in(self@, fp@, #[trigger] dests@[t]@),
            decreases dests@.len() - j,
        {
            if !self.is_done(fp, &dests[j]) {
                return false;
            }
            j = j + 1;
        }
        true
    }

    /// Inserts a record for `(fp, dest)` or overwrites the mutable fields of the
    /// existing one, keeping its creation time.
    pub fn upsert(
        &mut self,
        fp: &String,
        size: u64,
        rel_path: &String,
        is_private: bool,
        dest: &String,
        status: Status,
        now: i64,
    )
        requires
            old(self).wf(),
        ensures
            final(self).wf(),
            final(self)@ == old(self)@.insert(
                (fp@, dest@),
                upserted(old(self)@, (fp@, dest@), size, rel_path@, is_private, status, now),
            ),
    {
        let ghost k = (fp@, dest@);
        let ghost old_recs = self.records();
        proof {
            lemma_lookup(old_recs, k);
        }
        match self.find(fp, dest) {
            Some(i) => {
                let created_at = self.records[i].created_at;
                let rec = UploadRecord {
                    fingerprint: fp.clone(),
                    destination: dest.clone(),
                    size,
                    rel_path: rel_path.clone(),
                    is_private,
                    status,
                    created_at,
                };
                self.records.set(i, rec);
                proof {
                    lemma_set_record(old_recs, i as int, rec);
                }
            },
            None => {
                let rec = UploadRecord {
                    fingerprint: fp.clone(),
                    destination: dest.clone(),
                    size,
                    rel_path: rel_path.clone(),
                    is_private,
                    status,
                    created_at: now,
                };
                self.records.push(rec);
                proof {
                    lemma_push_record(old_recs, rec);
                }
            },
        }
    }
}

impl Ledger {
    /// Records the outcome of an attempt for `(fp, dest)`. A key that is already
    /// done is never overwritten, so a late failure cannot undo a success.
    pub fn record_attempt(
        &mut self,
        fp: &String,
        size: u64,
        rel_path: &String,
        is_private: bool,
        dest: &String,
        status: Status,
        now: i64,
    )
        requires
            old(self).wf(),
        ensures
            final(self).wf(),
            final(self)@ == attempted(
                old(self)@,
                (fp@, dest@),
                size,
                rel_path@,
                is_private,
                status,
                now,
            ),
    {
        if !self.is_done(fp, dest) {
            self.upsert(fp, size, rel_path, is_private, dest, status, now);
        }
    }
}

/// Once `done` is recorded for a key, `is_done` reports it.
pub proof fn lemma_recorded_done_is_done(
    m: Map<KeyView, RecordView>,
    fp: Seq<char>,
    dest: Seq<char>,
    size: u64,
    rel_path: Seq<char>,
    is_private: bool,
    now: i64,
)
    ensures
        done_in(
            m.insert((fp, dest), upserted(m, (fp, dest), size, rel_path, is_private, Status::Done, now)),
            fp,
            dest,
        ),
        done_in(attempted(m, (fp, dest), size, rel_path, is_private, Status::Done, now), fp, dest),
{
}

/// A done key stays done, with its record unchanged, whatever attempt is
/// recorded next, for that key or any other.
pub proof fn lemma_done_is_permanent(
    m: Map<KeyView, RecordView>,
    fp: Seq<char>,
    dest: Seq<char>,
    k: KeyView,
    size: u64,
    rel_path: Seq<char>,
    is_private: bool,
    status: Status,
    now: i64,
)
    requires
        done_in(m, fp, dest),
    ensures
        done_in(attempted(m, k, size, rel_path, is_private, status, now), fp, dest),
        attempted(m, k, size, rel_path, is_private, status, now)[(fp, dest)] == m[(fp, dest)],
{
}

/// Done for all destinations holds exactly when each destination is done, and
/// a destination added to the set must itself be done for it to hold again.
pub proof fn lemma_done_for_all_per_destination(
    m: Map<KeyView, RecordView>,
    fp: Seq<char>,
    dests: Seq<String>,
    added: String,
)
    ensures
        done_for_all_in(m, fp, dests) <==> (forall|j: int|
            0 <= j < dests.len() ==> done_in(m, fp, #[trigger] dests[j]@)),
        done_for_all_in(m, fp, dests.push(added)) <==> (done_for_all_in(m, fp, dests) && done_in(
            m,
            fp,
            added@,
        )),
{
    let ext = dests.push(added);
    if done_for_all_in(m, fp, ext) {
        assert(done_in(m, fp, ext[dests.len() as int]@));
        assert forall|j: int| 0 <= j < dests.len() implies done_in(m, fp, #[trigger] dests[j]@) by {
            assert(ext[j] == dests[j]);
        }
    }
    if done_for_all_in(m, fp, dests) && done_in(m, fp, added@) {
        assert forall|j: int| 0 <= j < ext.len() implies done_in(m, fp, #[trigger] ext[j]@) by {
            if j < dests.len() {
                assert(ext[j] == dests[j]);
            }
        }
    }
}

/// With unique keys, the map holds `k` exactly when some record has it, and
/// then maps it to that record.
pub proof fn lemma_lookup(recs: Seq<UploadRecord>, k: KeyView)
    requires
        keys_unique(recs),
    ensures
        records_map(recs).contains_key(k) <==> exists|i: int| has_key_at(recs, k, i),
        forall|i: int|
            has_key_at(recs, k, i) ==> #[trigger] records_map(recs)[k] == recs[i].view(),
{
    if exists|i: int| has_key_at(recs, k, i) {
        let c = choose|i: int| has_key_at(recs, k, i);
        assert forall|i: int| has_key_at(recs, k, i) implies #[trigger] records_map(recs)[k]
            == recs[i].view() by {
            assert(i == c);
        }
    }
}

proof fn lemma_set_record(recs: Seq<UploadRecord>, i: int, rec: UploadRecord)
    requires
        keys_unique(recs),
        0 <= i < recs.len(),
        recs[i].key() == rec.key(),
    ensures
        keys_unique(recs.update(i, rec)),
        records_map(recs.update(i, rec)) == records_map(recs).insert(rec.key(), rec.view()),
{
    let s = recs.update(i, rec);
    assert(keys_unique(s)) by {
        assert forall|a: int, b: int|
            0 <= a < s.len() && 0 <= b < s.len() && a != b implies #[trigger] s[a].key()
            != #[trigger] s[b].key() by {
            assert(recs[a].key() == s[a].key() || a == i);
            assert(recs[b].key() == s[b].key() || b == i);
        }
    }
    let m1 = records_map(s);
    let m2 = records_map(recs).insert(rec.key(), rec.view());
    assert forall|k: KeyView| #[trigger] m1.contains_key(k) == m2.contains_key(k) by {
        lemma_lookup(recs, k);
        lemma_lookup(s, k);
        if m2.contains_key(k) && k != rec.key() {
            let j = choose|j: int| has_key_at(recs, k, j);
            assert(has_key_at(s, k, j));
        }
        if m1.contains_key(k) {
            let j = choose|j: int| has_key_at(s, k, j);
            if j != i {
                assert(has_key_at(recs, k, j));
            }
        }
        if k == rec.key() {
            assert(has_key_at(s, k, i));
        }
    }
    assert forall|k: KeyView| m1.contains_key(k) implies #[trigger] m1[k] == m2[k] by {
        lemma_lookup(recs, k);
        lemma_lookup(s, k);
        let j = choose|j: int| has_key_at(s, k, j);
        if j != i {
            assert(has_key_at(recs, k, j));
        }
    }
    assert(m1 =~= m2);
}

proof fn lemma_push_record(recs: Seq<UploadRecord>, rec: UploadRecord)
    requires
        keys_unique(recs),
        forall|i: int| !has_key_at(recs, rec.key(), i),
    ensures
        keys_unique(recs.push(rec)),
        records_map(recs.push(rec)) == records_map(recs).insert(rec.key(), rec.view()),
{
    let s = recs.push(rec);
    let n = recs.len() as int;
    assert(keys_unique(s)) by {
        assert forall|a: int, b: int|
            0 <= a < s.len() && 0 <= b < s.len() && a != b implies #[trigger] s[a].key()
            != #[trigger] s[b].key() by {
            if a < n && b < n {
                assert(s[a] == recs[a] && s[b] == recs[b]);
            } else if a < n {
                assert(!has_key_at(recs, rec.key(), a));
            } else {
                assert(!has_key_at(recs, rec.key(), b));
            }
        }
    }
    let m1 = records_map(s);
    let m2 = records_map(recs).insert(rec.key(), rec.view());
    assert forall|k: KeyView| #[trigger] m1.contains_key(k) == m2.contains_key(k) by {
        lemma_lookup(recs, k);
        lemma_lookup(s, k);
        if m2.contains_key(k) && k != rec.key() {
            let j = choose|j: int| has_key_at(recs, k, j);
            assert(has_key_at(s, k, j));
        }
        if m1.contains_key(k) {
            let j = choose|j: int| has_key_at(s, k, j);
            if j != n {
                assert(has_key_at(recs, k, j));
            }
        }
        if k == rec.key() {
            assert(has_key_at(s, k, n));
        }
    }
    assert forall|k: KeyView| m1.contains_key(k) implies #[trigger] m1[k] == m2[k] by {
        lemma_lookup(recs, k);
        lemma_lookup(s, k);
        let j = choose|j: int| has_key_at(s, k, j);
        if j != n {
            assert(has_key_at(recs, k, j));
        }
    }
    assert(m1 =~= m2);
}

/// The map of a sequence of records with unique keys has one entry per record.
proof fn lemma_map_len(recs: Seq<UploadRecord>)
    requires
        keys_unique(recs),
    ensures
        records_map(recs).dom().finite(),
        records_map(recs).len() == recs.len(),
    decreases recs.len(),
{
    if recs.len() == 0 {
        assert(records_map(recs) =~= Map::<KeyView, RecordView>::empty());
    } else {
        let init = recs.drop_last();
        let last = recs.last();
        assert(keys_unique(init)) by {
            assert forall|a: int, b: int|
                0 <= a < init.len() && 0 <= b < init.len() && a != b implies #[trigger] init[a].key()
                != #[trigger] init[b].key() by {
                assert(init[a] == recs[a] && init[b] == recs[b]);
            }
        }
        assert forall|i: int| !has_key_at(init, last.key(), i) by {
            if 0 <= i < init.len() {
                assert(init[i] == recs[i]);
                assert(recs[i].key() != recs[recs.len() - 1].key());
            }
        }
        lemma_map_len(init);
        lemma_push_record(init, last);
        assert(init.push(last) =~= recs);
        lemma_lookup(init, last.key());
    }
}

} // verus!
