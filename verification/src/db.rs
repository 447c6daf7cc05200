//! The point ledger: one balance per user, and a small store of named text
//! values that outlive a restart.

use vstd::prelude::*;
use vstd::string::StringExecFns;
use crate::error::DungeonBotError;
use crate::table::{
    distinct, find, lemma_count, lemma_push, lemma_row, lemma_update, place, table, Row,
};

verus! {

/// One account of the ledger.
#[derive(Clone, Copy, Debug, PartialEq, Eq, Structural)]
pub struct DbUser {
    /// The user's platform id.
    pub id: u64,
    /// The balance. A negative balance is a debt and is valid.
    pub points: i32,
}

/// What is needed to open an account: the user's platform id.
#[derive(Clone, Copy, Debug, PartialEq, Eq, Structural)]
pub struct NewDbUser {
    pub id: u64,
}

impl NewDbUser {
    /// The account as it is opened: without points.
    pub fn open(&self) -> (user: DbUser)
        ensures
            user == (DbUser { id: self.id, points: 0 }),
    {
        DbUser { id: self.id, points: 0 }
    }
}

/// A named text value that outlives a restart.
#[derive(Clone, Debug, PartialEq, Eq)]
pub struct StateVar {
    pub key: String,
    pub value: String,
}

/// The accounts and the named values, as the bot sees them.
///
/// No two accounts share an id, and no two values a name.
pub struct Ledger {
    users: Vec<DbUser>,
    state: Vec<StateVar>,
}

/// True when `n` is a balance the ledger can hold.
pub open spec fn fits_points(n: int) -> bool {
    i32::MIN <= n <= i32::MAX
}

/// What a transfer of `pts` points from `from_id` to `to_id` does to the balances
/// `m`: the balances afterwards, or the reason why nothing was changed.
pub open spec fn transfer(m: Map<u64, i32>, to_id: u64, from_id: u64, pts: i32) -> Result<
    Map<u64, i32>,
    DungeonBotError,
> {
    if !m.contains_key(to_id) {
        Err(DungeonBotError::DbUserNotFoundError(to_id))
    } else if !m.contains_key(from_id) {
        Err(DungeonBotError::DbUserNotFoundError(from_id))
    } else if to_id == from_id {
        Ok(m)
    } else if !fits_points(m[to_id] + pts) || !fits_points(m[from_id] - pts) {
        Err(DungeonBotError::InvalidAmount)
    } else {
        Ok(m.insert(to_id, (m[to_id] + pts) as i32).insert(from_id, (m[from_id] - pts) as i32))
    }
}

/// The balances with an account for `id`: an empty one if `id` had none.
pub open spec fn with_account(m: Map<u64, i32>, id: u64) -> Map<u64, i32> {
    if m.contains_key(id) {
        m
    } else {
        m.insert(id, 0)
    }
}

/// What crediting `amount` points to `user_id` does to the balances `m`: the
/// balances afterwards, or the refusal of an amount that is no balance or
/// takes the balance out of its range. A user without an account gets nothing.
pub open spec fn awarded(m: Map<u64, i32>, user_id: u64, amount: int) -> Result<
    Map<u64, i32>,
    DungeonBotError,
> {
    if !fits_points(amount) {
        Err(DungeonBotError::InvalidAmount)
    } else if !m.contains_key(user_id) {
        Ok(m)
    } else if !fits_points(m[user_id] + amount) {
        Err(DungeonBotError::InvalidAmount)
    } else {
        Ok(m.insert(user_id, (m[user_id] + amount) as i32))
    }
}

/// The balance of `user_id` once `amount` points were credited to it, if the
/// user has an account.
pub open spec fn balance_after(m: Map<u64, i32>, user_id: u64, amount: int) -> Option<i32> {
    if m.contains_key(user_id) {
        Some((m[user_id] + amount) as i32)
    } else {
        None
    }
}

/// True when `s` lists every account of `m` once, with its balance, the
/// highest balance first. Accounts with equal balances may stand in any order.
pub open spec fn is_ranking(s: Seq<DbUser>, m: Map<u64, i32>) -> bool {
    &&& forall|i: int|
        0 <= i < s.len() ==> m.contains_key(#[trigger] s[i].id) && m[s[i].id] == s[i].points
    &&& forall|i: int, j: int| 0 <= i < j < s.len() ==> s[i].id != s[j].id
    &&& forall|id: u64|
        m.contains_key(id) ==> exists|i: int| 0 <= i < s.len() && #[trigger] s[i].id == id
    &&& forall|i: int, j: int| 0 <= i <= j < s.len() ==> s[i].points >= s[j].points
}

/// True when the account `row` is not held by `m` as it stands: `m` has no
/// such account, or has it with another balance.
pub open spec fn is_news(m: Map<u64, i32>, row: DbUser) -> bool {
    !(m.contains_key(row.id) && m[row.id] == row.points)
}

/// True when `rows` lists, each once, the accounts of `after` that `before`
/// does not hold as they stand.
pub open spec fn is_change_list(rows: Seq<DbUser>, before: Map<u64, i32>, after: Map<u64, i32>) -> bool {
    &&& forall|i: int|
        0 <= i < rows.len() ==> after.contains_key(#[trigger] rows[i].id) && after[rows[i].id]
            == rows[i].points && is_news(before, rows[i])
    &&& forall|i: int, j: int| 0 <= i < j < rows.len() ==> rows[i].id != rows[j].id
    &&& forall|id: u64|
        after.contains_key(id) && is_news(before, DbUser { id, points: after[id] })
            ==> exists|i: int| 0 <= i < rows.len() && #[trigger] rows[i].id == id
}

/// Where a page that skips `off` entries begins in a list of `len` entries.
/// A negative `off` skips nothing.
pub open spec fn page_start(len: int, off: int) -> int {
    if off <= 0 {
        0
    } else if off >= len {
        len
    } else {
        off
    }
}

/// Where a page of at most `lim` entries that skips `off` entries ends in a
/// list of `len` entries. A negative `lim` is no limit.
pub open spec fn page_end(len: int, lim: int, off: int) -> int {
    if lim < 0 || page_start(len, off) + lim >= len {
        len
    } else {
        page_start(len, off) + lim
    }
}

impl Row for DbUser {
    type Name = u64;

    type Key = u64;

    type Value = i32;

    open spec fn key(&self) -> u64 {
        self.id
    }

    open spec fn value(&self) -> i32 {
        self.points
    }

    open spec fn key_of(name: &u64) -> u64 {
        *name
    }

    fn is_named(&self, name: &u64) -> (yes: bool) {
        self.id == *name
    }
}

impl Row for StateVar {
    type Name = String;

    type Key = Seq<char>;

    type Value = Seq<char>;

    open spec fn key(&self) -> Seq<char> {
        self.key@
    }

    open spec fn value(&self) -> Seq<char> {
        self.value@
    }

    open spec fn key_of(name: &String) -> Seq<char> {
        name@
    }

    fn is_named(&self, name: &String) -> (yes: bool) {
        self.key == *name
    }
}

spec fn among(rows: Seq<DbUser>, n: int, row: DbUser) -> bool {
    exists|k: int| 0 <= k < n && rows[k] == row
}

spec fn drawn_from(sorted: Seq<DbUser>, rows: Seq<DbUser>, n: int) -> bool {
    forall|j: int| 0 <= j < sorted.len() ==> among(rows, n, #[trigger] sorted[j])
}

spec fn covers(sorted: Seq<DbUser>, rows: Seq<DbUser>, n: int) -> bool {
    forall|k: int| 0 <= k < n ==> among(sorted, sorted.len() as int, #[trigger] rows[k])
}

spec fn descending(sorted: Seq<DbUser>) -> bool {
    forall|a: int, b: int| 0 <= a <= b < sorted.len() ==> sorted[a].points >= sorted[b].points
}

proof fn lemma_ranking(rows: Seq<DbUser>, sorted: Seq<DbUser>)
    requires
        distinct(rows),
        distinct(sorted),
        drawn_from(sorted, rows, rows.len() as int),
        covers(sorted, rows, rows.len() as int),
        descending(sorted),
    ensures
        is_ranking(sorted, table(rows)),
{
    let m = table(rows);
    assert forall|i: int| 0 <= i < sorted.len() implies m.contains_key(#[trigger] sorted[i].id)
        && m[sorted[i].id] == sorted[i].points by {
        assert(among(rows, rows.len() as int, sorted[i]));
        let k = choose|k: int| 0 <= k < rows.len() && rows[k] == sorted[i];
        lemma_row(rows, k);
    }
    assert forall|i: int, j: int| 0 <= i < j < sorted.len() implies sorted[i].id
        != sorted[j].id by {
        assert(sorted[i].key() != sorted[j].key());
    }
    assert forall|id: u64| m.contains_key(id) implies exists|i: int|
        0 <= i < sorted.len() && #[trigger] sorted[i].id == id by {
        let k = place(rows, id);
        assert(0 <= k < rows.len() && rows[k].key() == id);
        assert(among(sorted, sorted.len() as int, rows[k]));
        let j = choose|j: int| 0 <= j < sorted.len() && sorted[j] == rows[k];
        assert(sorted[j].id == id);
    }
}

spec fn all_news(news: Seq<DbUser>, before: Map<u64, i32>) -> bool {
    forall|j: int| 0 <= j < news.len() ==> is_news(before, #[trigger] news[j])
}

spec fn covers_news(news: Seq<DbUser>, rows: Seq<DbUser>, n: int, before: Map<u64, i32>) -> bool {
    forall|k: int|
        0 <= k < n && is_news(before, rows[k]) ==> among(
            news,
            news.len() as int,
            #[trigger] rows[k],
        )
}

/// A list that holds, each once, the rows among `rows` that are news to
/// `before`, is the list of changes from `before` to the rows.
proof fn lemma_changes(rows: Seq<DbUser>, news: Seq<DbUser>, before: Map<u64, i32>)
    requires
        distinct(rows),
        distinct(news),
        drawn_from(news, rows, rows.len() as int),
        all_news(news, before),
        covers_news(news, rows, rows.len() as int, before),
    ensures
        is_change_list(news, before, table(rows)),
{
    let after = table(rows);
    assert forall|i: int| 0 <= i < news.len() implies after.contains_key(#[trigger] news[i].id)
        && after[news[i].id] == news[i].points && is_news(before, news[i]) by {
        assert(among(rows, rows.len() as int, news[i]));
        let k = choose|k: int| 0 <= k < rows.len() && rows[k] == news[i];
        lemma_row(rows, k);
    }
    assert forall|i: int, j: int| 0 <= i < j < news.len() implies news[i].id != news[j].id by {
        assert(news[i].key() != news[j].key());
    }
    assert forall|id: u64|
        after.contains_key(id) && is_news(before, DbUser { id, points: after[id] }) implies exists|
        i: int,
    | 0 <= i < news.len() && #[trigger] news[i].id == id by {
        let k = place(rows, id);
        assert(0 <= k < rows.len() && rows[k].key() == id);
        lemma_row(rows, k);
        assert(rows[k] == DbUser { id, points: after[id] });
        assert(among(news, news.len() as int, rows[k]));
        let j = choose|j: int| 0 <= j < news.len() && news[j] == rows[k];
        assert(news[j].id == id);
    }
}

/// A row that is no news is passed over.
proof fn lemma_pass_over(rows: Seq<DbUser>, i: int, news: Seq<DbUser>, before: Map<u64, i32>)
    requires
        0 <= i < rows.len(),
        drawn_from(news, rows, i),
        covers_news(news, rows, i, before),
        !is_news(before, rows[i]),
    ensures
        drawn_from(news, rows, i + 1),
        covers_news(news, rows, i + 1, before),
{
    assert forall|j: int| 0 <= j < news.len() implies among(rows, i + 1, #[trigger] news[j]) by {
        assert(among(rows, i, news[j]));
        let k = choose|k: int| 0 <= k < i && rows[k] == news[j];
        assert(rows[k] == news[j]);
    }
}

/// A row that is news is put at the end of the list.
proof fn lemma_take_up(rows: Seq<DbUser>, i: int, news: Seq<DbUser>, before: Map<u64, i32>)
    requires
        0 <= i < rows.len(),
        all_news(news, before),
        covers_news(news, rows, i, before),
        is_news(before, rows[i]),
    ensures
        all_news(news.push(rows[i]), before),
        covers_news(news.push(rows[i]), rows, i + 1, before),
{
    let after = news.push(rows[i]);
    assert forall|j: int| 0 <= j < after.len() implies is_news(before, #[trigger] after[j]) by {
        if j < news.len() {
            assert(after[j] == news[j]);
        }
    }
    assert forall|k: int| 0 <= k < i + 1 && is_news(before, rows[k]) implies among(
        after,
        after.len() as int,
        #[trigger] rows[k],
    ) by {
        if k < i {
            assert(among(news, news.len() as int, rows[k]));
            let j = choose|j: int| 0 <= j < news.len() && news[j] == rows[k];
            assert(after[j] == rows[k]);
        } else {
            assert(after[news.len() as int] == rows[k]);
        }
    }
}

/// Every row after the insertion is one of the first `i + 1` rows.
proof fn lemma_insert_drawn_from(rows: Seq<DbUser>, i: int, before: Seq<DbUser>, at: int)
    requires
        0 <= i < rows.len(),
        drawn_from(before, rows, i),
        0 <= at <= before.len(),
    ensures
        drawn_from(before.insert(at, rows[i]), rows, i + 1),
{
    let after = before.insert(at, rows[i]);
    assert forall|j: int| 0 <= j < after.len() implies among(rows, i + 1, #[trigger] after[j]) by {
        if j == at {
            assert(rows[i] == after[j]);
        } else {
            let j0 = if j < at {
                j
            } else {
                j - 1
            };
            assert(after[j] == before[j0]);
            assert(among(rows, i, before[j0]));
            let k = choose|k: int| 0 <= k < i && rows[k] == before[j0];
            assert(rows[k] == after[j]);
        }
    }
}

/// Each of the first `i + 1` rows stands in the list after the insertion.
proof fn lemma_insert_covers(rows: Seq<DbUser>, i: int, before: Seq<DbUser>, at: int)
    requires
        0 <= i < rows.len(),
        covers(before, rows, i),
        0 <= at <= before.len(),
    ensures
        covers(before.insert(at, rows[i]), rows, i + 1),
{
    let after = before.insert(at, rows[i]);
    assert forall|k: int| 0 <= k < i + 1 implies among(
        after,
        after.len() as int,
        #[trigger] rows[k],
    ) by {
        if k == i {
            assert(after[at] == rows[k]);
        } else {
            assert(among(before, before.len() as int, rows[k]));
            let j0 = choose|j: int| 0 <= j < before.len() && before[j] == rows[k];
            let j = if j0 < at {
                j0
            } else {
                j0 + 1
            };
            assert(after[j] == rows[k]);
        }
    }
}

/// No account stands twice in the list after the insertion.
proof fn lemma_insert_distinct(rows: Seq<DbUser>, i: int, before: Seq<DbUser>, at: int)
    requires
        distinct(rows),
        0 <= i < rows.len(),
        distinct(before),
        drawn_from(before, rows, i),
        0 <= at <= before.len(),
    ensures
        distinct(before.insert(at, rows[i])),
{
    let after = before.insert(at, rows[i]);
    assert forall|a: int, b: int| 0 <= a < b < after.len() implies after[a].key()
        != after[b].key() by {
        let a0 = if a < at {
            a
        } else {
            a - 1
        };
        let b0 = if b < at {
            b
        } else {
            b - 1
        };
        if a != at && b != at {
            assert(after[a] == before[a0] && after[b] == before[b0]);
            assert(before[a0].key() != before[b0].key());
        } else {
            let o0 = if a == at {
                b0
            } else {
                a0
            };
            assert(among(rows, i, before[o0]));
            let k = choose|k: int| 0 <= k < i && rows[k] == before[o0];
            assert(rows[k].key() != rows[i].key());
        }
    }
}

/// The list is still in order after the insertion.
proof fn lemma_insert_descending(row: DbUser, before: Seq<DbUser>, at: int)
    requires
        descending(before),
        0 <= at <= before.len(),
        forall|a: int| 0 <= a < at ==> before[a].points >= row.points,
        at < before.len() ==> before[at].points < row.points,
    ensures
        descending(before.insert(at, row)),
{
    let after = before.insert(at, row);
    assert forall|a: int, b: int| 0 <= a <= b < after.len() implies after[a].points
        >= after[b].points by {
        let a0 = if a < at {
            a
        } else {
            a - 1
        };
        let b0 = if b < at {
            b
        } else {
            b - 1
        };
        if a != at && b != at {
            assert(after[a] == before[a0] && after[b] == before[b0]);
            assert(before[a0].points >= before[b0].points);
        } else if a == at && b != at {
            assert(after[b] == before[b0]);
            assert(before[at].points >= before[b0].points);
        } else if a != at && b == at {
            assert(after[a] == before[a0]);
        }
    }
}

impl Ledger {
    /// The ledger's invariant: every ledger made by [`Ledger::new`] and
    /// changed through the functions of this module has it.
    pub closed spec fn wf(&self) -> bool {
        distinct(self.users@) && distinct(self.state@)
    }

    /// The named values, by name.
    pub closed spec fn vars(&self) -> Map<Seq<char>, Seq<char>> {
        table(self.state@)
    }

    /// The balance of every account, by user id.
    pub closed spec fn balances(&self) -> Map<u64, i32> {
        table(self.users@)
    }

    /// A ledger without accounts and without named values.
    pub fn new() -> (ledger: Ledger)
        ensures
            ledger.wf(),
            ledger.balances() == Map::<u64, i32>::empty(),
            ledger.vars() == Map::<Seq<char>, Seq<char>>::empty(),
    {
        let ledger = Ledger { users: Vec::new(), state: Vec::new() };
        assert(ledger.balances() =~= Map::<u64, i32>::empty());
        assert(ledger.vars() =~= Map::<Seq<char>, Seq<char>>::empty());
        ledger
    }

    /// The value named `key`, or `None` if there is none.
    pub fn get_state(&self, key: &str) -> (value: Option<String>)
        requires
            self.wf(),
        ensures
            match value {
                Some(v) => self.vars().contains_key(key@) && self.vars()[key@] == v@,
                None => !self.vars().contains_key(key@),
            },
    {
        let name = String::from_str(key);
        match find(&self.state, &name) {
            Some(i) => {
                proof {
                    lemma_row(self.state@, i as int);
                }
                Some(self.state[i].value.clone())
            },
            None => None,
        }
    }

    /// Gives the name `key` the value `value`, whether or not it had one.
    pub fn set_state(&mut self, key: &str, value: &str)
        requires
            old(self).wf(),
        ensures
            final(self).wf(),
            final(self).vars() == old(self).vars().insert(key@, value@),
            final(self).balances() == old(self).balances(),
    {
        let name = String::from_str(key);
        let row = StateVar { key: name.clone(), value: String::from_str(value) };
        match find(&self.state, &name) {
            Some(i) => {
                proof {
                    lemma_update(self.state@, i as int, row);
                }
                self.state.set(i, row);
            },
            None => {
                proof {
                    lemma_push(self.state@, row);
                }
                self.state.push(row);
            },
        }
    }

    /// Gives the name `key` the value `value` unless it has one already, and
    /// returns how many values were added: one or none.
    pub fn init_state(&mut self, key: &str, value: &str) -> (added: usize)
        requires
            old(self).wf(),
        ensures
            final(self).wf(),
            final(self).balances() == old(self).balances(),
            old(self).vars().contains_key(key@) ==> added == 0 && final(self).vars() == old(
                self,
            ).vars(),
            !old(self).vars().contains_key(key@) ==> added == 1 && final(self).vars() == old(
                self,
            ).vars().insert(key@, value@),
    {
        let name = String::from_str(key);
        match find(&self.state, &name) {
            Some(i) => {
                proof {
                    lemma_row(self.state@, i as int);
                }
                0
            },
            None => {
                let row = StateVar { key: name, value: String::from_str(value) };
                proof {
                    lemma_push(self.state@, row);
                }
                self.state.push(row);
                1
            },
        }
    }

    /// The accounts that `before` does not hold as they stand here: those
    /// opened since, and those whose balance has changed. Accounts are never
    /// closed, so these are all the differences between the balances.
    pub fn changed_since(&self, before: &Ledger) -> (news: Vec<DbUser>)
        requires
            self.wf(),
            before.wf(),
        ensures
            is_change_list(news@, before.balances(), self.balances()),
    {
        let mut news: Vec<DbUser> = Vec::new();
        let mut i: usize = 0;
        while i < self.users.len()
            invariant
                i <= self.users.len(),
                before.wf(),
                distinct(self.users@),
                distinct(news@),
                drawn_from(news@, self.users@, i as int),
                all_news(news@, before.balances()),
                covers_news(news@, self.users@, i as int, before.balances()),
            decreases self.users.len() - i,
        {
            let row = self.users[i];
            let same = match DbUser::get_points(before, row.id) {
                Some(points) => points == row.points,
                None => false,
            };
            if same {
                proof {
                    lemma_pass_over(self.users@, i as int, news@, before.balances());
                }
            } else {
                proof {
                    let end = news.len() as int;
                    assert(news@.insert(end, row) =~= news@.push(row));
                    lemma_insert_drawn_from(self.users@, i as int, news@, end);
                    lemma_insert_distinct(self.users@, i as int, news@, end);
                    lemma_take_up(self.users@, i as int, news@, before.balances());
                }
                news.push(row);
            }
            i += 1;
        }
        proof {
            lemma_changes(self.users@, news@, before.balances());
        }
        news
    }

    /// All accounts, the highest balance first.
    fn ranking(&self) -> (sorted: Vec<DbUser>)
        requires
            self.wf(),
        ensures
            is_ranking(sorted@, self.balances()),
            sorted.len() == self.users.len(),
    {
        let mut sorted: Vec<DbUser> = Vec::new();
        let mut i: usize = 0;
        while i < self.users.len()
            invariant
                i <= self.users.len(),
                distinct(self.users@),
                sorted.len() == i,
                distinct(sorted@),
                drawn_from(sorted@, self.users@, i as int),
                covers(sorted@, self.users@, i as int),
                descending(sorted@),
            decreases self.users.len() - i,
        {
            let row = self.users[i];
            let mut at: usize = 0;
            while at < sorted.len() && sorted[at].points >= row.points
                invariant
                    at <= sorted.len(),
                    forall|a: int| 0 <= a < at ==> sorted[a].points >= row.points,
                decreases sorted.len() - at,
            {
                at += 1;
            }
            proof {
                lemma_insert_drawn_from(self.users@, i as int, sorted@, at as int);
                lemma_insert_covers(self.users@, i as int, sorted@, at as int);
                lemma_insert_distinct(self.users@, i as int, sorted@, at as int);
                lemma_insert_descending(row, sorted@, at as int);
            }
            sorted.insert(at, row);
            i += 1;
        }
        proof {
            lemma_ranking(self.users@, sorted@);
        }
        sorted
    }
}

impl DbUser {
    /// Opens an account for `user_id` unless there is one, and returns the
    /// account as it then stands. An existing account is left as it is.
    pub fn new(conn: &mut Ledger, user_id: u64) -> (user: DbUser)
        requires
            old(conn).wf(),
        ensures
            final(conn).wf(),
            final(conn).vars() == old(conn).vars(),
            final(conn).balances() == with_account(old(conn).balances(), user_id),
            user == (DbUser { id: user_id, points: final(conn).balances()[user_id] }),
    {
        match find(&conn.users, &user_id) {
            Some(i) => {
                proof {
                    lemma_row(conn.users@, i as int);
                }
                conn.users[i]
            },
            None => {
                let user = NewDbUser { id: user_id }.open();
                proof {
                    lemma_push(conn.users@, user);
                }
                conn.users.push(user);
                user
            },
        }
    }

    /// The account of `user_id`, or `None` if there is none.
    pub fn get(conn: &Ledger, user_id: u64) -> (user: Option<DbUser>)
        requires
            conn.wf(),
        ensures
            match user {
                Some(u) => u.id == user_id && conn.balances().contains_key(user_id)
                    && conn.balances()[user_id] == u.points,
                None => !conn.balances().contains_key(user_id),
            },
    {
        match find(&conn.users, &user_id) {
            Some(i) => {
                proof {
                    lemma_row(conn.users@, i as int);
                }
                Some(conn.users[i])
            },
            None => None,
        }
    }

    /// The balance of `user_id`, or `None` if there is no such account.
    pub fn get_points(conn: &Ledger, user_id: u64) -> (points: Option<i32>)
        requires
            conn.wf(),
        ensures
            match points {
                Some(p) => conn.balances().contains_key(user_id) && conn.balances()[user_id]
                    == p,
                None => !conn.balances().contains_key(user_id),
            },
    {
        match DbUser::get(conn, user_id) {
            Some(u) => Some(u.points),
            None => None,
        }
    }

    /// Adds `pts` points (which may be negative) to the balance of `user_id`
    /// and returns the new balance, or `None` if the user has no account. A
    /// sum outside the range of a balance is refused and changes nothing.
    pub fn add_points(conn: &mut Ledger, user_id: u64, pts: i32) -> (balance: Result<
        Option<i32>,
        DungeonBotError,
    >)
        requires
            old(conn).wf(),
        ensures
            final(conn).wf(),
            final(conn).vars() == old(conn).vars(),
            match awarded(old(conn).balances(), user_id, pts as int) {
                Ok(after) => balance == Ok::<Option<i32>, DungeonBotError>(
                    balance_after(old(conn).balances(), user_id, pts as int),
                ) && final(conn).balances() == after,
                Err(why) => balance == Err::<Option<i32>, DungeonBotError>(why)
                    && final(conn).balances() == old(conn).balances(),
            },
    {
        match find(&conn.users, &user_id) {
            Some(i) => {
                proof {
                    lemma_row(conn.users@, i as int);
                }
                match conn.users[i].points.checked_add(pts) {
                    Some(sum) => {
                        proof {
                            lemma_update(
                                conn.users@,
                                i as int,
                                DbUser { id: user_id, points: sum },
                            );
                        }
                        conn.users[i].points = sum;
                        Ok(Some(sum))
                    },
                    None => Err(DungeonBotError::InvalidAmount),
                }
            },
            None => Ok(None),
        }
    }

    /// How many accounts there are.
    pub fn count(conn: &Ledger) -> (n: usize)
        requires
            conn.wf(),
        ensures
            conn.balances().dom().finite(),
            n == conn.balances().dom().len(),
    {
        proof {
            lemma_count(conn.users@);
        }
        conn.users.len()
    }

    /// One page of the accounts in the order of their balances, the highest
    /// first: at most `lim` accounts after the first `off`. A negative `lim`
    /// is no limit, and a negative `off` skips nothing.
    pub fn top(conn: &Ledger, lim: i64, off: i64) -> (page: Vec<DbUser>)
        requires
            conn.wf(),
        ensures
            exists|s: Seq<DbUser>| #[trigger]
                is_ranking(s, conn.balances()) && page@ == s.subrange(
                    page_start(s.len() as int, off as int),
                    page_end(s.len() as int, lim as int, off as int),
                ),
    {
        let sorted = conn.ranking();
        let len = sorted.len();
        let start: usize = if off <= 0 {
            0
        } else if off as u64 >= len as u64 {
            len
        } else {
            off as usize
        };
        let end: usize = if lim < 0 || lim as u64 >= (len - start) as u64 {
            len
        } else {
            start + lim as usize
        };
        let mut page: Vec<DbUser> = Vec::new();
        let mut at: usize = start;
        while at < end
            invariant
                start <= at <= end <= sorted.len(),
                page@ == sorted@.subrange(start as int, at as int),
            decreases end - at,
        {
            page.push(sorted[at]);
            assert(sorted@.subrange(start as int, at as int).push(sorted[at as int])
                =~= sorted@.subrange(start as int, at + 1));
            at += 1;
        }
        page
    }

    /// Credits `amount` points, which need not fit a balance, to `user_id`:
    /// see [`awarded`]. Returns the new balance, or `None` if the user has no
    /// account.
    pub fn award(conn: &mut Ledger, user_id: u64, amount: i64) -> (balance: Result<
        Option<i32>,
        DungeonBotError,
    >)
        requires
            old(conn).wf(),
        ensures
            final(conn).wf(),
            final(conn).vars() == old(conn).vars(),
            match awarded(old(conn).balances(), user_id, amount as int) {
                Ok(after) => balance == Ok::<Option<i32>, DungeonBotError>(
                    balance_after(old(conn).balances(), user_id, amount as int),
                ) && final(conn).balances() == after,
                Err(why) => balance == Err::<Option<i32>, DungeonBotError>(why)
                    && final(conn).balances() == old(conn).balances(),
            },
    {
        if amount < -2147483648 || amount > 2147483647 {
            return Err(DungeonBotError::InvalidAmount);
        }
        DbUser::add_points(conn, user_id, amount as i32)
    }

    /// Moves `pts` points from the account of `from_id` to the account of
    /// `to_id`, both or neither: see [`transfer`].
    ///
    /// The recipient is looked up first, so it is the one named when both
    /// accounts are missing. Solvency of the sender is the caller's concern:
    /// the ledger lets a balance go negative.
    pub fn xfer_points(conn: &mut Ledger, to_id: u64, from_id: u64, pts: i32) -> (done: Result<
        (),
        DungeonBotError,
    >)
        requires
            old(conn).wf(),
        ensures
            final(conn).wf(),
            final(conn).vars() == old(conn).vars(),
            match transfer(old(conn).balances(), to_id, from_id, pts) {
                Ok(after) => done is Ok && final(conn).balances() == after,
                Err(why) => done == Err::<(), DungeonBotError>(why) && final(conn).balances()
                    == old(conn).balances(),
            },
    {
        let to_at = match find(&conn.users, &to_id) {
            Some(i) => i,
            None => {
                return Err(DungeonBotError::DbUserNotFoundError(to_id));
            },
        };
        let from_at = match find(&conn.users, &from_id) {
            Some(i) => i,
            None => {
                return Err(DungeonBotError::DbUserNotFoundError(from_id));
            },
        };
        proof {
            lemma_row(conn.users@, to_at as int);
            lemma_row(conn.users@, from_at as int);
        }
        if to_id == from_id {
            return Ok(());
        }
        let raised = match conn.users[to_at].points.checked_add(pts) {
            Some(sum) => sum,
            None => {
                return Err(DungeonBotError::InvalidAmount);
            },
        };
        let lowered = match conn.users[from_at].points.checked_sub(pts) {
            Some(rest) => rest,
            None => {
                return Err(DungeonBotError::InvalidAmount);
            },
        };
        proof {
            lemma_update(conn.users@, to_at as int, DbUser { id: to_id, points: raised });
            let mid = conn.users@.update(to_at as int, DbUser { id: to_id, points: raised });
            lemma_update(mid, from_at as int, DbUser { id: from_id, points: lowered });
        }
        conn.users[to_at].points = raised;
        conn.users[from_at].points = lowered;
        Ok(())
    }
}

/// A transfer between two different existing accounts that stays within the
/// range of a balance credits the recipient with the amount, debits the
/// sender by it, touches no other account, and leaves the sum of the two
/// balances as it was.
pub proof fn lemma_transfer_moves_points(m: Map<u64, i32>, to_id: u64, from_id: u64, pts: i32)
    requires
        to_id != from_id,
        m.contains_key(to_id),
        m.contains_key(from_id),
        fits_points(m[to_id] + pts),
        fits_points(m[from_id] - pts),
    ensures
        transfer(m, to_id, from_id, pts) is Ok,
        transfer(m, to_id, from_id, pts)->Ok_0.dom() == m.dom(),
        transfer(m, to_id, from_id, pts)->Ok_0[to_id] == m[to_id] + pts,
        transfer(m, to_id, from_id, pts)->Ok_0[from_id] == m[from_id] - pts,
        transfer(m, to_id, from_id, pts)->Ok_0[to_id] + transfer(
            m,
            to_id,
            from_id,
            pts,
        )->Ok_0[from_id] == m[to_id] + m[from_id],
        forall|id: u64|
            id != to_id && id != from_id && m.contains_key(id) ==> #[trigger] transfer(
                m,
                to_id,
                from_id,
                pts,
            )->Ok_0[id] == m[id],
{
    let after = transfer(m, to_id, from_id, pts)->Ok_0;
    assert(after.dom() =~= m.dom());
}

/// A transfer that names a missing account fails with that account's id, the
/// recipient's if both are missing, and a failed transfer changes no balance.
pub proof fn lemma_transfer_missing_account(
    m: Map<u64, i32>,
    to_id: u64,
    from_id: u64,
    pts: i32,
)
    requires
        !m.contains_key(to_id) || !m.contains_key(from_id),
    ensures
        transfer(m, to_id, from_id, pts) == Err::<Map<u64, i32>, DungeonBotError>(
            DungeonBotError::DbUserNotFoundError(
                if !m.contains_key(to_id) {
                    to_id
                } else {
                    from_id
                },
            ),
        ),
{
}

} // verus!
