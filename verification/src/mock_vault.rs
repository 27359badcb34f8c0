use vstd::prelude::*;

verus! {

// A self-contained vault model without a token factory: LP shares are plain
// balances, the stablecoin balance is a counter and time is advanced by hand.
// Accounts are kept in tables keyed by name, no name twice.

pub const ADMIN: &'static str = "admin";
pub const USER_A: &'static str = "user_a";
pub const USER_B: &'static str = "user_b";
pub const USER_C: &'static str = "user_c";
pub const ATTACKER: &'static str = "attacker";
pub const VICTIM: &'static str = "victim";
pub const STABLECOIN: &'static str = "uzig";

/// One entry of a table keyed by account name.
#[derive(Clone, Debug)]
pub struct Keyed<V> {
    pub key: String,
    pub value: V,
}

/// No name appears twice in the table.
pub open spec fn keys_distinct<V>(s: Seq<Keyed<V>>) -> bool {
    forall|i: int, j: int| 0 <= i < s.len() && 0 <= j < s.len() && i != j ==> s[i].key@ != s[j].key@
}

/// The table as a map from name to value.
pub open spec fn table<V>(s: Seq<Keyed<V>>) -> Map<Seq<char>, V> {
    Map::new(
        |k: Seq<char>| exists|i: int| 0 <= i < s.len() && s[i].key@ == k,
        |k: Seq<char>| s[choose|i: int| 0 <= i < s.len() && s[i].key@ == k].value,
    )
}

proof fn lemma_table_at<V>(s: Seq<Keyed<V>>, j: int)
    requires
        keys_distinct(s),
        0 <= j < s.len(),
    ensures
        table(s).contains_key(s[j].key@),
        table(s)[s[j].key@] == s[j].value,
{
    let k = s[j].key@;
    assert(s[j].key@ == k);
    let c = choose|i: int| 0 <= i < s.len() && s[i].key@ == k;
    assert(c == j);
}

/// Where `k` is in the table.
fn find_key<V>(t: &Vec<Keyed<V>>, k: &String) -> (res: Option<usize>)
    ensures
        res matches Some(j) ==> j < t@.len() && t@[j as int].key@ == k@,
        res is None ==> !table(t@).contains_key(k@),
{
    let mut i: usize = 0;
    while i < t.len()
        invariant
            i <= t@.len(),
            forall|m: int| 0 <= m < i ==> t@[m].key@ != k@,
        decreases t.len() - i,
    {
        if t[i].key == *k {
            return Some(i);
        }
        i = i + 1;
    }
    None
}

/// The value under `k`, if any.
fn lookup<V: Copy>(t: &Vec<Keyed<V>>, k: &String) -> (res: Option<V>)
    requires
        keys_distinct(t@),
    ensures
        res == (if table(t@).contains_key(k@) { Some(table(t@)[k@]) } else { None::<V> }),
{
    match find_key(t, k) {
        Some(j) => {
            proof { lemma_table_at(t@, j as int); }
            Some(t[j].value)
        },
        None => None,
    }
}

/// Stores `v` under `k`, in place when `k` is there, else as a new entry.
fn table_put<V>(t: &mut Vec<Keyed<V>>, k: &String, v: V)
    requires
        keys_distinct(old(t)@),
    ensures
        keys_distinct(final(t)@),
        table(final(t)@) == table(old(t)@).insert(k@, v),
{
    let ghost before = t@;
    let ghost m = table(before);
    match find_key(t, k) {
        Some(j) => {
            let key = t[j].key.clone();
            t.set(j, Keyed { key, value: v });
            proof {
                assert forall|a: int, b: int| 0 <= a < t@.len() && 0 <= b < t@.len() && a != b
                    implies t@[a].key@ != t@[b].key@ by {
                    assert(t@[a].key@ == before[a].key@);
                    assert(t@[b].key@ == before[b].key@);
                }
                let nm = table(t@);
                let target = m.insert(k@, v);
                assert forall|q: Seq<char>| #[trigger] nm.contains_key(q) <==> target.contains_key(q) by {
                    if nm.contains_key(q) {
                        let i = choose|i: int| 0 <= i < t@.len() && t@[i].key@ == q;
                        assert(before[i].key@ == q);
                    }
                    if target.contains_key(q) && q != k@ {
                        let i = choose|i: int| 0 <= i < before.len() && before[i].key@ == q;
                        assert(t@[i].key@ == q);
                    }
                    if q == k@ {
                        assert(t@[j as int].key@ == q);
                    }
                }
                assert forall|q: Seq<char>| #[trigger] nm.contains_key(q) implies nm[q] == target[q] by {
                    let i = choose|i: int| 0 <= i < t@.len() && t@[i].key@ == q;
                    lemma_table_at(t@, i);
                    if i != j {
                        lemma_table_at(before, i);
                    }
                }
                assert(nm =~= target);
            }
        },
        None => {
            t.push(Keyed { key: k.clone(), value: v });
            proof {
                assert forall|a: int, b: int| 0 <= a < t@.len() && 0 <= b < t@.len() && a != b
                    implies t@[a].key@ != t@[b].key@ by {
                    if a < before.len() && b < before.len() {
                        assert(t@[a] == before[a]);
                        assert(t@[b] == before[b]);
                    } else if a < before.len() {
                        assert(t@[a] == before[a]);
                        assert(before[a].key@ != k@);
                    } else if b < before.len() {
                        assert(t@[b] == before[b]);
                        assert(before[b].key@ != k@);
                    }
                }
                let nm = table(t@);
                let target = m.insert(k@, v);
                assert forall|q: Seq<char>| #[trigger] nm.contains_key(q) <==> target.contains_key(q) by {
                    if nm.contains_key(q) && q != k@ {
                        let i = choose|i: int| 0 <= i < t@.len() && t@[i].key@ == q;
                        assert(i < before.len());
                        assert(before[i].key@ == q);
                    }
                    if target.contains_key(q) && q != k@ {
                        let i = choose|i: int| 0 <= i < before.len() && before[i].key@ == q;
                        assert(t@[i].key@ == q);
                    }
                    if q == k@ {
                        assert(t@[before.len() as int].key@ == q);
                    }
                }
                assert forall|q: Seq<char>| #[trigger] nm.contains_key(q) implies nm[q] == target[q] by {
                    let i = choose|i: int| 0 <= i < t@.len() && t@[i].key@ == q;
                    lemma_table_at(t@, i);
                    if i < before.len() {
                        assert(t@[i] == before[i]);
                        lemma_table_at(before, i);
                    }
                }
                assert(nm =~= target);
            }
        },
    }
}

/// A withdrawal waiting for its release time.
#[derive(Clone, Copy, Debug)]
pub struct PendingWithdrawal {
    pub id: u64,
    pub amount: u128,
    pub release_time: u64,
}

/// The totals an error names.
#[derive(Clone, Copy, Debug, PartialEq, Eq, Structural)]
pub enum VaultQuantity {
    TotalDeposited,
    TotalLpSupply,
    Balance,
    UserLpBalance,
    PendingWithdrawals,
    AdminWithdrawn,
    TotalAmount,
}

/// Why a vault operation or check failed.
#[derive(Clone, Copy, Debug, PartialEq, Eq, Structural)]
pub enum MockVaultError {
    AmountTooLarge,
    MultiplicationOverflow,
    DivisionByZero,
    DepositTooSmall,
    Overflow { quantity: VaultQuantity },
    Underflow { quantity: VaultQuantity },
    InsufficientLpTokens,
    InsufficientBalanceForWithdrawal { need: u128, available: u128, pending: u128 },
    NoPendingWithdrawals,
    WithdrawalNotFound,
    WithdrawalLocked { release_time: u64 },
    InsufficientContractBalance,
    Unauthorized,
    ZeroWithdrawal,
    InsufficientBalance,
    InsufficientVaultBalance { need: u128, total_deposited: u128 },
    BothAmountsZero,
    EmptyVault,
    GhostAssets,
    GhostShares,
    LpTotalMismatch { user_total: u128, total_supply: u128 },
}

/// The vault's state: its totals, the stablecoin it holds, and per account its LP
/// balance, its pending withdrawals and how many withdrawals it has requested.
pub struct MockVault {
    pub contract_address: String,
    pub admin: String,
    pub stablecoin_denom: String,
    pub lp_denom: String,
    pub withdrawal_delay: u64,
    pub total_deposited: u128,
    pub total_lp_supply: u128,
    pub total_pending_withdrawals: u128,
    pub admin_withdrawn: u128,
    pub lp_balances: Vec<Keyed<u128>>,
    pub pending_withdrawals: Vec<Keyed<Vec<PendingWithdrawal>>>,
    pub withdrawal_counter: Vec<Keyed<u64>>,
    pub stablecoin_balance: u128,
    pub current_time: u64,
}

/// The vault as a mathematical value, its tables as maps.
#[verifier::ext_equal]
pub struct VaultView {
    pub contract_address: Seq<char>,
    pub admin: Seq<char>,
    pub stablecoin_denom: Seq<char>,
    pub lp_denom: Seq<char>,
    pub withdrawal_delay: u64,
    pub total_deposited: u128,
    pub total_lp_supply: u128,
    pub total_pending_withdrawals: u128,
    pub admin_withdrawn: u128,
    pub lp_balances: Map<Seq<char>, u128>,
    pub pending_withdrawals: Map<Seq<char>, Seq<PendingWithdrawal>>,
    pub withdrawal_counter: Map<Seq<char>, u64>,
    pub stablecoin_balance: u128,
    pub current_time: u64,
}

/// The pending-withdrawal table with each list as a sequence.
pub open spec fn lists(s: Seq<Keyed<Vec<PendingWithdrawal>>>) -> Map<Seq<char>, Seq<PendingWithdrawal>> {
    table(s).map_values(|l: Vec<PendingWithdrawal>| l@)
}

impl View for MockVault {
    type V = VaultView;

    open spec fn view(&self) -> VaultView {
        VaultView {
            contract_address: self.contract_address@,
            admin: self.admin@,
            stablecoin_denom: self.stablecoin_denom@,
            lp_denom: self.lp_denom@,
            withdrawal_delay: self.withdrawal_delay,
            total_deposited: self.total_deposited,
            total_lp_supply: self.total_lp_supply,
            total_pending_withdrawals: self.total_pending_withdrawals,
            admin_withdrawn: self.admin_withdrawn,
            lp_balances: table(self.lp_balances@),
            pending_withdrawals: lists(self.pending_withdrawals@),
            withdrawal_counter: table(self.withdrawal_counter@),
            stablecoin_balance: self.stablecoin_balance,
            current_time: self.current_time,
        }
    }
}

/// A name's LP balance; none counts as zero.
pub open spec fn lp_of(v: VaultView, user: Seq<char>) -> u128 {
    if v.lp_balances.contains_key(user) { v.lp_balances[user] } else { 0 }
}

/// The shares a deposit mints: one per unit into an empty vault, else
/// `amount * total_lp_supply / total_deposited` rounded down; or why it cannot.
pub open spec fn shares_minted(v: VaultView, amount: u128) -> Result<int, MockVaultError> {
    if v.total_lp_supply == 0 {
        Ok(amount as int)
    } else if amount * v.total_lp_supply > u128::MAX {
        Err(MockVaultError::MultiplicationOverflow)
    } else if v.total_deposited == 0 {
        Err(MockVaultError::DivisionByZero)
    } else {
        Ok(amount * v.total_lp_supply / (v.total_deposited as int))
    }
}

/// A deposit: checks, then the totals, the held balance and the depositor's LP
/// balance grow in turn; an overflow stops it with the earlier updates made.
pub open spec fn deposit_spec(v: VaultView, user: Seq<char>, amount: u128) -> (VaultView, Result<u128, MockVaultError>) {
    if amount > u128::MAX / 2 {
        (v, Err(MockVaultError::AmountTooLarge))
    } else {
        match shares_minted(v, amount) {
            Err(e) => (v, Err(e)),
            Ok(shares) => {
                if shares == 0 {
                    (v, Err(MockVaultError::DepositTooSmall))
                } else if v.total_deposited + amount > u128::MAX {
                    (v, Err(MockVaultError::Overflow { quantity: VaultQuantity::TotalDeposited }))
                } else {
                    let v1 = VaultView { total_deposited: (v.total_deposited + amount) as u128, ..v };
                    if v.total_lp_supply + shares > u128::MAX {
                        (v1, Err(MockVaultError::Overflow { quantity: VaultQuantity::TotalLpSupply }))
                    } else {
                        let v2 = VaultView { total_lp_supply: (v.total_lp_supply + shares) as u128, ..v1 };
                        if v.stablecoin_balance + amount > u128::MAX {
                            (v2, Err(MockVaultError::Overflow { quantity: VaultQuantity::Balance }))
                        } else {
                            let v3 = VaultView { stablecoin_balance: (v.stablecoin_balance + amount) as u128, ..v2 };
                            let cur = lp_of(v, user);
                            if cur + shares > u128::MAX {
                                (v3, Err(MockVaultError::Overflow { quantity: VaultQuantity::UserLpBalance }))
                            } else {
                                (
                                    VaultView { lp_balances: v.lp_balances.insert(user, (cur + shares) as u128), ..v3 },
                                    Ok(shares as u128),
                                )
                            }
                        }
                    }
                }
            },
        }
    }
}

/// A name's requested-withdrawal count; none counts as zero.
pub open spec fn counter_of(v: VaultView, user: Seq<char>) -> int {
    if v.withdrawal_counter.contains_key(user) { v.withdrawal_counter[user] as int } else { 0 }
}

/// A name's pending withdrawals; none is the empty list.
pub open spec fn pending_of(v: VaultView, user: Seq<char>) -> Seq<PendingWithdrawal> {
    if v.pending_withdrawals.contains_key(user) { v.pending_withdrawals[user] } else { Seq::empty() }
}

/// What burning `lp_amount` shares pays: `lp_amount * total_deposited /
/// total_lp_supply` rounded down; or why it cannot be computed.
pub open spec fn redemption_value(v: VaultView, lp_amount: u128) -> Result<int, MockVaultError> {
    if lp_amount * v.total_deposited > u128::MAX {
        Err(MockVaultError::MultiplicationOverflow)
    } else if v.total_lp_supply == 0 {
        Err(MockVaultError::DivisionByZero)
    } else {
        Ok(lp_amount * v.total_deposited / (v.total_lp_supply as int))
    }
}

/// The held balance not yet promised to pending withdrawals (none when they
/// exceed it).
pub open spec fn unreserved(v: VaultView) -> int {
    if v.stablecoin_balance >= v.total_pending_withdrawals {
        v.stablecoin_balance - v.total_pending_withdrawals
    } else {
        0
    }
}

/// A withdrawal request: the shares are burnt at once and their value queued
/// under the requester's next withdrawal id, released after the delay. `None`
/// where the operation cannot complete: a name without an LP entry asking for
/// zero shares of a vault with supply, a withdrawal count at its maximum, or a
/// release time past the clock's range.
pub open spec fn request_withdraw_spec(v: VaultView, user: Seq<char>, lp_amount: u128) -> Option<(VaultView, Result<u64, MockVaultError>)> {
    let balance = lp_of(v, user);
    if balance < lp_amount {
        Some((v, Err(MockVaultError::InsufficientLpTokens)))
    } else {
        match redemption_value(v, lp_amount) {
            Err(e) => Some((v, Err(e))),
            Ok(amount) => {
                if amount > unreserved(v) {
                    Some((v, Err(MockVaultError::InsufficientBalanceForWithdrawal {
                        need: amount as u128,
                        available: unreserved(v) as u128,
                        pending: v.total_pending_withdrawals,
                    })))
                } else if !v.lp_balances.contains_key(user) {
                    None
                } else {
                    let v1 = VaultView { lp_balances: v.lp_balances.insert(user, (balance - lp_amount) as u128), ..v };
                    if v.total_lp_supply < lp_amount {
                        Some((v1, Err(MockVaultError::Underflow { quantity: VaultQuantity::TotalLpSupply })))
                    } else if counter_of(v, user) + 1 > u64::MAX || v.current_time + v.withdrawal_delay > u64::MAX {
                        None
                    } else {
                        let id = (counter_of(v, user) + 1) as u64;
                        let w = PendingWithdrawal {
                            id,
                            amount: amount as u128,
                            release_time: (v.current_time + v.withdrawal_delay) as u64,
                        };
                        let v2 = VaultView {
                            total_lp_supply: (v.total_lp_supply - lp_amount) as u128,
                            withdrawal_counter: v.withdrawal_counter.insert(user, id),
                            pending_withdrawals: v.pending_withdrawals.insert(user, pending_of(v, user).push(w)),
                            ..v1
                        };
                        if v.total_pending_withdrawals + amount > u128::MAX {
                            Some((v2, Err(MockVaultError::Overflow { quantity: VaultQuantity::PendingWithdrawals })))
                        } else {
                            Some((
                                VaultView { total_pending_withdrawals: (v.total_pending_withdrawals + amount) as u128, ..v2 },
                                Ok(id),
                            ))
                        }
                    }
                }
            },
        }
    }
}

/// Some pending withdrawal carries `id`.
pub open spec fn has_id(s: Seq<PendingWithdrawal>, id: u64) -> bool {
    exists|i: int| 0 <= i < s.len() && s[i].id == id
}

/// The position of the first pending withdrawal carrying `id`.
pub open spec fn first_index(s: Seq<PendingWithdrawal>, id: u64) -> int {
    choose|i: int| 0 <= i < s.len() && s[i].id == id && forall|m: int| 0 <= m < i ==> s[m].id != id
}

/// A claim: the first pending withdrawal with the id, once released and covered
/// by the held balance, is paid out and leaves the queue; the pending total and
/// the deposits shrink by its amount, an underflow stopping the claim there.
pub open spec fn claim_withdraw_spec(v: VaultView, user: Seq<char>, id: u64) -> (VaultView, Result<u128, MockVaultError>) {
    if !v.pending_withdrawals.contains_key(user) {
        (v, Err(MockVaultError::NoPendingWithdrawals))
    } else {
        let list = v.pending_withdrawals[user];
        if !has_id(list, id) {
            (v, Err(MockVaultError::WithdrawalNotFound))
        } else {
            let i = first_index(list, id);
            let w = list[i];
            if v.current_time < w.release_time {
                (v, Err(MockVaultError::WithdrawalLocked { release_time: w.release_time }))
            } else if v.stablecoin_balance < w.amount {
                (v, Err(MockVaultError::InsufficientContractBalance))
            } else {
                let v1 = VaultView {
                    pending_withdrawals: v.pending_withdrawals.insert(user, list.remove(i)),
                    stablecoin_balance: (v.stablecoin_balance - w.amount) as u128,
                    ..v
                };
                if v.total_pending_withdrawals < w.amount {
                    (v1, Err(MockVaultError::Underflow { quantity: VaultQuantity::PendingWithdrawals }))
                } else {
                    let v2 = VaultView { total_pending_withdrawals: (v.total_pending_withdrawals - w.amount) as u128, ..v1 };
                    if v.total_deposited < w.amount {
                        (v2, Err(MockVaultError::Underflow { quantity: VaultQuantity::TotalDeposited }))
                    } else {
                        (VaultView { total_deposited: (v.total_deposited - w.amount) as u128, ..v2 }, Ok(w.amount))
                    }
                }
            }
        }
    }
}

/// The admin takes stablecoin out of the vault; the deposits are unchanged and
/// the amount is recorded as withdrawn by the admin.
pub open spec fn admin_withdraw_spec(v: VaultView, caller: Seq<char>, amount: u128) -> (VaultView, Result<(), MockVaultError>) {
    if caller != v.admin {
        (v, Err(MockVaultError::Unauthorized))
    } else if amount == 0 {
        (v, Err(MockVaultError::ZeroWithdrawal))
    } else if amount > v.stablecoin_balance {
        (v, Err(MockVaultError::InsufficientBalance))
    } else if amount > v.total_deposited {
        (v, Err(MockVaultError::InsufficientVaultBalance { need: amount, total_deposited: v.total_deposited }))
    } else if v.admin_withdrawn + amount > u128::MAX {
        (v, Err(MockVaultError::Overflow { quantity: VaultQuantity::AdminWithdrawn }))
    } else {
        (
            VaultView {
                admin_withdrawn: (v.admin_withdrawn + amount) as u128,
                stablecoin_balance: (v.stablecoin_balance - amount) as u128,
                ..v
            },
            Ok(()),
        )
    }
}

/// The admin returns `principal` and adds `yield_amount`: the yield raises the
/// deposits, the principal pays back what the admin withdrew (never below zero),
/// and both are held.
pub open spec fn admin_deposit_yield_spec(v: VaultView, caller: Seq<char>, principal: u128, yield_amount: u128) -> (VaultView, Result<(), MockVaultError>) {
    if caller != v.admin {
        (v, Err(MockVaultError::Unauthorized))
    } else if principal == 0 && yield_amount == 0 {
        (v, Err(MockVaultError::BothAmountsZero))
    } else if v.total_lp_supply == 0 {
        (v, Err(MockVaultError::EmptyVault))
    } else if v.total_deposited + yield_amount > u128::MAX {
        (v, Err(MockVaultError::Overflow { quantity: VaultQuantity::TotalDeposited }))
    } else {
        let repaid = if principal < v.admin_withdrawn { principal as int } else { v.admin_withdrawn as int };
        let v1 = VaultView {
            total_deposited: (v.total_deposited + yield_amount) as u128,
            admin_withdrawn: (v.admin_withdrawn - repaid) as u128,
            ..v
        };
        if principal + yield_amount > u128::MAX {
            (v1, Err(MockVaultError::Overflow { quantity: VaultQuantity::TotalAmount }))
        } else if v.stablecoin_balance + principal + yield_amount > u128::MAX {
            (v1, Err(MockVaultError::Overflow { quantity: VaultQuantity::Balance }))
        } else {
            (VaultView { stablecoin_balance: (v.stablecoin_balance + principal + yield_amount) as u128, ..v1 }, Ok(()))
        }
    }
}

proof fn lemma_lists_dom(s: Seq<Keyed<Vec<PendingWithdrawal>>>, k: Seq<char>)
    ensures
        lists(s).contains_key(k) == table(s).contains_key(k),
        table(s).contains_key(k) ==> lists(s)[k] == table(s)[k]@,
{
}

proof fn lemma_lists_insert(
    before: Seq<Keyed<Vec<PendingWithdrawal>>>,
    after: Seq<Keyed<Vec<PendingWithdrawal>>>,
    k: Seq<char>,
    l: Vec<PendingWithdrawal>,
)
    requires
        table(after) == table(before).insert(k, l),
    ensures
        lists(after) == lists(before).insert(k, l@),
{
    assert(lists(after) =~= lists(before).insert(k, l@));
}

/// A copy of the pending withdrawals of `k`; the empty list when it has none.
fn pending_list(t: &Vec<Keyed<Vec<PendingWithdrawal>>>, k: &String) -> (r: Vec<PendingWithdrawal>)
    requires
        keys_distinct(t@),
    ensures
        r@ == (if lists(t@).contains_key(k@) { lists(t@)[k@] } else { Seq::empty() }),
{
    match find_key(t, k) {
        None => Vec::new(),
        Some(j) => {
            proof { lemma_table_at(t@, j as int); }
            let src = &t[j].value;
            let mut r: Vec<PendingWithdrawal> = Vec::new();
            let mut i: usize = 0;
            while i < src.len()
                invariant
                    i <= src@.len(),
                    r@ == src@.subrange(0, i as int),
                decreases src.len() - i,
            {
                r.push(src[i]);
                i = i + 1;
                assert(r@ =~= src@.subrange(0, i as int));
            }
            assert(r@ =~= src@);
            r
        },
    }
}

/// Where the first withdrawal with `id` stands in `list`.
fn position_of(list: &Vec<PendingWithdrawal>, id: u64) -> (res: Option<usize>)
    ensures
        res matches Some(j) ==> j < list@.len() && list@[j as int].id == id
            && forall|m: int| 0 <= m < j ==> list@[m].id != id,
        res is None ==> !has_id(list@, id),
{
    let mut i: usize = 0;
    while i < list.len()
        invariant
            i <= list@.len(),
            forall|m: int| 0 <= m < i ==> list@[m].id != id,
        decreases list.len() - i,
    {
        if list[i].id == id {
            return Some(i);
        }
        i = i + 1;
    }
    None
}

/// The sum of the LP balances in a table.
pub open spec fn lp_sum(s: Seq<Keyed<u128>>) -> int
    decreases s.len(),
{
    if s.len() == 0 { 0 } else { lp_sum(s.drop_last()) + s.last().value }
}

/// Whether the invariant check goes as far as adding up the LP balances.
pub open spec fn check_reaches_total(v: VaultView) -> bool {
    &&& !(v.total_lp_supply == 0 && v.total_pending_withdrawals == 0 && v.total_deposited != 0)
    &&& !(v.total_deposited == 0 && v.total_pending_withdrawals == 0 && v.total_lp_supply != 0)
}

/// The vault's invariants, given the total of its LP balances: no assets without
/// shares or pending withdrawals, no shares without assets or pending
/// withdrawals, and the LP balances add up to the LP supply.
pub open spec fn invariant_check(v: VaultView, user_total: int) -> Result<(), MockVaultError> {
    if v.total_lp_supply == 0 && v.total_pending_withdrawals == 0 && v.total_deposited != 0 {
        Err(MockVaultError::GhostAssets)
    } else if v.total_deposited == 0 && v.total_pending_withdrawals == 0 && v.total_lp_supply != 0 {
        Err(MockVaultError::GhostShares)
    } else if user_total != v.total_lp_supply {
        Err(MockVaultError::LpTotalMismatch { user_total: user_total as u128, total_supply: v.total_lp_supply })
    } else {
        Ok(())
    }
}

/// Which assertion about a vault failed.
#[derive(Clone, Copy, Debug, PartialEq, Eq, Structural)]
pub enum VaultCheck {
    /// Solvent, yet more is pending than deposited.
    PendingExceedsDeposits,
    /// Assets with neither shares nor pending withdrawals.
    GhostAssets,
    /// Deposits with neither shares nor pending withdrawals.
    AssetsWithoutShares,
    /// The vault's own invariant check failed.
    Invariant { error: MockVaultError },
}

/// A failed vault assertion, with the label of the point where it was made.
#[derive(Clone, Debug)]
pub struct VaultCheckFailure {
    pub tag: String,
    pub check: VaultCheck,
}

/// The assertions about a vault, in order; `None` when all hold.
pub open spec fn vault_assertions(v: VaultView, user_total: int) -> Option<VaultCheck> {
    if v.stablecoin_balance >= v.total_pending_withdrawals && v.total_deposited < v.total_pending_withdrawals {
        Some(VaultCheck::PendingExceedsDeposits)
    } else if v.total_lp_supply == 0 && v.total_pending_withdrawals == 0 && v.total_deposited != 0 {
        Some(VaultCheck::GhostAssets)
    } else if v.total_deposited != 0 && v.total_lp_supply == 0 && v.total_pending_withdrawals == 0 {
        Some(VaultCheck::AssetsWithoutShares)
    } else {
        match invariant_check(v, user_total) {
            Err(e) => Some(VaultCheck::Invariant { error: e }),
            Ok(()) => None,
        }
    }
}

/// The vault a fresh model starts as.
pub open spec fn empty_vault(admin: Seq<char>, stablecoin_denom: Seq<char>, withdrawal_delay: u64) -> VaultView {
    VaultView {
        contract_address: "vault_contract"@,
        admin,
        stablecoin_denom,
        lp_denom: "factory/vault_contract/lp"@,
        withdrawal_delay,
        total_deposited: 0,
        total_lp_supply: 0,
        total_pending_withdrawals: 0,
        admin_withdrawn: 0,
        lp_balances: Map::empty(),
        pending_withdrawals: Map::empty(),
        withdrawal_counter: Map::empty(),
        stablecoin_balance: 0,
        current_time: 0,
    }
}

/// A withdrawal from request to claim: the request, the withdrawal delay passing,
/// then the claim of the withdrawal the request created; `None` where the
/// request cannot complete.
pub open spec fn withdraw_spec(v: VaultView, user: Seq<char>, lp_amount: u128) -> Option<(VaultView, Result<u128, MockVaultError>)> {
    match request_withdraw_spec(v, user, lp_amount) {
        None => None,
        Some((v1, Err(e))) => Some((v1, Err(e))),
        Some((v1, Ok(id))) => Some(claim_withdraw_spec(
            VaultView { current_time: (v1.current_time + v1.withdrawal_delay) as u64, ..v1 },
            user,
            id,
        )),
    }
}

proof fn lemma_lp_sum_prefix(s: Seq<Keyed<u128>>, i: int)
    requires
        0 <= i <= s.len(),
    ensures
        lp_sum(s.subrange(0, i)) <= lp_sum(s),
    decreases s.len(),
{
    if i < s.len() {
        assert(s.drop_last() =~= s.subrange(0, s.len() - 1));
        if i < s.len() - 1 {
            assert(s.subrange(0, i) =~= s.drop_last().subrange(0, i));
        }
        lemma_lp_sum_prefix(s.drop_last(), i);
    } else {
        assert(s.subrange(0, i) =~= s);
    }
}

fn owned(s: &str) -> (r: String)
    ensures
        r@ == s@,
{
    let r = s.to_string();
    proof {
        broadcast use vstd::string::to_string_from_display_ensures_for_str;
    }
    r
}

impl MockVault {
    /// No name appears twice in any of the vault's tables.
    pub open spec fn well_formed(&self) -> bool {
        &&& keys_distinct(self.lp_balances@)
        &&& keys_distinct(self.pending_withdrawals@)
        &&& keys_distinct(self.withdrawal_counter@)
    }

    /// An empty vault at time zero.
    pub fn new(admin: &str, stablecoin_denom: &str, withdrawal_delay: u64) -> (r: Self)
        ensures
            r.well_formed(),
            r@ == empty_vault(admin@, stablecoin_denom@, withdrawal_delay),
    {
        let r = MockVault {
            contract_address: owned("vault_contract"),
            admin: owned(admin),
            stablecoin_denom: owned(stablecoin_denom),
            lp_denom: owned("factory/vault_contract/lp"),
            withdrawal_delay,
            total_deposited: 0,
            total_lp_supply: 0,
            total_pending_withdrawals: 0,
            admin_withdrawn: 0,
            lp_balances: Vec::new(),
            pending_withdrawals: Vec::new(),
            withdrawal_counter: Vec::new(),
            stablecoin_balance: 0,
            current_time: 0,
        };
        assert(table(r.lp_balances@) =~= Map::empty());
        assert(lists(r.pending_withdrawals@) =~= Map::empty());
        assert(table(r.withdrawal_counter@) =~= Map::empty());
        r
    }

    /// Deposits `amount` for `user`, minting shares at the current price.
    pub fn deposit(&mut self, user: &str, amount: u128) -> (res: Result<u128, MockVaultError>)
        requires
            old(self).well_formed(),
        ensures
            final(self).well_formed(),
            (final(self)@, res) == deposit_spec(old(self)@, user@, amount),
    {
        let ghost v = self@;
        if amount > u128::MAX / 2 {
            return Err(MockVaultError::AmountTooLarge);
        }
        let shares: u128 = if self.total_lp_supply == 0 {
            amount
        } else {
            let product = match amount.checked_mul(self.total_lp_supply) {
                Some(p) => p,
                None => {
                    return Err(MockVaultError::MultiplicationOverflow);
                },
            };
            match product.checked_div(self.total_deposited) {
                Some(s) => s,
                None => {
                    return Err(MockVaultError::DivisionByZero);
                },
            }
        };
        if shares == 0 {
            return Err(MockVaultError::DepositTooSmall);
        }
        self.total_deposited = match self.total_deposited.checked_add(amount) {
            Some(t) => t,
            None => {
                return Err(MockVaultError::Overflow { quantity: VaultQuantity::TotalDeposited });
            },
        };
        self.total_lp_supply = match self.total_lp_supply.checked_add(shares) {
            Some(t) => t,
            None => {
                assert(self@ =~= deposit_spec(v, user@, amount).0);
                return Err(MockVaultError::Overflow { quantity: VaultQuantity::TotalLpSupply });
            },
        };
        self.stablecoin_balance = match self.stablecoin_balance.checked_add(amount) {
            Some(t) => t,
            None => {
                assert(self@ =~= deposit_spec(v, user@, amount).0);
                return Err(MockVaultError::Overflow { quantity: VaultQuantity::Balance });
            },
        };
        let u = owned(user);
        let cur: u128 = match lookup(&self.lp_balances, &u) {
            Some(c) => c,
            None => 0,
        };
        let updated = match cur.checked_add(shares) {
            Some(x) => x,
            None => {
                assert(self@ =~= deposit_spec(v, user@, amount).0);
                return Err(MockVaultError::Overflow { quantity: VaultQuantity::UserLpBalance });
            },
        };
        table_put(&mut self.lp_balances, &u, updated);
        assert(self@ =~= deposit_spec(v, user@, amount).0);
        Ok(shares)
    }

    /// Requests a withdrawal of `lp_amount` shares; returns the withdrawal's id.
    pub fn request_withdraw(&mut self, user: &str, lp_amount: u128) -> (res: Result<u64, MockVaultError>)
        requires
            old(self).well_formed(),
            request_withdraw_spec(old(self)@, user@, lp_amount) is Some,
        ensures
            final(self).well_formed(),
            Some((final(self)@, res)) == request_withdraw_spec(old(self)@, user@, lp_amount),
    {
        let ghost v = self@;
        let ghost out = request_withdraw_spec(v, user@, lp_amount)->0;
        let u = owned(user);
        let balance: u128 = match lookup(&self.lp_balances, &u) {
            Some(b) => b,
            None => 0,
        };
        if balance < lp_amount {
            return Err(MockVaultError::InsufficientLpTokens);
        }
        let product = match lp_amount.checked_mul(self.total_deposited) {
            Some(p) => p,
            None => {
                return Err(MockVaultError::MultiplicationOverflow);
            },
        };
        let amount = match product.checked_div(self.total_lp_supply) {
            Some(a) => a,
            None => {
                return Err(MockVaultError::DivisionByZero);
            },
        };
        let available = self.stablecoin_balance.saturating_sub(self.total_pending_withdrawals);
        if amount > available {
            return Err(MockVaultError::InsufficientBalanceForWithdrawal {
                need: amount,
                available,
                pending: self.total_pending_withdrawals,
            });
        }
        table_put(&mut self.lp_balances, &u, balance - lp_amount);
        self.total_lp_supply = match self.total_lp_supply.checked_sub(lp_amount) {
            Some(t) => t,
            None => {
                assert(self@ =~= out.0);
                return Err(MockVaultError::Underflow { quantity: VaultQuantity::TotalLpSupply });
            },
        };
        let count: u64 = match lookup(&self.withdrawal_counter, &u) {
            Some(c) => c,
            None => 0,
        };
        let id = count + 1;
        table_put(&mut self.withdrawal_counter, &u, id);
        let release_time = self.current_time + self.withdrawal_delay;
        let mut list = pending_list(&self.pending_withdrawals, &u);
        list.push(PendingWithdrawal { id, amount, release_time });
        let ghost pending_before = self.pending_withdrawals@;
        table_put(&mut self.pending_withdrawals, &u, list);
        proof {
            lemma_lists_insert(pending_before, self.pending_withdrawals@, u@, list);
        }
        self.total_pending_withdrawals = match self.total_pending_withdrawals.checked_add(amount) {
            Some(t) => t,
            None => {
                assert(self@ =~= out.0);
                return Err(MockVaultError::Overflow { quantity: VaultQuantity::PendingWithdrawals });
            },
        };
        assert(self@ =~= out.0);
        Ok(id)
    }

    /// Claims the released withdrawal `withdrawal_id` of `user`; returns the amount paid.
    pub fn claim_withdraw(&mut self, user: &str, withdrawal_id: u64) -> (res: Result<u128, MockVaultError>)
        requires
            old(self).well_formed(),
        ensures
            final(self).well_formed(),
            (final(self)@, res) == claim_withdraw_spec(old(self)@, user@, withdrawal_id),
    {
        let ghost v = self@;
        let ghost out = claim_withdraw_spec(v, user@, withdrawal_id);
        let u = owned(user);
        if find_key(&self.pending_withdrawals, &u).is_none() {
            proof { lemma_lists_dom(self.pending_withdrawals@, u@); }
            return Err(MockVaultError::NoPendingWithdrawals);
        }
        proof { lemma_lists_dom(self.pending_withdrawals@, u@); }
        let mut list = pending_list(&self.pending_withdrawals, &u);
        let index = match position_of(&list, withdrawal_id) {
            Some(i) => i,
            None => {
                return Err(MockVaultError::WithdrawalNotFound);
            },
        };
        proof {
            let c = first_index(list@, withdrawal_id);
            assert(0 <= c < list@.len() && list@[c].id == withdrawal_id
                && forall|m: int| 0 <= m < c ==> list@[m].id != withdrawal_id);
            if c < index {
                assert(list@[c].id != withdrawal_id);
            }
            if index < c {
                assert(list@[index as int].id != withdrawal_id);
            }
            assert(c == index);
        }
        let w = list[index];
        if self.current_time < w.release_time {
            return Err(MockVaultError::WithdrawalLocked { release_time: w.release_time });
        }
        let amount = w.amount;
        if self.stablecoin_balance < amount {
            return Err(MockVaultError::InsufficientContractBalance);
        }
        list.remove(index);
        let ghost pending_before = self.pending_withdrawals@;
        table_put(&mut self.pending_withdrawals, &u, list);
        proof {
            lemma_lists_insert(pending_before, self.pending_withdrawals@, u@, list);
        }
        self.stablecoin_balance = self.stablecoin_balance - amount;
        self.total_pending_withdrawals = match self.total_pending_withdrawals.checked_sub(amount) {
            Some(t) => t,
            None => {
                assert(self@ =~= out.0);
                return Err(MockVaultError::Underflow { quantity: VaultQuantity::PendingWithdrawals });
            },
        };
        self.total_deposited = match self.total_deposited.checked_sub(amount) {
            Some(t) => t,
            None => {
                assert(self@ =~= out.0);
                return Err(MockVaultError::Underflow { quantity: VaultQuantity::TotalDeposited });
            },
        };
        assert(self@ =~= out.0);
        Ok(amount)
    }

    /// The admin withdraws `amount` of the held stablecoin.
    pub fn admin_withdraw(&mut self, caller: &str, amount: u128) -> (res: Result<(), MockVaultError>)
        requires
            old(self).well_formed(),
        ensures
            final(self).well_formed(),
            (final(self)@, res) == admin_withdraw_spec(old(self)@, caller@, amount),
    {
        let ghost v = self@;
        let c = owned(caller);
        if c != self.admin {
            return Err(MockVaultError::Unauthorized);
        }
        if amount == 0 {
            return Err(MockVaultError::ZeroWithdrawal);
        }
        if amount > self.stablecoin_balance {
            return Err(MockVaultError::InsufficientBalance);
        }
        if amount > self.total_deposited {
            return Err(MockVaultError::InsufficientVaultBalance { need: amount, total_deposited: self.total_deposited });
        }
        self.admin_withdrawn = match self.admin_withdrawn.checked_add(amount) {
            Some(t) => t,
            None => {
                return Err(MockVaultError::Overflow { quantity: VaultQuantity::AdminWithdrawn });
            },
        };
        self.stablecoin_balance = self.stablecoin_balance - amount;
        assert(self@ =~= admin_withdraw_spec(v, caller@, amount).0);
        Ok(())
    }

    /// The admin returns `principal` and adds `yield_amount` to the vault.
    pub fn admin_deposit_yield(&mut self, caller: &str, principal: u128, yield_amount: u128) -> (res: Result<(), MockVaultError>)
        requires
            old(self).well_formed(),
        ensures
            final(self).well_formed(),
            (final(self)@, res) == admin_deposit_yield_spec(old(self)@, caller@, principal, yield_amount),
    {
        let ghost v = self@;
        let ghost out = admin_deposit_yield_spec(v, caller@, principal, yield_amount);
        let c = owned(caller);
        if c != self.admin {
            return Err(MockVaultError::Unauthorized);
        }
        if principal == 0 && yield_amount == 0 {
            return Err(MockVaultError::BothAmountsZero);
        }
        if self.total_lp_supply == 0 {
            return Err(MockVaultError::EmptyVault);
        }
        self.total_deposited = match self.total_deposited.checked_add(yield_amount) {
            Some(t) => t,
            None => {
                return Err(MockVaultError::Overflow { quantity: VaultQuantity::TotalDeposited });
            },
        };
        let repaid = if principal < self.admin_withdrawn { principal } else { self.admin_withdrawn };
        self.admin_withdrawn = self.admin_withdrawn - repaid;
        let total = match principal.checked_add(yield_amount) {
            Some(t) => t,
            None => {
                assert(self@ =~= out.0);
                return Err(MockVaultError::Overflow { quantity: VaultQuantity::TotalAmount });
            },
        };
        self.stablecoin_balance = match self.stablecoin_balance.checked_add(total) {
            Some(t) => t,
            None => {
                assert(self@ =~= out.0);
                return Err(MockVaultError::Overflow { quantity: VaultQuantity::Balance });
            },
        };
        assert(self@ =~= out.0);
        Ok(())
    }

    /// Checks the vault's invariants.
    pub fn verify_invariants(&self) -> (res: Result<(), MockVaultError>)
        requires
            check_reaches_total(self@) ==> lp_sum(self.lp_balances@) <= u128::MAX,
        ensures
            res == invariant_check(self@, lp_sum(self.lp_balances@)),
    {
        if self.total_lp_supply == 0 && self.total_pending_withdrawals == 0 && self.total_deposited != 0 {
            return Err(MockVaultError::GhostAssets);
        }
        if self.total_deposited == 0 && self.total_pending_withdrawals == 0 && self.total_lp_supply != 0 {
            return Err(MockVaultError::GhostShares);
        }
        let mut user_total: u128 = 0;
        let mut i: usize = 0;
        proof {
            assert(self.lp_balances@.subrange(0, 0) =~= Seq::<Keyed<u128>>::empty());
        }
        while i < self.lp_balances.len()
            invariant
                i <= self.lp_balances@.len(),
                user_total == lp_sum(self.lp_balances@.subrange(0, i as int)),
                lp_sum(self.lp_balances@) <= u128::MAX,
            decreases self.lp_balances.len() - i,
        {
            proof {
                let next = self.lp_balances@.subrange(0, i as int + 1);
                assert(next.drop_last() =~= self.lp_balances@.subrange(0, i as int));
                lemma_lp_sum_prefix(self.lp_balances@, i as int + 1);
            }
            user_total = user_total + self.lp_balances[i].value;
            i = i + 1;
        }
        proof {
            assert(self.lp_balances@.subrange(0, i as int) =~= self.lp_balances@);
        }
        if user_total != self.total_lp_supply {
            return Err(MockVaultError::LpTotalMismatch { user_total, total_supply: self.total_lp_supply });
        }
        Ok(())
    }

    /// Moves the clock forward.
    pub fn advance_time(&mut self, seconds: u64)
        requires
            old(self).current_time + seconds <= u64::MAX,
        ensures
            final(self)@ == (VaultView { current_time: (old(self).current_time + seconds) as u64, ..old(self)@ }),
            final(self).well_formed() == old(self).well_formed(),
    {
        self.current_time = self.current_time + seconds;
        assert(self@ =~= (VaultView { current_time: (old(self).current_time + seconds) as u64, ..old(self)@ }));
    }

    /// The LP balance of `user`, zero when it has none.
    pub fn get_lp_balance(&self, user: &str) -> (r: u128)
        requires
            self.well_formed(),
        ensures
            r == lp_of(self@, user@),
    {
        let u = owned(user);
        match lookup(&self.lp_balances, &u) {
            Some(b) => b,
            None => 0,
        }
    }
}

/// A fresh vault run by the test admin, in the test stablecoin.
pub fn setup_vault(withdrawal_delay: u64) -> (r: MockVault)
    ensures
        r.well_formed(),
        r@ == empty_vault(ADMIN@, STABLECOIN@, withdrawal_delay),
{
    MockVault::new(ADMIN, STABLECOIN, withdrawal_delay)
}

/// Deposits `amount` for `user`; returns the shares minted.
pub fn execute_deposit(vault: &mut MockVault, user: &str, amount: u128) -> (res: Result<u128, MockVaultError>)
    requires
        old(vault).well_formed(),
    ensures
        final(vault).well_formed(),
        (final(vault)@, res) == deposit_spec(old(vault)@, user@, amount),
{
    vault.deposit(user, amount)
}

/// Withdraws `lp_amount` shares of `user` end to end: requests, lets the
/// withdrawal delay pass and claims; returns the amount paid.
pub fn execute_withdraw(vault: &mut MockVault, user: &str, lp_amount: u128) -> (res: Result<u128, MockVaultError>)
    requires
        old(vault).well_formed(),
        request_withdraw_spec(old(vault)@, user@, lp_amount) is Some,
    ensures
        final(vault).well_formed(),
        Some((final(vault)@, res)) == withdraw_spec(old(vault)@, user@, lp_amount),
{
    let withdrawal_id = vault.request_withdraw(user, lp_amount)?;
    let delay = vault.withdrawal_delay;
    vault.advance_time(delay);
    vault.claim_withdraw(user, withdrawal_id)
}

/// The test admin withdraws `amount`.
pub fn execute_admin_withdraw(vault: &mut MockVault, amount: u128) -> (res: Result<(), MockVaultError>)
    requires
        old(vault).well_formed(),
    ensures
        final(vault).well_formed(),
        (final(vault)@, res) == admin_withdraw_spec(old(vault)@, ADMIN@, amount),
{
    vault.admin_withdraw(ADMIN, amount)
}

/// The test admin returns `principal` and adds `yield_amount`.
pub fn execute_admin_deposit_yield(vault: &mut MockVault, principal: u128, yield_amount: u128) -> (res: Result<(), MockVaultError>)
    requires
        old(vault).well_formed(),
    ensures
        final(vault).well_formed(),
        (final(vault)@, res) == admin_deposit_yield_spec(old(vault)@, ADMIN@, principal, yield_amount),
{
    vault.admin_deposit_yield(ADMIN, principal, yield_amount)
}

/// The LP balance of `user`.
pub fn query_lp_balance(vault: &MockVault, user: &str) -> (r: u128)
    requires
        vault.well_formed(),
    ensures
        r == lp_of(vault@, user@),
{
    vault.get_lp_balance(user)
}

/// Asserts the vault's accounting at the point labelled `tag`: solvent vaults owe
/// no more than they hold in deposits, assets never stand without shares or
/// pending withdrawals, and the vault's own invariants hold.
pub fn assert_vault_invariants(vault: &MockVault, tag: &str) -> (res: Result<(), VaultCheckFailure>)
    requires
        check_reaches_total(vault@) ==> lp_sum(vault.lp_balances@) <= u128::MAX,
    ensures
        match vault_assertions(vault@, lp_sum(vault.lp_balances@)) {
            None => res is Ok,
            Some(c) => res matches Err(f) && f.check == c && f.tag@ == tag@,
        },
{
    let check = if vault.stablecoin_balance >= vault.total_pending_withdrawals
        && vault.total_deposited < vault.total_pending_withdrawals {
        Some(VaultCheck::PendingExceedsDeposits)
    } else if vault.total_lp_supply == 0 && vault.total_pending_withdrawals == 0 && vault.total_deposited != 0 {
        Some(VaultCheck::GhostAssets)
    } else if vault.total_deposited != 0 && vault.total_lp_supply == 0 && vault.total_pending_withdrawals == 0 {
        Some(VaultCheck::AssetsWithoutShares)
    } else {
        match vault.verify_invariants() {
            Err(e) => Some(VaultCheck::Invariant { error: e }),
            Ok(()) => None,
        }
    };
    match check {
        Some(c) => Err(VaultCheckFailure { tag: owned(tag), check: c }),
        None => Ok(()),
    }
}

// ---------------------------------------------------------------------------
// The LP total
// ---------------------------------------------------------------------------

proof fn lemma_lp_sum_remove(s: Seq<Keyed<u128>>, j: int)
    requires
        0 <= j < s.len(),
    ensures
        lp_sum(s) == lp_sum(s.remove(j)) + s[j].value,
    decreases s.len(),
{
    if j == s.len() - 1 {
        assert(s.remove(j) =~= s.drop_last());
    } else {
        let r = s.remove(j);
        assert(r.drop_last() =~= s.drop_last().remove(j));
        assert(r.last() == s.last());
        lemma_lp_sum_remove(s.drop_last(), j);
    }
}

proof fn lemma_table_remove<V>(s: Seq<Keyed<V>>, j: int)
    requires
        keys_distinct(s),
        0 <= j < s.len(),
    ensures
        keys_distinct(s.remove(j)),
        table(s.remove(j)) =~= table(s).remove(s[j].key@),
{
    let r = s.remove(j);
    let k = s[j].key@;
    assert forall|a: int, b: int| 0 <= a < r.len() && 0 <= b < r.len() && a != b implies r[a].key@ != r[b].key@ by {
        let a2 = if a < j { a } else { a + 1 };
        let b2 = if b < j { b } else { b + 1 };
        assert(r[a] == s[a2]);
        assert(r[b] == s[b2]);
    }
    let nt = table(r);
    let target = table(s).remove(k);
    assert forall|q: Seq<char>| #[trigger] nt.contains_key(q) <==> target.contains_key(q) by {
        if nt.contains_key(q) {
            let i = choose|i: int| 0 <= i < r.len() && r[i].key@ == q;
            let i2 = if i < j { i } else { i + 1 };
            assert(r[i] == s[i2]);
            assert(s[i2].key@ == q);
        }
        if target.contains_key(q) {
            let i = choose|i: int| 0 <= i < s.len() && s[i].key@ == q;
            assert(i != j);
            let i2 = if i < j { i } else { i - 1 };
            assert(r[i2] == s[i]);
            assert(r[i2].key@ == q);
        }
    }
    assert forall|q: Seq<char>| #[trigger] nt.contains_key(q) implies nt[q] == target[q] by {
        let i = choose|i: int| 0 <= i < r.len() && r[i].key@ == q;
        let i2 = if i < j { i } else { i + 1 };
        assert(r[i] == s[i2]);
        lemma_table_at(r, i);
        lemma_table_at(s, i2);
    }
}

proof fn lemma_lp_sum_same_table(s: Seq<Keyed<u128>>, t: Seq<Keyed<u128>>)
    requires
        keys_distinct(s),
        keys_distinct(t),
        table(s) == table(t),
    ensures
        lp_sum(s) == lp_sum(t),
    decreases s.len(),
{
    if s.len() == 0 {
        if t.len() > 0 {
            lemma_table_at(t, 0);
            let k = t[0].key@;
            assert(table(s).contains_key(k));
            let i = choose|i: int| 0 <= i < s.len() && s[i].key@ == k;
        }
    } else {
        let last = s.len() - 1;
        let k = s[last].key@;
        lemma_table_at(s, last);
        assert(table(t).contains_key(k));
        let j = choose|i: int| 0 <= i < t.len() && t[i].key@ == k;
        lemma_table_at(t, j);
        lemma_table_remove(s, last);
        lemma_table_remove(t, j);
        assert(s.remove(last) =~= s.drop_last());
        lemma_lp_sum_same_table(s.drop_last(), t.remove(j));
        lemma_lp_sum_remove(t, j);
    }
}

/// Storing `x` under `k` changes the LP total by `x` less what `k` held.
proof fn lemma_lp_sum_insert(s1: Seq<Keyed<u128>>, s2: Seq<Keyed<u128>>, k: Seq<char>, x: u128)
    requires
        keys_distinct(s1),
        keys_distinct(s2),
        table(s2) == table(s1).insert(k, x),
    ensures
        lp_sum(s2) == lp_sum(s1) - (if table(s1).contains_key(k) { table(s1)[k] as int } else { 0 }) + x,
{
    assert(table(s2).contains_key(k));
    let j2 = choose|i: int| 0 <= i < s2.len() && s2[i].key@ == k;
    lemma_table_at(s2, j2);
    lemma_table_remove(s2, j2);
    lemma_lp_sum_remove(s2, j2);
    if table(s1).contains_key(k) {
        let j1 = choose|i: int| 0 <= i < s1.len() && s1[i].key@ == k;
        lemma_table_at(s1, j1);
        lemma_table_remove(s1, j1);
        lemma_lp_sum_remove(s1, j1);
        assert(table(s2.remove(j2)) =~= table(s1.remove(j1)));
        lemma_lp_sum_same_table(s1.remove(j1), s2.remove(j2));
    } else {
        assert(table(s2.remove(j2)) =~= table(s1));
        lemma_lp_sum_same_table(s1, s2.remove(j2));
    }
}

/// A deposit that succeeds keeps the LP balances adding up to the LP supply.
pub proof fn law_deposit_keeps_lp_total(
    before: MockVault,
    after: MockVault,
    user: Seq<char>,
    amount: u128,
    res: Result<u128, MockVaultError>,
)
    requires
        before.well_formed(),
        after.well_formed(),
        (after@, res) == deposit_spec(before@, user, amount),
        res is Ok,
        lp_sum(before.lp_balances@) == before.total_lp_supply,
    ensures
        lp_sum(after.lp_balances@) == after.total_lp_supply,
{
    let v = before@;
    let shares = shares_minted(v, amount)->Ok_0;
    lemma_lp_sum_insert(before.lp_balances@, after.lp_balances@, user, (lp_of(v, user) + shares) as u128);
}

/// A withdrawal request that succeeds keeps the LP balances adding up to the LP
/// supply: the shares leave both at once.
pub proof fn law_request_keeps_lp_total(
    before: MockVault,
    after: MockVault,
    user: Seq<char>,
    lp_amount: u128,
    res: Result<u64, MockVaultError>,
)
    requires
        before.well_formed(),
        after.well_formed(),
        Some((after@, res)) == request_withdraw_spec(before@, user, lp_amount),
        res is Ok,
        lp_sum(before.lp_balances@) == before.total_lp_supply,
    ensures
        lp_sum(after.lp_balances@) == after.total_lp_supply,
{
    let v = before@;
    lemma_lp_sum_insert(before.lp_balances@, after.lp_balances@, user, (lp_of(v, user) - lp_amount) as u128);
}

/// A claim leaves the LP balances and the LP supply as they were.
pub proof fn law_claim_keeps_lp_total(
    before: MockVault,
    after: MockVault,
    user: Seq<char>,
    withdrawal_id: u64,
    res: Result<u128, MockVaultError>,
)
    requires
        before.well_formed(),
        after.well_formed(),
        (after@, res) == claim_withdraw_spec(before@, user, withdrawal_id),
    ensures
        lp_sum(after.lp_balances@) == lp_sum(before.lp_balances@),
        after.total_lp_supply == before.total_lp_supply,
{
    lemma_lp_sum_same_table(before.lp_balances@, after.lp_balances@);
}

} // verus!
