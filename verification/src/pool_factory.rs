use vstd::prelude::*;
use crate::math::{decimal, to_decimal};
use crate::types::{string_from_chars, text_equals};

verus! {

pub const DEFAULT_PAGE_LIMIT: u32 = 20;
pub const MAX_PAGE_LIMIT: u32 = 50;
pub const REPLY_ID_PSP_POOL: u64 = 1;
pub const REPLY_ID_CREDIT_MANAGER: u64 = 2;
pub const REPLY_ID_YIELD_DISTRIBUTOR: u64 = 3;
pub const REPLY_ID_YIELD_RESERVE: u64 = 4;

/// Errors of the pool factory.
#[derive(Clone, Debug)]
pub enum PoolFactoryError {
    Unauthorized { caller: String, expected: String },
    PendingCreationInProgress,
    PendingCreationNotFound,
    InvalidReplyId { reply_id: u64 },
    MissingReplyAddress,
    SubMsgFailed { reason: String },
    IncompletePendingCreation,
    InvalidPaginationLimit,
    InvalidLabelPrefix,
    NextPoolIdOverflow,
    InvalidAddress { message: String },
}

#[derive(Clone, Copy, Debug, PartialEq, Eq, Structural)]
pub struct CodeIds {
    pub psp_pool: u64,
    pub credit_manager: u64,
    pub yield_distributor: u64,
    pub yield_reserve: u64,
}

#[derive(Clone, Debug)]
pub struct Config {
    pub admin: String,
    pub code_ids: CodeIds,
}

/// The four contracts of a pool.
#[derive(Clone, Debug)]
pub struct PoolRecord {
    pub pool_id: u64,
    pub psp_pool: String,
    pub credit_manager: String,
    pub yield_distributor: String,
    pub yield_reserve: String,
    pub created_at: u64,
}

/// A pool whose contracts are being instantiated one after the other; the
/// instantiation messages are JSON bytes.
#[derive(Clone, Debug)]
pub struct PendingPoolCreation {
    pub pool_id: u64,
    pub label_prefix: String,
    pub created_at: u64,
    pub psp_pool_init_msg: Vec<u8>,
    pub credit_manager_init_msg: Vec<u8>,
    pub yield_distributor_init_msg: Vec<u8>,
    pub yield_reserve_init_msg: Vec<u8>,
    pub psp_pool: Option<String>,
    pub credit_manager: Option<String>,
    pub yield_distributor: Option<String>,
}

#[derive(Clone, Debug)]
pub struct PoolRecordResponse {
    pub pool_id: u64,
    pub psp_pool: String,
    pub credit_manager: String,
    pub yield_distributor: String,
    pub yield_reserve: String,
    pub created_at: u64,
}

#[derive(Clone, Debug)]
pub struct PoolResponse {
    pub pool: Option<PoolRecordResponse>,
}

#[derive(Clone, Debug)]
pub struct PoolsResponse {
    pub pools: Vec<PoolRecordResponse>,
}

#[derive(Clone, Debug)]
pub struct ConfigResponse {
    pub admin: String,
    pub psp_pool_code_id: u64,
    pub credit_manager_code_id: u64,
    pub yield_distributor_code_id: u64,
    pub yield_reserve_code_id: u64,
}

#[derive(Clone, Debug)]
pub struct MigrateMsg {}

/// A contract instantiation the factory asks for, answered by a reply.
#[derive(Clone, Debug)]
pub struct Instantiation {
    pub admin: String,
    pub code_id: u64,
    pub msg: Vec<u8>,
    pub label: String,
    pub reply_id: u64,
}

// ---------------------------------------------------------------------------
// Configuration
// ---------------------------------------------------------------------------

pub fn require_admin(sender: &String, config: &Config) -> (res: Result<(), PoolFactoryError>)
    ensures
        sender@ == config.admin@ ==> res is Ok,
        sender@ != config.admin@ ==> res == Err::<(), PoolFactoryError>(
            PoolFactoryError::Unauthorized { caller: *sender, expected: config.admin }),
{
    if *sender != config.admin {
        return Err(PoolFactoryError::Unauthorized { caller: sender.clone(), expected: config.admin.clone() });
    }
    Ok(())
}

/// The configuration with the admin as the chain validated it; the next pool id
/// starts at zero.
pub fn instantiate(admin: Result<String, String>, code_ids: CodeIds) -> (res: Result<Config, PoolFactoryError>)
    ensures
        match admin {
            Err(m) => res == Err::<Config, PoolFactoryError>(PoolFactoryError::InvalidAddress { message: m }),
            Ok(a) => res == Ok::<Config, PoolFactoryError>(Config { admin: a, code_ids }),
        },
{
    match admin {
        Err(m) => Err(PoolFactoryError::InvalidAddress { message: m }),
        Ok(a) => Ok(Config { admin: a, code_ids }),
    }
}

/// The admin replaces the four code ids.
pub fn set_code_ids(sender: &String, config: &Config, code_ids: CodeIds) -> (res: Result<Config, PoolFactoryError>)
    ensures
        sender@ != config.admin@ ==> res == Err::<Config, PoolFactoryError>(
            PoolFactoryError::Unauthorized { caller: *sender, expected: config.admin }),
        sender@ == config.admin@ ==> res == Ok::<Config, PoolFactoryError>(Config { admin: config.admin, code_ids }),
{
    require_admin(sender, config)?;
    Ok(Config { admin: config.admin.clone(), code_ids })
}

pub fn config_response(config: &Config) -> (r: ConfigResponse)
    ensures
        r.admin == config.admin && r.psp_pool_code_id == config.code_ids.psp_pool
            && r.credit_manager_code_id == config.code_ids.credit_manager
            && r.yield_distributor_code_id == config.code_ids.yield_distributor
            && r.yield_reserve_code_id == config.code_ids.yield_reserve,
{
    ConfigResponse {
        admin: config.admin.clone(),
        psp_pool_code_id: config.code_ids.psp_pool,
        credit_manager_code_id: config.code_ids.credit_manager,
        yield_distributor_code_id: config.code_ids.yield_distributor,
        yield_reserve_code_id: config.code_ids.yield_reserve,
    }
}

// ---------------------------------------------------------------------------
// Labels
// ---------------------------------------------------------------------------

/// Whether a character has the Unicode White_Space property.
pub open spec fn unicode_white_space(c: char) -> bool {
    let x = c as u32;
    (9 <= x && x <= 13) || x == 32 || x == 0x85 || x == 0xA0 || x == 0x1680 || (0x2000 <= x && x <= 0x200A)
        || x == 0x2028 || x == 0x2029 || x == 0x202F || x == 0x205F || x == 0x3000
}

/// Calls `char::is_whitespace`, which std documents as true exactly for the
/// characters with the Unicode White_Space property; the contract lists them.
#[verifier::external_body]
fn char_is_whitespace(c: char) -> (r: bool)
    ensures
        r == unicode_white_space(c),
{
    c.is_whitespace()
}

/// A label prefix is refused when nothing but whitespace remains once trimmed.
pub open spec fn blank(s: Seq<char>) -> bool {
    forall|i: int| 0 <= i < s.len() ==> unicode_white_space(#[trigger] s[i])
}

pub fn is_blank(s: &String) -> (r: bool)
    ensures
        r == blank(s@),
{
    let bytes_len = s.as_str().unicode_len();
    let mut i: usize = 0;
    while i < bytes_len
        invariant
            bytes_len == s@.len(),
            i <= s@.len(),
            forall|k: int| 0 <= k < i ==> unicode_white_space(#[trigger] s@[k]),
        decreases s@.len() - i,
    {
        let c = s.as_str().get_char(i);
        if !char_is_whitespace(c) {
            return false;
        }
        i = i + 1;
    }
    true
}

/// The label of one of a pool's contracts: `{prefix}{kind}{pool_id}`, where the
/// kind reads like `-psp-pool-`.
pub open spec fn label_spec(prefix: Seq<char>, kind: Seq<char>, pool_id: u64) -> Seq<char> {
    prefix + kind + decimal(pool_id as nat)
}

fn make_label(prefix: &String, kind: &str, pool_id: u64) -> (r: String)
    ensures
        r@ == label_spec(prefix@, kind@, pool_id),
{
    let mut chars: Vec<char> = Vec::new();
    let n = prefix.as_str().unicode_len();
    let mut i: usize = 0;
    while i < n
        invariant
            n == prefix@.len(),
            i <= n,
            chars@ =~= prefix@.subrange(0, i as int),
        decreases n - i,
    {
        chars.push(prefix.as_str().get_char(i));
        i = i + 1;
    }
    let m = kind.unicode_len();
    let mut j: usize = 0;
    while j < m
        invariant
            m == kind@.len(),
            j <= m,
            n == prefix@.len(),
            chars@ =~= prefix@ + kind@.subrange(0, j as int),
        decreases m - j,
    {
        chars.push(kind.get_char(j));
        j = j + 1;
    }
    let digits = to_decimal(pool_id as u128);
    let mut k: usize = 0;
    while k < digits.len()
        invariant
            k <= digits@.len(),
            chars@ =~= prefix@ + kind@ + digits@.subrange(0, k as int),
        decreases digits@.len() - k,
    {
        chars.push(digits[k]);
        k = k + 1;
    }
    string_from_chars(&chars)
}

// ---------------------------------------------------------------------------
// Pool creation
// ---------------------------------------------------------------------------

/// What starting a pool creation records.
#[derive(Clone, Debug)]
pub struct CreateOutcome {
    pub pending: PendingPoolCreation,
    pub next_pool_id: u64,
    /// The PSP pool's instantiation, the first of four.
    pub instantiate: Instantiation,
}

/// The admin starts creating a pool: a prefix that is not blank, no creation in
/// progress; the pool takes the next pool id.
pub fn create_pool(
    sender: &String,
    config: &Config,
    label_prefix: String,
    pending_exists: bool,
    next_pool_id: u64,
    now_secs: u64,
    psp_pool_init_msg: Vec<u8>,
    credit_manager_init_msg: Vec<u8>,
    yield_distributor_init_msg: Vec<u8>,
    yield_reserve_init_msg: Vec<u8>,
) -> (res: Result<CreateOutcome, PoolFactoryError>)
    ensures
        sender@ != config.admin@ ==> res == Err::<CreateOutcome, PoolFactoryError>(
            PoolFactoryError::Unauthorized { caller: *sender, expected: config.admin }),
        sender@ == config.admin@ && blank(label_prefix@) ==> res == Err::<CreateOutcome, PoolFactoryError>(
            PoolFactoryError::InvalidLabelPrefix),
        sender@ == config.admin@ && !blank(label_prefix@) && pending_exists ==> res == Err::<CreateOutcome, PoolFactoryError>(
            PoolFactoryError::PendingCreationInProgress),
        sender@ == config.admin@ && !blank(label_prefix@) && !pending_exists && next_pool_id == u64::MAX ==> res
            == Err::<CreateOutcome, PoolFactoryError>(PoolFactoryError::NextPoolIdOverflow),
        sender@ == config.admin@ && !blank(label_prefix@) && !pending_exists && next_pool_id < u64::MAX ==> (res matches Ok(o)
            && o.next_pool_id == next_pool_id + 1
            && o.pending == PendingPoolCreation {
                pool_id: next_pool_id,
                label_prefix,
                created_at: now_secs,
                psp_pool_init_msg,
                credit_manager_init_msg,
                yield_distributor_init_msg,
                yield_reserve_init_msg,
                psp_pool: None,
                credit_manager: None,
                yield_distributor: None,
            }
            && o.instantiate.admin == config.admin && o.instantiate.code_id == config.code_ids.psp_pool
            && o.instantiate.msg@ == psp_pool_init_msg@ && o.instantiate.reply_id == REPLY_ID_PSP_POOL
            && o.instantiate.label@ == label_spec(label_prefix@, "-psp-pool-"@, next_pool_id)),
{
    require_admin(sender, config)?;
    if is_blank(&label_prefix) {
        return Err(PoolFactoryError::InvalidLabelPrefix);
    }
    if pending_exists {
        return Err(PoolFactoryError::PendingCreationInProgress);
    }
    let next = match next_pool_id.checked_add(1) {
        Some(n) => n,
        None => {
            return Err(PoolFactoryError::NextPoolIdOverflow);
        },
    };
    let label = make_label(&label_prefix, "-psp-pool-", next_pool_id);
    let first = Instantiation {
        admin: config.admin.clone(),
        code_id: config.code_ids.psp_pool,
        msg: psp_pool_init_msg.clone(),
        label,
        reply_id: REPLY_ID_PSP_POOL,
    };
    Ok(CreateOutcome {
        pending: PendingPoolCreation {
            pool_id: next_pool_id,
            label_prefix,
            created_at: now_secs,
            psp_pool_init_msg,
            credit_manager_init_msg,
            yield_distributor_init_msg,
            yield_reserve_init_msg,
            psp_pool: None,
            credit_manager: None,
            yield_distributor: None,
        },
        next_pool_id: next,
        instantiate: first,
    })
}

// ---------------------------------------------------------------------------
// Replies
// ---------------------------------------------------------------------------

/// One event of a successful instantiation, with its attributes as key and value.
#[derive(Clone, Debug)]
pub struct ReplyEvent {
    pub attributes: Vec<(String, String)>,
}

/// How an instantiation the factory asked for went.
#[derive(Clone, Debug)]
pub enum ReplyResult {
    Succeeded { events: Vec<ReplyEvent> },
    Failed { reason: String },
}

/// The attribute values keyed `_contract_address`, events and attributes taken in
/// order.
pub open spec fn address_values(events: Seq<ReplyEvent>) -> Seq<Seq<char>>
    decreases events.len(),
{
    if events.len() == 0 {
        Seq::empty()
    } else {
        address_values(events.drop_last()) + attribute_values(events.last().attributes@)
    }
}

pub open spec fn attribute_values(attrs: Seq<(String, String)>) -> Seq<Seq<char>>
    decreases attrs.len(),
{
    if attrs.len() == 0 {
        Seq::empty()
    } else {
        let p = attribute_values(attrs.drop_last());
        if attrs.last().0@ == "_contract_address"@ { p.push(attrs.last().1@) } else { p }
    }
}

fn first_in_attributes(attrs: &Vec<(String, String)>) -> (r: Option<String>)
    ensures
        attribute_values(attrs@).len() == 0 ==> r is None,
        attribute_values(attrs@).len() > 0 ==> (r matches Some(v) && v@ == attribute_values(attrs@)[0]),
{
    let mut i: usize = 0;
    while i < attrs.len()
        invariant
            i <= attrs@.len(),
            attribute_values(attrs@.subrange(0, i as int)).len() == 0,
        decreases attrs@.len() - i,
    {
        proof {
            let prefix = attrs@.subrange(0, i as int + 1);
            assert(prefix.drop_last() =~= attrs@.subrange(0, i as int));
        }
        if text_equals(&attrs[i].0, "_contract_address") {
            proof {
                let prefix = attrs@.subrange(0, i as int + 1);
                assert(prefix.last() == attrs@[i as int]);
                assert(attribute_values(prefix) =~= seq![attrs@[i as int].1@]);
                lemma_attribute_values_prefix(attrs@, i as int + 1);
                assert(attribute_values(attrs@)[0] == attribute_values(prefix)[0]);
            }
            return Some(attrs[i].1.clone());
        }
        i = i + 1;
    }
    proof {
        assert(attrs@.subrange(0, attrs@.len() as int) =~= attrs@);
    }
    None
}

proof fn lemma_attribute_values_prefix(attrs: Seq<(String, String)>, k: int)
    requires
        0 <= k <= attrs.len(),
    ensures
        attribute_values(attrs.subrange(0, k)).len() <= attribute_values(attrs).len(),
        forall|j: int| 0 <= j < attribute_values(attrs.subrange(0, k)).len() ==>
            attribute_values(attrs)[j] == #[trigger] attribute_values(attrs.subrange(0, k))[j],
    decreases attrs.len() - k,
{
    if k == attrs.len() {
        assert(attrs.subrange(0, k) =~= attrs);
    } else {
        let next = attrs.subrange(0, k + 1);
        assert(next.drop_last() =~= attrs.subrange(0, k));
        lemma_attribute_values_prefix(attrs, k + 1);
        let short = attribute_values(attrs.subrange(0, k));
        let long = attribute_values(next);
        assert forall|j: int| 0 <= j < short.len() implies attribute_values(attrs)[j] == #[trigger] short[j] by {
            assert(long[j] == short[j]);
        }
    }
}

proof fn lemma_address_values_prefix(events: Seq<ReplyEvent>, k: int)
    requires
        0 <= k <= events.len(),
    ensures
        address_values(events.subrange(0, k)).len() <= address_values(events).len(),
        forall|j: int| 0 <= j < address_values(events.subrange(0, k)).len() ==>
            address_values(events)[j] == #[trigger] address_values(events.subrange(0, k))[j],
    decreases events.len() - k,
{
    if k == events.len() {
        assert(events.subrange(0, k) =~= events);
    } else {
        let next = events.subrange(0, k + 1);
        assert(next.drop_last() =~= events.subrange(0, k));
        lemma_address_values_prefix(events, k + 1);
        let short = address_values(events.subrange(0, k));
        let long = address_values(next);
        assert forall|j: int| 0 <= j < short.len() implies address_values(events)[j] == #[trigger] short[j] by {
            assert(long[j] == short[j]);
        }
    }
}

/// The instantiated contract's address in a reply: the value of the first
/// `_contract_address` attribute.
#[verifier::loop_isolation(false)]
pub fn parse_reply_address(result: &ReplyResult) -> (res: Result<String, PoolFactoryError>)
    ensures
        result matches ReplyResult::Failed { reason } ==> res == Err::<String, PoolFactoryError>(
            PoolFactoryError::SubMsgFailed { reason: *reason }),
        result matches ReplyResult::Succeeded { events } ==> ({
            let vals = address_values(events@);
            &&& vals.len() == 0 ==> res == Err::<String, PoolFactoryError>(PoolFactoryError::MissingReplyAddress)
            &&& vals.len() > 0 ==> (res matches Ok(a) && a@ == vals[0])
        }),
{
    match result {
        ReplyResult::Failed { reason } => Err(PoolFactoryError::SubMsgFailed { reason: reason.clone() }),
        ReplyResult::Succeeded { events } => {
            let mut i: usize = 0;
            while i < events.len()
                invariant
                    i <= events@.len(),
                    address_values(events@.subrange(0, i as int)).len() == 0,
                decreases events@.len() - i,
            {
                let ghost prefix = events@.subrange(0, i as int + 1);
                proof {
                    assert(prefix.drop_last() =~= events@.subrange(0, i as int));
                    assert(prefix.last() == events@[i as int]);
                    assert(address_values(prefix) =~= address_values(events@.subrange(0, i as int))
                        + attribute_values(events@[i as int].attributes@));
                }
                match first_in_attributes(&events[i].attributes) {
                    Some(v) => {
                        proof {
                            lemma_address_values_prefix(events@, i as int + 1);
                            assert(address_values(prefix)[0] == attribute_values(events@[i as int].attributes@)[0]);
                        }
                        return Ok(v);
                    },
                    None => {},
                }
                i = i + 1;
            }
            proof {
                assert(events@.subrange(0, events@.len() as int) =~= events@);
            }
            Err(PoolFactoryError::MissingReplyAddress)
        },
    }
}

/// What a reply leads to.
#[derive(Clone, Debug)]
pub enum ReplyStep {
    /// Record the address and instantiate the next contract. After the PSP pool's
    /// reply, `inject_psp_pool` is the pool's address, to be written into the
    /// yield reserve's instantiation message.
    InstantiateNext { pending: PendingPoolCreation, instantiate: Instantiation, inject_psp_pool: Option<String> },
    /// All four contracts exist: register the pool, drop the pending creation,
    /// and wire the contracts to one another.
    Completed { record: PoolRecord },
}

/// The creation after the reply of step `reply_id` reported `address`.
pub open spec fn reply_spec(pending: Option<PendingPoolCreation>, reply_id: u64, address: Result<String, PoolFactoryError>) -> Result<PendingPoolCreation, PoolFactoryError> {
    match pending {
        None => Err(PoolFactoryError::PendingCreationNotFound),
        Some(p) => {
            if reply_id < 1 || reply_id > 4 {
                Err(PoolFactoryError::InvalidReplyId { reply_id })
            } else {
                match address {
                    Err(e) => Err(e),
                    Ok(a) => {
                        if reply_id == REPLY_ID_PSP_POOL {
                            Ok(PendingPoolCreation { psp_pool: Some(a), ..p })
                        } else if reply_id == REPLY_ID_CREDIT_MANAGER {
                            Ok(PendingPoolCreation { credit_manager: Some(a), ..p })
                        } else if reply_id == REPLY_ID_YIELD_DISTRIBUTOR {
                            Ok(PendingPoolCreation { yield_distributor: Some(a), ..p })
                        } else {
                            Ok(p)
                        }
                    },
                }
            }
        },
    }
}

/// Advances a pool creation on a reply. `address` is the instantiated contract's
/// address as parsed from the reply and validated by the chain.
pub fn reply(
    pending: Option<PendingPoolCreation>,
    config: &Config,
    reply_id: u64,
    address: Result<String, PoolFactoryError>,
) -> (res: Result<ReplyStep, PoolFactoryError>)
    ensures
        pending is None ==> res == Err::<ReplyStep, PoolFactoryError>(PoolFactoryError::PendingCreationNotFound),
        pending is Some && (reply_id < 1 || reply_id > 4) ==> res == Err::<ReplyStep, PoolFactoryError>(
            PoolFactoryError::InvalidReplyId { reply_id }),
        pending is Some && 1 <= reply_id <= 4 && address is Err ==> res == Err::<ReplyStep, PoolFactoryError>(
            address->Err_0),
        pending is Some && 1 <= reply_id <= 3 && address is Ok ==> ({
            let p = pending->0;
            let next = reply_spec(pending, reply_id, address)->Ok_0;
            res matches Ok(ReplyStep::InstantiateNext { pending: np, instantiate: inst, inject_psp_pool: inject }) && {
                &&& np == next
                &&& inst.admin == config.admin
                &&& inst.reply_id == reply_id + 1
                &&& reply_id == REPLY_ID_PSP_POOL ==> inst.code_id == config.code_ids.credit_manager
                    && inst.msg@ == p.credit_manager_init_msg@ && inject == Some(address->Ok_0)
                    && inst.label@ == label_spec(p.label_prefix@, "-credit-manager-"@, p.pool_id)
                &&& reply_id == REPLY_ID_CREDIT_MANAGER ==> inst.code_id == config.code_ids.yield_distributor
                    && inst.msg@ == p.yield_distributor_init_msg@ && inject is None
                    && inst.label@ == label_spec(p.label_prefix@, "-yield-distributor-"@, p.pool_id)
                &&& reply_id == REPLY_ID_YIELD_DISTRIBUTOR ==> inst.code_id == config.code_ids.yield_reserve
                    && inst.msg@ == p.yield_reserve_init_msg@ && inject is None
                    && inst.label@ == label_spec(p.label_prefix@, "-yield-reserve-"@, p.pool_id)
            }
        }),
        pending is Some && reply_id == REPLY_ID_YIELD_RESERVE && address is Ok ==> ({
            let p = pending->0;
            &&& (p.psp_pool is None || p.credit_manager is None || p.yield_distributor is None) ==> res
                == Err::<ReplyStep, PoolFactoryError>(PoolFactoryError::IncompletePendingCreation)
            &&& (p.psp_pool is Some && p.credit_manager is Some && p.yield_distributor is Some) ==> res
                == Ok::<ReplyStep, PoolFactoryError>(ReplyStep::Completed {
                    record: PoolRecord {
                        pool_id: p.pool_id,
                        psp_pool: p.psp_pool->0,
                        credit_manager: p.credit_manager->0,
                        yield_distributor: p.yield_distributor->0,
                        yield_reserve: address->Ok_0,
                        created_at: p.created_at,
                    },
                })
        }),
{
    let p = match pending {
        None => {
            return Err(PoolFactoryError::PendingCreationNotFound);
        },
        Some(p) => p,
    };
    if reply_id < 1 || reply_id > 4 {
        return Err(PoolFactoryError::InvalidReplyId { reply_id });
    }
    let addr = address?;
    if reply_id == REPLY_ID_PSP_POOL {
        let label = make_label(&p.label_prefix, "-credit-manager-", p.pool_id);
        let inst = Instantiation {
            admin: config.admin.clone(),
            code_id: config.code_ids.credit_manager,
            msg: p.credit_manager_init_msg.clone(),
            label,
            reply_id: REPLY_ID_CREDIT_MANAGER,
        };
        let inject = Some(addr.clone());
        let np = PendingPoolCreation { psp_pool: Some(addr), ..p };
        return Ok(ReplyStep::InstantiateNext { pending: np, instantiate: inst, inject_psp_pool: inject });
    }
    if reply_id == REPLY_ID_CREDIT_MANAGER {
        let label = make_label(&p.label_prefix, "-yield-distributor-", p.pool_id);
        let inst = Instantiation {
            admin: config.admin.clone(),
            code_id: config.code_ids.yield_distributor,
            msg: p.yield_distributor_init_msg.clone(),
            label,
            reply_id: REPLY_ID_YIELD_DISTRIBUTOR,
        };
        let np = PendingPoolCreation { credit_manager: Some(addr), ..p };
        return Ok(ReplyStep::InstantiateNext { pending: np, instantiate: inst, inject_psp_pool: None });
    }
    if reply_id == REPLY_ID_YIELD_DISTRIBUTOR {
        let label = make_label(&p.label_prefix, "-yield-reserve-", p.pool_id);
        let inst = Instantiation {
            admin: config.admin.clone(),
            code_id: config.code_ids.yield_reserve,
            msg: p.yield_reserve_init_msg.clone(),
            label,
            reply_id: REPLY_ID_YIELD_RESERVE,
        };
        let np = PendingPoolCreation { yield_distributor: Some(addr), ..p };
        return Ok(ReplyStep::InstantiateNext { pending: np, instantiate: inst, inject_psp_pool: None });
    }
    let psp_pool = match p.psp_pool {
        Some(a) => a,
        None => {
            return Err(PoolFactoryError::IncompletePendingCreation);
        },
    };
    let credit_manager = match p.credit_manager {
        Some(a) => a,
        None => {
            return Err(PoolFactoryError::IncompletePendingCreation);
        },
    };
    let yield_distributor = match p.yield_distributor {
        Some(a) => a,
        None => {
            return Err(PoolFactoryError::IncompletePendingCreation);
        },
    };
    Ok(ReplyStep::Completed {
        record: PoolRecord {
            pool_id: p.pool_id,
            psp_pool,
            credit_manager,
            yield_distributor,
            yield_reserve: addr,
            created_at: p.created_at,
        },
    })
}

/// A call that wires one contract of a new pool to the others.
#[derive(Clone, Debug)]
pub enum WiringCall {
    /// Tell the PSP pool its credit manager.
    PspPoolSetCreditManager { contract: String, credit_manager: String },
    /// Tell the credit manager its pool and yield reserve; its queue limit stays.
    CreditManagerUpdateWiring { contract: String, psp_pool: String, yield_reserve: String },
    /// Tell the yield distributor its pool and yield reserve.
    YieldDistributorUpdateWiring { contract: String, psp_pool: String, yield_reserve: String },
    /// Tell the yield reserve its credit manager and yield distributor.
    YieldReserveUpdateWiring { contract: String, credit_manager: String, yield_distributor: String },
}

/// The wiring a registered pool receives: each contract learns the addresses of
/// the ones it calls, in this order.
pub open spec fn wiring_spec(r: PoolRecord) -> Seq<WiringCall> {
    seq![
        WiringCall::PspPoolSetCreditManager { contract: r.psp_pool, credit_manager: r.credit_manager },
        WiringCall::CreditManagerUpdateWiring { contract: r.credit_manager, psp_pool: r.psp_pool, yield_reserve: r.yield_reserve },
        WiringCall::YieldDistributorUpdateWiring {
            contract: r.yield_distributor,
            psp_pool: r.psp_pool,
            yield_reserve: r.yield_reserve,
        },
        WiringCall::YieldReserveUpdateWiring {
            contract: r.yield_reserve,
            credit_manager: r.credit_manager,
            yield_distributor: r.yield_distributor,
        },
    ]
}

/// The calls that wire a newly registered pool's contracts to one another.
pub fn wiring_calls(r: &PoolRecord) -> (calls: Vec<WiringCall>)
    ensures
        calls@ == wiring_spec(*r),
{
    let mut calls: Vec<WiringCall> = Vec::new();
    calls.push(WiringCall::PspPoolSetCreditManager { contract: r.psp_pool.clone(), credit_manager: r.credit_manager.clone() });
    calls.push(WiringCall::CreditManagerUpdateWiring {
        contract: r.credit_manager.clone(),
        psp_pool: r.psp_pool.clone(),
        yield_reserve: r.yield_reserve.clone(),
    });
    calls.push(WiringCall::YieldDistributorUpdateWiring {
        contract: r.yield_distributor.clone(),
        psp_pool: r.psp_pool.clone(),
        yield_reserve: r.yield_reserve.clone(),
    });
    calls.push(WiringCall::YieldReserveUpdateWiring {
        contract: r.yield_reserve.clone(),
        credit_manager: r.credit_manager.clone(),
        yield_distributor: r.yield_distributor.clone(),
    });
    assert(calls@ =~= wiring_spec(*r));
    calls
}

/// Replies in the order the factory asks for them register the pool with the
/// four addresses reported, under the id and time the creation was started with.
pub proof fn law_reply_chain_registers_pool(
    p: PendingPoolCreation,
    psp_pool: String,
    credit_manager: String,
    yield_distributor: String,
)
    requires
        p.psp_pool is None && p.credit_manager is None && p.yield_distributor is None,
    ensures
        ({
            let p1 = reply_spec(Some(p), REPLY_ID_PSP_POOL, Ok(psp_pool))->Ok_0;
            let p2 = reply_spec(Some(p1), REPLY_ID_CREDIT_MANAGER, Ok(credit_manager))->Ok_0;
            let p3 = reply_spec(Some(p2), REPLY_ID_YIELD_DISTRIBUTOR, Ok(yield_distributor))->Ok_0;
            &&& p3.psp_pool == Some(psp_pool)
            &&& p3.credit_manager == Some(credit_manager)
            &&& p3.yield_distributor == Some(yield_distributor)
            &&& p3.pool_id == p.pool_id && p3.created_at == p.created_at && p3.label_prefix == p.label_prefix
        }),
{
}

// ---------------------------------------------------------------------------
// Queries
// ---------------------------------------------------------------------------

pub fn to_pool_record_response(record: &PoolRecord) -> (r: PoolRecordResponse)
    ensures
        r.pool_id == record.pool_id && r.psp_pool == record.psp_pool && r.credit_manager == record.credit_manager
            && r.yield_distributor == record.yield_distributor && r.yield_reserve == record.yield_reserve
            && r.created_at == record.created_at,
{
    PoolRecordResponse {
        pool_id: record.pool_id,
        psp_pool: record.psp_pool.clone(),
        credit_manager: record.credit_manager.clone(),
        yield_distributor: record.yield_distributor.clone(),
        yield_reserve: record.yield_reserve.clone(),
        created_at: record.created_at,
    }
}

pub fn pool_response(record: &Option<PoolRecord>) -> (r: PoolResponse)
    ensures
        record is None <==> r.pool is None,
        record is Some ==> (r.pool matches Some(p) && p.pool_id == record->0.pool_id
            && p.psp_pool == record->0.psp_pool && p.credit_manager == record->0.credit_manager
            && p.yield_distributor == record->0.yield_distributor && p.yield_reserve == record->0.yield_reserve
            && p.created_at == record->0.created_at),
{
    match record {
        Some(rec) => PoolResponse { pool: Some(to_pool_record_response(rec)) },
        None => PoolResponse { pool: None },
    }
}

/// Page size of a pool listing: 20 by default, at most 50; zero is refused.
pub open spec fn pools_page_size(limit: Option<u32>) -> Option<int> {
    match limit {
        Some(0) => None,
        Some(v) => Some(if v < MAX_PAGE_LIMIT { v as int } else { MAX_PAGE_LIMIT as int }),
        None => Some(DEFAULT_PAGE_LIMIT as int),
    }
}

/// The pool ids above `start_after` (all when none), in order.
pub open spec fn pool_ids_after(records: Seq<PoolRecord>, start_after: Option<u64>) -> Seq<u64>
    decreases records.len(),
{
    if records.len() == 0 {
        Seq::empty()
    } else {
        let p = pool_ids_after(records.drop_last(), start_after);
        if start_after is None || records.last().pool_id > start_after->0 { p.push(records.last().pool_id) } else { p }
    }
}

/// A page of pools after `start_after`; `records` are all registered pools in id
/// order.
pub fn pools_page(records: &Vec<PoolRecord>, start_after: Option<u64>, limit: Option<u32>) -> (res: Result<PoolsResponse, PoolFactoryError>)
    ensures
        pools_page_size(limit) is None ==> res == Err::<PoolsResponse, PoolFactoryError>(PoolFactoryError::InvalidPaginationLimit),
        pools_page_size(limit) is Some ==> (res matches Ok(r) && {
            let all = pool_ids_after(records@, start_after);
            let n = pools_page_size(limit)->0;
            r.pools@.map_values(|p: PoolRecordResponse| p.pool_id) == all.take(if all.len() < n { all.len() as int } else { n })
        }),
{
    let n: usize = match limit {
        Some(0) => {
            return Err(PoolFactoryError::InvalidPaginationLimit);
        },
        Some(v) => if v < MAX_PAGE_LIMIT { v as usize } else { MAX_PAGE_LIMIT as usize },
        None => DEFAULT_PAGE_LIMIT as usize,
    };
    let mut out: Vec<PoolRecordResponse> = Vec::new();
    let mut i: usize = 0;
    while i < records.len()
        invariant
            i <= records@.len(),
            n == pools_page_size(limit)->0,
            ({
                let all = pool_ids_after(records@.subrange(0, i as int), start_after);
                out@.map_values(|p: PoolRecordResponse| p.pool_id) == all.take(if all.len() < n { all.len() as int } else { n as int })
            }),
            out@.len() <= n,
        decreases records@.len() - i,
    {
        let ghost prefix = records@.subrange(0, i as int + 1);
        let ghost before = pool_ids_after(records@.subrange(0, i as int), start_after);
        let ghost ids = out@.map_values(|p: PoolRecordResponse| p.pool_id);
        proof {
            assert(prefix.drop_last() =~= records@.subrange(0, i as int));
            assert(ids.len() == out@.len());
            if before.len() < n {
                assert(out@.len() == before.len());
            } else {
                assert(out@.len() == n);
            }
        }
        let rec = &records[i];
        let after = match start_after {
            Some(s) => rec.pool_id > s,
            None => true,
        };
        let ghost now_all = pool_ids_after(prefix, start_after);
        if after {
            assert(now_all == before.push(records@[i as int].pool_id));
            if out.len() < n {
                out.push(to_pool_record_response(rec));
                proof {
                    assert(out@.map_values(|p: PoolRecordResponse| p.pool_id) =~= ids.push(rec.pool_id));
                    assert(before.take(before.len() as int) =~= before);
                    assert(now_all.take(now_all.len() as int) =~= now_all);
                }
            } else {
                proof {
                    assert(now_all.take(n as int) =~= before.take(n as int));
                }
            }
        } else {
            assert(now_all == before);
        }
        i = i + 1;
    }
    proof {
        assert(records@.subrange(0, records@.len() as int) =~= records@);
    }
    Ok(PoolsResponse { pools: out })
}

} // verus!
