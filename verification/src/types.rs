use vstd::prelude::*;

verus! {

pub const SECONDS_PER_DAY: u64 = 86_400;
pub const SECONDS_PER_WEEK: u64 = 604_800;
pub const APY_DAYS_BASIS: u64 = 360;
pub const BPS_DENOMINATOR: u64 = 10_000;
pub const UNIX_EPOCH_DAY_OF_WEEK_OFFSET: u64 = 4;
pub const MONDAY: u8 = 1;
/// Block timestamps are carried in nanoseconds; this converts seconds to them.
pub const NANOS_PER_SECOND: u64 = 1_000_000_000;

/// Lifecycle of a facility.
#[derive(Clone, Copy, Debug, PartialEq, Eq, Structural)]
pub enum PoolState {
    Fundraising,
    Active,
    WindingDown,
    Settled,
    Closed,
}

/// The position of a lifecycle state; the lifecycle only moves forward.
pub open spec fn pool_state_rank(s: PoolState) -> int {
    match s {
        PoolState::Fundraising => 0,
        PoolState::Active => 1,
        PoolState::WindingDown => 2,
        PoolState::Settled => 3,
        PoolState::Closed => 4,
    }
}

/// The name a lifecycle state is reported under.
pub open spec fn pool_state_name(s: PoolState) -> Seq<char> {
    match s {
        PoolState::Fundraising => seq!['F', 'u', 'n', 'd', 'r', 'a', 'i', 's', 'i', 'n', 'g'],
        PoolState::Active => seq!['A', 'c', 't', 'i', 'v', 'e'],
        PoolState::WindingDown => seq!['W', 'i', 'n', 'd', 'i', 'n', 'g', 'D', 'o', 'w', 'n'],
        PoolState::Settled => seq!['S', 'e', 't', 't', 'l', 'e', 'd'],
        PoolState::Closed => seq!['C', 'l', 'o', 's', 'e', 'd'],
    }
}

/// Appends `c` to `s` with `String::push`.
#[verifier::external_body]
pub fn string_push(s: &mut String, c: char)
    ensures
        final(s)@ == old(s)@.push(c),
{
    s.push(c)
}

/// Builds a `String` holding exactly the given characters.
pub fn string_from_chars(chars: &Vec<char>) -> (s: String)
    ensures
        s@ == chars@,
{
    let mut s = String::new();
    let mut i: usize = 0;
    while i < chars.len()
        invariant
            i <= chars.len(),
            s@ =~= chars@.subrange(0, i as int),
        decreases chars.len() - i,
    {
        string_push(&mut s, chars[i]);
        assert(chars@.subrange(0, i as int + 1) =~= chars@.subrange(0, i as int).push(chars@[i as int]));
        i = i + 1;
    }
    assert(chars@.subrange(0, chars.len() as int) =~= chars@);
    s
}

impl PoolState {
    /// The state's name, as its `Debug` rendering spells it.
    pub fn name(&self) -> (s: String)
        ensures
            s@ == pool_state_name(*self),
    {
        let mut v: Vec<char> = Vec::new();
        match self {
            PoolState::Fundraising => {
                v.push('F'); v.push('u'); v.push('n'); v.push('d'); v.push('r'); v.push('a');
                v.push('i'); v.push('s'); v.push('i'); v.push('n'); v.push('g');
            },
            PoolState::Active => {
                v.push('A'); v.push('c'); v.push('t'); v.push('i'); v.push('v'); v.push('e');
            },
            PoolState::WindingDown => {
                v.push('W'); v.push('i'); v.push('n'); v.push('d'); v.push('i'); v.push('n');
                v.push('g'); v.push('D'); v.push('o'); v.push('w'); v.push('n');
            },
            PoolState::Settled => {
                v.push('S'); v.push('e'); v.push('t'); v.push('t'); v.push('l'); v.push('e'); v.push('d');
            },
            PoolState::Closed => {
                v.push('C'); v.push('l'); v.push('o'); v.push('s'); v.push('e'); v.push('d');
            },
        }
        assert(v@ =~= pool_state_name(*self));
        string_from_chars(&v)
    }
}

/// Repayment status of a drawdown.
#[derive(Clone, Copy, Debug, PartialEq, Eq, Structural)]
pub enum DrawdownStatus {
    Active,
    Overdue,
    Settled,
}

/// A principal disbursement to the PSP and its repayment record.
#[derive(Clone, Debug)]
pub struct Drawdown {
    pub id: u64,
    pub principal: u128,
    pub timestamp: u64,
    pub due_date: u64,
    pub status: DrawdownStatus,
    pub settled_at: Option<u64>,
    pub fee_paid: Option<u128>,
}

/// One coin of the funds attached to a message.
#[derive(Clone, Debug)]
pub struct Fund {
    pub denom: String,
    pub amount: u128,
}

/// A bank transfer the caller is to perform.
#[derive(Clone, Debug)]
pub struct Transfer {
    pub to_address: String,
    pub denom: String,
    pub amount: u128,
}

/// Parameters of a facility.
#[derive(Clone, Debug)]
pub struct PoolInitParams {
    pub hard_cap: u128,
    pub soft_cap: u128,
    pub facility_tenure_days: u64,
    pub psp_rate_bps_per_day: u64,
    pub investor_apy_bps: u64,
    pub drawdown_limit: u128,
    pub drawdown_tenor_days: u64,
    pub penalty_rate_bps_per_day: u64,
    pub withdrawal_window_day: u8,
    pub yield_cycle_days: u64,
    pub max_queue_wait_days: Option<u64>,
    pub psp_address: String,
    pub psp_identifier: String,
    pub credit_manager: String,
    pub yield_distributor: String,
    pub yield_reserve: String,
}

/// The message that the address-validation bypass reports when it is not enabled.
pub open spec fn bypass_disabled_message() -> Seq<char> {
    "addr_validate_bypass called without test-addr-bypass feature"@
}

/// Address validation bypass as built without the test feature: it refuses
/// every address, since production code must validate addresses with the chain.
pub fn addr_validate_bypass(addr: &str) -> (res: Result<String, String>)
    ensures
        res matches Err(m) && m@ == bypass_disabled_message(),
{
    let m = "addr_validate_bypass called without test-addr-bypass feature";
    let s = m.to_string();
    proof {
        broadcast use vstd::string::to_string_from_display_ensures_for_str;
    }
    Err(s)
}

/// Lexicographic order on byte strings: `a` sorts strictly before `b`.
pub open spec fn bytes_lt(a: Seq<u8>, b: Seq<u8>) -> bool
    decreases a.len(),
{
    if a.len() == 0 {
        b.len() > 0
    } else if b.len() == 0 {
        false
    } else if a[0] != b[0] {
        a[0] < b[0]
    } else {
        bytes_lt(a.drop_first(), b.drop_first())
    }
}

/// String order as `Ord for String` defines it: lexicographic on the UTF-8 bytes.
pub open spec fn string_lt(a: Seq<char>, b: Seq<char>) -> bool {
    bytes_lt(vstd::utf8::encode_utf8(a), vstd::utf8::encode_utf8(b))
}

proof fn lemma_bytes_lt_suffix(a: Seq<u8>, b: Seq<u8>, i: int)
    requires
        0 <= i <= a.len(),
        i <= b.len(),
        forall|k: int| 0 <= k < i ==> a[k] == b[k],
    ensures
        bytes_lt(a, b) == bytes_lt(a.subrange(i, a.len() as int), b.subrange(i, b.len() as int)),
    decreases i,
{
    if i > 0 {
        assert(a.drop_first().subrange(i - 1, a.drop_first().len() as int) =~= a.subrange(i, a.len() as int));
        assert(b.drop_first().subrange(i - 1, b.drop_first().len() as int) =~= b.subrange(i, b.len() as int));
        lemma_bytes_lt_suffix(a.drop_first(), b.drop_first(), i - 1);
    } else {
        assert(a.subrange(0, a.len() as int) =~= a);
        assert(b.subrange(0, b.len() as int) =~= b);
    }
}

/// Whether `a` sorts strictly before `b` as strings.
pub fn string_less(a: &String, b: &String) -> (r: bool)
    ensures
        r == string_lt(a@, b@),
{
    let x = a.as_str().as_bytes();
    let y = b.as_str().as_bytes();
    let mut i: usize = 0;
    while i < x.len() && i < y.len()
        invariant
            x@ == vstd::utf8::encode_utf8(a@),
            y@ == vstd::utf8::encode_utf8(b@),
            i <= x@.len(),
            i <= y@.len(),
            forall|k: int| 0 <= k < i ==> x@[k] == y@[k],
        decreases x@.len() - i,
    {
        if x[i] != y[i] {
            proof {
                lemma_bytes_lt_suffix(x@, y@, i as int);
            }
            return x[i] < y[i];
        }
        i = i + 1;
    }
    proof {
        lemma_bytes_lt_suffix(x@, y@, i as int);
    }
    i < y.len()
}

proof fn lemma_bytes_lt_irreflexive(a: Seq<u8>)
    ensures
        !bytes_lt(a, a),
    decreases a.len(),
{
    if a.len() > 0 {
        lemma_bytes_lt_irreflexive(a.drop_first());
    }
}

proof fn lemma_bytes_lt_transitive(a: Seq<u8>, b: Seq<u8>, c: Seq<u8>)
    requires
        bytes_lt(a, b),
        bytes_lt(b, c),
    ensures
        bytes_lt(a, c),
    decreases a.len(),
{
    if a.len() > 0 && b.len() > 0 && c.len() > 0 && a[0] == b[0] && b[0] == c[0] {
        lemma_bytes_lt_transitive(a.drop_first(), b.drop_first(), c.drop_first());
    }
}

proof fn lemma_bytes_lt_total(a: Seq<u8>, b: Seq<u8>)
    requires
        a != b,
    ensures
        bytes_lt(a, b) || bytes_lt(b, a),
    decreases a.len(),
{
    if a.len() > 0 && b.len() > 0 && a[0] == b[0] {
        if a.drop_first() == b.drop_first() {
            assert(a =~= seq![a[0]] + a.drop_first());
            assert(b =~= seq![b[0]] + b.drop_first());
        }
        lemma_bytes_lt_total(a.drop_first(), b.drop_first());
    } else if a.len() == 0 && b.len() == 0 {
        assert(a =~= b);
    }
}

/// String order is a strict total order.
pub proof fn lemma_string_lt_order(a: Seq<char>, b: Seq<char>, c: Seq<char>)
    ensures
        !string_lt(a, a),
        string_lt(a, b) && string_lt(b, c) ==> string_lt(a, c),
        a != b ==> string_lt(a, b) || string_lt(b, a),
{
    let ea = vstd::utf8::encode_utf8(a);
    let eb = vstd::utf8::encode_utf8(b);
    let ec = vstd::utf8::encode_utf8(c);
    lemma_bytes_lt_irreflexive(ea);
    if string_lt(a, b) && string_lt(b, c) {
        lemma_bytes_lt_transitive(ea, eb, ec);
    }
    if a != b {
        vstd::utf8::encode_utf8_decode_utf8(a);
        vstd::utf8::encode_utf8_decode_utf8(b);
        lemma_bytes_lt_total(ea, eb);
    }
}

/// Whether a string holds exactly the given text.
pub fn text_equals(a: &String, b: &str) -> (r: bool)
    ensures
        r == (a@ == b@),
{
    let t = b.to_string();
    proof {
        broadcast use vstd::string::to_string_from_display_ensures_for_str;
    }
    *a == t
}

} // verus!
