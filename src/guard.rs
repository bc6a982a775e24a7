//! Spending guards: records attached to a profile that check each transfer
//! of value against a budget.
//!
//! A guard record is laid out as
//! `target:32 | guard kind:1 | guarded:32 | transfer_amount_remaining:8 | transfer_limit:8 |
//! transfer_interval:1 | last_transferred:8 | context`
//! where `context` is one byte 0, or one byte 1 followed by `balance_before:8`.
use vstd::bytes::*;
use vstd::prelude::*;

use crate::codec::{
    get_key, get_u64, lemma_key_len, lemma_key_eq, lemma_present_at_concat,
    present_at, put_key, put_u64,
};
use crate::error::KryptonError;
use crate::key::Key;

verus! {

/// Length of a guard record between transfers, when it holds no context.
pub const GUARD_ACCOUNT_LEN: usize = 91;

/// How often the transfer budget is renewed.
#[derive(Clone, Copy, Debug, PartialEq, Eq, Structural)]
pub enum NativeSolTransferInterval {
    /// At each change of the calendar date (UTC).
    Day,
}

/// What `setup` captured for the `run` that follows it.
#[derive(Clone, Copy, Debug, PartialEq, Eq, Structural)]
pub struct Context {
    pub balance_before: u64,
}

/// A daily limit on the native balance leaving the guarded account.
#[derive(Clone, Copy, Debug)]
pub struct NativeSolTransferGuard {
    pub guarded: Key,
    pub transfer_amount_remaining: u64,
    pub transfer_limit: u64,
    pub transfer_interval: NativeSolTransferInterval,
    /// Unix time of the last transfer.
    pub last_transferred: i64,
    /// Set by `setup`, taken by `run`; absent between transfers.
    pub context: Option<Context>,
}

/// The kinds of guard.
#[derive(Clone, Copy, Debug)]
pub enum Guard {
    NativeSolTransfer(NativeSolTransferGuard),
}

/// A guard and the profile it protects.
#[derive(Clone, Copy, Debug)]
pub struct GuardAccount {
    pub target: Key,
    pub guard: Guard,
}

/// The calendar day (days since 1 January of year 1) that chrono gives for a Unix time.
pub open spec fn day_of(ts: int) -> int {
    ts / 86400 + 719163
}

/// Unix times well inside chrono's range of dates (years -262143 to 262142):
/// about 253,000 years either side of 1970.
pub open spec fn in_date_range(ts: int) -> bool {
    -8_000_000_000_000 <= ts <= 8_000_000_000_000
}

/// Relies on chrono's `NaiveDateTime::from_timestamp_opt(ts, 0)`, `date` and
/// `Datelike::num_days_from_ce`: `DateTime::from_timestamp` takes day
/// `ts.div_euclid(86_400) + 719_163` counted from 1 January of year 1 and finds a
/// date for it whenever the year lies between -262143 and 262142, which holds
/// for every `ts` of `in_date_range`.
#[allow(deprecated)]
#[verifier::external_body]
fn calendar_day(ts: i64) -> (r: Option<i32>)
    ensures
        r matches Some(d) ==> d as int == day_of(ts as int),
        in_date_range(ts as int) ==> r is Some,
{
    chrono::NaiveDateTime::from_timestamp_opt(ts, 0).map(
        |t| chrono::Datelike::num_days_from_ce(&t.date()),
    )
}

/// The balance of the first entry for `k`, if any.
pub open spec fn balance_of(balances: Seq<(Key, u64)>, k: Key) -> Option<u64>
    decreases balances.len(),
{
    if balances.len() == 0 {
        None
    } else if balances[0].0@ == k@ {
        Some(balances[0].1)
    } else {
        balance_of(balances.drop_first(), k)
    }
}

/// Two balance lists over the same keys find the same keys.
pub proof fn lemma_balance_of_same_keys(a: Seq<(Key, u64)>, b: Seq<(Key, u64)>, k: Key)
    requires
        a.len() == b.len(),
        forall|i: int| 0 <= i < a.len() ==> a[i].0 == b[i].0,
    ensures
        balance_of(a, k) is Some <==> balance_of(b, k) is Some,
    decreases a.len(),
{
    if a.len() > 0 {
        assert(a[0].0 == b[0].0);
        let (ta, tb) = (a.drop_first(), b.drop_first());
        assert forall|i: int| 0 <= i < ta.len() implies ta[i].0 == tb[i].0 by {
            assert(ta[i] == a[i + 1] && tb[i] == b[i + 1]);
        }
        lemma_balance_of_same_keys(ta, tb, k);
    }
}

/// The balance of the first entry for `k`, with `balance_of`'s meaning.
fn lookup(balances: &Vec<(Key, u64)>, k: &Key) -> (r: Option<u64>)
    ensures
        r == balance_of(balances@, *k),
{
    let mut i: usize = 0;
    assert(balances@.subrange(0, balances@.len() as int) =~= balances@);
    while i < balances.len()
        invariant
            i <= balances@.len(),
            balance_of(balances@, *k) == balance_of(
                balances@.subrange(i as int, balances@.len() as int),
                *k,
            ),
        decreases balances@.len() - i,
    {
        let ghost rest = balances@.subrange(i as int, balances@.len() as int);
        assert(rest.drop_first() =~= balances@.subrange(i + 1, balances@.len() as int));
        assert(rest[0] == balances@[i as int]);
        if balances[i].0.same(k) {
            return Some(balances[i].1);
        }
        i = i + 1;
    }
    None
}

/// The budget `run` checks a transfer against: what is left today, or the
/// whole limit on a new day.
pub open spec fn budget_on(g: NativeSolTransferGuard, now: int) -> int {
    if day_of(g.last_transferred as int) == day_of(now) {
        g.transfer_amount_remaining as int
    } else {
        g.transfer_limit as int
    }
}

impl NativeSolTransferGuard {
    /// A guard on `guarded` allowing `transfer_limit` per interval, with the whole
    /// limit available.
    pub fn new(guarded: &Key, transfer_limit: u64, transfer_interval: NativeSolTransferInterval) -> (r: Self)
        ensures
            r == (NativeSolTransferGuard {
                guarded: *guarded,
                transfer_amount_remaining: transfer_limit,
                transfer_limit,
                transfer_interval,
                last_transferred: 0,
                context: None,
            }),
    {
        NativeSolTransferGuard {
            guarded: *guarded,
            transfer_amount_remaining: transfer_limit,
            transfer_limit,
            transfer_interval,
            last_transferred: 0,
            context: None,
        }
    }

    /// The calendar day of the last transfer.
    pub fn last_transferred(&self) -> (r: Result<i32, KryptonError>)
        ensures
            r matches Ok(d) ==> d as int == day_of(self.last_transferred as int),
            r matches Err(e) ==> e == KryptonError::InvalidDateTime,
            in_date_range(self.last_transferred as int) ==> r is Ok,
    {
        match calendar_day(self.last_transferred) {
            Some(d) => Ok(d),
            None => Err(KryptonError::InvalidDateTime),
        }
    }

    /// Captures the guarded account's balance before a transfer.
    pub fn setup(&mut self, balances: &Vec<(Key, u64)>) -> (r: Result<(), KryptonError>)
        ensures
            match balance_of(balances@, old(self).guarded) {
                Some(a) => r is Ok && *final(self) == (NativeSolTransferGuard {
                    context: Some(Context { balance_before: a }),
                    ..*old(self)
                }),
                None => r == Err::<(), KryptonError>(KryptonError::TargetAccountNotFound)
                    && *final(self) == *old(self),
            },
    {
        match lookup(balances, &self.guarded) {
            Some(l) => {
                self.context = Some(Context { balance_before: l });
                Ok(())
            },
            None => Err(KryptonError::TargetAccountNotFound),
        }
    }

    /// Charges what left the guarded account since `setup` to the budget of
    /// the day of `now`, and takes the context. Fails, with the budget and
    /// the time of the last transfer unchanged, where the context is absent,
    /// the guarded account is missing, its balance grew, a date is out of
    /// range, or the budget does not cover the amount.
    pub fn run(&mut self, balances: &Vec<(Key, u64)>, now: i64) -> (r: Result<(), KryptonError>)
        ensures
            final(self).guarded == old(self).guarded,
            final(self).transfer_limit == old(self).transfer_limit,
            final(self).transfer_interval == old(self).transfer_interval,
            final(self).context is None,
            r is Ok ==> {
                let before = old(self).context.unwrap().balance_before;
                let after = balance_of(balances@, old(self).guarded).unwrap();
                &&& old(self).context is Some
                &&& balance_of(balances@, old(self).guarded) is Some
                &&& after <= before
                &&& before - after <= budget_on(*old(self), now as int)
                &&& final(self).transfer_amount_remaining == budget_on(*old(self), now as int) - (
                before - after)
                &&& final(self).last_transferred == now
            },
            r is Err ==> {
                &&& final(self).transfer_amount_remaining == old(self).transfer_amount_remaining
                &&& final(self).last_transferred == old(self).last_transferred
            },
            old(self).context is None ==> r == Err::<(), KryptonError>(
                KryptonError::GuardContextNotFound,
            ),
            old(self).context is Some && balance_of(balances@, old(self).guarded) is None ==> r
                == Err::<(), KryptonError>(KryptonError::TargetAccountNotFound),
            old(self).context is Some && balance_of(balances@, old(self).guarded) is Some
                && balance_of(balances@, old(self).guarded).unwrap() > old(
                self,
            ).context.unwrap().balance_before ==> r == Err::<(), KryptonError>(
                KryptonError::ArithmeticOverflow,
            ),
            old(self).context is Some && balance_of(balances@, old(self).guarded) is Some
                && balance_of(balances@, old(self).guarded).unwrap() <= old(
                self,
            ).context.unwrap().balance_before && old(self).context.unwrap().balance_before
                - balance_of(balances@, old(self).guarded).unwrap() > budget_on(
                *old(self),
                now as int,
            ) ==> r is Err,
            old(self).context is Some && balance_of(balances@, old(self).guarded) is Some
                && balance_of(balances@, old(self).guarded).unwrap() <= old(
                self,
            ).context.unwrap().balance_before && old(self).context.unwrap().balance_before
                - balance_of(balances@, old(self).guarded).unwrap() <= budget_on(
                *old(self),
                now as int,
            ) && in_date_range(old(self).last_transferred as int) && in_date_range(now as int)
                ==> r is Ok,
    {
        let ctx = match self.context.take() {
            Some(c) => c,
            None => {
                return Err(KryptonError::GuardContextNotFound);
            },
        };
        let after = match lookup(balances, &self.guarded) {
            Some(l) => l,
            None => {
                return Err(KryptonError::TargetAccountNotFound);
            },
        };
        if after > ctx.balance_before {
            return Err(KryptonError::ArithmeticOverflow);
        }
        let desired_transfer_amount = ctx.balance_before - after;
        let date_last_transferred = self.last_transferred()?;
        let today = match calendar_day(now) {
            Some(d) => d,
            None => {
                return Err(KryptonError::InvalidDateTime);
            },
        };
        let transfer_budget = if date_last_transferred == today {
            self.transfer_amount_remaining
        } else {
            self.transfer_limit
        };
        match transfer_budget.checked_sub(desired_transfer_amount) {
            Some(new_amount_remaining) => {
                self.transfer_amount_remaining = new_amount_remaining;
                self.last_transferred = now;
                Ok(())
            },
            None => Err(KryptonError::InsufficientFundsForTransaction),
        }
    }
}

} // verus!

verus! {

pub open spec fn context_bytes(c: Option<Context>) -> Seq<u8> {
    match c {
        None => seq![0u8],
        Some(x) => seq![1u8] + spec_u64_to_le_bytes(x.balance_before),
    }
}

/// Serialized form of a guard record.
pub open spec fn guard_record_bytes(a: GuardAccount) -> Seq<u8> {
    match a.guard {
        Guard::NativeSolTransfer(g) => a.target@ + seq![0u8] + g.guarded@ + spec_u64_to_le_bytes(
            g.transfer_amount_remaining,
        ) + spec_u64_to_le_bytes(g.transfer_limit) + seq![0u8] + spec_u64_to_le_bytes(
            g.last_transferred as u64,
        ) + context_bytes(g.context),
    }
}

/// Where each field of a serialized guard record stands.
proof fn lemma_guard_parts(a: GuardAccount, data: Seq<u8>)
    requires
        present_at(guard_record_bytes(a), data, 0),
    ensures
        ({
            let Guard::NativeSolTransfer(g) = a.guard;
            &&& present_at(a.target@, data, 0)
            &&& data[32] == 0
            &&& present_at(g.guarded@, data, 33)
            &&& present_at(spec_u64_to_le_bytes(g.transfer_amount_remaining), data, 65)
            &&& present_at(spec_u64_to_le_bytes(g.transfer_limit), data, 73)
            &&& data[81] == 0
            &&& present_at(spec_u64_to_le_bytes(g.last_transferred as u64), data, 82)
            &&& present_at(context_bytes(g.context), data, 90)
            &&& data.len() >= 91
        }),
{
    let Guard::NativeSolTransfer(g) = a.guard;
    lemma_key_len(a.target);
    lemma_key_len(g.guarded);
    lemma_auto_spec_u64_to_from_le_bytes();
    let p1 = a.target@ + seq![0u8];
    let p2 = p1 + g.guarded@;
    let p3 = p2 + spec_u64_to_le_bytes(g.transfer_amount_remaining);
    let p4 = p3 + spec_u64_to_le_bytes(g.transfer_limit);
    let p5 = p4 + seq![0u8];
    let p6 = p5 + spec_u64_to_le_bytes(g.last_transferred as u64);
    lemma_present_at_concat(p6, context_bytes(g.context), data, 0);
    lemma_present_at_concat(p5, spec_u64_to_le_bytes(g.last_transferred as u64), data, 0);
    lemma_present_at_concat(p4, seq![0u8], data, 0);
    lemma_present_at_concat(p3, spec_u64_to_le_bytes(g.transfer_limit), data, 0);
    lemma_present_at_concat(p2, spec_u64_to_le_bytes(g.transfer_amount_remaining), data, 0);
    lemma_present_at_concat(p1, g.guarded@, data, 0);
    lemma_present_at_concat(a.target@, seq![0u8], data, 0);
    assert(data.subrange(32, 33)[0] == data[32]);
    assert(data.subrange(81, 82)[0] == data[81]);
    assert(context_bytes(g.context).len() >= 1);
}

proof fn lemma_u64_at(x: u64, y: u64, data: Seq<u8>, pos: int)
    requires
        present_at(spec_u64_to_le_bytes(x), data, pos),
        y == spec_u64_from_le_bytes(data.subrange(pos, pos + 8)),
    ensures
        x == y,
{
    lemma_auto_spec_u64_to_from_le_bytes();
}

fn get_byte(data: &[u8], pos: usize) -> (r: Option<u8>)
    ensures
        r is Some <==> pos < data@.len(),
        r matches Some(b) ==> b == data@[pos as int],
{
    if pos < data.len() {
        Some(data[pos])
    } else {
        None
    }
}

impl GuardAccount {
    /// The serialized form of the record.
    pub fn serialize(&self) -> (r: Vec<u8>)
        ensures
            r@ == guard_record_bytes(*self),
    {
        let Guard::NativeSolTransfer(g) = self.guard;
        let mut out: Vec<u8> = Vec::new();
        put_key(&mut out, &self.target);
        out.push(0u8);
        put_key(&mut out, &g.guarded);
        put_u64(&mut out, g.transfer_amount_remaining);
        put_u64(&mut out, g.transfer_limit);
        out.push(0u8);
        put_u64(&mut out, #[verifier::truncate] (g.last_transferred as u64));
        match g.context {
            None => {
                out.push(0u8);
            },
            Some(c) => {
                out.push(1u8);
                put_u64(&mut out, c.balance_before);
            },
        }
        assert(out@ =~= guard_record_bytes(*self));
        out
    }

    /// Reads the guard record stored at the front of `data`.
    pub fn deserialize(data: &[u8]) -> (r: Option<GuardAccount>)
        ensures
            r matches Some(a) ==> present_at(guard_record_bytes(a), data@, 0),
            forall|a: GuardAccount|
                #![trigger present_at(guard_record_bytes(a), data@, 0)]
                present_at(guard_record_bytes(a), data@, 0) ==> (r matches Some(b) && b == a),
    {
        if data.len() < GUARD_ACCOUNT_LEN {
            assert forall|a: GuardAccount| #[trigger]
                present_at(guard_record_bytes(a), data@, 0) implies false by {
                lemma_guard_parts(a, data@);
            }
            return None;
        }
        let target = get_key(data, 0).unwrap();
        let guarded = get_key(data, 33).unwrap();
        let remaining = get_u64(data, 65).unwrap();
        let limit = get_u64(data, 73).unwrap();
        let last = get_u64(data, 82).unwrap();
        if data[32] != 0 || data[81] != 0 {
            assert forall|a: GuardAccount| #[trigger]
                present_at(guard_record_bytes(a), data@, 0) implies false by {
                lemma_guard_parts(a, data@);
            }
            return None;
        }
        let context = if data[90] == 0 {
            None
        } else if data[90] == 1 {
            match get_u64(data, 91) {
                Some(b) => Some(Context { balance_before: b }),
                None => {
                    assert forall|a: GuardAccount| #[trigger]
                        present_at(guard_record_bytes(a), data@, 0) implies false by {
                        lemma_guard_parts(a, data@);
                        let Guard::NativeSolTransfer(g) = a.guard;
                        lemma_auto_spec_u64_to_from_le_bytes();
                        if g.context is None {
                            assert(data@.subrange(90, 91)[0] == data@[90]);
                        }
                    }
                    return None;
                },
            }
        } else {
            assert forall|a: GuardAccount| #[trigger]
                present_at(guard_record_bytes(a), data@, 0) implies false by {
                lemma_guard_parts(a, data@);
                assert(data@.subrange(90, 91)[0] == data@[90]);
            }
            return None;
        };
        let r = GuardAccount {
            target,
            guard: Guard::NativeSolTransfer(
                NativeSolTransferGuard {
                    guarded,
                    transfer_amount_remaining: remaining,
                    transfer_limit: limit,
                    transfer_interval: NativeSolTransferInterval::Day,
                    last_transferred: #[verifier::truncate] (last as i64),
                    context,
                },
            ),
        };
        proof {
            lemma_auto_spec_u64_to_from_le_bytes();
            lemma_key_len(target);
            lemma_key_len(guarded);
            let n = guard_record_bytes(r).len();
            assert(data@.subrange(65, 73) =~= spec_u64_to_le_bytes(remaining));
            assert(data@.subrange(73, 81) =~= spec_u64_to_le_bytes(limit));
            assert((last as i64) as u64 == last) by (bit_vector);
            assert(data@.subrange(82, 90) =~= spec_u64_to_le_bytes(last));
            if context is Some {
                assert(data@.subrange(91, 99) =~= spec_u64_to_le_bytes(context.unwrap().balance_before));
            }
            assert(data@.subrange(0, n as int) =~= guard_record_bytes(r));
            assert forall|a: GuardAccount| #[trigger]
                present_at(guard_record_bytes(a), data@, 0) implies r == a by {
                lemma_guard_parts(a, data@);
                let Guard::NativeSolTransfer(g) = a.guard;
                lemma_key_eq(a.target, target);
                lemma_key_eq(g.guarded, guarded);
                lemma_u64_at(g.transfer_amount_remaining, remaining, data@, 65);
                lemma_u64_at(g.transfer_limit, limit, data@, 73);
                lemma_u64_at(g.last_transferred as u64, last, data@, 82);
                let lt = g.last_transferred;
                assert((lt as u64) as i64 == lt) by (bit_vector);
                assert(data@.subrange(90, 91)[0] == data@[90]);
                match g.context {
                    None => {},
                    Some(c) => {
                        lemma_present_at_concat(
                            seq![1u8],
                            spec_u64_to_le_bytes(c.balance_before),
                            data@,
                            90,
                        );
                        lemma_u64_at(c.balance_before, context.unwrap().balance_before, data@, 91);
                    },
                }
                assert(g.transfer_interval == NativeSolTransferInterval::Day);
            }
        }
        Some(r)
    }
}

} // verus!

verus! {

/// A guard record takes 91 bytes, and 8 more while it holds a context.
pub proof fn lemma_guard_record_len(a: GuardAccount)
    ensures
        guard_record_bytes(a).len() == GUARD_ACCOUNT_LEN + if guard_of_record(a).context is Some {
            8int
        } else {
            0int
        },
{
    let Guard::NativeSolTransfer(g) = a.guard;
    lemma_key_len(a.target);
    lemma_key_len(g.guarded);
    lemma_auto_spec_u64_to_from_le_bytes();
    assert(spec_u64_to_le_bytes(g.transfer_amount_remaining).len() == 8);
    assert(spec_u64_to_le_bytes(g.transfer_limit).len() == 8);
    assert(spec_u64_to_le_bytes(g.last_transferred as u64).len() == 8);
    if g.context is Some {
        assert(spec_u64_to_le_bytes(g.context.unwrap().balance_before).len() == 8);
    }
}

pub open spec fn guard_of_record(a: GuardAccount) -> NativeSolTransferGuard {
    let Guard::NativeSolTransfer(g) = a.guard;
    g
}

} // verus!
