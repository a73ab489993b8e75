//! Rules of the printer subsystem: page limits from credit balances, the
//! settlement of counters against the credit ledger, and the daily full sync.
use crate::http::models::{uuid_chars, uuid_text};
use vstd::prelude::*;
use vstd::string::StringExecFns;

verus! {

/// State of a queued subsystem job.
#[derive(Clone, Copy, Debug, PartialEq, Eq, Structural)]
pub enum JobStatus {
    Pending,
    Processing,
    Done,
    Error,
}

/// A task of the printer subsystem.
#[derive(Clone, Copy, Debug, PartialEq, Eq, Structural)]
pub enum JobData {
    SyncAccount { account_id: u128 },
    FullSync,
    Refresh,
    UpdateAccountLimit { account_id: u128 },
    DeleteAccount { printer_id: i32 },
}

pub open spec fn job_kind_name(j: JobData) -> Seq<char> {
    match j {
        JobData::SyncAccount { .. } => "sync_account"@,
        JobData::FullSync => "full_sync"@,
        JobData::Refresh => "refresh"@,
        JobData::UpdateAccountLimit { .. } => "update_account_limit"@,
        JobData::DeleteAccount { .. } => "delete_account"@,
    }
}

impl JobData {
    /// The task's type tag, as stored in the job queue.
    pub fn kind(&self) -> (s: String)
        ensures
            s@ == job_kind_name(*self),
    {
        match self {
            JobData::SyncAccount { .. } => String::from_str("sync_account"),
            JobData::FullSync => String::from_str("full_sync"),
            JobData::Refresh => String::from_str("refresh"),
            JobData::UpdateAccountLimit { .. } => String::from_str("update_account_limit"),
            JobData::DeleteAccount { .. } => String::from_str("delete_account"),
        }
    }
}

/// Login data of a printer account.
#[derive(Clone, Debug)]
pub struct AccountInfo {
    pub email: String,
    pub username: String,
    pub password: String,
}

/// Failures of a printer request.
#[derive(Debug)]
pub enum PrinterRequestError {
    XMLError,
    /// The referenced account does not exist on the device.
    AccountNotFound,
    /// The device answered with an error code, if it gave one.
    Failure(Option<String>),
    /// The HTTP request itself failed.
    Reqwest,
}

pub open spec fn printer_error_text(e: PrinterRequestError) -> Seq<char> {
    match e {
        PrinterRequestError::Failure(code) => "Request returned an error code: "@ + match code {
            Some(c) => c@,
            None => "<unknown>"@,
        },
        PrinterRequestError::XMLError => "Printer returned unexpected XML."@,
        PrinterRequestError::AccountNotFound => "Printer account not found"@,
        PrinterRequestError::Reqwest => "Reqwest error"@,
    }
}

impl PrinterRequestError {
    /// The error as a sentence.
    pub fn message(&self) -> (s: String)
        ensures
            s@ == printer_error_text(*self),
    {
        match self {
            PrinterRequestError::Failure(code) => {
                let mut s = String::from_str("Request returned an error code: ");
                match code {
                    Some(c) => s.append(c.as_str()),
                    None => s.append("<unknown>"),
                }
                s
            },
            PrinterRequestError::XMLError => String::from_str("Printer returned unexpected XML."),
            PrinterRequestError::AccountNotFound => String::from_str("Printer account not found"),
            PrinterRequestError::Reqwest => String::from_str("Reqwest error"),
        }
    }
}

/// The page limit of a product: the pages already printed plus what the
/// balance buys, capped at the device maximum. A missing or non-positive
/// price means the product is free, and a missing balance means unlimited
/// credit: both give no limit. A negative balance buys nothing.
pub open spec fn limit_value(price: Option<i32>, counter: i32, balance: Option<i32>) -> Option<int> {
    match (price, balance) {
        (Some(p), Some(b)) if p > 0 => {
            let bought = if b > 0 { b / p } else { 0 };
            Some(if counter + bought < 65535 { counter + bought } else { 65535 })
        },
        _ => None,
    }
}

/// The device-side limit: the limit value as the device's 16-bit counter
/// holds it.
pub open spec fn page_limit_spec(price: Option<i32>, counter: i32, balance: Option<i32>) -> Option<u16> {
    match limit_value(price, counter, balance) {
        Some(v) => Some(v as u16),
        None => None,
    }
}

/// The page limit to set on the device for one product (see `limit_value`).
pub fn page_limit(price: Option<i32>, counter: i32, balance: Option<i32>) -> (r: Option<u16>)
    ensures
        r == page_limit_spec(price, counter, balance),
{
    match (price, balance) {
        (Some(p), Some(b)) => {
            if p <= 0 {
                return None;
            }
            let bought: i64 = if b > 0 {
                (b / p) as i64
            } else {
                0
            };
            let total: i64 = counter as i64 + bought;
            let capped: i64 = if total < 65535 {
                total
            } else {
                65535
            };
            Some(capped as u16)
        },
        _ => None,
    }
}

/// More credit never lowers a page limit.
pub proof fn law_limit_grows_with_balance(price: i32, counter: i32, b1: i32, b2: i32)
    requires
        price > 0,
        b1 <= b2,
    ensures
        limit_value(Some(price), counter, Some(b1))->0 <= limit_value(Some(price), counter, Some(b2))->0,
{
    if b1 > 0 {
        assert(b1 / price <= b2 / price) by (nonlinear_arith)
            requires
                0 < b1 <= b2,
                price > 0,
        ;
    } else if b2 > 0 {
        assert(b2 / price >= 0) by (nonlinear_arith)
            requires
                b2 > 0,
                price > 0,
        ;
    }
}

/// A free product, or an account with unlimited credit, gets no limit.
pub proof fn law_free_or_unlimited_has_no_limit(price: Option<i32>, counter: i32, balance: Option<i32>)
    ensures
        (price is None || price->0 <= 0 || balance is None) ==> page_limit_spec(
            price,
            counter,
            balance,
        ) is None,
{
}

/// The credits the device's counters stand for: a color page costs three
/// black-and-white ones.
pub open spec fn printer_credits(bw: i32, color: i32) -> int {
    bw + color * 3
}

/// The credits of the settled ledger rows; rows without an amount count nothing.
pub open spec fn ledger_credits(rows: Seq<Option<i32>>) -> int
    decreases rows.len(),
{
    if rows.len() == 0 {
        0
    } else {
        ledger_credits(rows.drop_last()) + match rows.last() {
            Some(c) => c as int,
            None => 0,
        }
    }
}

/// The comparison of a device's counters with the ledger rows settled for them.
#[derive(Clone, Copy, Debug, PartialEq, Eq, Structural)]
pub struct Settlement {
    pub printer_credit_sum: i32,
    pub ledger_credit_sum: i32,
}

impl Settlement {
    /// Whether the counters and the ledger disagree.
    pub fn is_mismatch(&self) -> (b: bool)
        ensures
            b == (self.printer_credit_sum != self.ledger_credit_sum),
    {
        self.printer_credit_sum != self.ledger_credit_sum
    }
}

/// Compares the counters read back when they were zeroed with the ledger
/// rows that were marked done at the same time.
pub fn settle(bw: i32, color: i32, ledger: &[Option<i32>]) -> (s: Settlement)
    requires
        i32::MIN <= printer_credits(bw, color) <= i32::MAX,
        forall|k: int| 0 <= k <= ledger@.len() ==> i32::MIN <= #[trigger] ledger_credits(ledger@.take(k)) <= i32::MAX,
    ensures
        s.printer_credit_sum == printer_credits(bw, color),
        s.ledger_credit_sum == ledger_credits(ledger@),
{
    let mut sum: i32 = 0;
    let mut i: usize = 0;
    assert(ledger@.take(0) =~= Seq::<Option<i32>>::empty());
    while i < ledger.len()
        invariant
            0 <= i <= ledger@.len(),
            sum == ledger_credits(ledger@.take(i as int)),
            forall|k: int| 0 <= k <= ledger@.len() ==> i32::MIN <= #[trigger] ledger_credits(ledger@.take(k)) <= i32::MAX,
        decreases ledger@.len() - i,
    {
        assert(ledger@.take(i + 1).drop_last() == ledger@.take(i as int));
        assert(ledger_credits(ledger@.take(i + 1)) >= i32::MIN);
        match ledger[i] {
            Some(c) => {
                sum = sum + c;
            },
            None => {},
        }
        i = i + 1;
    }
    assert(ledger@.take(ledger@.len() as int) == ledger@);
    let total: i64 = bw as i64 + color as i64 * 3;
    Settlement { printer_credit_sum: total as i32, ledger_credit_sum: sum }
}

/// A row of the device mirror: the person it belongs to, if any, and the
/// device account id.
#[derive(Clone, Copy, Debug, PartialEq, Eq, Structural)]
pub struct MirrorRow {
    pub account_id: Option<u128>,
    pub printer_id: i32,
}

/// One settlement of the full sync: zero the person's counters, and clear the
/// device counter when the device still has the account.
#[derive(Clone, Copy, Debug, PartialEq, Eq, Structural)]
pub struct SettleStep {
    pub account_id: u128,
    pub printer_id: i32,
    pub clear_device_counter: bool,
}

/// What to do about a mirror row whose device account is gone.
#[derive(Clone, Copy, Debug, PartialEq, Eq, Structural)]
pub enum MissingStep {
    /// The person is still linked: re-sync the account.
    Resync { account_id: u128, printer_id: i32 },
    /// Nobody is linked: drop the row.
    DeleteMirror { printer_id: i32 },
}

/// The steps of a full sync, in mirror order.
#[derive(Clone, Debug)]
pub struct FullSyncPlan {
    pub settle: Vec<SettleStep>,
    pub missing: Vec<MissingStep>,
}

pub open spec fn settle_steps(rows: Seq<MirrorRow>, device_ids: Seq<i32>) -> Seq<SettleStep>
    decreases rows.len(),
{
    if rows.len() == 0 {
        Seq::empty()
    } else {
        let r = rows.last();
        let before = settle_steps(rows.drop_last(), device_ids);
        match r.account_id {
            Some(a) => before.push(
                SettleStep {
                    account_id: a,
                    printer_id: r.printer_id,
                    clear_device_counter: device_ids.contains(r.printer_id),
                },
            ),
            None => before,
        }
    }
}

pub open spec fn missing_steps(rows: Seq<MirrorRow>, device_ids: Seq<i32>) -> Seq<MissingStep>
    decreases rows.len(),
{
    if rows.len() == 0 {
        Seq::empty()
    } else {
        let r = rows.last();
        let before = missing_steps(rows.drop_last(), device_ids);
        if device_ids.contains(r.printer_id) {
            before
        } else {
            before.push(
                match r.account_id {
                    Some(a) => MissingStep::Resync { account_id: a, printer_id: r.printer_id },
                    None => MissingStep::DeleteMirror { printer_id: r.printer_id },
                },
            )
        }
    }
}

fn contains_id(ids: &[i32], id: i32) -> (b: bool)
    ensures
        b == ids@.contains(id),
{
    let mut i: usize = 0;
    while i < ids.len()
        invariant
            0 <= i <= ids@.len(),
            forall|k: int| 0 <= k < i ==> ids@[k] != id,
        decreases ids@.len() - i,
    {
        if ids[i] == id {
            return true;
        }
        i = i + 1;
    }
    false
}

/// Plans a full sync from the mirror rows and the accounts the device
/// reports: every person-linked row is settled (clearing the device counter
/// only where the device has the account), and every row the device lacks is
/// re-synced if a person is linked, else deleted.
pub fn plan_full_sync(rows: &[MirrorRow], device_ids: &[i32]) -> (p: FullSyncPlan)
    ensures
        p.settle@ == settle_steps(rows@, device_ids@),
        p.missing@ == missing_steps(rows@, device_ids@),
{
    let mut settle: Vec<SettleStep> = Vec::new();
    let mut missing: Vec<MissingStep> = Vec::new();
    let mut i: usize = 0;
    while i < rows.len()
        invariant
            0 <= i <= rows@.len(),
            settle@ == settle_steps(rows@.take(i as int), device_ids@),
            missing@ == missing_steps(rows@.take(i as int), device_ids@),
        decreases rows@.len() - i,
    {
        let r = rows[i];
        assert(rows@.take(i + 1).drop_last() == rows@.take(i as int));
        let on_device = contains_id(device_ids, r.printer_id);
        match r.account_id {
            Some(a) => {
                settle.push(
                    SettleStep { account_id: a, printer_id: r.printer_id, clear_device_counter: on_device },
                );
            },
            None => {},
        }
        if !on_device {
            match r.account_id {
                Some(a) => missing.push(MissingStep::Resync { account_id: a, printer_id: r.printer_id }),
                None => missing.push(MissingStep::DeleteMirror { printer_id: r.printer_id }),
            }
        }
        i = i + 1;
    }
    assert(rows@.take(rows@.len() as int) == rows@);
    FullSyncPlan { settle, missing }
}

/// A full sync never clears the counter of an account the device lacks, and
/// every mirror row the device lacks gets a missing step.
pub proof fn law_full_sync_respects_device(rows: Seq<MirrorRow>, device_ids: Seq<i32>)
    ensures
        forall|k: int|
            0 <= k < settle_steps(rows, device_ids).len() ==> (#[trigger] settle_steps(rows, device_ids)[k]).clear_device_counter
                == device_ids.contains(settle_steps(rows, device_ids)[k].printer_id),
        missing_steps(rows, device_ids).len() == rows.filter(|r: MirrorRow| !device_ids.contains(r.printer_id)).len(),
    decreases rows.len(),
{
    reveal_with_fuel(Seq::filter, 1);
    if rows.len() > 0 {
        law_full_sync_respects_device(rows.drop_last(), device_ids);
        let before = settle_steps(rows.drop_last(), device_ids);
        assert forall|k: int|
            0 <= k < settle_steps(rows, device_ids).len() implies (#[trigger] settle_steps(rows, device_ids)[k]).clear_device_counter
            == device_ids.contains(settle_steps(rows, device_ids)[k].printer_id) by {
            if k < before.len() {
                assert(settle_steps(rows, device_ids)[k] == before[k]);
            }
        }
    }
}

/// The next periodic refresh is due when none ran yet, or the last one is
/// more than five minutes old.
pub fn refresh_due(last_refresh: Option<u64>, now: u64) -> (due: bool)
    ensures
        due == (last_refresh matches Some(t) ==> now > t && now - t > 300),
{
    match last_refresh {
        None => true,
        Some(t) => now > t && now - t > 300,
    }
}

/// The status a finished job is stored with.
pub fn job_status_after(succeeded: bool) -> (s: JobStatus)
    ensures
        succeeded ==> s == JobStatus::Done,
        !succeeded ==> s == JobStatus::Error,
{
    if succeeded {
        JobStatus::Done
    } else {
        JobStatus::Error
    }
}

pub open spec fn error_kinds(jobs: Seq<(String, JobStatus)>) -> Seq<String> {
    jobs.filter(|j: (String, JobStatus)| j.1 == JobStatus::Error).map_values(|j: (String, JobStatus)| j.0)
}

pub open spec fn pending_kinds(jobs: Seq<(String, JobStatus)>) -> Seq<String> {
    jobs.filter(|j: (String, JobStatus)| j.1 != JobStatus::Error).map_values(|j: (String, JobStatus)| j.0)
}

/// Splits a person's unfinished printer jobs into the types that failed and
/// the types still pending, each in queue order.
pub fn partition_jobs(jobs: &[(String, JobStatus)]) -> (r: (Vec<String>, Vec<String>))
    ensures
        r.0@ == error_kinds(jobs@),
        r.1@ == pending_kinds(jobs@),
{
    let mut errors: Vec<String> = Vec::new();
    let mut pending: Vec<String> = Vec::new();
    let mut i: usize = 0;
    while i < jobs.len()
        invariant
            0 <= i <= jobs@.len(),
            errors@ == error_kinds(jobs@.take(i as int)),
            pending@ == pending_kinds(jobs@.take(i as int)),
        decreases jobs@.len() - i,
    {
        proof {
            assert(jobs@.take(i + 1).drop_last() == jobs@.take(i as int));
            reveal_with_fuel(Seq::filter, 1);
        }
        let kind = jobs[i].0.clone();
        if jobs[i].1 == JobStatus::Error {
            errors.push(kind);
        } else {
            pending.push(kind);
        }
        i = i + 1;
    }
    assert(jobs@.take(jobs@.len() as int) == jobs@);
    (errors, pending)
}

/// What a person's record offers for recreating their device account.
#[derive(Debug)]
pub enum RestoreSource {
    /// The login the device account is recreated with; the PIN still
    /// encrypted.
    Restore { email: String, username: String, pin_encrypted: String },
    /// The person lacks an email address, an amenities user name or a PIN.
    MissingCredentials,
    /// The person no longer exists.
    AccountDeleted,
}

/// Decides whether a lost device account can be recreated from the person's
/// record (`None` where the person is gone): it needs the email address,
/// the amenities user name and the PIN.
pub fn restore_source(account: Option<(Option<String>, Option<String>, Option<String>)>) -> (r: RestoreSource)
    ensures
        match account {
            None => r is AccountDeleted,
            Some((Some(e), Some(u), Some(p))) => r matches RestoreSource::Restore {
                email,
                username,
                pin_encrypted,
            } && email == e && username == u && pin_encrypted == p,
            Some(_) => r is MissingCredentials,
        },
{
    match account {
        None => RestoreSource::AccountDeleted,
        Some((Some(e), Some(u), Some(p))) => RestoreSource::Restore { email: e, username: u, pin_encrypted: p },
        Some(_) => RestoreSource::MissingCredentials,
    }
}

/// The reason recorded when a device account cannot be recreated.
pub open spec fn restore_failure_reason(r: RestoreSource) -> Seq<char> {
    match r {
        RestoreSource::AccountDeleted => "account_deleted"@,
        _ => "missing_credentials"@,
    }
}

impl RestoreSource {
    /// The reason recorded for a failed recreation.
    pub fn failure_reason(&self) -> (s: &'static str)
        ensures
            s@ == restore_failure_reason(*self),
    {
        match self {
            RestoreSource::AccountDeleted => "account_deleted",
            _ => "missing_credentials",
        }
    }
}

/// A health-event deduplication key: a prefix and the account's UUID.
pub fn account_dedup_key(prefix: &str, account_id: u128) -> (s: String)
    ensures
        s@ == prefix@ + uuid_chars(account_id),
{
    let mut s = prefix.to_string();
    let id = uuid_text(account_id);
    s.append(id.as_str());
    s
}

/// How a request to the device for one account went.
#[derive(Clone, Copy, Debug, PartialEq, Eq, Structural)]
pub enum DeviceReply {
    Done,
    /// The device does not have the account.
    AccountNotFound,
    Failed,
}

/// Deleting a device account that is already gone counts as done.
pub fn delete_succeeded(reply: DeviceReply) -> (ok: bool)
    ensures
        ok == (reply != DeviceReply::Failed),
{
    match reply {
        DeviceReply::Failed => false,
        _ => true,
    }
}

/// What syncing a person's account does on the device.
#[derive(Clone, Copy, Debug, PartialEq, Eq, Structural)]
pub enum SyncAction {
    /// No mirror row yet: create the device account.
    Create,
    /// Set the password of the device account in place.
    SetPassword { printer_id: i32 },
}

/// A person without a mirror row gets a new device account; one with a row
/// has the password of that account set.
pub fn sync_action(mirror_printer_id: Option<i32>) -> (a: SyncAction)
    ensures
        a == match mirror_printer_id {
            None => SyncAction::Create,
            Some(p) => SyncAction::SetPassword { printer_id: p },
        },
{
    match mirror_printer_id {
        None => SyncAction::Create,
        Some(p) => SyncAction::SetPassword { printer_id: p },
    }
}

/// After setting the password: a lost account is recreated (which writes the
/// mirror row itself); a changed password has the user name written back;
/// any other failure fails the job. `Ok(true)` asks for the write-back.
pub fn after_set_password(reply: DeviceReply) -> (r: Result<bool, ()>)
    ensures
        reply == DeviceReply::Done ==> r == Ok::<bool, ()>(true),
        reply == DeviceReply::AccountNotFound ==> r == Ok::<bool, ()>(false),
        reply == DeviceReply::Failed ==> r is Err,
{
    match reply {
        DeviceReply::Done => Ok(true),
        DeviceReply::AccountNotFound => Ok(false),
        DeviceReply::Failed => Err(()),
    }
}

/// The page limits a recreated device account starts with: its counters are
/// zero, so only the balance counts.
pub fn restored_limits(color_price: Option<i32>, bw_price: Option<i32>, balance: Option<i32>) -> (r: (Option<u16>, Option<u16>))
    ensures
        r.0 == page_limit_spec(color_price, 0, balance),
        r.1 == page_limit_spec(bw_price, 0, balance),
{
    (page_limit(color_price, 0, balance), page_limit(bw_price, 0, balance))
}

} // verus!
