//! The decisions of a scan: what to do with what a node, a light client or a server sends,
//! and when to save and report what was found.

use vstd::prelude::*;

use crate::bytes::{BlockHash, PublicKey, SecretKey};
use crate::chain::BlockId;
use crate::frigate::{
    labels_view, law_other_errors_are_no_timeouts, FrigateError, History, SubscribeRequest,
    UnsubscribeRequest,
};
use crate::secrets::{
    block_secrets, confirmed_secrets, grouped, matched_secrets, HeightSecrets, PartialSecrets,
    TweakMap,
};
use crate::text::{law_occurs_in, made_of, occurs_in};
use crate::time::Duration;
use crate::transaction::Transaction;

verus! {

/// Delay in seconds for printing status to stdout.
pub const STDOUT_PRINT_DELAY: u64 = 6;

/// Delay in seconds for committing to persistence.
pub const DB_COMMIT_DELAY: u64 = 60;

/// When a scan last saved and last reported its state, as times since some fixed moment.
#[derive(Clone, Copy, Debug, PartialEq, Eq, Structural)]
pub struct ScanSchedule {
    pub last_commit: Duration,
    pub last_print: Duration,
    pub never_printed: bool,
}

/// At least `secs` seconds passed from `earlier` to `now`.
pub open spec fn passed(earlier: Duration, now: Duration, secs: u64) -> bool {
    now.length() - earlier.length() >= secs * 1_000_000_000
}

fn is_passed(earlier: &Duration, now: &Duration, secs: u64) -> (r: bool)
    requires
        earlier.wf(),
        now.wf(),
        secs > 0,
    ensures
        r == passed(*earlier, *now, secs),
{
    now.since(earlier).reaches(&Duration::from_secs(secs))
}

impl ScanSchedule {
    pub open spec fn wf(self) -> bool {
        self.last_commit.wf() && self.last_print.wf()
    }

    /// The schedule of a scan that starts now.
    pub fn start(now: Duration) -> (r: Self)
        requires
            now.wf(),
        ensures
            r.wf(),
            r.last_commit == now,
            r.last_print == now,
            r.never_printed,
    {
        ScanSchedule { last_commit: now, last_print: now, never_printed: true }
    }

    /// The schedule after a look at the time to save.
    pub open spec fn after_commit_check(self, now: Duration) -> Self {
        if passed(self.last_commit, now, DB_COMMIT_DELAY) {
            ScanSchedule { last_commit: now, ..self }
        } else {
            self
        }
    }

    /// The schedule after a look at the time to report.
    pub open spec fn after_print_check(self, now: Duration) -> Self {
        if passed(self.last_print, now, STDOUT_PRINT_DELAY) {
            ScanSchedule { last_print: now, never_printed: false, ..self }
        } else {
            self
        }
    }

    /// Whether it is time to save what was found; if it is, the next delay starts now.
    pub fn commit_due(&mut self, now: Duration) -> (r: bool)
        requires
            old(self).wf(),
            now.wf(),
        ensures
            final(self).wf(),
            r == passed(old(self).last_commit, now, DB_COMMIT_DELAY),
            *final(self) == old(self).after_commit_check(now),
    {
        let due: bool = is_passed(&self.last_commit, &now, DB_COMMIT_DELAY);
        if due {
            self.last_commit = now;
        }
        due
    }

    /// Whether it is time to report the state; if it is, the next delay starts now.
    pub fn print_due(&mut self, now: Duration) -> (r: bool)
        requires
            old(self).wf(),
            now.wf(),
        ensures
            final(self).wf(),
            r == passed(old(self).last_print, now, STDOUT_PRINT_DELAY),
            *final(self) == old(self).after_print_check(now),
    {
        let due: bool = is_passed(&self.last_print, &now, STDOUT_PRINT_DELAY);
        if due {
            self.last_print = now;
            self.never_printed = false;
        }
        due
    }

    /// Whether the state is still to be reported when the scan is over.
    pub fn final_print_due(&self) -> (r: bool)
        ensures
            r == self.never_printed,
    {
        self.never_printed
    }
}

/// The schedule after some blocks; after each of them come a look at the time to save and
/// one at the time to report, at the two moments that stand for the block.
pub open spec fn schedule_after(
    start: ScanSchedule,
    moments: Seq<(Duration, Duration)>,
) -> ScanSchedule
    decreases moments.len(),
{
    if moments.len() == 0 {
        start
    } else {
        schedule_after(start, moments.drop_last()).after_commit_check(
            moments.last().0,
        ).after_print_check(moments.last().1)
    }
}

/// However the blocks of a scan come, after each of them what was found has been saved and
/// the state has been reported within the delays; a state that was never reported is that
/// of a scan shorter than the delay, and is reported at the end.
pub proof fn law_state_is_reported(start: Duration, moments: Seq<(Duration, Duration)>)
    requires
        moments.len() > 0,
    ensures
        ({
            let begin = ScanSchedule { last_commit: start, last_print: start, never_printed: true };
            let end = schedule_after(begin, moments);
            &&& !passed(end.last_commit, moments.last().0, DB_COMMIT_DELAY)
            &&& !passed(end.last_print, moments.last().1, STDOUT_PRINT_DELAY)
            &&& end.never_printed ==> !passed(start, moments.last().1, STDOUT_PRINT_DELAY)
        }),
{
    let begin = ScanSchedule { last_commit: start, last_print: start, never_printed: true };
    lemma_never_printed(begin, moments.drop_last());
}

proof fn lemma_never_printed(begin: ScanSchedule, moments: Seq<(Duration, Duration)>)
    ensures
        schedule_after(begin, moments).never_printed ==> schedule_after(begin, moments).last_print
            == begin.last_print,
    decreases moments.len(),
{
    if moments.len() > 0 {
        lemma_never_printed(begin, moments.drop_last());
    }
}

/// The subscription for a wallet: from the block on where the scan starts, with its
/// labels if it has any.
pub fn subscription(
    scan_priv_key: SecretKey,
    spend_pub_key: PublicKey,
    start: BlockId,
    labels: Vec<u32>,
) -> (r: SubscribeRequest)
    ensures
        r.scan_priv_key == scan_priv_key,
        r.spend_pub_key == spend_pub_key,
        r.start_height == Some(start.height),
        labels_view(r.labels) == if labels@.len() == 0 {
            None
        } else {
            Some(labels@)
        },
{
    let labels: Option<Vec<u32>> = if labels.len() == 0 {
        None
    } else {
        Some(labels)
    };
    SubscribeRequest { scan_priv_key, spend_pub_key, start_height: Some(start.height), labels }
}

/// What a notification of a server holds: the transactions that it found, and whether it
/// has scanned the whole chain.
#[derive(Clone, Debug, PartialEq, Eq)]
pub struct ScanUpdate {
    pub histories: Vec<History>,
    pub complete: bool,
}

/// What came from a server.
pub enum StreamEvent {
    /// A message; it is no notification if it holds no parameters.
    Message(Option<ScanUpdate>),
    Failed(FrigateError),
}

/// What to do about it.
pub enum ScanAction {
    /// Wait for the next message.
    Wait,
    /// Index the blocks at these heights, and then stop if the scan is complete.
    Index { groups: Vec<HeightSecrets>, complete: bool },
    /// End the subscription, and stop.
    Unsubscribe(UnsubscribeRequest),
    /// Stop with an error.
    Fail(FrigateError),
}

/// One step of a scan by a server: what it found is indexed by block until it is done; a
/// server that takes too long is unsubscribed from.
pub fn frigate_step(
    event: StreamEvent,
    scan_priv_key: SecretKey,
    spend_pub_key: PublicKey,
) -> (r: ScanAction)
    ensures
        match event {
            StreamEvent::Message(None) => r is Wait,
            StreamEvent::Message(Some(update)) => {
                &&& r matches ScanAction::Index { groups, complete }
                &&& grouped(groups@, update.histories@, |height: u32| height > 0)
                &&& complete == update.complete
            },
            StreamEvent::Failed(error) => if occurs_in(error.text(), "timed out"@) {
                r == ScanAction::Unsubscribe(UnsubscribeRequest { scan_priv_key, spend_pub_key })
            } else {
                r == ScanAction::Fail(error)
            },
        },
{
    match event {
        StreamEvent::Message(None) => ScanAction::Wait,
        StreamEvent::Message(Some(update)) => ScanAction::Index {
            groups: confirmed_secrets(&update.histories),
            complete: update.complete,
        },
        StreamEvent::Failed(error) => if error.is_timeout() {
            ScanAction::Unsubscribe(UnsubscribeRequest { scan_priv_key, spend_pub_key })
        } else {
            ScanAction::Fail(error)
        },
    }
}

/// What came from the light client.
pub enum TweakEvent {
    /// Scripts of interest may be in the block with this hash.
    Matches(BlockHash, TweakMap),
    /// The chain was followed up to this block.
    Synced(BlockId),
}

/// What to do about it.
pub enum FilterAction {
    /// Wait for the next event.
    Wait,
    /// Ask for the block.
    RequestBlock(BlockHash, TweakMap),
    /// Move the tip of the wallet's chain to this block, and stop.
    Finish(BlockId),
}

/// One step of a scan by compact block filters.
pub fn filter_step(event: Option<TweakEvent>) -> (r: FilterAction)
    ensures
        match event {
            None => r is Wait,
            Some(TweakEvent::Matches(hash, tweaks)) => r == FilterAction::RequestBlock(
                hash,
                tweaks,
            ),
            Some(TweakEvent::Synced(tip)) => r == FilterAction::Finish(tip),
        },
{
    match event {
        None => FilterAction::Wait,
        Some(TweakEvent::Matches(hash, tweaks)) => FilterAction::RequestBlock(hash, tweaks),
        Some(TweakEvent::Synced(tip)) => FilterAction::Finish(tip),
    }
}

/// A block to index: its place in the chain, and the partial secrets of its transactions.
#[derive(Debug, PartialEq, Eq)]
pub struct BlockUpdate {
    pub checkpoint: BlockId,
    pub secrets: PartialSecrets,
}

/// What a block brings that was asked for by its hash.
pub fn filter_block(
    hash: BlockHash,
    height: u32,
    txdata: &Vec<Transaction>,
    tweaks: &TweakMap,
) -> (r: BlockUpdate)
    ensures
        r.checkpoint == (BlockId { height, hash }),
        r.secrets@ == matched_secrets(txdata@, tweaks@),
{
    BlockUpdate {
        checkpoint: BlockId { height, hash },
        secrets: block_secrets(txdata, tweaks),
    }
}

/// A scan that starts has neither saved nor reported anything since.
pub proof fn law_start(now: Duration, r: ScanSchedule, last: bool)
    requires
        call_ensures(ScanSchedule::start, (now,), r),
        call_ensures(ScanSchedule::final_print_due, (&r,), last),
    ensures
        r.last_commit == now,
        r.last_print == now,
        r.never_printed,
        last,
{
}

/// It is time to save once sixty seconds have passed since the last time, to the nanosecond;
/// the delay then starts anew, and otherwise nothing changes.
pub proof fn law_commit_due(schedule: &mut ScanSchedule, now: Duration, r: bool)
    requires
        call_ensures(ScanSchedule::commit_due, (schedule, now), r),
    ensures
        r <==> now.secs * 1_000_000_000 + now.nanos >= (old(schedule).last_commit.secs + 60)
            * 1_000_000_000 + old(schedule).last_commit.nanos,
        r ==> final(schedule).last_commit == now,
        !r ==> final(schedule).last_commit == old(schedule).last_commit,
        final(schedule).last_print == old(schedule).last_print,
        final(schedule).never_printed == old(schedule).never_printed,
{
}

/// It is time to report once six seconds have passed since the last time, to the nanosecond;
/// the delay then starts anew, and otherwise nothing changes.
pub proof fn law_print_due(schedule: &mut ScanSchedule, now: Duration, r: bool)
    requires
        call_ensures(ScanSchedule::print_due, (schedule, now), r),
    ensures
        r <==> now.secs * 1_000_000_000 + now.nanos >= (old(schedule).last_print.secs + 6)
            * 1_000_000_000 + old(schedule).last_print.nanos,
        r ==> final(schedule).last_print == now && !final(schedule).never_printed,
        !r ==> final(schedule).last_print == old(schedule).last_print
            && final(schedule).never_printed == old(schedule).never_printed,
        final(schedule).last_commit == old(schedule).last_commit,
{
}

/// A report at the end is due if and only if there was none before.
pub proof fn law_final_print_due(schedule: ScanSchedule, r: bool)
    requires
        call_ensures(ScanSchedule::final_print_due, (&schedule,), r),
    ensures
        r == schedule.never_printed,
{
}

/// A subscription has the wallet's keys, the height of the block where the scan starts, and all
/// labels if there are any.
pub proof fn law_subscription(
    scan_priv_key: SecretKey,
    spend_pub_key: PublicKey,
    start: BlockId,
    labels: Vec<u32>,
    r: SubscribeRequest,
)
    requires
        call_ensures(subscription, (scan_priv_key, spend_pub_key, start, labels), r),
    ensures
        r.scan_priv_key == scan_priv_key,
        r.spend_pub_key == spend_pub_key,
        r.start_height == Some(start.height),
        labels@.len() == 0 ==> r.labels is None,
        labels@.len() > 0 ==> (r.labels matches Some(l) && l@ == labels@),
{
}

/// A scan by a server waits on messages that are no notifications; a failure ends it, with the
/// subscription of the wallet's keys if the failure says somewhere that something timed out,
/// and with the failure itself if not.
pub proof fn law_frigate_step(
    event: StreamEvent,
    scan_priv_key: SecretKey,
    spend_pub_key: PublicKey,
    r: ScanAction,
)
    requires
        call_ensures(frigate_step, (event, scan_priv_key, spend_pub_key), r),
    ensures
        event matches StreamEvent::Message(None) ==> r is Wait,
        event matches StreamEvent::Message(Some(_)) ==> r is Index,
        event matches StreamEvent::Failed(error) ==> {
            let timed_out = error matches FrigateError::Generic(message) && exists|
                before: Seq<char>,
                after: Seq<char>,
            | #[trigger]
                made_of(message@, before, "timed out"@, after);
            &&& timed_out ==> (r matches ScanAction::Unsubscribe(request) && request.scan_priv_key
                == scan_priv_key && request.spend_pub_key == spend_pub_key)
            &&& !timed_out ==> (r matches ScanAction::Fail(e) && e == error)
        },
{
    if let StreamEvent::Failed(error) = event {
        law_occurs_in(error.text(), "timed out"@);
        if !(error is Generic) {
            law_other_errors_are_no_timeouts(error);
        }
    }
}

/// A scan by filters asks for every block in which something may be, with the scripts that may
/// be in it, and ends with the block up to which the chain was followed.
pub proof fn law_filter_step(event: Option<TweakEvent>, r: FilterAction)
    requires
        call_ensures(filter_step, (event,), r),
    ensures
        event is None ==> r is Wait,
        event matches Some(TweakEvent::Matches(hash, tweaks)) ==> (
        r matches FilterAction::RequestBlock(h, t) && h == hash && t@ == tweaks@),
        event matches Some(TweakEvent::Synced(tip)) ==> (r matches FilterAction::Finish(end) && end
            == tip),
{
}

} // verus!
