use vstd::prelude::*;
use crate::text::{dec_spec, u64_to_string};

verus! {

/// The stages a generation passes through, in order.
#[derive(Clone, Copy, PartialEq, Eq, Structural, Debug)]
pub enum Stage {
    Initializing,
    FetchingCampaigns,
    FilteringCampaigns,
    ProcessingCampaigns,
    FinalizingReport,
    SavingReport,
    Complete,
}

impl Stage {
    /// The stage's name as the observer sees it.
    pub fn label(&self) -> (r: String)
        ensures
            *self is Initializing ==> r@ == "Initializing"@,
            *self is FetchingCampaigns ==> r@ == "FetchingCampaigns"@,
            *self is FilteringCampaigns ==> r@ == "FilteringCampaigns"@,
            *self is ProcessingCampaigns ==> r@ == "ProcessingCampaigns"@,
            *self is FinalizingReport ==> r@ == "FinalizingReport"@,
            *self is SavingReport ==> r@ == "SavingReport"@,
            *self is Complete ==> r@ == "Complete"@,
    {
        match self {
            Stage::Initializing => String::from_str("Initializing"),
            Stage::FetchingCampaigns => String::from_str("FetchingCampaigns"),
            Stage::FilteringCampaigns => String::from_str("FilteringCampaigns"),
            Stage::ProcessingCampaigns => String::from_str("ProcessingCampaigns"),
            Stage::FinalizingReport => String::from_str("FinalizingReport"),
            Stage::SavingReport => String::from_str("SavingReport"),
            Stage::Complete => String::from_str("Complete"),
        }
    }
}

/// One observer event: where the generation stands, how far along it is,
/// and a running-time estimate where one is known.
pub struct ProgressUpdate {
    pub stage: Stage,
    pub progress: u8,
    pub message: String,
    pub time_remaining: Option<u64>,
}

pub struct ProgressUpdateV {
    pub stage: Stage,
    pub progress: u8,
    pub message: Seq<char>,
    pub time_remaining: Option<u64>,
}

impl View for ProgressUpdate {
    type V = ProgressUpdateV;

    open spec fn view(&self) -> ProgressUpdateV {
        ProgressUpdateV {
            stage: self.stage,
            progress: self.progress,
            message: self.message@,
            time_remaining: self.time_remaining,
        }
    }
}

/// Progress never falls from one update to the next.
pub open spec fn monotone(us: Seq<ProgressUpdateV>) -> bool {
    forall|i: int, j: int|
        0 <= i <= j < us.len() ==> (#[trigger] us[i]).progress <= (#[trigger] us[j]).progress
}

/// The progress value of the last update, or zero before the first.
pub open spec fn last_progress(us: Seq<ProgressUpdateV>) -> int {
    if us.len() == 0 {
        0
    } else {
        us.last().progress as int
    }
}

/// Appending an update at least as far along keeps progress monotone.
pub proof fn lemma_monotone_push(us: Seq<ProgressUpdateV>, u: ProgressUpdateV)
    requires
        monotone(us),
        last_progress(us) <= u.progress,
    ensures
        monotone(us.push(u)),
        last_progress(us.push(u)) == u.progress,
{
    assert forall|i: int, j: int| 0 <= i <= j < us.push(u).len() implies (
    #[trigger] us.push(u)[i]).progress <= (#[trigger] us.push(u)[j]).progress by {
        if j < us.len() {
        } else if us.len() > 0 && i < us.len() {
            assert(us[i].progress <= us[us.len() - 1].progress);
        }
    }
}

// --- the canonical updates ---

pub open spec fn init_update_spec() -> ProgressUpdateV {
    ProgressUpdateV {
        stage: Stage::Initializing,
        progress: 0,
        message: "Starting report generation..."@,
        time_remaining: None,
    }
}

pub open spec fn connecting_update_spec() -> ProgressUpdateV {
    ProgressUpdateV {
        stage: Stage::FetchingCampaigns,
        progress: 10,
        message: "Connecting to Mailchimp API..."@,
        time_remaining: None,
    }
}

pub open spec fn fetching_update_spec() -> ProgressUpdateV {
    ProgressUpdateV {
        stage: Stage::FetchingCampaigns,
        progress: 20,
        message: "Fetching campaign data from Mailchimp..."@,
        time_remaining: None,
    }
}

pub open spec fn filtering_update_spec(total: int) -> ProgressUpdateV {
    ProgressUpdateV {
        stage: Stage::FilteringCampaigns,
        progress: 30,
        message: "Found "@ + dec_spec(total as nat) + " campaigns. Filtering by newsletter type..."@,
        time_remaining: None,
    }
}

/// The first estimate: half a second per campaign.
pub open spec fn initial_eta_spec(n: int) -> u64 {
    (n / 2) as u64
}

pub open spec fn processing_start_spec(n: int) -> ProgressUpdateV {
    ProgressUpdateV {
        stage: Stage::ProcessingCampaigns,
        progress: 40,
        message: "Processing "@ + dec_spec(n as nat) + " campaigns..."@,
        time_remaining: Some(initial_eta_spec(n)),
    }
}

/// The progress of campaign `i` of `n`: forty to eighty per cent,
/// advancing linearly.
pub open spec fn campaign_progress_spec(i: int, n: int) -> u8 {
    (40 + (i * 40) / n) as u8
}

/// Division rounded up, for positive divisors.
pub open spec fn div_ceil(a: int, b: int) -> int {
    if a <= 0 {
        0
    } else {
        (a - 1) / b + 1
    }
}

/// The running estimate before campaign `i` of `n`: the average time the
/// first `i` campaigns took, scaled to those remaining and rounded up;
/// before the first, half a second per campaign.
pub open spec fn running_eta_spec(start_ms: u64, now_ms: u64, i: int, n: int) -> u64 {
    if i <= 0 {
        initial_eta_spec(n)
    } else {
        let elapsed: int = if now_ms >= start_ms {
            now_ms - start_ms
        } else {
            0
        };
        let est: int = div_ceil(elapsed * (n - i), 1000 * i);
        if est > u64::MAX {
            u64::MAX
        } else {
            est as u64
        }
    }
}

pub open spec fn campaign_update_spec(
    i: int,
    n: int,
    title: Seq<char>,
    start_ms: u64,
    now_ms: u64,
) -> ProgressUpdateV {
    ProgressUpdateV {
        stage: Stage::ProcessingCampaigns,
        progress: campaign_progress_spec(i, n),
        message: "Processing campaign "@ + dec_spec((i + 1) as nat) + " of "@ + dec_spec(n as nat)
            + ": "@ + title,
        time_remaining: Some(running_eta_spec(start_ms, now_ms, i, n)),
    }
}

pub open spec fn finalizing_update_spec() -> ProgressUpdateV {
    ProgressUpdateV {
        stage: Stage::FinalizingReport,
        progress: 80,
        message: "Processing complete. Organizing report data..."@,
        time_remaining: Some(15),
    }
}

pub open spec fn saving_update_spec() -> ProgressUpdateV {
    ProgressUpdateV {
        stage: Stage::SavingReport,
        progress: 90,
        message: "Finalizing and saving report..."@,
        time_remaining: Some(5),
    }
}

pub open spec fn complete_update_spec() -> ProgressUpdateV {
    ProgressUpdateV {
        stage: Stage::Complete,
        progress: 100,
        message: "Report generation complete!"@,
        time_remaining: Some(0),
    }
}

// --- building them ---

pub fn init_update() -> (r: ProgressUpdate)
    ensures
        r@ == init_update_spec(),
{
    ProgressUpdate {
        stage: Stage::Initializing,
        progress: 0,
        message: String::from_str("Starting report generation..."),
        time_remaining: None,
    }
}

pub fn connecting_update() -> (r: ProgressUpdate)
    ensures
        r@ == connecting_update_spec(),
{
    ProgressUpdate {
        stage: Stage::FetchingCampaigns,
        progress: 10,
        message: String::from_str("Connecting to Mailchimp API..."),
        time_remaining: None,
    }
}

pub fn fetching_update() -> (r: ProgressUpdate)
    ensures
        r@ == fetching_update_spec(),
{
    ProgressUpdate {
        stage: Stage::FetchingCampaigns,
        progress: 20,
        message: String::from_str("Fetching campaign data from Mailchimp..."),
        time_remaining: None,
    }
}

pub fn filtering_update(total: usize) -> (r: ProgressUpdate)
    ensures
        r@ == filtering_update_spec(total as int),
{
    let mut m = String::from_str("Found ");
    let num = crate::text::u128_to_string(total as u128);
    m.append(num.as_str());
    m.append(" campaigns. Filtering by newsletter type...");
    ProgressUpdate {
        stage: Stage::FilteringCampaigns,
        progress: 30,
        message: m,
        time_remaining: None,
    }
}

pub fn processing_start_update(n: usize) -> (r: ProgressUpdate)
    ensures
        r@ == processing_start_spec(n as int),
{
    let mut m = String::from_str("Processing ");
    let num = crate::text::u128_to_string(n as u128);
    m.append(num.as_str());
    m.append(" campaigns...");
    ProgressUpdate {
        stage: Stage::ProcessingCampaigns,
        progress: 40,
        message: m,
        time_remaining: Some((n / 2) as u64),
    }
}

fn running_eta(start_ms: u64, now_ms: u64, i: usize, n: usize) -> (r: u64)
    requires
        0 < i < n,
    ensures
        r == running_eta_spec(start_ms, now_ms, i as int, n as int),
{
    let elapsed: u128 = if now_ms >= start_ms {
        (now_ms - start_ms) as u128
    } else {
        0
    };
    proof {
        assert(elapsed * ((n - i) as u128) <= 0xffff_ffff_ffff_ffff * 0xffff_ffff_ffff_ffff)
            by (nonlinear_arith)
            requires
                elapsed <= 0xffff_ffff_ffff_ffff,
                ((n - i) as u128) <= 0xffff_ffff_ffff_ffff,
        ;
    }
    let prod: u128 = elapsed * ((n - i) as u128);
    let denom: u128 = 1000 * (i as u128);
    let est: u128 = if prod == 0 {
        0
    } else {
        proof {
            assert(((prod as int) - 1) / (denom as int) <= (prod as int) - 1) by (nonlinear_arith)
                requires
                    prod >= 1,
                    denom >= 1,
            ;
        }
        (prod - 1) / denom + 1
    };
    if est > 0xffff_ffff_ffff_ffff {
        u64::MAX
    } else {
        est as u64
    }
}

/// The per-campaign update: progress, position, title, and the running
/// estimate.
pub fn campaign_update(i: usize, n: usize, title: &str, start_ms: u64, now_ms: u64) -> (r:
    ProgressUpdate)
    requires
        i < n,
    ensures
        r@ == campaign_update_spec(i as int, n as int, title@, start_ms, now_ms),
{
    let mut m = String::from_str("Processing campaign ");
    let pos = crate::text::u128_to_string(i as u128 + 1);
    m.append(pos.as_str());
    m.append(" of ");
    let total = crate::text::u128_to_string(n as u128);
    m.append(total.as_str());
    m.append(": ");
    m.append(title);
    let q: u128 = (i as u128) * 40 / (n as u128);
    proof {
        assert((i as int) * 40 / (n as int) < 40) by (nonlinear_arith)
            requires
                0 <= i < n,
        ;
        assert((i as int) * 40 / (n as int) >= 0) by (nonlinear_arith)
            requires
                0 <= i < n,
        ;
        assert(q == (i as int) * 40 / (n as int));
    }
    let progress: u8 = 40 + (q as u8);
    let eta: u64 = if i == 0 {
        (n / 2) as u64
    } else {
        running_eta(start_ms, now_ms, i, n)
    };
    ProgressUpdate {
        stage: Stage::ProcessingCampaigns,
        progress,
        message: m,
        time_remaining: Some(eta),
    }
}

pub fn finalizing_update() -> (r: ProgressUpdate)
    ensures
        r@ == finalizing_update_spec(),
{
    ProgressUpdate {
        stage: Stage::FinalizingReport,
        progress: 80,
        message: String::from_str("Processing complete. Organizing report data..."),
        time_remaining: Some(15),
    }
}

pub fn saving_update() -> (r: ProgressUpdate)
    ensures
        r@ == saving_update_spec(),
{
    ProgressUpdate {
        stage: Stage::SavingReport,
        progress: 90,
        message: String::from_str("Finalizing and saving report..."),
        time_remaining: Some(5),
    }
}

pub fn complete_update() -> (r: ProgressUpdate)
    ensures
        r@ == complete_update_spec(),
{
    ProgressUpdate {
        stage: Stage::Complete,
        progress: 100,
        message: String::from_str("Report generation complete!"),
        time_remaining: Some(0),
    }
}

} // verus!
