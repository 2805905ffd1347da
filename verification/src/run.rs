//! The orchestrated download: which entries are worked on, what one
//! item's work consists of, and the running counts reported at the end.
use vstd::prelude::*;

use crate::extract::extract_media_urls;
use crate::extract::extract_tweet_data;
use crate::extract::extract_tweet_id;
use crate::extract::extract_tweet_object;
use crate::extract::extract_username;
use crate::extract::spec_media_urls;
use crate::extract::spec_tweet_data;
use crate::extract::spec_tweet_id;
use crate::extract::spec_tweet_object;
use crate::extract::spec_username;
use crate::fetch::format_file_prefix;
use crate::fetch::spec_file_prefix;
use crate::json::Json;
use crate::ledger::Ledger;

verus! {

/// What the orchestrator does with one raw entry: entries without any
/// identifier are skipped entirely; identifiers already in the ledger
/// are not downloaded again.
pub enum EntryPlan {
    NoId,
    AlreadyDone(String),
    Process(String),
}

pub fn plan_entry(entry: &Json, ledger: &Ledger) -> (p: EntryPlan)
    ensures
        match p {
            EntryPlan::NoId => spec_tweet_id(spec_tweet_data(*entry)) is None,
            EntryPlan::AlreadyDone(id) => spec_tweet_id(spec_tweet_data(*entry)) == Some(id@)
                && ledger@.contains(id@),
            EntryPlan::Process(id) => spec_tweet_id(spec_tweet_data(*entry)) == Some(id@)
                && !ledger@.contains(id@),
        },
{
    let td = extract_tweet_data(entry);
    match extract_tweet_id(td) {
        Some(id) => {
            if ledger.is_downloaded(id.as_str()) {
                EntryPlan::AlreadyDone(id)
            } else {
                EntryPlan::Process(id)
            }
        },
        None => EntryPlan::NoId,
    }
}

/// The work one item needs: the filename prefix and the media URLs, or
/// nothing where the item has no media to download.
pub struct MediaPlan {
    pub prefix: String,
    pub urls: Vec<String>,
}

pub fn plan_media_download(entry_data: &Json, tweet_id: &str, file_format: &str) -> (r: Option<
    MediaPlan,
>)
    ensures
        (match r {
            Some(plan) => spec_media_urls(spec_tweet_object(*entry_data)).len() > 0
                && plan.urls.deep_view() == spec_media_urls(spec_tweet_object(*entry_data))
                && plan.prefix@ == spec_file_prefix(
                file_format@,
                match spec_username(spec_tweet_object(*entry_data)) {
                    Some(u) => u,
                    None => Seq::empty(),
                },
                tweet_id@,
            ),
            None => spec_media_urls(spec_tweet_object(*entry_data)).len() == 0,
        }),
{
    let tobj = extract_tweet_object(entry_data);
    let username = extract_username(tobj);
    let urls = extract_media_urls(tobj);
    if urls.len() == 0 {
        return None;
    }
    let uname: String = match username {
        Some(u) => u,
        None => String::new(),
    };
    let prefix = format_file_prefix(file_format, uname.as_str(), tweet_id);
    Some(MediaPlan { prefix, urls })
}

/// Running counts of one download run: items worked on, items with at
/// least one media file materialized, items where every reference
/// failed. Items without media touch no counter.
pub struct RunStats {
    pub processed: u64,
    pub succeeded: u64,
    pub failed: u64,
}

impl RunStats {
    pub fn new() -> (r: RunStats)
        ensures
            r.processed == 0,
            r.succeeded == 0,
            r.failed == 0,
    {
        RunStats { processed: 0, succeeded: 0, failed: 0 }
    }

    /// Applies one item's outcome: `None` is the silent no-media case,
    /// `Some(true)` a success, `Some(false)` an item whose every
    /// reference failed.
    pub fn apply_item_result(&mut self, outcome: &Option<bool>)
        requires
            old(self).processed < u64::MAX,
            old(self).succeeded < u64::MAX,
            old(self).failed < u64::MAX,
        ensures
            *outcome is None ==> *final(self) == *old(self),
            *outcome is Some ==> final(self).processed == old(self).processed + 1,
            *outcome == Some(true) ==> final(self).succeeded == old(self).succeeded + 1
                && final(self).failed == old(self).failed,
            *outcome == Some(false) ==> final(self).failed == old(self).failed + 1
                && final(self).succeeded == old(self).succeeded,
    {
        match outcome {
            Some(true) => {
                self.processed = self.processed + 1;
                self.succeeded = self.succeeded + 1;
            },
            Some(false) => {
                self.processed = self.processed + 1;
                self.failed = self.failed + 1;
            },
            None => {},
        }
    }
}

} // verus!
