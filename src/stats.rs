use crate::discord::InviteInfo;
use vstd::prelude::*;

verus! {

/// One row of the statistics table: a server's counters at one moment.
#[derive(Debug, Clone)]
pub struct DiscordStat {
    pub channel_name: String,
    pub approximate_member_count: usize,
    pub approximate_presence_count: usize,
    pub collected_at_ms_utc: i64,
}

/// The row recorded for `info` when the batch was collected at
/// `collected_at_ms_utc` (milliseconds since the Unix epoch).
pub fn stat_from_invite(info: &InviteInfo, collected_at_ms_utc: i64) -> (r: DiscordStat)
    ensures
        r.channel_name@ == info.profile.name@,
        r.approximate_member_count == info.approximate_member_count,
        r.approximate_presence_count == info.approximate_presence_count,
        r.collected_at_ms_utc == collected_at_ms_utc,
{
    DiscordStat {
        channel_name: info.profile.name.clone(),
        approximate_member_count: info.approximate_member_count,
        approximate_presence_count: info.approximate_presence_count,
        collected_at_ms_utc,
    }
}

/// The rows of a whole batch, one per record and in the same order, all
/// stamped with the single collection time of the batch.
pub fn stats_for_batch(results: &Vec<InviteInfo>, collected_at_ms_utc: i64) -> (r: Vec<DiscordStat>)
    ensures
        r@.len() == results@.len(),
        forall|i: int|
            0 <= i < r@.len() ==> {
                &&& (#[trigger] r@[i]).channel_name@ == results@[i].profile.name@
                &&& r@[i].approximate_member_count == results@[i].approximate_member_count
                &&& r@[i].approximate_presence_count == results@[i].approximate_presence_count
                &&& r@[i].collected_at_ms_utc == collected_at_ms_utc
            },
{
    let mut rows: Vec<DiscordStat> = Vec::new();
    let mut i: usize = 0;
    while i < results.len()
        invariant
            i <= results@.len(),
            rows@.len() == i,
            forall|j: int|
                0 <= j < i ==> {
                    &&& (#[trigger] rows@[j]).channel_name@ == results@[j].profile.name@
                    &&& rows@[j].approximate_member_count == results@[j].approximate_member_count
                    &&& rows@[j].approximate_presence_count
                        == results@[j].approximate_presence_count
                    &&& rows@[j].collected_at_ms_utc == collected_at_ms_utc
                },
        decreases results@.len() - i,
    {
        rows.push(stat_from_invite(&results[i], collected_at_ms_utc));
        i = i + 1;
    }
    rows
}

} // verus!
