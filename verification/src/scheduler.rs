use vstd::prelude::*;

use crate::paths::{
    archive_name, archive_name_spec, get_last_segment, last_segment_spec, remote_path,
    remote_path_spec,
};

verus! {

/// One backup job, fixed at startup for the life of the process.
pub struct BackupJob {
    pub delay_minutes: u32,
    pub host: String,
    pub local_path: String,
    pub remote_dir: String,
    pub username: String,
    pub password: String,
}

/// The decisions of one cycle: what the archive built from the local
/// path is called, where it goes on the remote host, and how long to
/// sleep before the next cycle.
pub struct CyclePlan {
    pub archive_name: String,
    pub remote_dest: String,
    pub sleep_seconds: u64,
}

/// Plans one cycle: the archive is named after the last segment of the
/// local path with the archive suffix appended, it is sent to that name
/// under the remote directory, and the process then sleeps the
/// configured number of minutes.
pub fn plan_cycle(job: &BackupJob) -> (p: CyclePlan)
    ensures
        p.archive_name@ == archive_name_spec(last_segment_spec(job.local_path@)),
        p.remote_dest@ == remote_path_spec(job.remote_dir@, p.archive_name@),
        p.sleep_seconds == job.delay_minutes as u64 * 60,
{
    let base = get_last_segment(job.local_path.as_str());
    let name = archive_name(base.as_str());
    let dest = remote_path(job.remote_dir.as_str(), name.as_str());
    let sleep_seconds = (job.delay_minutes as u64) * 60;
    CyclePlan { archive_name: name, remote_dest: dest, sleep_seconds }
}

} // verus!
