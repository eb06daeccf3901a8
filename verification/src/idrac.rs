//! The jobs and attributes that a Dell iDRAC reports.

use crate::redfish::{Resource, ResourceView};
use crate::text::{concat, decimal_digits, decimal_text, same};
use crate::textmap::{has_key, unique_keys, value_of, TextMap};
use vstd::prelude::*;

verus! {

/// The states of a job.
#[derive(Debug, Clone, Copy, PartialEq, Eq, Structural)]
pub enum JobState {
    Scheduled,
    Completed,
}

/// One job. Times are seconds since the epoch.
#[derive(Debug, PartialEq, Eq)]
pub struct Job {
    pub job_id: String,
    pub job_state: JobState,
    pub job_type: String,
    pub start_time: i64,
    pub end_time: Option<i64>,
}

pub struct JobView {
    pub job_id: Seq<char>,
    pub job_state: JobState,
    pub job_type: Seq<char>,
    pub start_time: i64,
    pub end_time: Option<i64>,
}

impl View for Job {
    type V = JobView;

    open spec fn view(&self) -> JobView {
        JobView {
            job_id: self.job_id@,
            job_state: self.job_state,
            job_type: self.job_type@,
            start_time: self.start_time,
            end_time: self.end_time,
        }
    }
}

impl DeepView for Job {
    type V = JobView;

    open spec fn deep_view(&self) -> JobView {
        self@
    }
}

impl Clone for Job {
    fn clone(&self) -> (r: Self)
        ensures
            r@ == self@,
    {
        Job {
            job_id: self.job_id.clone(),
            job_state: self.job_state,
            job_type: self.job_type.clone(),
            start_time: self.start_time,
            end_time: self.end_time,
        }
    }
}

/// The name under which a job state is reported.
pub open spec fn job_state_text(state: JobState) -> Seq<char> {
    match state {
        JobState::Scheduled => "Scheduled"@,
        JobState::Completed => "Completed"@,
    }
}

/// The name under which a job state is reported.
pub fn job_state_name(state: JobState) -> (r: &'static str)
    ensures
        r@ == job_state_text(state),
{
    match state {
        JobState::Scheduled => "Scheduled",
        JobState::Completed => "Completed",
    }
}

impl Job {
    /// Whether this is a configuration job of the iDRAC.
    pub fn is_dell_job(&self) -> (r: bool)
        ensures
            r == (self.job_type@ == "DellConfiguration"@),
    {
        same(self.job_type.as_str(), "DellConfiguration")
    }

    /// How much of the job is done, in percent: all of a completed job, none
    /// of any other.
    pub fn percent_complete(&self) -> (r: i32)
        ensures
            r == if self.job_state == JobState::Completed {
                100i32
            } else {
                0i32
            },
    {
        match self.job_state {
            JobState::Completed => 100,
            _ => 0,
        }
    }
}

/// The resource of the iDRAC's attributes.
pub fn attributes_resource() -> (r: Resource)
    ensures
        r@ == (ResourceView {
            odata_id: "/redfish/v1/Managers/iDRAC.Embedded.1/Oem/Dell/DellAttributes/iDRAC.Embedded.1"@,
            odata_type: "#DellAttributes.v1_0_0.DellAttributes"@,
            id: "iDRACAttributes"@,
            name: "OEMAttributeRegistry"@,
        }),
{
    Resource {
        odata_id: "/redfish/v1/Managers/iDRAC.Embedded.1/Oem/Dell/DellAttributes/iDRAC.Embedded.1".to_owned(),
        odata_type: "#DellAttributes.v1_0_0.DellAttributes".to_owned(),
        id: "iDRACAttributes".to_owned(),
        name: "OEMAttributeRegistry".to_owned(),
    }
}

/// The identifier of the job with the number `number`.
pub open spec fn job_id_of(number: u64) -> Seq<char> {
    "JID_"@ + decimal_digits(number as nat)
}

/// A configuration job as it is when it was just created.
pub open spec fn scheduled_job(number: u64, now: i64) -> JobView {
    JobView {
        job_id: job_id_of(number),
        job_state: JobState::Scheduled,
        job_type: "DellConfiguration"@,
        start_time: now,
        end_time: None,
    }
}

/// A job after the configuration jobs were completed at `now`: a
/// configuration job is completed and has ended at `now`; any other job is
/// as it was.
pub open spec fn completed(job: JobView, now: i64) -> JobView {
    if job.job_type == "DellConfiguration"@ {
        JobView { job_state: JobState::Completed, end_time: Some(now), ..job }
    } else {
        job
    }
}

/// The jobs of an iDRAC, each under its identifier.
#[derive(Debug)]
pub struct IdracState {
    jobs: TextMap<Job>,
}

impl View for IdracState {
    type V = Seq<(Seq<char>, JobView)>;

    closed spec fn view(&self) -> Seq<(Seq<char>, JobView)> {
        self.jobs@
    }
}

impl IdracState {
    /// An iDRAC without jobs.
    pub fn new() -> (r: Self)
        ensures
            r@ == Seq::<(Seq<char>, JobView)>::empty(),
    {
        IdracState { jobs: TextMap::new() }
    }

    /// The number of jobs.
    pub fn job_count(&self) -> (r: usize)
        ensures
            r == self@.len(),
            unique_keys(self@),
    {
        self.jobs.len()
    }

    /// The job under `job_id`, where there is one.
    pub fn get_job(&self, job_id: &str) -> (r: Option<Job>)
        ensures
            r.deep_view() == value_of(self@, job_id@),
    {
        match self.jobs.get(job_id) {
            Some(job) => Some(job.clone()),
            None => None,
        }
    }

    /// Creates a configuration job with the number `candidate`, started at
    /// `now`, and returns its identifier. Where a job of that identifier
    /// exists already, nothing changes and nothing is returned: the caller
    /// comes again with another number.
    pub fn add_job(&mut self, candidate: u64, now: i64) -> (r: Option<String>)
        ensures
            match r {
                Some(id) => id@ == job_id_of(candidate) && !has_key(old(self)@, id@)
                    && final(self)@ == old(self)@.push((id@, scheduled_job(candidate, now))),
                None => has_key(old(self)@, job_id_of(candidate)) && final(self)@ == old(self)@,
            },
    {
        let job_id = concat("JID_", decimal_text(candidate).as_str());
        if self.jobs.contains_key(job_id.as_str()) {
            return None;
        }
        let job = Job {
            job_id: job_id.clone(),
            job_state: JobState::Scheduled,
            job_type: "DellConfiguration".to_owned(),
            start_time: now,
            end_time: None,
        };
        self.jobs.insert(job_id.clone(), job);
        Some(job_id)
    }

    /// Completes every configuration job at `now`. The other jobs, and the
    /// identifiers and the order of all jobs, stay as they are.
    pub fn complete_all_bios_jobs(&mut self, now: i64)
        ensures
            final(self)@ == Seq::new(
                old(self)@.len(),
                |i: int| (old(self)@[i].0, completed(old(self)@[i].1, now)),
            ),
    {
        let n: usize = self.jobs.len();
        let mut done: TextMap<Job> = TextMap::new();
        let mut i: usize = 0;
        let ghost before = self.jobs@;
        while i < n
            invariant
                n == before.len(),
                before == self.jobs@,
                unique_keys(before),
                i <= n,
                done@.len() == i,
                forall|j: int|
                    0 <= j < i ==> #[trigger] done@[j] == (before[j].0, completed(before[j].1, now)),
            decreases n - i,
        {
            let job = self.jobs.value_at(i);
            let key = self.jobs.key_at(i);
            let finished = if job.is_dell_job() {
                Job {
                    job_id: job.job_id.clone(),
                    job_state: JobState::Completed,
                    job_type: job.job_type.clone(),
                    start_time: job.start_time,
                    end_time: Some(now),
                }
            } else {
                job.clone()
            };
            proof {
                assert(!has_key(done@, key@)) by {
                    if has_key(done@, key@) {
                        let j = crate::textmap::key_index(done@, key@);
                        assert(done@[j].0 == before[j].0);
                        assert(before[j].0 != before[i as int].0);
                    }
                }
            }
            let ghost prev = done@;
            done.insert(key.to_owned(), finished);
            proof {
                assert(done@ == prev.push((before[i as int].0, completed(before[i as int].1, now))));
            }
            i = i + 1;
        }
        proof {
            assert(done@ =~= Seq::new(
                before.len(),
                |i: int| (before[i].0, completed(before[i].1, now)),
            ));
        }
        self.jobs = done;
    }
}

} // verus!
