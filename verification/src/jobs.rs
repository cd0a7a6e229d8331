//! Background job bookkeeping: the queue and cancellation rules that the
//! worker threads follow. The threads themselves live outside this
//! library; every decision they take on the queue is a function here.

use vstd::prelude::*;

verus! {

#[derive(Clone, Copy, Debug, PartialEq, Eq, Structural)]
pub enum JobError {
    Stopped,
}

/// The kinds of background work run for an imported asset.
#[derive(Clone, Copy, Debug, PartialEq, Eq, Structural)]
pub enum JobKind {
    Waveform,
    Thumbnails,
    Proxy,
    SeekIndex,
}

/// The short name a job kind is recorded under.
pub fn job_kind_name(kind: JobKind) -> (r: &'static str)
    ensures
        kind == JobKind::Waveform ==> r@ == "waveform"@,
        kind == JobKind::Thumbnails ==> r@ == "thumbs"@,
        kind == JobKind::Proxy ==> r@ == "proxy"@,
        kind == JobKind::SeekIndex ==> r@ == "seekidx"@,
{
    match kind {
        JobKind::Waveform => "waveform",
        JobKind::Thumbnails => "thumbs",
        JobKind::Proxy => "proxy",
        JobKind::SeekIndex => "seekidx",
    }
}

/// A job request: which asset, what work, and its priority.
#[derive(Clone, Debug)]
pub struct JobSpec {
    pub asset_id: String,
    pub kind: JobKind,
    pub priority: i32,
}

/// Lifecycle of one job; progress is carried in thousandths.
#[derive(Clone, Debug)]
pub enum JobStatus {
    Pending,
    Running,
    Progress(u32),
    Done,
    Failed(String),
    Canceled,
}

/// Relies on `uuid::Uuid::new_v4` and its `Display` form: a freshly drawn
/// random version-4 identifier printed in the hyphenated format, which is
/// always 36 ASCII characters. Nothing is assumed about which identifier
/// comes back.
#[verifier::external_body]
fn new_job_id() -> (r: String)
    ensures
        r@.len() == 36,
{
    uuid::Uuid::new_v4().to_string()
}

/// The pending-job queue with its cancellation set. Submissions of
/// canceled identifiers are dropped, and the dispatcher hands out the
/// first job that has not been canceled.
pub struct JobQueue {
    pub queue: Vec<(String, JobSpec)>,
    pub canceled: Vec<String>,
}

impl JobQueue {
    pub open spec fn spec_is_canceled(self, id: Seq<char>) -> bool {
        exists|i: int| 0 <= i < self.canceled@.len() && (#[trigger] self.canceled@[i])@ == id
    }

    pub fn new() -> (r: Self)
        ensures
            r.queue@.len() == 0,
            r.canceled@.len() == 0,
    {
        JobQueue { queue: Vec::new(), canceled: Vec::new() }
    }

    pub fn is_canceled(&self, id: &String) -> (r: bool)
        ensures
            r == self.spec_is_canceled(id@),
    {
        let n = self.canceled.len();
        let mut i: usize = 0;
        while i < n
            invariant
                n == self.canceled@.len(),
                i <= n,
                forall|j: int| 0 <= j < i ==> (#[trigger] self.canceled@[j])@ != id@,
            decreases n - i,
        {
            if self.canceled[i] == *id {
                return true;
            }
            i = i + 1;
        }
        false
    }

    /// Accept a submission unless its identifier was already canceled.
    pub fn submit(&mut self, id: String, spec: JobSpec) -> (r: bool)
        ensures
            final(self).canceled == old(self).canceled,
            (r <==> !old(self).spec_is_canceled(id@)),
            r ==> final(self).queue@ == old(self).queue@.push((id, spec)),
            !r ==> final(self).queue == old(self).queue,
    {
        if self.is_canceled(&id) {
            return false;
        }
        self.queue.push((id, spec));
        true
    }

    /// Draw a fresh identifier and submit the job under it. Unless the
    /// identifier happens to be canceled already, exactly this job is
    /// appended under that identifier; the identifier is returned either
    /// way and is 36 characters long.
    pub fn enqueue(&mut self, spec: JobSpec) -> (r: String)
        ensures
            r@.len() == 36,
            final(self).canceled == old(self).canceled,
            !old(self).spec_is_canceled(r@) ==> {
                &&& final(self).queue@.len() == old(self).queue@.len() + 1
                &&& forall|i: int|
                    0 <= i < old(self).queue@.len() ==> final(self).queue@[i] == old(
                        self,
                    ).queue@[i]
                &&& (final(self).queue@.last().0)@ == r@
                &&& final(self).queue@.last().1 == spec
            },
            old(self).spec_is_canceled(r@) ==> final(self).queue == old(self).queue,
    {
        let id = new_job_id();
        let id_copy = id.clone();
        self.submit(id_copy, spec);
        id
    }

    /// Mark an identifier canceled.
    pub fn cancel(&mut self, id: String)
        ensures
            final(self).queue == old(self).queue,
            final(self).canceled@ == old(self).canceled@.push(id),
            final(self).spec_is_canceled(id@),
    {
        self.canceled.push(id);
        proof {
            let n = self.canceled@.len() - 1;
            assert((self.canceled@[n])@ == id@);
        }
    }

    /// Hand the dispatcher the first job that is not canceled, dropping
    /// every canceled job in front of it; the rest of the queue stays.
    pub fn next_job(&mut self) -> (r: Option<(String, JobSpec)>)
        ensures
            final(self).canceled == old(self).canceled,
            r matches Some(job) ==> exists|p: int|
                {
                    &&& 0 <= p < old(self).queue@.len()
                    &&& job == #[trigger] old(self).queue@[p]
                    &&& !final(self).spec_is_canceled(old(self).queue@[p].0@)
                    &&& final(self).queue@ == old(self).queue@.skip(p + 1)
                    &&& forall|q: int|
                        0 <= q < p ==> final(self).spec_is_canceled(
                            (#[trigger] old(self).queue@[q]).0@,
                        )
                },
            r is None ==> {
                &&& final(self).queue@.len() == 0
                &&& forall|q: int|
                    0 <= q < old(self).queue@.len() ==> final(self).spec_is_canceled(
                        (#[trigger] old(self).queue@[q]).0@,
                    )
            },
    {
        let ghost k: int = 0;
        while self.queue.len() > 0
            invariant
                self.canceled == old(self).canceled,
                0 <= k <= old(self).queue@.len(),
                self.queue@ == old(self).queue@.skip(k),
                forall|q: int|
                    0 <= q < k ==> self.spec_is_canceled((#[trigger] old(self).queue@[q]).0@),
            decreases self.queue@.len(),
        {
            let (id, spec) = self.queue.remove(0);
            let canceled = self.is_canceled(&id);
            proof {
                assert(old(self).queue@.skip(k)[0] == old(self).queue@[k]);
                assert(self.queue@ =~= old(self).queue@.skip(k + 1));
            }
            if !canceled {
                proof {
                    assert((id, spec) == old(self).queue@[k]);
                }
                return Some((id, spec));
            }
            proof {
                k = k + 1;
            }
        }
        None
    }
}

} // verus!
