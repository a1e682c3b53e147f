use vstd::prelude::*;

use crate::batch::{spec_batch, spec_batch_count, split_batches};
use crate::http::{
    HttpRequest, append_request, page_request, reset_request, spec_append_request,
    spec_page_request, spec_reset_request, spec_token_request, token_request,
};
use crate::model::{AccessToken, Config, Page, SyncError, strings, views};
use crate::order::{compute_order, spec_compute_order};
use crate::paginate::Paginator;
use crate::spec_status_ok;
use crate::status_ok;

verus! {

/// The delay observed between two append requests, in milliseconds.
pub const BATCH_DELAY_MS: u64 = 100;

/// What the driver is to do next. A run ends with `Finished` or `Abort`;
/// after an `Abort` nothing further is sent in that run, and the next
/// scheduled tick starts a fresh one.
pub enum Step {
    /// Issue the request and hand its response back.
    Send(HttpRequest),
    /// Wait the given number of milliseconds, then issue the request and
    /// hand its response back.
    DelaySend(u64, HttpRequest),
    /// The run finished successfully.
    Finished,
    /// The run failed with the given error; nothing further is sent.
    Abort(SyncError),
}

/// One synchronization run: the sequence of decisions between the token
/// exchange, the reset of the destination, the paged reading of the
/// source, and the rate-limited batched writing. The driver performs
/// each returned request and hands the response to the matching handler;
/// every decision in between is made here.
pub struct Workflow {
    pub cfg: Config,
    pub token: String,
    pub pag: Paginator,
    pub batches: Vec<Vec<String>>,
    pub next_batch: usize,
}

impl Workflow {
    /// Begins a run: the first thing on the wire is the token request —
    /// before it succeeds, nothing else is sent.
    pub fn start(cfg: Config) -> (r: (Workflow, HttpRequest))
        ensures
            r.0.cfg == cfg,
            r.1@ == spec_token_request(cfg@),
    {
        let req = token_request(&cfg);
        let w = Workflow {
            cfg,
            token: String::new(),
            pag: Paginator::new(),
            batches: Vec::new(),
            next_batch: 0,
        };
        (w, req)
    }

    /// Decides on the token endpoint's response. On a success the reset
    /// of the destination goes out; on any non-2xx status — or a 2xx
    /// body that did not parse into a token — the run is aborted with
    /// the auth error carrying the body text, and no further request of
    /// this run is issued.
    pub fn on_token(&mut self, status: u16, body: String, token: Option<AccessToken>) -> (r: Step)
        ensures
            !spec_status_ok(status) ==> (r matches Step::Abort(e) && e == SyncError::Auth(body)
                && *final(self) == *old(self)),
            spec_status_ok(status) && token is None ==> (r matches Step::Abort(e) && e
                == SyncError::Auth(body)),
            spec_status_ok(status) ==> (token matches Some(t) ==> final(self).token@
                == t.access_token@ && (r matches Step::Send(req) && req@ == spec_reset_request(
                t.access_token@,
                old(self).cfg@.to,
            ))),
    {
        if !status_ok(status) {
            return Step::Abort(SyncError::Auth(body));
        }
        match token {
            None => Step::Abort(SyncError::Auth(body)),
            Some(t) => {
                self.token = t.access_token;
                Step::Send(reset_request(self.token.as_str(), self.cfg.to.as_str()))
            },
        }
    }

    /// Decides on the reset response. On success the paged reading of
    /// the source playlist begins at offset zero; on failure the run is
    /// aborted with the reset error carrying the body text.
    pub fn on_reset(&mut self, status: u16, body: String) -> (r: Step)
        ensures
            !spec_status_ok(status) ==> (r matches Step::Abort(e) && e == SyncError::Reset(body)
                && *final(self) == *old(self)),
            spec_status_ok(status) ==> final(self).pag@ == Paginator::spec_init() && (r matches
                Step::Send(req) && req@ == spec_page_request(
                old(self).token@,
                old(self).cfg@.from,
                0,
            )) && final(self).token == old(self).token && final(self).cfg == old(self).cfg,
    {
        if !status_ok(status) {
            return Step::Abort(SyncError::Reset(body));
        }
        self.pag = Paginator::new();
        Step::Send(page_request(self.token.as_str(), self.cfg.from.as_str(), 0))
    }

    /// Decides on one page response. On failure — a non-2xx status, or a
    /// 2xx body that did not parse — the run is aborted with the fetch
    /// error and no partial listing is used. On success the page is
    /// absorbed; while a cursor is present the next page goes out at the
    /// advanced offset, and with the final page the gathered items are
    /// ordered, split into batches, and the first append goes out — or
    /// the run finishes at once when nothing is to be written.
    pub fn on_page(&mut self, status: u16, body: String, page: Option<Page>) -> (r: Step)
        requires
            !old(self).pag@.done,
            old(self).pag@.offset + 50 <= u64::MAX,
        ensures
            !spec_status_ok(status) ==> (r matches Step::Abort(e) && e == SyncError::Fetch(body)
                && *final(self) == *old(self)),
            spec_status_ok(status) && page is None ==> (r matches Step::Abort(e) && e
                == SyncError::Fetch(body) && *final(self) == *old(self)),
            spec_status_ok(status) ==> (page matches Some(pg) ==> {
                &&& final(self).token == old(self).token
                &&& final(self).cfg == old(self).cfg
                &&& (pg@.has_next ==> final(self).pag@ == Paginator::spec_absorb(
                    old(self).pag@,
                    pg@,
                ) && (r matches Step::Send(req) && req@ == spec_page_request(
                    old(self).token@,
                    old(self).cfg@.from,
                    old(self).pag@.offset + 50,
                )))
                &&& (!pg@.has_next ==> {
                    let order = spec_compute_order(Paginator::spec_absorb(
                        old(self).pag@,
                        pg@,
                    ).items);
                    &&& final(self).pag@.done
                    &&& final(self).batches@.len() == spec_batch_count(order.len())
                    &&& (forall|i: int|
                        0 <= i < final(self).batches@.len() ==> strings(
                            (#[trigger] final(self).batches@[i])@,
                        ) == spec_batch(order, i))
                    &&& (order.len() == 0 ==> r is Finished)
                    &&& (order.len() > 0 ==> final(self).next_batch == 1 && (r matches Step::Send(
                        req,
                    ) && req@ == spec_append_request(
                        old(self).token@,
                        old(self).cfg@.to,
                        spec_batch(order, 0),
                    )))
                })
            }),
    {
        if !status_ok(status) {
            return Step::Abort(SyncError::Fetch(body));
        }
        let pg = match page {
            None => {
                return Step::Abort(SyncError::Fetch(body));
            },
            Some(pg) => pg,
        };
        self.pag.absorb_page(pg);
        if !self.pag.done {
            return Step::Send(
                page_request(self.token.as_str(), self.cfg.from.as_str(), self.pag.offset),
            );
        }
        let mut items: Vec<crate::model::PlaylistItem> = Vec::new();
        core::mem::swap(&mut items, &mut self.pag.items);
        let ghost gathered = views(items@);
        let uris = compute_order(items);
        proof {
            assert(strings(uris@) == spec_compute_order(gathered));
        }
        self.batches = split_batches(uris);
        self.next_batch = 0;
        if self.batches.len() == 0 {
            return Step::Finished;
        }
        self.next_batch = 1;
        Step::Send(append_request(self.token.as_str(), self.cfg.to.as_str(), &self.batches[0]))
    }

    /// Decides on one append response. On success the next batch goes
    /// out after the fixed inter-batch delay, in sequence order, until
    /// none is left and the run finishes; on failure the run is aborted
    /// at once with the write error, and the batches already appended
    /// stay as they are.
    pub fn on_append(&mut self, status: u16, body: String) -> (r: Step)
        requires
            old(self).next_batch <= old(self).batches@.len(),
        ensures
            !spec_status_ok(status) ==> (r matches Step::Abort(e) && e == SyncError::Write(body)
                && *final(self) == *old(self)),
            spec_status_ok(status) && old(self).next_batch == old(self).batches@.len() ==> r
                is Finished && *final(self) == *old(self),
            spec_status_ok(status) && old(self).next_batch < old(self).batches@.len() ==> {
                &&& final(self).next_batch == old(self).next_batch + 1
                &&& final(self).batches == old(self).batches
                &&& (r matches Step::DelaySend(d, req) && d == BATCH_DELAY_MS && req@
                    == spec_append_request(
                    old(self).token@,
                    old(self).cfg@.to,
                    strings(old(self).batches@[old(self).next_batch as int]@),
                ))
            },
    {
        if !status_ok(status) {
            return Step::Abort(SyncError::Write(body));
        }
        if self.next_batch == self.batches.len() {
            return Step::Finished;
        }
        let req = append_request(
            self.token.as_str(),
            self.cfg.to.as_str(),
            &self.batches[self.next_batch],
        );
        self.next_batch = self.next_batch + 1;
        Step::DelaySend(BATCH_DELAY_MS, req)
    }
}

/// What the idle loop does with the scheduler's report of the time until
/// the next job.
#[derive(PartialEq, Eq, Structural, Debug)]
pub enum IdleStep {
    /// Sleep exactly this many milliseconds until the next due tick.
    Sleep(u64),
    /// No job is scheduled at all: a fatal configuration defect, and the
    /// process terminates with an error — unlike a failed run, which
    /// only waits for the following tick.
    FatalNoJobs,
}

/// Decides the idle loop's behaviour: sleep for exactly the reported
/// time, or terminate when the scheduler reports no upcoming job.
pub fn idle_step(until_next_ms: Option<u64>) -> (r: IdleStep)
    ensures
        until_next_ms matches Some(ms) ==> r == IdleStep::Sleep(ms),
        until_next_ms is None ==> r == IdleStep::FatalNoJobs,
{
    match until_next_ms {
        Some(ms) => IdleStep::Sleep(ms),
        None => IdleStep::FatalNoJobs,
    }
}

} // verus!
