use vstd::prelude::*;
use vstd::seq_lib::*;

use crate::errors::EsError;
use crate::protocol::handle_list_response;
use crate::protocol::json_keys_at_path;
use crate::protocol::spec_is_success_status;
use crate::repository::EsRepositoryImpl;

verus! {

/// Orchestrates the migration: lists the stored templates of the source
/// repository and, for each, fetches it there and uploads it to the
/// target repository. A failure to enumerate or to fetch aborts the
/// whole run; a failure to upload only skips that template.
#[derive(Debug)]
pub struct TemplateCopyService {
    source_repo: EsRepositoryImpl,
    target_repo: EsRepositoryImpl,
}

impl TemplateCopyService {
    /// The repository templates are read from.
    pub closed spec fn spec_source_repo(&self) -> EsRepositoryImpl {
        self.source_repo
    }

    /// The repository templates are written to.
    pub closed spec fn spec_target_repo(&self) -> EsRepositoryImpl {
        self.target_repo
    }

    pub fn new(source_repo: EsRepositoryImpl, target_repo: EsRepositoryImpl) -> (s: Self)
        ensures
            s.spec_source_repo() == source_repo,
            s.spec_target_repo() == target_repo,
    {
        TemplateCopyService { source_repo, target_repo }
    }

    pub fn source_repo(&self) -> (r: &EsRepositoryImpl)
        ensures
            *r == self.spec_source_repo(),
    {
        &self.source_repo
    }

    pub fn target_repo(&self) -> (r: &EsRepositoryImpl)
        ensures
            *r == self.spec_target_repo(),
    {
        &self.target_repo
    }
}

/// The controller in front of the copy service: the entry point a caller
/// drives one whole copy through.
#[derive(Debug)]
pub struct TemplateCopyController {
    service: TemplateCopyService,
}

impl TemplateCopyController {
    pub fn new(service: TemplateCopyService) -> (c: Self)
        ensures
            c.spec_service() == service,
    {
        TemplateCopyController { service }
    }

    /// The copy service this controller drives.
    pub closed spec fn spec_service(&self) -> TemplateCopyService {
        self.service
    }

    pub fn service(&self) -> (r: &TemplateCopyService)
        ensures
            *r == self.spec_service(),
    {
        &self.service
    }
}

/// The progress of one copy run over a snapshot of template names taken
/// at the start: which names have been processed, which uploads
/// completed and which failed. The caller fetches and uploads each
/// template in turn and records the outcome; an upload failure does not
/// abort the run.
#[derive(Debug)]
pub struct CopyRun {
    names: Vec<String>,
    pos: usize,
    completed: Vec<String>,
    failed: Vec<String>,
}

impl CopyRun {
    /// The snapshot of template names the run walks.
    pub closed spec fn names(&self) -> Seq<Seq<char>> {
        self.names.deep_view()
    }

    /// How many names have been processed so far.
    pub closed spec fn position(&self) -> nat {
        self.pos as nat
    }

    /// The names whose upload completed, in processed order.
    pub closed spec fn completed(&self) -> Seq<Seq<char>> {
        self.completed.deep_view()
    }

    /// The names whose upload failed, in processed order.
    pub closed spec fn failed(&self) -> Seq<Seq<char>> {
        self.failed.deep_view()
    }

    /// Every processed name was recorded, as completed or as failed.
    pub open spec fn wf(&self) -> bool {
        &&& self.position() <= self.names().len()
        &&& self.completed().to_multiset().add(self.failed().to_multiset()) == self.names().take(
            self.position() as int,
        ).to_multiset()
    }

    /// Starts a run over a snapshot of template names.
    pub fn new(names: Vec<String>) -> (run: Self)
        ensures
            run.wf(),
            run.names() == names.deep_view(),
            run.position() == 0,
            run.completed() == Seq::<Seq<char>>::empty(),
            run.failed() == Seq::<Seq<char>>::empty(),
    {
        let run = CopyRun { names, pos: 0, completed: Vec::new(), failed: Vec::new() };
        proof {
            broadcast use group_to_multiset_ensures;

            assert(run.names().take(0) =~= Seq::<Seq<char>>::empty());
            assert(run.completed().to_multiset().add(run.failed().to_multiset())
                =~= Seq::<Seq<char>>::empty().to_multiset());
        }
        run
    }

    /// The next template to copy, or `None` when the snapshot is done.
    pub fn next_template(&self) -> (r: Option<&String>)
        requires
            self.wf(),
        ensures
            r matches Some(name) ==> self.position() < self.names().len() && name@
                == self.names()[self.position() as int],
            r is None <==> self.position() == self.names().len(),
    {
        if self.pos < self.names.len() {
            Some(&self.names[self.pos])
        } else {
            None
        }
    }

    /// Records that the current template was fetched and uploaded; the
    /// run moves on to the next name.
    pub fn record_completed(&mut self)
        requires
            old(self).wf(),
            old(self).position() < old(self).names().len(),
        ensures
            final(self).wf(),
            final(self).names() == old(self).names(),
            final(self).position() == old(self).position() + 1,
            final(self).completed() == old(self).completed().push(
                old(self).names()[old(self).position() as int],
            ),
            final(self).failed() == old(self).failed(),
    {
        let n: usize = self.names.len();
        assert(self.pos < n);
        let name = self.names[self.pos].clone();
        self.completed.push(name);
        self.pos = self.pos + 1;
        proof {
            lemma_recorded_step(
                old(self).completed(),
                old(self).failed(),
                old(self).names(),
                old(self).position() as int,
            );
            assert(self.completed() =~= old(self).completed().push(
                old(self).names()[old(self).position() as int],
            ));
            assert(self.failed() =~= old(self).failed());
            assert(self.names() =~= old(self).names());
        }
    }

    /// Records that uploading the current template failed; the run still
    /// moves on — a per-template upload failure does not abort the batch.
    pub fn record_failed(&mut self)
        requires
            old(self).wf(),
            old(self).position() < old(self).names().len(),
        ensures
            final(self).wf(),
            final(self).names() == old(self).names(),
            final(self).position() == old(self).position() + 1,
            final(self).failed() == old(self).failed().push(
                old(self).names()[old(self).position() as int],
            ),
            final(self).completed() == old(self).completed(),
    {
        let n: usize = self.names.len();
        assert(self.pos < n);
        let name = self.names[self.pos].clone();
        self.failed.push(name);
        self.pos = self.pos + 1;
        proof {
            lemma_recorded_step(
                old(self).completed(),
                old(self).failed(),
                old(self).names(),
                old(self).position() as int,
            );
            assert(self.failed() =~= old(self).failed().push(
                old(self).names()[old(self).position() as int],
            ));
            assert(self.completed() =~= old(self).completed());
            assert(self.names() =~= old(self).names());
        }
    }

    /// Whether every name of the snapshot has been processed.
    pub fn finished(&self) -> (r: bool)
        requires
            self.wf(),
        ensures
            r == (self.position() == self.names().len()),
    {
        self.pos == self.names.len()
    }

    /// The names whose upload completed, in processed order.
    pub fn completed_names(&self) -> (r: &Vec<String>)
        ensures
            r.deep_view() == self.completed(),
    {
        &self.completed
    }

    /// The names whose upload failed, in processed order.
    pub fn failed_names(&self) -> (r: &Vec<String>)
        ensures
            r.deep_view() == self.failed(),
    {
        &self.failed
    }

    /// The finished run's result: success, regardless of how many
    /// individual uploads failed.
    pub fn summary(&self) -> (r: Result<(), EsError>)
        requires
            self.wf(),
            self.position() == self.names().len(),
        ensures
            r is Ok,
    {
        Ok(())
    }
}

/// The first step of one copy run: handles the source's cluster-state
/// response and takes the snapshot of template names the run will walk.
/// An enumeration failure — a non-success status or a body without the
/// `metadata.stored_scripts` object — aborts here, before any fetch or
/// upload is attempted.
pub fn begin_copy_run(status: u16, body: &str) -> (r: Result<CopyRun, EsError>)
    ensures
        match r {
            Ok(run) => {
                &&& spec_is_success_status(status)
                &&& json_keys_at_path(body@, "metadata"@, "stored_scripts"@) == Some(run.names())
                &&& run.wf()
                &&& run.position() == 0
                &&& run.completed() == Seq::<Seq<char>>::empty()
                &&& run.failed() == Seq::<Seq<char>>::empty()
            },
            Err(e) => match e {
                EsError::RemoteStatusError(s, b) => !spec_is_success_status(status) && s == status
                    && b@ == body@,
                EsError::MalformedResponse(_) => spec_is_success_status(status)
                    && json_keys_at_path(body@, "metadata"@, "stored_scripts"@) is None,
                _ => false,
            },
        },
{
    match handle_list_response(status, body) {
        Ok(names) => Ok(CopyRun::new(names)),
        Err(e) => Err(e),
    }
}

/// Taking one more name of the snapshot keeps the recorded partition:
/// pushing `names[pos]` onto either record extends the processed prefix
/// by that name.
proof fn lemma_recorded_step(
    completed: Seq<Seq<char>>,
    failed: Seq<Seq<char>>,
    names: Seq<Seq<char>>,
    pos: int,
)
    requires
        0 <= pos < names.len(),
        completed.to_multiset().add(failed.to_multiset()) == names.take(pos).to_multiset(),
    ensures
        completed.push(names[pos]).to_multiset().add(failed.to_multiset()) == names.take(pos
            + 1).to_multiset(),
        completed.to_multiset().add(failed.push(names[pos]).to_multiset()) == names.take(pos
            + 1).to_multiset(),
{
    broadcast use group_to_multiset_ensures;
    broadcast use vstd::multiset::group_multiset_axioms;

    assert(names.take(pos + 1) =~= names.take(pos).push(names[pos]));
    assert(names.take(pos + 1).to_multiset() =~= names.take(pos).to_multiset().insert(names[pos]));
    assert(completed.push(names[pos]).to_multiset().add(failed.to_multiset()) =~= names.take(pos
        + 1).to_multiset());
    assert(completed.to_multiset().add(failed.push(names[pos]).to_multiset()) =~= names.take(pos
        + 1).to_multiset());
}

/// What one full copy pass leaves on the target cluster: walking the
/// snapshot in order, each name whose upload the target accepts is
/// stored under its source content — an upload overwrites by name — and
/// everything else on the target stays.
pub open spec fn target_after_copy(
    target: Map<Seq<char>, (Seq<char>, Seq<char>)>,
    names: Seq<Seq<char>>,
    source: Map<Seq<char>, (Seq<char>, Seq<char>)>,
    accepted: Set<Seq<char>>,
) -> Map<Seq<char>, (Seq<char>, Seq<char>)>
    decreases names.len(),
{
    if names.len() == 0 {
        target
    } else {
        let rest = target_after_copy(target, names.drop_last(), source, accepted);
        if accepted.contains(names.last()) {
            rest.insert(names.last(), source[names.last()])
        } else {
            rest
        }
    }
}

/// A copy pass whose work is already on the target changes nothing.
proof fn lemma_copy_noop(
    target: Map<Seq<char>, (Seq<char>, Seq<char>)>,
    names: Seq<Seq<char>>,
    source: Map<Seq<char>, (Seq<char>, Seq<char>)>,
    accepted: Set<Seq<char>>,
)
    requires
        forall|k: Seq<char>|
            names.contains(k) && accepted.contains(k) ==> target.dom().contains(k) && target[k]
                == source[k],
    ensures
        target_after_copy(target, names, source, accepted) == target,
    decreases names.len(),
{
    if names.len() > 0 {
        assert forall|k: Seq<char>|
            names.drop_last().contains(k) && accepted.contains(k) implies target.dom().contains(k)
            && target[k] == source[k] by {
            let i = choose|i: int|
                0 <= i < names.drop_last().len() && names.drop_last()[i] == k;
            assert(names[i] == k);
            assert(names.contains(k));
        }
        lemma_copy_noop(target, names.drop_last(), source, accepted);
        if accepted.contains(names.last()) {
            assert(names.contains(names.last()));
            assert(target.insert(names.last(), source[names.last()]) =~= target);
        }
    }
}

/// After one copy pass, every accepted name of the snapshot is on the
/// target under its source content.
proof fn lemma_copy_covers(
    target: Map<Seq<char>, (Seq<char>, Seq<char>)>,
    names: Seq<Seq<char>>,
    source: Map<Seq<char>, (Seq<char>, Seq<char>)>,
    accepted: Set<Seq<char>>,
)
    ensures
        forall|k: Seq<char>|
            names.contains(k) && accepted.contains(k)
                ==> target_after_copy(target, names, source, accepted).dom().contains(k)
                && target_after_copy(target, names, source, accepted)[k] == source[k],
    decreases names.len(),
{
    if names.len() > 0 {
        lemma_copy_covers(target, names.drop_last(), source, accepted);
        let after = target_after_copy(target, names, source, accepted);
        assert forall|k: Seq<char>|
            names.contains(k) && accepted.contains(k) implies after.dom().contains(k) && after[k]
            == source[k] by {
            let last = names.last();
            if k == last {
                assert(accepted.contains(last));
            } else {
                let i = choose|i: int| 0 <= i < names.len() && names[i] == k;
                assert(i < names.len() - 1);
                assert(names.drop_last()[i] == k);
                assert(names.drop_last().contains(k));
            }
        }
    }
}

/// Idempotence of the full copy: with unchanged source templates (and
/// the target accepting the same uploads), running the copy twice leaves
/// the target exactly as running it once does.
pub proof fn lemma_copy_idempotent(
    target: Map<Seq<char>, (Seq<char>, Seq<char>)>,
    names: Seq<Seq<char>>,
    source: Map<Seq<char>, (Seq<char>, Seq<char>)>,
    accepted: Set<Seq<char>>,
)
    ensures
        target_after_copy(
            target_after_copy(target, names, source, accepted),
            names,
            source,
            accepted,
        ) == target_after_copy(target, names, source, accepted),
{
    let once = target_after_copy(target, names, source, accepted);
    lemma_copy_covers(target, names, source, accepted);
    lemma_copy_noop(once, names, source, accepted);
}

} // verus!
