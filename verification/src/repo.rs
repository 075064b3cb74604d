//! A model of a repository with a prepare/commit/abort transaction lifecycle,
//! and a scoped guard that aborts the transaction unless it was committed.

use vstd::prelude::*;

verus! {

/// The abstract state of a repository: its durably committed objects, the
/// writes staged by the open transaction (if one is open), and how many
/// commits and aborts have been issued against it.
#[verifier::ext_equal]
pub ghost struct RepoState {
    pub objects: Seq<Seq<char>>,
    pub txn: Option<Seq<Seq<char>>>,
    pub commits: nat,
    pub aborts: nat,
}

/// The state after a successful prepare: a transaction is open with nothing
/// staged yet.
pub open spec fn prepare_state(s: RepoState) -> RepoState {
    RepoState { txn: Some(Seq::empty()), ..s }
}

/// The state after staging the write `obj` in the open transaction.
pub open spec fn write_state(s: RepoState, obj: Seq<char>) -> RepoState {
    RepoState { txn: Some(s.txn->Some_0 + seq![obj]), ..s }
}

/// The state after a successful commit: the staged writes have become
/// durable and the transaction is closed.
pub open spec fn commit_state(s: RepoState) -> RepoState {
    RepoState { objects: s.objects + s.txn->Some_0, txn: None, commits: s.commits + 1, ..s }
}

/// The state after an abort: the staged writes are discarded, the durable
/// objects are untouched, and the transaction is closed.
pub open spec fn abort_state(s: RepoState) -> RepoState {
    RepoState { txn: None, aborts: s.aborts + 1, ..s }
}

/// A repository holding durably committed objects, plus the writes staged by
/// an open transaction, if one is open. Ghost counters record how many
/// commits and aborts have been issued against the repository.
pub struct Repo {
    objects: Vec<String>,
    staged: Option<Vec<String>>,
    commits: Ghost<nat>,
    aborts: Ghost<nat>,
}

/// An error from a repository transaction operation.
#[derive(Debug)]
pub enum RepoError {
    TransactionAlreadyOpen,
    NoTransactionOpen,
}

impl View for Repo {
    type V = RepoState;

    closed spec fn view(&self) -> RepoState {
        RepoState {
            objects: self.objects.deep_view(),
            txn: match self.staged {
                Some(v) => Some(v.deep_view()),
                None => None,
            },
            commits: self.commits@,
            aborts: self.aborts@,
        }
    }
}

impl Repo {
    /// A fresh repository: no objects, no open transaction, nothing issued.
    pub fn new() -> (r: Repo)
        ensures
            r@ == (RepoState {
                objects: Seq::<Seq<char>>::empty(),
                txn: None::<Seq<Seq<char>>>,
                commits: 0,
                aborts: 0,
            }),
    {
        let r = Repo { objects: Vec::new(), staged: None, commits: Ghost(0), aborts: Ghost(0) };
        proof {
            assert(r@ =~= RepoState {
                objects: Seq::<Seq<char>>::empty(),
                txn: None::<Seq<Seq<char>>>,
                commits: 0,
                aborts: 0,
            });
        }
        r
    }

    /// Opens a transaction. Fails, changing nothing, if one is already open.
    pub fn prepare_transaction(&mut self) -> (r: Result<(), RepoError>)
        ensures
            old(self)@.txn is Some ==> ({
                &&& r == Err::<(), RepoError>(RepoError::TransactionAlreadyOpen)
                &&& final(self)@ == old(self)@
            }),
            old(self)@.txn is None ==> ({
                &&& r == Ok::<(), RepoError>(())
                &&& final(self)@ == prepare_state(old(self)@)
            }),
    {
        if self.staged.is_some() {
            Err(RepoError::TransactionAlreadyOpen)
        } else {
            self.staged = Some(Vec::new());
            proof {
                assert(self@ =~= prepare_state(old(self)@));
            }
            Ok(())
        }
    }

    /// Stages a write in the open transaction. Fails, changing nothing, if
    /// none is open.
    pub fn write_object(&mut self, obj: &str) -> (r: Result<(), RepoError>)
        ensures
            old(self)@.txn is None ==> ({
                &&& r == Err::<(), RepoError>(RepoError::NoTransactionOpen)
                &&& final(self)@ == old(self)@
            }),
            old(self)@.txn is Some ==> ({
                &&& r == Ok::<(), RepoError>(())
                &&& final(self)@ == write_state(old(self)@, obj@)
            }),
    {
        match &mut self.staged {
            Some(v) => {
                v.push(obj.to_owned());
                proof {
                    assert(v.deep_view() =~= old(self)@.txn->Some_0 + seq![obj@]);
                    assert(self@ =~= write_state(old(self)@, obj@));
                }
                Ok(())
            },
            None => Err(RepoError::NoTransactionOpen),
        }
    }

    /// Commits the open transaction: its staged writes become durable.
    /// Fails, changing nothing, if no transaction is open.
    pub fn commit_transaction(&mut self) -> (r: Result<(), RepoError>)
        ensures
            old(self)@.txn is None ==> ({
                &&& r == Err::<(), RepoError>(RepoError::NoTransactionOpen)
                &&& final(self)@ == old(self)@
            }),
            old(self)@.txn is Some ==> ({
                &&& r == Ok::<(), RepoError>(())
                &&& final(self)@ == commit_state(old(self)@)
            }),
    {
        match self.staged.take() {
            Some(mut v) => {
                self.objects.append(&mut v);
                self.commits = Ghost(self.commits@ + 1);
                proof {
                    assert(self.objects.deep_view() =~= old(self)@.objects
                        + old(self)@.txn->Some_0);
                    assert(self@ =~= commit_state(old(self)@));
                }
                Ok(())
            },
            None => Err(RepoError::NoTransactionOpen),
        }
    }

    /// Aborts the open transaction: its staged writes are discarded and the
    /// durable objects are left as they were. Fails if no transaction is
    /// open; an abort is counted either way, and no transaction is open
    /// afterwards.
    pub fn abort_transaction(&mut self) -> (r: Result<(), RepoError>)
        ensures
            final(self)@ == abort_state(old(self)@),
            r == if old(self)@.txn is Some {
                Ok::<(), RepoError>(())
            } else {
                Err::<(), RepoError>(RepoError::NoTransactionOpen)
            },
        opens_invariants none
        no_unwind
    {
        let was_open = match &self.staged {
            Some(_) => true,
            None => false,
        };
        self.staged = None;
        self.aborts = Ghost(self.aborts@ + 1);
        proof {
            assert(self@ =~= abort_state(old(self)@));
        }
        if was_open {
            Ok(())
        } else {
            Err(RepoError::NoTransactionOpen)
        }
    }

    /// Whether a transaction is currently open.
    pub fn transaction_open(&self) -> (b: bool)
        ensures
            b == (self@.txn is Some),
    {
        self.staged.is_some()
    }

    /// Whether `obj` is among the durably committed objects.
    pub fn contains_object(&self, obj: &str) -> (b: bool)
        ensures
            b == self@.objects.contains(obj@),
    {
        let mut i: usize = 0;
        while i < self.objects.len()
            invariant
                0 <= i <= self.objects.len(),
                self@.objects == self.objects.deep_view(),
                forall|j: int| 0 <= j < i ==> self@.objects.index(j) != obj@,
            decreases self.objects.len() - i,
        {
            if crate::text::str_eq(self.objects[i].as_str(), obj) {
                assert(self@.objects.index(i as int) == obj@);
                return true;
            }
            i += 1;
        }
        false
    }
}

/// A scoped transaction guard: begun on a repository by `new`, it aborts the
/// transaction when dropped, unless `commit` finished it first. The borrow
/// of the repository is handed back (`None`) once the transaction is
/// settled.
pub struct Transaction<'a> {
    pub repo: Option<&'a mut Repo>,
    pub finished: bool,
}

impl<'a> Transaction<'a> {
    /// Begins a transaction on `repo`, returning a guard that will abort it
    /// on destruction unless `commit` is called.
    pub fn new(repo: &'a mut Repo) -> (r: Result<Transaction<'a>, RepoError>)
        ensures
            old(repo)@.txn is Some ==> ({
                &&& r == Err::<Transaction<'a>, RepoError>(RepoError::TransactionAlreadyOpen)
                &&& final(repo)@ == old(repo)@
            }),
            old(repo)@.txn is None ==> ({
                &&& r is Ok
                &&& !r->Ok_0.finished
                &&& r->Ok_0.repo is Some
                &&& (*r->Ok_0.repo->Some_0)@ == prepare_state(old(repo)@)
                &&& *final(repo) == *final(r->Ok_0.repo->Some_0)
            }),
    {
        repo.prepare_transaction()?;
        Ok(Transaction { repo: Some(repo), finished: false })
    }

    /// Commits the transaction: the staged writes become durable, the guard
    /// is consumed, and its destruction issues no abort.
    pub fn commit(self) -> (r: Result<(), RepoError>)
        requires
            !self.finished,
            self.repo is Some,
            (*self.repo->Some_0)@.txn is Some,
        ensures
            r is Ok,
            (*final(self.repo->Some_0))@ == commit_state((*self.repo->Some_0)@),
    {
        let mut this = self;
        let mut taken = None;
        core::mem::swap(&mut taken, &mut this.repo);
        match taken {
            Some(repo_ref) => {
                let r = repo_ref.commit_transaction();
                if r.is_ok() {
                    // The transaction is settled; the borrow resolves here,
                    // and destruction of the guard has nothing left to do.
                    this.finished = true;
                    r
                } else {
                    // A failed commit counts as no commit: hand the borrow
                    // back, so that destruction still aborts.
                    this.repo = Some(repo_ref);
                    r
                }
            },
            None => Err(RepoError::NoTransactionOpen),
        }
    }
}

impl Drop for Transaction<'_> {
    /// Settles the transaction on scope exit: a guard not finished by a
    /// successful commit issues exactly one abort, through
    /// `Repo::abort_transaction`; a finished one leaves the repository alone.
    fn drop(&mut self)
        ensures
            (old(self).finished && old(self).repo is Some)
                ==> (*final(old(self).repo->Some_0))@ == (*old(self).repo->Some_0)@,
            (!old(self).finished && old(self).repo is Some)
                ==> (*final(old(self).repo->Some_0))@ == abort_state((*old(self).repo->Some_0)@),
        opens_invariants none
        no_unwind
    {
        let mut taken = None;
        core::mem::swap(&mut taken, &mut self.repo);
        match taken {
            Some(repo_ref) => {
                if !self.finished {
                    let _ = repo_ref.abort_transaction();
                }
            },
            None => {},
        }
    }
}

/// Stages each write of `writes` in turn, starting from state `s`.
pub open spec fn stage_all(s: RepoState, writes: Seq<Seq<char>>) -> RepoState
    decreases writes.len(),
{
    if writes.len() == 0 {
        s
    } else {
        stage_all(write_state(s, writes[0]), writes.drop_first())
    }
}

/// Staging writes only grows the open transaction: the durable objects and
/// the issued commits and aborts stay as they are.
pub proof fn lemma_stage_all(s: RepoState, writes: Seq<Seq<char>>)
    requires
        s.txn is Some,
    ensures
        stage_all(s, writes) == (RepoState { txn: Some(s.txn->Some_0 + writes), ..s }),
    decreases writes.len(),
{
    if writes.len() == 0 {
        assert(s.txn->Some_0 + writes =~= s.txn->Some_0);
        assert(stage_all(s, writes) =~= RepoState { txn: Some(s.txn->Some_0 + writes), ..s });
    } else {
        lemma_stage_all(write_state(s, writes[0]), writes.drop_first());
        assert(s.txn->Some_0 + seq![writes[0]] + writes.drop_first() =~= s.txn->Some_0 + writes);
        assert(stage_all(s, writes) =~= RepoState { txn: Some(s.txn->Some_0 + writes), ..s });
    }
}

/// Law: over a guard lifecycle that begins a transaction and stages any
/// writes, a successful commit issues no abort and makes exactly the staged
/// writes durable, while settling by destruction instead issues exactly one
/// abort, commits nothing, and discards the staged writes.
pub proof fn lemma_guard_lifecycle(s: RepoState, writes: Seq<Seq<char>>)
    requires
        s.txn is None,
    ensures
        commit_state(stage_all(prepare_state(s), writes)) == (RepoState {
            objects: s.objects + writes,
            txn: None::<Seq<Seq<char>>>,
            commits: s.commits + 1,
            aborts: s.aborts,
        }),
        abort_state(stage_all(prepare_state(s), writes)) == (RepoState {
            objects: s.objects,
            txn: None::<Seq<Seq<char>>>,
            commits: s.commits,
            aborts: s.aborts + 1,
        }),
{
    lemma_stage_all(prepare_state(s), writes);
    assert(Seq::<Seq<char>>::empty() + writes =~= writes);
    assert(commit_state(stage_all(prepare_state(s), writes)) =~= RepoState {
        objects: s.objects + writes,
        txn: None::<Seq<Seq<char>>>,
        commits: s.commits + 1,
        aborts: s.aborts,
    });
    assert(abort_state(stage_all(prepare_state(s), writes)) =~= RepoState {
        objects: s.objects,
        txn: None::<Seq<Seq<char>>>,
        commits: s.commits,
        aborts: s.aborts + 1,
    });
}


} // verus!
