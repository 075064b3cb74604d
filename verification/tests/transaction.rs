use ostree_helpers::repo::{Repo, RepoError, Transaction};

#[test]
fn drop_without_commit_aborts() {
    let mut repo = Repo::new();
    {
        let mut txn = Transaction::new(&mut repo).unwrap();
        txn.repo.as_mut().unwrap().write_object("pending").unwrap();
        // The guard goes out of scope without a commit.
    }
    assert!(!repo.transaction_open());
    assert!(!repo.contains_object("pending"));
}

#[test]
fn commit_makes_writes_durable() {
    let mut repo = Repo::new();
    {
        let mut txn = Transaction::new(&mut repo).unwrap();
        txn.repo.as_mut().unwrap().write_object("kept").unwrap();
        txn.commit().unwrap();
    }
    assert!(!repo.transaction_open());
    assert!(repo.contains_object("kept"));
}

#[test]
fn early_return_aborts() {
    fn unit_of_work(repo: &mut Repo, fail: bool) -> Result<(), RepoError> {
        let mut txn = Transaction::new(repo)?;
        txn.repo.as_mut().unwrap().write_object("work")?;
        if fail {
            // An error path: the guard is dropped without a commit.
            return Err(RepoError::NoTransactionOpen);
        }
        txn.commit()
    }

    let mut repo = Repo::new();
    assert!(unit_of_work(&mut repo, true).is_err());
    assert!(!repo.transaction_open());
    assert!(!repo.contains_object("work"));

    assert!(unit_of_work(&mut repo, false).is_ok());
    assert!(repo.contains_object("work"));
}

#[test]
fn second_begin_while_open_is_refused() {
    let mut repo = Repo::new();
    repo.prepare_transaction().unwrap();
    {
        let r = Transaction::new(&mut repo);
        assert!(matches!(r, Err(RepoError::TransactionAlreadyOpen)));
    }
    // The failed begin must not have disturbed the open transaction.
    assert!(repo.transaction_open());
}

#[test]
fn operations_without_transaction_are_refused() {
    let mut repo = Repo::new();
    assert!(matches!(repo.write_object("w"), Err(RepoError::NoTransactionOpen)));
    assert!(matches!(repo.commit_transaction(), Err(RepoError::NoTransactionOpen)));
    assert!(matches!(repo.abort_transaction(), Err(RepoError::NoTransactionOpen)));
    assert!(!repo.transaction_open());
}

#[test]
fn abort_discards_only_staged_writes() {
    let mut repo = Repo::new();
    repo.prepare_transaction().unwrap();
    repo.write_object("first").unwrap();
    repo.commit_transaction().unwrap();

    repo.prepare_transaction().unwrap();
    repo.write_object("second").unwrap();
    repo.abort_transaction().unwrap();

    assert!(repo.contains_object("first"));
    assert!(!repo.contains_object("second"));
    assert!(!repo.transaction_open());
}

#[test]
fn fresh_repo_is_empty_and_idle() {
    let repo = Repo::new();
    assert!(!repo.transaction_open());
    assert!(!repo.contains_object("anything"));
}
