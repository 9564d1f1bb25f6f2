//! The decisions behind the `delete` and `init` commands; the caller carries
//! them out.

use vstd::prelude::*;

use crate::cli::DeleteTarget;
use crate::config::Config;

verus! {

/// Which deletion of the repository a step stands for, for the messages
/// that report it.
#[derive(Debug, Clone, Copy, PartialEq, Eq, Structural)]
pub enum RepoScope {
    Local,
    Remote,
    All,
}

/// One step of a deletion.
#[derive(Debug, Clone, Copy, PartialEq, Eq, Structural)]
pub enum DeleteStep {
    /// Delete the profile's repository.
    DeleteRepository(RepoScope),
    /// Delete the configuration document.
    DeleteConfig,
    /// Tell the user that `--force` is needed.
    AskForForce,
    /// Tell the user that there is no configuration document.
    ReportNoConfig,
}

/// The steps that a deletion takes, in order. Without `force` nothing is
/// deleted: the user is asked for it, or, for the configuration when none
/// exists, told so.
pub open spec fn delete_plan(target: DeleteTarget, config_exists: bool) -> Seq<DeleteStep> {
    match target {
        DeleteTarget::Config { force } => if force {
            seq![DeleteStep::DeleteConfig]
        } else if config_exists {
            seq![DeleteStep::AskForForce]
        } else {
            seq![DeleteStep::ReportNoConfig]
        },
        DeleteTarget::Local { force } => if force {
            seq![DeleteStep::DeleteRepository(RepoScope::Local)]
        } else {
            seq![DeleteStep::AskForForce]
        },
        DeleteTarget::Remote { force } => if force {
            seq![DeleteStep::DeleteRepository(RepoScope::Remote)]
        } else {
            seq![DeleteStep::AskForForce]
        },
        DeleteTarget::All { force } => if force {
            seq![DeleteStep::DeleteRepository(RepoScope::All), DeleteStep::DeleteConfig]
        } else {
            seq![DeleteStep::AskForForce]
        },
    }
}

/// The steps for deleting `target`, given whether the configuration
/// document exists.
pub fn handle_delete(target: DeleteTarget, config_exists: bool) -> (r: Vec<DeleteStep>)
    ensures
        r@ == delete_plan(target, config_exists),
{
    let mut r: Vec<DeleteStep> = Vec::new();
    match target {
        DeleteTarget::Config { force } => {
            if force {
                r.push(DeleteStep::DeleteConfig);
            } else if config_exists {
                r.push(DeleteStep::AskForForce);
            } else {
                r.push(DeleteStep::ReportNoConfig);
            }
        },
        DeleteTarget::Local { force } => {
            if force {
                r.push(DeleteStep::DeleteRepository(RepoScope::Local));
            } else {
                r.push(DeleteStep::AskForForce);
            }
        },
        DeleteTarget::Remote { force } => {
            if force {
                r.push(DeleteStep::DeleteRepository(RepoScope::Remote));
            } else {
                r.push(DeleteStep::AskForForce);
            }
        },
        DeleteTarget::All { force } => {
            if force {
                r.push(DeleteStep::DeleteRepository(RepoScope::All));
                r.push(DeleteStep::DeleteConfig);
            } else {
                r.push(DeleteStep::AskForForce);
            }
        },
    }
    assert(r@ =~= delete_plan(target, config_exists));
    r
}

/// Whether initialisation goes ahead.
#[derive(Debug, Clone, Copy, PartialEq, Eq, Structural)]
pub enum InitDecision {
    /// Storage other than a version-controlled repository is not supported.
    NotSupported,
    /// A configuration exists and `force` was not given; nothing changes.
    AlreadyInitialized,
    /// The configuration was updated and is to be saved, and the repository
    /// created.
    Proceed,
}

/// Whether storage is local: no remote given, or an empty one.
pub open spec fn is_local(repo_url: Option<String>) -> bool {
    match repo_url {
        Some(u) => u@.len() == 0,
        None => true,
    }
}

/// Decides an initialisation and, when it goes ahead, records the remote in
/// `config`: storage is local when no remote, or an empty one, is given.
pub fn prepare_init(config: &mut Config, repo_url: Option<String>, git: bool, force: bool, config_exists: bool) -> (r: InitDecision)
    ensures
        r == (if !git {
            InitDecision::NotSupported
        } else if config_exists && !force {
            InitDecision::AlreadyInitialized
        } else {
            InitDecision::Proceed
        }),
        r != InitDecision::Proceed ==> *final(config) == *old(config),
        r == InitDecision::Proceed ==> {
            &&& final(config).tracking == old(config).tracking
            &&& final(config).storage.profile == old(config).storage.profile
            &&& final(config).storage.local == is_local(repo_url)
            &&& final(config).storage.repo_url@ == match repo_url {
                Some(u) => u@,
                None => Seq::<char>::empty(),
            }
        },
{
    if !git {
        return InitDecision::NotSupported;
    }
    if config_exists && !force {
        return InitDecision::AlreadyInitialized;
    }
    let local = match &repo_url {
        Some(u) => u.as_str().is_empty(),
        None => true,
    };
    config.storage.repo_url = match repo_url {
        Some(u) => u,
        None => String::new(),
    };
    config.storage.local = local;
    InitDecision::Proceed
}

} // verus!
