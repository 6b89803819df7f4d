//! The once-only installation decision for the termination hook.
//!
//! The hook itself — capturing the previously registered handler and
//! registering one that writes the dump block and then delegates — is an
//! effect only the embedding program can perform. What is decided here is
//! when: under the process-wide lock, exactly the first call in the process
//! is told to install.

use vstd::prelude::*;

verus! {

/// Whether a call that finds the installation flag in state `flag` must
/// install the hook.
pub open spec fn install_decision(flag: bool) -> bool {
    !flag
}

/// The flag state every call leaves behind.
pub open spec fn flag_after(flag: bool) -> bool {
    true
}

/// The install decisions handed to `n` consecutive callers, the first of
/// which finds the flag in state `flag`.
pub open spec fn install_decisions(n: nat, flag: bool) -> Seq<bool>
    decreases n,
{
    if n == 0 {
        Seq::empty()
    } else {
        seq![install_decision(flag)] + install_decisions((n - 1) as nat, flag_after(flag))
    }
}

/// Checks the process-wide installation flag and decides whether the caller
/// must install the termination hook: the first call in the process says
/// yes and sets the flag, every later call says no. The embedding program
/// holds the lock around the call and, exactly when told to, captures the
/// previous handler and registers the dumping one in front of it.
pub fn ensure_initialized(installed: &mut bool) -> (install: bool)
    ensures
        install == install_decision(*old(installed)),
        *final(installed) == flag_after(*old(installed)),
{
    if *installed {
        false
    } else {
        *installed = true;
        true
    }
}

proof fn lemma_no_reinstall(n: nat)
    ensures
        install_decisions(n, true).len() == n,
        forall|i: int| 0 <= i < n ==> install_decisions(n, true)[i] == false,
    decreases n,
{
    if n > 0 {
        lemma_no_reinstall((n - 1) as nat);
    }
}

/// However many serialized calls race to create the first handles of the
/// process, the dumping behavior is installed exactly once: the first call
/// that finds the flag unset installs, and no later call ever does.
pub proof fn lemma_installed_exactly_once(n: nat)
    requires
        n > 0,
    ensures
        install_decisions(n, false).len() == n,
        install_decisions(n, false)[0] == true,
        forall|i: int| 1 <= i < n ==> install_decisions(n, false)[i] == false,
{
    lemma_no_reinstall((n - 1) as nat);
    assert forall|i: int| 1 <= i < n implies install_decisions(n, false)[i] == false by {
        assert(install_decisions(n, false)[i] == install_decisions((n - 1) as nat, true)[i - 1]);
    }
}

} // verus!
