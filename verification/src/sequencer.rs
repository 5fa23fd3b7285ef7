//! The startup sequencer: the one-shot transition from the splash
//! window to the main window, and what it guarantees.

use vstd::prelude::*;

use crate::registry::Registry;

verus! {

/// The name of the splash window.
pub open spec fn splash_name() -> Seq<char> {
    "splashscreen"@
}

/// The name of the main window.
pub open spec fn main_name() -> Seq<char> {
    "main"@
}

/// The splash window's name, as the registry is keyed.
pub fn splash_window_name() -> (s: String)
    ensures
        s@ == splash_name(),
{
    String::from_str("splashscreen")
}

/// The main window's name, as the registry is keyed.
pub fn main_window_name() -> (s: String)
    ensures
        s@ == main_name(),
{
    String::from_str("main")
}

/// The splash window and the main window have different names, so
/// closing the splash window never takes the main window away.
pub proof fn lemma_window_names_distinct()
    ensures
        splash_name() != main_name(),
{
    reveal_strlit("splashscreen");
    reveal_strlit("main");
    assert(splash_name().len() == 12);
    assert(main_name().len() == 4);
}

/// Why the startup transition failed. A failure is a startup invariant
/// violation: the host must treat it as fatal and abort, not mask it.
#[derive(Clone, Copy, PartialEq, Eq, Structural, Debug)]
pub enum StartupError {
    /// No window named `"main"` was present when the sequencer ran.
    MainWindowMissing,
}

/// The transition succeeds exactly when a main window is present; the
/// splash window plays no part in success.
pub open spec fn transition_succeeds(m: Map<Seq<char>, bool>) -> bool {
    m.dom().contains(main_name())
}

/// The registry after the transition: the splash window is gone
/// (whether or not one was present), and the main window, if present,
/// is visible. The close comes first, so the splash window is gone even
/// when the transition then fails on a missing main window.
pub open spec fn post_transition(m: Map<Seq<char>, bool>) -> Map<Seq<char>, bool> {
    if m.dom().contains(main_name()) {
        m.remove(splash_name()).insert(main_name(), true)
    } else {
        m.remove(splash_name())
    }
}

/// Perform the one-shot splash-to-main transition: close the splash
/// window if present (silently skipped otherwise), then show the main
/// window, which must be present — a missing main window is a fatal
/// error for the caller to propagate as an abort.
///
/// Exactly one close attempt is made, against `"splashscreen"`, and
/// exactly one show attempt, against `"main"`, and the close attempt
/// precedes the show attempt.
pub fn complete_startup_transition(reg: &mut Registry) -> (r: Result<(), StartupError>)
    requires
        old(reg).wf(),
    ensures
        final(reg).wf(),
        final(reg)@ == post_transition(old(reg)@),
        r is Ok <==> transition_succeeds(old(reg)@),
        r is Err ==> r == Err::<(), StartupError>(StartupError::MainWindowMissing),
        final(reg).attempts@.len() == old(reg).attempts@.len() + 2,
        final(reg).attempts@.take(old(reg).attempts@.len() as int) == old(reg).attempts@,
        final(reg).attempts@[old(reg).attempts@.len() as int].is_close_of(splash_name()),
        final(reg).attempts@[old(reg).attempts@.len() as int + 1].is_show_of(main_name()),
{
    let ghost pre = *reg;
    let splash = splash_window_name();
    let main_window = main_window_name();
    let _ = reg.close_window(&splash);
    let ghost mid = *reg;
    let shown = reg.show_window(&main_window);
    proof {
        lemma_window_names_distinct();
        assert(mid@.dom().contains(main_name()) == pre@.dom().contains(main_name()));
        if shown {
            assert(reg@ =~= post_transition(pre@));
        }
        assert(reg.attempts@.take(pre.attempts@.len() as int) =~= pre.attempts@);
    }
    if shown {
        Ok(())
    } else {
        Err(StartupError::MainWindowMissing)
    }
}

/// A missing splash window does not block the transition: with the main
/// window present, the transition still succeeds, and the only change
/// is that the main window becomes visible.
pub proof fn lemma_missing_splash_does_not_block(m: Map<Seq<char>, bool>)
    requires
        !m.dom().contains(splash_name()),
        m.dom().contains(main_name()),
    ensures
        transition_succeeds(m),
        post_transition(m) == m.insert(main_name(), true),
{
    assert(m.remove(splash_name()) =~= m);
}

/// A missing main window is fatal: the transition never succeeds from a
/// registry without one. The splash window has still been closed by
/// then, since the close attempt comes first.
pub proof fn lemma_missing_main_is_fatal(m: Map<Seq<char>, bool>)
    requires
        !m.dom().contains(main_name()),
    ensures
        !transition_succeeds(m),
        post_transition(m) == m.remove(splash_name()),
{
}

/// A second invocation after a successful transition is a safe
/// no-op-equivalent: the transition leaves the splash window gone and
/// the main window visible, and from such a state the transition
/// succeeds again and leaves the registry's map exactly as it was.
pub proof fn lemma_second_invocation_is_no_op(m: Map<Seq<char>, bool>)
    requires
        transition_succeeds(m),
    ensures
        !post_transition(m).dom().contains(splash_name()),
        post_transition(m).dom().contains(main_name()),
        post_transition(m)[main_name()] == true,
        transition_succeeds(post_transition(m)),
        post_transition(post_transition(m)) == post_transition(m),
{
    lemma_window_names_distinct();
    let p = post_transition(m);
    assert(p.remove(splash_name()) =~= p);
    assert(p.remove(splash_name()).insert(main_name(), true) =~= p);
}

} // verus!
