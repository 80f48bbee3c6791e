//! Hook lifecycle management.
//!
//! A hook pairs a target address with the trampoline that still reaches the
//! original function body. The inline-patching backend that actually
//! rewrites process code lives outside this crate; the caller performs each
//! backend step and hands its outcome in, and the registry here decides what
//! the session state becomes: a failed scan or a refused creation is
//! recorded and skipped, never fatal, while a failed bulk enable leaves
//! every created hook inert.

use vstd::prelude::*;

use crate::memory::ModuleBounds;
use crate::pattern::spec_pattern;

verus! {

/// One installed interception: the patched target address and the
/// trampoline to the original code, plus whether the redirect is currently
/// active. Created in the disabled state; toggled any number of times;
/// never destroyed while the process lives.
#[derive(Clone, Copy, PartialEq, Eq, Structural, Debug)]
pub struct Hook {
    pub target: u64,
    pub orig: u64,
    pub enabled: bool,
}

/// The same hook with its redirect switched to `on`: toggling never touches
/// the target address or the trampoline.
pub open spec fn spec_switched(h: Hook, on: bool) -> Hook {
    Hook { enabled: on, ..h }
}

impl Hook {
    /// A freshly created hook: addresses stored, redirect not yet active.
    pub fn new(target: u64, orig: u64) -> (h: Hook)
        ensures
            h == (Hook { target, orig, enabled: false }),
    {
        Hook { target, orig, enabled: false }
    }

    /// Activates the redirect. Enabling an already-enabled hook changes
    /// nothing.
    pub fn enable(&mut self)
        ensures
            *final(self) == spec_switched(*old(self), true),
    {
        self.enabled = true;
    }

    /// Restores original control flow. Disabling an already-disabled hook
    /// changes nothing.
    pub fn disable(&mut self)
        ensures
            *final(self) == spec_switched(*old(self), false),
    {
        self.enabled = false;
    }

    /// Whether the redirect is currently active.
    pub fn is_enabled(&self) -> (r: bool)
        ensures
            r == self.enabled,
    {
        self.enabled
    }

    /// The trampoline address: invoking it always runs the pre-hook
    /// function body, and it stays valid for the life of the hook.
    pub fn original(&self) -> (a: u64)
        ensures
            a == self.orig,
    {
        self.orig
    }
}

/// An open re-entrant probe of the game's own validation routine: while
/// it is open the validation hook's redirect is off, so every call made
/// through the target address reaches the unhooked original; closing it
/// puts the redirect back exactly as it was before the probe, whatever
/// state it was in.
pub struct ProbeSession {
    prior_enabled: bool,
}

impl ProbeSession {
    /// The redirect state the hook had when the probe opened.
    pub closed spec fn prior_enabled(&self) -> bool {
        self.prior_enabled
    }
}

/// Opens the probe: remembers the hook's redirect state and switches the
/// redirect off so the original routine can be consulted safely.
pub fn open_probe(hook: &mut Hook) -> (session: ProbeSession)
    ensures
        *final(hook) == spec_switched(*old(hook), false),
        session.prior_enabled() == old(hook).enabled,
{
    let session = ProbeSession { prior_enabled: hook.is_enabled() };
    hook.disable();
    session
}

/// Closes the probe: restores the redirect to the state recorded when it
/// opened, on every path.
pub fn close_probe(hook: &mut Hook, session: ProbeSession)
    ensures
        *final(hook) == spec_switched(*old(hook), session.prior_enabled()),
{
    if session.prior_enabled {
        hook.enable();
    } else {
        hook.disable();
    }
}

/// The probe bracket is exact: closing over what opening recorded gives
/// back precisely the pre-probe hook, whatever the redirect was switched
/// to in between.
pub proof fn lemma_probe_restores(h: Hook, mid: bool)
    ensures
        spec_switched(spec_switched(spec_switched(h, false), mid), h.enabled) == h,
{
}

/// Toggling is idempotent, and an enable followed by a disable returns a
/// hook that started disabled to exactly its earlier state.
pub proof fn lemma_hook_toggle_idempotent(h: Hook)
    ensures
        spec_switched(spec_switched(h, true), true) == spec_switched(h, true),
        spec_switched(spec_switched(h, false), false) == spec_switched(h, false),
        !h.enabled ==> spec_switched(spec_switched(h, true), false) == h,
{
}

/// How many hooks in the sequence currently have their redirect active.
pub open spec fn count_enabled(hooks: Seq<Hook>) -> int
    decreases hooks.len(),
{
    if hooks.len() == 0 {
        0
    } else {
        count_enabled(hooks.drop_last()) + if hooks.last().enabled {
            1int
        } else {
            0int
        }
    }
}

/// The session registry: every hook created during one initialization pass,
/// with a count of the registrations that could not be completed. Written
/// once at init, read afterwards.
pub struct HookManager {
    pub hooks: Vec<Hook>,
    pub failures: u64,
}

impl HookManager {
    /// An empty registry: no hooks, no recorded failures.
    pub fn new() -> (m: HookManager)
        ensures
            m.hooks@ == Seq::<Hook>::empty(),
            m.failures == 0,
    {
        HookManager { hooks: Vec::new(), failures: 0 }
    }

    /// Records the outcome of one registration attempt. `target` is what
    /// the signature scan resolved, `trampoline` what the backend returned
    /// for hook creation; a missing value on either step records one
    /// failure and registers nothing, so a single bad signature never
    /// aborts the session.
    pub fn register(&mut self, target: Option<u64>, trampoline: Option<u64>) -> (idx: Option<
        usize,
    >)
        requires
            old(self).failures < u64::MAX,
        ensures
            match (target, trampoline) {
                (Some(t), Some(o)) => {
                    &&& idx == Some(old(self).hooks@.len() as usize)
                    &&& final(self).hooks@ == old(self).hooks@.push(
                        (Hook { target: t, orig: o, enabled: false }),
                    )
                    &&& final(self).failures == old(self).failures
                },
                _ => {
                    &&& idx is None
                    &&& final(self).hooks@ == old(self).hooks@
                    &&& final(self).failures == old(self).failures + 1
                },
            },
    {
        match (target, trampoline) {
            (Some(t), Some(o)) => {
                let idx = self.hooks.len();
                self.hooks.push(Hook::new(t, o));
                Some(idx)
            },
            _ => {
                self.failures = self.failures + 1;
                None
            },
        }
    }

    /// Applies the outcome of the one bulk enable that ends registration:
    /// on backend success every registered hook becomes active; on failure
    /// the session is left exactly as it was, every created hook still
    /// inert.
    pub fn enable_all(&mut self, backend_ok: bool) -> (r: bool)
        ensures
            r == backend_ok,
            final(self).failures == old(self).failures,
            final(self).hooks@.len() == old(self).hooks@.len(),
            backend_ok ==> forall|i: int|
                0 <= i < old(self).hooks@.len() ==> final(self).hooks@[i] == spec_switched(
                    old(self).hooks@[i],
                    true,
                ),
            !backend_ok ==> final(self).hooks@ == old(self).hooks@,
    {
        if !backend_ok {
            return false;
        }
        let n = self.hooks.len();
        let mut i: usize = 0;
        while i < n
            invariant
                i <= n,
                n == self.hooks@.len(),
                self.failures == old(self).failures,
                old(self).hooks@.len() == n,
                forall|k: int|
                    0 <= k < i ==> self.hooks@[k] == spec_switched(old(self).hooks@[k], true),
                forall|k: int| i <= k < n ==> self.hooks@[k] == old(self).hooks@[k],
            decreases n - i,
        {
            let mut h = self.hooks[i];
            h.enable();
            self.hooks.set(i, h);
            i = i + 1;
        }
        true
    }

    /// The number of hooks registered so far.
    pub fn len(&self) -> (n: usize)
        ensures
            n == self.hooks@.len(),
    {
        self.hooks.len()
    }

    /// How many registered hooks are currently active.
    pub fn enabled_count(&self) -> (n: usize)
        ensures
            n == count_enabled(self.hooks@),
    {
        let mut n: usize = 0;
        let total = self.hooks.len();
        let mut i: usize = 0;
        while i < total
            invariant
                i <= total,
                total == self.hooks@.len(),
                n == count_enabled(self.hooks@.take(i as int)),
                n <= i,
            decreases total - i,
        {
            proof {
                assert(self.hooks@.take(i as int + 1).drop_last() =~= self.hooks@.take(
                    i as int,
                ));
                assert(self.hooks@.take(i as int + 1).last() == self.hooks@[i as int]);
            }
            if self.hooks[i].is_enabled() {
                n = n + 1;
            }
            i = i + 1;
        }
        proof {
            assert(self.hooks@.take(total as int) =~= self.hooks@);
        }
        n
    }
}

/// Pairs a resolved target address with the backend's answer for it: the
/// hook, created disabled, when the backend handed a trampoline back, and
/// `None` when it rejected the address, which callers treat as a degraded
/// feature, not an error.
pub fn hook_function_from_addr(target: u64, trampoline: Option<u64>) -> (r: Option<Hook>)
    ensures
        match trampoline {
            Some(o) => r == Some((Hook { target, orig: o, enabled: false })),
            None => r is None,
        },
{
    match trampoline {
        Some(o) => Some(Hook::new(target, o)),
        None => None,
    }
}

/// Resolves a hook target: the address of the leftmost match of the
/// signature inside the image mapped at `bounds`. `None` when the
/// signature is not found, which callers treat as a degraded feature, not
/// an error.
pub fn resolve_hook_target(pattern: &str, image: &[u8], bounds: &ModuleBounds) -> (r: Option<
    u64,
>)
    requires
        spec_pattern(pattern@) is Some,
        bounds.wf(),
        image@.len() == bounds.end - bounds.base,
    ensures
        match r {
            Some(a) => {
                &&& crate::memory::first_match_from(
                    spec_pattern(pattern@).unwrap(),
                    image@,
                    0,
                ) matches Some(off) && a == bounds.base + off
            },
            None => crate::memory::first_match_from(
                spec_pattern(pattern@).unwrap(),
                image@,
                0,
            ) is None,
        },
{
    match crate::memory::signature_scan(pattern, image) {
        Some(off) => {
            proof {
                lemma_first_match_in_range(spec_pattern(pattern@).unwrap(), image@, 0);
            }
            Some(bounds.address_of(off as u64))
        },
        None => None,
    }
}

/// A found match always starts inside the buffer.
proof fn lemma_first_match_in_range(pat: Seq<crate::pattern::Token>, data: Seq<u8>, from: int)
    requires
        0 <= from,
    ensures
        crate::memory::first_match_from(pat, data, from) matches Some(i) ==> from <= i
            && i <= data.len(),
    decreases data.len() - from,
{
    if from + pat.len() <= data.len() && !crate::memory::matches_at(pat, data, from) {
        lemma_first_match_in_range(pat, data, from + 1);
    }
}

} // verus!
