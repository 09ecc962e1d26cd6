//! Lifecycle hook bus: handlers registered per hook kind and run in
//! registration order when that kind is emitted.

use vstd::prelude::*;

verus! {


/// The kinds of hooks emitted during the application lifecycle.
#[derive(PartialEq, Eq, Structural, Clone, Copy, Debug, Hash)]
pub enum RiHookKind {
    Startup,
    Shutdown,
    BeforeModulesInit,
    AfterModulesInit,
    BeforeModulesStart,
    AfterModulesStart,
    BeforeModulesShutdown,
    AfterModulesShutdown,
    ConfigReload,
}

/// The phases a module goes through, synchronous and asynchronous.
#[derive(PartialEq, Eq, Structural, Clone, Copy, Debug, Hash)]
pub enum RiModulePhase {
    Init,
    BeforeStart,
    Start,
    AfterStart,
    BeforeShutdown,
    Shutdown,
    AfterShutdown,
    AsyncInit,
    AsyncBeforeStart,
    AsyncStart,
    AsyncAfterStart,
    AsyncBeforeShutdown,
    AsyncShutdown,
    AsyncAfterShutdown,
}

/// The name of each module phase.
pub open spec fn phase_name(p: RiModulePhase) -> Seq<char> {
    match p {
        RiModulePhase::Init => "init"@,
        RiModulePhase::BeforeStart => "before_start"@,
        RiModulePhase::Start => "start"@,
        RiModulePhase::AfterStart => "after_start"@,
        RiModulePhase::BeforeShutdown => "before_shutdown"@,
        RiModulePhase::Shutdown => "shutdown"@,
        RiModulePhase::AfterShutdown => "after_shutdown"@,
        RiModulePhase::AsyncInit => "async_init"@,
        RiModulePhase::AsyncBeforeStart => "async_before_start"@,
        RiModulePhase::AsyncStart => "async_start"@,
        RiModulePhase::AsyncAfterStart => "async_after_start"@,
        RiModulePhase::AsyncBeforeShutdown => "async_before_shutdown"@,
        RiModulePhase::AsyncShutdown => "async_shutdown"@,
        RiModulePhase::AsyncAfterShutdown => "async_after_shutdown"@,
    }
}

impl RiModulePhase {
    /// The phase's name, such as "init" or "async_shutdown".
    pub fn as_str(&self) -> (s: &'static str)
        ensures
            s@ == phase_name(*self),
    {
        match self {
            RiModulePhase::Init => "init",
            RiModulePhase::BeforeStart => "before_start",
            RiModulePhase::Start => "start",
            RiModulePhase::AfterStart => "after_start",
            RiModulePhase::BeforeShutdown => "before_shutdown",
            RiModulePhase::Shutdown => "shutdown",
            RiModulePhase::AfterShutdown => "after_shutdown",
            RiModulePhase::AsyncInit => "async_init",
            RiModulePhase::AsyncBeforeStart => "async_before_start",
            RiModulePhase::AsyncStart => "async_start",
            RiModulePhase::AsyncAfterStart => "async_after_start",
            RiModulePhase::AsyncBeforeShutdown => "async_before_shutdown",
            RiModulePhase::AsyncShutdown => "async_shutdown",
            RiModulePhase::AsyncAfterShutdown => "async_after_shutdown",
        }
    }
}


/// The hook kind with the given ordinal, in declaration order; an ordinal
/// out of range stands for `Startup`.
pub open spec fn kind_of_ordinal(n: int) -> RiHookKind {
    if n == 1 { RiHookKind::Shutdown }
    else if n == 2 { RiHookKind::BeforeModulesInit }
    else if n == 3 { RiHookKind::AfterModulesInit }
    else if n == 4 { RiHookKind::BeforeModulesStart }
    else if n == 5 { RiHookKind::AfterModulesStart }
    else if n == 6 { RiHookKind::BeforeModulesShutdown }
    else if n == 7 { RiHookKind::AfterModulesShutdown }
    else if n == 8 { RiHookKind::ConfigReload }
    else { RiHookKind::Startup }
}

/// The module phase with the given ordinal, in declaration order; an
/// ordinal past the last phase stands for `Init`.
pub open spec fn phase_of_ordinal(n: int) -> RiModulePhase {
    if n == 1 { RiModulePhase::BeforeStart }
    else if n == 2 { RiModulePhase::Start }
    else if n == 3 { RiModulePhase::AfterStart }
    else if n == 4 { RiModulePhase::BeforeShutdown }
    else if n == 5 { RiModulePhase::Shutdown }
    else if n == 6 { RiModulePhase::AfterShutdown }
    else if n == 7 { RiModulePhase::AsyncInit }
    else if n == 8 { RiModulePhase::AsyncBeforeStart }
    else if n == 9 { RiModulePhase::AsyncStart }
    else if n == 10 { RiModulePhase::AsyncAfterStart }
    else if n == 11 { RiModulePhase::AsyncBeforeShutdown }
    else if n == 12 { RiModulePhase::AsyncShutdown }
    else if n == 13 { RiModulePhase::AsyncAfterShutdown }
    else { RiModulePhase::Init }
}

/// Decodes a hook kind received as an ordinal from a foreign caller.
pub fn hook_kind_from_ordinal(ordinal: i32) -> (k: RiHookKind)
    ensures
        k == kind_of_ordinal(ordinal as int),
{
    match ordinal {
        1 => RiHookKind::Shutdown,
        2 => RiHookKind::BeforeModulesInit,
        3 => RiHookKind::AfterModulesInit,
        4 => RiHookKind::BeforeModulesStart,
        5 => RiHookKind::AfterModulesStart,
        6 => RiHookKind::BeforeModulesShutdown,
        7 => RiHookKind::AfterModulesShutdown,
        8 => RiHookKind::ConfigReload,
        _ => RiHookKind::Startup,
    }
}

/// Decodes an optional module phase received as an ordinal from a foreign
/// caller: a negative ordinal means no phase.
pub fn module_phase_from_ordinal(ordinal: i32) -> (p: Option<RiModulePhase>)
    ensures
        ordinal < 0 ==> p is None,
        ordinal >= 0 ==> p == Some(phase_of_ordinal(ordinal as int)),
{
    if ordinal < 0 {
        return None;
    }
    Some(match ordinal {
        1 => RiModulePhase::BeforeStart,
        2 => RiModulePhase::Start,
        3 => RiModulePhase::AfterStart,
        4 => RiModulePhase::BeforeShutdown,
        5 => RiModulePhase::Shutdown,
        6 => RiModulePhase::AfterShutdown,
        7 => RiModulePhase::AsyncInit,
        8 => RiModulePhase::AsyncBeforeStart,
        9 => RiModulePhase::AsyncStart,
        10 => RiModulePhase::AsyncAfterStart,
        11 => RiModulePhase::AsyncBeforeShutdown,
        12 => RiModulePhase::AsyncShutdown,
        13 => RiModulePhase::AsyncAfterShutdown,
        _ => RiModulePhase::Init,
    })
}

/// The ordinal of each hook kind, in declaration order.
pub open spec fn kind_ordinal(k: RiHookKind) -> int {
    match k {
        RiHookKind::Startup => 0,
        RiHookKind::Shutdown => 1,
        RiHookKind::BeforeModulesInit => 2,
        RiHookKind::AfterModulesInit => 3,
        RiHookKind::BeforeModulesStart => 4,
        RiHookKind::AfterModulesStart => 5,
        RiHookKind::BeforeModulesShutdown => 6,
        RiHookKind::AfterModulesShutdown => 7,
        RiHookKind::ConfigReload => 8,
    }
}

/// The ordinal of each module phase, in declaration order.
pub open spec fn phase_ordinal(p: RiModulePhase) -> int {
    match p {
        RiModulePhase::Init => 0,
        RiModulePhase::BeforeStart => 1,
        RiModulePhase::Start => 2,
        RiModulePhase::AfterStart => 3,
        RiModulePhase::BeforeShutdown => 4,
        RiModulePhase::Shutdown => 5,
        RiModulePhase::AfterShutdown => 6,
        RiModulePhase::AsyncInit => 7,
        RiModulePhase::AsyncBeforeStart => 8,
        RiModulePhase::AsyncStart => 9,
        RiModulePhase::AsyncAfterStart => 10,
        RiModulePhase::AsyncBeforeShutdown => 11,
        RiModulePhase::AsyncShutdown => 12,
        RiModulePhase::AsyncAfterShutdown => 13,
    }
}

/// Encodes a hook kind as its ordinal for a foreign caller.
pub fn hook_kind_ordinal(kind: RiHookKind) -> (n: i32)
    ensures
        n == kind_ordinal(kind),
{
    match kind {
        RiHookKind::Startup => 0,
        RiHookKind::Shutdown => 1,
        RiHookKind::BeforeModulesInit => 2,
        RiHookKind::AfterModulesInit => 3,
        RiHookKind::BeforeModulesStart => 4,
        RiHookKind::AfterModulesStart => 5,
        RiHookKind::BeforeModulesShutdown => 6,
        RiHookKind::AfterModulesShutdown => 7,
        RiHookKind::ConfigReload => 8,
    }
}

/// Encodes an optional module phase for a foreign caller: its ordinal, or
/// -1 for none.
pub fn module_phase_ordinal(phase: Option<RiModulePhase>) -> (n: i32)
    ensures
        n == (match phase {
            Some(p) => phase_ordinal(p),
            None => -1,
        }),
{
    match phase {
        Some(RiModulePhase::Init) => 0,
        Some(RiModulePhase::BeforeStart) => 1,
        Some(RiModulePhase::Start) => 2,
        Some(RiModulePhase::AfterStart) => 3,
        Some(RiModulePhase::BeforeShutdown) => 4,
        Some(RiModulePhase::Shutdown) => 5,
        Some(RiModulePhase::AfterShutdown) => 6,
        Some(RiModulePhase::AsyncInit) => 7,
        Some(RiModulePhase::AsyncBeforeStart) => 8,
        Some(RiModulePhase::AsyncStart) => 9,
        Some(RiModulePhase::AsyncAfterStart) => 10,
        Some(RiModulePhase::AsyncBeforeShutdown) => 11,
        Some(RiModulePhase::AsyncShutdown) => 12,
        Some(RiModulePhase::AsyncAfterShutdown) => 13,
        None => -1,
    }
}

/// Encoding a kind or an optional phase as an ordinal and decoding it gives
/// it back.
pub proof fn law_ordinals_round_trip(k: RiHookKind, p: Option<RiModulePhase>)
    ensures
        kind_of_ordinal(kind_ordinal(k)) == k,
        match p {
            Some(q) => phase_ordinal(q) >= 0 && phase_of_ordinal(phase_ordinal(q)) == q,
            None => true,
        },
{
}

/// An event handed to hook handlers: the kind that fired, and the module
/// and phase it concerns, where there is one.
#[derive(Clone, Debug)]
pub struct RiHookEvent {
    pub kind: RiHookKind,
    pub module: Option<String>,
    pub phase: Option<RiModulePhase>,
}

/// Whether an owned module name and a borrowed one say the same.
pub open spec fn same_module(owned: Option<String>, given: Option<&str>) -> bool {
    match (owned, given) {
        (None, None) => true,
        (Some(a), Some(b)) => a@ == b@,
        _ => false,
    }
}

impl RiHookEvent {
    /// An event with the given kind, module and phase.
    pub fn new(kind: RiHookKind, module: Option<String>, phase: Option<RiModulePhase>) -> (ev: Self)
        ensures
            ev.kind == kind,
            ev.module == module,
            ev.phase == phase,
    {
        RiHookEvent { kind, module, phase }
    }

    /// The event announcing a configuration reload: kind `ConfigReload`,
    /// module "config_manager", no phase. The path is not kept.
    pub fn config_reload(_path: String) -> (ev: Self)
        ensures
            ev.kind == RiHookKind::ConfigReload,
            ev.module is Some && ev.module->0@ == "config_manager"@,
            ev.phase is None,
    {
        RiHookEvent { kind: RiHookKind::ConfigReload, module: Some("config_manager".to_owned()), phase: None }
    }
}

/// The identifier under which a handler is registered.
pub type RiHookId = String;

/// One registered handler, with the kind it listens to and its identifier.
pub struct RiHookEntry<H> {
    pub kind: RiHookKind,
    pub id: RiHookId,
    pub handler: H,
}

/// The handlers, in registration order, of the entries registered for `kind`.
pub open spec fn handlers_for<H>(entries: Seq<RiHookEntry<H>>, kind: RiHookKind) -> Seq<H>
    decreases entries.len(),
{
    if entries.len() == 0 {
        Seq::empty()
    } else {
        let rest = handlers_for(entries.drop_last(), kind);
        if entries.last().kind == kind {
            rest.push(entries.last().handler)
        } else {
            rest
        }
    }
}

/// What emitting `event` to the handlers `hs` with context `ctx` may give:
/// `Ok` only when every handler may answer `Ok`; `Err(e)` only when some
/// handler may answer `Err(e)` and every handler before it may answer `Ok`.
pub open spec fn emit_outcome<C, E, H: Fn(&C, &RiHookEvent) -> Result<(), E>>(
    hs: Seq<H>,
    ctx: &C,
    event: &RiHookEvent,
    r: Result<(), E>,
) -> bool {
    match r {
        Ok(()) => forall|i: int| 0 <= i < hs.len() ==> call_ensures(#[trigger] hs[i], (ctx, event), Ok(())),
        Err(e) => exists|i: int|
            0 <= i < hs.len() && call_ensures(#[trigger] hs[i], (ctx, event), Err(e)) && forall|j: int|
                0 <= j < i ==> call_ensures(#[trigger] hs[j], (ctx, event), Ok(())),
    }
}

/// `emit_outcome` for an event of the given kind, module and phase.
pub open spec fn emitted<C, E, H: Fn(&C, &RiHookEvent) -> Result<(), E>>(
    hs: Seq<H>,
    ctx: &C,
    event: &RiHookEvent,
    kind: RiHookKind,
    module: Option<&str>,
    phase: Option<RiModulePhase>,
    r: Result<(), E>,
) -> bool {
    &&& event.kind == kind
    &&& same_module(event.module, module)
    &&& event.phase == phase
    &&& emit_outcome(hs, ctx, event, r)
}

/// What emitting a hook of kind `kind` about `module` and `phase` to a bus
/// with entries `entries` may give: the handlers registered for `kind` are
/// run, in registration order, on an event of that kind, module and phase.
pub open spec fn emit_allows<C, E, H: Fn(&C, &RiHookEvent) -> Result<(), E>>(
    entries: Seq<RiHookEntry<H>>,
    kind: RiHookKind,
    ctx: &C,
    module: Option<&str>,
    phase: Option<RiModulePhase>,
    r: Result<(), E>,
) -> bool {
    exists|ev: &RiHookEvent| emitted(handlers_for(entries, kind), ctx, ev, kind, module, phase, r)
}

/// The hook bus: handlers registered per kind, run in registration order.
pub struct RiHookBus<H> {
    handlers: Vec<RiHookEntry<H>>,
}

impl<H> RiHookBus<H> {
    /// The entries registered so far, in registration order.
    pub closed spec fn entries(&self) -> Seq<RiHookEntry<H>> {
        self.handlers@
    }

    /// A bus with no handler.
    pub fn new() -> (bus: Self)
        ensures
            bus.entries() == Seq::<RiHookEntry<H>>::empty(),
    {
        RiHookBus { handlers: Vec::new() }
    }

    /// Registers `handler` under `id` for hooks of kind `kind`, after every
    /// handler registered before it.
    pub fn register(&mut self, kind: RiHookKind, id: RiHookId, handler: H)
        ensures
            final(self).entries() == old(self).entries().push(RiHookEntry { kind, id, handler }),
    {
        self.handlers.push(RiHookEntry { kind, id, handler });
    }

    /// Whether some handler is registered for `kind`.
    pub fn has_handlers(&self, kind: &RiHookKind) -> (b: bool)
        ensures
            b == (handlers_for(self.entries(), *kind).len() > 0),
    {
        let n = self.handlers.len();
        let mut i: usize = 0;
        while i < n
            invariant
                n == self.handlers@.len(),
                i <= n,
                handlers_for(self.handlers@.take(i as int), *kind).len() == 0,
            decreases n - i,
        {
            proof {
                assert(self.handlers@.take(i + 1).drop_last() =~= self.handlers@.take(i as int));
                assert(self.handlers@.take(i + 1).last() == self.handlers@[i as int]);
            }
            if self.handlers[i].kind == *kind {
                proof {
                    lemma_handlers_for_prefix(self.handlers@, *kind, i + 1);
                }
                return true;
            }
            i = i + 1;
        }
        proof {
            assert(self.handlers@.take(n as int) =~= self.handlers@);
        }
        false
    }

    /// Emits a hook of kind `kind` with no module and no phase.
    pub fn emit<C, E>(&self, kind: &RiHookKind, ctx: &C) -> (r: Result<(), E>)
        where H: Fn(&C, &RiHookEvent) -> Result<(), E>,
        requires
            forall|i: int, ev: &RiHookEvent|
                0 <= i < handlers_for(self.entries(), *kind).len() ==> #[trigger] call_requires(
                    handlers_for(self.entries(), *kind)[i],
                    (ctx, ev),
                ),
        ensures
            emit_allows(self.entries(), *kind, ctx, None, None, r),
    {
        self.emit_with(kind, ctx, None, None)
    }

    /// Emits a hook of kind `kind` about `module` and `phase`: each handler
    /// registered for `kind` is called in registration order with `ctx` and
    /// the event, and the first error a handler returns stops the run and is
    /// returned.
    pub fn emit_with<C, E>(
        &self,
        kind: &RiHookKind,
        ctx: &C,
        module: Option<&str>,
        phase: Option<RiModulePhase>,
    ) -> (r: Result<(), E>)
        where H: Fn(&C, &RiHookEvent) -> Result<(), E>,
        requires
            forall|i: int, ev: &RiHookEvent|
                0 <= i < handlers_for(self.entries(), *kind).len() ==> #[trigger] call_requires(
                    handlers_for(self.entries(), *kind)[i],
                    (ctx, ev),
                ),
        ensures
            emit_allows(self.entries(), *kind, ctx, module, phase, r),
    {
        let owned: Option<String> = match module {
            Some(s) => Some(s.to_owned()),
            None => None,
        };
        let event = RiHookEvent { kind: *kind, module: owned, phase };
        let ghost all = self.handlers@;
        proof { assert(self.entries() == all); }
        let ghost hs = handlers_for(all, *kind);
        let n = self.handlers.len();
        let mut i: usize = 0;
        proof {
            lemma_handlers_for_prefix(all, *kind, 0);
            assert(all.take(0) =~= Seq::<RiHookEntry<H>>::empty());
        }
        while i < n
            invariant
                n == self.handlers@.len(),
                all == self.handlers@,
                hs == handlers_for(all, *kind),
                i <= n,
                event.kind == *kind,
                same_module(event.module, module),
                event.phase == phase,
                forall|k: int, ev: &RiHookEvent|
                    0 <= k < hs.len() ==> #[trigger] call_requires(hs[k], (ctx, ev)),
                handlers_for(all.take(i as int), *kind).len() <= hs.len(),
                forall|k: int| 0 <= k < handlers_for(all.take(i as int), *kind).len()
                    ==> #[trigger] hs[k] == handlers_for(all.take(i as int), *kind)[k],
                forall|k: int| 0 <= k < handlers_for(all.take(i as int), *kind).len()
                    ==> call_ensures(#[trigger] hs[k], (ctx, &event), Ok(())),
            decreases n - i,
        {
            let entry = &self.handlers[i];
            proof {
                assert(self.entries()[i as int] == all[i as int]);
                assert(all.take(i + 1).drop_last() =~= all.take(i as int));
                assert(all.take(i + 1).last() == all[i as int]);
                lemma_handlers_for_prefix(all, *kind, i + 1);
            }
            if entry.kind == *kind {
                let ghost j = handlers_for(all.take(i as int), *kind).len() as int;
                proof {
                    assert(handlers_for(all.take(i + 1), *kind) == handlers_for(all.take(i as int), *kind).push(entry.handler));
                    assert(handlers_for(all.take(i + 1), *kind)[j] == entry.handler);
                    assert(hs[j] == entry.handler);
                }
                let res = (entry.handler)(ctx, &event);
                if res.is_err() {
                    proof {
                        assert(emitted(hs, ctx, &event, *kind, module, phase, res));
                    }
                    return res;
                }
                proof {
                    assert(res->Ok_0 == ());
                    assert(res == Ok::<(), E>(()));
                    assert(handlers_for(all.take(i + 1), *kind) == handlers_for(all.take(i as int), *kind).push(entry.handler));
                }
            } else {
                assert(handlers_for(all.take(i + 1), *kind) == handlers_for(all.take(i as int), *kind));
            }
            i = i + 1;
        }
        proof {
            assert(all.take(n as int) =~= all);
            assert(emitted(hs, ctx, &event, *kind, module, phase, Ok::<(), E>(())));
        }
        Ok(())
    }
}

impl<H> Default for RiHookBus<H> {
    fn default() -> (bus: Self)
        ensures
            bus.entries() == Seq::<RiHookEntry<H>>::empty(),
    {
        Self::new()
    }
}

/// Registering a handler for `kind` appends it to the handlers run for
/// `kind` and leaves the handlers of every other kind as they were.
pub proof fn law_register_appends<H>(entries: Seq<RiHookEntry<H>>, entry: RiHookEntry<H>, kind: RiHookKind)
    ensures
        handlers_for(entries.push(entry), kind) == (if entry.kind == kind {
            handlers_for(entries, kind).push(entry.handler)
        } else {
            handlers_for(entries, kind)
        }),
{
    assert(entries.push(entry).drop_last() =~= entries);
}

/// Emitting a kind that has no handler succeeds.
pub proof fn law_emit_without_handlers_is_ok<C, E, H: Fn(&C, &RiHookEvent) -> Result<(), E>>(
    hs: Seq<H>,
    ctx: &C,
    event: &RiHookEvent,
    r: Result<(), E>,
)
    requires
        hs.len() == 0,
        emit_outcome(hs, ctx, event, r),
    ensures
        r is Ok,
{
}

/// Emitting without a module or phase is emitting with neither: the same
/// handlers, in the same order, may give the same results, and every
/// handler is handed an event of the emitted kind with no module and no
/// phase.
pub proof fn law_emit_is_emit_with_nothing<C, E, H: Fn(&C, &RiHookEvent) -> Result<(), E>>(
    entries: Seq<RiHookEntry<H>>,
    kind: RiHookKind,
    ctx: &C,
    ev: &RiHookEvent,
    r: Result<(), E>,
)
    ensures
        emitted(handlers_for(entries, kind), ctx, ev, kind, None, None, r) ==> ev.kind == kind && ev.module is None
            && ev.phase is None && emit_outcome(handlers_for(entries, kind), ctx, ev, r),
        emit_allows(entries, kind, ctx, None, None, r) <==> exists|e: &RiHookEvent|
            e.kind == kind && e.module is None && e.phase is None && #[trigger] emit_outcome(
                handlers_for(entries, kind),
                ctx,
                e,
                r,
            ),
{
    if emit_allows(entries, kind, ctx, None, None, r) {
        let e = choose|e: &RiHookEvent| emitted(handlers_for(entries, kind), ctx, e, kind, None, None, r);
        assert(emit_outcome(handlers_for(entries, kind), ctx, e, r));
    }
    if exists|e: &RiHookEvent|
        e.kind == kind && e.module is None && e.phase is None && #[trigger] emit_outcome(handlers_for(entries, kind), ctx, e, r) {
        let e = choose|e: &RiHookEvent|
            e.kind == kind && e.module is None && e.phase is None && #[trigger] emit_outcome(handlers_for(entries, kind), ctx, e, r);
        assert(emitted(handlers_for(entries, kind), ctx, e, kind, None, None, r));
    }
}

/// When the first handler may only answer with errors, emitting fails
/// with one of the errors that handler may give.
pub proof fn law_first_error_stops<C, E, H: Fn(&C, &RiHookEvent) -> Result<(), E>>(
    hs: Seq<H>,
    ctx: &C,
    event: &RiHookEvent,
    r: Result<(), E>,
)
    requires
        hs.len() > 0,
        !call_ensures(hs[0], (ctx, event), Ok::<(), E>(())),
        emit_outcome(hs, ctx, event, r),
    ensures
        r matches Err(e) && call_ensures(hs[0], (ctx, event), Err::<(), E>(e)),
{
    if r is Err {
        let e = r->Err_0;
        let i = choose|i: int|
            0 <= i < hs.len() && call_ensures(#[trigger] hs[i], (ctx, event), Err::<(), E>(e)) && forall|j: int|
                0 <= j < i ==> call_ensures(#[trigger] hs[j], (ctx, event), Ok::<(), E>(()));
        if i > 0 {
            assert(call_ensures(hs[0], (ctx, event), Ok::<(), E>(())));
        }
    } else {
        assert(call_ensures(hs[0], (ctx, event), Ok::<(), E>(())));
    }
}

/// The handlers registered for `kind` among the first `i` entries are the
/// first handlers registered for `kind` among all of them.
proof fn lemma_handlers_for_prefix<H>(entries: Seq<RiHookEntry<H>>, kind: RiHookKind, i: int)
    requires
        0 <= i <= entries.len(),
    ensures
        handlers_for(entries.take(i), kind).len() <= handlers_for(entries, kind).len(),
        forall|k: int| 0 <= k < handlers_for(entries.take(i), kind).len()
            ==> #[trigger] handlers_for(entries, kind)[k] == handlers_for(entries.take(i), kind)[k],
    decreases entries.len(),
{
    if i == entries.len() {
        assert(entries.take(i) =~= entries);
    } else {
        lemma_handlers_for_prefix(entries.drop_last(), kind, i);
        assert(entries.drop_last().take(i) =~= entries.take(i));
    }
}

} // verus!
