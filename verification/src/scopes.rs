//! The scope stack of the reconstruction pass.
//!
//! Every open region (the function body, a loop, an if, an else, a
//! switch, a try) is a scope accumulating statements.  Scopes other than
//! the body and loops record the absolute opcode index at which they end;
//! whenever the instruction cursor reaches such an end, the scope is
//! closed and emitted as a statement into the scope beneath it.  Loops
//! close only through their back edge, the body never.

use vstd::prelude::*;

use vstd::pervasive::{unreached, VecAdditionalExecFns};

use crate::ast::{Expr, Statement};

verus! {

/// What kind of region a scope is, with the data needed to close it.
pub enum ScopeKind {
    /// The function body; always the bottom of the stack.
    Root,
    /// An open loop; `cond` starts out unknown and is back-patched when
    /// the loop's exit jump is found.
    Loop { start: usize, cond: Expr },
    If { end: usize, cond: Expr },
    Else { end: usize },
    /// An open switch.  `stmts` of the scope accumulates the running
    /// segment; `current` says which case it belongs to (`None`: the
    /// implicit default case).
    Switch {
        end: usize,
        arg: Expr,
        offsets: Vec<usize>,
        cases: Vec<Vec<Statement>>,
        current: Option<usize>,
        default: Vec<Statement>,
    },
    Try { end: usize },
}

/// One open region and the statements reconstructed inside it so far.
pub struct Scope {
    pub kind: ScopeKind,
    pub stmts: Vec<Statement>,
}

/// The stack of open regions, innermost last, and the instruction cursor.
pub struct Scopes {
    pub stack: Vec<Scope>,
    pub cursor: usize,
}

/// The absolute end index at which a scope closes by itself, if it does.
pub open spec fn closable_end(k: ScopeKind) -> Option<usize> {
    match k {
        ScopeKind::Root => None,
        ScopeKind::Loop { .. } => None,
        ScopeKind::If { end, .. } => Some(end),
        ScopeKind::Else { end } => Some(end),
        ScopeKind::Switch { end, .. } => Some(end),
        ScopeKind::Try { end } => Some(end),
    }
}

/// Internal consistency of one scope's bookkeeping.
pub open spec fn scope_kind_wf(k: ScopeKind) -> bool {
    match k {
        ScopeKind::Switch { offsets, cases, current, .. } => {
            &&& cases@.len() == offsets@.len()
            &&& (current matches Some(c) ==> c < cases@.len())
        },
        _ => true,
    }
}

/// Index of the innermost open loop, if any.
pub open spec fn spec_find_loop(s: Seq<Scope>) -> Option<int>
    decreases s.len(),
{
    if s.len() == 0 {
        None
    } else if s.last().kind matches ScopeKind::Loop { .. } {
        Some(s.len() - 1)
    } else {
        spec_find_loop(s.drop_last())
    }
}

/// The statement a scope with this kind turns into when it closes while
/// holding the statements `body`.  A closing switch first files the
/// running segment under its case (or, before any case began, under the
/// implicit default).
pub open spec fn closed_matches(st: Statement, kind: ScopeKind, body: Seq<Statement>) -> bool {
    match kind {
        ScopeKind::If { end, cond } => st matches Statement::If { end: e, cond: c, stmts: b }
            && e == end && c == cond && b@ == body,
        ScopeKind::Else { end } => st matches Statement::Else { end: e, stmts: b } && e == end
            && b@ == body,
        ScopeKind::Try { end } => st matches Statement::Try { end: e, stmts: b } && e == end
            && b@ == body,
        ScopeKind::Switch { end, arg, offsets, cases, current, default } => st
            matches Statement::Switch { end: e, arg: a, offsets: o, cases: cs, default: d } && e
            == end && a == arg && o == offsets && (match current {
            None => d@ == body && cs == cases,
            Some(c) => d == default && cs@.len() == cases@.len() && 0 <= c < cs@.len() && (forall|
                j: int,
            |
                0 <= j < cs@.len() && j != c ==> cs@[j] == cases@[j]) && cs@[c as int]@ == body,
        }),
        ScopeKind::Root => false,
        ScopeKind::Loop { .. } => false,
    }
}

/// The statement a scope of kind `kind` received last before turning
/// into `st`: the final entry of the body that `st` carries for that
/// kind.  It is meaningful only when that body is not empty.
pub open spec fn chain_inner(st: Statement, kind: ScopeKind) -> Statement {
    match kind {
        ScopeKind::If { .. } => match st {
            Statement::If { stmts, .. } => stmts@.last(),
            _ => arbitrary(),
        },
        ScopeKind::Else { .. } => match st {
            Statement::Else { stmts, .. } => stmts@.last(),
            _ => arbitrary(),
        },
        ScopeKind::Try { .. } => match st {
            Statement::Try { stmts, .. } => stmts@.last(),
            _ => arbitrary(),
        },
        ScopeKind::Switch { current, .. } => match st {
            Statement::Switch { cases, default, .. } => match current {
                None => default@.last(),
                Some(c) => if c < cases@.len() {
                    cases@[c as int]@.last()
                } else {
                    arbitrary()
                },
            },
            _ => arbitrary(),
        },
        _ => arbitrary(),
    }
}

/// The statement that closing a whole group of scopes produces.  The
/// group is listed bottom to top; the top scope closes first, its
/// statement lands in the scope beneath it, and so on down, so the final
/// statement closes the group's bottom scope over its statements plus
/// the nested closing, which sits last in its body.
pub open spec fn chain_closed(st: Statement, group: Seq<Scope>) -> bool
    decreases group.len(),
{
    if group.len() == 0 {
        false
    } else if group.len() == 1 {
        closed_matches(st, group[0].kind, group[0].stmts@)
    } else {
        &&& closed_matches(
            st,
            group[0].kind,
            group[0].stmts@.push(chain_inner(st, group[0].kind)),
        )
        &&& chain_closed(chain_inner(st, group[0].kind), group.skip(1))
    }
}

/// What one cursor step does to the stack: the cursor moves one ahead,
/// and scopes are closed from the top, each exactly when the new cursor
/// equals its end, each leaving its statement (pinned by `chain_closed`)
/// in the innermost surviving scope.  Everything beneath the closed
/// scopes keeps its kind and statements, and afterwards no closable
/// scope whose end has been reached remains on top.
pub open spec fn advance_effect(s0: Scopes, s1: Scopes) -> bool {
    &&& s1.wf()
    &&& s1.cursor == s0.cursor + 1
    &&& 1 <= s1.depth() <= s0.depth()
    &&& (forall|j: int| 0 <= j < s1.depth() ==> s1.stack@[j].kind == s0.stack@[j].kind)
    &&& (forall|j: int| 0 <= j < s1.depth() - 1 ==> s1.stack@[j].stmts == s0.stack@[j].stmts)
    &&& (s1.depth() == s0.depth() ==> s1.stack@ == s0.stack@)
    &&& (s1.depth() < s0.depth() ==> (exists|st: Statement|
        s1.top().stmts@ == #[trigger] s0.stack@[s1.depth() - 1].stmts@.push(st) && chain_closed(
            st,
            s0.stack@.subrange(s1.depth(), s0.depth()),
        )))
    &&& (forall|j: int|
        s1.depth() <= j < s0.depth() ==> closable_end((#[trigger] s0.stack@[j]).kind) == Some(
            s1.cursor,
        ))
    &&& (s1.depth() > 1 ==> closable_end(s1.top().kind) != Some(s1.cursor))
}

/// One closing step extends a closing chain: if `inner` closes the upper
/// part of a group, and `st` closes the group's bottom scope once `inner`
/// has landed in it, then `st` closes the whole group.
proof fn lemma_chain_closed_step(st: Statement, inner: Statement, group: Seq<Scope>)
    requires
        group.len() >= 2,
        chain_closed(inner, group.skip(1)),
        closed_matches(st, group[0].kind, group[0].stmts@.push(inner)),
    ensures
        chain_closed(st, group),
{
    assert(chain_inner(st, group[0].kind) == inner);
}

/// What beginning switch case `pos` does to the stack: the running
/// segment is filed under the case it belonged to (or the implicit
/// default), and a fresh segment starts accumulating for case `pos`.
pub open spec fn switch_case_effect(s0: Scopes, s1: Scopes, pos: usize) -> bool {
    &&& s1.wf()
    &&& s1.cursor == s0.cursor
    &&& s1.depth() == s0.depth()
    &&& (forall|j: int| 0 <= j < s0.depth() - 1 ==> s1.stack@[j] == s0.stack@[j])
    &&& (s0.top().kind matches ScopeKind::Switch { end, arg, offsets, cases, current, default }
        ==> s1.top().kind matches ScopeKind::Switch {
        end: e2,
        arg: a2,
        offsets: o2,
        cases: cs2,
        current: cur2,
        default: d2,
    } && e2 == end && a2 == arg && o2 == offsets && cur2 == Some(pos) && (match current {
        None => d2 == s0.top().stmts && cs2 == cases,
        Some(c) => d2 == default && cs2@ == cases@.update(c as int, s0.top().stmts),
    }))
    &&& s1.top().stmts@.len() == 0
}

impl Scopes {
    /// The scope stack is never empty, the body sits at the bottom and
    /// nowhere else, and each scope's bookkeeping is consistent.
    pub open spec fn wf(self) -> bool {
        &&& self.stack@.len() >= 1
        &&& self.stack@[0].kind matches ScopeKind::Root
        &&& (forall|j: int|
            1 <= j < self.stack@.len() ==> !((#[trigger] self.stack@[j]).kind
                matches ScopeKind::Root))
        &&& (forall|j: int|
            0 <= j < self.stack@.len() ==> scope_kind_wf((#[trigger] self.stack@[j]).kind))
    }

    pub open spec fn depth(self) -> int {
        self.stack@.len() as int
    }

    pub open spec fn top(self) -> Scope
        recommends
            self.depth() >= 1,
    {
        self.stack@.last()
    }

    /// A fresh stack holding only the function body, cursor at the start.
    pub fn new() -> (s: Scopes)
        ensures
            s.wf(),
            s.depth() == 1,
            s.cursor == 0,
            s.top().kind matches ScopeKind::Root,
            s.top().stmts@.len() == 0,
    {
        let mut stack: Vec<Scope> = Vec::new();
        stack.push(Scope { kind: ScopeKind::Root, stmts: Vec::new() });
        Scopes { stack, cursor: 0 }
    }

    /// Append a statement to the innermost open scope.
    pub fn push_stmt(&mut self, st: Statement)
        requires
            old(self).wf(),
        ensures
            final(self).wf(),
            final(self).cursor == old(self).cursor,
            final(self).depth() == old(self).depth(),
            forall|j: int|
                0 <= j < old(self).depth() - 1 ==> final(self).stack@[j] == old(self).stack@[j],
            final(self).top().kind == old(self).top().kind,
            final(self).top().stmts@ == old(self).top().stmts@.push(st),
    {
        let ghost pre = self.stack@;
        let mut top = self.stack.pop().unwrap();
        top.stmts.push(st);
        self.stack.push(top);
        proof {
            assert(final(self).stack@ =~= pre.update(pre.len() - 1, final(self).stack@.last()));
        }
    }

    /// Open a loop starting at opcode `start`; its condition is not yet
    /// known.
    pub fn push_loop(&mut self, start: usize)
        requires
            old(self).wf(),
        ensures
            final(self).wf(),
            final(self).cursor == old(self).cursor,
            final(self).depth() == old(self).depth() + 1,
            forall|j: int|
                0 <= j < old(self).depth() ==> final(self).stack@[j] == old(self).stack@[j],
            final(self).top().kind matches ScopeKind::Loop { start: s2, cond }
                && s2 == start && cond matches Expr::Unknown(_),
            final(self).top().stmts@.len() == 0,
    {
        let cond = Expr::Unknown(String::new());
        self.stack.push(Scope { kind: ScopeKind::Loop { start, cond }, stmts: Vec::new() });
    }

    /// Open an if scope closing at `cursor + delta`.
    pub fn push_if(&mut self, delta: usize, cond: Expr)
        requires
            old(self).wf(),
            old(self).cursor + delta <= usize::MAX,
        ensures
            final(self).wf(),
            final(self).cursor == old(self).cursor,
            final(self).depth() == old(self).depth() + 1,
            forall|j: int|
                0 <= j < old(self).depth() ==> final(self).stack@[j] == old(self).stack@[j],
            final(self).top().kind == (ScopeKind::If {
                end: (old(self).cursor + delta) as usize,
                cond,
            }),
            final(self).top().stmts@.len() == 0,
    {
        let end = self.cursor + delta;
        self.stack.push(Scope { kind: ScopeKind::If { end, cond }, stmts: Vec::new() });
    }

    /// Open a try scope closing at `cursor + delta`.
    pub fn push_try(&mut self, delta: usize)
        requires
            old(self).wf(),
            old(self).cursor + delta <= usize::MAX,
        ensures
            final(self).wf(),
            final(self).cursor == old(self).cursor,
            final(self).depth() == old(self).depth() + 1,
            forall|j: int|
                0 <= j < old(self).depth() ==> final(self).stack@[j] == old(self).stack@[j],
            final(self).top().kind == (ScopeKind::Try {
                end: (old(self).cursor + delta) as usize,
            }),
            final(self).top().stmts@.len() == 0,
    {
        let end = self.cursor + delta;
        self.stack.push(Scope { kind: ScopeKind::Try { end }, stmts: Vec::new() });
    }
    /// Convert the innermost scope, which must be an if, into the if of an
    /// if/else: the if is emitted beneath it and an else scope closing at
    /// `cursor + delta` takes its place.
    pub fn push_else(&mut self, delta: usize)
        requires
            old(self).wf(),
            old(self).depth() >= 2,
            old(self).top().kind matches ScopeKind::If { .. },
            old(self).cursor + delta <= usize::MAX,
        ensures
            final(self).wf(),
            final(self).cursor == old(self).cursor,
            final(self).depth() == old(self).depth(),
            forall|j: int|
                0 <= j < old(self).depth() - 2 ==> final(self).stack@[j] == old(self).stack@[j],
            final(self).stack@[old(self).depth() - 2].kind == old(self).stack@[old(self).depth()
                - 2].kind,
            exists|st: Statement|
                final(self).stack@[old(self).depth() - 2].stmts@ == #[trigger] old(self).stack@[old(
                    self,
                ).depth() - 2].stmts@.push(st) && closed_matches(
                    st,
                    old(self).top().kind,
                    old(self).top().stmts@,
                ),
            final(self).top().kind == (ScopeKind::Else {
                end: (old(self).cursor + delta) as usize,
            }),
            final(self).top().stmts@.len() == 0,
    {
        let sc = self.stack.pop().unwrap();
        let st = close_scope_stmt(sc);
        proof {
            assert(self.wf());
        }
        self.push_stmt(st);
        let end = self.cursor + delta;
        self.stack.push(Scope { kind: ScopeKind::Else { end }, stmts: Vec::new() });
    }

    /// Open a switch scope closing at `cursor + delta`; `offsets` are the
    /// absolute opcode indices at which the cases begin.  Statements go to
    /// the implicit default case until the first case begins.
    pub fn push_switch(&mut self, delta: usize, arg: Expr, offsets: Vec<usize>)
        requires
            old(self).wf(),
            old(self).cursor + delta <= usize::MAX,
        ensures
            final(self).wf(),
            final(self).cursor == old(self).cursor,
            final(self).depth() == old(self).depth() + 1,
            forall|j: int|
                0 <= j < old(self).depth() ==> final(self).stack@[j] == old(self).stack@[j],
            final(self).top().kind matches ScopeKind::Switch {
                end: e,
                arg: a,
                offsets: o,
                cases: cs,
                current: cur,
                default: d,
            } && e == (old(self).cursor + delta) as usize && a == arg && o == offsets
                && cur is None && d@.len() == 0 && cs@.len() == offsets@.len() && (forall|k: int|
                0 <= k < cs@.len() ==> (#[trigger] cs@[k])@.len() == 0),
            final(self).top().stmts@.len() == 0,
    {
        let end = self.cursor + delta;
        let mut cases: Vec<Vec<Statement>> = Vec::new();
        let n = offsets.len();
        while cases.len() < n
            invariant
                cases@.len() <= n,
                forall|k: int| 0 <= k < cases@.len() ==> (#[trigger] cases@[k])@.len() == 0,
            decreases n - cases@.len(),
        {
            cases.push(Vec::new());
        }
        self.stack.push(
            Scope {
                kind: ScopeKind::Switch {
                    end,
                    arg,
                    offsets,
                    cases,
                    current: None,
                    default: Vec::new(),
                },
                stmts: Vec::new(),
            },
        );
    }

    /// Close the running segment of the innermost scope, which must be a
    /// switch, and start accumulating case `pos`.
    pub fn push_switch_case(&mut self, pos: usize)
        requires
            old(self).wf(),
            old(self).top().kind matches ScopeKind::Switch { offsets, .. } && pos < offsets@.len(),
        ensures
            switch_case_effect(*old(self), *final(self), pos),
    {
        let sc = self.stack.pop().unwrap();
        let Scope { kind, stmts } = sc;
        match kind {
            ScopeKind::Switch { end, arg, offsets, mut cases, current, default } => {
                let (cases2, default2) = match current {
                    None => (cases, stmts),
                    Some(c) => {
                        cases.set(c, stmts);
                        (cases, default)
                    },
                };
                self.stack.push(
                    Scope {
                        kind: ScopeKind::Switch {
                            end,
                            arg,
                            offsets,
                            cases: cases2,
                            current: Some(pos),
                            default: default2,
                        },
                        stmts: Vec::new(),
                    },
                );
            },
            _ => unreached(),
        }
    }

    /// The absolute end index of the innermost scope, if it is one that
    /// closes by itself.
    fn top_end(&self) -> (r: Option<usize>)
        requires
            self.depth() >= 1,
        ensures
            r == closable_end(self.top().kind),
    {
        match &self.stack[self.stack.len() - 1].kind {
            ScopeKind::If { end, .. } => Some(*end),
            ScopeKind::Else { end } => Some(*end),
            ScopeKind::Switch { end, .. } => Some(*end),
            ScopeKind::Try { end } => Some(*end),
            _ => None,
        }
    }

    /// Close the innermost scope, emitting it as a statement into the
    /// scope beneath it.
    fn close_top(&mut self)
        requires
            old(self).wf(),
            old(self).depth() >= 2,
            closable_end(old(self).top().kind) is Some,
        ensures
            final(self).wf(),
            final(self).cursor == old(self).cursor,
            final(self).depth() == old(self).depth() - 1,
            forall|j: int|
                0 <= j < old(self).depth() - 2 ==> final(self).stack@[j] == old(self).stack@[j],
            final(self).top().kind == old(self).stack@[old(self).depth() - 2].kind,
            exists|st: Statement|
                final(self).top().stmts@ == #[trigger] old(self).stack@[old(self).depth()
                    - 2].stmts@.push(st) && closed_matches(
                    st,
                    old(self).top().kind,
                    old(self).top().stmts@,
                ),
    {
        let sc = self.stack.pop().unwrap();
        let st = close_scope_stmt(sc);
        proof {
            assert(self.wf());
        }
        self.push_stmt(st);
    }

    /// Move the cursor past the instruction just handled and close every
    /// scope whose end it has reached.
    pub fn advance(&mut self)
        requires
            old(self).wf(),
            old(self).cursor < usize::MAX,
        ensures
            advance_effect(*old(self), *final(self)),
    {
        self.cursor = self.cursor + 1;
        while self.should_close()
            invariant
                self.wf(),
                self.cursor == old(self).cursor + 1,
                1 <= self.depth() <= old(self).depth(),
                forall|j: int|
                    0 <= j < self.depth() ==> self.stack@[j].kind == old(self).stack@[j].kind,
                forall|j: int|
                    0 <= j < self.depth() - 1 ==> self.stack@[j].stmts == old(self).stack@[j].stmts,
                self.depth() == old(self).depth() ==> self.stack@ == old(self).stack@,
                self.depth() < old(self).depth() ==> (exists|st: Statement|
                    self.top().stmts@ == #[trigger] old(self).stack@[self.depth()
                        - 1].stmts@.push(st) && chain_closed(
                        st,
                        old(self).stack@.subrange(self.depth(), old(self).depth()),
                    )),
                forall|j: int|
                    self.depth() <= j < old(self).depth() ==> closable_end(
                        (#[trigger] old(self).stack@[j]).kind,
                    ) == Some(self.cursor),
            decreases self.depth(),
        {
            let ghost prev = *self;
            self.close_top();
            proof {
                let od = old(self).depth();
                let d = self.depth();
                let st = choose|st: Statement|
                    self.top().stmts@ == prev.stack@[prev.depth() - 2].stmts@.push(st)
                        && closed_matches(st, prev.top().kind, prev.top().stmts@);
                if prev.depth() == od {
                    assert(prev.stack@ == old(self).stack@);
                    assert(old(self).stack@.subrange(d, od).len() == 1);
                    assert(old(self).stack@.subrange(d, od)[0] == old(self).stack@[od - 1]);
                    assert(chain_closed(st, old(self).stack@.subrange(d, od)));
                } else {
                    let stp = choose|stp: Statement|
                        prev.top().stmts@ == old(self).stack@[prev.depth() - 1].stmts@.push(stp)
                            && chain_closed(
                            stp,
                            old(self).stack@.subrange(prev.depth(), od),
                        );
                    let group = old(self).stack@.subrange(d, od);
                    assert(group[0] == old(self).stack@[d]);
                    assert(group.skip(1) =~= old(self).stack@.subrange(prev.depth(), od));
                    assert(prev.top().kind == old(self).stack@[d].kind);
                    assert(prev.top().stmts@ == group[0].stmts@.push(stp));
                    assert(closed_matches(st, group[0].kind, group[0].stmts@.push(stp)));
                    assert(group.len() >= 2);
                    assert(chain_closed(stp, group.skip(1)));
                    lemma_chain_closed_step(st, stp, group);
                    assert(prev.stack@[d - 1].stmts == old(self).stack@[d - 1].stmts);
                }
            }
        }
    }

    /// Whether the innermost scope is due to close at the cursor.
    fn should_close(&self) -> (r: bool)
        requires
            self.wf(),
        ensures
            r == (self.depth() > 1 && closable_end(self.top().kind) == Some(self.cursor)),
    {
        if self.stack.len() <= 1 {
            return false;
        }
        match self.top_end() {
            Some(end) => end == self.cursor,
            None => false,
        }
    }

    /// Whether anything beyond the function body is open.
    pub fn has_scopes(&self) -> (r: bool)
        ensures
            r == (self.depth() > 1),
    {
        self.stack.len() > 1
    }

    /// Whether the innermost scope is an if.
    pub fn last_is_if(&self) -> (r: bool)
        requires
            self.depth() >= 1,
        ensures
            r == (self.top().kind matches ScopeKind::If { .. }),
    {
        match &self.stack[self.stack.len() - 1].kind {
            ScopeKind::If { .. } => true,
            _ => false,
        }
    }

    /// Whether the innermost scope is a switch still waiting for case
    /// entry points.
    pub fn last_is_switch_ctx(&self) -> (r: bool)
        requires
            self.depth() >= 1,
        ensures
            r == (self.top().kind matches ScopeKind::Switch { .. }),
    {
        match &self.stack[self.stack.len() - 1].kind {
            ScopeKind::Switch { .. } => true,
            _ => false,
        }
    }

    /// Position of `idx` among the innermost switch's case entry offsets.
    #[verifier::loop_isolation(false)]
    pub fn switch_offset_pos(&self, idx: usize) -> (r: Option<usize>)
        requires
            self.depth() >= 1,
            self.top().kind matches ScopeKind::Switch { .. },
        ensures
            self.top().kind matches ScopeKind::Switch { offsets, .. } ==> match r {
                Some(p) => p < offsets@.len() && offsets@[p as int] == idx && (forall|k: int|
                    0 <= k < p ==> offsets@[k] != idx),
                None => forall|k: int| 0 <= k < offsets@.len() ==> offsets@[k] != idx,
            },
    {
        match &self.stack[self.stack.len() - 1].kind {
            ScopeKind::Switch { offsets, .. } => {
                let mut p: usize = 0;
                while p < offsets.len()
                    invariant
                        p <= offsets@.len(),
                        forall|k: int| 0 <= k < p ==> offsets@[k] != idx,
                    decreases offsets@.len() - p,
                {
                    if offsets[p] == idx {
                        return Some(p);
                    }
                    p = p + 1;
                }
                None
            },
            _ => unreached(),
        }
    }

    /// Index of the innermost open loop in the stack, if any.
    fn find_loop_index(&self) -> (r: Option<usize>)
        ensures
            match r {
                Some(j) => j < self.stack@.len() && (self.stack@[j as int].kind
                    matches ScopeKind::Loop { .. }) && spec_find_loop(self.stack@) == Some(j as int),
                None => spec_find_loop(self.stack@) is None,
            },
    {
        let mut j: usize = self.stack.len();
        proof {
            assert(self.stack@.take(j as int) =~= self.stack@);
        }
        while j > 0
            invariant
                j <= self.stack@.len(),
                spec_find_loop(self.stack@) == spec_find_loop(self.stack@.take(j as int)),
            decreases j,
        {
            proof {
                assert(self.stack@.take(j as int).last() == self.stack@[j - 1]);
                assert(self.stack@.take(j as int).drop_last() =~= self.stack@.take(j - 1));
            }
            match &self.stack[j - 1].kind {
                ScopeKind::Loop { .. } => {
                    return Some(j - 1);
                },
                _ => {},
            }
            j = j - 1;
        }
        None
    }

    /// Start offset of the innermost open loop, if any.
    pub fn last_loop_start(&self) -> (r: Option<usize>)
        ensures
            r == spec_loop_start(self.stack@),
    {
        match self.find_loop_index() {
            Some(j) => match &self.stack[j].kind {
                ScopeKind::Loop { start, .. } => Some(*start),
                _ => unreached(),
            },
            None => None,
        }
    }

    /// Back-patch the innermost loop's condition with `c` if that loop
    /// exists and its condition is still unknown; otherwise hand `c` back.
    pub fn try_patch_loop_cond(&mut self, c: Expr) -> (r: Option<Expr>)
        requires
            old(self).wf(),
        ensures
            final(self).wf(),
            final(self).cursor == old(self).cursor,
            match spec_find_loop(old(self).stack@) {
                Some(j) => if old(self).stack@[j].kind matches ScopeKind::Loop { cond, .. }
                    && cond matches Expr::Unknown(_) {
                    &&& r is None
                    &&& final(self).depth() == old(self).depth()
                    &&& (forall|k: int|
                        0 <= k < old(self).depth() && k != j ==> final(self).stack@[k] == old(
                            self,
                        ).stack@[k])
                    &&& final(self).stack@[j].stmts == old(self).stack@[j].stmts
                    &&& (old(self).stack@[j].kind matches ScopeKind::Loop { start, .. }
                        ==> final(self).stack@[j].kind == (ScopeKind::Loop { start, cond: c }))
                } else {
                    r == Some(c) && final(self).stack@ == old(self).stack@
                },
                None => r == Some(c) && final(self).stack@ == old(self).stack@,
            },
    {
        let j = match self.find_loop_index() {
            Some(j) => j,
            None => {
                return Some(c);
            },
        };
        let unknown = match &self.stack[j].kind {
            ScopeKind::Loop { cond, .. } => match cond {
                Expr::Unknown(_) => true,
                _ => false,
            },
            _ => unreached(),
        };
        if !unknown {
            return Some(c);
        }
        let mut tmp = Scope { kind: ScopeKind::Root, stmts: Vec::new() };
        self.stack.set_and_swap(j, &mut tmp);
        let start = match tmp.kind {
            ScopeKind::Loop { start, .. } => start,
            _ => unreached(),
        };
        self.stack.set(
            j,
            Scope { kind: ScopeKind::Loop { start, cond: c }, stmts: tmp.stmts },
        );
        None
    }

    /// Close the innermost scope if it is a loop, returning the finished
    /// while statement without emitting it anywhere.
    pub fn end_last_loop(&mut self) -> (r: Option<Statement>)
        requires
            old(self).wf(),
        ensures
            final(self).wf(),
            final(self).cursor == old(self).cursor,
            match old(self).top().kind {
                ScopeKind::Loop { cond, .. } => {
                    &&& r matches Some(st) && st == (Statement::While {
                        cond,
                        stmts: old(self).top().stmts,
                    })
                    &&& final(self).depth() == old(self).depth() - 1
                    &&& (forall|k: int|
                        0 <= k < final(self).depth() ==> final(self).stack@[k] == old(
                            self,
                        ).stack@[k])
                },
                _ => r is None && final(self).stack@ == old(self).stack@,
            },
    {
        let is_loop = match &self.stack[self.stack.len() - 1].kind {
            ScopeKind::Loop { .. } => true,
            _ => false,
        };
        if !is_loop {
            return None;
        }
        let sc = self.stack.pop().unwrap();
        match sc.kind {
            ScopeKind::Loop { cond, .. } => Some(Statement::While { cond, stmts: sc.stmts }),
            _ => unreached(),
        }
    }

    /// Consume the stack and return the function body's statements.
    pub fn statements(self) -> (r: Vec<Statement>)
        requires
            self.wf(),
        ensures
            r == self.stack@[0].stmts,
    {
        let mut stack = self.stack;
        let first = stack.remove(0);
        first.stmts
    }
}

/// The start offset of the innermost open loop, if any.
pub open spec fn spec_loop_start(s: Seq<Scope>) -> Option<usize> {
    match spec_find_loop(s) {
        Some(j) => match s[j].kind {
            ScopeKind::Loop { start, .. } => Some(start),
            _ => None,
        },
        None => None,
    }
}

/// Law: while a function is being processed, its body is exactly the
/// bottom of the scope stack.  A well-formed stack holds the body scope
/// at position zero and nowhere else, so the operations of this module,
/// which all preserve well-formedness, can never close or displace it:
/// when every other scope has been closed, the body alone remains.
pub proof fn lemma_body_scope_unique(s: Scopes, j: int)
    requires
        s.wf(),
        0 <= j < s.depth(),
    ensures
        (s.stack@[j].kind matches ScopeKind::Root) <==> j == 0,
{
}

/// The statement a closing scope turns into.
fn close_scope_stmt(sc: Scope) -> (st: Statement)
    requires
        closable_end(sc.kind) is Some,
        scope_kind_wf(sc.kind),
    ensures
        closed_matches(st, sc.kind, sc.stmts@),
{
    let Scope { kind, stmts } = sc;
    match kind {
        ScopeKind::If { end, cond } => Statement::If { end, cond, stmts },
        ScopeKind::Else { end } => Statement::Else { end, stmts },
        ScopeKind::Try { end } => Statement::Try { end, stmts },
        ScopeKind::Switch { end, arg, offsets, mut cases, current, default } => match current {
            None => Statement::Switch { end, arg, offsets, cases, default: stmts },
            Some(c) => {
                cases.set(c, stmts);
                Statement::Switch { end, arg, offsets, cases, default }
            },
        },
        _ => unreached(),
    }
}

} // verus!
