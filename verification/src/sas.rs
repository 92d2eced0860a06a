//! The device-verification state machine.
//!
//! A verification ceremony is an emoji-based short-authentication-string
//! trust handshake between two devices. The protocol engine delivers
//! lifecycle events, each tagged with the ceremony's transaction id; a
//! request or a start may arrive on the to-device channel or the in-room
//! channel, and all channels feed the same table. The machine here owns
//! that table of live ceremonies, drives each one from
//! request to its terminal state, and answers every event with the
//! actions the surrounding program must perform: accept, prompt the
//! human, confirm, cancel, report. The machine never blocks: the prompt
//! is an action dispatched as independent work, and its answer comes
//! back later as an event of its own.
//!
//! States run `Requested -> Started -> KeysExchanged -> (Confirmed |
//! Cancelled) -> Done`; `Done` and `Cancelled` are terminal and retire
//! the ceremony from the table. Events for one ceremony never touch
//! another: see `lemma_interleaved_ceremonies_independent`.

use vstd::prelude::*;

use crate::strutil::str_eq;

verus! {

/// Where one ceremony stands.
#[derive(Debug, Clone, Copy, PartialEq, Eq, Structural)]
pub enum SasPhase {
    /// The peer asked to verify; the request was auto-accepted.
    Requested,
    /// The emoji-method handshake was started and auto-accepted.
    Started,
    /// Keys are exchanged; the human is being asked to compare the code.
    KeysExchanged,
    /// The human said the codes match and the engine was told to confirm.
    Confirmed,
    /// Cancelled, by the peer or by a negative or failed confirmation.
    Cancelled,
    /// Completed successfully.
    Done,
}

/// The short authentication code shown to the human, resolved once at
/// the keys-exchanged state: the emoji form when the engine offers it,
/// the decimal form otherwise.
#[derive(Debug, Clone, PartialEq, Eq)]
pub enum ShortAuthCode {
    /// An ordered sequence of emoji symbols.
    Emoji { symbols: Vec<String> },
    /// Three decimal numbers.
    Decimals { first: u16, second: u16, third: u16 },
}

/// One verification-lifecycle event for one ceremony, as delivered by
/// the protocol engine, plus the human's answer to the prompt.
#[derive(Debug, Clone, PartialEq, Eq)]
pub enum SasEvent {
    /// A verification request arrived (out-of-band or in-room).
    Requested { peer_user: String, peer_device: String },
    /// The emoji-method handshake started.
    Started { peer_user: String, peer_device: String },
    /// The engine computed the short authentication code. The emoji form
    /// is optional; the decimal form is always present.
    KeysExchanged { emojis: Option<Vec<String>>, first: u16, second: u16, third: u16 },
    /// The human answered the prompt; `None` means the prompt itself
    /// failed, which counts as a negative answer.
    HumanDecision { confirmed: Option<bool> },
    /// The engine reports the ceremony complete and successful.
    Done,
    /// The peer cancelled, with its stated reason.
    Cancelled { reason: String },
    /// Any other transitional notification: observed and ignored.
    Passive,
}

/// What the surrounding program must do in reaction to an event.
#[derive(Debug, Clone, PartialEq, Eq)]
pub enum SasAction {
    /// Tell the engine to accept the verification request.
    AcceptRequest,
    /// Tell the engine to accept the started handshake.
    AcceptStart,
    /// Show the code and ask the human whether it matches, as an
    /// independently scheduled unit of work; the answer returns as a
    /// `HumanDecision` event.
    PromptConfirm { code: ShortAuthCode },
    /// Tell the engine to confirm the ceremony.
    Confirm,
    /// Tell the engine to cancel the ceremony.
    Cancel,
    /// Report success to the user.
    ReportVerified { peer_user: String, peer_device: String },
    /// Report the peer's cancellation and its reason to the user.
    ReportCancelled { reason: String },
}

/// One live ceremony: its correlation id, the peer it verifies, and its
/// current phase.
#[derive(Debug, Clone, PartialEq, Eq)]
pub struct Ceremony {
    pub transaction_id: String,
    pub peer_user: String,
    pub peer_device: String,
    pub phase: SasPhase,
}

/// A phase that ends the ceremony's observation.
pub open spec fn spec_terminal(p: SasPhase) -> bool {
    p is Done || p is Cancelled
}

/// The code to display: emoji preferred, decimals otherwise.
pub open spec fn spec_resolve_code(
    emojis: Option<Vec<String>>,
    first: u16,
    second: u16,
    third: u16,
) -> ShortAuthCode {
    match emojis {
        Some(symbols) => ShortAuthCode::Emoji { symbols },
        None => ShortAuthCode::Decimals { first, second, third },
    }
}

/// Resolves the engine's code forms into the one shown to the human.
pub fn resolve_code(emojis: Option<Vec<String>>, first: u16, second: u16, third: u16) -> (r:
    ShortAuthCode)
    ensures
        r == spec_resolve_code(emojis, first, second, third),
{
    match emojis {
        Some(symbols) => ShortAuthCode::Emoji { symbols },
        None => ShortAuthCode::Decimals { first, second, third },
    }
}

/// One ceremony's reaction to one event: the ceremony afterwards (still
/// carrying a terminal phase if it just ended; `None` when no ceremony
/// exists or arises) and the actions to perform, in order.
///
/// A request or start event for an unknown transaction creates the
/// ceremony and is auto-accepted; every other event for an unknown
/// transaction is ignored. On a live ceremony, the exchanged keys raise
/// the confirmation prompt; a positive answer confirms, a negative or
/// failed one cancels; the engine's completion and the peer's
/// cancellation are terminal and reported; anything else is observed and
/// ignored. Accept, confirm and cancel are each emitted at most once per
/// ceremony, as the engine demands.
pub open spec fn spec_step(cur: Option<Ceremony>, transaction_id: String, ev: SasEvent) -> (
    Option<Ceremony>,
    Seq<SasAction>,
) {
    match cur {
        None => match ev {
            SasEvent::Requested { peer_user, peer_device } => (
                Some(
                    Ceremony {
                        transaction_id,
                        peer_user,
                        peer_device,
                        phase: SasPhase::Requested,
                    },
                ),
                seq![SasAction::AcceptRequest],
            ),
            SasEvent::Started { peer_user, peer_device } => (
                Some(Ceremony { transaction_id, peer_user, peer_device, phase: SasPhase::Started }),
                seq![SasAction::AcceptStart],
            ),
            _ => (None, Seq::empty()),
        },
        Some(c) => match ev {
            SasEvent::Requested { .. } => (Some(c), Seq::empty()),
            SasEvent::Started { .. } => if c.phase is Requested {
                (
                    Some(
                        Ceremony {
                            transaction_id: c.transaction_id,
                            peer_user: c.peer_user,
                            peer_device: c.peer_device,
                            phase: SasPhase::Started,
                        },
                    ),
                    seq![SasAction::AcceptStart],
                )
            } else {
                (Some(c), Seq::empty())
            },
            SasEvent::KeysExchanged { emojis, first, second, third } => if c.phase is Requested
                || c.phase is Started {
                (
                    Some(
                        Ceremony {
                            transaction_id: c.transaction_id,
                            peer_user: c.peer_user,
                            peer_device: c.peer_device,
                            phase: SasPhase::KeysExchanged,
                        },
                    ),
                    seq![
                        SasAction::PromptConfirm {
                            code: spec_resolve_code(emojis, first, second, third),
                        },
                    ],
                )
            } else {
                (Some(c), Seq::empty())
            },
            SasEvent::HumanDecision { confirmed } => if c.phase is KeysExchanged {
                if confirmed == Some(true) {
                    (
                        Some(
                            Ceremony {
                                transaction_id: c.transaction_id,
                                peer_user: c.peer_user,
                                peer_device: c.peer_device,
                                phase: SasPhase::Confirmed,
                            },
                        ),
                        seq![SasAction::Confirm],
                    )
                } else {
                    (
                        Some(
                            Ceremony {
                                transaction_id: c.transaction_id,
                                peer_user: c.peer_user,
                                peer_device: c.peer_device,
                                phase: SasPhase::Cancelled,
                            },
                        ),
                        seq![SasAction::Cancel],
                    )
                }
            } else {
                (Some(c), Seq::empty())
            },
            SasEvent::Done => (
                Some(
                    Ceremony {
                        transaction_id: c.transaction_id,
                        peer_user: c.peer_user,
                        peer_device: c.peer_device,
                        phase: SasPhase::Done,
                    },
                ),
                seq![
                    SasAction::ReportVerified {
                        peer_user: c.peer_user,
                        peer_device: c.peer_device,
                    },
                ],
            ),
            SasEvent::Cancelled { reason } => (
                Some(
                    Ceremony {
                        transaction_id: c.transaction_id,
                        peer_user: c.peer_user,
                        peer_device: c.peer_device,
                        phase: SasPhase::Cancelled,
                    },
                ),
                seq![SasAction::ReportCancelled { reason }],
            ),
            SasEvent::Passive => (Some(c), Seq::empty()),
        },
    }
}

/// Index of the ceremony with this transaction id, or `-1`.
pub open spec fn spec_find(s: Seq<Ceremony>, tx: Seq<char>) -> int
    decreases s.len(),
{
    if s.len() == 0 {
        -1
    } else if s[0].transaction_id@ == tx {
        0
    } else {
        let r = spec_find(s.drop_first(), tx);
        if r == -1 {
            -1
        } else {
            r + 1
        }
    }
}

/// The ceremony with this transaction id, if one is live.
pub open spec fn spec_lookup(s: Seq<Ceremony>, tx: Seq<char>) -> Option<Ceremony> {
    if spec_find(s, tx) >= 0 {
        Some(s[spec_find(s, tx)])
    } else {
        None
    }
}

/// The phase of the ceremony with this transaction id, if one is live.
pub open spec fn spec_phase_of(s: Seq<Ceremony>, tx: Seq<char>) -> Option<SasPhase> {
    match spec_lookup(s, tx) {
        Some(c) => Some(c.phase),
        None => None,
    }
}

/// The ceremony table after one event: the addressed ceremony is
/// created, updated or retired as `spec_step` says; every other ceremony
/// is untouched.
pub open spec fn spec_table_after(s: Seq<Ceremony>, transaction_id: String, ev: SasEvent) -> Seq<
    Ceremony,
> {
    let i = spec_find(s, transaction_id@);
    let cur = if i >= 0 {
        Some(s[i])
    } else {
        None
    };
    match spec_step(cur, transaction_id, ev).0 {
        None => s,
        Some(c) => if spec_terminal(c.phase) {
            if i >= 0 {
                s.remove(i)
            } else {
                s
            }
        } else {
            if i >= 0 {
                s.update(i, c)
            } else {
                s.push(c)
            }
        },
    }
}

/// The actions one event elicits from the table.
pub open spec fn spec_table_actions(s: Seq<Ceremony>, transaction_id: String, ev: SasEvent) -> Seq<
    SasAction,
> {
    let i = spec_find(s, transaction_id@);
    let cur = if i >= 0 {
        Some(s[i])
    } else {
        None
    };
    spec_step(cur, transaction_id, ev).1
}

/// Well-formed table: transaction ids are distinct and no retired
/// ceremony lingers.
pub open spec fn wf_ceremonies(s: Seq<Ceremony>) -> bool {
    &&& forall|i: int, j: int|
        0 <= i < j < s.len() ==> s[i].transaction_id@ != s[j].transaction_id@
    &&& forall|i: int| 0 <= i < s.len() ==> !spec_terminal(#[trigger] s[i].phase)
}

proof fn lemma_find_props(s: Seq<Ceremony>, tx: Seq<char>)
    ensures
        spec_find(s, tx) == -1 ==> forall|i: int|
            0 <= i < s.len() ==> (#[trigger] s[i].transaction_id@) != tx,
        spec_find(s, tx) != -1 ==> 0 <= spec_find(s, tx) < s.len() && s[spec_find(
            s,
            tx,
        )].transaction_id@ == tx,
        spec_find(s, tx) != -1 ==> forall|j: int|
            0 <= j < spec_find(s, tx) ==> (#[trigger] s[j].transaction_id@) != tx,
    decreases s.len(),
{
    if s.len() > 0 && s[0].transaction_id@ != tx {
        lemma_find_props(s.drop_first(), tx);
        let r = spec_find(s.drop_first(), tx);
        if r == -1 {
            assert forall|i: int| 0 <= i < s.len() implies (#[trigger] s[i].transaction_id@)
                != tx by {
                if i >= 1 {
                    assert(s[i] == s.drop_first()[i - 1]);
                    assert(s.drop_first()[i - 1].transaction_id@ != tx);
                }
            }
        } else {
            assert forall|j: int| 0 <= j < spec_find(s, tx) implies (#[trigger] s[j].transaction_id@)
                != tx by {
                if j >= 1 {
                    assert(s[j] == s.drop_first()[j - 1]);
                    assert(s.drop_first()[j - 1].transaction_id@ != tx);
                }
            }
        }
    }
}

proof fn lemma_find_at(s: Seq<Ceremony>, tx: Seq<char>, i: int)
    requires
        0 <= i < s.len(),
        s[i].transaction_id@ == tx,
        forall|j: int| 0 <= j < i ==> (#[trigger] s[j].transaction_id@) != tx,
    ensures
        spec_find(s, tx) == i,
    decreases i,
{
    if i > 0 {
        assert(forall|j: int| 1 <= j < s.len() ==> s[j] == #[trigger] s.drop_first()[j - 1]);
        lemma_find_at(s.drop_first(), tx, i - 1);
    }
}

/// The table of live ceremonies and their phases. Events arrive tagged
/// with a transaction id; `handle_event` advances exactly that ceremony
/// and answers with the actions to perform.
pub struct SasMachine {
    ceremonies: Vec<Ceremony>,
}

impl View for SasMachine {
    type V = Seq<Ceremony>;

    closed spec fn view(&self) -> Seq<Ceremony> {
        self.ceremonies@
    }
}

fn find_ceremony(cs: &Vec<Ceremony>, tx: &str) -> (r: Option<usize>)
    ensures
        match r {
            Some(i) => i < cs@.len() && spec_find(cs@, tx@) == i as int,
            None => spec_find(cs@, tx@) == -1,
        },
{
    let n = cs.len();
    let mut i: usize = 0;
    while i < n
        invariant
            n == cs@.len(),
            i <= n,
            forall|j: int| 0 <= j < i ==> (#[trigger] cs@[j].transaction_id@) != tx@,
        decreases n - i,
    {
        if str_eq(cs[i].transaction_id.as_str(), tx) {
            proof {
                lemma_find_at(cs@, tx@, i as int);
            }
            return Some(i);
        }
        i += 1;
    }
    proof {
        lemma_find_props(cs@, tx@);
        if spec_find(cs@, tx@) != -1 {
            assert(cs@[spec_find(cs@, tx@)].transaction_id@ == tx@);
        }
    }
    None
}

impl SasMachine {
    /// Live ceremonies have distinct transaction ids and no terminal
    /// phases; established at creation, preserved by every event.
    pub open spec fn wf(&self) -> bool {
        wf_ceremonies(self@)
    }

    /// A machine observing no ceremonies.
    pub fn new() -> (r: SasMachine)
        ensures
            r@ == Seq::<Ceremony>::empty(),
            r.wf(),
    {
        SasMachine { ceremonies: Vec::new() }
    }

    /// How many ceremonies are being observed.
    pub fn active_count(&self) -> (n: usize)
        ensures
            n == self@.len(),
    {
        self.ceremonies.len()
    }

    /// The phase of the ceremony with this transaction id, if live.
    pub fn phase_of(&self, tx: &str) -> (r: Option<SasPhase>)
        ensures
            r == spec_phase_of(self@, tx@),
    {
        match find_ceremony(&self.ceremonies, tx) {
            Some(i) => Some(self.ceremonies[i].phase),
            None => None,
        }
    }

    /// Feeds one event for one ceremony through the machine and returns
    /// the actions the caller must perform, in order. The addressed
    /// ceremony advances exactly as `spec_step` says — created on a
    /// request or start, retired at a terminal phase — and no other
    /// ceremony changes.
    pub fn handle_event(&mut self, transaction_id: String, ev: SasEvent) -> (actions: Vec<
        SasAction,
    >)
        requires
            old(self).wf(),
        ensures
            final(self)@ == spec_table_after(old(self)@, transaction_id, ev),
            actions@ == spec_table_actions(old(self)@, transaction_id, ev),
            final(self).wf(),
    {
        let ghost s0 = self.ceremonies@;
        let ghost txg = transaction_id;
        let ghost evg = ev;
        let mut actions: Vec<SasAction> = Vec::new();
        match find_ceremony(&self.ceremonies, transaction_id.as_str()) {
            None => {
                proof {
                    lemma_find_props(s0, transaction_id@);
                }
                match ev {
                    SasEvent::Requested { peer_user, peer_device } => {
                        let c = Ceremony {
                            transaction_id,
                            peer_user,
                            peer_device,
                            phase: SasPhase::Requested,
                        };
                        self.ceremonies.push(c);
                        actions.push(SasAction::AcceptRequest);
                        proof {
                            assert(actions@ =~= seq![SasAction::AcceptRequest]);
                        }
                    },
                    SasEvent::Started { peer_user, peer_device } => {
                        let c = Ceremony {
                            transaction_id,
                            peer_user,
                            peer_device,
                            phase: SasPhase::Started,
                        };
                        self.ceremonies.push(c);
                        actions.push(SasAction::AcceptStart);
                        proof {
                            assert(actions@ =~= seq![SasAction::AcceptStart]);
                        }
                    },
                    _ => {},
                }
            },
            Some(i) => {
                let cur_phase = self.ceremonies[i].phase;
                proof {
                    assert(!spec_terminal(cur_phase));
                }
                match ev {
                    SasEvent::Requested { .. } => {
                        proof {
                            assert(s0.update(i as int, s0[i as int]) =~= s0);
                        }
                    },
                    SasEvent::Started { .. } => {
                        if matches!(cur_phase, SasPhase::Requested) {
                            let c = self.ceremonies.remove(i);
                            let c2 = Ceremony {
                                transaction_id: c.transaction_id,
                                peer_user: c.peer_user,
                                peer_device: c.peer_device,
                                phase: SasPhase::Started,
                            };
                            self.ceremonies.insert(i, c2);
                            actions.push(SasAction::AcceptStart);
                            proof {
                                assert(self.ceremonies@ =~= s0.update(
                                    i as int,
                                    spec_step(Some(s0[i as int]), txg, evg).0->0,
                                ));
                                assert(actions@ =~= seq![SasAction::AcceptStart]);
                            }
                        } else {
                            proof {
                                assert(s0.update(i as int, s0[i as int]) =~= s0);
                            }
                        }
                    },
                    SasEvent::KeysExchanged { emojis, first, second, third } => {
                        if matches!(cur_phase, SasPhase::Requested)
                            || matches!(cur_phase, SasPhase::Started) {
                            let c = self.ceremonies.remove(i);
                            let c2 = Ceremony {
                                transaction_id: c.transaction_id,
                                peer_user: c.peer_user,
                                peer_device: c.peer_device,
                                phase: SasPhase::KeysExchanged,
                            };
                            self.ceremonies.insert(i, c2);
                            let code = resolve_code(emojis, first, second, third);
                            actions.push(SasAction::PromptConfirm { code });
                            proof {
                                assert(self.ceremonies@ =~= s0.update(
                                    i as int,
                                    spec_step(Some(s0[i as int]), txg, evg).0->0,
                                ));
                                assert(actions@ =~= spec_table_actions(s0, txg, evg));
                            }
                        } else {
                            proof {
                                assert(s0.update(i as int, s0[i as int]) =~= s0);
                            }
                        }
                    },
                    SasEvent::HumanDecision { confirmed } => {
                        if matches!(cur_phase, SasPhase::KeysExchanged) {
                            if matches!(confirmed, Some(true)) {
                                let c = self.ceremonies.remove(i);
                                let c2 = Ceremony {
                                    transaction_id: c.transaction_id,
                                    peer_user: c.peer_user,
                                    peer_device: c.peer_device,
                                    phase: SasPhase::Confirmed,
                                };
                                self.ceremonies.insert(i, c2);
                                actions.push(SasAction::Confirm);
                                proof {
                                    assert(self.ceremonies@ =~= s0.update(
                                        i as int,
                                        spec_step(Some(s0[i as int]), txg, evg).0->0,
                                    ));
                                    assert(actions@ =~= seq![SasAction::Confirm]);
                                }
                            } else {
                                let _ = self.ceremonies.remove(i);
                                actions.push(SasAction::Cancel);
                                proof {
                                    assert(actions@ =~= seq![SasAction::Cancel]);
                                }
                            }
                        } else {
                            proof {
                                assert(s0.update(i as int, s0[i as int]) =~= s0);
                            }
                        }
                    },
                    SasEvent::Done => {
                        let c = self.ceremonies.remove(i);
                        actions.push(
                            SasAction::ReportVerified {
                                peer_user: c.peer_user,
                                peer_device: c.peer_device,
                            },
                        );
                        proof {
                            assert(actions@ =~= spec_table_actions(s0, txg, evg));
                        }
                    },
                    SasEvent::Cancelled { reason } => {
                        let _ = self.ceremonies.remove(i);
                        actions.push(SasAction::ReportCancelled { reason });
                        proof {
                            assert(actions@ =~= spec_table_actions(s0, txg, evg));
                        }
                    },
                    SasEvent::Passive => {
                        proof {
                            assert(s0.update(i as int, s0[i as int]) =~= s0);
                        }
                    },
                }
            },
        }
        proof {
            lemma_wf_after(s0, txg, evg);
        }
        actions
    }
}

proof fn lemma_wf_after(s: Seq<Ceremony>, transaction_id: String, ev: SasEvent)
    requires
        wf_ceremonies(s),
    ensures
        wf_ceremonies(spec_table_after(s, transaction_id, ev)),
{
    lemma_find_props(s, transaction_id@);
    let i = spec_find(s, transaction_id@);
    let cur = if i >= 0 {
        Some(s[i])
    } else {
        None
    };
    match spec_step(cur, transaction_id, ev).0 {
        None => {},
        Some(c) => {
            if spec_terminal(c.phase) {
                if i >= 0 {
                    let t = s.remove(i);
                    assert forall|a: int, b: int| 0 <= a < b < t.len() implies t[a].transaction_id@
                        != t[b].transaction_id@ by {
                        let a0 = if a < i {
                            a
                        } else {
                            a + 1
                        };
                        let b0 = if b < i {
                            b
                        } else {
                            b + 1
                        };
                        assert(t[a] == s[a0] && t[b] == s[b0]);
                    }
                    assert forall|a: int| 0 <= a < t.len() implies !spec_terminal(
                        #[trigger] t[a].phase,
                    ) by {
                        let a0 = if a < i {
                            a
                        } else {
                            a + 1
                        };
                        assert(t[a] == s[a0]);
                    }
                }
            } else {
                if i >= 0 {
                    assert(c.transaction_id@ == s[i].transaction_id@);
                } else {
                    let t = s.push(c);
                    assert(forall|a: int|
                        0 <= a < s.len() ==> (#[trigger] s[a].transaction_id@)
                            != transaction_id@);
                    assert(c.transaction_id == transaction_id);
                }
            }
        },
    }
}

/// Phase evolution of one ceremony under one event, including creation
/// on a request or start and retirement at a terminal phase. `None`
/// means no ceremony is being observed.
pub open spec fn spec_phase_step(cur: Option<SasPhase>, ev: SasEvent) -> Option<SasPhase> {
    match cur {
        None => match ev {
            SasEvent::Requested { .. } => Some(SasPhase::Requested),
            SasEvent::Started { .. } => Some(SasPhase::Started),
            _ => None,
        },
        Some(p) => match ev {
            SasEvent::Requested { .. } => Some(p),
            SasEvent::Started { .. } => if p is Requested {
                Some(SasPhase::Started)
            } else {
                Some(p)
            },
            SasEvent::KeysExchanged { .. } => if p is Requested || p is Started {
                Some(SasPhase::KeysExchanged)
            } else {
                Some(p)
            },
            SasEvent::HumanDecision { confirmed } => if p is KeysExchanged {
                if confirmed == Some(true) {
                    Some(SasPhase::Confirmed)
                } else {
                    None
                }
            } else {
                Some(p)
            },
            SasEvent::Done => None,
            SasEvent::Cancelled { .. } => None,
            SasEvent::Passive => Some(p),
        },
    }
}

/// Phase of one observed ceremony after a whole event sequence, first
/// event first.
pub open spec fn spec_run_phases(cur: Option<SasPhase>, evs: Seq<SasEvent>) -> Option<SasPhase>
    decreases evs.len(),
{
    if evs.len() == 0 {
        cur
    } else {
        spec_phase_step(spec_run_phases(cur, evs.drop_last()), evs.last())
    }
}

/// The ceremony one run tracks after a whole event sequence (retired
/// ceremonies are `None`).
pub open spec fn spec_run_tracked(
    cur: Option<Ceremony>,
    transaction_id: String,
    evs: Seq<SasEvent>,
) -> Option<Ceremony>
    decreases evs.len(),
{
    if evs.len() == 0 {
        cur
    } else {
        let prev = spec_run_tracked(cur, transaction_id, evs.drop_last());
        match spec_step(prev, transaction_id, evs.last()).0 {
            Some(c) => if spec_terminal(c.phase) {
                None
            } else {
                Some(c)
            },
            None => None,
        }
    }
}

/// The raw ceremony the last event of a run produced, terminal phase and
/// all, before retirement; `None` for an empty run on no ceremony.
pub open spec fn spec_run_outcome(
    cur: Option<Ceremony>,
    transaction_id: String,
    evs: Seq<SasEvent>,
) -> Option<Ceremony> {
    if evs.len() == 0 {
        cur
    } else {
        spec_step(
            spec_run_tracked(cur, transaction_id, evs.drop_last()),
            transaction_id,
            evs.last(),
        ).0
    }
}

/// All actions a run of events elicits, in order.
pub open spec fn spec_run_actions(
    cur: Option<Ceremony>,
    transaction_id: String,
    evs: Seq<SasEvent>,
) -> Seq<SasAction>
    decreases evs.len(),
{
    if evs.len() == 0 {
        Seq::empty()
    } else {
        spec_run_actions(cur, transaction_id, evs.drop_last()) + spec_step(
            spec_run_tracked(cur, transaction_id, evs.drop_last()),
            transaction_id,
            evs.last(),
        ).1
    }
}

/// How many times a run told the engine to confirm.
pub open spec fn spec_confirm_count(acts: Seq<SasAction>) -> nat
    decreases acts.len(),
{
    if acts.len() == 0 {
        0
    } else {
        spec_confirm_count(acts.drop_last()) + if acts.last() is Confirm {
            1nat
        } else {
            0nat
        }
    }
}

/// How many times a run told the engine to cancel.
pub open spec fn spec_cancel_count(acts: Seq<SasAction>) -> nat
    decreases acts.len(),
{
    if acts.len() == 0 {
        0
    } else {
        spec_cancel_count(acts.drop_last()) + if acts.last() is Cancel {
            1nat
        } else {
            0nat
        }
    }
}

/// How many times a run asked the human anything.
pub open spec fn spec_prompt_count(acts: Seq<SasAction>) -> nat
    decreases acts.len(),
{
    if acts.len() == 0 {
        0
    } else {
        spec_prompt_count(acts.drop_last()) + if acts.last() is PromptConfirm {
            1nat
        } else {
            0nat
        }
    }
}

proof fn lemma_counts_push(s: Seq<SasAction>, a: SasAction)
    ensures
        spec_confirm_count(s.push(a)) == spec_confirm_count(s) + if a is Confirm {
            1nat
        } else {
            0nat
        },
        spec_cancel_count(s.push(a)) == spec_cancel_count(s) + if a is Cancel {
            1nat
        } else {
            0nat
        },
        spec_prompt_count(s.push(a)) == spec_prompt_count(s) + if a is PromptConfirm {
            1nat
        } else {
            0nat
        },
{
    assert(s.push(a).drop_last() =~= s);
    assert(s.push(a).last() == a);
}

/// A ceremony that receives the request, the start and the exchanged
/// keys, whose human confirms the code, and whose engine then reports
/// completion, reaches `Done`: the run accepts the request and the
/// start, prompts once, tells the engine to confirm exactly once and to
/// cancel never, and reports the verified peer.
pub proof fn lemma_positive_confirmation(
    tx: String,
    peer_user: String,
    peer_device: String,
    start_user: String,
    start_device: String,
    emojis: Option<Vec<String>>,
    first: u16,
    second: u16,
    third: u16,
)
    ensures
        ({
            let evs = seq![
                SasEvent::Requested { peer_user, peer_device },
                SasEvent::Started { peer_user: start_user, peer_device: start_device },
                SasEvent::KeysExchanged { emojis, first, second, third },
                SasEvent::HumanDecision { confirmed: Some(true) },
                SasEvent::Done,
            ];
            let acts = spec_run_actions(None, tx, evs);
            &&& spec_run_outcome(None, tx, evs) == Some(
                Ceremony {
                    transaction_id: tx,
                    peer_user,
                    peer_device,
                    phase: SasPhase::Done,
                },
            )
            &&& spec_run_tracked(None, tx, evs) is None
            &&& acts =~= seq![
                SasAction::AcceptRequest,
                SasAction::AcceptStart,
                SasAction::PromptConfirm { code: spec_resolve_code(emojis, first, second, third) },
                SasAction::Confirm,
                SasAction::ReportVerified { peer_user, peer_device },
            ]
            &&& spec_confirm_count(acts) == 1
            &&& spec_cancel_count(acts) == 0
        }),
{
    reveal_with_fuel(spec_run_tracked, 7);
    reveal_with_fuel(spec_run_actions, 7);
    let e1 = SasEvent::Requested { peer_user, peer_device };
    let e2 = SasEvent::Started { peer_user: start_user, peer_device: start_device };
    let e3 = SasEvent::KeysExchanged { emojis, first, second, third };
    let e4 = SasEvent::HumanDecision { confirmed: Some(true) };
    let e5 = SasEvent::Done;
    let evs = seq![e1, e2, e3, e4, e5];
    lemma_run_five(e1, e2, e3, e4, e5);
    let a1 = SasAction::AcceptRequest;
    let a2 = SasAction::AcceptStart;
    let a3 = SasAction::PromptConfirm { code: spec_resolve_code(emojis, first, second, third) };
    let a4 = SasAction::Confirm;
    let a5 = SasAction::ReportVerified { peer_user, peer_device };
    let acts = spec_run_actions(None, tx, evs);
    assert(acts =~= seq![a1, a2, a3, a4, a5]);
    let empty = Seq::<SasAction>::empty();
    lemma_counts_push(empty, a1);
    lemma_counts_push(empty.push(a1), a2);
    lemma_counts_push(empty.push(a1).push(a2), a3);
    lemma_counts_push(empty.push(a1).push(a2).push(a3), a4);
    lemma_counts_push(empty.push(a1).push(a2).push(a3).push(a4), a5);
    assert(acts =~= empty.push(a1).push(a2).push(a3).push(a4).push(a5));
}

/// A ceremony that receives the request, the start and the exchanged
/// keys, whose human rejects the code or whose prompt fails, tells the
/// engine to cancel exactly once and to confirm never, and terminates.
pub proof fn lemma_negative_confirmation(
    tx: String,
    peer_user: String,
    peer_device: String,
    start_user: String,
    start_device: String,
    emojis: Option<Vec<String>>,
    first: u16,
    second: u16,
    third: u16,
    answer: Option<bool>,
)
    requires
        answer != Some(true),
    ensures
        ({
            let evs = seq![
                SasEvent::Requested { peer_user, peer_device },
                SasEvent::Started { peer_user: start_user, peer_device: start_device },
                SasEvent::KeysExchanged { emojis, first, second, third },
                SasEvent::HumanDecision { confirmed: answer },
            ];
            let acts = spec_run_actions(None, tx, evs);
            &&& spec_run_outcome(None, tx, evs) == Some(
                Ceremony {
                    transaction_id: tx,
                    peer_user,
                    peer_device,
                    phase: SasPhase::Cancelled,
                },
            )
            &&& spec_run_tracked(None, tx, evs) is None
            &&& acts =~= seq![
                SasAction::AcceptRequest,
                SasAction::AcceptStart,
                SasAction::PromptConfirm { code: spec_resolve_code(emojis, first, second, third) },
                SasAction::Cancel,
            ]
            &&& spec_cancel_count(acts) == 1
            &&& spec_confirm_count(acts) == 0
        }),
{
    reveal_with_fuel(spec_run_tracked, 7);
    reveal_with_fuel(spec_run_actions, 7);
    let e1 = SasEvent::Requested { peer_user, peer_device };
    let e2 = SasEvent::Started { peer_user: start_user, peer_device: start_device };
    let e3 = SasEvent::KeysExchanged { emojis, first, second, third };
    let e4 = SasEvent::HumanDecision { confirmed: answer };
    let evs = seq![e1, e2, e3, e4];
    lemma_run_four(e1, e2, e3, e4);
    let a1 = SasAction::AcceptRequest;
    let a2 = SasAction::AcceptStart;
    let a3 = SasAction::PromptConfirm { code: spec_resolve_code(emojis, first, second, third) };
    let a4 = SasAction::Cancel;
    let acts = spec_run_actions(None, tx, evs);
    assert(acts =~= seq![a1, a2, a3, a4]);
    let empty = Seq::<SasAction>::empty();
    lemma_counts_push(empty, a1);
    lemma_counts_push(empty.push(a1), a2);
    lemma_counts_push(empty.push(a1).push(a2), a3);
    lemma_counts_push(empty.push(a1).push(a2).push(a3), a4);
    assert(acts =~= empty.push(a1).push(a2).push(a3).push(a4));
}

/// A ceremony cancelled by the peer before any keys were exchanged
/// terminates at once, reports the peer's reason, and never prompts the
/// human nor calls confirm or cancel on the engine.
pub proof fn lemma_peer_cancellation(
    tx: String,
    peer_user: String,
    peer_device: String,
    reason: String,
)
    ensures
        ({
            let evs = seq![
                SasEvent::Requested { peer_user, peer_device },
                SasEvent::Cancelled { reason },
            ];
            let acts = spec_run_actions(None, tx, evs);
            &&& spec_run_outcome(None, tx, evs) == Some(
                Ceremony {
                    transaction_id: tx,
                    peer_user,
                    peer_device,
                    phase: SasPhase::Cancelled,
                },
            )
            &&& spec_run_tracked(None, tx, evs) is None
            &&& acts =~= seq![
                SasAction::AcceptRequest,
                SasAction::ReportCancelled { reason },
            ]
            &&& spec_prompt_count(acts) == 0
            &&& spec_confirm_count(acts) == 0
            &&& spec_cancel_count(acts) == 0
        }),
{
    reveal_with_fuel(spec_run_tracked, 7);
    reveal_with_fuel(spec_run_actions, 7);
    let e1 = SasEvent::Requested { peer_user, peer_device };
    let e2 = SasEvent::Cancelled { reason };
    let evs = seq![e1, e2];
    let s1 = seq![e1];
    assert(evs.drop_last() =~= s1);
    assert(s1.drop_last() =~= Seq::<SasEvent>::empty());
    let a1 = SasAction::AcceptRequest;
    let a2 = SasAction::ReportCancelled { reason };
    let acts = spec_run_actions(None, tx, evs);
    assert(acts =~= seq![a1, a2]);
    let empty = Seq::<SasAction>::empty();
    lemma_counts_push(empty, a1);
    lemma_counts_push(empty.push(a1), a2);
    assert(acts =~= empty.push(a1).push(a2));
}

proof fn lemma_run_four(e1: SasEvent, e2: SasEvent, e3: SasEvent, e4: SasEvent)
    ensures
        seq![e1, e2, e3, e4].drop_last() =~= seq![e1, e2, e3],
        seq![e1, e2, e3].drop_last() =~= seq![e1, e2],
        seq![e1, e2].drop_last() =~= seq![e1],
        seq![e1].drop_last() =~= Seq::<SasEvent>::empty(),
{
}

proof fn lemma_run_five(e1: SasEvent, e2: SasEvent, e3: SasEvent, e4: SasEvent, e5: SasEvent)
    ensures
        seq![e1, e2, e3, e4, e5].drop_last() =~= seq![e1, e2, e3, e4],
        seq![e1, e2, e3, e4].drop_last() =~= seq![e1, e2, e3],
        seq![e1, e2, e3].drop_last() =~= seq![e1, e2],
        seq![e1, e2].drop_last() =~= seq![e1],
        seq![e1].drop_last() =~= Seq::<SasEvent>::empty(),
{
}

/// The emoji symbols joined by single spaces.
pub open spec fn spec_emoji_line(ss: Seq<String>) -> Seq<char>
    decreases ss.len(),
{
    if ss.len() == 0 {
        Seq::empty()
    } else if ss.len() == 1 {
        ss[0]@
    } else {
        spec_emoji_line(ss.drop_last()) + seq![' '] + ss.last()@
    }
}

/// The display line of a code: the emoji symbols separated by spaces, or
/// the three decimal numbers separated by dashes.
pub open spec fn spec_code_line(code: ShortAuthCode) -> Seq<char> {
    match code {
        ShortAuthCode::Emoji { symbols } => spec_emoji_line(symbols@),
        ShortAuthCode::Decimals { first, second, third } => crate::strutil::spec_decimal(
            first as nat,
        ) + seq!['-'] + crate::strutil::spec_decimal(second as nat) + seq!['-']
            + crate::strutil::spec_decimal(third as nat),
    }
}

/// Renders the code for the confirmation prompt.
pub fn code_line(code: &ShortAuthCode) -> (r: String)
    ensures
        r@ == spec_code_line(*code),
{
    match code {
        ShortAuthCode::Emoji { symbols } => {
            proof {
                reveal_strlit(" ");
            }
            let n = symbols.len();
            let mut out = String::new();
            let mut i: usize = 0;
            while i < n
                invariant
                    i <= n,
                    n == symbols@.len(),
                    out@ == spec_emoji_line(symbols@.subrange(0, i as int)),
                    " "@ == seq![' '],
                decreases n - i,
            {
                if i > 0 {
                    out.append(" ");
                }
                out.append(symbols[i].as_str());
                proof {
                    let pre = symbols@.subrange(0, i + 1 as int);
                    assert(pre.drop_last() =~= symbols@.subrange(0, i as int));
                    assert(pre.last() == symbols@[i as int]);
                    if i == 0 {
                        assert(out@ =~= spec_emoji_line(pre));
                    } else {
                        assert(out@ =~= spec_emoji_line(pre));
                    }
                }
                i += 1;
            }
            proof {
                assert(symbols@.subrange(0, n as int) =~= symbols@);
            }
            out
        },
        ShortAuthCode::Decimals { first, second, third } => {
            proof {
                reveal_strlit("-");
            }
            let mut out = crate::strutil::decimal_string(*first);
            out.append("-");
            let second_s = crate::strutil::decimal_string(*second);
            out.append(second_s.as_str());
            out.append("-");
            let third_s = crate::strutil::decimal_string(*third);
            out.append(third_s.as_str());
            proof {
                assert(out@ =~= spec_code_line(*code));
            }
            out
        },
    }
}

} // verus!
