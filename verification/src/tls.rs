//! The TLS acceptor's hot-reload discipline: which certificate configuration
//! a handshake uses, and when a published replacement becomes visible.
//!
//! The certificate material itself is opaque to this model; a configuration
//! is identified by the generation number the refresh scheduler stamped on
//! it when it was loaded. A listener's life is a sequence of events —
//! configurations installed from the refresh channel, handshakes begun — and
//! the configuration a handshake uses is determined by the events before it
//! alone.

use vstd::prelude::*;

verus! {

/// One event in a listener's life.
pub enum TlsEvent {
    /// A configuration published on the refresh channel was installed.
    Install(u64),
    /// A handshake began.
    HandshakeStart,
}

/// The configuration generation current after `evs`, starting from
/// `initial`: the last one installed, or `initial` if none was.
pub open spec fn current_after(initial: u64, evs: Seq<TlsEvent>) -> u64
    decreases evs.len(),
{
    if evs.len() == 0 {
        initial
    } else {
        match evs.last() {
            TlsEvent::Install(c) => c,
            TlsEvent::HandshakeStart => current_after(initial, evs.drop_last()),
        }
    }
}

/// The configuration used by a handshake begun at position `i` of the
/// event sequence: the one current just before it.
pub open spec fn handshake_config_at(initial: u64, evs: Seq<TlsEvent>, i: int) -> u64 {
    current_after(initial, evs.take(i))
}

/// One listener's view of the current TLS configuration, together with the
/// history of installs and handshake starts that led to it.
pub struct TlsAcceptorState {
    pub current: u64,
    pub initial: Ghost<u64>,
    pub history: Ghost<Seq<TlsEvent>>,
}

impl TlsAcceptorState {
    /// The current configuration is the one the history prescribes.
    pub open spec fn wf(&self) -> bool {
        self.current == current_after(self.initial@, self.history@)
    }

    /// A listener that starts out with the configuration of generation
    /// `initial`.
    pub fn new(initial: u64) -> (a: TlsAcceptorState)
        ensures
            a.wf(),
            a.current == initial,
            a.initial@ == initial,
            a.history@ == Seq::<TlsEvent>::empty(),
    {
        TlsAcceptorState { current: initial, initial: Ghost(initial), history: Ghost(Seq::empty()) }
    }

    /// Install a configuration published on the refresh channel: every
    /// handshake begun after this call uses `new_config`.
    pub fn replace_config(&mut self, new_config: u64)
        requires
            old(self).wf(),
        ensures
            final(self).wf(),
            final(self).current == new_config,
            final(self).initial == old(self).initial,
            final(self).history@ == old(self).history@.push(TlsEvent::Install(new_config)),
    {
        proof {
            let evs = self.history@.push(TlsEvent::Install(new_config));
            assert(evs.last() == TlsEvent::Install(new_config));
        }
        self.history = Ghost(self.history@.push(TlsEvent::Install(new_config)));
        self.current = new_config;
    }

    /// Begin a handshake: it uses the configuration current at this moment
    /// and keeps it whatever is installed later.
    pub fn begin_handshake(&mut self) -> (config: u64)
        requires
            old(self).wf(),
        ensures
            final(self).wf(),
            final(self).current == old(self).current,
            final(self).initial == old(self).initial,
            final(self).history@ == old(self).history@.push(TlsEvent::HandshakeStart),
            config == old(self).current,
            config == handshake_config_at(
                final(self).initial@,
                final(self).history@,
                old(self).history@.len() as int,
            ),
    {
        proof {
            let evs = self.history@.push(TlsEvent::HandshakeStart);
            assert(evs.drop_last() =~= self.history@);
            assert(evs.take(self.history@.len() as int) =~= self.history@);
        }
        self.history = Ghost(self.history@.push(TlsEvent::HandshakeStart));
        self.current
    }
}

/// A configuration installed at position `j` is used by every handshake
/// begun after it, until the next install: publishing applies to all
/// subsequent handshakes.
pub proof fn lemma_install_applies_to_subsequent(
    initial: u64,
    evs: Seq<TlsEvent>,
    j: int,
    i: int,
    c: u64,
)
    requires
        0 <= j < i <= evs.len(),
        evs[j] == TlsEvent::Install(c),
        forall|k: int| j < k < i ==> !(evs[k] is Install),
    ensures
        handshake_config_at(initial, evs, i) == c,
    decreases i - j,
{
    let pre = evs.take(i);
    if i == j + 1 {
        assert(pre.last() == TlsEvent::Install(c));
    } else {
        assert(pre.last() == evs[i - 1]);
        assert(!(evs[i - 1] is Install));
        assert(pre.drop_last() =~= evs.take(i - 1));
        lemma_install_applies_to_subsequent(initial, evs, j, i - 1, c);
    }
}

/// The configuration a handshake uses is fixed by the events before it
/// began: whatever is installed later — however the histories go on — never
/// reaches a handshake already in flight.
pub proof fn lemma_handshake_never_retroactive(
    initial: u64,
    evs1: Seq<TlsEvent>,
    evs2: Seq<TlsEvent>,
    i: int,
)
    requires
        0 <= i <= evs1.len(),
        i <= evs2.len(),
        evs1.take(i) == evs2.take(i),
    ensures
        handshake_config_at(initial, evs1, i) == handshake_config_at(initial, evs2, i),
{
}

} // verus!
