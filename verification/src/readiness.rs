//! What the reactor says to the poller and hears from it: tokens, sets of
//! readiness kinds and registration options. The three types are `mio`'s.
//! Verus reads a `Token` as the `usize` it wraps; an `EventSet` and a
//! `PollOpt` stay closed, and this module names what each holds and says
//! what the calls that the library makes do to it.

use vstd::prelude::*;

verus! {

/// The token under which the listening socket is registered. No connection
/// ever has it.
pub const SERVER_TOKEN: usize = 0;

/// The kinds of readiness that an `EventSet` can hold.
#[derive(Clone, Copy, Debug, PartialEq, Eq, Structural)]
pub enum Readiness {
    Readable,
    Writable,
    Error,
    Hup,
}

/// The ways of notifying that a `PollOpt` can hold.
#[derive(Clone, Copy, Debug, PartialEq, Eq, Structural)]
pub enum PollMode {
    Edge,
    Level,
    Oneshot,
}

/// `mio::Token`, a tuple struct around one public `usize`, which Verus reads.
#[verifier::external_type_specification]
pub struct ExToken(mio::Token);

/// `mio::EventSet`, a set of bits. Verus sees nothing inside it.
#[verifier::external_type_specification]
#[verifier::external_body]
pub struct ExEventSet(mio::EventSet);

/// `mio::PollOpt`, a set of bits. Verus sees nothing inside it.
#[verifier::external_type_specification]
#[verifier::external_body]
pub struct ExPollOpt(mio::PollOpt);

/// The kinds of readiness whose bits are set in an `EventSet`.
pub uninterp spec fn event_kinds(events: mio::EventSet) -> Set<Readiness>;

/// The ways of notifying whose bits are set in a `PollOpt`.
pub uninterp spec fn poll_modes(opts: mio::PollOpt) -> Set<PollMode>;

/// `EventSet::readable`: the set of the one kind `Readable`.
pub assume_specification[ mio::EventSet::readable ]() -> (events: mio::EventSet)
    ensures
        event_kinds(events) == set![Readiness::Readable],
;

/// `EventSet::writable`: the set of the one kind `Writable`.
pub assume_specification[ mio::EventSet::writable ]() -> (events: mio::EventSet)
    ensures
        event_kinds(events) == set![Readiness::Writable],
;

/// `EventSet::insert`: the bits of `other` are set as well.
pub assume_specification[ mio::EventSet::insert ](events: &mut mio::EventSet, other: mio::EventSet)
    ensures
        event_kinds(*final(events)) == event_kinds(*old(events)).union(event_kinds(other)),
;

/// `EventSet::remove`: the bits of `other` are cleared.
pub assume_specification[ mio::EventSet::remove ](events: &mut mio::EventSet, other: mio::EventSet)
    ensures
        event_kinds(*final(events)) == event_kinds(*old(events)).difference(event_kinds(other)),
;

/// `EventSet::is_readable`: whether the bit of `Readable` is set.
pub assume_specification[ mio::EventSet::is_readable ](events: &mio::EventSet) -> (held: bool)
    ensures
        held == event_kinds(*events).contains(Readiness::Readable),
;

/// `EventSet::is_writable`: whether the bit of `Writable` is set.
pub assume_specification[ mio::EventSet::is_writable ](events: &mio::EventSet) -> (held: bool)
    ensures
        held == event_kinds(*events).contains(Readiness::Writable),
;

/// `PollOpt::edge`: edge-triggered notification alone.
pub assume_specification[ mio::PollOpt::edge ]() -> (opts: mio::PollOpt)
    ensures
        poll_modes(opts) == set![PollMode::Edge],
;

/// `PollOpt::oneshot`: one-shot notification alone.
pub assume_specification[ mio::PollOpt::oneshot ]() -> (opts: mio::PollOpt)
    ensures
        poll_modes(opts) == set![PollMode::Oneshot],
;

/// `|` on two `PollOpt`s: the bits of both.
#[verifier::external_body]
fn poll_opt_union(left: mio::PollOpt, right: mio::PollOpt) -> (opts: mio::PollOpt)
    ensures
        poll_modes(opts) == poll_modes(left).union(poll_modes(right)),
{
    left | right
}

/// What the poller is to be told about one socket: under which token it is
/// registered, which readiness it waits for, and how it is notified.
pub struct Registration {
    pub token: mio::Token,
    pub interest: mio::EventSet,
    pub opts: mio::PollOpt,
}

/// The options of every registration of a connection: edge-triggered and
/// one-shot, so that each notification has to be followed by a new
/// registration.
pub open spec fn connection_modes() -> Set<PollMode> {
    set![PollMode::Edge, PollMode::Oneshot]
}

/// The options with which a connection is registered and registered again.
pub fn connection_opts() -> (opts: mio::PollOpt)
    ensures
        poll_modes(opts) == connection_modes(),
{
    let opts = poll_opt_union(mio::PollOpt::edge(), mio::PollOpt::oneshot());
    assert(poll_modes(opts) =~= connection_modes());
    opts
}

} // verus!
