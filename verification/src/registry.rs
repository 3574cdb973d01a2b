//! What registering, reregistering and deregistering promise together.
use vstd::prelude::*;
use crate::selector;
use crate::selector::Registration;
use crate::stream::TcpStream;
use crate::types::{Interest, RawHandle, Token};

verus! {

/// The registrations of one handle, in order.
pub open spec fn of_handle(registrations: Seq<Registration>, handle: RawHandle) -> Seq<
    Registration,
> {
    registrations.filter(|registration: Registration| registration.handle == handle)
}

/// Whether a handle is registered.
pub open spec fn is_registered(registrations: Seq<Registration>, handle: RawHandle) -> bool {
    exists|i: int| 0 <= i < registrations.len() && (#[trigger] registrations[i]).handle == handle
}

/// Deregistering a handle leaves no registration of it and every registration of any other
/// handle, in order.
pub proof fn deregistering_keeps_the_others(
    registrations: Seq<Registration>,
    handle: RawHandle,
    other: RawHandle,
)
    ensures
        !is_registered(selector::deregistered(registrations, handle), handle),
        other != handle ==> of_handle(selector::deregistered(registrations, handle), other)
            == of_handle(registrations, other),
    decreases registrations.len(),
{
    reveal(Seq::filter);
    let after = selector::deregistered(registrations, handle);
    if registrations.len() > 0 {
        let before = registrations.drop_last();
        let last = registrations.last();
        deregistering_keeps_the_others(before, handle, other);
        let kept = selector::deregistered(before, handle);
        if last.handle == handle {
            assert(after == kept);
        } else {
            assert(after == kept.push(last));
            assert(after.drop_last() =~= kept);
            if is_registered(after, handle) {
                let i = choose|i: int| 0 <= i < after.len() && (#[trigger] after[i]).handle == handle;
                assert(i < kept.len());
                assert(kept[i].handle == handle);
            }
        }
    }
}

/// Deregistering a handle that is not registered changes nothing.
pub proof fn deregistering_the_unregistered(registrations: Seq<Registration>, handle: RawHandle)
    requires
        !is_registered(registrations, handle),
    ensures
        selector::deregistered(registrations, handle) == registrations,
    decreases registrations.len(),
{
    reveal(Seq::filter);
    if registrations.len() > 0 {
        let before = registrations.drop_last();
        let last = registrations.len() - 1;
        assert(registrations[last].handle != handle);
        assert(!is_registered(before, handle)) by {
            if is_registered(before, handle) {
                let i = choose|i: int|
                    0 <= i < before.len() && (#[trigger] before[i]).handle == handle;
                assert(registrations[i].handle == handle);
            }
        }
        deregistering_the_unregistered(before, handle);
        assert(before.push(registrations.last()) =~= registrations);
    } else {
        assert(registrations =~= Seq::empty());
    }
}

/// Deregistering a handle a second time changes nothing.
pub proof fn deregistering_is_idempotent(registrations: Seq<Registration>, handle: RawHandle)
    ensures
        selector::deregistered(selector::deregistered(registrations, handle), handle)
            == selector::deregistered(registrations, handle),
{
    deregistering_keeps_the_others(registrations, handle, handle);
    deregistering_the_unregistered(selector::deregistered(registrations, handle), handle);
}

/// Deregistering undoes registering: what is left is what deregistering alone leaves, and that
/// is everything there was, if the handle was not registered before.
pub proof fn deregistering_undoes_registering(
    registrations: Seq<Registration>,
    new: Registration,
)
    ensures
        selector::deregistered(registrations.push(new), new.handle) == selector::deregistered(
            registrations,
            new.handle,
        ),
        !is_registered(registrations, new.handle) ==> selector::deregistered(
            registrations.push(new),
            new.handle,
        ) == registrations,
{
    reveal(Seq::filter);
    assert(registrations.push(new).drop_last() =~= registrations);
    if !is_registered(registrations, new.handle) {
        deregistering_the_unregistered(registrations, new.handle);
    }
}

/// Reregistering a handle that is not registered registers it. Reregistering one that is
/// changes its first registration and no other.
pub proof fn reregistering_changes_one(registrations: Seq<Registration>, new: Registration)
    ensures
        !is_registered(registrations, new.handle) ==> selector::reregistered(registrations, new)
            == registrations.push(new),
        is_registered(registrations, new.handle) ==> {
            let after = selector::reregistered(registrations, new);
            &&& selector::handles(after) == selector::handles(registrations)
            &&& after.len() == registrations.len()
            &&& exists|i: int|
                {
                    &&& 0 <= i < registrations.len()
                    &&& #[trigger] after[i] == new
                    &&& forall|j: int|
                        0 <= j < registrations.len() && j != i ==> #[trigger] after[j]
                            == registrations[j]
                    &&& forall|j: int|
                        0 <= j < i ==> (#[trigger] registrations[j]).handle != new.handle
                }
        },
{
    let handles = selector::handles(registrations);
    let after = selector::reregistered(registrations, new);
    handles.index_of_first_ensures(new.handle);
    if is_registered(registrations, new.handle) {
        let k = choose|k: int|
            0 <= k < registrations.len() && (#[trigger] registrations[k]).handle == new.handle;
        assert(handles[k] == new.handle);
        let i = handles.index_of_first(new.handle).unwrap();
        assert(after[i] == new);
        assert(selector::handles(after) =~= handles);
        assert forall|j: int| 0 <= j < i implies (#[trigger] registrations[j]).handle
            != new.handle by {
            assert(handles[j] == registrations[j].handle);
        }
    } else {
        assert(!handles.contains(new.handle)) by {
            if handles.contains(new.handle) {
                let k = choose|k: int| 0 <= k < handles.len() && handles[k] == new.handle;
                assert(registrations[k].handle == new.handle);
            }
        }
    }
}

/// Where no handle is registered twice, reregistering keeps it so, and only the last of two
/// reregistrations of a handle counts.
pub proof fn reregistering_keeps_handles_apart(
    registrations: Seq<Registration>,
    first: Registration,
    second: Registration,
)
    requires
        first.handle == second.handle,
    ensures
        selector::handles(registrations).no_duplicates() ==> selector::handles(
            selector::reregistered(registrations, first),
        ).no_duplicates(),
        selector::reregistered(selector::reregistered(registrations, first), second)
            == selector::reregistered(registrations, second),
{
    let handle = first.handle;
    let handles = selector::handles(registrations);
    let once = selector::reregistered(registrations, first);
    handles.index_of_first_ensures(handle);
    selector::handles(once).index_of_first_ensures(handle);
    match handles.index_of_first(handle) {
        Some(i) => {
            assert(selector::handles(once) =~= handles);
            assert(selector::reregistered(once, second) =~= selector::reregistered(
                registrations,
                second,
            ));
        },
        None => {
            assert(selector::handles(once) =~= handles.push(handle));
            let last = registrations.len() as int;
            assert(selector::handles(once)[last] == handle);
            assert forall|j: int| 0 <= j < last implies selector::handles(once)[j] != handle by {
                assert(handles[j] == selector::handles(once)[j]);
            }
            assert(selector::reregistered(once, second) =~= selector::reregistered(
                registrations,
                second,
            ));
        },
    }
}

/// Deregistering a stream takes back its registration: what is left is what deregistering alone
/// leaves, and that is everything there was, if neither of its handles was registered before.
/// Afterwards neither is, and every registration of any other handle is left, in order.
pub proof fn stream_deregisters_what_it_registers(
    stream: TcpStream,
    registrations: Seq<Registration>,
    token: Token,
    interests: Interest,
    other: RawHandle,
)
    ensures
        stream.without(registrations + stream.registrations(token, interests)) == stream.without(
            registrations,
        ),
        !is_registered(registrations, stream.rx_handle) && !is_registered(
            registrations,
            stream.tx_handle,
        ) ==> stream.without(registrations + stream.registrations(token, interests))
            == registrations,
        !is_registered(stream.without(registrations), stream.rx_handle),
        !is_registered(stream.without(registrations), stream.tx_handle),
        other != stream.rx_handle && other != stream.tx_handle ==> of_handle(
            stream.without(registrations),
            other,
        ) == of_handle(registrations, other),
{
    let (rx, tx) = (stream.rx_handle, stream.tx_handle);
    let added = stream.registrations(token, interests);
    let no_rx = |registration: Registration| registration.handle != rx;
    let no_tx = |registration: Registration| registration.handle != tx;
    Seq::filter_distributes_over_add(registrations, added, no_rx);
    Seq::filter_distributes_over_add(registrations.filter(no_rx), added.filter(no_rx), no_tx);
    assert(added.filter(no_rx).filter(no_tx) =~= Seq::empty()) by {
        assert forall|i: int| 0 <= i < added.len() implies (#[trigger] added[i]).handle == rx
            || added[i].handle == tx by {}
        let left = added.filter(no_rx).filter(no_tx);
        if left.len() > 0 {
            added.filter(no_rx).lemma_filter_pred(no_tx, 0);
            filtered_is_from(added.filter(no_rx), no_tx, 0);
            let k = choose|k: int|
                0 <= k < added.filter(no_rx).len() && added.filter(no_rx)[k] == left[0];
            added.lemma_filter_pred(no_rx, k);
            filtered_is_from(added, no_rx, k);
        }
    }
    assert(stream.without(registrations + added) =~= stream.without(registrations));
    if !is_registered(registrations, rx) && !is_registered(registrations, tx) {
        deregistering_the_unregistered(registrations, rx);
        deregistering_the_unregistered(registrations, tx);
    }
    deregistering_keeps_the_others(registrations, rx, other);
    deregistering_keeps_the_others(selector::deregistered(registrations, rx), tx, other);
    let without_rx = selector::deregistered(registrations, rx);
    if is_registered(stream.without(registrations), rx) {
        let i = choose|i: int|
            0 <= i < stream.without(registrations).len() && (#[trigger] stream.without(
                registrations,
            )[i]).handle == rx;
        filtered_is_from(without_rx, no_tx, i);
        let k = choose|k: int|
            0 <= k < without_rx.len() && without_rx[k] == without_rx.filter(no_tx)[i];
        assert(without_rx[k].handle == rx);
    }
}

/// What a filter keeps comes from what it filters.
proof fn filtered_is_from(
    registrations: Seq<Registration>,
    keep: spec_fn(Registration) -> bool,
    i: int,
)
    requires
        0 <= i < registrations.filter(keep).len(),
    ensures
        exists|k: int|
            0 <= k < registrations.len() && registrations[k] == registrations.filter(keep)[i],
    decreases registrations.len(),
{
    reveal(Seq::filter);
    if registrations.len() > 0 {
        let before = registrations.drop_last();
        if i < before.filter(keep).len() {
            filtered_is_from(before, keep, i);
            let k = choose|k: int|
                0 <= k < before.len() && before[k] == before.filter(keep)[i];
            assert(registrations[k] == registrations.filter(keep)[i]);
        } else {
            assert(registrations[registrations.len() - 1] == registrations.filter(keep)[i]);
        }
    }
}

/// Of two reregistrations of a stream only the last counts.
pub proof fn stream_reregisters_anew(
    stream: TcpStream,
    registrations: Seq<Registration>,
    first: (Token, Interest),
    second: (Token, Interest),
)
    ensures
        ({
            let once = stream.without(registrations) + stream.registrations(first.0, first.1);
            stream.without(once) + stream.registrations(second.0, second.1) == stream.without(
                registrations,
            ) + stream.registrations(second.0, second.1)
        }),
{
    let left = stream.without(registrations);
    stream_deregisters_what_it_registers(stream, registrations, first.0, first.1, stream.rx_handle);
    stream_deregisters_what_it_registers(stream, left, first.0, first.1, stream.rx_handle);
}

/// Deregistering goes over the registrations one by one: it drops one of the handle, keeps any
/// other in its place, and finds nothing where there is nothing.
pub proof fn deregistering_goes_one_by_one(
    registrations: Seq<Registration>,
    last: Registration,
    handle: RawHandle,
)
    ensures
        selector::deregistered(Seq::empty(), handle) == Seq::<Registration>::empty(),
        last.handle == handle ==> selector::deregistered(registrations.push(last), handle)
            == selector::deregistered(registrations, handle),
        last.handle != handle ==> selector::deregistered(registrations.push(last), handle)
            == selector::deregistered(registrations, handle).push(last),
{
    reveal(Seq::filter);
    assert(registrations.push(last).drop_last() =~= registrations);
}

/// Deregistering a stream goes over the registrations one by one: it drops one of either of the
/// stream's handles, keeps any other in its place, and finds nothing where there is nothing.
pub proof fn stream_deregistering_goes_one_by_one(
    stream: TcpStream,
    registrations: Seq<Registration>,
    last: Registration,
)
    ensures
        stream.without(Seq::empty()) == Seq::<Registration>::empty(),
        last.handle == stream.rx_handle || last.handle == stream.tx_handle ==> stream.without(
            registrations.push(last),
        ) == stream.without(registrations),
        last.handle != stream.rx_handle && last.handle != stream.tx_handle ==> stream.without(
            registrations.push(last),
        ) == stream.without(registrations).push(last),
{
    let (rx, tx) = (stream.rx_handle, stream.tx_handle);
    let without_rx = selector::deregistered(registrations, rx);
    deregistering_goes_one_by_one(registrations, last, rx);
    deregistering_goes_one_by_one(without_rx, last, tx);
}

/// Registering a stream adds, under its token, one registration of the end bytes arrive at, for
/// readability alone, if and only if readability is asked for, then one of the end they leave by,
/// for writability alone, if and only if writability is, and nothing else.
pub proof fn stream_registers_each_end(
    stream: TcpStream,
    token: Token,
    interests: Interest,
    any: Registration,
)
    ensures
        ({
            let added = stream.registrations(token, interests);
            let arrivals = any.handle == stream.rx_handle && any.interest.readable
                && !any.interest.writable && any.token == token;
            let departures = any.handle == stream.tx_handle && any.interest.writable
                && !any.interest.readable && any.token == token;
            &&& added.no_duplicates()
            &&& added.contains(any) <==> (interests.readable && arrivals) || (interests.writable
                && departures)
            &&& added.len() <= 2
            &&& added.len() == 2 <==> interests.readable && interests.writable
            &&& added.len() == 0 <==> !interests.readable && !interests.writable
            &&& added.len() == 2 ==> added[0].interest.readable && added[1].interest.writable
        }),
{
    let added = stream.registrations(token, interests);
    if interests.readable {
        assert(added.contains(added[0]));
        assert(added[0].handle == stream.rx_handle);
    }
    if interests.writable {
        let last = added.len() - 1;
        assert(added[last].handle == stream.tx_handle);
        assert(added.contains(added[last]));
    }
    let arrivals = Registration {
        handle: stream.rx_handle,
        interest: Interest { readable: true, writable: false },
        token,
    };
    let departures = Registration {
        handle: stream.tx_handle,
        interest: Interest { readable: false, writable: true },
        token,
    };
    if added.contains(any) {
        assert(any == arrivals || any == departures);
    }
}

/// What a selector keeps is what it is seen to keep.
pub proof fn registrations_are_what_is_kept(inner: selector::SelectorInner)
    ensures
        inner@.len() == inner.registrations.len(),
        forall|i: int|
            0 <= i < inner.registrations.len() ==> #[trigger] inner@[i] == inner.registrations[i],
{
}

} // verus!
