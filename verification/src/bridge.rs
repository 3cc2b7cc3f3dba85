//! The host function behind the guest's `get` call. The call runs in two
//! steps around the one point where the caller waits: `invoke_get` reads the
//! request and submits the action, `complete_get` writes the response once
//! the outcome has arrived.

use crate::action::{Action, ActionOutcome, ActionView, OutcomeView};
use crate::bus::DispatchBus;
use crate::codec::{decode_request, encode_response, request_key, response_bytes, GetRequest};
use crate::ident::RequestId;
use crate::memory::{in_bounds, overwritten, GuestMemory};
use crate::observer::{watched, watches_apart, Observer, ObserverView};
use crate::state::State;
use crate::status::{ERROR_SERDE, SUCCESS};
use vstd::prelude::*;

verus! {

/// How the first step of a call ended.
pub enum GetCall {
    /// The request was refused with this status. No action was built and
    /// nothing was submitted.
    Rejected { status: i32 },
    /// The action was submitted and its observer registered. The caller now
    /// waits on the receiving end of its channel.
    Submitted { action: Action },
}

/// A failure of the host itself, as opposed to a bad request. It ends the
/// call and is never turned into a status for the guest.
#[derive(Clone, Copy, Debug, PartialEq, Eq, Structural)]
pub enum Fault {
    /// The identifier drawn for the request belongs to a request that is
    /// still in flight.
    IdentifierCollision,
    /// The outcome that arrived is not the outcome of a lookup.
    OutcomeMismatch,
    /// The response does not fit into guest memory at the request's offset.
    ResponseOverflow,
}

/// The key that the guest asks for with `length` bytes at `offset`; `None`
/// where the range leaves the memory or the bytes do not decode.
pub open spec fn requested_key(memory: Seq<u8>, offset: int, length: int) -> Option<Seq<char>> {
    if in_bounds(memory, offset, length) {
        request_key(memory.subrange(offset, offset + length))
    } else {
        None
    }
}

/// Whether `action` is in flight: applied in `table`, queued for the
/// reducer, or watched by a registered observer.
pub open spec fn in_flight<W>(bus: DispatchBus<W>, current: State, action: ActionView) -> bool {
    current@.contains_key(action) || bus.queue().contains(action) || watched(
        bus.observers(),
        action,
    )
}

/// What submitting the lookup of `key` under `id` does to the bus, and how it
/// ends.
pub open spec fn submitted<W>(
    before: DispatchBus<W>,
    after: DispatchBus<W>,
    current: State,
    key: Seq<char>,
    id: RequestId,
    waiter: W,
    result: Result<GetCall, Fault>,
) -> bool {
    let built = ActionView::Get { key, id };
    if in_flight(before, current, built) {
        &&& result == Err::<GetCall, Fault>(Fault::IdentifierCollision)
        &&& after.queue() == before.queue()
        &&& after.observers() == before.observers()
    } else {
        &&& result matches Ok(GetCall::Submitted { action })
        &&& action@ == built
        &&& after.queue() == before.queue().push(built)
        &&& after.observers() == before.observers().push(ObserverView::registered(built, waiter))
    }
}

/// What a whole first step does, given the identifier it drew.
pub open spec fn invoked<W>(
    memory: Seq<u8>,
    before: DispatchBus<W>,
    after: DispatchBus<W>,
    current: State,
    offset: u32,
    length: u32,
    waiter: W,
    id: RequestId,
    result: Result<GetCall, Fault>,
) -> bool {
    match requested_key(memory, offset as int, length as int) {
        None => {
            &&& result == Ok::<GetCall, Fault>(GetCall::Rejected { status: ERROR_SERDE })
            &&& after.queue() == before.queue()
            &&& after.observers() == before.observers()
        },
        Some(key) => submitted(before, after, current, key, id, waiter, result),
    }
}

/// A submission that succeeds keeps requests apart: its action was not in
/// flight before and is queued and watched after, whatever was in flight
/// stays so and differs from it, and neither the queue nor the registry gains
/// a duplicate.
pub proof fn lemma_submission_keeps_requests_apart<W>(
    before: DispatchBus<W>,
    after: DispatchBus<W>,
    current: State,
    key: Seq<char>,
    id: RequestId,
    waiter: W,
    result: Result<GetCall, Fault>,
)
    requires
        submitted(before, after, current, key, id, waiter, result),
        result is Ok,
    ensures
        !in_flight(before, current, ActionView::Get { key, id }),
        after.queue().contains(ActionView::Get { key, id }),
        watched(after.observers(), ActionView::Get { key, id }),
        forall|other: ActionView| #[trigger]
            in_flight(before, current, other) ==> in_flight(after, current, other) && other != (
            ActionView::Get { key, id }),
        before.queue().no_duplicates() ==> after.queue().no_duplicates(),
        watches_apart(before.observers()) ==> watches_apart(after.observers()),
{
    let built = ActionView::Get { key, id };
    let added = ObserverView::registered(built, waiter);
    let queue = before.queue();
    let observers = before.observers();
    assert(after.queue()[queue.len() as int] == built);
    assert(after.observers()[observers.len() as int] == added);
    assert forall|other: ActionView| #[trigger] in_flight(before, current, other) implies in_flight(
        after,
        current,
        other,
    ) && other != built by {
        if queue.contains(other) {
            let at = choose|at: int| 0 <= at < queue.len() && queue[at] == other;
            assert(after.queue()[at] == other);
        }
        if watched(observers, other) {
            let at = choose|at: int|
                0 <= at < observers.len() && (#[trigger] observers[at]).waiter is Some
                    && observers[at].watched == other;
            assert(after.observers()[at] == observers[at]);
        }
    }
    if queue.no_duplicates() {
        assert forall|i: int, j: int|
            0 <= i < after.queue().len() && 0 <= j < after.queue().len() && i != j implies after.queue()[i]
            != after.queue()[j] by {
            if i < queue.len() {
                assert(after.queue()[i] == queue[i]);
            }
            if j < queue.len() {
                assert(after.queue()[j] == queue[j]);
            }
        }
    }
    if watches_apart(observers) {
        let longer = after.observers();
        assert forall|i: int, j: int|
            0 <= i < j < longer.len() && (#[trigger] longer[i]).waiter is Some && (
            #[trigger] longer[j]).waiter is Some implies longer[i].watched
            != longer[j].watched by {
            assert(longer[i] == observers[i]);
            if j < observers.len() {
                assert(longer[j] == observers[j]);
            } else {
                assert(watched(observers, observers[i].watched));
            }
        }
    }
}

/// Two requests that are in flight together differ in their identifiers: a
/// submission succeeds only under an identifier that no request in flight
/// with the same key carries.
pub proof fn lemma_concurrent_requests_differ<W>(
    before: DispatchBus<W>,
    after: DispatchBus<W>,
    current: State,
    key: Seq<char>,
    id: RequestId,
    waiter: W,
    result: Result<GetCall, Fault>,
    earlier: RequestId,
)
    requires
        submitted(before, after, current, key, id, waiter, result),
        result is Ok,
        in_flight(before, current, ActionView::Get { key, id: earlier }),
    ensures
        id != earlier,
{
}

/// Reads and decodes the request that the guest left at `offset`. A range
/// outside the memory is a refused request like any other, never a fault.
pub fn read_request(memory: &GuestMemory, offset: u32, length: u32) -> (request: Option<
    GetRequest,
>)
    ensures
        request is Some <==> requested_key(memory@, offset as int, length as int) is Some,
        request matches Some(decoded) ==> requested_key(memory@, offset as int, length as int)
            == Some(decoded.key@),
        !in_bounds(memory@, offset as int, length as int) ==> request is None,
{
    match memory.read(offset, length) {
        None => None,
        Some(bytes) => decode_request(bytes),
    }
}

/// Builds the lookup of `request.key` under `id` and submits it together with
/// an observer of exactly that action. An identifier that a request in flight
/// already carries is a fault: nothing is submitted under it.
pub fn submit_get<W>(
    bus: &mut DispatchBus<W>,
    current: &State,
    request: GetRequest,
    waiter: W,
    id: RequestId,
) -> (result: Result<GetCall, Fault>)
    ensures
        submitted(*old(bus), *final(bus), *current, request.key@, id, waiter, result),
{
    let action = Action::get(request.key, id);
    if current.contains(&action) || bus.holds(&action) {
        return Err(Fault::IdentifierCollision);
    }
    let observer = Observer::new(action.duplicate(), waiter);
    let ready = bus.submit(action.duplicate(), observer, current);
    assert(ready is None);
    Ok(GetCall::Submitted { action })
}

/// The first step of a call, with the identifier given: reads the request
/// and, where it decodes, submits the action.
pub fn invoke_get_with_id<W>(
    memory: &GuestMemory,
    bus: &mut DispatchBus<W>,
    current: &State,
    offset: u32,
    length: u32,
    waiter: W,
    id: RequestId,
) -> (result: Result<GetCall, Fault>)
    ensures
        invoked(memory@, *old(bus), *final(bus), *current, offset, length, waiter, id, result),
        !in_bounds(memory@, offset as int, length as int) ==> result == Ok::<GetCall, Fault>(
            GetCall::Rejected { status: ERROR_SERDE },
        ),
{
    match read_request(memory, offset, length) {
        None => Ok(GetCall::Rejected { status: ERROR_SERDE }),
        Some(request) => submit_get(bus, current, request, waiter, id),
    }
}

/// The first step of a call: reads the request that the guest left at
/// `offset` and, where it decodes, submits a lookup under a fresh identifier
/// together with an observer of it. A request that cannot be read or decoded
/// is answered with `ERROR_SERDE`; no identifier is drawn for it and nothing
/// is submitted.
pub fn invoke_get<W>(
    memory: &GuestMemory,
    bus: &mut DispatchBus<W>,
    current: &State,
    offset: u32,
    length: u32,
    waiter: W,
) -> (result: Result<GetCall, Fault>)
    ensures
        exists|id: RequestId| #[trigger]
            invoked(memory@, *old(bus), *final(bus), *current, offset, length, waiter, id, result),
        requested_key(memory@, offset as int, length as int) is None <==> result == Ok::<
            GetCall,
            Fault,
        >(GetCall::Rejected { status: ERROR_SERDE }),
        !in_bounds(memory@, offset as int, length as int) ==> result == Ok::<GetCall, Fault>(
            GetCall::Rejected { status: ERROR_SERDE },
        ),
        !(result matches Ok(GetCall::Submitted { .. })) ==> final(bus).queue() == old(bus).queue()
            && final(bus).observers() == old(bus).observers(),
{
    match read_request(memory, offset, length) {
        None => {
            let result = Ok(GetCall::Rejected { status: ERROR_SERDE });
            proof {
                let id: RequestId = arbitrary();
                assert(invoked(
                    memory@,
                    *old(bus),
                    *bus,
                    *current,
                    offset,
                    length,
                    waiter,
                    id,
                    result,
                ));
            }
            result
        },
        Some(request) => {
            let id = RequestId::fresh();
            let result = submit_get(bus, current, request, waiter, id);
            assert(invoked(memory@, *old(bus), *bus, *current, offset, length, waiter, id, result));
            result
        },
    }
}

/// What the second step makes of guest memory and what it returns.
pub open spec fn completed(
    before: Seq<u8>,
    after: Seq<u8>,
    offset: u32,
    outcome: OutcomeView,
    result: Result<i32, Fault>,
) -> bool {
    match outcome {
        OutcomeView::Get(found) => {
            let response = response_bytes(found);
            if in_bounds(before, offset as int, response.len() as int) {
                result == Ok::<i32, Fault>(SUCCESS) && after == overwritten(
                    before,
                    offset as int,
                    response,
                )
            } else {
                result == Err::<i32, Fault>(Fault::ResponseOverflow) && after == before
            }
        },
        _ => result == Err::<i32, Fault>(Fault::OutcomeMismatch) && after == before,
    }
}

/// The second step of a call: encodes the outcome that arrived and writes it
/// where the request stood. Only the outcome of a lookup is accepted, and the
/// response has to fit; otherwise the memory stays as it was and the call
/// ends in a fault.
pub fn complete_get(memory: &mut GuestMemory, offset: u32, outcome: &ActionOutcome) -> (result:
    Result<i32, Fault>)
    ensures
        completed(old(memory)@, final(memory)@, offset, outcome@, result),
{
    match outcome {
        ActionOutcome::Get(found) => {
            let response = encode_response(found);
            if memory.write(offset, response.as_slice()) {
                Ok(SUCCESS)
            } else {
                Err(Fault::ResponseOverflow)
            }
        },
        _ => Err(Fault::OutcomeMismatch),
    }
}

} // verus!
