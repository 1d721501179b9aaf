//! The reconciler's decisions: which resources are handlers, and what each
//! observed event does to the routing table.
//!
//! The reconciler is the only writer of the table. It loads the resources
//! that exist, then applies one watch event after another.

use crate::crd::{clone_filters, clone_routes, HandlerModel, WebhookHandler, WebhookHandlerSpec};
use crate::handler_id::{handler_id_of_name, has_uuid_length, parse_uuid};
use crate::state::{HandlerConfig, RoutingTable};
use crate::text::{chars_of, starts_with_at};
use vstd::prelude::*;
use vstd::string::StrSliceExecFns;

verus! {

/// Whether a resource name can carry an identity: it starts with
/// `handler-`, and what follows has the length of a UUID.
pub open spec fn has_handler_shape(name: Option<Seq<char>>) -> bool {
    name matches Some(text) && "handler-"@.is_prefix_of(text) && has_uuid_length(
        text.skip("handler-"@.len() as int),
    )
}

/// Reads the handler identity off a resource name. A name that has not the
/// shape `handler-<uuid>` carries none.
pub fn parse_uuid_from_name(name: &Option<String>) -> (id: Option<u128>)
    ensures
        id == handler_id_of_name(name.deep_view()),
        !has_handler_shape(name.deep_view()) ==> id is None,
{
    match name {
        None => None,
        Some(text) => {
            let chars = chars_of(text.as_str());
            let prefix = chars_of("handler-");
            assert(chars@.skip(0) == chars@);
            if starts_with_at(&chars, 0, &prefix) {
                parse_uuid(text.as_str().substring_char(prefix.len(), chars.len()))
            } else {
                None
            }
        },
    }
}

/// The routing-table entry for a declared handler.
pub fn project(spec: &WebhookHandlerSpec) -> (config: HandlerConfig)
    ensures
        config@ == spec@,
{
    HandlerConfig {
        topic: spec.topic.clone(),
        signature_key: spec.signature_key.clone(),
        filters: clone_filters(&spec.filters),
        routes: clone_routes(&spec.routes),
    }
}

/// One item of the watch stream.
#[derive(Debug)]
pub enum WatchEvent {
    /// A resource was created or changed.
    Applied(WebhookHandler),
    /// A resource was deleted.
    Deleted(WebhookHandler),
    /// The watch started over and lists the resources that exist.
    Restarted(Vec<WebhookHandler>),
    /// The stream reported an error; it goes on.
    Failed(String),
}

/// What an event did to the table.
#[derive(Debug, Clone, Copy, PartialEq, Eq, Structural)]
pub enum Reconciled {
    /// The handler's entry was set.
    Upserted(u128),
    /// The handler's entry was dropped, if it had one.
    Evicted(u128),
    /// The listed resources were applied; so many of them are handlers.
    Reloaded(usize),
    /// The resource is no handler, or the stream reported an error: the
    /// table is as it was.
    Ignored,
}

/// The table after a resource named `name` with the spec `spec` was applied.
pub open spec fn table_after_apply(
    table: Map<u128, HandlerModel>,
    name: Option<Seq<char>>,
    spec: HandlerModel,
) -> Map<u128, HandlerModel> {
    match handler_id_of_name(name) {
        Some(id) => table.insert(id, spec),
        None => table,
    }
}

/// The table after a resource named `name` was deleted.
pub open spec fn table_after_delete(table: Map<u128, HandlerModel>, name: Option<Seq<char>>) -> Map<
    u128,
    HandlerModel,
> {
    match handler_id_of_name(name) {
        Some(id) => table.remove(id),
        None => table,
    }
}

/// The table after the resources `resources[..n]` were applied in order.
pub open spec fn table_after_load(
    table: Map<u128, HandlerModel>,
    resources: Seq<WebhookHandler>,
    n: int,
) -> Map<u128, HandlerModel>
    decreases n,
{
    if n <= 0 {
        table
    } else {
        table_after_apply(
            table_after_load(table, resources, n - 1),
            resources[n - 1].name.deep_view(),
            resources[n - 1].spec@,
        )
    }
}

/// The number of handlers among `resources[..n]`.
pub open spec fn handlers_among(resources: Seq<WebhookHandler>, n: int) -> int
    decreases n,
{
    if n <= 0 {
        0
    } else {
        handlers_among(resources, n - 1) + if handler_id_of_name(
            resources[n - 1].name.deep_view(),
        ) is Some {
            1int
        } else {
            0int
        }
    }
}

/// Applies one resource: sets the entry of the handler it declares. A
/// resource whose name is not `handler-<uuid>` changes nothing.
pub fn apply_resource(table: &mut RoutingTable, resource: &WebhookHandler) -> (id: Option<u128>)
    ensures
        id == handler_id_of_name(resource.name.deep_view()),
        !has_handler_shape(resource.name.deep_view()) ==> id is None && final(table)@ == old(
            table,
        )@,
        final(table)@ == table_after_apply(
            old(table)@,
            resource.name.deep_view(),
            resource.spec@,
        ),
{
    match parse_uuid_from_name(&resource.name) {
        Some(id) => {
            table.insert(id, project(&resource.spec));
            Some(id)
        },
        None => None,
    }
}

/// Removes the entry of the handler that a deleted resource declared.
pub fn remove_resource(table: &mut RoutingTable, resource: &WebhookHandler) -> (id: Option<u128>)
    ensures
        id == handler_id_of_name(resource.name.deep_view()),
        !has_handler_shape(resource.name.deep_view()) ==> id is None && final(table)@ == old(
            table,
        )@,
        final(table)@ == table_after_delete(old(table)@, resource.name.deep_view()),
{
    match parse_uuid_from_name(&resource.name) {
        Some(id) => {
            table.remove(id);
            Some(id)
        },
        None => None,
    }
}

/// The initial snapshot: applies every listed resource in order and returns
/// how many of them were handlers. One that is no handler does not stop the
/// rest.
pub fn load_existing(table: &mut RoutingTable, resources: &Vec<WebhookHandler>) -> (loaded: usize)
    ensures
        final(table)@ == table_after_load(old(table)@, resources@, resources@.len() as int),
        loaded == handlers_among(resources@, resources@.len() as int),
{
    let mut loaded: usize = 0;
    let mut i: usize = 0;
    while i < resources.len()
        invariant
            i <= resources.len(),
            loaded == handlers_among(resources@, i as int),
            loaded <= i,
            table@ == table_after_load(old(table)@, resources@, i as int),
        decreases resources.len() - i,
    {
        if apply_resource(table, &resources[i]).is_some() {
            loaded = loaded + 1;
        }
        i = i + 1;
    }
    loaded
}

/// Applies one watch event to the table: an applied resource sets the entry
/// of its handler, a deleted one drops it, a restart applies each listed
/// resource, and an error changes nothing.
pub fn reconcile(table: &mut RoutingTable, event: &WatchEvent) -> (done: Reconciled)
    ensures
        match *event {
            WatchEvent::Applied(resource) => {
                &&& final(table)@ == table_after_apply(
                    old(table)@,
                    resource.name.deep_view(),
                    resource.spec@,
                )
                &&& done == match handler_id_of_name(resource.name.deep_view()) {
                    Some(id) => Reconciled::Upserted(id),
                    None => Reconciled::Ignored,
                }
            },
            WatchEvent::Deleted(resource) => {
                &&& final(table)@ == table_after_delete(old(table)@, resource.name.deep_view())
                &&& done == match handler_id_of_name(resource.name.deep_view()) {
                    Some(id) => Reconciled::Evicted(id),
                    None => Reconciled::Ignored,
                }
            },
            WatchEvent::Restarted(resources) => {
                &&& final(table)@ == table_after_load(
                    old(table)@,
                    resources@,
                    resources@.len() as int,
                )
                &&& done == Reconciled::Reloaded(
                    handlers_among(resources@, resources@.len() as int) as usize,
                )
            },
            WatchEvent::Failed(_) => final(table)@ == old(table)@ && done == Reconciled::Ignored,
        },
        match *event {
            WatchEvent::Applied(resource) | WatchEvent::Deleted(resource) => !has_handler_shape(
                resource.name.deep_view(),
            ) ==> final(table)@ == old(table)@ && done == Reconciled::Ignored,
            _ => true,
        },
{
    match event {
        WatchEvent::Applied(resource) => match apply_resource(table, resource) {
            Some(id) => Reconciled::Upserted(id),
            None => Reconciled::Ignored,
        },
        WatchEvent::Deleted(resource) => match remove_resource(table, resource) {
            Some(id) => Reconciled::Evicted(id),
            None => Reconciled::Ignored,
        },
        WatchEvent::Restarted(resources) => Reconciled::Reloaded(load_existing(table, resources)),
        WatchEvent::Failed(_) => Reconciled::Ignored,
    }
}

/// After an applied event for a resource that carries the identity `id`, the
/// table holds the projection of the resource's spec under `id`.
pub proof fn lemma_applied_then_read(
    table: Map<u128, HandlerModel>,
    name: Option<Seq<char>>,
    spec: HandlerModel,
    id: u128,
)
    requires
        handler_id_of_name(name) == Some(id),
    ensures
        table_after_apply(table, name, spec).contains_key(id),
        table_after_apply(table, name, spec)[id] == spec,
{
}

/// An event touches the entry of the handler that its resource declares and
/// no other: every other identity is in the table after the event exactly
/// if it was before, with the same configuration.
pub proof fn lemma_event_touches_one_entry(
    table: Map<u128, HandlerModel>,
    name: Option<Seq<char>>,
    spec: HandlerModel,
    other: u128,
)
    requires
        handler_id_of_name(name) != Some(other),
    ensures
        table_after_apply(table, name, spec).contains_key(other) == table.contains_key(other),
        table_after_delete(table, name).contains_key(other) == table.contains_key(other),
        table.contains_key(other) ==> table_after_apply(table, name, spec)[other] == table[other]
            && table_after_delete(table, name)[other] == table[other],
{
}

/// After a deleted event for a resource that carries the identity `id`, the
/// table has no entry for `id`.
pub proof fn lemma_deleted_then_absent(
    table: Map<u128, HandlerModel>,
    name: Option<Seq<char>>,
    id: u128,
)
    requires
        handler_id_of_name(name) == Some(id),
    ensures
        !table_after_delete(table, name).contains_key(id),
{
}

/// A resource whose name does not start with `handler-`, or that has no
/// name, is ignored: neither applying nor deleting it changes the table.
pub proof fn lemma_other_resources_ignored(
    table: Map<u128, HandlerModel>,
    name: Option<Seq<char>>,
    spec: HandlerModel,
)
    requires
        name matches Some(text) ==> !"handler-"@.is_prefix_of(text),
    ensures
        table_after_apply(table, name, spec) == table,
        table_after_delete(table, name) == table,
{
}

} // verus!
