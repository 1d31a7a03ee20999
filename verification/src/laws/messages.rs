//! What errors say.
use std::time::Duration;

use vstd::prelude::*;

use crate::event::TopicClosed;
use crate::runtime::dag::DagError;
use crate::runtime::types::RuntimeError;
use crate::service::{DynServiceError, ServiceName, ServiceStartError};
use crate::util;

verus! {

/// Errors of the dependency graph name the services that they are about.
pub proof fn law_graph_errors_name_services(
    service: ServiceName,
    dep: ServiceName,
    unknown: String,
    itself: String,
    names: Vec<ServiceName>,
    cycle: String,
)
    requires
        call_ensures(
            DagError::message,
            (&DagError::UnknownDependency { service, dep },),
            unknown,
        ),
        call_ensures(DagError::message, (&DagError::SelfDependency(service),), itself),
        call_ensures(DagError::message, (&DagError::Cycle(names),), cycle),
    ensures
        unknown@ == "service `"@ + service@ + "` depends on unknown service `"@ + dep@ + "`"@,
        itself@ == "service `"@ + service@ + "` cannot depend on itself"@,
        cycle@ == "cycle detected in dependency graph; services involved: "@ + util::names_text(
            names@.map_values(|name: ServiceName| name@),
        ),
{
    assert(util::name_views(names@) =~= names@.map_values(|name: ServiceName| name@));
}

/// Errors of a run say what happened and pass on what the cause says.
pub proof fn law_run_errors_pass_on_their_cause<S, F: FnOnce(&S) -> String>(
    cause: DagError,
    cause_text: String,
    graph_text: String,
    failed: DynServiceError<S>,
    show: F,
    failed_text: String,
    run_text: String,
    timeout: Duration,
    late_text: String,
)
    requires
        call_ensures(DagError::message, (&cause,), cause_text),
        call_ensures(
            RuntimeError::<S>::message::<F>,
            (&RuntimeError::<S>::Dag(cause), show),
            graph_text,
        ),
        call_ensures(DynServiceError::<S>::message::<F>, (&failed, show), failed_text),
        call_ensures(
            RuntimeError::<S>::message::<F>,
            (&RuntimeError::ServiceFailed(failed), show),
            run_text,
        ),
        call_ensures(
            RuntimeError::<S>::message::<F>,
            (&RuntimeError::<S>::ShutdownTimeout(timeout), show),
            late_text,
        ),
    ensures
        graph_text@ == "dependency graph error: "@ + cause_text@,
        exists|shown: String|
            {
                &&& #[trigger] call_ensures(show, (&failed.source,), shown)
                &&& failed_text@ == "service `"@ + failed.service@ + "` failed: "@ + shown@
            },
        exists|shown: String|
            {
                &&& #[trigger] call_ensures(show, (&failed.source,), shown)
                &&& run_text@ == "a service failed: "@ + ("service `"@ + failed.service@
                    + "` failed: "@ + shown@)
            },
        late_text@ == "shutdown timed out after "@ + util::duration_text(
            util::duration_nanos(timeout),
        ),
{
}

/// A name that is taken is named, and a closed topic says so.
pub proof fn law_small_errors_say_what_they_are(
    name: ServiceName,
    taken: String,
    closed: String,
)
    requires
        call_ensures(ServiceStartError::message, (&ServiceStartError::Duplicate(name),), taken),
        call_ensures(TopicClosed::message, (&TopicClosed,), closed),
    ensures
        taken@ == "duplicate service name: "@ + name@,
        closed@ == "topic is closed (no active subscribers)"@,
{
}

/// An error is found by its type exactly as the cast finds it.
pub proof fn law_downcast_is_the_cast<S, E, F: FnOnce(&S) -> Option<&E>>(
    err: DynServiceError<S>,
    cast: F,
    found: Option<&E>,
)
    requires
        call_ensures(DynServiceError::<S>::downcast_ref::<E, F>, (&err, cast), found),
    ensures
        call_ensures(cast, (&err.source,), found),
{
}

} // verus!
